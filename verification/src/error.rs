//! The error type shared by every fallible operation of the library.

use vstd::prelude::*;

verus! {

/// Why an operation on a container or on the image loader failed.
#[derive(Debug, PartialEq, Eq)]
pub enum Error {
    /// The requested identifier is absent from the container.
    EntryNotFound(String),
    /// A file or archive could not be read.
    Io(String),
    /// An image, a page or a book could not be parsed or rendered.
    Decode(String),
    /// The file extension names no supported container format.
    UnsupportedContainer(String),
    /// A rendering-engine library could not be loaded or bound.
    NativeBinding(String),
    /// An internal synchronization primitive failed; unexpected and fatal.
    Lock(String),
}

/// The kind of an [`Error`], without its message.
#[derive(Debug, Clone, Copy, PartialEq, Eq, Structural)]
pub enum ErrorCode {
    UnsupportedContainer,
    EntryNotFound,
    Decode,
    Io,
    NativeBinding,
    Lock,
}

impl ErrorCode {
    /// Maps each error kind to a stable integer code for programmatic handling.
    pub fn code(&self) -> (r: i32)
        ensures
            r == match *self {
                ErrorCode::UnsupportedContainer => 10001i32,
                ErrorCode::EntryNotFound => 10002i32,
                ErrorCode::Decode => 10201i32,
                ErrorCode::NativeBinding => 10101i32,
                ErrorCode::Io => 20001i32,
                ErrorCode::Lock => 60001i32,
            },
    {
        match *self {
            ErrorCode::UnsupportedContainer => 10001,
            ErrorCode::EntryNotFound => 10002,
            ErrorCode::Decode => 10201,
            ErrorCode::NativeBinding => 10101,
            ErrorCode::Io => 20001,
            ErrorCode::Lock => 60001,
        }
    }
}

impl Error {
    /// The kind of this error.
    pub fn code(&self) -> (r: ErrorCode)
        ensures
            r == match *self {
                Error::UnsupportedContainer(_) => ErrorCode::UnsupportedContainer,
                Error::EntryNotFound(_) => ErrorCode::EntryNotFound,
                Error::Decode(_) => ErrorCode::Decode,
                Error::NativeBinding(_) => ErrorCode::NativeBinding,
                Error::Io(_) => ErrorCode::Io,
                Error::Lock(_) => ErrorCode::Lock,
            },
    {
        match *self {
            Error::UnsupportedContainer(_) => ErrorCode::UnsupportedContainer,
            Error::EntryNotFound(_) => ErrorCode::EntryNotFound,
            Error::Decode(_) => ErrorCode::Decode,
            Error::NativeBinding(_) => ErrorCode::NativeBinding,
            Error::Io(_) => ErrorCode::Io,
            Error::Lock(_) => ErrorCode::Lock,
        }
    }

    /// The message carried by this error.
    pub fn message(&self) -> (r: &String)
        ensures
            r@ == match *self {
                Error::UnsupportedContainer(m) => m@,
                Error::EntryNotFound(m) => m@,
                Error::Decode(m) => m@,
                Error::NativeBinding(m) => m@,
                Error::Io(m) => m@,
                Error::Lock(m) => m@,
            },
    {
        match self {
            Error::UnsupportedContainer(m) => m,
            Error::EntryNotFound(m) => m,
            Error::Decode(m) => m,
            Error::NativeBinding(m) => m,
            Error::Io(m) => m,
            Error::Lock(m) => m,
        }
    }
}

} // verus!
