//! Plain-value settings types: reader preferences and the construction
//! parameters of containers and the loader.

use vstd::prelude::*;
use crate::resize::ResizeFilter;

verus! {

/// The available user-interface themes.
#[derive(Debug, Clone, Copy, PartialEq, Eq, Structural)]
pub enum AppTheme {
    /// Follow the system theme.
    System,
    /// Always light.
    Light,
    /// Always dark.
    Dark,
}

/// The theme named by a snake-case name; any unknown name falls back to the
/// default.
pub open spec fn spec_theme_from_name(n: Seq<char>) -> AppTheme {
    if n == "light"@ {
        AppTheme::Light
    } else if n == "dark"@ {
        AppTheme::Dark
    } else {
        AppTheme::System
    }
}

impl Default for AppTheme {
    /// The default theme follows the system.
    fn default() -> (r: AppTheme)
        ensures
            r == AppTheme::System,
    {
        AppTheme::System
    }
}

impl AppTheme {
    /// Parses a theme from its snake-case name; unknown names fall back to
    /// the default.
    pub fn from_name(name: &str) -> (r: AppTheme)
        ensures
            r == spec_theme_from_name(name@),
    {
        let s = String::from_str(name);
        if s == String::from_str("light") {
            AppTheme::Light
        } else if s == String::from_str("dark") {
            AppTheme::Dark
        } else {
            AppTheme::System
        }
    }

    /// The theme's display name.
    pub fn name(&self) -> (r: &'static str)
        ensures
            r@ == match *self {
                AppTheme::System => "System"@,
                AppTheme::Light => "Light"@,
                AppTheme::Dark => "Dark"@,
            },
    {
        match self {
            AppTheme::System => "System",
            AppTheme::Light => "Light",
            AppTheme::Dark => "Dark",
        }
    }
}

/// The reading direction of the content.
#[derive(Debug, Clone, Copy, PartialEq, Eq, Structural)]
pub enum Direction {
    /// Right to left, as for manga.
    RTL,
    /// Left to right.
    LTR,
}

/// The direction named by a snake-case name; any unknown name falls back to
/// the default.
pub open spec fn spec_direction_from_name(n: Seq<char>) -> Direction {
    if n == "ltr"@ {
        Direction::LTR
    } else {
        Direction::RTL
    }
}

impl Default for Direction {
    /// The default direction is right to left.
    fn default() -> (r: Direction)
        ensures
            r == Direction::RTL,
    {
        Direction::RTL
    }
}

impl Direction {
    /// Parses a direction from its snake-case name; unknown names fall back
    /// to the default.
    pub fn from_name(name: &str) -> (r: Direction)
        ensures
            r == spec_direction_from_name(name@),
    {
        let s = String::from_str(name);
        if s == String::from_str("ltr") {
            Direction::LTR
        } else {
            Direction::RTL
        }
    }

    /// The direction's display name.
    pub fn name(&self) -> (r: &'static str)
        ensures
            r@ == match *self {
                Direction::RTL => "RTL"@,
                Direction::LTR => "LTR"@,
            },
    {
        match self {
            Direction::RTL => "RTL",
            Direction::LTR => "LTR",
        }
    }
}

/// The sort orders offered for file and directory listings.
#[derive(Debug, Clone, Copy, PartialEq, Eq, Structural)]
pub enum SortOrder {
    /// By name, A to Z.
    NameAsc,
    /// By name, Z to A.
    NameDesc,
    /// By modification date, oldest first.
    DateAsc,
    /// By modification date, newest first.
    DateDesc,
}

/// The sort order named by a snake-case name; any unknown name falls back
/// to name-ascending.
pub open spec fn spec_sort_order_from_name(n: Seq<char>) -> SortOrder {
    if n == "name_desc"@ {
        SortOrder::NameDesc
    } else if n == "date_asc"@ {
        SortOrder::DateAsc
    } else if n == "date_desc"@ {
        SortOrder::DateDesc
    } else {
        SortOrder::NameAsc
    }
}

impl SortOrder {
    /// Parses a sort order from its snake-case name; unknown names fall
    /// back to name-ascending.
    pub fn from_name(name: &str) -> (r: SortOrder)
        ensures
            r == spec_sort_order_from_name(name@),
    {
        let s = String::from_str(name);
        if s == String::from_str("name_desc") {
            SortOrder::NameDesc
        } else if s == String::from_str("date_asc") {
            SortOrder::DateAsc
        } else if s == String::from_str("date_desc") {
            SortOrder::DateDesc
        } else {
            SortOrder::NameAsc
        }
    }

    /// The sort order's display name.
    pub fn name(&self) -> (r: &'static str)
        ensures
            r@ == match *self {
                SortOrder::NameAsc => "NameAsc"@,
                SortOrder::NameDesc => "NameDesc"@,
                SortOrder::DateAsc => "DateAsc"@,
                SortOrder::DateDesc => "DateDesc"@,
            },
    {
        match self {
            SortOrder::NameAsc => "NameAsc",
            SortOrder::NameDesc => "NameDesc",
            SortOrder::DateAsc => "DateAsc",
            SortOrder::DateDesc => "DateDesc",
        }
    }
}

/// How much the logger records.
#[derive(Debug, Clone, Copy, PartialEq, Eq, Structural)]
pub enum LogLevel {
    Off,
    Error,
    Warn,
    Info,
    Debug,
    Trace,
}

impl Default for LogLevel {
    /// The default level records informational messages and above.
    fn default() -> (r: LogLevel)
        ensures
            r == LogLevel::Info,
    {
        LogLevel::Info
    }
}

/// Settings for logging.
#[derive(Debug, Clone, Copy, PartialEq, Eq, Structural)]
pub struct LogSettings {
    /// The log level.
    pub level: LogLevel,
}

impl LogSettings {
    /// Creates logging settings with the given level.
    pub fn new(level: LogLevel) -> (r: LogSettings)
        ensures
            r.level == level,
    {
        LogSettings { level }
    }
}

impl Default for LogSettings {
    /// By default informational messages and above are recorded.
    fn default() -> (r: LogSettings)
        ensures
            r.level == LogLevel::Info,
    {
        LogSettings { level: LogLevel::Info }
    }
}

/// Settings for experimental features.
#[derive(Debug, Clone, Copy, PartialEq, Eq, Structural)]
pub struct ExperimentalFeaturesSettings {
    /// Whether the EPUB novel reader is enabled.
    pub enable_epub_novel_reader: bool,
}

impl ExperimentalFeaturesSettings {
    /// Creates experimental-feature settings.
    pub fn new(enable_epub_novel_reader: bool) -> (r: ExperimentalFeaturesSettings)
        ensures
            r.enable_epub_novel_reader == enable_epub_novel_reader,
    {
        ExperimentalFeaturesSettings { enable_epub_novel_reader }
    }
}

impl Default for ExperimentalFeaturesSettings {
    /// Experimental features start disabled.
    fn default() -> (r: ExperimentalFeaturesSettings)
        ensures
            r.enable_epub_novel_reader == false,
    {
        ExperimentalFeaturesSettings { enable_epub_novel_reader: false }
    }
}

/// Settings for reading history.
#[derive(Debug, Clone, Copy, PartialEq, Eq, Structural)]
pub struct HistorySettings {
    /// Whether history is recorded.
    pub enable: bool,
    /// Whether the last container is reopened on startup.
    pub restore_last_container_on_startup: bool,
}

impl HistorySettings {
    /// Creates history settings.
    pub fn new(enable: bool, restore_last_container_on_startup: bool) -> (r: HistorySettings)
        ensures
            r.enable == enable,
            r.restore_last_container_on_startup == restore_last_container_on_startup,
    {
        HistorySettings { enable, restore_last_container_on_startup }
    }
}

impl Default for HistorySettings {
    /// History and restoring start enabled.
    fn default() -> (r: HistorySettings)
        ensures
            r.enable == true,
            r.restore_last_container_on_startup == true,
    {
        HistorySettings { enable: true, restore_last_container_on_startup: true }
    }
}

/// Settings for content rendering, as the user states them.
#[derive(Debug, PartialEq, Eq)]
pub struct RenderingSettings {
    /// Whether low-resolution previews are generated.
    pub enable_preview: bool,
    /// Greatest height in pixels for displayed images; 0 means no limit.
    pub max_image_height: i32,
    /// Name of the resize method, e.g. `triangle` or `lanczos3`.
    pub image_resize_method: String,
    /// Target height in pixels when a PDF page is rendered.
    pub pdf_rendering_height: i32,
}

impl RenderingSettings {
    /// Creates rendering settings.
    pub fn new(
        enable_preview: bool,
        max_image_height: i32,
        image_resize_method: String,
        pdf_rendering_height: i32,
    ) -> (r: RenderingSettings)
        ensures
            r.enable_preview == enable_preview,
            r.max_image_height == max_image_height,
            r.image_resize_method@ == image_resize_method@,
            r.pdf_rendering_height == pdf_rendering_height,
    {
        RenderingSettings { enable_preview, max_image_height, image_resize_method, pdf_rendering_height }
    }
}

impl Default for RenderingSettings {
    /// Previews on, no height limit, triangle filter, PDF pages rendered
    /// 2000 pixels tall.
    fn default() -> (r: RenderingSettings)
        ensures
            r.enable_preview == true,
            r.max_image_height == 0,
            r.image_resize_method@ == "triangle"@,
            r.pdf_rendering_height == 2000,
    {
        RenderingSettings {
            enable_preview: true,
            max_image_height: 0,
            image_resize_method: String::from_str("triangle"),
            pdf_rendering_height: 2000,
        }
    }
}

/// Settings for handling content within containers: the resolved form of
/// `RenderingSettings` that containers and the loader are built from.
#[derive(Debug, PartialEq, Eq)]
pub struct ContainerSettings {
    /// Whether low-resolution previews are generated.
    pub enable_preview: bool,
    /// Greatest height in pixels for displayed images; 0 means no limit.
    pub max_image_height: i32,
    /// The resize filter.
    pub image_resize_method: ResizeFilter,
    /// Target height in pixels when a PDF page is rendered.
    pub pdf_rendering_height: i32,
    /// Where the PDF rendering library is installed, if anywhere.
    pub pdfium_library_path: Option<String>,
}

impl Default for ContainerSettings {
    /// Previews on, no height limit, triangle filter, PDF pages rendered
    /// 2000 pixels tall, no rendering-library path.
    fn default() -> (r: ContainerSettings)
        ensures
            r.enable_preview == true,
            r.max_image_height == 0,
            r.image_resize_method == ResizeFilter::Triangle,
            r.pdf_rendering_height == 2000,
            r.pdfium_library_path is None,
    {
        ContainerSettings {
            enable_preview: true,
            max_image_height: 0,
            image_resize_method: ResizeFilter::Triangle,
            pdf_rendering_height: 2000,
            pdfium_library_path: None,
        }
    }
}

impl ContainerSettings {
    /// Sets the height PDF pages are rendered at; heights below one pixel
    /// are rejected and change nothing.
    pub fn set_pdf_rendering_height(&mut self, height: i32) -> (r: Result<(), String>)
        ensures
            height >= 1 ==> r is Ok && final(self).pdf_rendering_height == height,
            height < 1 ==> r is Err && *final(self) == *old(self),
            r is Ok <==> height >= 1,
            final(self).enable_preview == old(self).enable_preview,
            final(self).max_image_height == old(self).max_image_height,
            final(self).image_resize_method == old(self).image_resize_method,
            final(self).pdfium_library_path == old(self).pdfium_library_path,
    {
        if height < 1 {
            return Err(String::from_str("pdf rendering height must be at least 1"));
        }
        self.pdf_rendering_height = height;
        Ok(())
    }
}

} // verus!
