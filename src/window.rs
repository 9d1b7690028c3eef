//! Window configuration, built step by step from defaults.

use vstd::prelude::*;

verus! {

/// How the application window is to be created.
#[derive(Debug, Clone)]
pub struct WindowConfig {
    pub title: String,
    pub width: u32,
    pub height: u32,
    pub fullscreen: bool,
    pub resizable: bool,
    pub visible: bool,
    pub vsync: bool,
    pub min_size: Option<(u32, u32)>,
    pub max_size: Option<(u32, u32)>,
}

impl WindowConfig {
    /// The default configuration: a visible, resizable 1280x720 window with
    /// vsync, at least 320x240, with no upper bound.
    pub open spec fn is_default(&self) -> bool {
        &&& self.title@ == "AnvilKit Application"@
        &&& self.width == 1280
        &&& self.height == 720
        &&& !self.fullscreen
        &&& self.resizable
        &&& self.visible
        &&& self.vsync
        &&& self.min_size == Some((320u32, 240u32))
        &&& self.max_size is None
    }

    /// All fields but the title are those of `other`.
    pub open spec fn same_but_title(&self, other: &WindowConfig) -> bool {
        &&& self.width == other.width
        &&& self.height == other.height
        &&& self.fullscreen == other.fullscreen
        &&& self.resizable == other.resizable
        &&& self.visible == other.visible
        &&& self.vsync == other.vsync
        &&& self.min_size == other.min_size
        &&& self.max_size == other.max_size
    }

    pub fn new() -> (r: WindowConfig)
        ensures
            r.is_default(),
    {
        WindowConfig::default()
    }

    pub fn with_title(self, title: &str) -> (r: WindowConfig)
        ensures
            r.title@ == title@,
            r.same_but_title(&self),
    {
        WindowConfig { title: String::from_str(title), ..self }
    }

    pub fn with_size(self, width: u32, height: u32) -> (r: WindowConfig)
        ensures
            r == (WindowConfig { width, height, ..self }),
    {
        WindowConfig { width, height, ..self }
    }

    pub fn with_fullscreen(self, fullscreen: bool) -> (r: WindowConfig)
        ensures
            r == (WindowConfig { fullscreen, ..self }),
    {
        WindowConfig { fullscreen, ..self }
    }

    pub fn with_resizable(self, resizable: bool) -> (r: WindowConfig)
        ensures
            r == (WindowConfig { resizable, ..self }),
    {
        WindowConfig { resizable, ..self }
    }

    pub fn with_vsync(self, vsync: bool) -> (r: WindowConfig)
        ensures
            r == (WindowConfig { vsync, ..self }),
    {
        WindowConfig { vsync, ..self }
    }

    pub fn with_min_size(self, min_size: Option<(u32, u32)>) -> (r: WindowConfig)
        ensures
            r == (WindowConfig { min_size, ..self }),
    {
        WindowConfig { min_size, ..self }
    }

    pub fn with_max_size(self, max_size: Option<(u32, u32)>) -> (r: WindowConfig)
        ensures
            r == (WindowConfig { max_size, ..self }),
    {
        WindowConfig { max_size, ..self }
    }
}

impl Default for WindowConfig {
    fn default() -> (r: WindowConfig)
        ensures
            r.is_default(),
    {
        proof {
            reveal_strlit("AnvilKit Application");
        }
        WindowConfig {
            title: String::from_str("AnvilKit Application"),
            width: 1280,
            height: 720,
            fullscreen: false,
            resizable: true,
            visible: true,
            vsync: true,
            min_size: Some((320, 240)),
            max_size: None,
        }
    }
}

} // verus!
