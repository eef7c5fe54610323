use vstd::prelude::*;

verus! {

/// The size and title of the window to open; the window itself is opened by
/// the rendering backend.
pub struct SDLWindowManagerBuilder {
    pub width: u32,
    pub height: u32,
    pub title: String,
}

impl Default for SDLWindowManagerBuilder {
    /// An 800 by 800 window titled "SDL Window".
    fn default() -> (b: SDLWindowManagerBuilder)
        ensures
            b.width == 800,
            b.height == 800,
            b.title@ == "SDL Window"@,
    {
        broadcast use vstd::string::to_string_from_display_ensures_for_str;

        SDLWindowManagerBuilder { width: 800, height: 800, title: "SDL Window".to_string() }
    }
}

impl SDLWindowManagerBuilder {
    pub fn width(self, width: u32) -> (b: SDLWindowManagerBuilder)
        ensures
            b.width == width,
            b.height == self.height,
            b.title@ == self.title@,
    {
        SDLWindowManagerBuilder { width, ..self }
    }

    pub fn height(self, height: u32) -> (b: SDLWindowManagerBuilder)
        ensures
            b.width == self.width,
            b.height == height,
            b.title@ == self.title@,
    {
        SDLWindowManagerBuilder { height, ..self }
    }

    pub fn title(self, title: &str) -> (b: SDLWindowManagerBuilder)
        ensures
            b.width == self.width,
            b.height == self.height,
            b.title@ == title@,
    {
        broadcast use vstd::string::to_string_from_display_ensures_for_str;

        SDLWindowManagerBuilder { title: title.to_string(), ..self }
    }
}

} // verus!
