use super::enums::{ColourScheme, Palette};
use vstd::prelude::*;

verus! {

/// The settings of the browser: appearance and window geometry.
#[derive(Debug)]
pub struct Config {
    pub(crate) colour_scheme: ColourScheme,
    pub(crate) colour_per_domain: bool,
    pub(crate) palette: Palette,
    pub(crate) width: i32,
    pub(crate) height: i32,
    pub(crate) is_maximised: bool,
    pub(crate) is_fullscreen: bool,
}

/// The plain values of a configuration.
pub struct ConfigView {
    pub colour_scheme: ColourScheme,
    pub colour_per_domain: bool,
    pub palette: Palette,
    pub width: i32,
    pub height: i32,
    pub is_maximised: bool,
    pub is_fullscreen: bool,
}

impl View for Config {
    type V = ConfigView;

    closed spec fn view(&self) -> ConfigView {
        ConfigView {
            colour_scheme: self.colour_scheme,
            colour_per_domain: self.colour_per_domain,
            palette: self.palette,
            width: self.width,
            height: self.height,
            is_maximised: self.is_maximised,
            is_fullscreen: self.is_fullscreen,
        }
    }
}

/// The configuration that holds when none has been saved.
pub open spec fn default_config_view() -> ConfigView {
    ConfigView {
        colour_scheme: ColourScheme::Default,
        colour_per_domain: false,
        palette: Palette::Unset,
        width: 0,
        height: 0,
        is_maximised: false,
        is_fullscreen: false,
    }
}

impl Default for Config {
    fn default() -> (r: Self)
        ensures
            r@ == default_config_view(),
    {
        Config {
            colour_scheme: ColourScheme::Default,
            colour_per_domain: false,
            palette: Palette::Unset,
            width: 0,
            height: 0,
            is_maximised: false,
            is_fullscreen: false,
        }
    }
}

impl Config {
    /// Reads the colour scheme.
    pub fn colour_scheme(&self) -> (r: ColourScheme)
        ensures
            r == self@.colour_scheme,
    {
        self.colour_scheme
    }

    /// Stores the colour scheme and hands back the value it replaced; every other
    /// setting stays as it was.
    pub fn set_colour_scheme(&mut self, colour_scheme: ColourScheme) -> (r: ColourScheme)
        ensures
            r == old(self)@.colour_scheme,
            final(self)@ == (ConfigView { colour_scheme, ..old(self)@ }),
    {
        let previous = self.colour_scheme;
        self.colour_scheme = colour_scheme;
        previous
    }

    /// Reads whether each domain gets its own colour.
    pub fn colour_per_domain(&self) -> (r: bool)
        ensures
            r == self@.colour_per_domain,
    {
        self.colour_per_domain
    }

    /// Stores whether each domain gets its own colour and hands back the value it replaced; every other
    /// setting stays as it was.
    pub fn set_colour_per_domain(&mut self, colour_per_domain: bool) -> (r: bool)
        ensures
            r == old(self)@.colour_per_domain,
            final(self)@ == (ConfigView { colour_per_domain, ..old(self)@ }),
    {
        let previous = self.colour_per_domain;
        self.colour_per_domain = colour_per_domain;
        previous
    }

    /// Reads the palette.
    pub fn palette(&self) -> (r: Palette)
        ensures
            r == self@.palette,
    {
        self.palette
    }

    /// Stores the palette and hands back the value it replaced; every other
    /// setting stays as it was.
    pub fn set_palette(&mut self, palette: Palette) -> (r: Palette)
        ensures
            r == old(self)@.palette,
            final(self)@ == (ConfigView { palette, ..old(self)@ }),
    {
        let previous = self.palette;
        self.palette = palette;
        previous
    }

    /// Reads the window width.
    pub fn width(&self) -> (r: i32)
        ensures
            r == self@.width,
    {
        self.width
    }

    /// Stores the window width and hands back the value it replaced; every other
    /// setting stays as it was.
    pub fn set_width(&mut self, width: i32) -> (r: i32)
        ensures
            r == old(self)@.width,
            final(self)@ == (ConfigView { width, ..old(self)@ }),
    {
        let previous = self.width;
        self.width = width;
        previous
    }

    /// Reads the window height.
    pub fn height(&self) -> (r: i32)
        ensures
            r == self@.height,
    {
        self.height
    }

    /// Stores the window height and hands back the value it replaced; every other
    /// setting stays as it was.
    pub fn set_height(&mut self, height: i32) -> (r: i32)
        ensures
            r == old(self)@.height,
            final(self)@ == (ConfigView { height, ..old(self)@ }),
    {
        let previous = self.height;
        self.height = height;
        previous
    }

    /// Reads whether the window is maximised.
    pub fn is_maximised(&self) -> (r: bool)
        ensures
            r == self@.is_maximised,
    {
        self.is_maximised
    }

    /// Stores whether the window is maximised and hands back the value it replaced; every other
    /// setting stays as it was.
    pub fn set_is_maximised(&mut self, is_maximised: bool) -> (r: bool)
        ensures
            r == old(self)@.is_maximised,
            final(self)@ == (ConfigView { is_maximised, ..old(self)@ }),
    {
        let previous = self.is_maximised;
        self.is_maximised = is_maximised;
        previous
    }

    /// Reads whether the window is fullscreen.
    pub fn is_fullscreen(&self) -> (r: bool)
        ensures
            r == self@.is_fullscreen,
    {
        self.is_fullscreen
    }

    /// Stores whether the window is fullscreen and hands back the value it replaced; every other
    /// setting stays as it was.
    pub fn set_is_fullscreen(&mut self, is_fullscreen: bool) -> (r: bool)
        ensures
            r == old(self)@.is_fullscreen,
            final(self)@ == (ConfigView { is_fullscreen, ..old(self)@ }),
    {
        let previous = self.is_fullscreen;
        self.is_fullscreen = is_fullscreen;
        previous
    }

    /// Gives a window that has no saved size (both dimensions 0) the size
    /// of 1000 by 700; a saved size stays as it is.
    pub fn restore_window_size(&mut self)
        ensures
            old(self)@.width == 0 && old(self)@.height == 0 ==> final(self)@ == (ConfigView {
                width: 1000,
                height: 700,
                ..old(self)@
            }),
            !(old(self)@.width == 0 && old(self)@.height == 0) ==> final(self)@ == old(self)@,
    {
        if self.width == 0 && self.height == 0 {
            self.width = 1000;
            self.height = 700;
        }
    }
}

} // verus!
