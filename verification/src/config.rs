use vstd::prelude::*;

pub mod enums;
pub mod imp;

verus! {

/// The colour scheme the browser chrome follows.
#[derive(Debug, Clone, Copy, PartialEq, Eq, Structural, Hash, PartialOrd, Ord)]
#[non_exhaustive]
pub enum ColourScheme {
    Default,
    ForceLight,
    PreferLight,
    PreferDark,
    ForceDark,
    __Unknown(i32),
}

impl Default for ColourScheme {
    fn default() -> (r: Self)
        ensures
            r == ColourScheme::Default,
    {
        ColourScheme::Default
    }
}

/// A fixed accent colour for the browser chrome.
#[derive(Debug, Clone, Copy, PartialEq, Eq, Structural, Hash, PartialOrd, Ord)]
pub enum Palette {
    Unset,
    Blue,
    Green,
    Yellow,
    Orange,
    Red,
    Purple,
    Brown,
}

impl Default for Palette {
    fn default() -> (r: Self)
        ensures
            r == Palette::Unset,
    {
        Palette::Unset
    }
}

/// The hue, in degrees, that a palette colour stands for.
pub open spec fn palette_hue(p: Palette) -> u64 {
    match p {
        Palette::Unset => 0,
        Palette::Blue => 213,
        Palette::Green => 152,
        Palette::Yellow => 42,
        Palette::Orange => 21,
        Palette::Red => 353,
        Palette::Purple => 274,
        Palette::Brown => 27,
    }
}

impl Palette {
    /// The hue of this colour; `Unset` has none.
    pub fn hue(&self) -> (r: u64)
        requires
            *self != Palette::Unset,
        ensures
            r == palette_hue(*self),
            r < 360,
    {
        match self {
            Palette::Unset => 0,
            Palette::Blue => 213,
            Palette::Green => 152,
            Palette::Yellow => 42,
            Palette::Orange => 21,
            Palette::Red => 353,
            Palette::Purple => 274,
            Palette::Brown => 27,
        }
    }
}

} // verus!

verus! {

/// The appearance settings of the browser.
#[derive(Debug, Clone)]
pub struct Config {
    pub(crate) colour_scheme: ColourScheme,
    pub(crate) colour_per_domain: bool,
    pub(crate) palette: Palette,
}

/// The plain values of a configuration.
pub struct ConfigView {
    pub colour_scheme: ColourScheme,
    pub colour_per_domain: bool,
    pub palette: Palette,
}

impl View for Config {
    type V = ConfigView;

    closed spec fn view(&self) -> ConfigView {
        ConfigView {
            colour_scheme: self.colour_scheme,
            colour_per_domain: self.colour_per_domain,
            palette: self.palette,
        }
    }
}

impl Default for Config {
    fn default() -> (r: Self)
        ensures
            r@.colour_scheme == ColourScheme::Default,
            r@.colour_per_domain == false,
            r@.palette == Palette::Unset,
    {
        Config {
            colour_scheme: ColourScheme::Default,
            colour_per_domain: false,
            palette: Palette::Unset,
        }
    }
}

impl Config {
    /// The default configuration.
    pub fn new() -> (r: Self)
        ensures
            r@.colour_scheme == ColourScheme::Default,
            r@.colour_per_domain == false,
            r@.palette == Palette::Unset,
    {
        Self::default()
    }

    pub fn colour_scheme(&self) -> (r: ColourScheme)
        ensures
            r == self@.colour_scheme,
    {
        self.colour_scheme
    }

    /// Stores a colour scheme and hands back the one it replaced.
    pub fn set_colour_scheme(&mut self, colour_scheme: ColourScheme) -> (r: ColourScheme)
        ensures
            r == old(self)@.colour_scheme,
            final(self)@.colour_scheme == colour_scheme,
            final(self)@.colour_per_domain == old(self)@.colour_per_domain,
            final(self)@.palette == old(self)@.palette,
    {
        let previous = self.colour_scheme;
        self.colour_scheme = colour_scheme;
        previous
    }

    pub fn palette(&self) -> (r: Palette)
        ensures
            r == self@.palette,
    {
        self.palette
    }

    /// Stores a palette and hands back the one it replaced.
    pub fn set_palette(&mut self, palette: Palette) -> (r: Palette)
        ensures
            r == old(self)@.palette,
            final(self)@.palette == palette,
            final(self)@.colour_scheme == old(self)@.colour_scheme,
            final(self)@.colour_per_domain == old(self)@.colour_per_domain,
    {
        let previous = self.palette;
        self.palette = palette;
        previous
    }

    pub fn colour_per_domain(&self) -> (r: bool)
        ensures
            r == self@.colour_per_domain,
    {
        self.colour_per_domain
    }

    /// Stores whether each domain gets its own colour and hands back the
    /// previous setting.
    pub fn set_colour_per_domain(&mut self, colour_per_domain: bool) -> (r: bool)
        ensures
            r == old(self)@.colour_per_domain,
            final(self)@.colour_per_domain == colour_per_domain,
            final(self)@.colour_scheme == old(self)@.colour_scheme,
            final(self)@.palette == old(self)@.palette,
    {
        let previous = self.colour_per_domain;
        self.colour_per_domain = colour_per_domain;
        previous
    }
}

} // verus!
