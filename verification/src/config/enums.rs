use crate::text::str_eq;
use vstd::prelude::*;
use vstd::std_specs::convert::FromSpecImpl;

verus! {

/// The colour scheme the browser chrome follows.
#[derive(Debug, Clone, Copy, PartialEq, Eq, Structural, Hash, PartialOrd, Ord)]
#[non_exhaustive]
pub enum ColourScheme {
    Default,
    ForceLight,
    PreferLight,
    PreferDark,
    ForceDark,
}

impl Default for ColourScheme {
    fn default() -> (r: Self)
        ensures
            r == ColourScheme::Default,
    {
        ColourScheme::Default
    }
}

/// The colour scheme that a label of the settings list names; an unknown
/// label means the default scheme.
pub open spec fn colour_scheme_named(value: Seq<char>) -> ColourScheme {
    if value == "Automatic"@ {
        ColourScheme::Default
    } else if value == "Force Light"@ {
        ColourScheme::ForceLight
    } else if value == "Prefer Light"@ {
        ColourScheme::PreferLight
    } else if value == "Prefer Dark"@ {
        ColourScheme::PreferDark
    } else if value == "Force Dark"@ {
        ColourScheme::ForceDark
    } else {
        ColourScheme::Default
    }
}

impl<'a> From<&'a str> for ColourScheme {
    fn from(value: &'a str) -> (r: Self) {
        if str_eq(value, "Automatic") {
            ColourScheme::Default
        } else if str_eq(value, "Force Light") {
            ColourScheme::ForceLight
        } else if str_eq(value, "Prefer Light") {
            ColourScheme::PreferLight
        } else if str_eq(value, "Prefer Dark") {
            ColourScheme::PreferDark
        } else if str_eq(value, "Force Dark") {
            ColourScheme::ForceDark
        } else {
            ColourScheme::Default
        }
    }
}

impl<'a> FromSpecImpl<&'a str> for ColourScheme {
    open spec fn obeys_from_spec() -> bool {
        true
    }

    open spec fn from_spec(value: &'a str) -> ColourScheme {
        colour_scheme_named(value@)
    }
}

/// A fixed accent colour for the browser chrome.
#[derive(Debug, Clone, Copy, PartialEq, Eq, Structural, Hash, PartialOrd, Ord)]
pub enum Palette {
    Unset,
    Blue,
    Green,
    Yellow,
    Orange,
    Red,
    Purple,
    Brown,
}

impl Default for Palette {
    fn default() -> (r: Self)
        ensures
            r == Palette::Unset,
    {
        Palette::Unset
    }
}

/// The palette that a label of the settings list names; an unknown label
/// means no palette.
pub open spec fn palette_named(value: Seq<char>) -> Palette {
    if value == "None"@ {
        Palette::Unset
    } else if value == "Blue"@ {
        Palette::Blue
    } else if value == "Green"@ {
        Palette::Green
    } else if value == "Yellow"@ {
        Palette::Yellow
    } else if value == "Orange"@ {
        Palette::Orange
    } else if value == "Red"@ {
        Palette::Red
    } else if value == "Purple"@ {
        Palette::Purple
    } else if value == "Brown"@ {
        Palette::Brown
    } else {
        Palette::Unset
    }
}

impl<'a> From<&'a str> for Palette {
    fn from(value: &'a str) -> (r: Self) {
        if str_eq(value, "None") {
            Palette::Unset
        } else if str_eq(value, "Blue") {
            Palette::Blue
        } else if str_eq(value, "Green") {
            Palette::Green
        } else if str_eq(value, "Yellow") {
            Palette::Yellow
        } else if str_eq(value, "Orange") {
            Palette::Orange
        } else if str_eq(value, "Red") {
            Palette::Red
        } else if str_eq(value, "Purple") {
            Palette::Purple
        } else if str_eq(value, "Brown") {
            Palette::Brown
        } else {
            Palette::Unset
        }
    }
}

impl<'a> FromSpecImpl<&'a str> for Palette {
    open spec fn obeys_from_spec() -> bool {
        true
    }

    open spec fn from_spec(value: &'a str) -> Palette {
        palette_named(value@)
    }
}

/// The hue, in degrees, that a palette colour stands for.
pub open spec fn palette_hue(p: Palette) -> u64 {
    match p {
        Palette::Unset => 0,
        Palette::Blue => 213,
        Palette::Green => 152,
        Palette::Yellow => 42,
        Palette::Orange => 21,
        Palette::Red => 353,
        Palette::Purple => 274,
        Palette::Brown => 27,
    }
}

impl Palette {
    /// The hue of this colour; the unset palette has none.
    pub fn hue(&self) -> (r: u64)
        requires
            *self != Palette::Unset,
        ensures
            r == palette_hue(*self),
            r < 360,
    {
        match self {
            Palette::Unset => 0,
            Palette::Blue => 213,
            Palette::Green => 152,
            Palette::Yellow => 42,
            Palette::Orange => 21,
            Palette::Red => 353,
            Palette::Purple => 274,
            Palette::Brown => 27,
        }
    }
}

/// The position of a colour scheme in the settings list.
pub open spec fn colour_scheme_position(c: ColourScheme) -> u32 {
    match c {
        ColourScheme::Default => 0,
        ColourScheme::ForceLight => 1,
        ColourScheme::PreferLight => 2,
        ColourScheme::PreferDark => 3,
        ColourScheme::ForceDark => 4,
    }
}

/// The colour scheme at a position of the settings list; a position past
/// the end means the default scheme.
pub open spec fn colour_scheme_at_spec(i: u32) -> ColourScheme {
    if i == 1 {
        ColourScheme::ForceLight
    } else if i == 2 {
        ColourScheme::PreferLight
    } else if i == 3 {
        ColourScheme::PreferDark
    } else if i == 4 {
        ColourScheme::ForceDark
    } else {
        ColourScheme::Default
    }
}

impl ColourScheme {
    /// The position of this scheme in the settings list.
    pub fn position(&self) -> (r: u32)
        ensures
            r == colour_scheme_position(*self),
    {
        match self {
            ColourScheme::Default => 0,
            ColourScheme::ForceLight => 1,
            ColourScheme::PreferLight => 2,
            ColourScheme::PreferDark => 3,
            ColourScheme::ForceDark => 4,
        }
    }

    /// The scheme at position `i` of the settings list.
    pub fn at_position(i: u32) -> (r: ColourScheme)
        ensures
            r == colour_scheme_at_spec(i),
    {
        if i == 1 {
            ColourScheme::ForceLight
        } else if i == 2 {
            ColourScheme::PreferLight
        } else if i == 3 {
            ColourScheme::PreferDark
        } else if i == 4 {
            ColourScheme::ForceDark
        } else {
            ColourScheme::Default
        }
    }
}

/// The position of a palette in the settings list.
pub open spec fn palette_position(p: Palette) -> u32 {
    match p {
        Palette::Unset => 0,
        Palette::Blue => 1,
        Palette::Green => 2,
        Palette::Yellow => 3,
        Palette::Orange => 4,
        Palette::Red => 5,
        Palette::Purple => 6,
        Palette::Brown => 7,
    }
}

/// The palette at a position of the settings list; a position past the
/// end means no palette.
pub open spec fn palette_at_spec(i: u32) -> Palette {
    if i == 1 {
        Palette::Blue
    } else if i == 2 {
        Palette::Green
    } else if i == 3 {
        Palette::Yellow
    } else if i == 4 {
        Palette::Orange
    } else if i == 5 {
        Palette::Red
    } else if i == 6 {
        Palette::Purple
    } else if i == 7 {
        Palette::Brown
    } else {
        Palette::Unset
    }
}

impl Palette {
    /// The position of this palette in the settings list.
    pub fn position(&self) -> (r: u32)
        ensures
            r == palette_position(*self),
    {
        match self {
            Palette::Unset => 0,
            Palette::Blue => 1,
            Palette::Green => 2,
            Palette::Yellow => 3,
            Palette::Orange => 4,
            Palette::Red => 5,
            Palette::Purple => 6,
            Palette::Brown => 7,
        }
    }

    /// The palette at position `i` of the settings list.
    pub fn at_position(i: u32) -> (r: Palette)
        ensures
            r == palette_at_spec(i),
    {
        if i == 1 {
            Palette::Blue
        } else if i == 2 {
            Palette::Green
        } else if i == 3 {
            Palette::Yellow
        } else if i == 4 {
            Palette::Orange
        } else if i == 5 {
            Palette::Red
        } else if i == 6 {
            Palette::Purple
        } else if i == 7 {
            Palette::Brown
        } else {
            Palette::Unset
        }
    }
}

/// Reading back the position of a colour scheme in the settings list
/// gives that scheme.
pub proof fn law_colour_scheme_position_round_trip(c: ColourScheme)
    ensures
        colour_scheme_at_spec(colour_scheme_position(c)) == c,
{
}

/// Reading back the position of a palette in the settings list gives that
/// palette.
pub proof fn law_palette_position_round_trip(p: Palette)
    ensures
        palette_at_spec(palette_position(p)) == p,
{
}

/// Every position of the settings lists names an entry: the positions of
/// the entries are exactly those below the lengths of the lists.
pub proof fn law_positions_in_list(c: ColourScheme, p: Palette)
    ensures
        colour_scheme_position(c) < 5,
        palette_position(p) < 8,
{
}

/// The label of each colour scheme in the settings list names that
/// scheme.
pub proof fn law_colour_scheme_labels()
    ensures
        colour_scheme_named("Automatic"@) == ColourScheme::Default,
        colour_scheme_named("Force Light"@) == ColourScheme::ForceLight,
        colour_scheme_named("Prefer Light"@) == ColourScheme::PreferLight,
        colour_scheme_named("Prefer Dark"@) == ColourScheme::PreferDark,
        colour_scheme_named("Force Dark"@) == ColourScheme::ForceDark,
{
    reveal_strlit("Automatic");
    reveal_strlit("Force Light");
    reveal_strlit("Prefer Light");
    reveal_strlit("Prefer Dark");
    reveal_strlit("Force Dark");
    assert("Force Light"@[0] != "Automatic"@[0]);
    assert("Prefer Light"@[0] != "Automatic"@[0]);
    assert("Prefer Light"@[0] != "Force Light"@[0]);
    assert("Prefer Dark"@[0] != "Automatic"@[0]);
    assert("Prefer Dark"@[0] != "Force Light"@[0]);
    assert("Prefer Dark"@[7] != "Prefer Light"@[7]);
    assert("Force Dark"@[0] != "Automatic"@[0]);
    assert("Force Dark"@[6] != "Force Light"@[6]);
    assert("Force Dark"@[0] != "Prefer Light"@[0]);
    assert("Force Dark"@[0] != "Prefer Dark"@[0]);
}

/// The label of each palette in the settings list names that palette.
pub proof fn law_palette_labels()
    ensures
        palette_named("None"@) == Palette::Unset,
        palette_named("Blue"@) == Palette::Blue,
        palette_named("Green"@) == Palette::Green,
        palette_named("Yellow"@) == Palette::Yellow,
        palette_named("Orange"@) == Palette::Orange,
        palette_named("Red"@) == Palette::Red,
        palette_named("Purple"@) == Palette::Purple,
        palette_named("Brown"@) == Palette::Brown,
{
    reveal_strlit("None");
    reveal_strlit("Blue");
    reveal_strlit("Green");
    reveal_strlit("Yellow");
    reveal_strlit("Orange");
    reveal_strlit("Red");
    reveal_strlit("Purple");
    reveal_strlit("Brown");
    assert("Blue"@[0] != "None"@[0]);
    assert("Green"@[0] != "None"@[0] && "Green"@[0] != "Blue"@[0]);
    assert("Yellow"@[0] != "None"@[0] && "Yellow"@[0] != "Blue"@[0] && "Yellow"@[0] != "Green"@[0]);
    assert("Orange"@[0] != "None"@[0] && "Orange"@[0] != "Blue"@[0] && "Orange"@[0] != "Green"@[0]
        && "Orange"@[0] != "Yellow"@[0]);
    assert("Red"@[0] != "None"@[0] && "Red"@[0] != "Blue"@[0] && "Red"@[0] != "Green"@[0]
        && "Red"@[0] != "Yellow"@[0] && "Red"@[0] != "Orange"@[0]);
    assert("Purple"@[0] != "None"@[0] && "Purple"@[0] != "Blue"@[0] && "Purple"@[0] != "Green"@[0]
        && "Purple"@[0] != "Yellow"@[0] && "Purple"@[0] != "Orange"@[0] && "Purple"@[0] != "Red"@[0]);
    assert("Brown"@[0] != "None"@[0] && "Brown"@[1] != "Blue"@[1] && "Brown"@[0] != "Green"@[0]
        && "Brown"@[0] != "Yellow"@[0] && "Brown"@[0] != "Orange"@[0] && "Brown"@[0] != "Red"@[0]
        && "Brown"@[0] != "Purple"@[0]);
}

} // verus!
