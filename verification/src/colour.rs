use crate::config::enums::{palette_hue, Palette};
use crate::config::imp::Config;
use crate::text::{decimal, decimal_spec};
use crate::window_util::{parse_url, url_parse_outcome, UrlParse, UrlParseView};
use std::collections::hash_map::DefaultHasher;
use std::hash::{Hash, Hasher};
use vstd::std_specs::hash::DefaultHasherAdditionalSpecFns;
use vstd::prelude::*;

verus! {

/// What the window does about its colours: drop any custom colours, take
/// those of a palette hue, or take those of the page's domain.
#[derive(Debug, Clone, Copy, PartialEq, Eq, Structural)]
pub enum ColourAction {
    Clear,
    Palette(u64),
    Domain,
}

/// The colours the configuration asks for: the page's domain decides if
/// colours go by domain; else the palette's hue, if a palette is set.
pub open spec fn colour_action_spec(colour_per_domain: bool, palette: Palette) -> ColourAction {
    if colour_per_domain {
        ColourAction::Domain
    } else if palette == Palette::Unset {
        ColourAction::Clear
    } else {
        ColourAction::Palette(palette_hue(palette))
    }
}

/// The colours the window takes under `config`.
pub fn colour_action(config: &Config) -> (r: ColourAction)
    ensures
        r == colour_action_spec(config@.colour_per_domain, config@.palette),
{
    if !config.colour_per_domain() {
        let palette = config.palette();
        if palette != Palette::Unset {
            ColourAction::Palette(palette.hue())
        } else {
            ColourAction::Clear
        }
    } else {
        ColourAction::Domain
    }
}

/// The hue that a domain's hash gives.
pub fn hue_from_hash(hash: u64) -> (r: u64)
    ensures
        r == hash % 360,
        r < 360,
{
    hash % 360
}

/// The domain of a URI as `url` reads it, if it is a URL with a domain.
pub open spec fn url_domain(text: Seq<char>) -> Option<Seq<char>> {
    parsed_domain(url_parse_outcome(text))
}

/// The domain that a parse outcome holds, if any.
pub open spec fn parsed_domain(p: UrlParseView) -> Option<Seq<char>> {
    match p {
        UrlParseView::Parsed(_, d) => d,
        _ => None,
    }
}

/// The text whose hash colours a page: its domain, or the whole URI if it
/// has none.
pub open spec fn colour_key_spec(uri: Seq<char>) -> Seq<char> {
    match url_domain(uri) {
        Some(d) => d,
        None => uri,
    }
}

/// The text whose hash colours the page at `uri`, given how `url` parsed
/// it: the domain, or the whole URI if it has none.
pub fn colour_key_from(uri: &str, parsed: &UrlParse) -> (r: String)
    ensures
        r@ == match parsed_domain(parsed@) {
            Some(d) => d,
            None => uri@,
        },
{
    match parsed {
        UrlParse::Parsed(_, Some(d)) => d.clone(),
        _ => String::from_str(uri),
    }
}

/// The text whose hash colours the page at `uri`.
pub fn colour_key(uri: &str) -> (r: String)
    ensures
        r@ == colour_key_spec(uri@),
{
    let parsed = parse_url(uri);
    colour_key_from(uri, &parsed)
}

/// What hashing a string writes into a hasher, as a sequence of writes.
pub uninterp spec fn str_hash_writes(text: Seq<char>) -> Seq<Seq<u8>>;

/// `Hash::hash` of a string into a `DefaultHasher`: the hasher is given
/// what hashing the string writes, which depends on the string alone (its
/// bytes, then a terminating byte); what that is, is named and not spelled
/// out.
#[verifier::external_body]
fn hash_text(text: &str, hasher: &mut DefaultHasher)
    ensures
        final(hasher)@ == old(hasher)@ + str_hash_writes(text@),
{
    text.hash(hasher);
}

/// The hue of the page at `uri` when colours go by domain: the hash of its
/// colour key by a fresh `DefaultHasher`, modulo 360.
pub open spec fn domain_hue_spec(uri: Seq<char>) -> u64 {
    (DefaultHasher::spec_finish(str_hash_writes(colour_key_spec(uri))) % 360) as u64
}

/// The hue of the page at `uri` when colours go by domain.
pub fn domain_hue(uri: &str) -> (r: u64)
    ensures
        r == domain_hue_spec(uri@),
        r < 360,
{
    let key = colour_key(uri);
    let mut hasher = DefaultHasher::new();
    hash_text(key.as_str(), &mut hasher);
    assert(hasher@ =~= str_hash_writes(key@));
    hue_from_hash(hasher.finish())
}

/// Pages of one domain share a colour: two addresses with the same domain
/// get the same hue.
pub proof fn law_same_domain_same_hue(a: Seq<char>, b: Seq<char>)
    requires
        url_domain(a) is Some,
        url_domain(a) == url_domain(b),
    ensures
        domain_hue_spec(a) == domain_hue_spec(b),
{
}

/// The interface elements whose colours a hue sets, in order.
pub open spec fn colour_elements() -> Seq<Seq<char>> {
    seq!["view"@, "window"@, "dialog"@, "popover"@, "card"@, "headerbar"@, "sidebar"@]
}

/// Whether an element is a bar, which gets a tone of its own.
pub open spec fn is_bar(element: Seq<char>) -> bool {
    element == "headerbar"@ || element == "sidebar"@
}

/// Saturation and lightness (in percent) of an element's background.
pub open spec fn background_tone(element: Seq<char>, is_dark: bool) -> (Seq<char>, Seq<char>) {
    if is_dark {
        if is_bar(element) {
            ("80"@, "10"@)
        } else {
            ("20"@, "8"@)
        }
    } else {
        if is_bar(element) {
            ("100"@, "96"@)
        } else {
            ("100"@, "99"@)
        }
    }
}

/// Saturation and lightness (in percent) of every element's foreground.
pub open spec fn foreground_tone(is_dark: bool) -> (Seq<char>, Seq<char>) {
    if is_dark {
        ("100"@, "98"@)
    } else {
        ("100"@, "12"@)
    }
}

/// An HSL colour with the given hue, saturation and lightness.
pub open spec fn hsl_spec(hue: Seq<char>, tone: (Seq<char>, Seq<char>)) -> Seq<char> {
    "hsl("@ + hue + ", "@ + tone.0 + "%, "@ + tone.1 + "%)"@
}

/// One line of the stylesheet: a named colour definition.
pub open spec fn define_line(name: Seq<char>, colour: Seq<char>) -> Seq<char> {
    "                    @define-color "@ + name + " "@ + colour + ";\n"@
}

/// The lines that define the background and foreground colours of the
/// first `k` elements.
pub open spec fn element_lines(hue: Seq<char>, is_dark: bool, k: nat) -> Seq<char>
    decreases k,
{
    if k == 0 {
        Seq::empty()
    } else {
        let e = colour_elements()[k - 1];
        element_lines(hue, is_dark, (k - 1) as nat) + define_line(
            e + "_bg_color"@,
            hsl_spec(hue, background_tone(e, is_dark)),
        ) + define_line(e + "_fg_color"@, hsl_spec(hue, foreground_tone(is_dark)))
    }
}

/// The stylesheet that gives the browser the colours of a hue, in the dark
/// or the light style.
pub open spec fn stylesheet_spec(hue: u64, is_dark: bool) -> Seq<char> {
    "\n"@ + element_lines(decimal_spec(hue as nat), is_dark, 7) + "                "@
}

/// The background colour of web pages under a hue.
pub open spec fn page_background_spec(hue: u64, is_dark: bool) -> Seq<char> {
    hsl_spec(decimal_spec(hue as nat), background_tone("view"@, is_dark))
}

fn tone_of(element: &str, is_dark: bool) -> (r: (&'static str, &'static str))
    ensures
        r.0@ == background_tone(element@, is_dark).0,
        r.1@ == background_tone(element@, is_dark).1,
{
    let bar = crate::text::str_eq(element, "headerbar") || crate::text::str_eq(
        element,
        "sidebar",
    );
    if is_dark {
        if bar {
            ("80", "10")
        } else {
            ("20", "8")
        }
    } else {
        if bar {
            ("100", "96")
        } else {
            ("100", "99")
        }
    }
}

fn append_hsl(out: &mut String, hue: &str, tone: (&str, &str))
    ensures
        final(out)@ == old(out)@ + hsl_spec(hue@, (tone.0@, tone.1@)),
{
    out.append("hsl(");
    out.append(hue);
    out.append(", ");
    out.append(tone.0);
    out.append("%, ");
    out.append(tone.1);
    out.append("%)");
}

fn append_define(out: &mut String, element: &str, suffix: &str, hue: &str, tone: (&str, &str))
    ensures
        final(out)@ == old(out)@ + define_line(element@ + suffix@, hsl_spec(hue@, (tone.0@, tone.1@))),
{
    out.append("                    @define-color ");
    out.append(element);
    out.append(suffix);
    out.append(" ");
    append_hsl(out, hue, tone);
    out.append(";\n");
    assert(final(out)@ =~= old(out)@ + define_line(
        element@ + suffix@,
        hsl_spec(hue@, (tone.0@, tone.1@)),
    ));
}

/// The stylesheet that gives the browser the colours of `hue`.
pub fn stylesheet(hue: u64, is_dark: bool) -> (r: String)
    ensures
        r@ == stylesheet_spec(hue, is_dark),
{
    let hue_text = decimal(hue);
    let elements = ["view", "window", "dialog", "popover", "card", "headerbar", "sidebar"];
    let fg: (&str, &str) = if is_dark {
        ("100", "98")
    } else {
        ("100", "12")
    };
    let mut out = String::from_str("\n");
    let mut k: usize = 0;
    while k < 7
        invariant
            k <= 7,
            elements@ == seq![
                "view",
                "window",
                "dialog",
                "popover",
                "card",
                "headerbar",
                "sidebar",
            ],
            fg.0@ == foreground_tone(is_dark).0,
            fg.1@ == foreground_tone(is_dark).1,
            out@ == "\n"@ + element_lines(hue_text@, is_dark, k as nat),
        decreases 7 - k,
    {
        let e = elements[k];
        assert(e@ == colour_elements()[k as int]);
        let tone = tone_of(e, is_dark);
        append_define(&mut out, e, "_bg_color", hue_text.as_str(), tone);
        append_define(&mut out, e, "_fg_color", hue_text.as_str(), fg);
        assert(out@ =~= "\n"@ + element_lines(hue_text@, is_dark, (k + 1) as nat));
        k = k + 1;
    }
    out.append("                ");
    out
}

/// The background colour of web pages under `hue`.
pub fn page_background(hue: u64, is_dark: bool) -> (r: String)
    ensures
        r@ == page_background_spec(hue, is_dark),
{
    let hue_text = decimal(hue);
    let mut out = String::new();
    append_hsl(&mut out, hue_text.as_str(), tone_of("view", is_dark));
    assert(out@ =~= page_background_spec(hue, is_dark));
    out
}

} // verus!
