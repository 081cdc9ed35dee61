use oku::config::enums::{ColourScheme, Palette};
use oku::config::imp::Config;
use oku::config::{
    ColourScheme as BasicColourScheme, Config as BasicConfig, Palette as BasicPalette,
};

#[test]
fn basic_config_starts_at_defaults() {
    let config = BasicConfig::new();
    assert_eq!(config.colour_scheme(), BasicColourScheme::Default);
    assert_eq!(config.palette(), BasicPalette::Unset);
    assert!(!config.colour_per_domain());
}

#[test]
fn basic_config_setters_hand_back_previous_values() {
    let mut config = BasicConfig::new();
    assert_eq!(config.set_palette(BasicPalette::Red), BasicPalette::Unset);
    assert_eq!(config.set_palette(BasicPalette::Green), BasicPalette::Red);
    assert_eq!(config.palette(), BasicPalette::Green);
    assert_eq!(
        config.set_colour_scheme(BasicColourScheme::__Unknown(7)),
        BasicColourScheme::Default
    );
    assert_eq!(config.colour_scheme(), BasicColourScheme::__Unknown(7));
    assert!(!config.set_colour_per_domain(true));
    assert!(config.colour_per_domain());
    assert_eq!(config.palette(), BasicPalette::Green);
}

#[test]
fn basic_palette_hues() {
    assert_eq!(BasicPalette::Blue.hue(), 213);
    assert_eq!(BasicPalette::Brown.hue(), 27);
}

#[test]
fn config_starts_at_defaults() {
    let config = Config::default();
    assert_eq!(config.colour_scheme(), ColourScheme::Default);
    assert_eq!(config.palette(), Palette::Unset);
    assert!(!config.colour_per_domain());
    assert_eq!(config.width(), 0);
    assert_eq!(config.height(), 0);
    assert!(!config.is_maximised());
    assert!(!config.is_fullscreen());
}

#[test]
fn config_reads_back_what_was_stored() {
    let mut config = Config::default();
    assert_eq!(config.set_width(1280), 0);
    assert_eq!(config.set_height(720), 0);
    assert_eq!(config.set_width(-5), 1280);
    assert!(!config.set_is_maximised(true));
    assert!(!config.set_is_fullscreen(true));
    assert!(config.set_is_fullscreen(false));
    assert_eq!(config.set_colour_scheme(ColourScheme::PreferDark), ColourScheme::Default);
    assert_eq!(config.set_palette(Palette::Purple), Palette::Unset);
    assert!(!config.set_colour_per_domain(true));
    assert_eq!(config.width(), -5);
    assert_eq!(config.height(), 720);
    assert!(config.is_maximised());
    assert!(!config.is_fullscreen());
    assert_eq!(config.colour_scheme(), ColourScheme::PreferDark);
    assert_eq!(config.palette(), Palette::Purple);
    assert!(config.colour_per_domain());
}

#[test]
fn colour_schemes_from_labels() {
    assert_eq!(ColourScheme::from("Automatic"), ColourScheme::Default);
    assert_eq!(ColourScheme::from("Force Light"), ColourScheme::ForceLight);
    assert_eq!(ColourScheme::from("Prefer Light"), ColourScheme::PreferLight);
    assert_eq!(ColourScheme::from("Prefer Dark"), ColourScheme::PreferDark);
    assert_eq!(ColourScheme::from("Force Dark"), ColourScheme::ForceDark);
    assert_eq!(ColourScheme::from("force dark"), ColourScheme::Default);
    assert_eq!(ColourScheme::from(""), ColourScheme::Default);
}

#[test]
fn palettes_from_labels() {
    assert_eq!(Palette::from("None"), Palette::Unset);
    assert_eq!(Palette::from("Blue"), Palette::Blue);
    assert_eq!(Palette::from("Green"), Palette::Green);
    assert_eq!(Palette::from("Yellow"), Palette::Yellow);
    assert_eq!(Palette::from("Orange"), Palette::Orange);
    assert_eq!(Palette::from("Red"), Palette::Red);
    assert_eq!(Palette::from("Purple"), Palette::Purple);
    assert_eq!(Palette::from("Brown"), Palette::Brown);
    assert_eq!(Palette::from("Pink"), Palette::Unset);
}

#[test]
fn palette_hues() {
    assert_eq!(Palette::Blue.hue(), 213);
    assert_eq!(Palette::Green.hue(), 152);
    assert_eq!(Palette::Yellow.hue(), 42);
    assert_eq!(Palette::Orange.hue(), 21);
    assert_eq!(Palette::Red.hue(), 353);
    assert_eq!(Palette::Purple.hue(), 274);
    assert_eq!(Palette::Brown.hue(), 27);
}

#[test]
fn settings_positions_round_trip() {
    let schemes = [
        ColourScheme::Default,
        ColourScheme::ForceLight,
        ColourScheme::PreferLight,
        ColourScheme::PreferDark,
        ColourScheme::ForceDark,
    ];
    for (i, s) in schemes.iter().enumerate() {
        assert_eq!(s.position(), i as u32);
        assert_eq!(ColourScheme::at_position(s.position()), *s);
    }
    assert_eq!(ColourScheme::at_position(5), ColourScheme::Default);
    let palettes = [
        Palette::Unset,
        Palette::Blue,
        Palette::Green,
        Palette::Yellow,
        Palette::Orange,
        Palette::Red,
        Palette::Purple,
        Palette::Brown,
    ];
    for (i, p) in palettes.iter().enumerate() {
        assert_eq!(p.position(), i as u32);
        assert_eq!(Palette::at_position(p.position()), *p);
    }
    assert_eq!(Palette::at_position(99), Palette::Unset);
}
