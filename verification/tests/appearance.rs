use oku::colour::{
    colour_action, colour_key, domain_hue, hue_from_hash, page_background, stylesheet,
    ColourAction,
};
use oku::config::enums::Palette;
use oku::config::imp::Config;
use oku::text::decimal;
use oku::window_state::{
    close_tab_action, duplicate_uri, find_arrow_icons, find_popover_action, fullscreen_icon,
    indicator_action, indicator_after_audio_change, indicator_after_mute_change, matches_label,
    permission_prompt, records_visit, refresh_action, refresh_icon, screenshot_region,
    window_title, AudioIndicator, CloseTab, IndicatorAction, PermissionKind, PopoverAction,
    RefreshAction, ScreenshotRegion,
};

const PAD: &str = "                    ";

fn expected_stylesheet(hue: u64, is_dark: bool) -> String {
    let elements = ["view", "window", "dialog", "popover", "card", "headerbar", "sidebar"];
    let mut out = String::from("\n");
    for e in elements {
        let bar = e == "headerbar" || e == "sidebar";
        let (bs, bl) = match (is_dark, bar) {
            (true, true) => ("80", "10"),
            (true, false) => ("20", "8"),
            (false, true) => ("100", "96"),
            (false, false) => ("100", "99"),
        };
        let (fs, fl) = if is_dark { ("100", "98") } else { ("100", "12") };
        out.push_str(&format!("{PAD}@define-color {e}_bg_color hsl({hue}, {bs}%, {bl}%);\n"));
        out.push_str(&format!("{PAD}@define-color {e}_fg_color hsl({hue}, {fs}%, {fl}%);\n"));
    }
    out.push_str("                ");
    out
}

#[test]
fn dark_stylesheet_for_blue() {
    let sheet = stylesheet(213, true);
    assert_eq!(sheet, expected_stylesheet(213, true));
    assert!(sheet.contains("@define-color view_bg_color hsl(213, 20%, 8%);\n"));
    assert!(sheet.contains("@define-color sidebar_bg_color hsl(213, 80%, 10%);\n"));
    assert!(sheet.starts_with("\n                    @define-color view_bg_color"));
}

#[test]
fn light_stylesheet_for_hue_zero() {
    let sheet = stylesheet(0, false);
    assert_eq!(sheet, expected_stylesheet(0, false));
    assert!(sheet.contains("@define-color headerbar_bg_color hsl(0, 100%, 96%);\n"));
    assert!(sheet.contains("@define-color card_fg_color hsl(0, 100%, 12%);\n"));
    assert_eq!(sheet.lines().filter(|l| l.contains("@define-color")).count(), 14);
}

#[test]
fn page_backgrounds() {
    assert_eq!(page_background(274, true), "hsl(274, 20%, 8%)");
    assert_eq!(page_background(274, false), "hsl(274, 100%, 99%)");
    assert_eq!(page_background(359, false), "hsl(359, 100%, 99%)");
}

#[test]
fn decimal_text_of_numbers() {
    assert_eq!(decimal(0), "0");
    assert_eq!(decimal(7), "7");
    assert_eq!(decimal(360), "360");
    assert_eq!(decimal(u64::MAX), u64::MAX.to_string());
}

#[test]
fn hues_from_hashes() {
    assert_eq!(hue_from_hash(0), 0);
    assert_eq!(hue_from_hash(359), 359);
    assert_eq!(hue_from_hash(360), 0);
    assert_eq!(hue_from_hash(725), 5);
    assert_eq!(hue_from_hash(u64::MAX), u64::MAX % 360);
}

#[test]
fn colour_keys_are_domains() {
    assert_eq!(colour_key("https://www.example.com/a/b?q=1"), "www.example.com");
    assert_eq!(colour_key("http://EXAMPLE.org"), "example.org");
    assert_eq!(colour_key("about:blank"), "about:blank");
    assert_eq!(colour_key("http://127.0.0.1/x"), "http://127.0.0.1/x");
    assert_eq!(colour_key("not a url"), "not a url");
}

#[test]
fn domain_hues_stay_in_range() {
    for uri in ["https://www.example.com/", "hive://abc/def", "about:blank", ""] {
        assert!(domain_hue(uri) < 360);
    }
    assert_eq!(
        domain_hue("https://www.example.com/a"),
        domain_hue("https://www.example.com/b")
    );
}

#[test]
fn colour_actions_follow_the_configuration() {
    let mut config = Config::default();
    assert_eq!(colour_action(&config), ColourAction::Clear);
    config.set_palette(Palette::Blue);
    assert_eq!(colour_action(&config), ColourAction::Palette(213));
    config.set_palette(Palette::Brown);
    assert_eq!(colour_action(&config), ColourAction::Palette(27));
    config.set_colour_per_domain(true);
    assert_eq!(colour_action(&config), ColourAction::Domain);
}

#[test]
fn closing_tabs() {
    assert_eq!(close_tab_action(3), CloseTab::ClosePage);
    assert_eq!(close_tab_action(2), CloseTab::ClosePage);
    assert_eq!(close_tab_action(1), CloseTab::CloseWindow);
    assert_eq!(close_tab_action(0), CloseTab::CloseWindow);
}

#[test]
fn find_bar_labels() {
    assert_eq!(matches_label(Some(0)), "1 match");
    assert_eq!(matches_label(Some(1)), "1 match");
    assert_eq!(matches_label(Some(2)), "2 matches");
    assert_eq!(matches_label(Some(1234)), "1234 matches");
    assert_eq!(matches_label(None), "No matches");
}

#[test]
fn window_titles() {
    assert_eq!(window_title("Example", false), "Example");
    assert_eq!(window_title("Example", true), "Example — Private");
    assert_eq!(window_title("", true), " — Private");
}

#[test]
fn audio_indicators() {
    assert_eq!(indicator_after_mute_change(true, true), AudioIndicator::Muted);
    assert_eq!(indicator_after_mute_change(false, true), AudioIndicator::Playing);
    assert_eq!(indicator_after_mute_change(false, false), AudioIndicator::Silent);
    assert_eq!(indicator_after_audio_change(true, false), Some(AudioIndicator::Playing));
    assert_eq!(indicator_after_audio_change(true, true), None);
    assert_eq!(indicator_after_audio_change(false, true), Some(AudioIndicator::Muted));
    assert_eq!(indicator_after_audio_change(false, false), Some(AudioIndicator::Silent));
    assert_eq!(AudioIndicator::Muted.icon_name(), "audio-volume-muted");
    assert_eq!(AudioIndicator::Playing.icon_name(), "audio-volume-high");
    assert_eq!(AudioIndicator::Silent.icon_name(), "view-pin-symbolic");
    assert_eq!(refresh_icon(true), "cross-large-symbolic");
    assert_eq!(refresh_icon(false), "arrow-circular-top-right-symbolic");
}

#[test]
fn window_controls() {
    assert_eq!(refresh_action(true), RefreshAction::StopLoading);
    assert_eq!(refresh_action(false), RefreshAction::Reload);
    assert_eq!(indicator_action(false, false), IndicatorAction::TogglePin);
    assert_eq!(indicator_action(true, false), IndicatorAction::ToggleMute);
    assert_eq!(indicator_action(false, true), IndicatorAction::ToggleMute);
    assert_eq!(find_arrow_icons(true), ("go-up", "go-down"));
    assert_eq!(find_arrow_icons(false), ("go-down", "go-up"));
    assert_eq!(find_popover_action(0, false), PopoverAction::Ignore);
    assert_eq!(find_popover_action(2, false), PopoverAction::Show);
    assert_eq!(find_popover_action(2, true), PopoverAction::Hide);
    assert_eq!(fullscreen_icon(true), "unfullscreen-rectangular-symbolic");
    assert_eq!(fullscreen_icon(false), "fullscreen-rectangular-symbolic");
    assert_eq!(duplicate_uri(Some("https://a.org".to_string())), "https://a.org");
    assert_eq!(duplicate_uri(None), "oku:home");
    assert_eq!(screenshot_region("cancel"), None);
    assert_eq!(screenshot_region("visible"), Some(ScreenshotRegion::Visible));
    assert_eq!(screenshot_region("full"), Some(ScreenshotRegion::FullDocument));
}

#[test]
fn visits_worth_recording() {
    assert!(records_visit(Some("https://a.org"), false, true));
    assert!(records_visit(None, false, true));
    assert!(!records_visit(Some("oku:home"), false, true));
    assert!(!records_visit(Some("https://a.org"), true, true));
    assert!(!records_visit(Some("https://a.org"), false, false));
}

#[test]
fn windows_without_a_saved_size_get_the_default() {
    let mut config = Config::default();
    config.restore_window_size();
    assert_eq!((config.width(), config.height()), (1000, 700));
    let mut config = Config::default();
    config.set_width(800);
    config.restore_window_size();
    assert_eq!((config.width(), config.height()), (800, 0));
}

#[test]
fn permission_prompts() {
    assert_eq!(permission_prompt(PermissionKind::Clipboard).0, "Allow access to clipboard?");
    assert_eq!(
        permission_prompt(PermissionKind::Geolocation),
        ("Allow access to location?", "This page is requesting access to your location.")
    );
    let media = |audio, display, video| PermissionKind::UserMedia { audio, display, video };
    assert_eq!(permission_prompt(media(true, true, true)).0, "Allow access to audio devices?");
    assert_eq!(permission_prompt(media(false, true, true)).0, "Allow access to display devices?");
    assert_eq!(permission_prompt(media(false, false, true)).0, "Allow access to video devices?");
    assert_eq!(permission_prompt(media(false, false, false)).0, "Allow access to media devices?");
    assert_eq!(permission_prompt(PermissionKind::Other), ("", ""));
}
