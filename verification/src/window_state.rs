use crate::text::{concat, decimal, decimal_spec, str_eq};
use vstd::prelude::*;

verus! {

/// What closing a tab does.
#[derive(Debug, Clone, Copy, PartialEq, Eq, Structural)]
pub enum CloseTab {
    /// Close the tab's page.
    ClosePage,
    /// The tab is the last one: close the window.
    CloseWindow,
}

/// Closing a tab closes its page, unless it is the window's only page, in
/// which case the window closes.
pub fn close_tab_action(n_pages: i32) -> (r: CloseTab)
    ensures
        n_pages > 1 ==> r == CloseTab::ClosePage,
        n_pages <= 1 ==> r == CloseTab::CloseWindow,
{
    if n_pages > 1 {
        CloseTab::ClosePage
    } else {
        CloseTab::CloseWindow
    }
}

/// The label of the find bar after a search: the number of matches when
/// there is more than one, `1 match` for one, and `No matches` when the
/// text was not found (`None`).
pub open spec fn matches_label_spec(match_count: Option<u32>) -> Seq<char> {
    match match_count {
        Some(n) => if n > 1 {
            decimal_spec(n as nat) + " matches"@
        } else {
            "1 match"@
        },
        None => "No matches"@,
    }
}

/// The label of the find bar after the page reported `match_count` matches
/// (`None` when it found none).
pub fn matches_label(match_count: Option<u32>) -> (r: String)
    ensures
        r@ == matches_label_spec(match_count),
{
    match match_count {
        Some(n) => {
            if n > 1 {
                let mut r = decimal(n as u64);
                r.append(" matches");
                r
            } else {
                String::from_str("1 match")
            }
        },
        None => String::from_str("No matches"),
    }
}

/// The title of a window: the page's title, marked for private windows.
pub open spec fn window_title_spec(title: Seq<char>, is_private: bool) -> Seq<char> {
    if is_private {
        title + " — Private"@
    } else {
        title
    }
}

/// The title of a window showing a page titled `title`.
pub fn window_title(title: &str, is_private: bool) -> (r: String)
    ensures
        r@ == window_title_spec(title@, is_private),
{
    if is_private {
        concat(title, " — Private")
    } else {
        String::from_str(title)
    }
}

/// The icons a tab's audio indicator shows.
#[derive(Debug, Clone, Copy, PartialEq, Eq, Structural)]
pub enum AudioIndicator {
    /// `audio-volume-muted`
    Muted,
    /// `audio-volume-high`
    Playing,
    /// `view-pin-symbolic`
    Silent,
}

impl AudioIndicator {
    /// The name of the icon.
    pub fn icon_name(&self) -> (r: &'static str)
        ensures
            *self == AudioIndicator::Muted ==> r@ == "audio-volume-muted"@,
            *self == AudioIndicator::Playing ==> r@ == "audio-volume-high"@,
            *self == AudioIndicator::Silent ==> r@ == "view-pin-symbolic"@,
    {
        match self {
            AudioIndicator::Muted => "audio-volume-muted",
            AudioIndicator::Playing => "audio-volume-high",
            AudioIndicator::Silent => "view-pin-symbolic",
        }
    }
}

/// The indicator after a page was muted or unmuted: muted, else playing
/// if audio plays, else silent.
pub fn indicator_after_mute_change(is_muted: bool, is_playing_audio: bool) -> (r: AudioIndicator)
    ensures
        is_muted ==> r == AudioIndicator::Muted,
        !is_muted && is_playing_audio ==> r == AudioIndicator::Playing,
        !is_muted && !is_playing_audio ==> r == AudioIndicator::Silent,
{
    if is_muted {
        AudioIndicator::Muted
    } else if is_playing_audio {
        AudioIndicator::Playing
    } else {
        AudioIndicator::Silent
    }
}

/// The indicator after a page started or stopped playing audio: playing
/// when audio plays unmuted, muted or silent when it stopped; when muted
/// audio starts to play the indicator stays as it is (`None`).
pub fn indicator_after_audio_change(is_playing_audio: bool, is_muted: bool) -> (r: Option<
    AudioIndicator,
>)
    ensures
        is_playing_audio && !is_muted ==> r == Some(AudioIndicator::Playing),
        is_playing_audio && is_muted ==> r is None,
        !is_playing_audio && is_muted ==> r == Some(AudioIndicator::Muted),
        !is_playing_audio && !is_muted ==> r == Some(AudioIndicator::Silent),
{
    if is_playing_audio && !is_muted {
        Some(AudioIndicator::Playing)
    } else if !is_playing_audio {
        if is_muted {
            Some(AudioIndicator::Muted)
        } else {
            Some(AudioIndicator::Silent)
        }
    } else {
        None
    }
}

/// The icon of the reload button: stop while the page loads, else reload.
pub fn refresh_icon(is_loading: bool) -> (r: &'static str)
    ensures
        is_loading ==> r@ == "cross-large-symbolic"@,
        !is_loading ==> r@ == "arrow-circular-top-right-symbolic"@,
{
    if is_loading {
        "cross-large-symbolic"
    } else {
        "arrow-circular-top-right-symbolic"
    }
}

/// What the reload button does.
#[derive(Debug, Clone, Copy, PartialEq, Eq, Structural)]
pub enum RefreshAction {
    /// Stop loading the page.
    StopLoading,
    /// Load the page again.
    Reload,
}

/// The reload button stops a page that is loading and reloads any other.
pub fn refresh_action(is_loading: bool) -> (r: RefreshAction)
    ensures
        is_loading ==> r == RefreshAction::StopLoading,
        !is_loading ==> r == RefreshAction::Reload,
{
    if is_loading {
        RefreshAction::StopLoading
    } else {
        RefreshAction::Reload
    }
}

/// What activating a tab's indicator does.
#[derive(Debug, Clone, Copy, PartialEq, Eq, Structural)]
pub enum IndicatorAction {
    /// Pin the tab, or unpin it if it is pinned.
    TogglePin,
    /// Mute the page, or unmute it if it is muted.
    ToggleMute,
}

/// A silent, unmuted page's indicator pins or unpins its tab; any other
/// page's indicator mutes or unmutes it.
pub fn indicator_action(is_playing_audio: bool, is_muted: bool) -> (r: IndicatorAction)
    ensures
        !is_playing_audio && !is_muted ==> r == IndicatorAction::TogglePin,
        is_playing_audio || is_muted ==> r == IndicatorAction::ToggleMute,
{
    if !is_playing_audio && !is_muted {
        IndicatorAction::TogglePin
    } else {
        IndicatorAction::ToggleMute
    }
}

/// The icons of the find bar's next and previous buttons: the next match
/// is upwards when searching backwards.
pub fn find_arrow_icons(backwards: bool) -> (r: (&'static str, &'static str))
    ensures
        backwards ==> r.0@ == "go-up"@ && r.1@ == "go-down"@,
        !backwards ==> r.0@ == "go-down"@ && r.1@ == "go-up"@,
{
    if backwards {
        ("go-up", "go-down")
    } else {
        ("go-down", "go-up")
    }
}

/// What the find shortcut does to the find popover.
#[derive(Debug, Clone, Copy, PartialEq, Eq, Structural)]
pub enum PopoverAction {
    /// Nothing: the window has no page.
    Ignore,
    /// Show the popover.
    Show,
    /// Hide the popover.
    Hide,
}

/// The find shortcut does nothing in a window without pages; otherwise it
/// shows the popover if hidden and hides it if shown.
pub fn find_popover_action(n_pages: i32, is_visible: bool) -> (r: PopoverAction)
    ensures
        n_pages == 0 ==> r == PopoverAction::Ignore,
        n_pages != 0 && !is_visible ==> r == PopoverAction::Show,
        n_pages != 0 && is_visible ==> r == PopoverAction::Hide,
{
    if n_pages == 0 {
        PopoverAction::Ignore
    } else if !is_visible {
        PopoverAction::Show
    } else {
        PopoverAction::Hide
    }
}

/// The icon of the fullscreen button.
pub fn fullscreen_icon(is_fullscreen: bool) -> (r: &'static str)
    ensures
        is_fullscreen ==> r@ == "unfullscreen-rectangular-symbolic"@,
        !is_fullscreen ==> r@ == "fullscreen-rectangular-symbolic"@,
{
    if is_fullscreen {
        "unfullscreen-rectangular-symbolic"
    } else {
        "fullscreen-rectangular-symbolic"
    }
}

/// Whether a finished load goes into the browsing history: not in a
/// private window, and not for the browser's home page.
pub open spec fn records_visit_spec(uri: Option<Seq<char>>, is_private: bool, finished: bool) -> bool {
    finished && !is_private && uri != Some("oku:home"@)
}

/// Whether the load of the page at `uri` (if it has one) is recorded.
pub fn records_visit(uri: Option<&str>, is_private: bool, finished: bool) -> (r: bool)
    ensures
        r == records_visit_spec(
            match uri {
                Some(u) => Some(u@),
                None => None,
            },
            is_private,
            finished,
        ),
{
    let home = match uri {
        Some(u) => str_eq(u, "oku:home"),
        None => false,
    };
    finished && !is_private && !home
}

/// The address a duplicated tab loads: that of the tab, or the home page
/// if it has none.
pub fn duplicate_uri(uri: Option<String>) -> (r: String)
    ensures
        match uri {
            Some(u) => r@ == u@,
            None => r@ == "oku:home"@,
        },
{
    match uri {
        Some(u) => u,
        None => String::from_str("oku:home"),
    }
}

/// The part of a page that a screenshot covers.
#[derive(Debug, Clone, Copy, PartialEq, Eq, Structural)]
pub enum ScreenshotRegion {
    /// What the window shows of the page.
    Visible,
    /// The whole document.
    FullDocument,
}

/// The answer to the screenshot dialog: no screenshot for `cancel`, else
/// the region the answer names. The dialog has no other answers.
pub fn screenshot_region(response: &str) -> (r: Option<ScreenshotRegion>)
    requires
        response@ == "cancel"@ || response@ == "visible"@ || response@ == "full"@,
    ensures
        response@ == "cancel"@ ==> r is None,
        response@ == "visible"@ ==> r == Some(ScreenshotRegion::Visible),
        response@ == "full"@ ==> r == Some(ScreenshotRegion::FullDocument),
{
    proof {
        reveal_strlit("cancel");
        reveal_strlit("visible");
        reveal_strlit("full");
        assert("cancel"@.len() == 6 && "visible"@.len() == 7 && "full"@.len() == 4);
    }
    if str_eq(response, "visible") {
        Some(ScreenshotRegion::Visible)
    } else if str_eq(response, "full") {
        Some(ScreenshotRegion::FullDocument)
    } else {
        None
    }
}

/// What a page asks permission for.
#[derive(Debug, Clone, Copy, PartialEq, Eq, Structural)]
pub enum PermissionKind {
    Clipboard,
    DeviceInfo,
    Geolocation,
    MediaKeySystem,
    Notification,
    PointerLock,
    /// Media devices; the flags say whether the request is for an audio,
    /// a display and a video device.
    UserMedia { audio: bool, display: bool, video: bool },
    WebsiteDataAccess,
    Other,
}

/// The title and text of the dialog that asks the user about a permission.
/// A media request names audio devices before display devices before video
/// devices; any other request has an empty title and text.
pub open spec fn permission_prompt_spec(kind: PermissionKind) -> (Seq<char>, Seq<char>) {
    match kind {
        PermissionKind::Clipboard => (
            "Allow access to clipboard?"@,
            "This page is requesting permission to read the contents of your clipboard."@,
        ),
        PermissionKind::DeviceInfo => (
            "Allow access to audio & video devices?"@,
            "This page is requesting access to information regarding your audio & video devices."@,
        ),
        PermissionKind::Geolocation => (
            "Allow access to location?"@,
            "This page is requesting access to your location."@,
        ),
        PermissionKind::MediaKeySystem => (
            "Allow playback of encrypted media?"@,
            "This page wishes to play encrypted media."@,
        ),
        PermissionKind::Notification => (
            "Allow notifications?"@,
            "This page is requesting permission to display notifications."@,
        ),
        PermissionKind::PointerLock => (
            "Allow locking the pointer?"@,
            "This page is requesting permission to lock your pointer."@,
        ),
        PermissionKind::UserMedia { audio, display, video } => if audio {
            (
                "Allow access to audio devices?"@,
                "This page is requesting access to your audio source devices."@,
            )
        } else if display {
            (
                "Allow access to display devices?"@,
                "This page is requesting access to your display devices."@,
            )
        } else if video {
            (
                "Allow access to video devices?"@,
                "This page is requesting access to your video source devices."@,
            )
        } else {
            (
                "Allow access to media devices?"@,
                "This page is requesting access to your media devices."@,
            )
        },
        PermissionKind::WebsiteDataAccess => (
            "Allow access to third-party cookies?"@,
            "This page is requesing permission to read your data from third-party domains."@,
        ),
        PermissionKind::Other => (""@, ""@),
    }
}

/// The title and text of the dialog that asks about a permission of kind
/// `kind`.
pub fn permission_prompt(kind: PermissionKind) -> (r: (&'static str, &'static str))
    ensures
        (r.0@, r.1@) == permission_prompt_spec(kind),
{
    match kind {
        PermissionKind::Clipboard => (
            "Allow access to clipboard?",
            "This page is requesting permission to read the contents of your clipboard.",
        ),
        PermissionKind::DeviceInfo => (
            "Allow access to audio & video devices?",
            "This page is requesting access to information regarding your audio & video devices.",
        ),
        PermissionKind::Geolocation => (
            "Allow access to location?",
            "This page is requesting access to your location.",
        ),
        PermissionKind::MediaKeySystem => (
            "Allow playback of encrypted media?",
            "This page wishes to play encrypted media.",
        ),
        PermissionKind::Notification => (
            "Allow notifications?",
            "This page is requesting permission to display notifications.",
        ),
        PermissionKind::PointerLock => (
            "Allow locking the pointer?",
            "This page is requesting permission to lock your pointer.",
        ),
        PermissionKind::UserMedia { audio, display, video } => {
            if audio {
                (
                    "Allow access to audio devices?",
                    "This page is requesting access to your audio source devices.",
                )
            } else if display {
                (
                    "Allow access to display devices?",
                    "This page is requesting access to your display devices.",
                )
            } else if video {
                (
                    "Allow access to video devices?",
                    "This page is requesting access to your video source devices.",
                )
            } else {
                (
                    "Allow access to media devices?",
                    "This page is requesting access to your media devices.",
                )
            }
        },
        PermissionKind::WebsiteDataAccess => (
            "Allow access to third-party cookies?",
            "This page is requesing permission to read your data from third-party domains.",
        ),
        PermissionKind::Other => ("", ""),
    }
}

/// Which loads go into the history: every finished load in a window that
/// is not private, whatever its address (any other `oku:` page included),
/// except the home page `oku:home`; nothing from a private window and
/// nothing before the load finishes.
pub proof fn law_recorded_visits(uri: Seq<char>, rest: Seq<char>, is_private: bool, finished: bool)
    ensures
        uri != "oku:home"@ ==> records_visit_spec(Some(uri), false, true),
        rest != "home"@ ==> records_visit_spec(Some("oku:"@ + rest), false, true),
        records_visit_spec(None, false, true),
        !records_visit_spec(Some("oku:home"@), is_private, finished),
        is_private || !finished ==> !records_visit_spec(Some(uri), is_private, finished),
        is_private || !finished ==> !records_visit_spec(None, is_private, finished),
{
    reveal_strlit("oku:");
    reveal_strlit("home");
    reveal_strlit("oku:home");
    if rest != "home"@ && "oku:"@ + rest == "oku:home"@ {
        assert(("oku:"@ + rest).skip(4) =~= rest);
        assert("oku:home"@.skip(4) =~= "home"@);
    }
}

} // verus!
