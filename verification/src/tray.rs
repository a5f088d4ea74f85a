//! Tray status machine.
//!
//! The tray icon shows one of four presentation states.  `set` is a total
//! transition — any state may follow any other — and returns the tooltip
//! text the tray capability must display.  Status strings that name no
//! known state fall back to the default tooltip rather than failing.

use vstd::prelude::*;
use vstd::string::StringExecFns;
use crate::text::str_eq;

verus! {

/// Presentation state of the tray icon.
#[derive(Clone, Copy, PartialEq, Eq, Structural, Debug)]
pub enum TrayStatus {
    Default,
    Online,
    Offline,
    Busy,
}

/// The tray state owned by the application; starts `Default` on each
/// process start and has no persistence.
pub struct TrayState {
    pub status: TrayStatus,
}

/// Which status a raw status string names; anything unrecognized is
/// `Default`.
pub open spec fn spec_status_of(s: Seq<char>) -> TrayStatus {
    if s == "online"@ {
        TrayStatus::Online
    } else if s == "offline"@ {
        TrayStatus::Offline
    } else if s == "busy"@ {
        TrayStatus::Busy
    } else {
        TrayStatus::Default
    }
}

/// The tooltip shown for each status.
pub open spec fn spec_tooltip(st: TrayStatus) -> Seq<char> {
    match st {
        TrayStatus::Online => "EasyMO Admin - Online"@,
        TrayStatus::Offline => "EasyMO Admin - Offline"@,
        TrayStatus::Busy => "EasyMO Admin - Processing..."@,
        TrayStatus::Default => "EasyMO Admin"@,
    }
}

/// The state after `set` is called with `s`: it depends on `s` alone.
pub open spec fn spec_set(st: TrayState, s: Seq<char>) -> TrayState {
    TrayState { status: spec_status_of(s) }
}

pub fn status_of(s: &str) -> (st: TrayStatus)
    ensures
        st == spec_status_of(s@),
{
    if str_eq(s, "online") {
        TrayStatus::Online
    } else if str_eq(s, "offline") {
        TrayStatus::Offline
    } else if str_eq(s, "busy") {
        TrayStatus::Busy
    } else {
        TrayStatus::Default
    }
}

pub fn tooltip_text(st: TrayStatus) -> (t: String)
    ensures
        t@ == spec_tooltip(st),
{
    match st {
        TrayStatus::Online => String::from_str("EasyMO Admin - Online"),
        TrayStatus::Offline => String::from_str("EasyMO Admin - Offline"),
        TrayStatus::Busy => String::from_str("EasyMO Admin - Processing..."),
        TrayStatus::Default => String::from_str("EasyMO Admin"),
    }
}

impl TrayState {
    pub fn new() -> (st: Self)
        ensures
            st.status == TrayStatus::Default,
    {
        TrayState { status: TrayStatus::Default }
    }

    /// Total status transition.  Returns the tooltip text the tray
    /// capability must now display.
    pub fn set(&mut self, status: &str) -> (tooltip: String)
        ensures
            *final(self) == spec_set(*old(self), status@),
            tooltip@ == spec_tooltip(spec_status_of(status@)),
    {
        self.status = status_of(status);
        tooltip_text(self.status)
    }
}

/// What a click on one of the tray icon's menu items asks for.
#[derive(Clone, Copy, PartialEq, Eq, Structural, Debug)]
pub enum TrayMenuAction {
    Quit,
    ShowMain,
    HideMain,
    Ignore,
}

/// Which action a tray menu item id names; an unknown id is ignored.
pub open spec fn spec_tray_menu_action(id: Seq<char>) -> TrayMenuAction {
    if id == "quit"@ {
        TrayMenuAction::Quit
    } else if id == "show"@ {
        TrayMenuAction::ShowMain
    } else if id == "hide"@ {
        TrayMenuAction::HideMain
    } else {
        TrayMenuAction::Ignore
    }
}

/// Decides what a click on a tray menu item asks the shell to do.
pub fn tray_menu_action(id: &str) -> (a: TrayMenuAction)
    ensures
        a == spec_tray_menu_action(id@),
{
    if str_eq(id, "quit") {
        TrayMenuAction::Quit
    } else if str_eq(id, "show") {
        TrayMenuAction::ShowMain
    } else if str_eq(id, "hide") {
        TrayMenuAction::HideMain
    } else {
        TrayMenuAction::Ignore
    }
}

/// The tray icon's own menu: each item's id and title, in order.
pub open spec fn spec_tray_menu() -> Seq<(Seq<char>, Seq<char>)> {
    seq![
        ("show"@, "Show Window"@),
        ("hide"@, "Hide Window"@),
        ("quit"@, "Quit EasyMO Admin"@),
    ]
}

/// Builds the tray icon's menu, exactly as `spec_tray_menu` spells it
/// out; none of its ids is ignored by the tray-menu decision.
pub fn tray_menu() -> (items: Vec<(String, String)>)
    ensures
        items.deep_view() == spec_tray_menu(),
        forall|i: int|
            0 <= i < spec_tray_menu().len() ==> spec_tray_menu_action(
                #[trigger] spec_tray_menu()[i].0,
            ) != TrayMenuAction::Ignore,
{
    let mut items: Vec<(String, String)> = Vec::new();
    items.push((String::from_str("show"), String::from_str("Show Window")));
    items.push((String::from_str("hide"), String::from_str("Hide Window")));
    items.push((String::from_str("quit"), String::from_str("Quit EasyMO Admin")));
    proof {
        assert(items.deep_view() =~= spec_tray_menu());
        assert forall|i: int|
            0 <= i < spec_tray_menu().len() implies spec_tray_menu_action(
            #[trigger] spec_tray_menu()[i].0,
        ) != TrayMenuAction::Ignore by {
            assert(spec_tray_menu()[0].0 == "show"@);
            assert(spec_tray_menu()[1].0 == "hide"@);
            assert(spec_tray_menu()[2].0 == "quit"@);
        }
    }
    items
}

/// A mouse button as a tray click reports it.
#[derive(Clone, Copy, PartialEq, Eq, Structural, Debug)]
pub enum TrayButton {
    Left,
    Right,
    Middle,
}

/// The button state a tray click reports.
#[derive(Clone, Copy, PartialEq, Eq, Structural, Debug)]
pub enum TrayButtonState {
    Up,
    Down,
}

/// The tray icon's click rule: releasing the left button shows the main
/// window; every other click is ignored.
pub fn tray_click_shows_main(button: TrayButton, state: TrayButtonState) -> (b: bool)
    ensures
        b == (button == TrayButton::Left && state == TrayButtonState::Up),
{
    match (button, state) {
        (TrayButton::Left, TrayButtonState::Up) => true,
        _ => false,
    }
}

/// Setting the same status twice is idempotent: the second transition
/// leaves the state exactly where the first left it, and the tooltip it
/// yields is the same one.
pub proof fn lemma_tray_set_idempotent(st: TrayState, s: Seq<char>)
    ensures
        spec_set(spec_set(st, s), s) == spec_set(st, s),
        spec_tooltip(spec_set(spec_set(st, s), s).status) == spec_tooltip(
            spec_set(st, s).status,
        ),
{
}

} // verus!
