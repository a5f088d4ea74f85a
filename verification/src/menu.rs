//! Application menu.
//!
//! The menu is data: submenus of items, each item either one of the
//! shell's own actions (carrying an id the frontend hears about as a
//! `menu-<id>` event), a separator, or a native role the host framework
//! renders itself.  `menu_action` decides what a clicked item id asks
//! for; `app_menu` builds exactly the menu `spec_app_menu` spells out,
//! and every action id in it is one `menu_action` recognizes.

use vstd::prelude::*;
use vstd::string::StringExecFns;
use crate::text::str_eq;

verus! {

/// What a clicked menu item asks the shell to do.
#[derive(Debug)]
pub enum MenuAction {
    Emit(String),
    ToggleFullscreen,
    OpenDevTools,
    Minimize,
    Hide,
    ToggleMaximize,
}

/// The mathematical shape of a menu action.
pub enum MenuActionView {
    Emit(Seq<char>),
    ToggleFullscreen,
    OpenDevTools,
    Minimize,
    Hide,
    ToggleMaximize,
}

impl View for MenuAction {
    type V = MenuActionView;

    open spec fn view(&self) -> MenuActionView {
        match self {
            MenuAction::Emit(e) => MenuActionView::Emit(e@),
            MenuAction::ToggleFullscreen => MenuActionView::ToggleFullscreen,
            MenuAction::OpenDevTools => MenuActionView::OpenDevTools,
            MenuAction::Minimize => MenuActionView::Minimize,
            MenuAction::Hide => MenuActionView::Hide,
            MenuAction::ToggleMaximize => MenuActionView::ToggleMaximize,
        }
    }
}

/// A clicked id that names no menu item is an error surfaced to the
/// caller.
#[derive(Debug)]
pub enum MenuError {
    UnknownItem(String),
}

/// Which action each menu item id names, `None` for an unknown id.
pub open spec fn spec_menu_action(id: Seq<char>) -> Option<MenuActionView> {
    if id == "new_window"@ {
        Some(MenuActionView::Emit("menu-new-window"@))
    } else if id == "open"@ {
        Some(MenuActionView::Emit("menu-open"@))
    } else if id == "save"@ {
        Some(MenuActionView::Emit("menu-save"@))
    } else if id == "export"@ {
        Some(MenuActionView::Emit("menu-export"@))
    } else if id == "refresh"@ {
        Some(MenuActionView::Emit("menu-refresh"@))
    } else if id == "fullscreen"@ {
        Some(MenuActionView::ToggleFullscreen)
    } else if id == "dev_tools"@ {
        Some(MenuActionView::OpenDevTools)
    } else if id == "minimize"@ {
        Some(MenuActionView::Minimize)
    } else if id == "minimize_to_tray"@ {
        Some(MenuActionView::Hide)
    } else if id == "zoom"@ {
        Some(MenuActionView::ToggleMaximize)
    } else if id == "documentation"@ {
        Some(MenuActionView::Emit("menu-documentation"@))
    } else if id == "report_issue"@ {
        Some(MenuActionView::Emit("menu-report-issue"@))
    } else if id == "about"@ {
        Some(MenuActionView::Emit("menu-about"@))
    } else {
        None
    }
}

/// Decides what a clicked menu item id asks for; an unknown id is an
/// error carrying the id.
pub fn menu_action(id: &str) -> (r: Result<MenuAction, MenuError>)
    ensures
        match spec_menu_action(id@) {
            Some(v) => r matches Ok(a) && a@ == v,
            None => r matches Err(MenuError::UnknownItem(s)) && s@ == id@,
        },
{
    if str_eq(id, "new_window") {
        Ok(MenuAction::Emit(String::from_str("menu-new-window")))
    } else if str_eq(id, "open") {
        Ok(MenuAction::Emit(String::from_str("menu-open")))
    } else if str_eq(id, "save") {
        Ok(MenuAction::Emit(String::from_str("menu-save")))
    } else if str_eq(id, "export") {
        Ok(MenuAction::Emit(String::from_str("menu-export")))
    } else if str_eq(id, "refresh") {
        Ok(MenuAction::Emit(String::from_str("menu-refresh")))
    } else if str_eq(id, "fullscreen") {
        Ok(MenuAction::ToggleFullscreen)
    } else if str_eq(id, "dev_tools") {
        Ok(MenuAction::OpenDevTools)
    } else if str_eq(id, "minimize") {
        Ok(MenuAction::Minimize)
    } else if str_eq(id, "minimize_to_tray") {
        Ok(MenuAction::Hide)
    } else if str_eq(id, "zoom") {
        Ok(MenuAction::ToggleMaximize)
    } else if str_eq(id, "documentation") {
        Ok(MenuAction::Emit(String::from_str("menu-documentation")))
    } else if str_eq(id, "report_issue") {
        Ok(MenuAction::Emit(String::from_str("menu-report-issue")))
    } else if str_eq(id, "about") {
        Ok(MenuAction::Emit(String::from_str("menu-about")))
    } else {
        Err(MenuError::UnknownItem(id.to_owned()))
    }
}

/// A role the host framework renders and handles itself.
#[derive(Clone, Copy, PartialEq, Eq, Structural, Debug)]
pub enum NativeItem {
    CloseWindow,
    Quit,
    Undo,
    Redo,
    Cut,
    CopyText,
    Paste,
    SelectAll,
    Fullscreen,
}

/// One entry of a submenu.
#[derive(Debug)]
pub enum MenuEntry {
    Action { id: String, title: String, accelerator: Option<String> },
    Separator,
    Native(NativeItem),
}

/// One titled submenu of the application menu.
#[derive(Debug)]
pub struct Submenu {
    pub title: String,
    pub entries: Vec<MenuEntry>,
}

/// The mathematical shape of a menu entry.
pub enum MenuEntryView {
    Action { id: Seq<char>, title: Seq<char>, accelerator: Option<Seq<char>> },
    Separator,
    Native(NativeItem),
}

/// The mathematical shape of a submenu.
pub struct SubmenuView {
    pub title: Seq<char>,
    pub entries: Seq<MenuEntryView>,
}

impl View for MenuEntry {
    type V = MenuEntryView;

    open spec fn view(&self) -> MenuEntryView {
        match self {
            MenuEntry::Action { id, title, accelerator } => MenuEntryView::Action {
                id: id@,
                title: title@,
                accelerator: match accelerator {
                    Some(a) => Some(a@),
                    None => None,
                },
            },
            MenuEntry::Separator => MenuEntryView::Separator,
            MenuEntry::Native(n) => MenuEntryView::Native(*n),
        }
    }
}

pub open spec fn entries_view(es: Seq<MenuEntry>) -> Seq<MenuEntryView> {
    es.map_values(|e: MenuEntry| e@)
}

impl View for Submenu {
    type V = SubmenuView;

    open spec fn view(&self) -> SubmenuView {
        SubmenuView { title: self.title@, entries: entries_view(self.entries@) }
    }
}

pub open spec fn submenus_view(ms: Seq<Submenu>) -> Seq<SubmenuView> {
    ms.map_values(|m: Submenu| m@)
}

pub open spec fn spec_action(
    id: Seq<char>,
    title: Seq<char>,
    accelerator: Option<Seq<char>>,
) -> MenuEntryView {
    MenuEntryView::Action { id, title, accelerator }
}

/// The File submenu's entries.
pub open spec fn spec_file_entries() -> Seq<MenuEntryView> {
    seq![
        spec_action("new_window"@, "New Window"@, None),
        MenuEntryView::Separator,
        spec_action("open"@, "Open..."@, Some("CmdOrCtrl+O"@)),
        spec_action("save"@, "Save"@, Some("CmdOrCtrl+S"@)),
        spec_action("export"@, "Export Data..."@, Some("CmdOrCtrl+E"@)),
        MenuEntryView::Separator,
        MenuEntryView::Native(NativeItem::CloseWindow),
        MenuEntryView::Native(NativeItem::Quit),
    ]
}

/// The Edit submenu's entries.
pub open spec fn spec_edit_entries() -> Seq<MenuEntryView> {
    seq![
        MenuEntryView::Native(NativeItem::Undo),
        MenuEntryView::Native(NativeItem::Redo),
        MenuEntryView::Separator,
        MenuEntryView::Native(NativeItem::Cut),
        MenuEntryView::Native(NativeItem::CopyText),
        MenuEntryView::Native(NativeItem::Paste),
        MenuEntryView::Native(NativeItem::SelectAll),
    ]
}

/// The View submenu's entries.
pub open spec fn spec_view_entries() -> Seq<MenuEntryView> {
    seq![
        spec_action("refresh"@, "Refresh"@, Some("CmdOrCtrl+R"@)),
        MenuEntryView::Separator,
        spec_action("fullscreen"@, "Toggle Fullscreen"@, Some("F11"@)),
        MenuEntryView::Native(NativeItem::Fullscreen),
        MenuEntryView::Separator,
        spec_action("dev_tools"@, "Developer Tools"@, Some("CmdOrCtrl+Shift+I"@)),
    ]
}

/// The Window submenu's entries.
pub open spec fn spec_window_entries() -> Seq<MenuEntryView> {
    seq![
        spec_action("minimize"@, "Minimize"@, Some("CmdOrCtrl+M"@)),
        spec_action("minimize_to_tray"@, "Minimize to Tray"@, None),
        spec_action("zoom"@, "Zoom"@, None),
        MenuEntryView::Separator,
        MenuEntryView::Native(NativeItem::CloseWindow),
    ]
}

/// The Help submenu's entries.
pub open spec fn spec_help_entries() -> Seq<MenuEntryView> {
    seq![
        spec_action("documentation"@, "Documentation"@, None),
        spec_action("report_issue"@, "Report Issue"@, None),
        MenuEntryView::Separator,
        spec_action("about"@, "About EasyMO"@, None),
    ]
}

/// The whole application menu: File, Edit, View, Window and Help, in
/// that order, with their entries.
pub open spec fn spec_app_menu() -> Seq<SubmenuView> {
    seq![
        SubmenuView { title: "File"@, entries: spec_file_entries() },
        SubmenuView { title: "Edit"@, entries: spec_edit_entries() },
        SubmenuView { title: "View"@, entries: spec_view_entries() },
        SubmenuView { title: "Window"@, entries: spec_window_entries() },
        SubmenuView { title: "Help"@, entries: spec_help_entries() },
    ]
}

/// The action id an entry carries, if it is one of the shell's own.
pub open spec fn entry_id(e: MenuEntryView) -> Option<Seq<char>> {
    match e {
        MenuEntryView::Action { id, .. } => Some(id),
        MenuEntryView::Separator => None,
        MenuEntryView::Native(_) => None,
    }
}

/// Every action id in the menu is one `spec_menu_action` recognizes.
pub open spec fn all_ids_recognized(ms: Seq<SubmenuView>) -> bool {
    forall|i: int, j: int|
        0 <= i < ms.len() && 0 <= j < ms[i].entries.len() ==> (match entry_id(
            #[trigger] ms[i].entries[j],
        ) {
            Some(id) => spec_menu_action(id) is Some,
            None => true,
        })
}

/// Every action id the application menu holds is one the menu-event
/// decision recognizes.
pub proof fn lemma_app_menu_ids_recognized()
    ensures
        all_ids_recognized(spec_app_menu()),
{
    let ms = spec_app_menu();
    assert forall|i: int, j: int|
        0 <= i < ms.len() && 0 <= j < ms[i].entries.len() implies (match entry_id(
        #[trigger] ms[i].entries[j],
    ) {
        Some(id) => spec_menu_action(id) is Some,
        None => true,
    }) by {
        if i == 0 {
            assert(ms[0].entries =~= spec_file_entries());
        } else if i == 1 {
            assert(ms[1].entries =~= spec_edit_entries());
        } else if i == 2 {
            assert(ms[2].entries =~= spec_view_entries());
        } else if i == 3 {
            assert(ms[3].entries =~= spec_window_entries());
        } else {
            assert(ms[4].entries =~= spec_help_entries());
        }
    }
}

fn action(id: &str, title: &str, accelerator: Option<&str>) -> (e: MenuEntry)
    ensures
        e@ == spec_action(id@, title@, accelerator.deep_view()),
{
    let acc = match accelerator {
        Some(a) => Some(a.to_owned()),
        None => None,
    };
    MenuEntry::Action { id: id.to_owned(), title: title.to_owned(), accelerator: acc }
}

fn file_menu() -> (r: Vec<MenuEntry>)
    ensures
        entries_view(r@) == spec_file_entries(),
{
    let mut es: Vec<MenuEntry> = Vec::new();
    es.push(action("new_window", "New Window", None));
    es.push(MenuEntry::Separator);
    es.push(action("open", "Open...", Some("CmdOrCtrl+O")));
    es.push(action("save", "Save", Some("CmdOrCtrl+S")));
    es.push(action("export", "Export Data...", Some("CmdOrCtrl+E")));
    es.push(MenuEntry::Separator);
    es.push(MenuEntry::Native(NativeItem::CloseWindow));
    es.push(MenuEntry::Native(NativeItem::Quit));
    proof {
        assert(entries_view(es@) =~= spec_file_entries());
    }
    es
}

fn edit_menu() -> (r: Vec<MenuEntry>)
    ensures
        entries_view(r@) == spec_edit_entries(),
{
    let mut es: Vec<MenuEntry> = Vec::new();
    es.push(MenuEntry::Native(NativeItem::Undo));
    es.push(MenuEntry::Native(NativeItem::Redo));
    es.push(MenuEntry::Separator);
    es.push(MenuEntry::Native(NativeItem::Cut));
    es.push(MenuEntry::Native(NativeItem::CopyText));
    es.push(MenuEntry::Native(NativeItem::Paste));
    es.push(MenuEntry::Native(NativeItem::SelectAll));
    proof {
        assert(entries_view(es@) =~= spec_edit_entries());
    }
    es
}

fn view_menu() -> (r: Vec<MenuEntry>)
    ensures
        entries_view(r@) == spec_view_entries(),
{
    let mut es: Vec<MenuEntry> = Vec::new();
    es.push(action("refresh", "Refresh", Some("CmdOrCtrl+R")));
    es.push(MenuEntry::Separator);
    es.push(action("fullscreen", "Toggle Fullscreen", Some("F11")));
    es.push(MenuEntry::Native(NativeItem::Fullscreen));
    es.push(MenuEntry::Separator);
    es.push(action("dev_tools", "Developer Tools", Some("CmdOrCtrl+Shift+I")));
    proof {
        assert(entries_view(es@) =~= spec_view_entries());
    }
    es
}

fn window_menu() -> (r: Vec<MenuEntry>)
    ensures
        entries_view(r@) == spec_window_entries(),
{
    let mut es: Vec<MenuEntry> = Vec::new();
    es.push(action("minimize", "Minimize", Some("CmdOrCtrl+M")));
    es.push(action("minimize_to_tray", "Minimize to Tray", None));
    es.push(action("zoom", "Zoom", None));
    es.push(MenuEntry::Separator);
    es.push(MenuEntry::Native(NativeItem::CloseWindow));
    proof {
        assert(entries_view(es@) =~= spec_window_entries());
    }
    es
}

fn help_menu() -> (r: Vec<MenuEntry>)
    ensures
        entries_view(r@) == spec_help_entries(),
{
    let mut es: Vec<MenuEntry> = Vec::new();
    es.push(action("documentation", "Documentation", None));
    es.push(action("report_issue", "Report Issue", None));
    es.push(MenuEntry::Separator);
    es.push(action("about", "About EasyMO", None));
    proof {
        assert(entries_view(es@) =~= spec_help_entries());
    }
    es
}

/// Builds the application menu, exactly as `spec_app_menu` spells it
/// out; every action id in it is one the menu-event decision
/// recognizes.
pub fn app_menu() -> (menu: Vec<Submenu>)
    ensures
        submenus_view(menu@) == spec_app_menu(),
        all_ids_recognized(submenus_view(menu@)),
{
    let mut menu: Vec<Submenu> = Vec::new();
    menu.push(Submenu { title: String::from_str("File"), entries: file_menu() });
    menu.push(Submenu { title: String::from_str("Edit"), entries: edit_menu() });
    menu.push(Submenu { title: String::from_str("View"), entries: view_menu() });
    menu.push(Submenu { title: String::from_str("Window"), entries: window_menu() });
    menu.push(Submenu { title: String::from_str("Help"), entries: help_menu() });
    proof {
        assert(submenus_view(menu@) =~= spec_app_menu());
        lemma_app_menu_ids_recognized();
    }
    menu
}

} // verus!
