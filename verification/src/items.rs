//! The items that the launcher lists.
use vstd::prelude::*;

use crate::config::ConfigModule;
use crate::search::SearchProvider;
use crate::text::{chars_eq, chars_of, string_from};

verus! {

/// A desktop application.
#[derive(Debug)]
pub struct ApplicationItem {
    pub id: String,
    pub name: String,
    pub command: String,
    pub icon_path: Option<String>,
    pub description: Option<String>,
    pub terminal: bool,
    pub desktop_path: String,
}

impl ApplicationItem {
    /// An application item with the given fields.
    pub fn new(
        id: String,
        name: String,
        command: String,
        icon_path: Option<String>,
        description: Option<String>,
        terminal: bool,
        desktop_path: String,
    ) -> (a: Self)
        ensures
            a == (ApplicationItem { id, name, command, icon_path, description, terminal, desktop_path }),
    {
        ApplicationItem { id, name, command, icon_path, description, terminal, desktop_path }
    }
}

impl Clone for ApplicationItem {
    fn clone(&self) -> (r: Self)
        ensures
            r == *self,
    {
        ApplicationItem {
            id: self.id.clone(),
            name: self.name.clone(),
            command: self.command.clone(),
            icon_path: clone_opt(&self.icon_path),
            description: clone_opt(&self.description),
            terminal: self.terminal,
            desktop_path: self.desktop_path.clone(),
        }
    }
}

/// A clone of an optional string.
pub fn clone_opt(s: &Option<String>) -> (r: Option<String>)
    ensures
        r == *s,
{
    match s {
        Some(v) => Some(v.clone()),
        None => None,
    }
}

/// An open window.
#[derive(Debug)]
pub struct WindowItem {
    pub id: String,
    pub address: String,
    pub title: String,
    pub app_id: String,
    pub app_name: String,
    pub icon_path: Option<String>,
    pub workspace: i32,
    pub focused: bool,
}

impl WindowItem {
    /// A window item with the given fields.
    pub fn new(
        id: String,
        address: String,
        title: String,
        app_id: String,
        app_name: String,
        icon_path: Option<String>,
        workspace: i32,
        focused: bool,
    ) -> (w: Self)
        ensures
            w == (WindowItem { id, address, title, app_id, app_name, icon_path, workspace, focused }),
    {
        WindowItem { id, address, title, app_id, app_name, icon_path, workspace, focused }
    }
}

impl Clone for WindowItem {
    fn clone(&self) -> (r: Self)
        ensures
            r == *self,
    {
        WindowItem {
            id: self.id.clone(),
            address: self.address.clone(),
            title: self.title.clone(),
            app_id: self.app_id.clone(),
            app_name: self.app_name.clone(),
            icon_path: clone_opt(&self.icon_path),
            workspace: self.workspace,
            focused: self.focused,
        }
    }
}

/// What a system action does.
#[derive(Debug)]
pub enum ActionKind {
    Shutdown,
    Reboot,
    Suspend,
    Logout,
    Lock,
    Command(String),
}

impl Clone for ActionKind {
    fn clone(&self) -> (r: Self)
        ensures
            r == *self,
    {
        match self {
            ActionKind::Shutdown => ActionKind::Shutdown,
            ActionKind::Reboot => ActionKind::Reboot,
            ActionKind::Suspend => ActionKind::Suspend,
            ActionKind::Logout => ActionKind::Logout,
            ActionKind::Lock => ActionKind::Lock,
            ActionKind::Command(c) => ActionKind::Command(c.clone()),
        }
    }
}

/// A system action.
#[derive(Debug)]
pub struct ActionItem {
    pub id: String,
    pub name: String,
    pub description: Option<String>,
    pub icon: Option<String>,
    pub kind: ActionKind,
}

impl Clone for ActionItem {
    fn clone(&self) -> (r: Self)
        ensures
            r == *self,
    {
        ActionItem {
            id: self.id.clone(),
            name: self.name.clone(),
            description: clone_opt(&self.description),
            icon: clone_opt(&self.icon),
            kind: self.kind.clone(),
        }
    }
}

/// Name of a built-in action.
pub open spec fn builtin_name(kind: ActionKind) -> Seq<char> {
    match kind {
        ActionKind::Shutdown => "Shut Down"@,
        ActionKind::Reboot => "Reboot"@,
        ActionKind::Suspend => "Suspend"@,
        ActionKind::Logout => "Log Out"@,
        ActionKind::Lock => "Lock Screen"@,
        ActionKind::Command(c) => c@,
    }
}

/// Description of a built-in action.
pub open spec fn builtin_description(kind: ActionKind) -> Seq<char> {
    match kind {
        ActionKind::Shutdown => "Power off the computer"@,
        ActionKind::Reboot => "Restart the computer"@,
        ActionKind::Suspend => "Suspend the computer"@,
        ActionKind::Logout => "End the session"@,
        ActionKind::Lock => "Lock the screen"@,
        ActionKind::Command(c) => c@,
    }
}

fn owned(s: &str) -> (r: String)
    ensures
        r@ == s@,
{
    string_from(&chars_of(s))
}

impl ActionItem {
    /// An action item with the given fields.
    pub fn new(
        id: String,
        name: String,
        description: Option<String>,
        icon: Option<String>,
        kind: ActionKind,
    ) -> (a: Self)
        ensures
            a == (ActionItem { id, name, description, icon, kind }),
    {
        ActionItem { id, name, description, icon, kind }
    }

    /// The built-in action of the given kind.
    pub fn builtin(kind: ActionKind) -> (a: Self)
        ensures
            a.kind == kind,
            a.name@ == builtin_name(kind),
            a.description is Some,
            a.description->0@ == builtin_description(kind),
    {
        let (id, name, desc, icon) = match &kind {
            ActionKind::Shutdown => (
                owned("action-shutdown"),
                owned("Shut Down"),
                owned("Power off the computer"),
                owned("power"),
            ),
            ActionKind::Reboot => (
                owned("action-reboot"),
                owned("Reboot"),
                owned("Restart the computer"),
                owned("arrow-clockwise"),
            ),
            ActionKind::Suspend => (
                owned("action-suspend"),
                owned("Suspend"),
                owned("Suspend the computer"),
                owned("moon"),
            ),
            ActionKind::Logout => (
                owned("action-logout"),
                owned("Log Out"),
                owned("End the session"),
                owned("sign-out"),
            ),
            ActionKind::Lock => (
                owned("action-lock"),
                owned("Lock Screen"),
                owned("Lock the screen"),
                owned("lock"),
            ),
            ActionKind::Command(c) => (owned("action-command"), c.clone(), c.clone(), owned("terminal")),
        };
        ActionItem { id, name, description: Some(desc), icon: Some(icon), kind }
    }

    /// The built-in actions: shut down, reboot, suspend, log out, lock.
    pub fn builtins() -> (v: Vec<ActionItem>)
        ensures
            v.len() == 5,
            v[0].kind == ActionKind::Shutdown,
            v[1].kind == ActionKind::Reboot,
            v[2].kind == ActionKind::Suspend,
            v[3].kind == ActionKind::Logout,
            v[4].kind == ActionKind::Lock,
            forall|i: int|
                0 <= i < 5 ==> (#[trigger] v[i]).name@ == builtin_name(v[i].kind)
                    && v[i].description is Some && v[i].description->0@ == builtin_description(
                    v[i].kind,
                ),
    {
        let mut v: Vec<ActionItem> = Vec::new();
        v.push(ActionItem::builtin(ActionKind::Shutdown));
        v.push(ActionItem::builtin(ActionKind::Reboot));
        v.push(ActionItem::builtin(ActionKind::Suspend));
        v.push(ActionItem::builtin(ActionKind::Logout));
        v.push(ActionItem::builtin(ActionKind::Lock));
        v
    }
}

/// How a submenu lays out its entries.
#[derive(Clone, Copy, Debug, PartialEq, Eq, Structural)]
pub enum SubmenuLayout {
    List,
    Grid(usize),
}

/// An entry that opens a sub-view (emojis, clipboard, themes).
#[derive(Debug)]
pub struct SubmenuItem {
    pub id: String,
    pub name: String,
    pub description: Option<String>,
    pub icon: Option<String>,
    pub layout: SubmenuLayout,
}

impl Clone for SubmenuItem {
    fn clone(&self) -> (r: Self)
        ensures
            r == *self,
    {
        SubmenuItem {
            id: self.id.clone(),
            name: self.name.clone(),
            description: clone_opt(&self.description),
            icon: clone_opt(&self.icon),
            layout: self.layout,
        }
    }
}

impl SubmenuItem {
    /// A submenu shown as a grid of `columns` columns.
    pub fn grid(id: &str, name: &str, columns: usize) -> (s: Self)
        ensures
            s.id@ == id@,
            s.name@ == name@,
            s.description is None,
            s.icon is None,
            s.layout == SubmenuLayout::Grid(columns),
    {
        SubmenuItem {
            id: owned(id),
            name: owned(name),
            description: None,
            icon: None,
            layout: SubmenuLayout::Grid(columns),
        }
    }

    /// A submenu shown as a list.
    pub fn list(id: &str, name: &str) -> (s: Self)
        ensures
            s.id@ == id@,
            s.name@ == name@,
            s.description is None,
            s.icon is None,
            s.layout == SubmenuLayout::List,
    {
        SubmenuItem {
            id: owned(id),
            name: owned(name),
            description: None,
            icon: None,
            layout: SubmenuLayout::List,
        }
    }

    /// The submenu with the given description.
    pub fn with_description(self, description: &str) -> (s: Self)
        ensures
            s.id == self.id,
            s.name == self.name,
            s.description is Some,
            s.description->0@ == description@,
            s.icon == self.icon,
            s.layout == self.layout,
    {
        SubmenuItem { description: Some(owned(description)), ..self }
    }

    /// The submenu with the given icon name.
    pub fn with_icon(self, icon: &str) -> (s: Self)
        ensures
            s.id == self.id,
            s.name == self.name,
            s.description == self.description,
            s.icon is Some,
            s.icon->0@ == icon@,
            s.layout == self.layout,
    {
        SubmenuItem { icon: Some(owned(icon)), ..self }
    }
}

/// A calculator result.
#[derive(Debug)]
pub struct CalculatorItem {
    pub id: String,
    pub expression: String,
    pub display_result: String,
    pub clipboard_result: Option<String>,
    pub is_error: bool,
}

impl Clone for CalculatorItem {
    fn clone(&self) -> (r: Self)
        ensures
            r == *self,
    {
        CalculatorItem {
            id: self.id.clone(),
            expression: self.expression.clone(),
            display_result: self.display_result.clone(),
            clipboard_result: clone_opt(&self.clipboard_result),
            is_error: self.is_error,
        }
    }
}

/// A web search with one provider.
#[derive(Debug)]
pub struct SearchItem {
    pub provider: SearchProvider,
    pub query: String,
}

impl SearchItem {
    /// A search of `query` with `provider`.
    pub fn new(provider: SearchProvider, query: String) -> (s: Self)
        ensures
            s == (SearchItem { provider, query }),
    {
        SearchItem { provider, query }
    }
}

impl Clone for SearchItem {
    fn clone(&self) -> (r: Self)
        ensures
            r == *self,
    {
        SearchItem { provider: self.provider.clone(), query: self.query.clone() }
    }
}

/// A question for the AI.
#[derive(Debug)]
pub struct AiItem {
    pub query: String,
}

impl AiItem {
    /// An AI item asking `query`.
    pub fn new(query: String) -> (a: Self)
        ensures
            a == (AiItem { query }),
    {
        AiItem { query }
    }
}

impl Clone for AiItem {
    fn clone(&self) -> (r: Self)
        ensures
            r == *self,
    {
        AiItem { query: self.query.clone() }
    }
}

/// A theme offered by the theme picker.
#[derive(Debug)]
pub struct ThemeItem {
    pub name: String,
    pub description: String,
}

impl Clone for ThemeItem {
    fn clone(&self) -> (r: Self)
        ensures
            r == *self,
    {
        ThemeItem { name: self.name.clone(), description: self.description.clone() }
    }
}

/// An item of the launcher list.
#[derive(Debug)]
pub enum ListItem {
    Application(ApplicationItem),
    Window(WindowItem),
    Action(ActionItem),
    Submenu(SubmenuItem),
    Calculator(CalculatorItem),
    Search(SearchItem),
    Ai(AiItem),
    Theme(ThemeItem),
}

impl Clone for ListItem {
    fn clone(&self) -> (r: Self)
        ensures
            r == *self,
    {
        match self {
            ListItem::Application(a) => ListItem::Application(a.clone()),
            ListItem::Window(w) => ListItem::Window(w.clone()),
            ListItem::Action(a) => ListItem::Action(a.clone()),
            ListItem::Submenu(s) => ListItem::Submenu(s.clone()),
            ListItem::Calculator(c) => ListItem::Calculator(c.clone()),
            ListItem::Search(s) => ListItem::Search(s.clone()),
            ListItem::Ai(a) => ListItem::Ai(a.clone()),
            ListItem::Theme(t) => ListItem::Theme(t.clone()),
        }
    }
}

/// The module a submenu belongs to, by its id.
pub open spec fn submenu_module(id: Seq<char>) -> ConfigModule {
    if id == "submenu-emojis"@ {
        ConfigModule::Emojis
    } else if id == "submenu-clipboard"@ {
        ConfigModule::Clipboard
    } else {
        ConfigModule::Themes
    }
}

/// The module an item belongs to.
pub open spec fn module_of(item: ListItem) -> ConfigModule {
    match item {
        ListItem::Application(_) => ConfigModule::Applications,
        ListItem::Window(_) => ConfigModule::Windows,
        ListItem::Action(_) => ConfigModule::Actions,
        ListItem::Submenu(s) => submenu_module(s.id@),
        ListItem::Calculator(_) => ConfigModule::Calculator,
        ListItem::Search(_) => ConfigModule::Search,
        ListItem::Ai(_) => ConfigModule::Ai,
        ListItem::Theme(_) => ConfigModule::Themes,
    }
}

/// The display name of an item.
pub open spec fn name_of(item: ListItem) -> Seq<char> {
    match item {
        ListItem::Application(a) => a.name@,
        ListItem::Window(w) => w.title@,
        ListItem::Action(a) => a.name@,
        ListItem::Submenu(s) => s.name@,
        ListItem::Calculator(c) => c.expression@,
        ListItem::Search(s) => s.provider.name@,
        ListItem::Ai(a) => a.query@,
        ListItem::Theme(t) => t.name@,
    }
}

/// The description of an item, if it has one.
pub open spec fn description_of(item: ListItem) -> Option<Seq<char>> {
    match item {
        ListItem::Application(a) => match a.description {
            Some(d) => Some(d@),
            None => None,
        },
        ListItem::Window(w) => Some(w.app_name@),
        ListItem::Action(a) => match a.description {
            Some(d) => Some(d@),
            None => None,
        },
        ListItem::Submenu(s) => match s.description {
            Some(d) => Some(d@),
            None => None,
        },
        ListItem::Calculator(c) => Some(c.display_result@),
        ListItem::Search(s) => Some(s.query@),
        ListItem::Ai(_) => None,
        ListItem::Theme(t) => Some(t.description@),
    }
}

/// Rank of an item's kind among items of one module (lower first).
pub open spec fn priority_of(item: ListItem) -> u8 {
    match item {
        ListItem::Calculator(_) => 0,
        ListItem::Window(_) => 1,
        ListItem::Application(_) => 2,
        ListItem::Submenu(_) => 3,
        ListItem::Action(_) => 4,
        ListItem::Ai(_) => 5,
        ListItem::Search(_) => 6,
        ListItem::Theme(_) => 7,
    }
}

impl ListItem {
    /// The display name.
    pub fn name(&self) -> (n: &str)
        ensures
            n@ == name_of(*self),
    {
        match self {
            ListItem::Application(a) => a.name.as_str(),
            ListItem::Window(w) => w.title.as_str(),
            ListItem::Action(a) => a.name.as_str(),
            ListItem::Submenu(s) => s.name.as_str(),
            ListItem::Calculator(c) => c.expression.as_str(),
            ListItem::Search(s) => s.provider.name.as_str(),
            ListItem::Ai(a) => a.query.as_str(),
            ListItem::Theme(t) => t.name.as_str(),
        }
    }

    /// The description, if any.
    pub fn description(&self) -> (d: Option<&str>)
        ensures
            match d {
                Some(s) => description_of(*self) == Some(s@),
                None => description_of(*self) is None,
            },
    {
        match self {
            ListItem::Application(a) => match &a.description {
                Some(d) => Some(d.as_str()),
                None => None,
            },
            ListItem::Window(w) => Some(w.app_name.as_str()),
            ListItem::Action(a) => match &a.description {
                Some(d) => Some(d.as_str()),
                None => None,
            },
            ListItem::Submenu(s) => match &s.description {
                Some(d) => Some(d.as_str()),
                None => None,
            },
            ListItem::Calculator(c) => Some(c.display_result.as_str()),
            ListItem::Search(s) => Some(s.query.as_str()),
            ListItem::Ai(_) => None,
            ListItem::Theme(t) => Some(t.description.as_str()),
        }
    }

    /// Whether this is a window.
    pub fn is_window(&self) -> (b: bool)
        ensures
            b == (*self is Window),
    {
        matches!(self, ListItem::Window(_))
    }

    /// Whether this is an application.
    pub fn is_application(&self) -> (b: bool)
        ensures
            b == (*self is Application),
    {
        matches!(self, ListItem::Application(_))
    }

    /// Whether this is a submenu.
    pub fn is_submenu(&self) -> (b: bool)
        ensures
            b == (*self is Submenu),
    {
        matches!(self, ListItem::Submenu(_))
    }

    /// Whether this is an action.
    pub fn is_action(&self) -> (b: bool)
        ensures
            b == (*self is Action),
    {
        matches!(self, ListItem::Action(_))
    }

    /// The module this item belongs to.
    pub fn config_module(&self) -> (m: ConfigModule)
        ensures
            m == module_of(*self),
    {
        match self {
            ListItem::Application(_) => ConfigModule::Applications,
            ListItem::Window(_) => ConfigModule::Windows,
            ListItem::Action(_) => ConfigModule::Actions,
            ListItem::Submenu(s) => {
                let id = chars_of(s.id.as_str());
                if chars_eq(&id, &chars_of("submenu-emojis")) {
                    ConfigModule::Emojis
                } else if chars_eq(&id, &chars_of("submenu-clipboard")) {
                    ConfigModule::Clipboard
                } else {
                    ConfigModule::Themes
                }
            },
            ListItem::Calculator(_) => ConfigModule::Calculator,
            ListItem::Search(_) => ConfigModule::Search,
            ListItem::Ai(_) => ConfigModule::Ai,
            ListItem::Theme(_) => ConfigModule::Themes,
        }
    }

    /// Rank of the item's kind among items of one module (lower first).
    pub fn sort_priority(&self) -> (p: u8)
        ensures
            p == priority_of(*self),
    {
        match self {
            ListItem::Calculator(_) => 0,
            ListItem::Window(_) => 1,
            ListItem::Application(_) => 2,
            ListItem::Submenu(_) => 3,
            ListItem::Action(_) => 4,
            ListItem::Ai(_) => 5,
            ListItem::Search(_) => 6,
            ListItem::Theme(_) => 7,
        }
    }
}

} // verus!
