//! The state behind the screens, and what each key does to it.
//!
//! The state is loaded from what was read of the server's directory. A key
//! changes it and gives a [`Command`]: the file to write, or to load the state
//! anew, or to end. Once a file is written, [`App::saved`] takes note of it.

use crate::players::{
    file_entries, is_listed, is_operator, operators, players, read_ops, read_whitelist, ListFile,
    OpEntry, OpView, PlayerView, WhitelistEntry,
};
use crate::processes::{running_pid, server_running_pid, ProcessInfo};
use crate::properties::{get_property, set_property, settings, value_of, with_value, Settings};
use crate::text::{chars_of, decimal, decimal_of, same, string_of, trim, trimmed};
use crate::uuid::{offline_id, offline_uuid};
use crate::worlds::{
    is_ordering, scan_worlds, world_views, worlds_in, FoundDir, WorldEntry, WorldView,
};
use vstd::arithmetic::div_mod::{lemma_fundamental_div_mod, lemma_fundamental_div_mod_converse};
use vstd::prelude::*;
use vstd::string::*;

verus! {

// ---------- Tabs ----------

/// A screen.
#[derive(Debug, Clone, Copy, PartialEq, Eq, Structural)]
pub enum TabId {
    Worlds,
    Whitelist,
    Ops,
    Config,
    Logs,
}

/// The number of screens.
pub const TAB_COUNT: usize = 5;

impl TabId {
    /// The place of a screen in the row of tabs.
    pub open spec fn place(self) -> int {
        match self {
            TabId::Worlds => 0,
            TabId::Whitelist => 1,
            TabId::Ops => 2,
            TabId::Config => 3,
            TabId::Logs => 4,
        }
    }

    /// The place of the screen in the row of tabs.
    pub fn index(&self) -> (r: usize)
        ensures
            r == self.place(),
            r < TAB_COUNT,
    {
        match self {
            TabId::Worlds => 0,
            TabId::Whitelist => 1,
            TabId::Ops => 2,
            TabId::Config => 3,
            TabId::Logs => 4,
        }
    }

    /// The screen at a place in the row of tabs.
    pub fn at(place: usize) -> (r: TabId)
        requires
            place < TAB_COUNT,
        ensures
            r.place() == place,
    {
        match place {
            0 => TabId::Worlds,
            1 => TabId::Whitelist,
            2 => TabId::Ops,
            3 => TabId::Config,
            _ => TabId::Logs,
        }
    }

    /// What a screen is called.
    pub open spec fn title(self) -> Seq<char> {
        match self {
            TabId::Worlds => "Worlds"@,
            TabId::Whitelist => "Whitelist"@,
            TabId::Ops => "Ops"@,
            TabId::Config => "Config"@,
            TabId::Logs => "Logs"@,
        }
    }

    /// What the screen is called.
    pub fn name(&self) -> (r: &'static str)
        ensures
            r@ == self.title(),
    {
        match self {
            TabId::Worlds => "Worlds",
            TabId::Whitelist => "Whitelist",
            TabId::Ops => "Ops",
            TabId::Config => "Config",
            TabId::Logs => "Logs",
        }
    }
}

// ---------- Prompts ----------

/// What a prompt's answer is for.
pub enum PromptAction {
    AddWhitelist,
    AddOp,
    /// A new value for this setting.
    EditConfig(String),
}

/// A [`PromptAction`] as text.
pub enum ActionView {
    AddWhitelist,
    AddOp,
    EditConfig(Seq<char>),
}

impl View for PromptAction {
    type V = ActionView;

    open spec fn view(&self) -> ActionView {
        match self {
            PromptAction::AddWhitelist => ActionView::AddWhitelist,
            PromptAction::AddOp => ActionView::AddOp,
            PromptAction::EditConfig(key) => ActionView::EditConfig(key@),
        }
    }
}

/// A question over the screen, with what was typed so far.
pub struct InputPrompt {
    pub title: String,
    pub label: String,
    pub buffer: String,
    pub action: PromptAction,
}

/// An [`InputPrompt`] as text.
pub struct PromptView {
    pub title: Seq<char>,
    pub label: Seq<char>,
    pub buffer: Seq<char>,
    pub action: ActionView,
}

impl View for InputPrompt {
    type V = PromptView;

    open spec fn view(&self) -> PromptView {
        PromptView {
            title: self.title@,
            label: self.label@,
            buffer: self.buffer@,
            action: self.action@,
        }
    }
}

/// The prompt that is open, if one is.
pub open spec fn prompt_view(prompt: Option<InputPrompt>) -> Option<PromptView> {
    match prompt {
        Some(p) => Some(p@),
        None => None,
    }
}

// ---------- Commands ----------

/// A file of the server that this program writes.
#[derive(Debug, Clone, Copy, PartialEq, Eq, Structural)]
pub enum DataFile {
    Properties,
    Whitelist,
    Ops,
}

/// What follows when a file is written.
#[derive(Debug, Clone, Copy, PartialEq, Eq, Structural)]
pub enum Afterwards {
    Nothing,
    /// The state is loaded anew.
    Reload,
    /// The selection moves off the row that is gone.
    Reselect,
}

/// A file to write, with what the state holds for it.
pub struct Save {
    pub file: DataFile,
    /// What is shown once it is written.
    pub status: String,
    pub afterwards: Afterwards,
}

/// A [`Save`] as text.
pub struct SaveView {
    pub file: DataFile,
    pub status: Seq<char>,
    pub afterwards: Afterwards,
}

impl View for Save {
    type V = SaveView;

    open spec fn view(&self) -> SaveView {
        SaveView { file: self.file, status: self.status@, afterwards: self.afterwards }
    }
}

/// What is to be done after a key.
pub enum Command {
    Nothing,
    /// End.
    Quit,
    /// Load the state anew.
    Reload,
    Save(Save),
}

/// A [`Command`] as text.
pub enum CommandView {
    Nothing,
    Quit,
    Reload,
    Save(SaveView),
}

impl View for Command {
    type V = CommandView;

    open spec fn view(&self) -> CommandView {
        match self {
            Command::Nothing => CommandView::Nothing,
            Command::Quit => CommandView::Quit,
            Command::Reload => CommandView::Reload,
            Command::Save(save) => CommandView::Save(save@),
        }
    }
}

// ---------- Input ----------

/// A key.
#[derive(Debug, Clone, Copy, PartialEq, Eq, Structural)]
pub enum Key {
    Esc,
    Enter,
    Backspace,
    Tab,
    BackTab,
    Up,
    Down,
    Left,
    Right,
    Char(char),
    /// Any other key.
    Other,
}

/// What the terminal gave.
pub enum Input {
    /// Nothing for a while, in which these processes were found running.
    Idle(Vec<ProcessInfo>),
    /// A key went down, or, where it is not `pressed`, was held or let go.
    Key { key: Key, pressed: bool },
    /// Anything else.
    Other,
}

/// What was read of the server's directory and of the machine.
pub struct Snapshot {
    pub found: Vec<FoundDir>,
    pub whitelist: ListFile<WhitelistEntry>,
    pub ops: ListFile<OpEntry>,
    pub processes: Vec<ProcessInfo>,
}

// ---------- The state ----------

/// The state behind the screens.
pub struct App {
    pub server_dir: String,
    pub properties: Vec<(String, String)>,
    pub worlds: Vec<WorldEntry>,
    pub whitelist: Vec<WhitelistEntry>,
    pub ops: Vec<OpEntry>,
    /// The server's process, while it runs.
    pub pid: Option<u32>,
    pub tab: TabId,
    pub worlds_selected: Option<usize>,
    pub whitelist_selected: Option<usize>,
    pub ops_selected: Option<usize>,
    pub config_selected: Option<usize>,
    pub status: String,
    pub prompt: Option<InputPrompt>,
}

/// An [`App`] as text.
#[verifier::ext_equal]
pub struct AppView {
    pub server_dir: Seq<char>,
    pub properties: Settings,
    pub worlds: Seq<WorldView>,
    pub whitelist: Seq<PlayerView>,
    pub ops: Seq<OpView>,
    pub pid: Option<u32>,
    pub tab: TabId,
    pub worlds_selected: Option<usize>,
    pub whitelist_selected: Option<usize>,
    pub ops_selected: Option<usize>,
    pub config_selected: Option<usize>,
    pub status: Seq<char>,
    pub prompt: Option<PromptView>,
}

impl View for App {
    type V = AppView;

    open spec fn view(&self) -> AppView {
        AppView {
            server_dir: self.server_dir@,
            properties: settings(self.properties@),
            worlds: world_views(self.worlds@),
            whitelist: players(self.whitelist@),
            ops: operators(self.ops@),
            pid: self.pid,
            tab: self.tab,
            worlds_selected: self.worlds_selected,
            whitelist_selected: self.whitelist_selected,
            ops_selected: self.ops_selected,
            config_selected: self.config_selected,
            status: self.status@,
            prompt: prompt_view(self.prompt),
        }
    }
}

/// `delta` rows on from `from`, round a list of `len` rows.
pub open spec fn wrapped(from: int, delta: int, len: int) -> int {
    (from + delta) % len
}

/// The row that a selection is at once the list has shrunk to `len` rows.
pub open spec fn reselected(selected: Option<usize>, len: nat) -> Option<usize> {
    match selected {
        Some(row) => if len == 0 {
            None
        } else if row >= len {
            Some((len - 1) as usize)
        } else {
            Some(row)
        },
        None => None,
    }
}

/// A selected row that is in the list.
pub open spec fn chosen(selected: Option<usize>, len: nat) -> bool {
    selected is Some && selected->0 < len
}

/// The first row, where there is one.
pub open spec fn first_row(len: nat) -> Option<usize> {
    if len > 0 {
        Some(0)
    } else {
        None
    }
}

/// An operator's level `dir` steps on: never under 1 or over 4.
pub open spec fn stepped_level(level: u8, dir: int) -> u8 {
    let next = level + dir;
    if next < 1 {
        1
    } else if next > 4 {
        4
    } else {
        next as u8
    }
}

impl AppView {
    /// The world that the server is set to.
    pub open spec fn current_level(self) -> Seq<char> {
        match value_of(self.properties, "level-name"@) {
            Some(level) => level,
            None => "world"@,
        }
    }

    /// The rows of a screen's list.
    pub open spec fn list_len(self, tab: TabId) -> nat {
        match tab {
            TabId::Worlds => self.worlds.len(),
            TabId::Whitelist => self.whitelist.len(),
            TabId::Ops => self.ops.len(),
            TabId::Config => self.properties.len(),
            TabId::Logs => 0,
        }
    }

    /// The row that is selected on a screen; the logs go by that of the worlds.
    pub open spec fn selected(self, tab: TabId) -> Option<usize> {
        match tab {
            TabId::Worlds => self.worlds_selected,
            TabId::Whitelist => self.whitelist_selected,
            TabId::Ops => self.ops_selected,
            TabId::Config => self.config_selected,
            TabId::Logs => self.worlds_selected,
        }
    }

    /// The state with a row selected on a screen.
    pub open spec fn with_selected(self, tab: TabId, row: Option<usize>) -> AppView {
        match tab {
            TabId::Worlds => AppView { worlds_selected: row, ..self },
            TabId::Whitelist => AppView { whitelist_selected: row, ..self },
            TabId::Ops => AppView { ops_selected: row, ..self },
            TabId::Config => AppView { config_selected: row, ..self },
            TabId::Logs => AppView { worlds_selected: row, ..self },
        }
    }

    /// The state with something to say.
    pub open spec fn saying(self, status: Seq<char>) -> AppView {
        AppView { status, ..self }
    }

    /// `next` is the state loaded anew from `snapshot`.
    pub open spec fn reloads_to(self, next: AppView, snapshot: Snapshot) -> bool {
        &&& is_ordering(next.worlds, worlds_in(snapshot.found@, self.current_level()))
        &&& next == AppView {
            worlds: next.worlds,
            whitelist: players(file_entries(snapshot.whitelist)),
            ops: operators(file_entries(snapshot.ops)),
            pid: running_pid(snapshot.processes@),
            ..self
        }
    }

    /// The state `delta` rows on, round the list of the screen that is shown.
    pub open spec fn moved(self, delta: int) -> AppView {
        let len = self.list_len(self.tab);
        if len == 0 {
            self
        } else {
            let from = match self.selected(self.tab) {
                Some(row) => row as int,
                None => 0,
            };
            self.with_selected(self.tab, Some(wrapped(from, delta, len as int) as usize))
        }
    }

    /// `next` is the state `dir` screens on, round the row of tabs.
    pub open spec fn cycles_to(self, next: AppView, dir: int) -> bool {
        &&& next.tab.place() == wrapped(self.tab.place(), dir, TAB_COUNT as int)
        &&& next == AppView { tab: next.tab, ..self }
    }

    /// Sets the server to the world that is selected.
    pub open spec fn switching_world(self) -> (AppView, CommandView) {
        if self.pid is Some {
            (self.saying("✗ Stop the server first (it's running)."@), CommandView::Nothing)
        } else if !chosen(self.worlds_selected, self.worlds.len()) {
            (self, CommandView::Nothing)
        } else {
            let world = self.worlds[self.worlds_selected->0 as int];
            if world.is_current {
                (self.saying("→ Already current world."@), CommandView::Nothing)
            } else {
                (
                    AppView {
                        properties: with_value(self.properties, "level-name"@, world.name),
                        ..self
                    },
                    CommandView::Save(
                        SaveView {
                            file: DataFile::Properties,
                            status: "✓ Switched to '"@ + world.name
                                + "'. Restart the server to load it."@,
                            afterwards: Afterwards::Reload,
                        },
                    ),
                )
            }
        }
    }

    /// Puts a player on the whitelist.
    pub open spec fn whitelisting(self, typed: Seq<char>) -> (AppView, CommandView) {
        let name = trimmed(typed);
        if name.len() == 0 {
            (self, CommandView::Nothing)
        } else if is_listed(self.whitelist, name) {
            (self.saying("→ '"@ + name + "' already whitelisted."@), CommandView::Nothing)
        } else {
            (
                AppView {
                    whitelist: self.whitelist.push(PlayerView { uuid: offline_id(name), name }),
                    ..self
                },
                CommandView::Save(
                    SaveView {
                        file: DataFile::Whitelist,
                        status: "✓ Whitelisted "@ + name + "."@,
                        afterwards: Afterwards::Reload,
                    },
                ),
            )
        }
    }

    /// Takes the selected player off the whitelist.
    pub open spec fn unlisting(self) -> (AppView, CommandView) {
        if !chosen(self.whitelist_selected, self.whitelist.len()) {
            (self, CommandView::Nothing)
        } else {
            let row = self.whitelist_selected->0 as int;
            (
                AppView { whitelist: self.whitelist.remove(row), ..self },
                CommandView::Save(
                    SaveView {
                        file: DataFile::Whitelist,
                        status: "✓ Removed "@ + self.whitelist[row].name + " from whitelist."@,
                        afterwards: Afterwards::Reselect,
                    },
                ),
            )
        }
    }

    /// Makes a player an operator.
    pub open spec fn opping(self, typed: Seq<char>) -> (AppView, CommandView) {
        let name = trimmed(typed);
        if name.len() == 0 {
            (self, CommandView::Nothing)
        } else if is_operator(self.ops, name) {
            (self.saying("→ '"@ + name + "' already op."@), CommandView::Nothing)
        } else {
            (
                AppView {
                    ops: self.ops.push(
                        OpView {
                            uuid: offline_id(name),
                            name,
                            level: 4,
                            bypasses_player_limit: false,
                        },
                    ),
                    ..self
                },
                CommandView::Save(
                    SaveView {
                        file: DataFile::Ops,
                        status: "✓ Op'd "@ + name + " (level 4)."@,
                        afterwards: Afterwards::Reload,
                    },
                ),
            )
        }
    }

    /// Makes the selected operator a player like any other.
    pub open spec fn deopping(self) -> (AppView, CommandView) {
        if !chosen(self.ops_selected, self.ops.len()) {
            (self, CommandView::Nothing)
        } else {
            let row = self.ops_selected->0 as int;
            (
                AppView { ops: self.ops.remove(row), ..self },
                CommandView::Save(
                    SaveView {
                        file: DataFile::Ops,
                        status: "✓ De-op'd "@ + self.ops[row].name + "."@,
                        afterwards: Afterwards::Reselect,
                    },
                ),
            )
        }
    }

    /// Moves the selected operator's level.
    pub open spec fn leveling(self, dir: int) -> (AppView, CommandView) {
        if !chosen(self.ops_selected, self.ops.len()) {
            (self, CommandView::Nothing)
        } else {
            let row = self.ops_selected->0 as int;
            let op = self.ops[row];
            let level = stepped_level(op.level, dir);
            (
                AppView { ops: self.ops.update(row, OpView { level, ..op }), ..self },
                CommandView::Save(
                    SaveView {
                        file: DataFile::Ops,
                        status: "✓ "@ + op.name + " → level "@ + decimal(level as nat) + "."@,
                        afterwards: Afterwards::Nothing,
                    },
                ),
            )
        }
    }

    /// Gives a setting a value.
    pub open spec fn setting(self, key: Seq<char>, value: Seq<char>) -> (AppView, CommandView) {
        (
            AppView { properties: with_value(self.properties, key, value), ..self },
            CommandView::Save(
                SaveView {
                    file: DataFile::Properties,
                    status: "✓ "@ + key + " = "@ + value,
                    afterwards: Afterwards::Nothing,
                },
            ),
        )
    }

    /// The state once a file is written.
    pub open spec fn after_save(self, save: SaveView) -> AppView {
        let told = self.saying(save.status);
        if save.afterwards == Afterwards::Reselect {
            match save.file {
                DataFile::Properties => told,
                DataFile::Whitelist => AppView {
                    whitelist_selected: reselected(self.whitelist_selected, self.whitelist.len()),
                    ..told
                },
                DataFile::Ops => AppView {
                    ops_selected: reselected(self.ops_selected, self.ops.len()),
                    ..told
                },
            }
        } else {
            told
        }
    }

    /// The state with a prompt open.
    pub open spec fn asking(
        self,
        title: Seq<char>,
        label: Seq<char>,
        buffer: Seq<char>,
        action: ActionView,
    ) -> AppView {
        AppView { prompt: Some(PromptView { title, label, buffer, action }), ..self }
    }

    /// What a key does while a prompt is open.
    pub open spec fn answered(self, prompt: PromptView, key: Key) -> (AppView, CommandView) {
        let closed = AppView { prompt: None, ..self };
        match key {
            Key::Esc => (closed.saying("Cancelled."@), CommandView::Nothing),
            Key::Enter => match prompt.action {
                ActionView::AddWhitelist => closed.whitelisting(prompt.buffer),
                ActionView::AddOp => closed.opping(prompt.buffer),
                ActionView::EditConfig(setting) => closed.setting(setting, prompt.buffer),
            },
            Key::Backspace => (
                AppView {
                    prompt: Some(
                        PromptView {
                            buffer: if prompt.buffer.len() == 0 {
                                prompt.buffer
                            } else {
                                prompt.buffer.drop_last()
                            },
                            ..prompt
                        },
                    ),
                    ..self
                },
                CommandView::Nothing,
            ),
            Key::Char(c) => (
                AppView {
                    prompt: Some(PromptView { buffer: prompt.buffer.push(c), ..prompt }),
                    ..self
                },
                CommandView::Nothing,
            ),
            _ => (self, CommandView::Nothing),
        }
    }

    /// What Enter does where no prompt is open.
    pub open spec fn entered(self) -> (AppView, CommandView) {
        match self.tab {
            TabId::Worlds => self.switching_world(),
            TabId::Config => if chosen(self.config_selected, self.properties.len()) {
                let (key, value) = self.properties[self.config_selected->0 as int];
                (
                    self.asking("Edit "@ + key, "value"@, value, ActionView::EditConfig(key)),
                    CommandView::Nothing,
                )
            } else {
                (self, CommandView::Nothing)
            },
            _ => (self, CommandView::Nothing),
        }
    }

    /// What `a` does where no prompt is open.
    pub open spec fn adding(self) -> AppView {
        match self.tab {
            TabId::Whitelist => self.asking(
                "Add to whitelist"@,
                "player name"@,
                ""@,
                ActionView::AddWhitelist,
            ),
            TabId::Ops => self.asking("Op a player"@, "player name"@, ""@, ActionView::AddOp),
            _ => self,
        }
    }

    /// What `d` does where no prompt is open.
    pub open spec fn removing(self) -> (AppView, CommandView) {
        match self.tab {
            TabId::Whitelist => self.unlisting(),
            TabId::Ops => self.deopping(),
            _ => (self, CommandView::Nothing),
        }
    }

    /// The keys that lead to a screen.
    pub open spec fn tab_key(key: Key) -> Option<TabId> {
        match key {
            Key::Char('1') => Some(TabId::Worlds),
            Key::Char('2') => Some(TabId::Whitelist),
            Key::Char('3') => Some(TabId::Ops),
            Key::Char('4') => Some(TabId::Config),
            Key::Char('5') => Some(TabId::Logs),
            _ => None,
        }
    }

    /// What a key leads to where no prompt is open.
    pub open spec fn pressed_to(self, key: Key, next: AppView, command: CommandView) -> bool {
        match key {
            Key::Esc | Key::Char('q') => next == self && command == CommandView::Quit,
            Key::Tab => self.cycles_to(next, 1) && command == CommandView::Nothing,
            Key::BackTab => self.cycles_to(next, -1) && command == CommandView::Nothing,
            Key::Char('r') => next == self.saying("Refreshed."@) && command == CommandView::Reload,
            Key::Up => next == self.moved(-1) && command == CommandView::Nothing,
            Key::Down => next == self.moved(1) && command == CommandView::Nothing,
            Key::Enter => (next, command) == self.entered(),
            Key::Char('a') => next == self.adding() && command == CommandView::Nothing,
            Key::Char('d') => (next, command) == self.removing(),
            Key::Left => if self.tab == TabId::Ops {
                (next, command) == self.leveling(-1)
            } else {
                next == self && command == CommandView::Nothing
            },
            Key::Right => if self.tab == TabId::Ops {
                (next, command) == self.leveling(1)
            } else {
                next == self && command == CommandView::Nothing
            },
            _ => command == CommandView::Nothing && next == match Self::tab_key(key) {
                Some(tab) => AppView { tab, ..self },
                None => self,
            },
        }
    }

    /// What the terminal's input leads to.
    pub open spec fn steps_to(self, input: Input, next: AppView, command: CommandView) -> bool {
        match input {
            Input::Idle(processes) => {
                next == AppView { pid: running_pid(processes@), ..self } && command
                    == CommandView::Nothing
            },
            Input::Key { key, pressed } => if !pressed {
                next == self && command == CommandView::Nothing
            } else {
                match self.prompt {
                    Some(prompt) => (next, command) == self.answered(prompt, key),
                    None => self.pressed_to(key, next, command),
                }
            },
            Input::Other => next == self && command == CommandView::Nothing,
        }
    }
}

/// The row `delta` rows on from `from`, round a list of `len` rows.
fn wrap(from: usize, delta: isize, len: usize) -> (r: usize)
    requires
        len > 0,
    ensures
        r == wrapped(from as int, delta as int, len as int),
        r < len,
{
    let sum: i128 = from as i128 + delta as i128;
    if sum >= 0 {
        (sum as u128 % len as u128) as usize
    } else {
        let back: u128 = (-sum) as u128;
        let over: u128 = back % len as u128;
        proof {
            let turns = back as int / len as int;
            lemma_fundamental_div_mod(back as int, len as int);
            assert(len * (-turns) == -(len * turns)) by (nonlinear_arith);
            assert((-turns) * len == -(len * turns)) by (nonlinear_arith);
            assert((-turns - 1) * len == -(len * turns) - len) by (nonlinear_arith);
            if over == 0 {
                lemma_fundamental_div_mod_converse(sum as int, len as int, -turns, 0);
            } else {
                lemma_fundamental_div_mod_converse(sum as int, len as int, -turns - 1, len - over);
            }
        }
        if over == 0 {
            0
        } else {
            (len as u128 - over) as usize
        }
    }
}

/// Three pieces of text in a row.
fn phrase(a: &str, b: &str, c: &str) -> (r: String)
    ensures
        r@ == a@ + b@ + c@,
{
    a.to_owned().concat(b).concat(c)
}

impl App {
    /// The state of a server whose settings are `properties`, with the first
    /// row of each list selected.
    pub fn new(
        server_dir: &str,
        properties: Vec<(String, String)>,
        snapshot: Snapshot,
    ) -> (r: App)
        ensures
            r.server_dir@ == server_dir@,
            r.properties == properties,
            is_ordering(r@.worlds, worlds_in(snapshot.found@, r@.current_level())),
            r@.whitelist == players(file_entries(snapshot.whitelist)),
            r@.ops == operators(file_entries(snapshot.ops)),
            r.pid == running_pid(snapshot.processes@),
            r.tab == TabId::Worlds,
            forall|tab: TabId|
                #![trigger r@.selected(tab)]
                tab != TabId::Logs ==> r@.selected(tab) == first_row(r@.list_len(tab)),
            r.status@ == "Ready."@,
            r.prompt is None,
    {
        let mut app: App = App {
            server_dir: server_dir.to_owned(),
            properties,
            worlds: Vec::new(),
            whitelist: Vec::new(),
            ops: Vec::new(),
            pid: None,
            tab: TabId::Worlds,
            worlds_selected: None,
            whitelist_selected: None,
            ops_selected: None,
            config_selected: None,
            status: "Ready.".to_owned(),
            prompt: None,
        };
        app.refresh_all(snapshot);
        if app.worlds.len() > 0 {
            app.worlds_selected = Some(0);
        }
        if app.whitelist.len() > 0 {
            app.whitelist_selected = Some(0);
        }
        if app.ops.len() > 0 {
            app.ops_selected = Some(0);
        }
        if app.properties.len() > 0 {
            app.config_selected = Some(0);
        }
        app
    }

    /// The world that the server is set to.
    pub fn current_level(&self) -> (r: &str)
        ensures
            r@ == self@.current_level(),
    {
        match get_property(self.properties.as_slice(), "level-name") {
            Some(level) => level,
            None => "world",
        }
    }

    /// Loads the state anew.
    pub fn refresh_all(&mut self, snapshot: Snapshot)
        ensures
            old(self)@.reloads_to(final(self)@, snapshot),
            final(self).properties == old(self).properties,
            final(self).server_dir == old(self).server_dir,
    {
        let worlds: Vec<WorldEntry> = scan_worlds(
            snapshot.found.as_slice(),
            self.current_level(),
        );
        self.worlds = worlds;
        self.whitelist = match read_whitelist(snapshot.whitelist) {
            Ok(list) => list,
            Err(_) => Vec::new(),
        };
        self.ops = match read_ops(snapshot.ops) {
            Ok(list) => list,
            Err(_) => Vec::new(),
        };
        self.pid = server_running_pid(snapshot.processes.as_slice());
        assert(self.whitelist@ =~= file_entries(snapshot.whitelist));
        assert(self.ops@ =~= file_entries(snapshot.ops));
    }

    /// The rows of a screen's list.
    pub fn list_len_for(&self, tab: TabId) -> (r: usize)
        ensures
            r == self@.list_len(tab),
    {
        match tab {
            TabId::Worlds => self.worlds.len(),
            TabId::Whitelist => self.whitelist.len(),
            TabId::Ops => self.ops.len(),
            TabId::Config => self.properties.len(),
            TabId::Logs => 0,
        }
    }

    /// The row that is selected on a screen; the logs go by that of the worlds.
    pub fn list_state_for(&self, tab: TabId) -> (r: Option<usize>)
        ensures
            r == self@.selected(tab),
    {
        match tab {
            TabId::Worlds => self.worlds_selected,
            TabId::Whitelist => self.whitelist_selected,
            TabId::Ops => self.ops_selected,
            TabId::Config => self.config_selected,
            TabId::Logs => self.worlds_selected,
        }
    }

    /// Selects a row on a screen, or none.
    pub fn select(&mut self, tab: TabId, row: Option<usize>)
        ensures
            final(self)@ == old(self)@.with_selected(tab, row),
    {
        match tab {
            TabId::Worlds => {
                self.worlds_selected = row;
            },
            TabId::Whitelist => {
                self.whitelist_selected = row;
            },
            TabId::Ops => {
                self.ops_selected = row;
            },
            TabId::Config => {
                self.config_selected = row;
            },
            TabId::Logs => {
                self.worlds_selected = row;
            },
        }
    }

    /// Moves the selection `delta` rows on, round the list.
    pub fn move_selection(&mut self, delta: isize)
        ensures
            final(self)@ == old(self)@.moved(delta as int),
    {
        let len: usize = self.list_len_for(self.tab);
        if len == 0 {
            return ;
        }
        let from: usize = match self.list_state_for(self.tab) {
            Some(row) => row,
            None => 0,
        };
        let to: usize = wrap(from, delta, len);
        let tab: TabId = self.tab;
        self.select(tab, Some(to));
    }

    /// Shows a screen.
    pub fn switch_tab(&mut self, tab: TabId)
        ensures
            final(self)@ == (AppView { tab, ..old(self)@ }),
    {
        self.tab = tab;
    }

    /// Shows the screen `dir` places on, round the row of tabs.
    pub fn cycle_tab(&mut self, dir: isize)
        ensures
            old(self)@.cycles_to(final(self)@, dir as int),
    {
        self.tab = TabId::at(wrap(self.tab.index(), dir, TAB_COUNT));
    }

    /// Sets the server to the world that is selected, unless it runs.
    pub fn switch_world(&mut self) -> (r: Command)
        ensures
            (final(self)@, r@) == old(self)@.switching_world(),
    {
        if self.pid.is_some() {
            self.status = "✗ Stop the server first (it's running).".to_owned();
            return Command::Nothing;
        }
        let row: usize = match self.worlds_selected {
            Some(row) => row,
            None => {
                return Command::Nothing;
            },
        };
        if row >= self.worlds.len() {
            return Command::Nothing;
        }
        if self.worlds[row].is_current {
            self.status = "→ Already current world.".to_owned();
            return Command::Nothing;
        }
        let name: String = self.worlds[row].name.clone();
        set_property(&mut self.properties, "level-name", name.as_str());
        Command::Save(
            Save {
                file: DataFile::Properties,
                status: phrase(
                    "✓ Switched to '",
                    name.as_str(),
                    "'. Restart the server to load it.",
                ),
                afterwards: Afterwards::Reload,
            },
        )
    }

    /// Puts a player on the whitelist.
    pub fn add_whitelist(&mut self, name: &str) -> (r: Command)
        ensures
            (final(self)@, r@) == old(self)@.whitelisting(name@),
    {
        let who: String = trim(name);
        if who.as_str().unicode_len() == 0 {
            return Command::Nothing;
        }
        let mut i: usize = 0;
        while i < self.whitelist.len()
            invariant
                i <= self.whitelist@.len(),
                *self == *old(self),
                who@ == trimmed(name@),
                who@.len() > 0,
                forall|j: int| 0 <= j < i ==> (#[trigger] self@.whitelist[j]).name != who@,
            decreases self.whitelist@.len() - i,
        {
            if same(self.whitelist[i].name.as_str(), who.as_str()) {
                assert(self@.whitelist[i as int].name == who@);
                self.status = phrase("→ '", who.as_str(), "' already whitelisted.");
                return Command::Nothing;
            }
            i += 1;
        }
        let status: String = phrase("✓ Whitelisted ", who.as_str(), ".");
        let uuid: String = offline_uuid(who.as_str());
        self.whitelist.push(WhitelistEntry { uuid, name: who });
        assert(self@.whitelist =~= old(self)@.whitelist.push(self.whitelist@.last()@));
        Command::Save(Save { file: DataFile::Whitelist, status, afterwards: Afterwards::Reload })
    }

    /// Takes the selected player off the whitelist.
    pub fn remove_whitelist(&mut self) -> (r: Command)
        ensures
            (final(self)@, r@) == old(self)@.unlisting(),
    {
        let row: usize = match self.whitelist_selected {
            Some(row) => row,
            None => {
                return Command::Nothing;
            },
        };
        if row >= self.whitelist.len() {
            return Command::Nothing;
        }
        let removed: WhitelistEntry = self.whitelist.remove(row);
        assert(self@.whitelist =~= old(self)@.whitelist.remove(row as int));
        Command::Save(
            Save {
                file: DataFile::Whitelist,
                status: phrase("✓ Removed ", removed.name.as_str(), " from whitelist."),
                afterwards: Afterwards::Reselect,
            },
        )
    }

    /// Makes a player an operator.
    pub fn add_op(&mut self, name: &str) -> (r: Command)
        ensures
            (final(self)@, r@) == old(self)@.opping(name@),
    {
        let who: String = trim(name);
        if who.as_str().unicode_len() == 0 {
            return Command::Nothing;
        }
        let mut i: usize = 0;
        while i < self.ops.len()
            invariant
                i <= self.ops@.len(),
                *self == *old(self),
                who@ == trimmed(name@),
                who@.len() > 0,
                forall|j: int| 0 <= j < i ==> (#[trigger] self@.ops[j]).name != who@,
            decreases self.ops@.len() - i,
        {
            if same(self.ops[i].name.as_str(), who.as_str()) {
                assert(self@.ops[i as int].name == who@);
                self.status = phrase("→ '", who.as_str(), "' already op.");
                return Command::Nothing;
            }
            i += 1;
        }
        let status: String = phrase("✓ Op'd ", who.as_str(), " (level 4).");
        let uuid: String = offline_uuid(who.as_str());
        self.ops.push(OpEntry { uuid, name: who, level: 4, bypasses_player_limit: false });
        assert(self@.ops =~= old(self)@.ops.push(self.ops@.last()@));
        Command::Save(Save { file: DataFile::Ops, status, afterwards: Afterwards::Reload })
    }

    /// Makes the selected operator a player like any other.
    pub fn remove_op(&mut self) -> (r: Command)
        ensures
            (final(self)@, r@) == old(self)@.deopping(),
    {
        let row: usize = match self.ops_selected {
            Some(row) => row,
            None => {
                return Command::Nothing;
            },
        };
        if row >= self.ops.len() {
            return Command::Nothing;
        }
        let removed: OpEntry = self.ops.remove(row);
        assert(self@.ops =~= old(self)@.ops.remove(row as int));
        Command::Save(
            Save {
                file: DataFile::Ops,
                status: phrase("✓ De-op'd ", removed.name.as_str(), "."),
                afterwards: Afterwards::Reselect,
            },
        )
    }

    /// Moves the selected operator's level `dir` steps on.
    pub fn cycle_op_level(&mut self, dir: i8) -> (r: Command)
        ensures
            (final(self)@, r@) == old(self)@.leveling(dir as int),
    {
        let row: usize = match self.ops_selected {
            Some(row) => row,
            None => {
                return Command::Nothing;
            },
        };
        if row >= self.ops.len() {
            return Command::Nothing;
        }
        let next: i16 = self.ops[row].level as i16 + dir as i16;
        let level: u8 = if next < 1 {
            1
        } else if next > 4 {
            4
        } else {
            next as u8
        };
        self.ops[row].level = level;
        assert(self@.ops =~= old(self)@.ops.update(
            row as int,
            OpView { level, ..old(self)@.ops[row as int] },
        ));
        let status: String = phrase("✓ ", self.ops[row].name.as_str(), " → level ").concat(
            decimal_of(level as u64).as_str(),
        ).concat(".");
        Command::Save(Save { file: DataFile::Ops, status, afterwards: Afterwards::Nothing })
    }

    /// Gives a setting a value.
    pub fn save_config_value(&mut self, key: &str, value: &str) -> (r: Command)
        ensures
            (final(self)@, r@) == old(self)@.setting(key@, value@),
    {
        set_property(&mut self.properties, key, value);
        Command::Save(
            Save {
                file: DataFile::Properties,
                status: phrase("✓ ", key, " = ").concat(value),
                afterwards: Afterwards::Nothing,
            },
        )
    }

    /// Takes note that a file was written, and gives whether the state is to be
    /// loaded anew.
    pub fn saved(&mut self, save: Save) -> (r: bool)
        ensures
            final(self)@ == old(self)@.after_save(save@),
            r == (save.afterwards == Afterwards::Reload),
    {
        self.status = save.status;
        if save.afterwards == Afterwards::Reselect {
            match save.file {
                DataFile::Properties => {},
                DataFile::Whitelist => {
                    self.whitelist_selected =
                    reselect(self.whitelist_selected, self.whitelist.len());
                },
                DataFile::Ops => {
                    self.ops_selected = reselect(self.ops_selected, self.ops.len());
                },
            }
        }
        save.afterwards == Afterwards::Reload
    }
}

impl App {
    /// Does what a key asks for while a prompt is open.
    fn answer(&mut self, prompt: InputPrompt, key: Key) -> (r: Command)
        ensures
            (final(self)@, r@) == (AppView { prompt: Some(prompt@), ..old(self)@ }).answered(
                prompt@,
                key,
            ),
    {
        self.prompt = None;
        match key {
            Key::Esc => {
                self.status = "Cancelled.".to_owned();
                Command::Nothing
            },
            Key::Enter => match &prompt.action {
                PromptAction::AddWhitelist => self.add_whitelist(prompt.buffer.as_str()),
                PromptAction::AddOp => self.add_op(prompt.buffer.as_str()),
                PromptAction::EditConfig(setting) => self.save_config_value(
                    setting.as_str(),
                    prompt.buffer.as_str(),
                ),
            },
            Key::Backspace => {
                let typed: Vec<char> = chars_of(prompt.buffer.as_str());
                let buffer: String = if typed.len() == 0 {
                    "".to_owned()
                } else {
                    string_of(typed.as_slice(), 0, typed.len() - 1)
                };
                proof {
                    reveal_strlit("");
                    if typed@.len() > 0 {
                        assert(buffer@ =~= prompt.buffer@.drop_last());
                    } else {
                        assert(buffer@ =~= prompt.buffer@);
                    }
                }
                self.prompt = Some(
                    InputPrompt {
                        title: prompt.title,
                        label: prompt.label,
                        buffer,
                        action: prompt.action,
                    },
                );
                Command::Nothing
            },
            Key::Char(c) => {
                let mut buffer: String = prompt.buffer;
                buffer.push(c);
                self.prompt = Some(
                    InputPrompt {
                        title: prompt.title,
                        label: prompt.label,
                        buffer,
                        action: prompt.action,
                    },
                );
                Command::Nothing
            },
            _ => {
                self.prompt = Some(prompt);
                Command::Nothing
            },
        }
    }

    /// Does what Enter asks for where no prompt is open.
    fn enter(&mut self) -> (r: Command)
        ensures
            (final(self)@, r@) == old(self)@.entered(),
    {
        match self.tab {
            TabId::Worlds => self.switch_world(),
            TabId::Config => {
                match self.config_selected {
                    Some(row) => {
                        if row < self.properties.len() {
                            let key: String = self.properties[row].0.clone();
                            let value: String = self.properties[row].1.clone();
                            self.prompt = Some(
                                InputPrompt {
                                    title: "Edit ".to_owned().concat(key.as_str()),
                                    label: "value".to_owned(),
                                    buffer: value,
                                    action: PromptAction::EditConfig(key),
                                },
                            );
                        }
                    },
                    None => {},
                }
                Command::Nothing
            },
            _ => Command::Nothing,
        }
    }

    /// Opens the prompt that `a` asks for.
    fn add(&mut self)
        ensures
            final(self)@ == old(self)@.adding(),
    {
        match self.tab {
            TabId::Whitelist => {
                self.prompt = Some(
                    InputPrompt {
                        title: "Add to whitelist".to_owned(),
                        label: "player name".to_owned(),
                        buffer: "".to_owned(),
                        action: PromptAction::AddWhitelist,
                    },
                );
            },
            TabId::Ops => {
                self.prompt = Some(
                    InputPrompt {
                        title: "Op a player".to_owned(),
                        label: "player name".to_owned(),
                        buffer: "".to_owned(),
                        action: PromptAction::AddOp,
                    },
                );
            },
            _ => {},
        }
    }

    /// Removes what `d` asks for.
    fn remove(&mut self) -> (r: Command)
        ensures
            (final(self)@, r@) == old(self)@.removing(),
    {
        match self.tab {
            TabId::Whitelist => self.remove_whitelist(),
            TabId::Ops => self.remove_op(),
            _ => Command::Nothing,
        }
    }

    /// Does what a key asks for where no prompt is open.
    fn press(&mut self, key: Key) -> (r: Command)
        ensures
            old(self)@.pressed_to(key, final(self)@, r@),
    {
        match key {
            Key::Esc | Key::Char('q') => {
                return Command::Quit;
            },
            Key::Char('1') => self.switch_tab(TabId::Worlds),
            Key::Char('2') => self.switch_tab(TabId::Whitelist),
            Key::Char('3') => self.switch_tab(TabId::Ops),
            Key::Char('4') => self.switch_tab(TabId::Config),
            Key::Char('5') => self.switch_tab(TabId::Logs),
            Key::Tab => self.cycle_tab(1),
            Key::BackTab => self.cycle_tab(-1),
            Key::Char('r') => {
                self.status = "Refreshed.".to_owned();
                return Command::Reload;
            },
            Key::Up => self.move_selection(-1),
            Key::Down => self.move_selection(1),
            Key::Enter => {
                return self.enter();
            },
            Key::Char('a') => self.add(),
            Key::Char('d') => {
                return self.remove();
            },
            Key::Left => {
                if self.tab == TabId::Ops {
                    return self.cycle_op_level(-1);
                }
            },
            Key::Right => {
                if self.tab == TabId::Ops {
                    return self.cycle_op_level(1);
                }
            },
            _ => {},
        }
        Command::Nothing
    }

    /// Does what the terminal's input asks for, and gives what is to be done
    /// next.
    pub fn step(&mut self, input: &Input) -> (r: Command)
        ensures
            old(self)@.steps_to(*input, final(self)@, r@),
    {
        match input {
            Input::Idle(processes) => {
                self.pid = server_running_pid(processes.as_slice());
                Command::Nothing
            },
            Input::Key { key, pressed } => {
                if !*pressed {
                    return Command::Nothing;
                }
                match self.prompt.take() {
                    Some(prompt) => self.answer(prompt, *key),
                    None => self.press(*key),
                }
            },
            Input::Other => Command::Nothing,
        }
    }
}

/// Moves a selection off the rows that a list of `len` rows does not have.
fn reselect(selected: Option<usize>, len: usize) -> (r: Option<usize>)
    ensures
        r == reselected(selected, len as nat),
{
    match selected {
        Some(row) => if len == 0 {
            None
        } else if row >= len {
            Some(len - 1)
        } else {
            Some(row)
        },
        None => None,
    }
}

} // verus!
