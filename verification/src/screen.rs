//! What the screens show: text in tones, which the terminal gives colours.

use crate::players::{OpEntry, OpView, PlayerView, WhitelistEntry};
use crate::sizes::{fmt_bytes, list_size};
use crate::state::{App, AppView, InputPrompt, PromptView, TabId, TAB_COUNT};
use crate::text::{
    decimal, decimal_of, join, joined, lines, lines_of, pad_left, pad_right, padded_left,
    padded_right, same, views,
};
use crate::worlds::{WorldEntry, WorldView};
use vstd::prelude::*;
use vstd::string::*;

verus! {

/// How a piece of text looks.
#[derive(Debug, Clone, Copy, PartialEq, Eq, Structural)]
pub enum Tone {
    Raw,
    Dim,
    White,
    DarkGray,
    Green,
    Red,
    Cyan,
    Yellow,
    /// Yellow, and blinking.
    Cursor,
}

/// A piece of text in a tone.
#[derive(Debug)]
pub struct Span {
    pub text: String,
    pub tone: Tone,
}

/// A [`Span`] as text.
pub struct SpanView {
    pub text: Seq<char>,
    pub tone: Tone,
}

impl View for Span {
    type V = SpanView;

    open spec fn view(&self) -> SpanView {
        SpanView { text: self.text@, tone: self.tone }
    }
}

/// A row as text.
pub open spec fn row_view(row: Seq<Span>) -> Seq<SpanView> {
    row.map_values(|s: Span| s@)
}

/// Rows as text.
pub open spec fn rows_view(rows: Seq<Vec<Span>>) -> Seq<Seq<SpanView>> {
    rows.map_values(|r: Vec<Span>| row_view(r@))
}

/// A piece of text in a tone.
pub open spec fn piece(text: Seq<char>, tone: Tone) -> SpanView {
    SpanView { text, tone }
}

fn span(text: String, tone: Tone) -> (r: Span)
    ensures
        r@ == piece(text@, tone),
{
    Span { text, tone }
}

/// A list on the screen.
pub struct ListScreen {
    pub title: &'static str,
    pub rows: Vec<Vec<Span>>,
}

// ---------- The frame ----------

/// What the status bar says.
pub open spec fn status_bar(app: AppView) -> Seq<SpanView> {
    seq![
        piece("server: "@, Tone::Dim),
        match app.pid {
            Some(pid) => piece(
                "● running (pid "@ + decimal(pid as nat) + ")"@,
                Tone::Green,
            ),
            None => piece("○ stopped"@, Tone::DarkGray),
        },
        piece("    "@, Tone::Raw),
        piece("level: "@, Tone::Dim),
        piece(app.current_level(), Tone::Cyan),
        piece("    "@, Tone::Raw),
        piece("dir: "@, Tone::Dim),
        piece(app.server_dir, Tone::Raw),
    ]
}

/// The status bar: whether the server runs, the world it is set to, and its
/// directory.
pub fn draw_status_bar(app: &App) -> (r: Vec<Span>)
    ensures
        row_view(r@) == status_bar(app@),
{
    let mut row: Vec<Span> = Vec::new();
    row.push(span("server: ".to_owned(), Tone::Dim));
    match app.pid {
        Some(pid) => {
            let said: String = "● running (pid ".to_owned().concat(
                decimal_of(pid as u64).as_str(),
            ).concat(")");
            row.push(span(said, Tone::Green));
        },
        None => {
            row.push(span("○ stopped".to_owned(), Tone::DarkGray));
        },
    }
    row.push(span("    ".to_owned(), Tone::Raw));
    row.push(span("level: ".to_owned(), Tone::Dim));
    row.push(span(app.current_level().to_owned(), Tone::Cyan));
    row.push(span("    ".to_owned(), Tone::Raw));
    row.push(span("dir: ".to_owned(), Tone::Dim));
    row.push(span(app.server_dir.clone(), Tone::Raw));
    assert(row_view(row@) =~= status_bar(app@));
    row
}

/// A tab's title: its number, from 1, and its name.
pub open spec fn tab_title(tab: TabId) -> Seq<char> {
    " "@ + decimal((tab.place() + 1) as nat) + " "@ + tab.title() + " "@
}

/// The titles of the tabs in their order, and which of them is shown.
pub fn draw_tabs(app: &App) -> (r: (Vec<String>, usize))
    ensures
        r.0@.len() == TAB_COUNT,
        forall|tab: TabId| (#[trigger] r.0@[tab.place()])@ == tab_title(tab),
        r.1 == app.tab.place(),
{
    let mut titles: Vec<String> = Vec::new();
    let mut i: usize = 0;
    while i < TAB_COUNT
        invariant
            i <= TAB_COUNT,
            titles@.len() == i,
            forall|tab: TabId|
                tab.place() < i ==> (#[trigger] titles@[tab.place()])@ == tab_title(tab),
        decreases TAB_COUNT - i,
    {
        let tab: TabId = TabId::at(i);
        let title: String = " ".to_owned().concat(decimal_of(i as u64 + 1).as_str()).concat(
            " ",
        ).concat(tab.name()).concat(" ");
        assert(title@ =~= tab_title(tab));
        assert(forall|other: TabId| other.place() == i ==> other == tab);
        titles.push(title);
        i += 1;
    }
    (titles, app.tab.index())
}

/// The keys that a screen knows.
pub open spec fn hint(tab: TabId) -> Seq<char> {
    match tab {
        TabId::Worlds => "↑/↓ select   Enter switch   r refresh   Tab/1-5 tabs   q quit"@,
        TabId::Whitelist =>
            "↑/↓ select   a add   d remove   r refresh   Tab/1-5 tabs   q quit"@,
        TabId::Ops =>
            "↑/↓ select   a add   d remove   ←/→ level   r refresh   Tab/1-5 tabs   q quit"@,
        TabId::Config => "↑/↓ select   Enter edit   r refresh   Tab/1-5 tabs   q quit"@,
        TabId::Logs => "r refresh   Tab/1-5 tabs   q quit"@,
    }
}

/// What the line at the foot says.
pub open spec fn hints(app: AppView) -> Seq<SpanView> {
    seq![
        piece(" "@ + hint(app.tab) + " "@, Tone::DarkGray),
        piece("  │  "@, Tone::Raw),
        piece(app.status, Tone::Yellow),
    ]
}

/// The line at the foot: the keys that the screen knows, and what was done last.
pub fn draw_hints(app: &App) -> (r: Vec<Span>)
    ensures
        row_view(r@) == hints(app@),
{
    let keys: &str = match app.tab {
        TabId::Worlds => "↑/↓ select   Enter switch   r refresh   Tab/1-5 tabs   q quit",
        TabId::Whitelist =>
            "↑/↓ select   a add   d remove   r refresh   Tab/1-5 tabs   q quit",
        TabId::Ops =>
            "↑/↓ select   a add   d remove   ←/→ level   r refresh   Tab/1-5 tabs   q quit",
        TabId::Config => "↑/↓ select   Enter edit   r refresh   Tab/1-5 tabs   q quit",
        TabId::Logs => "r refresh   Tab/1-5 tabs   q quit",
    };
    let mut row: Vec<Span> = Vec::new();
    row.push(span(" ".to_owned().concat(keys).concat(" "), Tone::DarkGray));
    row.push(span("  │  ".to_owned(), Tone::Raw));
    row.push(span(app.status.clone(), Tone::Yellow));
    assert(row_view(row@) =~= hints(app@));
    row
}

// ---------- Lists ----------

/// A world's row: a mark on the current one, its name, its size, and when it
/// was changed.
pub open spec fn world_row(w: WorldView) -> Seq<SpanView> {
    seq![
        piece(if w.is_current { " ● "@ } else { "   "@ }, Tone::Green),
        piece(padded_right(w.name, 30), Tone::White),
        piece(padded_left(list_size(w.size_bytes as nat), 10) + "  "@, Tone::DarkGray),
        piece(
            match w.last_modified {
                Some(t) => t.minute(),
                None => ""@,
            },
            Tone::DarkGray,
        ),
    ]
}

fn world_row_of(w: &WorldEntry) -> (r: Vec<Span>)
    ensures
        row_view(r@) == world_row(w@),
{
    let mut row: Vec<Span> = Vec::new();
    let mark: &str = if w.is_current {
        " ● "
    } else {
        "   "
    };
    row.push(span(mark.to_owned(), Tone::Green));
    row.push(span(pad_right(w.name.as_str(), 30), Tone::White));
    let size: String = fmt_bytes(w.size_bytes);
    row.push(span(pad_left(size.as_str(), 10).concat("  "), Tone::DarkGray));
    let changed: String = match &w.last_modified {
        Some(t) => t.to_minute(),
        None => "".to_owned(),
    };
    row.push(span(changed, Tone::DarkGray));
    assert(row_view(row@) =~= world_row(w@));
    row
}

/// The rows of the world list.
pub open spec fn world_rows(worlds: Seq<WorldView>) -> Seq<Seq<SpanView>> {
    worlds.map_values(|w: WorldView| world_row(w))
}

/// The list of worlds.
pub fn draw_worlds(app: &App) -> (r: ListScreen)
    ensures
        r.title@ == " Worlds (●=current) "@,
        rows_view(r.rows@) == world_rows(app@.worlds),
{
    let mut rows: Vec<Vec<Span>> = Vec::new();
    let mut i: usize = 0;
    assert(rows_view(rows@) =~= world_rows(app@.worlds.take(0)));
    while i < app.worlds.len()
        invariant
            i <= app.worlds@.len(),
            rows_view(rows@) == world_rows(app@.worlds.take(i as int)),
        decreases app.worlds@.len() - i,
    {
        let ghost before = rows_view(rows@);
        let row: Vec<Span> = world_row_of(&app.worlds[i]);
        let ghost shown = row_view(row@);
        rows.push(row);
        assert(rows_view(rows@) =~= before.push(shown));
        assert(world_rows(app@.worlds.take(i + 1)) =~= before.push(shown));
        i += 1;
    }
    assert(app@.worlds.take(i as int) =~= app@.worlds);
    ListScreen { title: " Worlds (●=current) ", rows }
}

/// A whitelisted player's row.
pub open spec fn player_row(p: PlayerView) -> Seq<SpanView> {
    seq![
        piece(" "@ + padded_right(p.name, 20) + " "@, Tone::White),
        piece(p.uuid, Tone::DarkGray),
    ]
}

fn player_row_of(p: &WhitelistEntry) -> (r: Vec<Span>)
    ensures
        row_view(r@) == player_row(p@),
{
    let mut row: Vec<Span> = Vec::new();
    let name: String = " ".to_owned().concat(pad_right(p.name.as_str(), 20).as_str()).concat(" ");
    row.push(span(name, Tone::White));
    row.push(span(p.uuid.clone(), Tone::DarkGray));
    assert(row_view(row@) =~= player_row(p@));
    row
}

/// The rows of the whitelist.
pub open spec fn player_rows(list: Seq<PlayerView>) -> Seq<Seq<SpanView>> {
    list.map_values(|p: PlayerView| player_row(p))
}

/// The whitelist.
pub fn draw_whitelist(app: &App) -> (r: ListScreen)
    ensures
        r.title@ == " Whitelist "@,
        rows_view(r.rows@) == player_rows(app@.whitelist),
{
    let mut rows: Vec<Vec<Span>> = Vec::new();
    let mut i: usize = 0;
    assert(rows_view(rows@) =~= player_rows(app@.whitelist.take(0)));
    while i < app.whitelist.len()
        invariant
            i <= app.whitelist@.len(),
            rows_view(rows@) == player_rows(app@.whitelist.take(i as int)),
        decreases app.whitelist@.len() - i,
    {
        let ghost before = rows_view(rows@);
        let row: Vec<Span> = player_row_of(&app.whitelist[i]);
        let ghost shown = row_view(row@);
        rows.push(row);
        assert(rows_view(rows@) =~= before.push(shown));
        assert(player_rows(app@.whitelist.take(i + 1)) =~= before.push(shown));
        i += 1;
    }
    assert(app@.whitelist.take(i as int) =~= app@.whitelist);
    ListScreen { title: " Whitelist ", rows }
}

/// An operator's row.
pub open spec fn op_row(p: OpView) -> Seq<SpanView> {
    seq![
        piece(" "@ + padded_right(p.name, 20) + " "@, Tone::White),
        piece("level "@ + decimal(p.level as nat) + " "@, Tone::Yellow),
        piece(p.uuid, Tone::DarkGray),
    ]
}

fn op_row_of(p: &OpEntry) -> (r: Vec<Span>)
    ensures
        row_view(r@) == op_row(p@),
{
    let mut row: Vec<Span> = Vec::new();
    let name: String = " ".to_owned().concat(pad_right(p.name.as_str(), 20).as_str()).concat(" ");
    row.push(span(name, Tone::White));
    let level: String = "level ".to_owned().concat(decimal_of(p.level as u64).as_str()).concat(" ");
    row.push(span(level, Tone::Yellow));
    row.push(span(p.uuid.clone(), Tone::DarkGray));
    assert(row_view(row@) =~= op_row(p@));
    row
}

/// The rows of the operator list.
pub open spec fn op_rows(list: Seq<OpView>) -> Seq<Seq<SpanView>> {
    list.map_values(|p: OpView| op_row(p))
}

/// The operators.
pub fn draw_ops(app: &App) -> (r: ListScreen)
    ensures
        r.title@ == " Operators (←/→ change level) "@,
        rows_view(r.rows@) == op_rows(app@.ops),
{
    let mut rows: Vec<Vec<Span>> = Vec::new();
    let mut i: usize = 0;
    assert(rows_view(rows@) =~= op_rows(app@.ops.take(0)));
    while i < app.ops.len()
        invariant
            i <= app.ops@.len(),
            rows_view(rows@) == op_rows(app@.ops.take(i as int)),
        decreases app.ops@.len() - i,
    {
        let ghost before = rows_view(rows@);
        let row: Vec<Span> = op_row_of(&app.ops[i]);
        let ghost shown = row_view(row@);
        rows.push(row);
        assert(rows_view(rows@) =~= before.push(shown));
        assert(op_rows(app@.ops.take(i + 1)) =~= before.push(shown));
        i += 1;
    }
    assert(app@.ops.take(i as int) =~= app@.ops);
    ListScreen { title: " Operators (←/→ change level) ", rows }
}

/// The tone of a setting's value.
pub open spec fn value_tone(value: Seq<char>) -> Tone {
    if value == "true"@ {
        Tone::Green
    } else if value == "false"@ {
        Tone::Red
    } else {
        Tone::Cyan
    }
}

/// A setting's row.
pub open spec fn setting_row(p: (Seq<char>, Seq<char>)) -> Seq<SpanView> {
    seq![
        piece(" "@ + padded_right(p.0, 35), Tone::White),
        piece("= "@, Tone::Raw),
        piece(p.1, value_tone(p.1)),
    ]
}

fn setting_row_of(key: &str, value: &str) -> (r: Vec<Span>)
    ensures
        row_view(r@) == setting_row((key@, value@)),
{
    let tone: Tone = if same(value, "true") {
        Tone::Green
    } else if same(value, "false") {
        Tone::Red
    } else {
        Tone::Cyan
    };
    let mut row: Vec<Span> = Vec::new();
    row.push(span(" ".to_owned().concat(pad_right(key, 35).as_str()), Tone::White));
    row.push(span("= ".to_owned(), Tone::Raw));
    row.push(span(value.to_owned(), tone));
    assert(row_view(row@) =~= setting_row((key@, value@)));
    row
}

/// The rows of the settings.
pub open spec fn setting_rows(list: Seq<(Seq<char>, Seq<char>)>) -> Seq<Seq<SpanView>> {
    list.map_values(|p: (Seq<char>, Seq<char>)| setting_row(p))
}

/// The settings.
pub fn draw_config(app: &App) -> (r: ListScreen)
    ensures
        r.title@ == " server.properties (Enter = edit) "@,
        rows_view(r.rows@) == setting_rows(app@.properties),
{
    let mut rows: Vec<Vec<Span>> = Vec::new();
    let mut i: usize = 0;
    assert(rows_view(rows@) =~= setting_rows(app@.properties.take(0)));
    while i < app.properties.len()
        invariant
            i <= app.properties@.len(),
            rows_view(rows@) == setting_rows(app@.properties.take(i as int)),
        decreases app.properties@.len() - i,
    {
        let ghost before = rows_view(rows@);
        let row: Vec<Span> = setting_row_of(
            app.properties[i].0.as_str(),
            app.properties[i].1.as_str(),
        );
        let ghost shown = row_view(row@);
        rows.push(row);
        assert(rows_view(rows@) =~= before.push(shown));
        assert(setting_rows(app@.properties.take(i + 1)) =~= before.push(shown));
        i += 1;
    }
    assert(app@.properties.take(i as int) =~= app@.properties);
    ListScreen { title: " server.properties (Enter = edit) ", rows }
}

// ---------- Logs ----------

/// What came of reading the server's log.
pub enum LogFile {
    /// There is none.
    Missing,
    /// It could not be read, for this reason.
    Unreadable(String),
    /// It says this.
    Text(String),
}

/// The rows that an area of this height has within its border, and at least one.
pub open spec fn visible_rows(height: u16) -> int {
    if height < 3 {
        1
    } else {
        height - 2
    }
}

/// The last `count` lines of a text.
pub open spec fn tail(text: Seq<char>, count: int) -> Seq<Seq<char>> {
    let all = lines(text);
    if all.len() <= count {
        all
    } else {
        all.skip(all.len() - count)
    }
}

/// What the log screen shows.
pub open spec fn log_body(log: LogFile, height: u16) -> Seq<char> {
    match log {
        LogFile::Missing => "(no logs yet)"@,
        LogFile::Unreadable(why) => "(read error: "@ + why@ + ")"@,
        LogFile::Text(text) => joined(tail(text@, visible_rows(height)), "\n"@),
    }
}

/// A text on the screen.
pub struct TextScreen {
    pub title: String,
    pub body: String,
}

/// The end of the server's log, as much as an area of this height shows.
pub fn draw_logs(log_path: &str, log: &LogFile, height: u16) -> (r: TextScreen)
    ensures
        r.title@ == " Logs — tail of "@ + log_path@ + " "@,
        r.body@ == log_body(*log, height),
{
    let body: String = match log {
        LogFile::Missing => "(no logs yet)".to_owned(),
        LogFile::Unreadable(why) => "(read error: ".to_owned().concat(why.as_str()).concat(")"),
        LogFile::Text(text) => {
            let all: Vec<String> = lines_of(text.as_str());
            let count: usize = if height < 3 {
                1
            } else {
                height as usize - 2
            };
            let start: usize = if all.len() <= count {
                0
            } else {
                all.len() - count
            };
            let shown: &[String] = vstd::slice::slice_subrange(all.as_slice(), start, all.len());
            assert(views(shown@) =~= views(all@).skip(start as int));
            assert(views(all@).skip(0) =~= views(all@));
            join(shown, "\n")
        },
    };
    TextScreen { title: " Logs — tail of ".to_owned().concat(log_path).concat(" "), body }
}

// ---------- Prompts ----------

/// A prompt on the screen.
pub struct PromptScreen {
    pub title: String,
    pub rows: Vec<Vec<Span>>,
}

/// The rows of a prompt: the question with the answer so far, and the keys.
pub open spec fn prompt_rows(p: PromptView) -> Seq<Seq<SpanView>> {
    seq![
        seq![
            piece(p.label + ": "@, Tone::White),
            piece(p.buffer, Tone::Yellow),
            piece("█"@, Tone::Cursor),
        ],
        seq![piece(""@, Tone::Raw)],
        seq![piece("Enter = confirm    Esc = cancel"@, Tone::DarkGray)],
    ]
}

/// The prompt over the screen.
pub fn draw_prompt(prompt: &InputPrompt) -> (r: PromptScreen)
    ensures
        r.title@ == " "@ + prompt.title@ + " "@,
        rows_view(r.rows@) == prompt_rows(prompt@),
{
    let mut question: Vec<Span> = Vec::new();
    question.push(span(prompt.label.clone().concat(": "), Tone::White));
    question.push(span(prompt.buffer.clone(), Tone::Yellow));
    question.push(span("█".to_owned(), Tone::Cursor));
    assert(row_view(question@) =~= prompt_rows(prompt@)[0]);
    let mut space: Vec<Span> = Vec::new();
    space.push(span("".to_owned(), Tone::Raw));
    assert(row_view(space@) =~= prompt_rows(prompt@)[1]);
    let mut keys: Vec<Span> = Vec::new();
    keys.push(span("Enter = confirm    Esc = cancel".to_owned(), Tone::DarkGray));
    assert(row_view(keys@) =~= prompt_rows(prompt@)[2]);
    let mut rows: Vec<Vec<Span>> = Vec::new();
    rows.push(question);
    rows.push(space);
    rows.push(keys);
    assert(rows_view(rows@) =~= prompt_rows(prompt@));
    PromptScreen { title: " ".to_owned().concat(prompt.title.as_str()).concat(" "), rows }
}

// ---------- Laws ----------

/// Each list shows a row for each of its entries, so that the selected row is
/// the selected entry's.
pub proof fn law_a_row_for_each_entry(app: AppView)
    ensures
        world_rows(app.worlds).len() == app.list_len(TabId::Worlds),
        player_rows(app.whitelist).len() == app.list_len(TabId::Whitelist),
        op_rows(app.ops).len() == app.list_len(TabId::Ops),
        setting_rows(app.properties).len() == app.list_len(TabId::Config),
{
}

/// The log screen shows the last lines of the log, never more than there is
/// room for, unless there is room for none; a log that fits is shown whole.
pub proof fn law_log_shows_the_end(text: Seq<char>, height: u16)
    ensures
        tail(text, visible_rows(height)).is_suffix_of(lines(text)),
        height >= 3 ==> tail(text, visible_rows(height)).len() <= height - 2,
        lines(text).len() <= visible_rows(height) ==> tail(text, visible_rows(height)) == lines(
            text,
        ),
        lines(text).len() > 0 ==> tail(text, visible_rows(height)).last() == lines(text).last(),
{
    let all = lines(text);
    let shown = tail(text, visible_rows(height));
    assert(all.subrange(all.len() - shown.len(), all.len() as int) =~= shown);
}

} // verus!
