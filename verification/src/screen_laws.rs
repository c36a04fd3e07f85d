//! What the screens show, said of what they show it of.

use crate::players::{OpView, PlayerView};
use crate::screen::{
    hint, hints, log_body, op_row, op_rows, player_row, player_rows, prompt_rows, setting_row,
    setting_rows, status_bar, tab_title, world_row, world_rows, LogFile, SpanView, Tone,
};
use crate::sizes::list_size;
use crate::state::{AppView, PromptView, TabId};
use crate::text::{decimal, joined, lines};
use crate::text_laws::law_padding;
use crate::worlds::WorldView;
use vstd::prelude::*;

verus! {

// ---------- Logs ----------

/// The log screen fills its room: of the log's lines it shows the last, as many
/// as the height less two, or all where there are no more; a height below three
/// shows the last line.
pub proof fn law_the_log_fills_its_room(text: String, height: u16)
    ensures
        height >= 3 ==> {
            let all = lines(text@);
            let count = if all.len() < height - 2 {
                all.len() as int
            } else {
                height - 2
            };
            &&& all.skip(all.len() - count).len() == count
            &&& log_body(LogFile::Text(text), height) == joined(
                all.skip(all.len() - count),
                "\n"@,
            )
        },
        height < 3 && lines(text@).len() > 0 ==> log_body(LogFile::Text(text), height) == lines(
            text@,
        )[lines(text@).len() - 1],
        lines(text@).len() == 0 ==> log_body(LogFile::Text(text), height) == Seq::<char>::empty(),
{
    let all = lines(text@);
    assert(all.skip(0) =~= all);
    if height < 3 && all.len() > 0 {
        let last = all.skip(all.len() - 1);
        assert(last =~= seq![all[all.len() - 1]]);
        assert(joined(last, "\n"@) == last[0]);
    }
}

/// One more line at the end of a log whose room is full moves the rest up by one:
/// the first line that was shown goes, the others stay in order before the new
/// one.
pub proof fn law_the_log_scrolls(before: String, after: String, line: Seq<char>, height: u16)
    requires
        height >= 3,
        lines(after@) == lines(before@).push(line),
        lines(before@).len() >= height - 2,
    ensures
        ({
            let all = lines(before@);
            let room = height - 2;
            &&& log_body(LogFile::Text(before), height) == joined(
                all.subrange(all.len() - room, all.len() as int),
                "\n"@,
            )
            &&& log_body(LogFile::Text(after), height) == joined(
                all.subrange(all.len() - room + 1, all.len() as int).push(line),
                "\n"@,
            )
        }),
{
    let all = lines(before@);
    let more = lines(after@);
    let room = height - 2;
    law_the_log_fills_its_room(before, height);
    law_the_log_fills_its_room(after, height);
    assert(all.skip(all.len() - room) =~= all.subrange(all.len() - room, all.len() as int));
    assert(more.skip(more.len() - room) =~= all.subrange(
        all.len() - room + 1,
        all.len() as int,
    ).push(line));
}

/// Without a log, and where it cannot be read, the screen says so, with the
/// reason, whole.
pub proof fn law_a_log_that_cannot_be_shown(why: String, height: u16)
    ensures
        log_body(LogFile::Missing, height) == "(no logs yet)"@,
        log_body(LogFile::Unreadable(why), height) == "(read error: "@ + why@ + ")"@,
{
}

// ---------- Rows ----------

/// `text` is `s` and blanks behind it, up to `width` characters where `s` has
/// fewer.
pub open spec fn fills_from_the_left(text: Seq<char>, s: Seq<char>, width: nat) -> bool {
    &&& text.len() == if s.len() < width {
        width
    } else {
        s.len()
    }
    &&& text.take(s.len() as int) == s
    &&& forall|i: int| s.len() <= i < text.len() ==> #[trigger] text[i] == ' '
}

/// A world's row has the mark of the current world or none, its name, whole, its
/// size at the right of ten characters, and the time that it was changed.
pub proof fn law_world_rows(w: WorldView)
    ensures
        world_row(w).len() == 4,
        w.is_current ==> world_row(w)[0] == (SpanView { text: " ● "@, tone: Tone::Green }),
        !w.is_current ==> world_row(w)[0] == (SpanView { text: "   "@, tone: Tone::Green }),
        fills_from_the_left(world_row(w)[1].text, w.name, 30),
        world_row(w)[1].tone == Tone::White,
        ({
            let size = list_size(w.size_bytes as nat);
            let text = world_row(w)[2].text;
            let width = if size.len() < 10 {
                10
            } else {
                size.len() as int
            };
            &&& text.len() == width + 2
            &&& text.subrange(width - size.len(), width) == size
            &&& text.skip(width) == "  "@
            &&& forall|i: int| 0 <= i < width - size.len() ==> #[trigger] text[i] == ' '
        }),
        world_row(w)[2].tone == Tone::DarkGray,
        w.last_modified is Some ==> world_row(w)[3] == (SpanView {
            text: w.last_modified->0.minute(),
            tone: Tone::DarkGray,
        }),
        w.last_modified is None ==> world_row(w)[3] == (SpanView {
            text: ""@,
            tone: Tone::DarkGray,
        }),
{
    reveal_strlit("  ");
    let size = list_size(w.size_bytes as nat);
    law_padding(w.name, 30);
    law_padding(size, 10);
    let padded = crate::text::padded_left(size, 10);
    let text = world_row(w)[2].text;
    assert(text == padded + "  "@);
    let width = padded.len() as int;
    assert(text.subrange(width - size.len(), width) =~= padded.skip(width - size.len()));
    assert(text.skip(width) =~= "  "@);
    assert forall|i: int| 0 <= i < width - size.len() implies #[trigger] text[i] == ' ' by {
        assert(text[i] == padded[i]);
    }
}

/// A player's row has the name, whole, between blanks, and the id, whole.
pub proof fn law_player_rows(p: PlayerView)
    ensures
        player_row(p).len() == 2,
        player_row(p)[0].text.len() >= 22,
        player_row(p)[0].text[0] == ' ',
        player_row(p)[0].text.last() == ' ',
        fills_from_the_left(player_row(p)[0].text.drop_first().drop_last(), p.name, 20),
        player_row(p)[0].tone == Tone::White,
        player_row(p)[1] == (SpanView { text: p.uuid, tone: Tone::DarkGray }),
{
    lemma_name_cell(p.name);
}

proof fn lemma_name_cell(name: Seq<char>)
    ensures
        ({
            let text = " "@ + crate::text::padded_right(name, 20) + " "@;
            &&& text.len() >= 22
            &&& text[0] == ' '
            &&& text.last() == ' '
            &&& fills_from_the_left(text.drop_first().drop_last(), name, 20)
        }),
{
    reveal_strlit(" ");
    law_padding(name, 20);
    let padded = crate::text::padded_right(name, 20);
    let text = " "@ + padded + " "@;
    assert(text.drop_first().drop_last() =~= padded);
}

/// An operator's row has the name, whole, between blanks, the level in digits, and
/// the id, whole.
pub proof fn law_operator_rows(p: OpView)
    ensures
        op_row(p).len() == 3,
        op_row(p)[0].text.len() >= 22,
        op_row(p)[0].text[0] == ' ',
        op_row(p)[0].text.last() == ' ',
        fills_from_the_left(op_row(p)[0].text.drop_first().drop_last(), p.name, 20),
        op_row(p)[0].tone == Tone::White,
        op_row(p)[1] == (SpanView {
            text: "level "@ + decimal(p.level as nat) + " "@,
            tone: Tone::Yellow,
        }),
        op_row(p)[2] == (SpanView { text: p.uuid, tone: Tone::DarkGray }),
{
    lemma_name_cell(p.name);
}

/// A setting's row has a blank and the key, whole, and the value as it is: green
/// where it is `true`, red where it is `false`, and cyan otherwise.
pub proof fn law_setting_rows(key: Seq<char>, value: Seq<char>)
    ensures
        setting_row((key, value)).len() == 3,
        setting_row((key, value))[0].text.len() > 0,
        setting_row((key, value))[0].text[0] == ' ',
        fills_from_the_left(setting_row((key, value))[0].text.drop_first(), key, 35),
        setting_row((key, value))[0].tone == Tone::White,
        setting_row((key, value))[1] == (SpanView { text: "= "@, tone: Tone::Raw }),
        setting_row((key, value))[2].text == value,
        setting_row((key, value))[2].tone == Tone::Green <==> value == "true"@,
        setting_row((key, value))[2].tone == Tone::Red <==> value == "false"@,
        value != "true"@ && value != "false"@ ==> setting_row((key, value))[2].tone == Tone::Cyan,
{
    reveal_strlit(" ");
    reveal_strlit("true");
    reveal_strlit("false");
    law_padding(key, 35);
    let padded = crate::text::padded_right(key, 35);
    assert((" "@ + padded).drop_first() =~= padded);
    assert("true"@.len() == 4 && "false"@.len() == 5);
}

/// Row `i` of a list is the row of entry `i`.
pub proof fn law_rows_stand_as_the_entries(app: AppView, i: int)
    ensures
        world_rows(app.worlds).len() == app.worlds.len(),
        player_rows(app.whitelist).len() == app.whitelist.len(),
        op_rows(app.ops).len() == app.ops.len(),
        setting_rows(app.properties).len() == app.properties.len(),
        0 <= i < app.worlds.len() ==> world_rows(app.worlds)[i] == world_row(app.worlds[i]),
        0 <= i < app.whitelist.len() ==> player_rows(app.whitelist)[i] == player_row(
            app.whitelist[i],
        ),
        0 <= i < app.ops.len() ==> op_rows(app.ops)[i] == op_row(app.ops[i]),
        0 <= i < app.properties.len() ==> setting_rows(app.properties)[i] == setting_row(
            app.properties[i],
        ),
{
}

// ---------- The frame ----------

/// The status bar tells whether the server runs, and as which process, the level,
/// and the directory, whole.
pub proof fn law_the_status_bar(app: AppView)
    ensures
        status_bar(app).len() == 8,
        status_bar(app)[0] == (SpanView { text: "server: "@, tone: Tone::Dim }),
        status_bar(app)[2] == (SpanView { text: "    "@, tone: Tone::Raw }),
        status_bar(app)[3] == (SpanView { text: "level: "@, tone: Tone::Dim }),
        status_bar(app)[5] == (SpanView { text: "    "@, tone: Tone::Raw }),
        status_bar(app)[6] == (SpanView { text: "dir: "@, tone: Tone::Dim }),
        app.pid is Some ==> status_bar(app)[1] == (SpanView {
            text: "● running (pid "@ + decimal(app.pid->0 as nat) + ")"@,
            tone: Tone::Green,
        }),
        app.pid is None ==> status_bar(app)[1] == (SpanView {
            text: "○ stopped"@,
            tone: Tone::DarkGray,
        }),
        status_bar(app)[4] == (SpanView { text: app.current_level(), tone: Tone::Cyan }),
        status_bar(app)[7] == (SpanView { text: app.server_dir, tone: Tone::Raw }),
{
}

/// The line at the foot has the keys of the screen that is shown, and all that is
/// said.
pub proof fn law_the_foot(app: AppView)
    ensures
        hints(app).len() == 3,
        hints(app)[0] == (SpanView { text: " "@ + hint(app.tab) + " "@, tone: Tone::DarkGray }),
        hints(app)[1] == (SpanView { text: "  │  "@, tone: Tone::Raw }),
        hint(TabId::Worlds)
            == "↑/↓ select   Enter switch   r refresh   Tab/1-5 tabs   q quit"@,
        hint(TabId::Whitelist)
            == "↑/↓ select   a add   d remove   r refresh   Tab/1-5 tabs   q quit"@,
        hint(TabId::Ops)
            == "↑/↓ select   a add   d remove   ←/→ level   r refresh   Tab/1-5 tabs   q quit"@,
        hint(TabId::Config) == "↑/↓ select   Enter edit   r refresh   Tab/1-5 tabs   q quit"@,
        hint(TabId::Logs) == "r refresh   Tab/1-5 tabs   q quit"@,
        hints(app)[2] == (SpanView { text: app.status, tone: Tone::Yellow }),
{
}

/// Tabs are numbered from 1, in the order that the number keys have.
pub proof fn law_tab_titles()
    ensures
        tab_title(TabId::Worlds) == " "@ + decimal(1) + " "@ + "Worlds"@ + " "@,
        tab_title(TabId::Whitelist) == " "@ + decimal(2) + " "@ + "Whitelist"@ + " "@,
        tab_title(TabId::Ops) == " "@ + decimal(3) + " "@ + "Ops"@ + " "@,
        tab_title(TabId::Config) == " "@ + decimal(4) + " "@ + "Config"@ + " "@,
        tab_title(TabId::Logs) == " "@ + decimal(5) + " "@ + "Logs"@ + " "@,
{
}

/// A prompt shows its question and all of the answer so far, with the cursor
/// behind it.
pub proof fn law_prompts(p: PromptView)
    ensures
        prompt_rows(p).len() == 3,
        prompt_rows(p)[0] == seq![
            SpanView { text: p.label + ": "@, tone: Tone::White },
            SpanView { text: p.buffer, tone: Tone::Yellow },
            SpanView { text: "█"@, tone: Tone::Cursor },
        ],
        prompt_rows(p)[1] == seq![SpanView { text: ""@, tone: Tone::Raw }],
        prompt_rows(p)[2] == seq![
            SpanView { text: "Enter = confirm    Esc = cancel"@, tone: Tone::DarkGray },
        ],
{
    assert(prompt_rows(p)[0] =~= seq![
        SpanView { text: p.label + ": "@, tone: Tone::White },
        SpanView { text: p.buffer, tone: Tone::Yellow },
        SpanView { text: "█"@, tone: Tone::Cursor },
    ]);
}

} // verus!
