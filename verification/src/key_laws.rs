//! What each key does, said of the state before it and after it.

use crate::players::{file_entries, operators, players, OpView, PlayerView};
use crate::processes::running_pid;
use crate::properties::with_value;
use crate::server_laws::law_first_setting_counts;
use crate::state::{
    ActionView, Afterwards, AppView, CommandView, DataFile, Input, Key, PromptView, SaveView,
    Snapshot, TabId,
};
use crate::text::decimal;
use crate::text_laws::{has_firm_ends, is_blank, law_trimming_takes_off_the_white_space};
use crate::uuid::offline_id;
use crate::worlds::{law_list_has_what_was_found, worlds_in};
use vstd::arithmetic::div_mod::{
    lemma_fundamental_div_mod, lemma_mod_multiples_vanish, lemma_small_mod,
};
use vstd::prelude::*;

verus! {

// ---------- Selections and screens ----------

/// Down goes to the row below, and from the last row to the first; Up goes the
/// other way. Without a selection they go as from the first row. In general, a
/// move ends on a row of the list that is `delta` rows on, but for whole turns.
pub proof fn law_moves_go_row_by_row(app: AppView, delta: int)
    requires
        0 < app.list_len(app.tab) <= usize::MAX,
    ensures
        ({
            let len = app.list_len(app.tab) as int;
            let from = if app.selected(app.tab) is Some {
                app.selected(app.tab)->0 as int
            } else {
                0
            };
            let to = app.moved(delta).selected(app.tab);
            &&& to is Some && to->0 < len
            &&& (from + delta - to->0) % len == 0
            &&& delta == 1 && from < len ==> to->0 == if from + 1 < len {
                from + 1
            } else {
                0
            }
            &&& delta == -1 && from < len ==> to->0 == if from > 0 {
                from - 1
            } else {
                len - 1
            }
        }),
{
    let len = app.list_len(app.tab) as int;
    let from = if app.selected(app.tab) is Some {
        app.selected(app.tab)->0 as int
    } else {
        0
    };
    let sum = from + delta;
    let q = sum / len;
    lemma_fundamental_div_mod(sum, len);
    assert(sum - sum % len == q * len + 0) by (nonlinear_arith)
        requires
            sum == len * q + sum % len,
    ;
    assert(q * len == len * q) by (nonlinear_arith);
    lemma_mod_multiples_vanish(q, 0, len);
    lemma_small_mod(0, len as nat);
    if 0 <= sum < len {
        lemma_small_mod(sum as nat, len as nat);
    } else if sum == len {
        lemma_mod_multiples_vanish(1, 0, len);
    } else if sum == -1 {
        lemma_mod_multiples_vanish(-1, len - 1, len);
        lemma_small_mod((len - 1) as nat, len as nat);
    }
}

/// A list has a row for each of its entries; the logs have none, and with no rows
/// nothing moves.
pub proof fn law_lists_have_a_row_for_each_entry(app: AppView, delta: int)
    ensures
        app.list_len(TabId::Worlds) == app.worlds.len(),
        app.list_len(TabId::Whitelist) == app.whitelist.len(),
        app.list_len(TabId::Ops) == app.ops.len(),
        app.list_len(TabId::Config) == app.properties.len(),
        app.list_len(TabId::Logs) == 0,
        app.list_len(app.tab) == 0 ==> app.moved(delta) == app,
{
}

/// Each screen has a selection of its own, but for the logs, which go by that of
/// the worlds.
pub proof fn law_selections_are_kept_apart(app: AppView, tab: TabId, row: Option<usize>)
    ensures
        app.selected(TabId::Worlds) == app.worlds_selected,
        app.selected(TabId::Whitelist) == app.whitelist_selected,
        app.selected(TabId::Ops) == app.ops_selected,
        app.selected(TabId::Config) == app.config_selected,
        app.selected(TabId::Logs) == app.worlds_selected,
        app.with_selected(tab, row) == (AppView {
            worlds_selected: if tab is Worlds || tab is Logs {
                row
            } else {
                app.worlds_selected
            },
            whitelist_selected: if tab is Whitelist {
                row
            } else {
                app.whitelist_selected
            },
            ops_selected: if tab is Ops {
                row
            } else {
                app.ops_selected
            },
            config_selected: if tab is Config {
                row
            } else {
                app.config_selected
            },
            ..app
        }),
{
}

/// Tab goes through worlds, whitelist, operators, settings and logs, and round
/// again; back-tab goes the other way. Nothing else changes.
pub proof fn law_tabs_in_order(app: AppView, next: AppView)
    ensures
        app.cycles_to(next, 1) <==> next == (AppView {
            tab: match app.tab {
                TabId::Worlds => TabId::Whitelist,
                TabId::Whitelist => TabId::Ops,
                TabId::Ops => TabId::Config,
                TabId::Config => TabId::Logs,
                TabId::Logs => TabId::Worlds,
            },
            ..app
        }),
        app.cycles_to(next, -1) <==> next == (AppView {
            tab: match app.tab {
                TabId::Worlds => TabId::Logs,
                TabId::Whitelist => TabId::Worlds,
                TabId::Ops => TabId::Whitelist,
                TabId::Config => TabId::Ops,
                TabId::Logs => TabId::Config,
            },
            ..app
        }),
{
}

/// The server's level is the value of the first `level-name`, and `world` where
/// there is none.
pub proof fn law_current_level(app: AppView, n: int)
    requires
        0 <= n <= app.properties.len(),
        forall|i: int| 0 <= i < n ==> (#[trigger] app.properties[i]).0 != "level-name"@,
        n < app.properties.len() ==> app.properties[n].0 == "level-name"@,
    ensures
        app.current_level() == if n < app.properties.len() {
            app.properties[n].1
        } else {
            "world"@
        },
{
    law_first_setting_counts(app.properties, "level-name"@, n);
}

/// Loading anew takes the worlds from what was found, the players from the files
/// and the process from those that run; settings, screen, selections, prompt and what is said stay.
pub proof fn law_loading_takes_what_was_read(app: AppView, next: AppView, snapshot: Snapshot)
    requires
        app.reloads_to(next, snapshot),
    ensures
        next.whitelist == players(file_entries(snapshot.whitelist)),
        next.ops == operators(file_entries(snapshot.ops)),
        next.pid == running_pid(snapshot.processes@),
        next.worlds.to_multiset() == worlds_in(
            snapshot.found@,
            app.current_level(),
        ).to_multiset(),
        next.server_dir == app.server_dir,
        next.properties == app.properties,
        next.tab == app.tab,
        next.worlds_selected == app.worlds_selected,
        next.whitelist_selected == app.whitelist_selected,
        next.ops_selected == app.ops_selected,
        next.config_selected == app.config_selected,
        next.status == app.status,
        next.prompt == app.prompt,
{
    law_list_has_what_was_found(next.worlds, worlds_in(snapshot.found@, app.current_level()));
}

// ---------- Worlds ----------

/// Choosing a world: refused while the server runs; nothing where no row of the
/// list is selected; said so where it is current; and else the first
/// `level-name` becomes the name of the world in that very row, to be saved.
pub proof fn law_choosing_a_world(app: AppView)
    ensures
        app.pid is Some ==> app.switching_world() == (
            AppView { status: "✗ Stop the server first (it's running)."@, ..app },
            CommandView::Nothing,
        ),
        app.pid is None && (app.worlds_selected is None || app.worlds_selected->0
            >= app.worlds.len()) ==> app.switching_world() == (app, CommandView::Nothing),
        app.pid is None && app.worlds_selected is Some && app.worlds_selected->0
            < app.worlds.len() ==> {
            let world = app.worlds[app.worlds_selected->0 as int];
            if world.is_current {
                app.switching_world() == (
                    AppView { status: "→ Already current world."@, ..app },
                    CommandView::Nothing,
                )
            } else {
                app.switching_world() == (
                    AppView {
                        properties: with_value(app.properties, "level-name"@, world.name),
                        ..app
                    },
                    CommandView::Save(
                        SaveView {
                            file: DataFile::Properties,
                            status: "✓ Switched to '"@ + world.name
                                + "'. Restart the server to load it."@,
                            afterwards: Afterwards::Reload,
                        },
                    ),
                )
            }
        },
{
}

// ---------- Players ----------

/// Whoever is typed, with whatever white space around them, comes last on the
/// whitelist, with the id of that name, unless an entry has that name; all others
/// stay where they are.
pub proof fn law_whitelisting_adds_whom_is_typed(
    app: AppView,
    a: Seq<char>,
    name: Seq<char>,
    b: Seq<char>,
)
    requires
        is_blank(a),
        is_blank(b),
        has_firm_ends(name),
    ensures
        name.len() == 0 ==> app.whitelisting(a + name + b) == (app, CommandView::Nothing),
        name.len() > 0 && (exists|i: int|
            0 <= i < app.whitelist.len() && (#[trigger] app.whitelist[i]).name == name)
            ==> app.whitelisting(a + name + b) == (
            AppView { status: "→ '"@ + name + "' already whitelisted."@, ..app },
            CommandView::Nothing,
        ),
        name.len() > 0 && (forall|i: int|
            0 <= i < app.whitelist.len() ==> (#[trigger] app.whitelist[i]).name != name)
            ==> app.whitelisting(a + name + b) == (
            AppView {
                whitelist: app.whitelist.push(PlayerView { uuid: offline_id(name), name }),
                ..app
            },
            CommandView::Save(
                SaveView {
                    file: DataFile::Whitelist,
                    status: "✓ Whitelisted "@ + name + "."@,
                    afterwards: Afterwards::Reload,
                },
            ),
        ),
{
    law_trimming_takes_off_the_white_space(a, name, b);
}

/// Whoever is typed, with whatever white space around them, comes last among the
/// operators, with the id of that name, level 4 and no leave to pass the player
/// limit, unless an entry has that name; all others stay where they are.
pub proof fn law_opping_adds_whom_is_typed(
    app: AppView,
    a: Seq<char>,
    name: Seq<char>,
    b: Seq<char>,
)
    requires
        is_blank(a),
        is_blank(b),
        has_firm_ends(name),
    ensures
        name.len() == 0 ==> app.opping(a + name + b) == (app, CommandView::Nothing),
        name.len() > 0 && (exists|i: int|
            0 <= i < app.ops.len() && (#[trigger] app.ops[i]).name == name) ==> app.opping(
            a + name + b,
        ) == (
            AppView { status: "→ '"@ + name + "' already op."@, ..app },
            CommandView::Nothing,
        ),
        name.len() > 0 && (forall|i: int|
            0 <= i < app.ops.len() ==> (#[trigger] app.ops[i]).name != name) ==> app.opping(
            a + name + b,
        ) == (
            AppView {
                ops: app.ops.push(
                    OpView {
                        uuid: offline_id(name),
                        name,
                        level: 4,
                        bypasses_player_limit: false,
                    },
                ),
                ..app
            },
            CommandView::Save(
                SaveView {
                    file: DataFile::Ops,
                    status: "✓ Op'd "@ + name + " (level 4)."@,
                    afterwards: Afterwards::Reload,
                },
            ),
        ),
{
    law_trimming_takes_off_the_white_space(a, name, b);
}

/// The player in row `k`, which is selected, goes off the whitelist and is named;
/// those before stay in their rows, those after move up by one, and nothing else
/// changes until the list is saved. Without such a row nothing happens.
pub proof fn law_the_selected_player_goes(app: AppView, k: usize)
    ensures
        app.whitelist_selected == Some(k) && k < app.whitelist.len() ==> {
            let (next, command) = app.unlisting();
            &&& next.whitelist.len() == app.whitelist.len() - 1
            &&& forall|i: int| 0 <= i < k ==> #[trigger] next.whitelist[i] == app.whitelist[i]
            &&& forall|i: int|
                k <= i < next.whitelist.len() ==> #[trigger] next.whitelist[i] == app.whitelist[i
                    + 1]
            &&& next == AppView { whitelist: next.whitelist, ..app }
            &&& command == CommandView::Save(
                SaveView {
                    file: DataFile::Whitelist,
                    status: "✓ Removed "@ + app.whitelist[k as int].name + " from whitelist."@,
                    afterwards: Afterwards::Reselect,
                },
            )
        },
        app.whitelist_selected is None || app.whitelist_selected->0 >= app.whitelist.len()
            ==> app.unlisting() == (app, CommandView::Nothing),
{
}

/// The operator in row `k`, which is selected, goes off the list and is named;
/// those before stay in their rows, those after move up by one, and nothing else
/// changes until the list is saved. Without such a row nothing happens.
pub proof fn law_the_selected_operator_goes(app: AppView, k: usize)
    ensures
        app.ops_selected == Some(k) && k < app.ops.len() ==> {
            let (next, command) = app.deopping();
            &&& next.ops.len() == app.ops.len() - 1
            &&& forall|i: int| 0 <= i < k ==> #[trigger] next.ops[i] == app.ops[i]
            &&& forall|i: int|
                k <= i < next.ops.len() ==> #[trigger] next.ops[i] == app.ops[i + 1]
            &&& next == AppView { ops: next.ops, ..app }
            &&& command == CommandView::Save(
                SaveView {
                    file: DataFile::Ops,
                    status: "✓ De-op'd "@ + app.ops[k as int].name + "."@,
                    afterwards: Afterwards::Reselect,
                },
            )
        },
        app.ops_selected is None || app.ops_selected->0 >= app.ops.len() ==> app.deopping() == (
            app,
            CommandView::Nothing,
        ),
{
}

/// The level of the operator in the row that is selected moves by `dir`, no
/// further than to 1 or to 4, and is said; nobody else's changes. Without such a
/// row nothing happens.
pub proof fn law_the_selected_operators_level_moves(app: AppView, k: usize, dir: int)
    ensures
        app.ops_selected == Some(k) && k < app.ops.len() ==> {
            let (next, command) = app.leveling(dir);
            let before = app.ops[k as int];
            let after = next.ops[k as int];
            &&& 1 <= after.level <= 4
            &&& 1 <= before.level + dir <= 4 ==> after.level == before.level + dir
            &&& before.level + dir < 1 ==> after.level == 1
            &&& before.level + dir > 4 ==> after.level == 4
            &&& after == OpView { level: after.level, ..before }
            &&& next == AppView { ops: app.ops.update(k as int, after), ..app }
            &&& command == CommandView::Save(
                SaveView {
                    file: DataFile::Ops,
                    status: "✓ "@ + before.name + " → level "@ + decimal(after.level as nat)
                        + "."@,
                    afterwards: Afterwards::Nothing,
                },
            )
        },
        app.ops_selected is None || app.ops_selected->0 >= app.ops.len() ==> app.leveling(dir) == (
            app,
            CommandView::Nothing,
        ),
{
}

/// A setting gets the value that is given, as it is given, to be saved and said.
pub proof fn law_a_setting_gets_its_value(app: AppView, key: Seq<char>, value: Seq<char>)
    ensures
        app.setting(key, value) == (
            AppView { properties: with_value(app.properties, key, value), ..app },
            CommandView::Save(
                SaveView {
                    file: DataFile::Properties,
                    status: "✓ "@ + key + " = "@ + value,
                    afterwards: Afterwards::Nothing,
                },
            ),
        ),
{
}

/// Once a file is written, what was done is said. After a removal a selection
/// that is past the end goes to the last row, and to none where no row is left;
/// any other selection stays.
pub proof fn law_after_a_save(app: AppView, save: SaveView)
    requires
        app.whitelist.len() <= usize::MAX,
        app.ops.len() <= usize::MAX,
    ensures
        ({
            let next = app.after_save(save);
            let last = |len: nat, row: usize|
                if len == 0 {
                    None::<usize>
                } else if row < len {
                    Some(row)
                } else {
                    Some((len - 1) as usize)
                };
            &&& next == AppView {
                status: save.status,
                whitelist_selected: next.whitelist_selected,
                ops_selected: next.ops_selected,
                ..app
            }
            &&& next.whitelist_selected == if save.afterwards is Reselect && save.file is Whitelist
                && app.whitelist_selected is Some {
                last(app.whitelist.len(), app.whitelist_selected->0)
            } else {
                app.whitelist_selected
            }
            &&& next.ops_selected == if save.afterwards is Reselect && save.file is Ops
                && app.ops_selected is Some {
                last(app.ops.len(), app.ops_selected->0)
            } else {
                app.ops_selected
            }
        }),
{
}

// ---------- Keys ----------

/// What the keys do where no prompt is open, each on the screen that is shown.
pub proof fn law_keys_without_a_prompt(
    app: AppView,
    key: Key,
    next: AppView,
    command: CommandView,
)
    requires
        app.prompt is None,
        app.steps_to(Input::Key { key, pressed: true }, next, command),
    ensures
        key == Key::Esc || key == Key::Char('q') ==> next == app && command == CommandView::Quit,
        key == Key::Char('1') ==> next == (AppView { tab: TabId::Worlds, ..app }) && command
            == CommandView::Nothing,
        key == Key::Char('2') ==> next == (AppView { tab: TabId::Whitelist, ..app }) && command
            == CommandView::Nothing,
        key == Key::Char('3') ==> next == (AppView { tab: TabId::Ops, ..app }) && command
            == CommandView::Nothing,
        key == Key::Char('4') ==> next == (AppView { tab: TabId::Config, ..app }) && command
            == CommandView::Nothing,
        key == Key::Char('5') ==> next == (AppView { tab: TabId::Logs, ..app }) && command
            == CommandView::Nothing,
        key == Key::Tab ==> app.cycles_to(next, 1) && command == CommandView::Nothing,
        key == Key::BackTab ==> app.cycles_to(next, -1) && command == CommandView::Nothing,
        key == Key::Up ==> next == app.moved(-1) && command == CommandView::Nothing,
        key == Key::Down ==> next == app.moved(1) && command == CommandView::Nothing,
        key == Key::Char('r') ==> next == (AppView { status: "Refreshed."@, ..app }) && command
            == CommandView::Reload,
        key == Key::Enter && app.tab is Worlds ==> (next, command) == app.switching_world(),
        key == Key::Char('d') && app.tab is Whitelist ==> (next, command) == app.unlisting(),
        key == Key::Char('d') && app.tab is Ops ==> (next, command) == app.deopping(),
        key == Key::Left && app.tab is Ops ==> (next, command) == app.leveling(-1),
        key == Key::Right && app.tab is Ops ==> (next, command) == app.leveling(1),
        key == Key::Char('a') && app.tab is Whitelist ==> command == CommandView::Nothing && next
            == (AppView {
            prompt: Some(
                PromptView {
                    title: "Add to whitelist"@,
                    label: "player name"@,
                    buffer: ""@,
                    action: ActionView::AddWhitelist,
                },
            ),
            ..app
        }),
        key == Key::Char('a') && app.tab is Ops ==> command == CommandView::Nothing && next == (
        AppView {
            prompt: Some(
                PromptView {
                    title: "Op a player"@,
                    label: "player name"@,
                    buffer: ""@,
                    action: ActionView::AddOp,
                },
            ),
            ..app
        }),
        key == Key::Enter && app.tab is Config && app.config_selected is Some
            && app.config_selected->0 < app.properties.len() ==> command == CommandView::Nothing
            && next == (AppView {
            prompt: Some(
                PromptView {
                    title: "Edit "@ + app.properties[app.config_selected->0 as int].0,
                    label: "value"@,
                    buffer: app.properties[app.config_selected->0 as int].1,
                    action: ActionView::EditConfig(
                        app.properties[app.config_selected->0 as int].0,
                    ),
                },
            ),
            ..app
        }),
{
}

/// The keys that mean nothing on a screen where no prompt is open change nothing
/// and ask for nothing.
pub proof fn law_other_keys_do_nothing(
    app: AppView,
    key: Key,
    next: AppView,
    command: CommandView,
)
    requires
        app.prompt is None,
        app.steps_to(Input::Key { key, pressed: true }, next, command),
        match key {
            Key::Backspace | Key::Other => true,
            Key::Enter => app.tab is Whitelist || app.tab is Ops || app.tab is Logs || (app.tab
                is Config && (app.config_selected is None || app.config_selected->0
                >= app.properties.len())),
            Key::Left | Key::Right => !(app.tab is Ops),
            Key::Char('a') | Key::Char('d') => !(app.tab is Whitelist) && !(app.tab is Ops),
            Key::Char(c) => c != 'q' && c != 'r' && !('1' <= c <= '5'),
            _ => false,
        },
    ensures
        next == app,
        command == CommandView::Nothing,
{
}

/// What the keys do while a prompt is open: a character goes to the end of the
/// answer, Backspace takes the last one off, Escape gives up, Enter closes the
/// prompt and does what it is for with the answer; other keys do nothing.
pub proof fn law_keys_with_a_prompt(
    app: AppView,
    prompt: PromptView,
    key: Key,
    next: AppView,
    command: CommandView,
)
    requires
        app.prompt == Some(prompt),
        app.steps_to(Input::Key { key, pressed: true }, next, command),
    ensures
        ({
            let closed = AppView { prompt: None, ..app };
            match key {
                Key::Esc => next == (AppView { status: "Cancelled."@, ..closed }) && command
                    == CommandView::Nothing,
                Key::Enter => match prompt.action {
                    ActionView::AddWhitelist => (next, command) == closed.whitelisting(
                        prompt.buffer,
                    ),
                    ActionView::AddOp => (next, command) == closed.opping(prompt.buffer),
                    ActionView::EditConfig(setting) => (next, command) == closed.setting(
                        setting,
                        prompt.buffer,
                    ),
                },
                Key::Char(c) => command == CommandView::Nothing && next == (AppView {
                    prompt: Some(
                        PromptView { buffer: prompt.buffer + seq![c], ..prompt },
                    ),
                    ..app
                }),
                Key::Backspace => command == CommandView::Nothing && next == (AppView {
                    prompt: Some(
                        PromptView {
                            buffer: prompt.buffer.take(
                                if prompt.buffer.len() == 0 {
                                    0
                                } else {
                                    prompt.buffer.len() - 1
                                },
                            ),
                            ..prompt
                        },
                    ),
                    ..app
                }),
                _ => next == app && command == CommandView::Nothing,
            }
        }),
{
    if let Key::Char(c) = key {
        assert(prompt.buffer.push(c) =~= prompt.buffer + seq![c]);
    }
    if prompt.buffer.len() == 0 {
        assert(prompt.buffer.take(0) =~= prompt.buffer);
    } else {
        assert(prompt.buffer.take(prompt.buffer.len() - 1) =~= prompt.buffer.drop_last());
    }
}

/// While nothing comes, only the server's process is looked at; what is no key,
/// or no key pressed, does nothing.
pub proof fn law_input_that_is_no_key(
    app: AppView,
    input: Input,
    next: AppView,
    command: CommandView,
)
    requires
        app.steps_to(input, next, command),
        !(input matches Input::Key { key, pressed } && pressed),
    ensures
        command == CommandView::Nothing,
        input matches Input::Idle(processes) ==> next == (AppView {
            pid: running_pid(processes@),
            ..app
        }),
        !(input is Idle) ==> next == app,
{
}

} // verus!
