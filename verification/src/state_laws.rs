//! What holds of the state whatever is typed.

use crate::players::{file_entries, is_listed, is_operator, operators, players, OpView, PlayerView};
use crate::properties::{
    law_set_key_is_got, law_set_leaves_other_keys, place_of, value_of, with_value,
};
use crate::state::{
    chosen, stepped_level, wrapped, AppView, CommandView, DataFile, Input, Key, PromptView,
    SaveView, Snapshot, TabId, TAB_COUNT,
};
use crate::text::trimmed;
use crate::worlds::{
    is_world, law_current_world_comes_first, law_list_begins_with_the_current_world,
    law_one_ordering_only, shown_name, worlds_in,
};
use vstd::arithmetic::div_mod::{lemma_fundamental_div_mod, lemma_fundamental_div_mod_converse};
use vstd::prelude::*;

verus! {

// ---------- Selections and tabs ----------

/// Going `delta` rows on and `delta` rows back, round a list, ends where it
/// began.
proof fn lemma_wrapped_back(from: int, delta: int, len: int)
    requires
        0 <= from < len,
    ensures
        0 <= wrapped(from, delta, len) < len,
        wrapped(wrapped(from, delta, len), -delta, len) == from,
{
    let sum = from + delta;
    let turns = sum / len;
    lemma_fundamental_div_mod(sum, len);
    assert(sum - sum % len == turns * len) by (nonlinear_arith)
        requires
            sum == len * turns + sum % len,
    ;
    assert((-turns) * len == -(turns * len)) by (nonlinear_arith);
    lemma_fundamental_div_mod_converse(sum % len - delta, len, -turns, from);
}

/// Wherever the selection moves to, it is a row of the list.
pub proof fn law_selection_stays_in_the_list(app: AppView, delta: int)
    requires
        app.list_len(app.tab) > 0,
        app.list_len(app.tab) <= usize::MAX,
    ensures
        chosen(app.moved(delta).selected(app.tab), app.list_len(app.tab)),
{
    let from = match app.selected(app.tab) {
        Some(row) => row as int,
        None => 0,
    };
    let len = app.list_len(app.tab) as int;
    lemma_fundamental_div_mod(from + delta, len);
    assert(0 <= wrapped(from, delta, len) < len);
}

/// Moving the selection changes nothing but the selection of the screen that is
/// shown.
pub proof fn law_moving_is_only_moving(app: AppView, delta: int)
    ensures
        app.moved(delta) == app.with_selected(app.tab, app.moved(delta).selected(app.tab)),
{
}

/// A move is undone by the same move the other way.
pub proof fn law_moving_back_undoes_moving(app: AppView, delta: int)
    requires
        chosen(app.selected(app.tab), app.list_len(app.tab)),
        app.list_len(app.tab) <= usize::MAX,
    ensures
        app.moved(delta).moved(-delta) == app,
{
    lemma_wrapped_back(
        app.selected(app.tab)->0 as int,
        delta,
        app.list_len(app.tab) as int,
    );
}

/// The same number of screens on and back leads to where it began, as do as
/// many as there are screens.
pub proof fn law_tabs_go_round(app: AppView, there: AppView, back: AppView, dir: int)
    requires
        app.cycles_to(there, dir),
    ensures
        there.cycles_to(back, -dir) ==> back == app,
        dir == TAB_COUNT ==> there == app,
{
    lemma_wrapped_back(app.tab.place(), dir, TAB_COUNT as int);
    assert(forall|a: TabId, b: TabId| a.place() == b.place() ==> a == b);
    if dir == TAB_COUNT {
        lemma_fundamental_div_mod_converse(
            app.tab.place() + TAB_COUNT,
            TAB_COUNT as int,
            1,
            app.tab.place(),
        );
    }
}

// ---------- What is saved ----------

/// Whatever the terminal gives, the settings and the player lists change only
/// with a command to save them, and with a command to save one nothing of the
/// others changes.
pub proof fn law_changes_are_saved(
    app: AppView,
    input: Input,
    next: AppView,
    command: CommandView,
)
    requires
        app.steps_to(input, next, command),
    ensures
        next.properties != app.properties ==> command is Save && command->0.file
            == DataFile::Properties,
        next.whitelist != app.whitelist ==> command is Save && command->0.file
            == DataFile::Whitelist,
        next.ops != app.ops ==> command is Save && command->0.file == DataFile::Ops,
        next.server_dir == app.server_dir,
        next.worlds == app.worlds,
{
}

/// The end comes only with `q` or Escape, where no prompt is open, and with
/// these it comes.
pub proof fn law_quitting(app: AppView, input: Input, next: AppView, command: CommandView)
    requires
        app.steps_to(input, next, command),
    ensures
        command == CommandView::Quit <==> app.prompt is None && (input == (Input::Key {
            key: Key::Esc,
            pressed: true,
        }) || input == (Input::Key { key: Key::Char('q'), pressed: true })),
        command == CommandView::Quit ==> next == app,
{
}

/// A key that is held or let go does nothing.
pub proof fn law_only_presses_count(app: AppView, key: Key, next: AppView, command: CommandView)
    requires
        app.steps_to(Input::Key { key, pressed: false }, next, command),
    ensures
        next == app,
        command == CommandView::Nothing,
{
}

/// Taking note of a written file changes no data.
pub proof fn law_noting_a_save_changes_no_data(app: AppView, save: SaveView)
    ensures
        app.after_save(save).properties == app.properties,
        app.after_save(save).whitelist == app.whitelist,
        app.after_save(save).ops == app.ops,
        app.after_save(save).worlds == app.worlds,
        app.after_save(save).tab == app.tab,
        app.after_save(save).prompt == app.prompt,
        app.after_save(save).status == save.status,
{
}

// ---------- Prompts ----------

/// Escape leaves a prompt with nothing changed but what is shown, and nothing
/// to save.
pub proof fn law_escape_cancels(app: AppView, prompt: PromptView)
    requires
        app.prompt == Some(prompt),
    ensures
        app.answered(prompt, Key::Esc).0 == (AppView {
            prompt: None,
            status: "Cancelled."@,
            ..app
        }),
        app.answered(prompt, Key::Esc).1 == CommandView::Nothing,
{
}

/// A character that is typed is taken back by Backspace.
pub proof fn law_backspace_takes_back(app: AppView, prompt: PromptView, c: char)
    requires
        app.prompt == Some(prompt),
    ensures
        app.answered(prompt, Key::Char(c)).0.prompt is Some,
        app.answered(prompt, Key::Char(c)).0.answered(
            app.answered(prompt, Key::Char(c)).0.prompt->0,
            Key::Backspace,
        ) == (app, CommandView::Nothing),
{
    let typed = prompt.buffer.push(c);
    assert(typed.drop_last() =~= prompt.buffer);
}

/// While a prompt is open, no key leads to another screen or row, or to the
/// end; only Enter and Escape close it.
pub proof fn law_prompt_holds_the_keys(app: AppView, prompt: PromptView, key: Key)
    requires
        app.prompt == Some(prompt),
    ensures
        app.answered(prompt, key).0.tab == app.tab,
        forall|tab: TabId| #[trigger]
            app.answered(prompt, key).0.selected(tab) == app.selected(tab),
        app.answered(prompt, key).1 != CommandView::Quit,
        app.answered(prompt, key).0.prompt is None <==> key == Key::Enter || key == Key::Esc,
{
}

/// Opening the prompt for a setting and confirming it at once leaves the
/// settings as they are, where the setting's key stands once, or first, in the
/// row that is selected.
pub proof fn law_confirming_a_value_keeps_it(app: AppView)
    requires
        app.tab == TabId::Config,
        app.prompt is None,
        chosen(app.config_selected, app.properties.len()),
        place_of(app.properties, app.properties[app.config_selected->0 as int].0)
            == app.config_selected->0,
    ensures
        app.entered().0.prompt is Some,
        app.entered().0.answered(app.entered().0.prompt->0, Key::Enter).0 == app,
{
    let row = app.config_selected->0 as int;
    let (key, value) = app.properties[row];
    assert(with_value(app.properties, key, value) =~= app.properties);
}

// ---------- Worlds ----------

/// While the server runs, choosing a world is refused: nothing but what is shown
/// changes.
pub proof fn law_no_switch_while_running(app: AppView)
    requires
        app.pid is Some,
    ensures
        app.switching_world() == (
            app.saying("✗ Stop the server first (it's running)."@),
            CommandView::Nothing,
        ),
{
}

/// Once a world is chosen, it is the one that the server is set to; the other
/// settings are as they were.
pub proof fn law_chosen_world_is_current(app: AppView, key: Seq<char>)
    requires
        app.pid is None,
        chosen(app.worlds_selected, app.worlds.len()),
        !app.worlds[app.worlds_selected->0 as int].is_current,
    ensures
        app.switching_world().1 is Save,
        app.switching_world().0.current_level() == app.worlds[app.worlds_selected->0 as int].name,
        key != "level-name"@ ==> value_of(app.switching_world().0.properties, key) == value_of(
            app.properties,
            key,
        ),
{
    let name = app.worlds[app.worlds_selected->0 as int].name;
    law_set_key_is_got(app.properties, "level-name"@, name);
    if key != "level-name"@ {
        law_set_leaves_other_keys(app.properties, "level-name"@, name, key);
    }
}

/// A state that is loaded anew marks the world that the server is set to, and
/// lists it first.
pub proof fn law_reload_marks_the_current_world(app: AppView, next: AppView, snapshot: Snapshot)
    requires
        app.reloads_to(next, snapshot),
    ensures
        next.current_level() == app.current_level(),
        forall|i: int|
            0 <= i < next.worlds.len() ==> (#[trigger] next.worlds[i]).is_current == (
            next.worlds[i].name == app.current_level()),
        forall|i: int, j: int|
            0 <= i < j < next.worlds.len() && (#[trigger] next.worlds[j]).is_current ==> (
            #[trigger] next.worlds[i]).is_current,
{
    law_current_world_comes_first(next.worlds, snapshot.found@, app.current_level());
}

/// A world that was chosen is the first of the list once the state is loaded
/// anew, and is marked, where it is still found.
pub proof fn law_chosen_world_comes_first(
    app: AppView,
    next: AppView,
    snapshot: Snapshot,
    i: int,
)
    requires
        app.pid is None,
        chosen(app.worlds_selected, app.worlds.len()),
        !app.worlds[app.worlds_selected->0 as int].is_current,
        app.switching_world().0.reloads_to(next, snapshot),
        0 <= i < snapshot.found@.len(),
        is_world(snapshot.found@[i]),
        shown_name(snapshot.found@[i]) == app.worlds[app.worlds_selected->0 as int].name,
    ensures
        next.worlds.len() > 0,
        next.worlds[0].is_current,
        next.worlds[0].name == app.worlds[app.worlds_selected->0 as int].name,
{
    let name = app.worlds[app.worlds_selected->0 as int].name;
    law_chosen_world_is_current(app, name);
    law_list_begins_with_the_current_world(next.worlds, snapshot.found@, name, i);
}

/// Loading the same again changes nothing.
pub proof fn law_reload_is_settled(
    app: AppView,
    once: AppView,
    twice: AppView,
    snapshot: Snapshot,
)
    requires
        app.reloads_to(once, snapshot),
        once.reloads_to(twice, snapshot),
    ensures
        twice == once,
{
    law_one_ordering_only(
        once.worlds,
        twice.worlds,
        worlds_in(snapshot.found@, app.current_level()),
    );
}

// ---------- Players ----------

/// Where the player files decode to the lists that were saved, loading the state
/// anew leaves every player as they were, in the same order.
pub proof fn law_reload_keeps_who_was_saved(app: AppView, next: AppView, snapshot: Snapshot)
    requires
        app.reloads_to(next, snapshot),
        players(file_entries(snapshot.whitelist)) == app.whitelist,
        operators(file_entries(snapshot.ops)) == app.ops,
    ensures
        next.whitelist == app.whitelist,
        next.ops == app.ops,
{
}

/// No name is on the whitelist twice.
pub open spec fn listed_once(list: Seq<PlayerView>) -> bool {
    forall|i: int, j: int|
        0 <= i < j < list.len() ==> (#[trigger] list[i]).name != (#[trigger] list[j]).name
}

/// No name is among the operators twice.
pub open spec fn opped_once(list: Seq<OpView>) -> bool {
    forall|i: int, j: int|
        0 <= i < j < list.len() ==> (#[trigger] list[i]).name != (#[trigger] list[j]).name
}

/// No key puts a name on a list that has it.
pub proof fn law_no_name_twice(app: AppView, input: Input, next: AppView, command: CommandView)
    requires
        app.steps_to(input, next, command),
    ensures
        listed_once(app.whitelist) ==> listed_once(next.whitelist),
        opped_once(app.ops) ==> opped_once(next.ops),
{
}

/// Who is put on the whitelist is on it, and putting them on it again changes
/// no list and saves nothing.
pub proof fn law_whitelisting_twice(app: AppView, typed: Seq<char>)
    requires
        trimmed(typed).len() > 0,
    ensures
        is_listed(app.whitelisting(typed).0.whitelist, trimmed(typed)),
        app.whitelisting(typed).0.whitelisting(typed).0.whitelist
            == app.whitelisting(typed).0.whitelist,
        app.whitelisting(typed).0.whitelisting(typed).1 == CommandView::Nothing,
{
    let name = trimmed(typed);
    let once = app.whitelisting(typed).0;
    if !is_listed(app.whitelist, name) {
        assert(once.whitelist[app.whitelist.len() as int].name == name);
    }
    assert(is_listed(once.whitelist, name));
}

/// Who is made an operator is one, and making them one again changes no list
/// and saves nothing.
pub proof fn law_opping_twice(app: AppView, typed: Seq<char>)
    requires
        trimmed(typed).len() > 0,
    ensures
        is_operator(app.opping(typed).0.ops, trimmed(typed)),
        app.opping(typed).0.opping(typed).0.ops == app.opping(typed).0.ops,
        app.opping(typed).0.opping(typed).1 == CommandView::Nothing,
{
    let name = trimmed(typed);
    let once = app.opping(typed).0;
    if !is_operator(app.ops, name) {
        assert(once.ops[app.ops.len() as int].name == name);
    }
    assert(is_operator(once.ops, name));
}

/// Taking the player that was just put on the whitelist off it again leaves
/// the list as it was.
pub proof fn law_unlisting_undoes_whitelisting(app: AppView, typed: Seq<char>)
    requires
        app.whitelisting(typed).1 is Save,
        app.whitelist.len() <= usize::MAX,
    ensures
        app.whitelisting(typed).0.with_selected(
            TabId::Whitelist,
            Some(app.whitelist.len() as usize),
        ).unlisting().0.whitelist == app.whitelist,
{
    let added = app.whitelisting(typed).0.whitelist;
    assert(added.remove(app.whitelist.len() as int) =~= app.whitelist);
}

/// Taking the operator that was just made off the list again leaves it as it
/// was.
pub proof fn law_deopping_undoes_opping(app: AppView, typed: Seq<char>)
    requires
        app.opping(typed).1 is Save,
        app.ops.len() <= usize::MAX,
    ensures
        app.opping(typed).0.with_selected(
            TabId::Ops,
            Some(app.ops.len() as usize),
        ).deopping().0.ops == app.ops,
{
    let added = app.opping(typed).0.ops;
    assert(added.remove(app.ops.len() as int) =~= app.ops);
}

/// After a removal is saved, a row of the list is selected, or none where the
/// list is empty.
pub proof fn law_removal_keeps_a_selection(app: AppView)
    requires
        app.whitelist.len() <= usize::MAX,
        app.ops.len() <= usize::MAX,
    ensures
        app.unlisting().1 matches CommandView::Save(save) ==> {
            let after = app.unlisting().0.after_save(save);
            &&& after.whitelist.len() == app.whitelist.len() - 1
            &&& after.whitelist_selected is None <==> after.whitelist.len() == 0
            &&& after.whitelist.len() > 0 ==> chosen(
                after.whitelist_selected,
                after.whitelist.len(),
            )
        },
        app.deopping().1 matches CommandView::Save(save) ==> {
            let after = app.deopping().0.after_save(save);
            &&& after.ops.len() == app.ops.len() - 1
            &&& after.ops_selected is None <==> after.ops.len() == 0
            &&& after.ops.len() > 0 ==> chosen(after.ops_selected, after.ops.len())
        },
{
}

/// Whatever an operator's level was, a step leaves it from 1 to 4; between
/// these, a step back undoes it.
pub proof fn law_levels(level: u8, dir: int)
    ensures
        1 <= stepped_level(level, dir) <= 4,
        1 <= level <= 4 && 1 <= level + dir <= 4 ==> stepped_level(level, dir) == level + dir
            && stepped_level(stepped_level(level, dir), -dir) == level,
{
}

/// A change of level changes nothing else of any operator.
pub proof fn law_leveling_is_only_leveling(app: AppView, dir: int)
    ensures
        app.leveling(dir).0.ops.len() == app.ops.len(),
        forall|i: int|
            0 <= i < app.ops.len() ==> (#[trigger] app.leveling(dir).0.ops[i]) == (OpView {
                level: app.leveling(dir).0.ops[i].level,
                ..app.ops[i]
            }),
        forall|i: int|
            0 <= i < app.ops.len() && app.ops_selected != Some(i as usize)
                ==> #[trigger] app.leveling(dir).0.ops[i] == app.ops[i],
{
}

} // verus!
