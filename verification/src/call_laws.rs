//! What the functions give back, said of what they are given.

use crate::console::{
    captured, lossy_text, Backend, Console, ConsoleRole, Ending, Probe, Scrollback, Step, StepView,
    TmuxCommand,
};
use crate::clock::{pattern_text, rfc2822_text};
use crate::geometry::{centered_rect, Area};
use crate::json::{counters_text, json_text, Json, JsonTree};
use crate::key_laws::{
    law_the_selected_operator_goes, law_the_selected_operators_level_moves,
    law_the_selected_player_goes,
};
use crate::natfrp::{
    all_numbered, by_number, classify_ureq_error, created_tunnel_id, first_unnumbered, fmt_bytes,
    is_game_node, launcher_states, launcher_tunnels, node_label, parse_create_tunnel_id,
    parse_launcher_tunnels, parse_nodes, parse_tunnel_traffic, parse_tunnels, parse_user_info,
    public_address, redact_token, reply_done, reply_text, validate_tunnel_name, ApiRequest,
    ApiResult, Client, ErrorView, HttpFailure, LauncherClient, NatfrpError, Node, Payload,
    PayloadView, Reply, Tunnel, UserInfo,
};
use crate::players::{file_entries, operators, players, ListFile, OpEntry, WhitelistEntry};
use crate::processes::{server_running_pid, ProcessInfo};
use crate::properties::{
    get_property, read_properties, rendered, set_property, settings, storable, write_properties,
};
use crate::screen::{
    draw_config, draw_hints, draw_logs, draw_ops, draw_prompt, draw_status_bar, draw_tabs,
    draw_whitelist, draw_worlds, hints, op_row, player_row, prompt_rows, row_view, rows_view,
    setting_row, status_bar, tab_title, world_row, ListScreen, LogFile, PromptScreen, Span,
    TextScreen,
};
use crate::screen_laws::{law_rows_stand_as_the_entries, law_the_log_fills_its_room};
use crate::server_laws::{
    law_each_setting_is_a_line, law_first_server_process_counts, law_first_setting_counts,
    law_server_jars_are_seen, law_setting_changes_one_value, law_worlds_stand_by_name,
    runs_the_server,
};
use crate::service_laws::{
    is_state_name, is_word_code, law_addresses, law_an_entry_reports_its_state,
    law_counters_are_kept, law_labels, law_markers_count_wherever_they_stand, law_requests,
    law_statuses, law_the_first_other_name_is_told, law_the_list_may_be_wrapped,
    law_the_new_tunnels_id, law_tokens_show_four_characters, law_valid_names,
};
use crate::state::{
    ActionView, App, AppView, Command, CommandView, Input, InputPrompt, PromptAction, Save,
    SaveView, Snapshot, TabId,
};
use crate::text::{decimal, joined, lines, lower, number, trimmed, views};
use crate::uuid::{is_version_3_id, offline_id, offline_uuid, uuid_from_digest, uuid_text};
use crate::worlds::{
    dir_size, law_current_world_comes_first, law_list_has_what_was_found, scan_worlds, total,
    world_views, worlds_in, DirTree, FoundDir, WorldEntry,
};
use std::collections::HashMap;
use vstd::prelude::*;
use vstd::utf8::{decode_utf8, encode_utf8, valid_utf8};

verus! {

broadcast use vstd::std_specs::hash::group_hash_axioms;

// ---------- The server's directory ----------

/// The list of worlds has the current ones first, and among the others, as among
/// the current, none has a name that is greater than that of one after it; it has
/// every world that was found, and nothing else.
pub proof fn law_scan_worlds(
    found: &[FoundDir],
    current: &str,
    r: Vec<WorldEntry>,
    i: int,
    j: int,
)
    requires
        call_ensures(scan_worlds, (found, current), r),
        0 <= i < j < r@.len(),
    ensures
        r@[j].is_current ==> r@[i].is_current,
        r@[i].is_current <==> r@[i].name@ == current@,
        r@[i].is_current == r@[j].is_current ==> exists|k: int|
            0 <= k <= r@[i].name@.len() && k <= r@[j].name@.len() && #[trigger] r@[i].name@.take(k)
                == r@[j].name@.take(k) && (k == r@[i].name@.len() || (k < r@[j].name@.len()
                && r@[i].name@[k] < r@[j].name@[k])),
        world_views(r@).to_multiset() == worlds_in(found@, current@).to_multiset(),
{
    let list = world_views(r@);
    law_current_world_comes_first(list, found@, current@);
    law_list_has_what_was_found(list, worlds_in(found@, current@));
    assert(list[i] == r@[i]@ && list[j] == r@[j]@);
    if r@[i].is_current == r@[j].is_current {
        law_worlds_stand_by_name(list, found@, current@, i, j);
    }
}

/// The size of a directory is that of all files below it, where it can be
/// counted, and no number otherwise.
pub proof fn law_dir_size(tree: &DirTree, r: Option<u64>)
    requires
        call_ensures(dir_size, (tree,), r),
    ensures
        r is Some <==> total(*tree) <= u64::MAX,
        r is Some ==> r->0 == total(*tree),
{
}

/// The server is found running where a process in its directory has an argument
/// that ends in `.jar` with `paper`, `purpur` or `spigot` before that, whatever
/// else the argument says.
pub proof fn law_server_running_pid(
    processes: &[ProcessInfo],
    r: Option<u32>,
    i: int,
    j: int,
    x: Seq<char>,
    y: Seq<char>,
)
    requires
        call_ensures(server_running_pid, (processes,), r),
        0 <= i < processes@.len(),
        processes@[i].in_server_dir,
        0 <= j < processes@[i].cmd@.len(),
        ({
            let arg = processes@[i].cmd@[j]@;
            arg == x + "paper"@ + y + ".jar"@ || arg == x + "purpur"@ + y + ".jar"@ || arg == x
                + "spigot"@ + y + ".jar"@
        }),
    ensures
        r is Some,
{
    law_server_jars_are_seen(processes@, i, j, x, y);
}

/// The process that is found is the first that runs the server.
pub proof fn law_server_running_pid_is_the_first(
    processes: &[ProcessInfo],
    r: Option<u32>,
    n: int,
)
    requires
        call_ensures(server_running_pid, (processes,), r),
        0 <= n <= processes@.len(),
        forall|i: int| 0 <= i < n ==> !runs_the_server(#[trigger] processes@[i]),
        n < processes@.len() ==> runs_the_server(processes@[n]),
    ensures
        r == if n < processes@.len() {
            Some(processes@[n].pid)
        } else {
            None
        },
{
    law_first_server_process_counts(processes@, n);
}

/// What is written of settings that a file can hold is read as those settings:
/// the same keys and values in the same order.
pub proof fn law_read_after_write(
    props: &[(String, String)],
    now: &crate::clock::LocalTime,
    text: String,
    raw: &str,
    r: Vec<(String, String)>,
)
    requires
        call_ensures(write_properties, (props, now), text),
        call_ensures(read_properties, (raw,), r),
        raw@ == text@,
        storable(settings(props@)),
    ensures
        r@.len() == props@.len(),
        forall|i: int|
            0 <= i < props@.len() ==> (#[trigger] r@[i]).0@ == props@[i].0@ && r@[i].1@
                == props@[i].1@,
{
    assert(settings(r@) == settings(props@));
    assert forall|i: int| 0 <= i < props@.len() implies (#[trigger] r@[i]).0@ == props@[i].0@
        && r@[i].1@ == props@[i].1@ by {
        assert(settings(r@)[i] == settings(props@)[i]);
    }
}

/// The settings file begins with a comment and the time that it was written at,
/// on a line of its own.
pub proof fn law_written_files_are_dated(
    props: &[(String, String)],
    now: &crate::clock::LocalTime,
    text: String,
)
    requires
        call_ensures(write_properties, (props, now), text),
    ensures
        ("#Minecraft server properties\n#"@ + rfc2822_text(now.at(), now.east())
            + "\n"@).is_prefix_of(text@),
{
    let stamp = rfc2822_text(now.at(), now.east());
    let head = "#Minecraft server properties\n#"@ + stamp + "\n"@;
    law_each_setting_is_a_line(stamp, Seq::empty(), Seq::empty(), Seq::empty());
    assert(text@ =~= rendered(stamp, Seq::empty()) + crate::properties::entries(settings(props@)));
    assert(text@.subrange(0, head.len() as int) =~= head);
}

/// A moment is shown by year, month and day, hour and minute.
pub proof fn law_moments_are_shown_to_the_minute(t: &crate::clock::LocalTime, r: String)
    requires
        call_ensures(crate::clock::LocalTime::to_minute, (t,), r),
    ensures
        r@ == pattern_text(t.at(), t.east(), "%Y-%m-%d %H:%M"@),
{
}

/// A key is got from the first setting that it stands in.
pub proof fn law_get_property(
    props: &[(String, String)],
    key: &str,
    r: Option<&str>,
    n: int,
)
    requires
        call_ensures(get_property, (props, key), r),
        0 <= n <= props@.len(),
        forall|i: int| 0 <= i < n ==> (#[trigger] props@[i]).0@ != key@,
        n < props@.len() ==> props@[n].0@ == key@,
    ensures
        r is Some <==> n < props@.len(),
        r is Some ==> r->0@ == props@[n].1@,
{
    let all = settings(props@);
    assert forall|i: int| 0 <= i < n implies (#[trigger] all[i]).0 != key@ by {
        assert(all[i].0 == props@[i].0@);
    }
    law_first_setting_counts(all, key@, n);
}

/// A key is set in the first setting that it stands in, or after all others; no
/// other setting changes.
pub proof fn law_set_property(
    props: &mut Vec<(String, String)>,
    key: &str,
    value: &str,
    n: int,
)
    requires
        call_ensures(set_property, (props, key, value), ()),
        0 <= n <= old(props)@.len(),
        forall|i: int| 0 <= i < n ==> (#[trigger] old(props)@[i]).0@ != key@,
        n < old(props)@.len() ==> old(props)@[n].0@ == key@,
    ensures
        final(props)@.len() == if n < old(props)@.len() {
            old(props)@.len()
        } else {
            old(props)@.len() + 1
        },
        final(props)@[n].0@ == key@,
        final(props)@[n].1@ == value@,
        forall|i: int|
            0 <= i < old(props)@.len() && i != n ==> (#[trigger] final(props)@[i]).0@
                == old(props)@[i].0@ && final(props)@[i].1@ == old(props)@[i].1@,
{
    let before = settings(old(props)@);
    let after = settings(final(props)@);
    assert forall|i: int| 0 <= i < n implies (#[trigger] before[i]).0 != key@ by {
        assert(before[i].0 == old(props)@[i].0@);
    }
    law_setting_changes_one_value(before, key@, value@, n);
    assert(after[n] == (key@, value@));
    assert forall|i: int| 0 <= i < old(props)@.len() && i != n implies (
    #[trigger] final(props)@[i]).0@ == old(props)@[i].0@ && final(props)@[i].1@
        == old(props)@[i].1@ by {
        assert(after[i] == before[i]);
    }
}

/// A player file gives the players that it lists; one that is missing or
/// malformed gives none, and one that cannot be read gives the reason.
pub proof fn law_read_whitelist(
    file: ListFile<WhitelistEntry>,
    r: Result<Vec<WhitelistEntry>, String>,
)
    requires
        call_ensures(crate::players::read_whitelist, (file,), r),
    ensures
        file matches ListFile::Entries(list) ==> r is Ok && r->Ok_0@ == list@,
        file is Missing || file is Malformed ==> r is Ok && r->Ok_0@.len() == 0,
        file matches ListFile::Unreadable(why) ==> r == Err::<Vec<WhitelistEntry>, String>(why),
{
}

/// An operator file gives the operators that it lists; one that is missing or
/// malformed gives none, and one that cannot be read gives the reason.
pub proof fn law_read_ops(file: ListFile<OpEntry>, r: Result<Vec<OpEntry>, String>)
    requires
        call_ensures(crate::players::read_ops, (file,), r),
    ensures
        file matches ListFile::Entries(list) ==> r is Ok && r->Ok_0@ == list@,
        file is Missing || file is Malformed ==> r is Ok && r->Ok_0@.len() == 0,
        file matches ListFile::Unreadable(why) ==> r == Err::<Vec<OpEntry>, String>(why),
{
}

/// An offline player's id is a version 3 id; one name has one id.
pub proof fn law_offline_uuid(a: &str, b: &str, r: String, s: String)
    requires
        call_ensures(offline_uuid, (a,), r),
        call_ensures(offline_uuid, (b,), s),
    ensures
        a@ == b@ ==> r@ == s@,
        is_version_3_id(r@),
        r@ == offline_id(a@),
{
}

/// The id that is made of a digest is the one that spells it.
pub proof fn law_uuid_from_digest(digest: [u8; 16], r: String)
    requires
        call_ensures(uuid_from_digest, (digest,), r),
    ensures
        r@ == uuid_text(digest@),
        r@.len() == 36,
{
    crate::uuid::law_uuid_form(digest@);
}

// ---------- The state ----------

/// A new state has what was read, on the screen of worlds, with the first row of
/// each list selected that has one.
pub proof fn law_new_state(
    dir: &str,
    properties: Vec<(String, String)>,
    snapshot: Snapshot,
    r: App,
)
    requires
        call_ensures(App::new, (dir, properties, snapshot), r),
    ensures
        r.server_dir@ == dir@,
        r.properties == properties,
        r@.whitelist == players(file_entries(snapshot.whitelist)),
        r@.ops == operators(file_entries(snapshot.ops)),
        r@.worlds.to_multiset() == worlds_in(
            snapshot.found@,
            r@.current_level(),
        ).to_multiset(),
        r.tab is Worlds,
        r.worlds_selected == if r.worlds@.len() > 0 {
            Some(0usize)
        } else {
            None
        },
        r.whitelist_selected == if r.whitelist@.len() > 0 {
            Some(0usize)
        } else {
            None
        },
        r.ops_selected == if r.ops@.len() > 0 {
            Some(0usize)
        } else {
            None
        },
        r.config_selected == if properties@.len() > 0 {
            Some(0usize)
        } else {
            None
        },
        r.status@ == "Ready."@,
        r.prompt is None,
{
    assert(r@.selected(TabId::Worlds) == r.worlds_selected);
    assert(r@.selected(TabId::Whitelist) == r.whitelist_selected);
    assert(r@.selected(TabId::Ops) == r.ops_selected);
    assert(r@.selected(TabId::Config) == r.config_selected);
    law_list_has_what_was_found(
        r@.worlds,
        worlds_in(snapshot.found@, r@.current_level()),
    );
}

/// Taking the selected player off the whitelist: those before stay, those after
/// move up by one, and the one that goes is named.
pub proof fn law_remove_whitelist(app: &mut App, r: Command, k: usize)
    requires
        call_ensures(App::remove_whitelist, (app,), r),
        old(app).whitelist_selected == Some(k),
        k < old(app).whitelist@.len(),
    ensures
        final(app).whitelist@.len() == old(app).whitelist@.len() - 1,
        forall|i: int|
            0 <= i < k ==> (#[trigger] final(app)@.whitelist[i]) == old(app)@.whitelist[i],
        forall|i: int|
            k <= i < final(app).whitelist@.len() ==> (#[trigger] final(app)@.whitelist[i])
                == old(app)@.whitelist[i + 1],
        r@ is Save,
        r@->0.status == "✓ Removed "@ + old(app).whitelist@[k as int].name@ + " from whitelist."@,
        r@->0.file is Whitelist,
{
    law_the_selected_player_goes(old(app)@, k);
    assert(old(app)@.whitelist[k as int] == old(app).whitelist@[k as int]@);
}

/// Taking the selected operator off the list: those before stay, those after move
/// up by one, and the one that goes is named.
pub proof fn law_remove_op(app: &mut App, r: Command, k: usize)
    requires
        call_ensures(App::remove_op, (app,), r),
        old(app).ops_selected == Some(k),
        k < old(app).ops@.len(),
    ensures
        final(app).ops@.len() == old(app).ops@.len() - 1,
        forall|i: int| 0 <= i < k ==> (#[trigger] final(app)@.ops[i]) == old(app)@.ops[i],
        forall|i: int|
            k <= i < final(app).ops@.len() ==> (#[trigger] final(app)@.ops[i]) == old(app)@.ops[i
                + 1],
        r@ is Save,
        r@->0.status == "✓ De-op'd "@ + old(app).ops@[k as int].name@ + "."@,
        r@->0.file is Ops,
{
    law_the_selected_operator_goes(old(app)@, k);
    assert(old(app)@.ops[k as int] == old(app).ops@[k as int]@);
}

/// Moving the selected operator's level: by one step within 1 to 4, and nobody
/// else's.
pub proof fn law_cycle_op_level(app: &mut App, dir: i8, r: Command, k: usize)
    requires
        call_ensures(App::cycle_op_level, (app, dir), r),
        old(app).ops_selected == Some(k),
        k < old(app).ops@.len(),
    ensures
        final(app)@.ops.len() == old(app)@.ops.len(),
        1 <= final(app)@.ops[k as int].level <= 4,
        1 <= old(app)@.ops[k as int].level + dir <= 4 ==> final(app)@.ops[k as int].level
            == old(app)@.ops[k as int].level + dir,
        forall|i: int|
            0 <= i < old(app)@.ops.len() && i != k ==> (#[trigger] final(app)@.ops[i])
                == old(app)@.ops[i],
        r@ is Save,
{
    law_the_selected_operators_level_moves(old(app)@, k, dir as int);
}

/// The functions of the state do what the state's laws speak of.
pub proof fn law_state_functions(
    app: &mut App,
    r: Command,
    typed: &str,
    key: &str,
    value: &str,
)
    ensures
        call_ensures(App::switch_world, (app,), r) ==> (final(app)@, r@)
            == old(app)@.switching_world(),
        call_ensures(App::add_whitelist, (app, typed), r) ==> (final(app)@, r@)
            == old(app)@.whitelisting(typed@),
        call_ensures(App::add_op, (app, typed), r) ==> (final(app)@, r@)
            == old(app)@.opping(typed@),
        call_ensures(App::remove_whitelist, (app,), r) ==> (final(app)@, r@)
            == old(app)@.unlisting(),
        call_ensures(App::remove_op, (app,), r) ==> (final(app)@, r@)
            == old(app)@.deopping(),
        call_ensures(App::save_config_value, (app, key, value), r) ==> (final(app)@, r@)
            == old(app)@.setting(key@, value@),
{
}

/// Moving, choosing a screen, noting a save and loading anew do what the state's
/// laws speak of.
pub proof fn law_other_state_functions(
    app: &mut App,
    delta: isize,
    tab: TabId,
    row: Option<usize>,
    save: Save,
    reload: bool,
    snapshot: Snapshot,
)
    ensures
        call_ensures(App::move_selection, (app, delta), ()) ==> final(app)@ == old(app)@.moved(
            delta as int,
        ),
        call_ensures(App::cycle_tab, (app, delta), ()) ==> old(app)@.cycles_to(
            final(app)@,
            delta as int,
        ),
        call_ensures(App::switch_tab, (app, tab), ()) ==> final(app)@ == (AppView {
            tab,
            ..old(app)@
        }),
        call_ensures(App::select, (app, tab, row), ()) ==> final(app)@ == old(app)@.with_selected(
            tab,
            row,
        ),
        call_ensures(App::saved, (app, save), reload) ==> final(app)@ == old(app)@.after_save(save@)
            && (reload <==> save.afterwards is Reload),
        call_ensures(App::refresh_all, (app, snapshot), ()) ==> old(app)@.reloads_to(
            final(app)@,
            snapshot,
        ),
{
}

/// What is asked of the state is told as it is.
pub proof fn law_state_questions(app: &App, tab: TabId, n: usize, row: Option<usize>, level: &str)
    ensures
        call_ensures(App::list_len_for, (app, tab), n) ==> n == app@.list_len(tab),
        call_ensures(App::list_state_for, (app, tab), row) ==> row == app@.selected(tab),
        call_ensures(App::current_level, (app,), level) ==> level@ == app@.current_level(),
{
}

/// The laws of the state speak of all that the state holds, entry by entry.
pub proof fn law_the_state_as_text(app: App, i: int)
    ensures
        app@.server_dir == app.server_dir@,
        app@.pid == app.pid,
        app@.tab == app.tab,
        app@.worlds_selected == app.worlds_selected,
        app@.whitelist_selected == app.whitelist_selected,
        app@.ops_selected == app.ops_selected,
        app@.config_selected == app.config_selected,
        app@.status == app.status@,
        app@.prompt is Some <==> app.prompt is Some,
        app.prompt is Some ==> app@.prompt->0.title == app.prompt->0.title@ && app@.prompt->0.label
            == app.prompt->0.label@ && app@.prompt->0.buffer == app.prompt->0.buffer@
            && app@.prompt->0.action == match app.prompt->0.action {
            PromptAction::AddWhitelist => ActionView::AddWhitelist,
            PromptAction::AddOp => ActionView::AddOp,
            PromptAction::EditConfig(key) => ActionView::EditConfig(key@),
        },
        app@.properties.len() == app.properties@.len(),
        0 <= i < app.properties@.len() ==> app@.properties[i] == (
            app.properties@[i].0@,
            app.properties@[i].1@,
        ),
        app@.whitelist.len() == app.whitelist@.len(),
        0 <= i < app.whitelist@.len() ==> app@.whitelist[i].uuid == app.whitelist@[i].uuid@
            && app@.whitelist[i].name == app.whitelist@[i].name@,
        app@.ops.len() == app.ops@.len(),
        0 <= i < app.ops@.len() ==> app@.ops[i].uuid == app.ops@[i].uuid@ && app@.ops[i].name
            == app.ops@[i].name@ && app@.ops[i].level == app.ops@[i].level
            && app@.ops[i].bypasses_player_limit == app.ops@[i].bypasses_player_limit,
        app@.worlds.len() == app.worlds@.len(),
        0 <= i < app.worlds@.len() ==> app@.worlds[i].name == app.worlds@[i].name@
            && app@.worlds[i].path == app.worlds@[i].path@ && app@.worlds[i].size_bytes
            == app.worlds@[i].size_bytes && app@.worlds[i].last_modified
            == app.worlds@[i].last_modified && app@.worlds[i].is_current
            == app.worlds@[i].is_current,
{
}

/// The laws of the commands, the screens and the service speak of all that these
/// hold.
pub proof fn law_other_values_as_text(
    save: Save,
    row: Vec<Span>,
    i: int,
    request: ApiRequest,
    fields: Vec<(String, String)>,
    error: String,
)
    ensures
        Command::Save(save)@ == CommandView::Save(
            SaveView { file: save.file, status: save.status@, afterwards: save.afterwards },
        ),
        Command::Nothing@ == CommandView::Nothing,
        Command::Quit@ == CommandView::Quit,
        Command::Reload@ == CommandView::Reload,
        row_view(row@).len() == row@.len(),
        0 <= i < row@.len() ==> row_view(row@)[i].text == row@[i].text@ && row_view(row@)[i].tone
            == row@[i].tone,
        request@.url == request.url@,
        request@.authorization == request.authorization@,
        request.payload == Payload::PostForm(fields) ==> request@.payload is PostForm
            && request@.payload->0.len() == fields@.len() && (0 <= i < fields@.len()
            ==> request@.payload->0[i] == (fields@[i].0@, fields@[i].1@)),
        request.payload is Get <==> request@.payload is Get,
        request.payload is PostEmpty <==> request@.payload is PostEmpty,
        NatfrpError::Network(error)@ == ErrorView::Network(error@),
        NatfrpError::Parse(error)@ == ErrorView::Parse(error@),
{
}

/// A step is what the laws of the keys speak of.
pub proof fn law_step(app: &mut App, input: &Input, r: Command)
    requires
        call_ensures(App::step, (app, input), r),
    ensures
        old(app)@.steps_to(*input, final(app)@, r@),
{
}

// ---------- The screens ----------

/// The log screen shows the last lines of the log, as many as the height less
/// two, or all where there are no more.
pub proof fn law_draw_logs(path: &str, text: String, log: &LogFile, height: u16, r: TextScreen)
    requires
        call_ensures(draw_logs, (path, log, height), r),
        *log == LogFile::Text(text),
        height >= 3,
    ensures
        ({
            let all = lines(text@);
            let count = if all.len() < height - 2 {
                all.len() as int
            } else {
                height - 2
            };
            r.body@ == joined(all.skip(all.len() - count), "\n"@)
        }),
        r.title@ == " Logs — tail of "@ + path@ + " "@,
{
    law_the_log_fills_its_room(text, height);
}

/// The lists show the row of each entry, in the place of the entry.
pub proof fn law_draw_lists(app: &App, r: ListScreen, i: int)
    ensures
        call_ensures(draw_worlds, (app,), r) ==> r.title@ == " Worlds (●=current) "@,
        call_ensures(draw_whitelist, (app,), r) ==> r.title@ == " Whitelist "@,
        call_ensures(draw_ops, (app,), r) ==> r.title@ == " Operators (←/→ change level) "@,
        call_ensures(draw_config, (app,), r) ==> r.title@
            == " server.properties (Enter = edit) "@,
        call_ensures(draw_worlds, (app,), r) ==> r.rows@.len() == app.worlds@.len() && (0 <= i
            < app.worlds@.len() ==> row_view(r.rows@[i]@) == world_row(app.worlds@[i]@)),
        call_ensures(draw_whitelist, (app,), r) ==> r.rows@.len() == app.whitelist@.len() && (0 <= i
            < app.whitelist@.len() ==> row_view(r.rows@[i]@) == player_row(app.whitelist@[i]@)),
        call_ensures(draw_ops, (app,), r) ==> r.rows@.len() == app.ops@.len() && (0 <= i
            < app.ops@.len() ==> row_view(r.rows@[i]@) == op_row(app.ops@[i]@)),
        call_ensures(draw_config, (app,), r) ==> r.rows@.len() == app.properties@.len() && (0 <= i
            < app.properties@.len() ==> row_view(r.rows@[i]@) == setting_row(
            (app.properties@[i].0@, app.properties@[i].1@),
        )),
{
    law_rows_stand_as_the_entries(app@, i);
    let shown = rows_view(r.rows@);
    assert(shown.len() == r.rows@.len());
    if 0 <= i < r.rows@.len() {
        assert(shown[i] == row_view(r.rows@[i]@));
    }
}

/// The bars, the tabs and the prompt show what the laws of the screens speak of.
pub proof fn law_draw_frame(
    app: &App,
    row: Vec<Span>,
    tabs: (Vec<String>, usize),
    tab: TabId,
    prompt: &InputPrompt,
    screen: PromptScreen,
)
    ensures
        call_ensures(draw_status_bar, (app,), row) ==> row_view(row@) == status_bar(app@),
        call_ensures(draw_hints, (app,), row) ==> row_view(row@) == hints(app@),
        call_ensures(draw_tabs, (app,), tabs) ==> tabs.0@.len() == 5 && tabs.0@[tab.place()]@
            == tab_title(tab) && tabs.1 == app.tab.place(),
        call_ensures(draw_prompt, (prompt,), screen) ==> screen.title@ == " "@ + prompt.title@
            + " "@ && rows_view(screen.rows@) == prompt_rows(prompt@),
{
    if call_ensures(draw_tabs, (app,), tabs) {
        assert(tabs.0@[tab.place()]@ == tab_title(tab));
    }
}

/// The prompt's area lies in the middle: as wide as its share of the whole, as
/// high as it is to be where there is room, with the same space on both sides, to
/// a cell.
pub proof fn law_centered_rect(w_pct: u16, h_lines: u16, area: Area, r: Area)
    requires
        call_ensures(centered_rect, (w_pct, h_lines, area), r),
        area.width * w_pct <= 65535,
        w_pct <= 100,
    ensures
        100 * r.width <= area.width * w_pct < 100 * r.width + 100,
        r.height == h_lines || r.height == area.height,
        r.height <= h_lines && r.height <= area.height,
        r.x >= area.x && r.x + r.width <= area.x + area.width,
        r.y >= area.y && r.y + r.height <= area.y + area.height,
        0 <= (area.x + area.width - r.x - r.width) - (r.x - area.x) <= 1,
        0 <= (area.y + area.height - r.y - r.height) - (r.y - area.y) <= 1,
{
    crate::geometry::law_centered_lies_within(area, w_pct, h_lines);
}

// ---------- The tunnel service ----------

/// The launcher's answer, as a list or as one in the field `tunnels`, reports for
/// the last entry just the state that it tells, on or off, whichever of the four
/// names the state has.
pub proof fn law_launcher_tunnels(
    j: &Json,
    r: HashMap<u64, bool>,
    items: Seq<JsonTree>,
    fields: Seq<(Seq<char>, JsonTree)>,
    i: int,
    k: int,
    id: u64,
    on: bool,
    wrapped: bool,
)
    requires
        call_ensures(launcher_tunnels, (j,), r),
        !wrapped ==> j@ == JsonTree::Array(items.push(JsonTree::Object(fields))),
        wrapped ==> j@ == JsonTree::Object(
            seq![("tunnels"@, JsonTree::Array(items.push(JsonTree::Object(fields))))],
        ),
        0 <= i < fields.len(),
        0 <= k < fields.len(),
        fields[i].0 == "id"@ || fields[i].0 == "Id"@,
        fields[i].1 == JsonTree::Number(Some(id)),
        forall|l: int|
            0 <= l < fields.len() && l != i ==> (#[trigger] fields[l]).0 != "id"@ && fields[l].0
                != "Id"@,
        is_state_name(fields[k].0),
        fields[k].1 == JsonTree::Bool(on),
        forall|l: int| 0 <= l < fields.len() && l != k ==> !is_state_name((#[trigger] fields[l]).0),
    ensures
        r@.contains_key(id),
        r@[id] == on,
{
    law_an_entry_reports_its_state(items, fields, i, k, id, on);
    if wrapped {
        let all = items.push(JsonTree::Object(fields));
        law_the_list_may_be_wrapped(
            seq![("tunnels"@, JsonTree::Array(all))],
            0,
            all,
            Seq::empty(),
            None,
            false,
        );
    }
}

/// The id of a new tunnel is the answer's `id`, where that is a number.
pub proof fn law_created_tunnel_id(j: &Json, r: Option<u64>, id: u64)
    requires
        call_ensures(created_tunnel_id, (j,), r),
        j@.get("id"@) == Some(JsonTree::Number(Some(id))),
    ensures
        r == Some(id),
{
    law_the_new_tunnels_id(j@, j@, id);
}

/// A name is taken exactly where it has one to 32 characters, each a digit, an
/// ASCII letter or an underscore.
pub proof fn law_validate_tunnel_name(name: &str, r: bool)
    requires
        call_ensures(validate_tunnel_name, (name,), r),
    ensures
        r <==> 1 <= name@.len() <= 32 && forall|i: int|
            0 <= i < name@.len() ==> is_word_code(#[trigger] name@[i]),
{
    law_valid_names(name@);
}

/// A node is for games where a marker stands in its description, wherever.
pub proof fn law_is_game_node(
    node: &Node,
    r: bool,
    x: Seq<char>,
    marker: Seq<char>,
    y: Seq<char>,
)
    requires
        call_ensures(is_game_node, (node,), r),
        node.description@ == x + marker + y,
        lower(marker) == "mc"@ || lower(marker) == "game"@ || lower(marker) == "minecraft"@
            || marker == "游戏"@,
    ensures
        r,
{
    law_markers_count_wherever_they_stand(x, marker, y);
}

/// An address is host, colon and port; a label is the id and, where it is known,
/// the name.
pub proof fn law_addresses_and_labels(
    t: &Tunnel,
    id: u64,
    nodes: &HashMap<u64, Node>,
    a: Option<String>,
    l: String,
)
    requires
        call_ensures(public_address, (t, nodes), a),
        call_ensures(node_label, (id, nodes), l),
    ensures
        a is Some <==> nodes@.contains_key(t.node) && nodes@[t.node].host@.len() > 0
            && t.remote@.len() > 0,
        a is Some ==> a->0@ == nodes@[t.node].host@ + ":"@ + t.remote@,
        nodes@.contains_key(id) ==> l@ == "#"@ + decimal(id as nat) + " "@ + nodes@[id].name@,
        !nodes@.contains_key(id) ==> l@ == "#"@ + decimal(id as nat),
{
    law_addresses(*t, nodes@);
    law_labels(id, nodes@);
}

/// A token is shown by its first four characters and four stars; a byte count as
/// the tunnel list's laws say.
pub proof fn law_shown_texts(token: &str, n: u64, shown: String, size: String)
    requires
        call_ensures(redact_token, (token,), shown),
        call_ensures(fmt_bytes, (n,), size),
    ensures
        token@.len() >= 4 ==> shown@ == seq![token@[0], token@[1], token@[2], token@[3]] + "****"@,
        token@.len() < 4 ==> shown@ == token@ + "****"@,
        size@ == crate::natfrp::traffic_size(n as nat),
{
    law_tokens_show_four_characters(token@);
}

/// A world's size is shown as the world list's laws say.
pub proof fn law_shown_world_sizes(n: u64, size: String)
    requires
        call_ensures(crate::sizes::fmt_bytes, (n,), size),
    ensures
        size@ == crate::sizes::list_size(n as nat),
{
}

/// A failure is told by its status or its reason.
pub proof fn law_failures(code: u16, why: String, a: NatfrpError, b: NatfrpError)
    requires
        call_ensures(classify_ureq_error, (HttpFailure::Status(code),), a),
        call_ensures(classify_ureq_error, (HttpFailure::Transport(why),), b),
    ensures
        a@ == if code == 401 {
            ErrorView::Unauthorized
        } else if code == 403 {
            ErrorView::Forbidden
        } else if 500 <= code < 600 {
            ErrorView::ServerError(code)
        } else {
            ErrorView::HttpError(code)
        },
        b@ == ErrorView::Network(why@),
{
    law_statuses(code);
}

/// A reply is its body, whole, where it is a success, and an error otherwise; an
/// order is carried out exactly where the reply is a success.
pub proof fn law_reply_texts(body: String, reply: Reply, r: ApiResult<String>, d: ApiResult<()>)
    requires
        call_ensures(reply_text, (reply,), r),
        call_ensures(reply_done, (reply,), d),
    ensures
        reply == Reply::Body(body) ==> r is Ok && r->Ok_0@ == body@ && d is Ok,
        !(reply is Body) ==> r is Err && d is Err && r->Err_0@ == d->Err_0@,
{
}

/// The requests of the service: where each goes, with what, and under which
/// token.
pub proof fn law_service_requests(
    client: &Client,
    r: ApiRequest,
    id: u64,
    node: u64,
    name: &str,
    port: u16,
)
    ensures
        call_ensures(Client::user_info, (client,), r) ==> r.url@
            == "https://api.natfrp.com/v4"@ + "/user/info"@ && r.payload is Get,
        call_ensures(Client::tunnels, (client,), r) ==> r.url@
            == "https://api.natfrp.com/v4"@ + "/tunnels"@ && r.payload is Get,
        call_ensures(Client::nodes, (client,), r) ==> r.url@ == "https://api.natfrp.com/v4"@
            + "/nodes"@ && r.payload is Get,
        call_ensures(Client::tunnel_traffic, (client, id), r) ==> r.url@
            == "https://api.natfrp.com/v4"@ + ("/tunnel/traffic?id="@ + decimal(id as nat))
            && r.payload is Get,
        call_ensures(Client::create_tunnel, (client, name, node, port), r) ==> r.url@
            == "https://api.natfrp.com/v4"@ + "/tunnels"@ && r.payload@ == PayloadView::PostForm(
            seq![
                ("name"@, name@),
                ("type"@, "tcp"@),
                ("node"@, decimal(node as nat)),
                ("local_ip"@, "127.0.0.1"@),
                ("local_port"@, decimal(port as nat)),
            ],
        ),
        call_ensures(Client::migrate_tunnel, (client, id, node), r) ==> r.url@
            == "https://api.natfrp.com/v4"@ + "/tunnel/migrate"@ && r.payload@
            == PayloadView::PostForm(
            seq![("id"@, decimal(id as nat)), ("node"@, decimal(node as nat))],
        ),
        call_ensures(Client::user_info, (client,), r) || call_ensures(Client::tunnels, (client,), r)
            || call_ensures(Client::nodes, (client,), r) || call_ensures(
            Client::tunnel_traffic,
            (client, id),
            r,
        ) || call_ensures(Client::create_tunnel, (client, name, node, port), r) || call_ensures(
            Client::migrate_tunnel,
            (client, id, node),
            r,
        ) ==> r.authorization@ == "Bearer "@ + client.token@,
{
    assert(r@.url == r.url@ && r@.authorization == r.authorization@ && r@.payload == r.payload@);
    law_requests(client.token@, Seq::empty(), PayloadView::Get);
}

/// Tunnels are deleted in one request with all their ids, in order; for none
/// there is no request.
pub proof fn law_delete_tunnels(client: &Client, ids: &[u64], r: Option<ApiRequest>)
    requires
        call_ensures(Client::delete_tunnels, (client, ids), r),
    ensures
        r is Some <==> ids@.len() > 0,
        r is Some ==> {
            &&& r->0.url@ == "https://api.natfrp.com/v4"@ + "/tunnel/delete"@
            &&& r->0.authorization@ == "Bearer "@ + client.token@
            &&& r->0.payload@ == PayloadView::PostForm(
                seq![
                    (
                        "ids"@,
                        joined(
                            Seq::new(ids@.len(), |i: int| decimal(ids@[i] as nat)),
                            ","@,
                        ),
                    ),
                ],
            )
        },
{
    if r is Some {
        let request = r->0;
        assert(request@.url == request.url@ && request@.payload == request.payload@);
        assert(request@.authorization == request.authorization@);
        assert(crate::natfrp::decimals(ids@) =~= Seq::new(
            ids@.len(),
            |i: int| decimal(ids@[i] as nat),
        ));
    }
}

/// The requests of the launcher: where each goes, with what, and under which
/// password.
pub proof fn law_launcher_requests(client: &LauncherClient, r: ApiRequest, id: u64)
    ensures
        call_ensures(LauncherClient::tunnels_status, (client,), r) ==> r.url@
            == "https://127.0.0.1:7102"@ + "/api/tunnels"@ && r.payload is Get && r.authorization@
            == "Bearer "@ + client.password@,
        call_ensures(LauncherClient::enable, (client, id), r) ==> r.url@
            == "https://127.0.0.1:7102"@ + ("/api/tunnel/"@ + decimal(id as nat) + "/enable"@)
            && r.payload is PostEmpty && r.authorization@ == "Bearer "@ + client.password@,
        call_ensures(LauncherClient::disable, (client, id), r) ==> r.url@
            == "https://127.0.0.1:7102"@ + ("/api/tunnel/"@ + decimal(id as nat) + "/disable"@)
            && r.payload is PostEmpty && r.authorization@ == "Bearer "@ + client.password@,
{
    assert(r@.url == r.url@ && r@.authorization == r.authorization@ && r@.payload == r.payload@);
}

/// An answer that was decoded is handed on as it is; one that was not is a parse
/// error that names the question and the reason, whole.
pub proof fn law_decoded_answers(
    user: Result<UserInfo, String>,
    u: ApiResult<UserInfo>,
    tunnels: Result<Vec<Tunnel>, String>,
    t: ApiResult<Vec<Tunnel>>,
)
    requires
        call_ensures(parse_user_info, (user,), u),
        call_ensures(parse_tunnels, (tunnels,), t),
    ensures
        user is Ok ==> u is Ok && u->Ok_0 == user->Ok_0,
        user is Err ==> u is Err && u->Err_0@ == ErrorView::Parse(
            "/user/info: "@ + user->Err_0@,
        ),
        tunnels is Ok ==> t is Ok && t->Ok_0 == tunnels->Ok_0,
        tunnels is Err ==> t is Err && t->Err_0@ == ErrorView::Parse(
            "/tunnels: "@ + tunnels->Err_0@,
        ),
{
}

/// Nodes are kept by their ids; where a name is no number the first such name is
/// told, and where nothing could be decoded the reason is.
pub proof fn law_parse_nodes(
    decoded: Result<Vec<(String, Node)>, String>,
    r: ApiResult<HashMap<u64, Node>>,
    n: int,
)
    requires
        call_ensures(parse_nodes, (decoded,), r),
    ensures
        decoded is Err ==> r is Err && r->Err_0@ == ErrorView::Parse("/nodes: "@ + decoded->Err_0@),
        decoded is Ok && (forall|i: int|
            0 <= i < decoded->Ok_0@.len() ==> number((#[trigger] decoded->Ok_0@[i]).0@) is Some)
            ==> r is Ok && r->Ok_0@ == by_number(decoded->Ok_0@),
        decoded is Ok && 0 <= n < decoded->Ok_0@.len() && number(decoded->Ok_0@[n].0@) is None && (
        forall|i: int|
            0 <= i < n ==> number((#[trigger] decoded->Ok_0@[i]).0@) is Some) ==> r is Err
            && r->Err_0@ == ErrorView::Parse("non-numeric node id: "@ + decoded->Ok_0@[n].0@),
{
    if decoded is Ok {
        let entries = decoded->Ok_0@;
        if r is Err {
            let name = choose|name: Seq<char>|
                first_unnumbered(entries, name) && r->Err_0@ == ErrorView::Parse(
                    #[trigger] ("non-numeric node id: "@ + name),
                );
            let i = choose|i: int|
                0 <= i < entries.len() && (#[trigger] entries[i]).0@ == name && number(name) is None
                    && all_numbered(entries.take(i));
            assert(number(entries[i].0@) is None);
            if 0 <= n < entries.len() && number(entries[n].0@) is None && (forall|k: int|
                0 <= k < n ==> number((#[trigger] entries[k]).0@) is Some) {
                law_the_first_other_name_is_told(entries, n, name);
            }
        } else if 0 <= n < entries.len() && number(entries[n].0@) is None {
            assert(number(entries[n].0@) is Some);
        }
    }
}

/// A node that was listed is found under its id, where no later one has that id.
pub proof fn law_listed_nodes_are_found(
    decoded: Vec<(String, Node)>,
    r: ApiResult<HashMap<u64, Node>>,
    i: int,
)
    requires
        call_ensures(parse_nodes, (Ok::<Vec<(String, Node)>, String>(decoded),), r),
        r is Ok,
        0 <= i < decoded@.len(),
        forall|j: int|
            i < j < decoded@.len() ==> number((#[trigger] decoded@[j]).0@) != number(
                decoded@[i].0@,
            ),
    ensures
        number(decoded@[i].0@) is Some,
        r->Ok_0@.contains_key(number(decoded@[i].0@)->0),
        r->Ok_0@[number(decoded@[i].0@)->0] == decoded@[i].1,
{
    assert(number(decoded@[i].0@) is Some);
    lemma_last_of_a_number(decoded@, i);
}

proof fn lemma_last_of_a_number<V>(entries: Seq<(String, V)>, i: int)
    requires
        0 <= i < entries.len(),
        number(entries[i].0@) is Some,
        all_numbered(entries),
        forall|j: int|
            i < j < entries.len() ==> number((#[trigger] entries[j]).0@) != number(entries[i].0@),
    ensures
        by_number(entries).contains_key(number(entries[i].0@)->0),
        by_number(entries)[number(entries[i].0@)->0] == entries[i].1,
    decreases entries.len(),
{
    let last = entries.len() - 1;
    let rest = entries.drop_last();
    assert(entries.last() == entries[last]);
    if i < last {
        assert(rest[i] == entries[i]);
        assert forall|j: int| 0 <= j < rest.len() implies number(
            (#[trigger] rest[j]).0@,
        ) is Some by {
            assert(rest[j] == entries[j]);
        }
        assert forall|j: int| i < j < rest.len() implies number((#[trigger] rest[j]).0@) != number(
            rest[i].0@,
        ) by {
            assert(rest[j] == entries[j]);
        }
        lemma_last_of_a_number(rest, i);
        assert(number(entries[last].0@) is Some);
        assert(number(entries[last].0@) != number(entries[i].0@));
    }
}

/// A tunnel's traffic is kept by time: every counter of the answer, where each name
/// is a number; a name that is none is told, and so is why there are no counters.
pub proof fn law_traffic_answers(body: &str, r: ApiResult<HashMap<u64, u64>>, name: Seq<char>)
    requires
        call_ensures(parse_tunnel_traffic, (body,), r),
    ensures
        counters_text(body@) matches Err(why) ==> r is Err && r->Err_0@ == ErrorView::Parse(
            "/tunnel/traffic: "@ + why,
        ),
        counters_text(body@) matches Ok(m) ==> {
            &&& r is Ok <==> forall|k: Seq<char>| #[trigger]
                m.contains_key(k) ==> number(k) is Some
            &&& r is Ok && m.contains_key(name) && (forall|other: Seq<char>| #[trigger]
                m.contains_key(other) && number(other) == number(name) ==> other == name)
                ==> r->Ok_0@.contains_key(number(name)->0) && r->Ok_0@[number(name)->0] == m[name]
        },
{
    if let Ok(m) = counters_text(body@) {
        if r is Ok && m.contains_key(name) && (forall|other: Seq<char>| #[trigger]
            m.contains_key(other) && number(other) == number(name) ==> other == name) {
            law_counters_are_kept(m, r->Ok_0@, name);
        }
    }
}

/// The launcher's answer as text: what it reports is what the document does that
/// the text is, and a text that is none is a parse error with the reason.
pub proof fn law_launcher_answers(body: &str, r: ApiResult<HashMap<u64, bool>>)
    requires
        call_ensures(parse_launcher_tunnels, (body,), r),
    ensures
        json_text(body@) matches Ok(t) ==> r is Ok && r->Ok_0@ == launcher_states(t),
        json_text(body@) matches Err(why) ==> r is Err && r->Err_0@ == ErrorView::Parse(
            "launcher tunnels: "@ + why,
        ),
{
}

/// The answer to a new tunnel as text: the id that the document gives that the
/// text is, and none where it is no document.
pub proof fn law_creation_answers(body: &str, r: Option<u64>, id: u64)
    requires
        call_ensures(parse_create_tunnel_id, (body,), r),
    ensures
        json_text(body@) is Err ==> r is None,
        json_text(body@) is Ok && json_text(body@)->Ok_0.get("id"@) == Some(
            JsonTree::Number(Some(id)),
        ) ==> r == Some(id),
{
    if json_text(body@) is Ok {
        law_the_new_tunnels_id(json_text(body@)->Ok_0, json_text(body@)->Ok_0, id);
    }
}

/// A user's access waits eight seconds for an answer, that to the launcher five,
/// each with the secret that it was given.
pub proof fn law_access(
    secret: String,
    client: Client,
    launcher: ApiResult<LauncherClient>,
    header: String,
)
    requires
        call_ensures(Client::new, (secret,), client),
        call_ensures(LauncherClient::new, (secret,), launcher),
    ensures
        client.token@ == secret@,
        client.timeout_secs == 8,
        launcher is Ok,
        launcher->Ok_0.password@ == secret@,
        launcher->Ok_0.timeout_secs == 5,
        call_ensures(LauncherClient::auth_header, (&launcher->Ok_0,), header) ==> header@
            == "Bearer "@ + secret@,
{
}

// ---------- Sessions ----------

/// The steps that drive a session in `tmux`, where one is to be taken.
pub proof fn law_tmux_steps(
    console: &Console,
    argv: &[String],
    text: &str,
    count: u32,
    r: Step,
)
    requires
        console.backend is Tmux,
    ensures
        call_ensures(Console::start, (console, false, argv), r) ==> r@ == StepView::Tmux(
            seq![
                "new-session"@,
                "-d"@,
                "-s"@,
                console.session_name@,
                "-c"@,
                console.cwd@,
                joined(views(argv@), " "@),
            ],
        ),
        call_ensures(Console::send_line, (console, true, text), r) || call_ensures(
            Console::send_line,
            (console, false, text),
            r,
        ) || call_ensures(Console::stop_graceful, (console, true, text), r) ==> r@
            == StepView::Tmux(
            seq!["send-keys"@, "-t"@, console.session_name@, text@, "Enter"@],
        ),
        call_ensures(Console::capture_recent, (console, count), r) ==> r@ == StepView::Tmux(
            seq![
                "capture-pane"@,
                "-t"@,
                console.session_name@,
                "-p"@,
                "-S"@,
                "-"@ + decimal(count as nat),
            ],
        ),
        call_ensures(Console::kill_session, (console, true), r) ==> r@ == StepView::Tmux(
            seq!["kill-session"@, "-t"@, console.session_name@],
        ),
{
}

/// The steps that drive a session in a pseudo-terminal, where one is to be taken.
pub proof fn law_pty_steps(console: &Console, argv: &[String], text: &str, count: u32, r: Step)
    requires
        console.backend is Pty,
        argv@.len() > 0,
    ensures
        call_ensures(Console::start, (console, false, argv), r) ==> r@ == StepView::Spawn(
            argv@[0]@,
            views(argv@).skip(1),
        ),
        call_ensures(Console::send_line, (console, true, text), r) || call_ensures(
            Console::stop_graceful,
            (console, true, text),
            r,
        ) ==> r@ == StepView::Write(encode_utf8(text@) + seq![13u8, 10u8]),
        call_ensures(Console::send_line, (console, false, text), r) ==> r@ == StepView::Fail(
            "console not running"@,
        ),
        call_ensures(Console::capture_recent, (console, count), r) ==> r@
            == StepView::ShowScrollback,
        call_ensures(Console::kill_session, (console, true), r) ==> r@ == StepView::Kill,
{
}

/// Starting a session that is there, and stopping or killing one that is not, is
/// nothing to do.
pub proof fn law_needless_steps(console: &Console, argv: &[String], text: &str, r: Step)
    ensures
        call_ensures(Console::start, (console, true, argv), r) || call_ensures(
            Console::stop_graceful,
            (console, false, text),
            r,
        ) || call_ensures(Console::kill_session, (console, false), r) ==> r@ == StepView::Done,
{
}

/// A session is called by its role and its directory's name; only `tmux` lets a
/// terminal attach to it.
pub proof fn law_sessions(
    role: ConsoleRole,
    slug: &str,
    dir: &str,
    backend: Backend,
    console: &Console,
    command: Option<String>,
)
    requires
        call_ensures(Console::new, (role, slug, dir, backend), *console),
        call_ensures(Console::attach_command, (console,), command),
    ensures
        role is Server ==> console.session_name@ == "shulker-"@ + slug@,
        role is Frpc ==> console.session_name@ == "shulker-frpc-"@ + slug@,
        console.cwd@ == dir@,
        backend is Tmux ==> command is Some && command->0@ == "tmux attach -t "@
            + console.session_name@,
        backend is Pty ==> command is None,
{
}

/// A session is alive exactly where something runs in it; it is given thirty
/// seconds to end, no less and no more.
pub proof fn law_endings(console: &Console, probe: Probe, alive: bool, waited: u64, r: Ending)
    ensures
        call_ensures(Console::is_alive, (console, probe), alive) ==> (alive <==> probe
            == Probe::Tmux(true) || probe is Running),
        call_ensures(Console::stop_progress, (console, alive, waited), r) ==> (r is Ended
            <==> !alive) && (r is Wait <==> alive && waited < 30) && (r is Kill <==> alive && waited
            >= 30),
{
}

/// What `tmux` is told of a command that failed, and what comes of rows that were
/// captured: the rows, or the reason without the white space around it.
pub proof fn law_tmux_outcomes(
    console: &Console,
    command: TmuxCommand,
    success: bool,
    o: Result<(), String>,
    out: &[u8],
    err: &[u8],
    r: Result<String, String>,
)
    requires
        call_ensures(Console::tmux_outcome, (console, command, success), o),
        call_ensures(captured, (success, out, err), r),
    ensures
        o is Ok <==> success,
        r is Ok <==> success,
        !success && command is NewSession ==> o->Err_0@ == "tmux new-session failed for "@
            + console.session_name@,
        !success && command is SendKeys ==> o->Err_0@ == "tmux send-keys failed"@,
        !success && command is KillSession ==> o->Err_0@ == "tmux kill-session failed"@,
        success && valid_utf8(out@) ==> r->Ok_0@ == decode_utf8(out@),
        !success ==> r->Err_0@ == "tmux capture-pane failed: "@ + trimmed(lossy_text(err@)),
{
}

/// A scrollback has, after a chunk, the end of all that it had and was given, as
/// much as 262144 bytes of it.
pub proof fn law_push_chunk(back: &mut Scrollback, chunk: &[u8])
    requires
        call_ensures(Scrollback::push_chunk, (back, chunk), ()),
    ensures
        ({
            let all = old(back)@ + chunk@;
            final(back)@ == if all.len() <= 262144 {
                all
            } else {
                all.skip(all.len() - 262144)
            }
        }),
{
}

} // verus!
