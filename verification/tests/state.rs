use mc_tui::players::{ListFile, OpEntry, WhitelistEntry};
use mc_tui::processes::ProcessInfo;
use mc_tui::state::{
    Afterwards, App, Command, DataFile, Input, Key, PromptAction, Save, Snapshot, TabId,
};
use mc_tui::uuid::offline_uuid;
use mc_tui::worlds::FoundDir;

fn world(name: &str) -> FoundDir {
    FoundDir {
        name: Some(name.to_string()),
        path: format!("/srv/{name}"),
        is_dir: true,
        has_level: true,
        size_bytes: 0,
        last_modified: None,
    }
}

fn player(name: &str) -> WhitelistEntry {
    WhitelistEntry { uuid: offline_uuid(name), name: name.to_string() }
}

fn op(name: &str, level: u8) -> OpEntry {
    OpEntry {
        uuid: offline_uuid(name),
        name: name.to_string(),
        level,
        bypasses_player_limit: false,
    }
}

fn running() -> Vec<ProcessInfo> {
    vec![ProcessInfo {
        pid: 42,
        cmd: vec!["java".into(), "-jar".into(), "paper.jar".into()],
        in_server_dir: true,
    }]
}

fn snapshot() -> Snapshot {
    Snapshot {
        found: vec![world("nether"), world("world"), world("end")],
        whitelist: ListFile::Entries(vec![player("Alice"), player("Bob")]),
        ops: ListFile::Entries(vec![op("Alice", 4), op("Carol", 2)]),
        processes: Vec::new(),
    }
}

fn settings() -> Vec<(String, String)> {
    vec![
        ("motd".to_string(), "A server".to_string()),
        ("level-name".to_string(), "world".to_string()),
        ("pvp".to_string(), "true".to_string()),
    ]
}

fn app() -> App {
    App::new("/srv", settings(), snapshot())
}

fn press(app: &mut App, key: Key) -> Command {
    app.step(&Input::Key { key, pressed: true })
}

fn type_in(app: &mut App, text: &str) {
    for c in text.chars() {
        assert!(matches!(press(app, Key::Char(c)), Command::Nothing));
    }
}

fn save(command: Command) -> Save {
    match command {
        Command::Save(save) => save,
        _ => panic!("expected something to save"),
    }
}

fn names(app: &App) -> Vec<&str> {
    app.whitelist.iter().map(|e| e.name.as_str()).collect()
}

#[test]
fn a_new_state_shows_what_was_read() {
    let app = app();
    assert_eq!(app.server_dir, "/srv");
    assert_eq!(app.current_level(), "world");
    let worlds: Vec<(&str, bool)> =
        app.worlds.iter().map(|w| (w.name.as_str(), w.is_current)).collect();
    assert_eq!(worlds, [("world", true), ("end", false), ("nether", false)]);
    assert_eq!(names(&app), ["Alice", "Bob"]);
    assert_eq!(app.ops.len(), 2);
    assert_eq!(app.pid, None);
    assert_eq!(app.tab, TabId::Worlds);
    assert_eq!(app.status, "Ready.");
    assert!(app.prompt.is_none());
    for tab in [TabId::Worlds, TabId::Whitelist, TabId::Ops, TabId::Config] {
        assert_eq!(app.list_state_for(tab), Some(0));
    }
}

#[test]
fn a_state_of_nothing_selects_nothing() {
    let nothing = Snapshot {
        found: Vec::new(),
        whitelist: ListFile::Unreadable("denied".into()),
        ops: ListFile::Malformed,
        processes: running(),
    };
    let mut app = App::new("/srv", Vec::new(), nothing);
    assert_eq!(app.current_level(), "world");
    assert_eq!(app.pid, Some(42));
    for tab in [TabId::Worlds, TabId::Whitelist, TabId::Ops, TabId::Config, TabId::Logs] {
        assert_eq!(app.list_len_for(tab), 0);
        assert_eq!(app.list_state_for(tab), None);
        app.switch_tab(tab);
        app.move_selection(1);
        assert_eq!(app.list_state_for(tab), None);
    }
}

#[test]
fn selections_go_round() {
    let mut app = app();
    press(&mut app, Key::Up);
    assert_eq!(app.worlds_selected, Some(2));
    press(&mut app, Key::Down);
    assert_eq!(app.worlds_selected, Some(0));
    app.move_selection(-7);
    assert_eq!(app.worlds_selected, Some(2));
    app.move_selection(7);
    assert_eq!(app.worlds_selected, Some(0));
    app.move_selection(isize::MIN);
    assert!(app.worlds_selected.unwrap() < 3);
    app.select(TabId::Worlds, None);
    app.move_selection(1);
    assert_eq!(app.worlds_selected, Some(1));
    assert_eq!(app.whitelist_selected, Some(0));
    for delta in -20..20isize {
        for from in 0..5usize {
            app.select(TabId::Worlds, Some(from));
            app.move_selection(delta);
            let expected = (from as isize + delta).rem_euclid(3) as usize;
            assert_eq!(app.worlds_selected, Some(expected));
        }
    }
}

#[test]
fn the_logs_go_by_the_worlds_selection() {
    let mut app = app();
    app.select(TabId::Logs, Some(2));
    assert_eq!(app.worlds_selected, Some(2));
    assert_eq!(app.list_state_for(TabId::Logs), Some(2));
    press(&mut app, Key::Char('5'));
    press(&mut app, Key::Down);
    assert_eq!(app.worlds_selected, Some(2));
}

#[test]
fn tabs_go_round() {
    let mut app = app();
    let order = [TabId::Whitelist, TabId::Ops, TabId::Config, TabId::Logs, TabId::Worlds];
    for tab in order {
        press(&mut app, Key::Tab);
        assert_eq!(app.tab, tab);
    }
    press(&mut app, Key::BackTab);
    assert_eq!(app.tab, TabId::Logs);
    for (key, tab) in "12345".chars().zip([
        TabId::Worlds,
        TabId::Whitelist,
        TabId::Ops,
        TabId::Config,
        TabId::Logs,
    ]) {
        press(&mut app, Key::Char(key));
        assert_eq!(app.tab, tab);
        assert_eq!(TabId::at(tab.index()), tab);
    }
}

#[test]
fn a_world_is_switched_to() {
    let mut app = app();
    press(&mut app, Key::Down);
    let save = save(press(&mut app, Key::Enter));
    assert_eq!(save.file, DataFile::Properties);
    assert_eq!(save.afterwards, Afterwards::Reload);
    assert_eq!(app.current_level(), "end");
    assert_eq!(app.status, "Ready.");
    assert!(app.saved(save));
    assert_eq!(app.status, "✓ Switched to 'end'. Restart the server to load it.");
    app.refresh_all(snapshot());
    assert_eq!(app.worlds[0].name, "end");
    assert!(app.worlds[0].is_current);
    assert_eq!(app.worlds_selected, Some(1));
}

#[test]
fn a_world_is_not_switched_to() {
    let mut app = app();
    assert!(matches!(press(&mut app, Key::Enter), Command::Nothing));
    assert_eq!(app.status, "→ Already current world.");
    app.select(TabId::Worlds, Some(9));
    app.status = "as before".into();
    assert!(matches!(app.switch_world(), Command::Nothing));
    app.select(TabId::Worlds, None);
    assert!(matches!(app.switch_world(), Command::Nothing));
    assert_eq!(app.status, "as before");
    app.step(&Input::Idle(running()));
    assert_eq!(app.pid, Some(42));
    app.select(TabId::Worlds, Some(1));
    assert!(matches!(app.switch_world(), Command::Nothing));
    assert_eq!(app.status, "✗ Stop the server first (it's running).");
    assert_eq!(app.current_level(), "world");
}

#[test]
fn a_player_is_whitelisted() {
    let mut app = app();
    press(&mut app, Key::Char('2'));
    assert!(matches!(press(&mut app, Key::Char('a')), Command::Nothing));
    let prompt = app.prompt.as_ref().unwrap();
    assert_eq!(prompt.title, "Add to whitelist");
    assert_eq!(prompt.label, "player name");
    assert_eq!(prompt.buffer, "");
    assert!(matches!(prompt.action, PromptAction::AddWhitelist));
    type_in(&mut app, "  Davq");
    press(&mut app, Key::Backspace);
    type_in(&mut app, "e ");
    let save = save(press(&mut app, Key::Enter));
    assert_eq!(save.file, DataFile::Whitelist);
    assert!(app.prompt.is_none());
    assert_eq!(names(&app), ["Alice", "Bob", "Dave"]);
    assert_eq!(app.whitelist[2].uuid, offline_uuid("Dave"));
    assert!(app.saved(save));
    assert_eq!(app.status, "✓ Whitelisted Dave.");
}

#[test]
fn nobody_is_whitelisted_twice() {
    let mut app = app();
    assert!(matches!(app.add_whitelist(" Bob "), Command::Nothing));
    assert_eq!(app.status, "→ 'Bob' already whitelisted.");
    assert_eq!(names(&app), ["Alice", "Bob"]);
    app.status = "as before".into();
    assert!(matches!(app.add_whitelist("  "), Command::Nothing));
    assert_eq!(app.status, "as before");
    assert!(matches!(app.add_whitelist("bob"), Command::Save(_)));
    assert_eq!(names(&app), ["Alice", "Bob", "bob"]);
}

#[test]
fn a_player_is_taken_off_the_whitelist() {
    let mut app = app();
    press(&mut app, Key::Char('2'));
    press(&mut app, Key::Up);
    let last = save(press(&mut app, Key::Char('d')));
    assert_eq!(last.afterwards, Afterwards::Reselect);
    assert_eq!(names(&app), ["Alice"]);
    assert_eq!(app.whitelist_selected, Some(1));
    assert!(!app.saved(last));
    assert_eq!(app.status, "✓ Removed Bob from whitelist.");
    assert_eq!(app.whitelist_selected, Some(0));
    let only = save(press(&mut app, Key::Char('d')));
    app.saved(only);
    assert!(app.whitelist.is_empty());
    assert_eq!(app.whitelist_selected, None);
    assert!(matches!(press(&mut app, Key::Char('d')), Command::Nothing));
}

#[test]
fn a_player_is_made_an_operator() {
    let mut app = app();
    press(&mut app, Key::Char('3'));
    press(&mut app, Key::Char('a'));
    assert_eq!(app.prompt.as_ref().unwrap().title, "Op a player");
    type_in(&mut app, "Erin");
    let save = save(press(&mut app, Key::Enter));
    assert_eq!(save.file, DataFile::Ops);
    let made = app.ops.last().unwrap();
    assert_eq!((made.name.as_str(), made.level), ("Erin", 4));
    assert!(!made.bypasses_player_limit);
    assert_eq!(made.uuid, offline_uuid("Erin"));
    assert!(app.saved(save));
    assert_eq!(app.status, "✓ Op'd Erin (level 4).");
    assert!(matches!(app.add_op("Erin"), Command::Nothing));
    assert_eq!(app.status, "→ 'Erin' already op.");
    assert!(matches!(app.add_op(""), Command::Nothing));
    assert_eq!(app.ops.len(), 3);
}

#[test]
fn an_operator_is_made_a_player() {
    let mut app = app();
    press(&mut app, Key::Char('3'));
    let first = save(press(&mut app, Key::Char('d')));
    app.saved(first);
    assert_eq!(app.status, "✓ De-op'd Alice.");
    assert_eq!(app.ops_selected, Some(0));
    assert_eq!(app.ops[0].name, "Carol");
    app.select(TabId::Ops, Some(5));
    assert!(matches!(app.remove_op(), Command::Nothing));
    app.select(TabId::Ops, None);
    assert!(matches!(app.remove_op(), Command::Nothing));
    assert_eq!(app.ops.len(), 1);
}

#[test]
fn operator_levels_stay_from_one_to_four() {
    let mut app = app();
    press(&mut app, Key::Char('3'));
    press(&mut app, Key::Down);
    let mut seen = Vec::new();
    for key in [Key::Right, Key::Right, Key::Right, Key::Left, Key::Left, Key::Left, Key::Left] {
        let save = save(press(&mut app, key));
        assert_eq!(save.file, DataFile::Ops);
        assert!(!app.saved(save));
        seen.push(app.ops[1].level);
    }
    assert_eq!(seen, [3, 4, 4, 3, 2, 1, 1]);
    assert_eq!(app.status, "✓ Carol → level 1.");
    assert_eq!(app.ops[0].level, 4);
    app.ops[1].level = 200;
    app.cycle_op_level(-1);
    assert_eq!(app.ops[1].level, 4);
    app.cycle_op_level(i8::MIN);
    assert_eq!(app.ops[1].level, 1);
    app.switch_tab(TabId::Whitelist);
    assert!(matches!(press(&mut app, Key::Right), Command::Nothing));
    assert!(matches!(press(&mut app, Key::Left), Command::Nothing));
    assert_eq!(app.ops[1].level, 1);
}

#[test]
fn a_setting_is_edited() {
    let mut app = app();
    press(&mut app, Key::Char('4'));
    press(&mut app, Key::Up);
    assert!(matches!(press(&mut app, Key::Enter), Command::Nothing));
    let prompt = app.prompt.as_ref().unwrap();
    assert_eq!(prompt.title, "Edit pvp");
    assert_eq!(prompt.label, "value");
    assert_eq!(prompt.buffer, "true");
    assert!(matches!(&prompt.action, PromptAction::EditConfig(key) if key == "pvp"));
    for _ in 0..6 {
        press(&mut app, Key::Backspace);
    }
    type_in(&mut app, "false");
    let save = save(press(&mut app, Key::Enter));
    assert_eq!(save.file, DataFile::Properties);
    assert_eq!(app.properties[2], ("pvp".to_string(), "false".to_string()));
    assert!(!app.saved(save));
    assert_eq!(app.status, "✓ pvp = false");
}

#[test]
fn confirming_a_setting_keeps_it() {
    let mut app = app();
    press(&mut app, Key::Char('4'));
    press(&mut app, Key::Enter);
    save(press(&mut app, Key::Enter));
    assert_eq!(app.properties, settings());
}

#[test]
fn a_prompt_is_cancelled() {
    let mut app = app();
    press(&mut app, Key::Char('2'));
    press(&mut app, Key::Char('a'));
    type_in(&mut app, "q1r");
    for key in [Key::Up, Key::Tab, Key::Left, Key::Other] {
        assert!(matches!(press(&mut app, key), Command::Nothing));
    }
    assert_eq!(app.prompt.as_ref().unwrap().buffer, "q1r");
    assert_eq!(app.tab, TabId::Whitelist);
    assert!(matches!(press(&mut app, Key::Esc), Command::Nothing));
    assert!(app.prompt.is_none());
    assert_eq!(app.status, "Cancelled.");
    assert_eq!(names(&app), ["Alice", "Bob"]);
}

#[test]
fn keys_without_a_meaning_do_nothing() {
    let mut app = app();
    for key in [Key::Char('x'), Key::Char('a'), Key::Char('d'), Key::Backspace, Key::Other] {
        assert!(matches!(press(&mut app, key), Command::Nothing));
    }
    press(&mut app, Key::Char('5'));
    assert!(matches!(press(&mut app, Key::Enter), Command::Nothing));
    assert!(app.prompt.is_none());
    assert_eq!(app.status, "Ready.");
    assert!(matches!(app.step(&Input::Other), Command::Nothing));
    let released = Input::Key { key: Key::Char('q'), pressed: false };
    assert!(matches!(app.step(&released), Command::Nothing));
}

#[test]
fn quitting_and_refreshing() {
    let mut app = app();
    assert!(matches!(press(&mut app, Key::Char('q')), Command::Quit));
    assert!(matches!(press(&mut app, Key::Esc), Command::Quit));
    assert!(matches!(press(&mut app, Key::Char('r')), Command::Reload));
    assert_eq!(app.status, "Refreshed.");
    app.refresh_all(Snapshot { processes: running(), ..snapshot() });
    assert_eq!(app.pid, Some(42));
    assert_eq!(app.status, "Refreshed.");
    app.step(&Input::Idle(Vec::new()));
    assert_eq!(app.pid, None);
}
