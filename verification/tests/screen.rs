use mc_tui::clock::LocalTime;
use mc_tui::geometry::{centered_rect, Area};
use mc_tui::players::{ListFile, OpEntry, WhitelistEntry};
use mc_tui::processes::ProcessInfo;
use mc_tui::screen::{
    draw_config, draw_hints, draw_logs, draw_ops, draw_prompt, draw_status_bar, draw_tabs,
    draw_whitelist, draw_worlds, LogFile, Span, Tone,
};
use mc_tui::state::{App, InputPrompt, PromptAction, Snapshot, TabId};
use mc_tui::worlds::FoundDir;

fn app() -> App {
    let found = |name: &str, size_bytes: u64, last_modified: Option<LocalTime>| FoundDir {
        name: Some(name.to_string()),
        path: format!("/srv/{name}"),
        is_dir: true,
        has_level: true,
        size_bytes,
        last_modified,
    };
    let settings = [("motd", "Hi"), ("pvp", "true"), ("hardcore", "false")]
        .iter()
        .map(|(k, v)| (k.to_string(), v.to_string()))
        .collect();
    let snapshot = Snapshot {
        found: vec![
            found("old", 1536, LocalTime::new(0, 3600)),
            found("world", 0, None),
        ],
        whitelist: ListFile::Entries(vec![WhitelistEntry {
            uuid: "u-1".into(),
            name: "Alice".into(),
        }]),
        ops: ListFile::Entries(vec![OpEntry {
            uuid: "u-2".into(),
            name: "Bob".into(),
            level: 3,
            bypasses_player_limit: true,
        }]),
        processes: Vec::new(),
    };
    App::new("/srv", settings, snapshot)
}

fn shown(row: &[Span]) -> Vec<(&str, Tone)> {
    row.iter().map(|s| (s.text.as_str(), s.tone)).collect()
}

#[test]
fn status_bar_tells_of_the_server() {
    let mut app = app();
    assert_eq!(
        shown(&draw_status_bar(&app)),
        [
            ("server: ", Tone::Dim),
            ("○ stopped", Tone::DarkGray),
            ("    ", Tone::Raw),
            ("level: ", Tone::Dim),
            ("world", Tone::Cyan),
            ("    ", Tone::Raw),
            ("dir: ", Tone::Dim),
            ("/srv", Tone::Raw),
        ],
    );
    app.pid = Some(77);
    assert_eq!(shown(&draw_status_bar(&app))[1], ("● running (pid 77)", Tone::Green));
}

#[test]
fn tabs_are_numbered() {
    let mut app = app();
    app.switch_tab(TabId::Ops);
    let (titles, selected) = draw_tabs(&app);
    assert_eq!(titles, [" 1 Worlds ", " 2 Whitelist ", " 3 Ops ", " 4 Config ", " 5 Logs "]);
    assert_eq!(selected, 2);
}

#[test]
fn world_rows_are_aligned() {
    let screen = draw_worlds(&app());
    assert_eq!(screen.title, " Worlds (●=current) ");
    assert_eq!(screen.rows.len(), 2);
    assert_eq!(
        shown(&screen.rows[0]),
        [
            (" ● ", Tone::Green),
            (format!("{:30}", "world").as_str(), Tone::White),
            ("     0.0 B  ", Tone::DarkGray),
            ("", Tone::DarkGray),
        ],
    );
    assert_eq!(
        shown(&screen.rows[1]),
        [
            ("   ", Tone::Green),
            (format!("{:30}", "old").as_str(), Tone::White),
            ("    1.5 KB  ", Tone::DarkGray),
            ("1970-01-01 01:00", Tone::DarkGray),
        ],
    );
}

#[test]
fn player_rows_are_aligned() {
    let screen = draw_whitelist(&app());
    assert_eq!(screen.title, " Whitelist ");
    assert_eq!(
        shown(&screen.rows[0]),
        [(" Alice                ", Tone::White), ("u-1", Tone::DarkGray)],
    );
    let screen = draw_ops(&app());
    assert_eq!(screen.title, " Operators (←/→ change level) ");
    assert_eq!(
        shown(&screen.rows[0]),
        [
            (" Bob                  ", Tone::White),
            ("level 3 ", Tone::Yellow),
            ("u-2", Tone::DarkGray),
        ],
    );
}

#[test]
fn settings_are_coloured_by_value() {
    let screen = draw_config(&app());
    assert_eq!(screen.title, " server.properties (Enter = edit) ");
    let values: Vec<(&str, Tone)> = screen.rows.iter().map(|r| shown(r)[2]).collect();
    assert_eq!(values, [("Hi", Tone::Cyan), ("true", Tone::Green), ("false", Tone::Red)]);
    assert_eq!(shown(&screen.rows[0])[0].0, format!(" {:35}", "motd"));
    assert_eq!(shown(&screen.rows[0])[1], ("= ", Tone::Raw));
}

#[test]
fn logs_show_their_end() {
    let text = || LogFile::Text("a\nb\r\nc\nd\n".to_string());
    let body = |log: LogFile, height: u16| draw_logs("/srv/logs/latest.log", &log, height).body;
    assert_eq!(body(text(), 5), "b\nc\nd");
    assert_eq!(body(text(), 6), "a\nb\nc\nd");
    assert_eq!(body(text(), 60), "a\nb\nc\nd");
    for height in [0, 1, 2, 3] {
        assert_eq!(body(text(), height), "d");
    }
    assert_eq!(body(LogFile::Text(String::new()), 5), "");
    assert_eq!(body(LogFile::Missing, 5), "(no logs yet)");
    assert_eq!(body(LogFile::Unreadable("denied".into()), 5), "(read error: denied)");
    let screen = draw_logs("/srv/logs/latest.log", &LogFile::Missing, 5);
    assert_eq!(screen.title, " Logs — tail of /srv/logs/latest.log ");
}

#[test]
fn hints_follow_the_screen() {
    let mut app = app();
    let expected = [
        " ↑/↓ select   Enter switch   r refresh   Tab/1-5 tabs   q quit ",
        " ↑/↓ select   a add   d remove   r refresh   Tab/1-5 tabs   q quit ",
        " ↑/↓ select   a add   d remove   ←/→ level   r refresh   Tab/1-5 tabs   q quit ",
        " ↑/↓ select   Enter edit   r refresh   Tab/1-5 tabs   q quit ",
        " r refresh   Tab/1-5 tabs   q quit ",
    ];
    for (i, hint) in expected.iter().enumerate() {
        app.switch_tab(TabId::at(i));
        assert_eq!(
            shown(&draw_hints(&app)),
            [(*hint, Tone::DarkGray), ("  │  ", Tone::Raw), ("Ready.", Tone::Yellow)],
        );
    }
}

#[test]
fn prompts_show_the_answer_so_far() {
    let prompt = InputPrompt {
        title: "Edit pvp".into(),
        label: "value".into(),
        buffer: "tru".into(),
        action: PromptAction::EditConfig("pvp".into()),
    };
    let screen = draw_prompt(&prompt);
    assert_eq!(screen.title, " Edit pvp ");
    assert_eq!(
        shown(&screen.rows[0]),
        [("value: ", Tone::White), ("tru", Tone::Yellow), ("█", Tone::Cursor)],
    );
    assert_eq!(shown(&screen.rows[1]), [("", Tone::Raw)]);
    assert_eq!(shown(&screen.rows[2]), [("Enter = confirm    Esc = cancel", Tone::DarkGray)]);
}

#[test]
fn running_servers_are_found_for_the_status_bar() {
    let mut app = app();
    app.refresh_all(Snapshot {
        found: Vec::new(),
        whitelist: ListFile::Missing,
        ops: ListFile::Missing,
        processes: vec![ProcessInfo {
            pid: 9,
            cmd: vec!["spigot-1.20.jar".into()],
            in_server_dir: true,
        }],
    });
    assert_eq!(shown(&draw_status_bar(&app))[1].0, "● running (pid 9)");
    assert!(draw_worlds(&app).rows.is_empty());
}

#[test]
fn prompts_are_centered() {
    let area = Area { x: 2, y: 1, width: 81, height: 24 };
    assert_eq!(centered_rect(60, 5, area), Area { x: 18, y: 10, width: 48, height: 5 });
    let small = Area { x: 0, y: 0, width: 10, height: 3 };
    assert_eq!(centered_rect(60, 5, small), Area { x: 2, y: 0, width: 6, height: 3 });
    let wide = Area { x: 0, y: 0, width: 2000, height: 9 };
    assert_eq!(centered_rect(60, 5, wide), Area { x: 672, y: 2, width: 655, height: 5 });
    assert_eq!(centered_rect(150, 5, small), Area { x: 0, y: 0, width: 15, height: 3 });
    let none = Area { x: 7, y: 7, width: 0, height: 0 };
    assert_eq!(centered_rect(60, 5, none), none);
}
