use mc_tui::clock::{LocalTime, MAX_SECS, MIN_SECS};
use mc_tui::players::{read_ops, read_whitelist, ListFile, OpEntry, WhitelistEntry};
use mc_tui::processes::{server_running_pid, ProcessInfo};
use mc_tui::properties::{get_property, read_properties, set_property, write_properties};
use mc_tui::sizes::fmt_bytes;
use mc_tui::uuid::{offline_uuid, uuid_from_digest};
use mc_tui::worlds::{dir_size, scan_worlds, DirTree, FoundDir};
use serde_json::Value;

fn noon() -> LocalTime {
    LocalTime::new(1_777_636_800, 7200).unwrap()
}

// ---------- Player ids ----------

#[test]
fn offline_uuid_format_and_version_bits() {
    for name in ["Alice", "Bob", "Steve_42", "测试用户"] {
        let u = offline_uuid(name);
        assert_eq!(u.len(), 36, "uuid length for {name}");
        assert_eq!(&u[8..9], "-");
        assert_eq!(&u[13..14], "-");
        assert_eq!(&u[14..15], "3", "version-3 bit for {name}");
        assert_eq!(&u[18..19], "-");
        let variant = u.chars().nth(19).unwrap();
        assert!("89ab".contains(variant), "variant bit for {name}: got {variant}");
        assert_eq!(&u[23..24], "-");
    }
}

#[test]
fn offline_uuid_is_deterministic() {
    assert_eq!(offline_uuid("Spencer"), offline_uuid("Spencer"));
    assert_ne!(offline_uuid("Spencer"), offline_uuid("spencer"));
}

#[test]
fn offline_uuid_of_a_known_player() {
    assert_eq!(offline_uuid("Notch"), "b50ad385-829d-3141-a216-7e7d7539ba7f");
}

#[test]
fn ids_tell_digests_apart() {
    let ids: Vec<String> = (0..16)
        .map(|i| {
            let mut digest = [0u8; 16];
            digest[i] = 1;
            uuid_from_digest(digest)
        })
        .collect();
    for i in 0..16 {
        for j in 0..i {
            assert_ne!(ids[i], ids[j]);
        }
    }
    let mut version = [0u8; 16];
    version[6] = 0xf0;
    version[8] = 0xc0;
    assert_eq!(uuid_from_digest(version), uuid_from_digest([0; 16]));
}

#[test]
fn uuid_stamps_version_and_variant() {
    assert_eq!(uuid_from_digest([0; 16]), "00000000-0000-3000-8000-000000000000");
    assert_eq!(uuid_from_digest([255; 16]), "ffffffff-ffff-3fff-bfff-ffffffffffff");
    let mut digest = [0u8; 16];
    for (i, b) in digest.iter_mut().enumerate() {
        *b = (i * 17) as u8;
    }
    assert_eq!(uuid_from_digest(digest), "00112233-4455-3677-8899-aabbccddeeff");
}

// ---------- Settings ----------

#[test]
fn properties_roundtrip_preserves_kv_order() {
    let mut props = read_properties("# comment\nfoo=bar\nbaz=qux\n# another\nempty=\n");
    assert_eq!(props.len(), 3);
    assert_eq!(props[0], ("foo".to_string(), "bar".to_string()));
    assert_eq!(props[1], ("baz".to_string(), "qux".to_string()));
    assert_eq!(props[2], ("empty".to_string(), "".to_string()));
    set_property(&mut props, "foo", "42");
    set_property(&mut props, "newkey", "hello");
    let reread = read_properties(&write_properties(&props, &noon()));
    assert_eq!(reread[0], ("foo".to_string(), "42".to_string()));
    assert_eq!(reread.last().unwrap(), &("newkey".to_string(), "hello".to_string()));
}

#[test]
fn properties_are_written_under_a_dated_header() {
    let props = vec![("a".to_string(), "1".to_string()), ("b".to_string(), "".to_string())];
    assert_eq!(
        write_properties(&props, &noon()),
        "#Minecraft server properties\n#Fri, 1 May 2026 14:00:00 +0200\na=1\nb=\n",
    );
}

#[test]
fn properties_lines_that_say_nothing_are_left_out() {
    let raw = "  # indented comment\n\n   \nno equals sign\n key = value=more \r\n=v\n\u{3000}k\u{3000}=x";
    assert_eq!(
        read_properties(raw),
        vec![
            ("key".to_string(), " value=more ".to_string()),
            ("".to_string(), "v".to_string()),
            ("k".to_string(), "x".to_string()),
        ],
    );
}

#[test]
fn a_return_at_the_end_of_a_value_is_lost() {
    let props = read_properties("k=v\r\r\n");
    assert_eq!(props, vec![("k".to_string(), "v\r".to_string())]);
    let reread = read_properties(&write_properties(&props, &noon()));
    assert_eq!(reread, vec![("k".to_string(), "v".to_string())]);
}

#[test]
fn first_of_two_settings_counts() {
    let mut props = read_properties("k=1\nk=2\n");
    assert_eq!(get_property(&props, "k"), Some("1"));
    assert_eq!(get_property(&props, "K"), None);
    set_property(&mut props, "k", "3");
    assert_eq!(props, read_properties("k=3\nk=2\n"));
}

// ---------- Players ----------

fn whitelist_json(entries: &[WhitelistEntry]) -> String {
    let list = entries
        .iter()
        .map(|e| {
            let mut m = serde_json::Map::new();
            m.insert("uuid".into(), Value::from(e.uuid.as_str()));
            m.insert("name".into(), Value::from(e.name.as_str()));
            Value::Object(m)
        })
        .collect();
    serde_json::to_string_pretty(&Value::Array(list)).unwrap()
}

fn whitelist_file(raw: &str) -> ListFile<WhitelistEntry> {
    let v: Value = match serde_json::from_str(raw) {
        Ok(v) => v,
        Err(_) => return ListFile::Malformed,
    };
    let text = |e: &Value, key: &str| e[key].as_str().unwrap().to_string();
    ListFile::Entries(
        v.as_array()
            .unwrap()
            .iter()
            .map(|e| WhitelistEntry { uuid: text(e, "uuid"), name: text(e, "name") })
            .collect(),
    )
}

fn ops_json(entries: &[OpEntry]) -> String {
    let list = entries
        .iter()
        .map(|e| {
            let mut m = serde_json::Map::new();
            m.insert("uuid".into(), Value::from(e.uuid.as_str()));
            m.insert("name".into(), Value::from(e.name.as_str()));
            m.insert("level".into(), Value::from(e.level));
            m.insert("bypassesPlayerLimit".into(), Value::from(e.bypasses_player_limit));
            Value::Object(m)
        })
        .collect();
    serde_json::to_string_pretty(&Value::Array(list)).unwrap()
}

fn ops_file(raw: &str) -> ListFile<OpEntry> {
    let v: Value = serde_json::from_str(raw).unwrap();
    let text = |e: &Value, key: &str| e[key].as_str().unwrap().to_string();
    ListFile::Entries(
        v.as_array()
            .unwrap()
            .iter()
            .map(|e| OpEntry {
                uuid: text(e, "uuid"),
                name: text(e, "name"),
                level: e["level"].as_u64().unwrap() as u8,
                bypasses_player_limit: e["bypassesPlayerLimit"].as_bool().unwrap_or(false),
            })
            .collect(),
    )
}

#[test]
fn whitelist_roundtrip() {
    let entries =
        vec![WhitelistEntry { uuid: offline_uuid("Alice"), name: "Alice".to_string() }];
    let read = read_whitelist(whitelist_file(&whitelist_json(&entries))).unwrap();
    assert_eq!(read.len(), 1);
    assert_eq!(read[0].name, "Alice");
}

#[test]
fn ops_roundtrip() {
    let entries = vec![OpEntry {
        uuid: offline_uuid("Bob"),
        name: "Bob".to_string(),
        level: 4,
        bypasses_player_limit: false,
    }];
    let read = read_ops(ops_file(&ops_json(&entries))).unwrap();
    assert_eq!(read.len(), 1);
    assert_eq!(read[0].name, "Bob");
    assert_eq!(read[0].level, 4);
}

#[test]
fn player_files_that_say_nothing_hold_nobody() {
    assert!(read_whitelist(ListFile::Missing).unwrap().is_empty());
    assert!(read_whitelist(whitelist_file("garbage")).unwrap().is_empty());
    assert_eq!(read_whitelist(ListFile::Unreadable("denied".into())).unwrap_err(), "denied");
    assert!(read_ops(ListFile::Missing).unwrap().is_empty());
    assert!(read_ops(ListFile::Malformed).unwrap().is_empty());
    assert_eq!(read_ops(ListFile::Unreadable("denied".into())).unwrap_err(), "denied");
}

// ---------- Sizes ----------

#[test]
fn fmt_bytes_examples() {
    assert_eq!(fmt_bytes(0), "0.0 B");
    assert_eq!(fmt_bytes(1023), "1023.0 B");
    assert_eq!(fmt_bytes(1024), "1.0 KB");
    assert_eq!(fmt_bytes(1024 * 1024), "1.0 MB");
    assert_eq!(fmt_bytes(1024_u64.pow(3)), "1.0 GB");
}

#[test]
fn world_sizes_match_double_precision() {
    let shown = |n: u64| {
        let mut x = n as f64;
        let mut i = 0;
        while x >= 1024.0 && i < 4 {
            x /= 1024.0;
            i += 1;
        }
        format!("{:.1} {}", x, ["B", "KB", "MB", "GB", "TB"][i])
    };
    let mut n: u64 = 1;
    for k in 0..20_000u64 {
        n = n.wrapping_mul(6364136223846793005).wrapping_add(1442695040888963407);
        let m = n >> (k % 64);
        assert_eq!(fmt_bytes(m), shown(m), "{m}");
    }
    for m in [1024, 1075, 1076, 1126, 1177, 1048575, 1099511627775, u64::MAX, u64::MAX - 1023] {
        assert_eq!(fmt_bytes(m), shown(m), "{m}");
    }
}

// ---------- Moments ----------

#[test]
fn moments_have_the_calendar_range_of_chrono() {
    assert_eq!(MIN_SECS, chrono::DateTime::<chrono::Utc>::MIN_UTC.timestamp());
    assert_eq!(MAX_SECS, chrono::DateTime::<chrono::Utc>::MAX_UTC.timestamp());
    assert!(LocalTime::new(MIN_SECS - 1, 0).is_none());
    assert!(LocalTime::new(MAX_SECS + 1, 0).is_none());
    assert!(LocalTime::new(0, 86400).is_none());
    assert!(LocalTime::new(0, -86400).is_none());
}

#[test]
fn moments_in_words() {
    assert_eq!(noon().to_minute(), "2026-05-01 14:00");
    assert_eq!(noon().to_rfc2822(), "Fri, 1 May 2026 14:00:00 +0200");
    assert!(noon().is_short_year());
    for (secs, offset) in [(MIN_SECS, -86399), (MAX_SECS, 86399), (MIN_SECS, 86399)] {
        let t = LocalTime::new(secs, offset).unwrap();
        assert!(!t.is_short_year());
        assert!(!t.to_minute().is_empty());
    }
    let last = LocalTime::new(253402300799, 0).unwrap();
    assert!(last.is_short_year());
    assert_eq!(last.to_rfc2822(), "Fri, 31 Dec 9999 23:59:59 +0000");
    assert!(!LocalTime::new(253402300799, 1).unwrap().is_short_year());
    let first = LocalTime::new(-62167219200, 0).unwrap();
    assert!(first.is_short_year());
    assert!(first.to_rfc2822().ends_with("0000 00:00:00 +0000"));
    assert!(!LocalTime::new(-62167219200, -1).unwrap().is_short_year());
}

// ---------- Worlds ----------

fn found(name: &str, is_dir: bool, has_level: bool) -> FoundDir {
    FoundDir {
        name: Some(name.to_string()),
        path: format!("/srv/{name}"),
        is_dir,
        has_level,
        size_bytes: 7,
        last_modified: None,
    }
}

#[test]
fn worlds_are_sorted_with_the_current_one_first() {
    let dirs = vec![
        found("zeta", true, true),
        found("logs", true, false),
        found("alpha", true, true),
        found("file", false, true),
        found("世界", true, true),
        found("Beta", true, true),
        found("alp", true, true),
    ];
    let names = |current: &str| -> Vec<String> {
        scan_worlds(&dirs, current).into_iter().map(|w| w.name).collect()
    };
    assert_eq!(names("zeta"), ["zeta", "Beta", "alp", "alpha", "世界"]);
    assert_eq!(names("none"), ["Beta", "alp", "alpha", "zeta", "世界"]);
    let list = scan_worlds(&dirs, "alpha");
    assert!(list[0].is_current && list[0].path == "/srv/alpha" && list[0].size_bytes == 7);
    assert!(list[1..].iter().all(|w| !w.is_current));
}

#[test]
fn worlds_without_a_name_keep_their_order() {
    let mut dirs = vec![found("a", true, true), found("b", true, true), found("c", true, true)];
    dirs[0].name = None;
    dirs[2].name = None;
    let list = scan_worlds(&dirs, "b");
    let shown: Vec<(&str, &str)> =
        list.iter().map(|w| (w.name.as_str(), w.path.as_str())).collect();
    assert_eq!(shown, [("b", "/srv/b"), ("?", "/srv/a"), ("?", "/srv/c")]);
    assert!(scan_worlds(&dirs, "?")[..2].iter().all(|w| w.is_current));
}

#[test]
fn worlds_sort_as_strings_do() {
    let names = ["b", "a", "ab", "", "a\u{10000}", "a\u{ffff}", "Z", "é", "e", "ba"];
    let dirs: Vec<FoundDir> = names.iter().map(|n| found(n, true, true)).collect();
    let mut expected: Vec<String> = names.iter().map(|n| n.to_string()).collect();
    expected.sort();
    let sorted: Vec<String> =
        scan_worlds(&dirs, "current").into_iter().map(|w| w.name).collect();
    assert_eq!(sorted, expected);
}

#[test]
fn directory_sizes_add_up() {
    let tree = DirTree::Dir(vec![
        DirTree::File(10),
        DirTree::Dir(vec![DirTree::File(5), DirTree::Nothing, DirTree::Dir(vec![])]),
        DirTree::File(1),
    ]);
    assert_eq!(dir_size(&tree), Some(16));
    assert_eq!(dir_size(&DirTree::Nothing), Some(0));
    let huge = DirTree::Dir(vec![DirTree::File(u64::MAX), DirTree::File(1)]);
    assert_eq!(dir_size(&huge), None);
    let full = DirTree::Dir(vec![DirTree::File(u64::MAX), DirTree::File(0)]);
    assert_eq!(dir_size(&full), Some(u64::MAX));
}

// ---------- Processes ----------

fn process(pid: u32, cmd: &[&str], in_server_dir: bool) -> ProcessInfo {
    ProcessInfo { pid, cmd: cmd.iter().map(|s| s.to_string()).collect(), in_server_dir }
}

#[test]
fn the_first_server_process_is_found() {
    let list = [
        process(1, &["java", "-jar", "paper-1.21.jar"], false),
        process(2, &["java", "-jar", "forge.jar"], true),
        process(3, &["less", "paper.jar.txt"], true),
        process(4, &["java", "-jar", "purpur.jar", "nogui"], true),
        process(5, &["spigot.jar"], true),
    ];
    assert_eq!(server_running_pid(&list), Some(4));
    assert_eq!(server_running_pid(&list[4..]), Some(5));
    assert_eq!(server_running_pid(&list[..3]), None);
    assert_eq!(server_running_pid(&[]), None);
}
