use mc_tui::natfrp::{
    classify_ureq_error, create_tunnel_reply, fmt_bytes, is_game_node, node_label,
    parse_create_tunnel_id, parse_launcher_tunnels, parse_nodes, parse_tunnel_traffic,
    parse_tunnels, parse_user_info, public_address, redact_token, reply_done, reply_text,
    traffic_by_time, tunnel_traffic_reply, tunnels_status_reply, validate_tunnel_name, ApiRequest,
    ApiResult, Client, HttpFailure, LauncherClient, NatfrpError, Node, Payload, Reply, Tunnel,
    UserGroup, UserInfo,
};
use mc_tui::sizes::shorten;
use serde_json::Value;
use std::collections::HashMap;

const SAMPLE_USER: &str = r#"{"id":12345,"name":"sample-user","avatar":"https://x","token":"FAKE_TOKEN_FOR_TESTS","speed":"10 Mbps","tunnels":2,"realname":2,"group":{"name":"普通用户","level":0,"expires":0},"traffic":[8449054,14057568840],"sign":{"config":[1,4],"signed":true,"last":"2026-05-01","days":5,"traffic":14.8},"bandwidth":null}"#;

const SAMPLE_TUNNELS: &str = r#"[{"id":27014725,"name":"mc_fuchenling","node":218,"type":"tcp","online":true,"status":0,"status_reason":null,"note":"hi","extra":"","remote":"36192","local_ip":"127.0.0.1","local_port":25565,"export":false}]"#;

const SAMPLE_NODES: &str = r#"{"218":{"name":"镇江多线PLUS-扩容1","host":"frp-way.com","description":"游戏专用","vip":0,"flag":44,"band":""},"2":{"name":"天津联通PLUS1","host":"frp-act.com","description":"","vip":0,"flag":44,"band":""}}"#;

const SAMPLE_TRAFFIC: &str = r#"{"1777615200":8449054,"1774937200":1234567}"#;

fn text(v: &Value, key: &str) -> String {
    v.get(key).and_then(Value::as_str).unwrap_or_default().to_string()
}

fn count(v: &Value, key: &str) -> u64 {
    v.get(key).and_then(Value::as_u64).unwrap_or_default()
}

fn document(body: &str) -> Result<Value, String> {
    serde_json::from_str(body).map_err(|e: serde_json::Error| e.to_string())
}

fn decode_user(body: &str) -> Result<UserInfo, String> {
    let v = document(body)?;
    let group = v.get("group").cloned().unwrap_or(Value::Null);
    Ok(UserInfo {
        id: count(&v, "id"),
        name: text(&v, "name"),
        speed: text(&v, "speed"),
        tunnels: count(&v, "tunnels") as u32,
        group: UserGroup { name: text(&group, "name"), level: count(&group, "level") as i32 },
        traffic: v["traffic"].as_array().unwrap().iter().map(|x| x.as_u64().unwrap()).collect(),
    })
}

fn decode_tunnels(body: &str) -> Result<Vec<Tunnel>, String> {
    let v = document(body)?;
    Ok(v.as_array()
        .unwrap()
        .iter()
        .map(|t| Tunnel {
            id: count(t, "id"),
            name: text(t, "name"),
            node: count(t, "node"),
            kind: text(t, "type"),
            online: t.get("online").and_then(Value::as_bool).unwrap_or_default(),
            note: text(t, "note"),
            local_ip: text(t, "local_ip"),
            local_port: count(t, "local_port") as u16,
            remote: text(t, "remote"),
        })
        .collect())
}

fn decode_nodes(body: &str) -> Result<Vec<(String, Node)>, String> {
    let v = document(body)?;
    Ok(v.as_object()
        .unwrap()
        .iter()
        .map(|(k, n)| {
            let node = Node {
                name: text(n, "name"),
                host: text(n, "host"),
                description: text(n, "description"),
                flag: count(n, "flag") as u32,
                vip: count(n, "vip") as u32,
            };
            (k.clone(), node)
        })
        .collect())
}

fn sample_tunnels() -> Vec<Tunnel> {
    parse_tunnels(decode_tunnels(SAMPLE_TUNNELS)).unwrap()
}

fn sample_nodes() -> HashMap<u64, Node> {
    parse_nodes(decode_nodes(SAMPLE_NODES)).unwrap()
}

fn a_node(desc: &str) -> Node {
    Node { name: "n".into(), host: "h".into(), description: desc.into(), flag: 0, vip: 0 }
}

fn a_form(request: ApiRequest) -> Vec<(String, String)> {
    match request.payload {
        Payload::PostForm(fields) => fields,
        _ => panic!("expected a form"),
    }
}

fn field(name: &str, value: &str) -> (String, String) {
    (name.to_string(), value.to_string())
}

#[test]
fn parses_user_info() {
    let u = parse_user_info(decode_user(SAMPLE_USER)).unwrap();
    assert_eq!(u.id, 12345);
    assert_eq!(u.name, "sample-user");
    assert_eq!(u.tunnels, 2);
    assert_eq!(u.group.name, "普通用户");
    assert_eq!(u.traffic, vec![8449054_u64, 14057568840_u64]);
}

#[test]
fn parses_tunnels() {
    let ts = parse_tunnels(decode_tunnels(SAMPLE_TUNNELS)).unwrap();
    assert_eq!(ts.len(), 1);
    let t = &ts[0];
    assert_eq!(t.id, 27014725);
    assert_eq!(t.name, "mc_fuchenling");
    assert_eq!(t.node, 218);
    assert_eq!(t.kind, "tcp");
    assert_eq!(t.local_port, 25565);
    assert_eq!(t.remote, "36192");
    assert!(t.online);
}

#[test]
fn parses_nodes() {
    let ns = sample_nodes();
    assert_eq!(ns.len(), 2);
    assert_eq!(ns.get(&218).unwrap().host, "frp-way.com");
    assert_eq!(ns.get(&2).unwrap().name, "天津联通PLUS1");
}

#[test]
fn parses_tunnel_traffic() {
    let m = parse_tunnel_traffic(SAMPLE_TRAFFIC).unwrap();
    assert_eq!(m.get(&1777615200).copied(), Some(8449054));
    assert_eq!(m.get(&1774937200).copied(), Some(1234567));
}

#[test]
fn composes_public_address() {
    let ts = sample_tunnels();
    let ns = sample_nodes();
    assert_eq!(public_address(&ts[0], &ns).as_deref(), Some("frp-way.com:36192"));
}

#[test]
fn public_address_none_when_node_missing() {
    let ts = sample_tunnels();
    let ns: HashMap<u64, Node> = HashMap::new();
    assert!(public_address(&ts[0], &ns).is_none());
}

#[test]
fn node_label_falls_back_to_id() {
    let ns = sample_nodes();
    assert_eq!(node_label(218, &ns), "#218 镇江多线PLUS-扩容1");
    assert_eq!(node_label(99999, &ns), "#99999");
}

#[test]
fn formats_bytes() {
    assert_eq!(fmt_bytes(0), "0 B");
    assert_eq!(fmt_bytes(500), "500 B");
    assert_eq!(fmt_bytes(2048), "2 KB");
    assert_eq!(fmt_bytes(1_500_000), "1.4 MB");
    assert_eq!(fmt_bytes(2_500_000_000), "2.33 GB");
}

#[test]
fn redacts_token() {
    assert_eq!(redact_token("abcd1234efgh5678"), "abcd****");
    assert_eq!(redact_token("ab"), "ab****");
}

#[test]
fn public_address_skips_when_remote_empty() {
    let mut ts = sample_tunnels();
    ts[0].remote.clear();
    let ns = sample_nodes();
    assert!(public_address(&ts[0], &ns).is_none());
}

#[test]
fn parse_returns_parse_variant_on_bad_json() {
    let err = parse_user_info(decode_user("{not json}")).unwrap_err();
    match err {
        NatfrpError::Parse(_) => {}
        other => panic!("expected Parse, got {:?}", other),
    }
}

#[test]
fn validate_tunnel_name_accepts_alnum_underscore_only() {
    assert!(validate_tunnel_name("mc_fuchenling"));
    assert!(validate_tunnel_name("server1"));
    assert!(validate_tunnel_name("a"));
    assert!(validate_tunnel_name("ABC_123"));
}

#[test]
fn validate_tunnel_name_rejects_invalid_input() {
    assert!(!validate_tunnel_name(""));
    assert!(!validate_tunnel_name("mc-fuchenling"));
    assert!(!validate_tunnel_name("server name"));
    assert!(!validate_tunnel_name("中文"));
    assert!(!validate_tunnel_name(&"a".repeat(33)));
}

#[test]
fn is_game_node_picks_up_common_markers() {
    assert!(is_game_node(&a_node("游戏专用")));
    assert!(is_game_node(&a_node("CN-华北 游戏专用 BGP")));
    assert!(is_game_node(&a_node("Minecraft optimized")));
    assert!(is_game_node(&a_node("GAME node")));
    assert!(is_game_node(&a_node("mc")));
    assert!(!is_game_node(&a_node("普通节点 BGP")));
    assert!(!is_game_node(&a_node("")));
}

#[test]
fn parse_create_tunnel_id_handles_envelope_shapes() {
    assert_eq!(parse_create_tunnel_id(r#"{"id":42}"#), Some(42));
    assert_eq!(parse_create_tunnel_id(r#"{"code":0,"data":{"id":99}}"#), Some(99));
    assert_eq!(parse_create_tunnel_id(r#"{"ok":true}"#), None);
    assert_eq!(parse_create_tunnel_id("not json"), None);
}

#[test]
fn parses_node_with_vip_field() {
    let body = r#"{"218":{"name":"test","host":"h","description":"游戏专用","vip":3,"flag":44}}"#;
    let ns = parse_nodes(decode_nodes(body)).unwrap();
    assert_eq!(ns.get(&218).unwrap().vip, 3);
}

#[test]
fn parse_launcher_tunnels_accepts_array_of_objects() {
    let body = r#"[{"id":1,"enabled":true},{"id":2,"enabled":false}]"#;
    let m = parse_launcher_tunnels(body).unwrap();
    assert_eq!(m.get(&1).copied(), Some(true));
    assert_eq!(m.get(&2).copied(), Some(false));
}

#[test]
fn parse_launcher_tunnels_accepts_envelope_with_tunnels_key() {
    let body = r#"{"tunnels":[{"id":3,"running":true},{"Id":4,"Running":false}]}"#;
    let m = parse_launcher_tunnels(body).unwrap();
    assert_eq!(m.get(&3).copied(), Some(true));
    assert_eq!(m.get(&4).copied(), Some(false));
}

#[test]
fn parse_launcher_tunnels_accepts_flat_id_to_bool_map() {
    let body = r#"{"7":true,"8":false}"#;
    let m = parse_launcher_tunnels(body).unwrap();
    assert_eq!(m.get(&7).copied(), Some(true));
    assert_eq!(m.get(&8).copied(), Some(false));
}

#[test]
fn parse_launcher_tunnels_returns_empty_for_unrecognized_shape() {
    let body = r#"{"unrelated":"shape"}"#;
    let m = parse_launcher_tunnels(body).unwrap();
    assert!(m.is_empty());
}

#[test]
fn parse_launcher_tunnels_propagates_json_error() {
    let err = parse_launcher_tunnels("garbage").unwrap_err();
    match err {
        NatfrpError::Parse(_) => {}
        other => panic!("expected Parse, got {:?}", other),
    }
}

#[test]
fn natfrp_error_display_is_specific_per_variant() {
    assert!(NatfrpError::Unauthorized.to_string().contains("401"));
    assert!(NatfrpError::Forbidden.to_string().contains("403"));
    assert!(NatfrpError::ServerError(503).to_string().contains("503"));
    assert!(NatfrpError::HttpError(404).to_string().contains("404"));
    let net = NatfrpError::Network("dns failed".into()).to_string();
    assert!(net.contains("dns failed"));
    let parse = NatfrpError::Parse("bad json".into()).to_string();
    assert!(parse.contains("bad json"));
}

#[test]
fn error_messages_in_full() {
    assert_eq!(NatfrpError::Unauthorized.to_string(), "401 Unauthorized");
    assert_eq!(NatfrpError::Forbidden.clone().to_string(), "403 Forbidden");
    assert_eq!(NatfrpError::ServerError(502).to_string(), "502 server error");
    assert_eq!(NatfrpError::HttpError(429).to_string(), "HTTP 429");
    assert_eq!(NatfrpError::Network("x".into()).to_string(), "network: x");
    assert_eq!(NatfrpError::Parse("y".into()).to_string(), "parse: y");
}

#[test]
fn json_error_message_is_passed_on() {
    let why = serde_json::from_str::<Value>("garbage").unwrap_err().to_string();
    match parse_launcher_tunnels("garbage").unwrap_err() {
        NatfrpError::Parse(m) => assert_eq!(m, format!("launcher tunnels: {why}")),
        other => panic!("unexpected {:?}", other),
    }
    let why = serde_json::from_str::<HashMap<String, u64>>(r#"{"1":-4}"#).unwrap_err().to_string();
    match parse_tunnel_traffic(r#"{"1":-4}"#).unwrap_err() {
        NatfrpError::Parse(m) => assert_eq!(m, format!("/tunnel/traffic: {why}")),
        other => panic!("unexpected {:?}", other),
    }
}

#[test]
fn non_numeric_keys_are_parse_errors() {
    match parse_tunnel_traffic(r#"{"noon":4}"#).unwrap_err() {
        NatfrpError::Parse(m) => assert_eq!(m, "non-numeric ts: noon"),
        other => panic!("unexpected {:?}", other),
    }
    let nodes = vec![("1".to_string(), a_node("")), ("x1".to_string(), a_node(""))];
    match parse_nodes(Ok(nodes)).unwrap_err() {
        NatfrpError::Parse(m) => assert_eq!(m, "non-numeric node id: x1"),
        other => panic!("unexpected {:?}", other),
    }
    match parse_nodes(Err("why".to_string())).unwrap_err() {
        NatfrpError::Parse(m) => assert_eq!(m, "/nodes: why"),
        other => panic!("unexpected {:?}", other),
    }
    match parse_tunnels(Err("why".to_string())).unwrap_err() {
        NatfrpError::Parse(m) => assert_eq!(m, "/tunnels: why"),
        other => panic!("unexpected {:?}", other),
    }
    match traffic_by_time(vec![field("", "").0].into_iter().map(|k| (k, 1)).collect()) {
        Err(NatfrpError::Parse(m)) => assert_eq!(m, "non-numeric ts: "),
        _ => panic!("expected an error"),
    }
}

#[test]
fn a_later_spelling_of_a_number_wins() {
    let m = traffic_by_time(vec![("7".to_string(), 1), ("+07".to_string(), 2)]).unwrap();
    assert_eq!(m.len(), 1);
    assert_eq!(m.get(&7).copied(), Some(2));
    let m = parse_launcher_tunnels(r#"{"7":true,"+7":false,"007":false}"#).unwrap();
    assert_eq!(m.len(), 1);
    assert_eq!(m.get(&7).copied(), Some(true));
}

#[test]
fn launcher_entries_prefer_the_plain_field() {
    let body = r#"[{"id":"x","Id":5,"enabled":null,"Enabled":true,"running":false},
        {"id":6,"Id":7,"enabled":false,"Enabled":true},{"id":-1,"enabled":true},{"id":9},4,
        {"id":6,"running":true}]"#;
    let m = parse_launcher_tunnels(body).unwrap();
    assert_eq!(m.len(), 2);
    assert_eq!(m.get(&5).copied(), Some(true));
    assert_eq!(m.get(&6).copied(), Some(true));
    assert!(parse_launcher_tunnels("3").unwrap().is_empty());
    assert!(parse_launcher_tunnels("null").unwrap().is_empty());
    assert!(parse_launcher_tunnels("\"text\"").unwrap().is_empty());
}

#[test]
fn a_bare_list_and_an_envelope_say_the_same() {
    let list = r#"[{"id":1,"enabled":true},{"Id":2,"Running":false}]"#;
    let bare = parse_launcher_tunnels(list).unwrap();
    let wrapped = parse_launcher_tunnels(&format!("{{\"tunnels\":{list},\"3\":true}}")).unwrap();
    assert_eq!(bare, wrapped);
    let flat = parse_launcher_tunnels(r#"{"tunnels":7,"3":true}"#).unwrap();
    assert_eq!(flat.get(&3).copied(), Some(true));
}

#[test]
fn created_id_prefers_the_top_level() {
    assert_eq!(parse_create_tunnel_id(r#"{"id":1,"data":{"id":2}}"#), Some(1));
    assert_eq!(parse_create_tunnel_id(r#"{"id":"1","data":{"id":2}}"#), Some(2));
    assert_eq!(parse_create_tunnel_id(r#"{"data":[{"id":2}]}"#), None);
    assert_eq!(parse_create_tunnel_id(r#"[{"id":2}]"#), None);
}

#[test]
fn statuses_become_errors() {
    let of = |code: u16| classify_ureq_error(HttpFailure::Status(code));
    assert!(matches!(of(401), NatfrpError::Unauthorized));
    assert!(matches!(of(403), NatfrpError::Forbidden));
    assert!(matches!(of(500), NatfrpError::ServerError(500)));
    assert!(matches!(of(599), NatfrpError::ServerError(599)));
    assert!(matches!(of(600), NatfrpError::HttpError(600)));
    assert!(matches!(of(499), NatfrpError::HttpError(499)));
    assert!(matches!(of(404), NatfrpError::HttpError(404)));
    match classify_ureq_error(HttpFailure::Transport("dns".into())) {
        NatfrpError::Network(m) => assert_eq!(m, "dns"),
        other => panic!("unexpected {:?}", other),
    }
}

#[test]
fn replies_become_results() {
    assert_eq!(reply_text(Reply::Body("ok".into())).unwrap(), "ok");
    assert!(matches!(
        reply_text(Reply::Failed(HttpFailure::Status(401))),
        Err(NatfrpError::Unauthorized)
    ));
    assert!(reply_done(Reply::Body("anything".into())).is_ok());
    match reply_done(Reply::Unread("cut off".into())) {
        Err(NatfrpError::Network(m)) => assert_eq!(m, "cut off"),
        _ => panic!("expected a network error"),
    }
    assert_eq!(create_tunnel_reply(Reply::Body(r#"{"id":8}"#.into())).unwrap(), Some(8));
    assert_eq!(create_tunnel_reply(Reply::Body("fine".into())).unwrap(), None);
    assert!(matches!(
        create_tunnel_reply(Reply::Failed(HttpFailure::Status(503))),
        Err(NatfrpError::ServerError(503))
    ));
    let states = tunnels_status_reply(Reply::Body(r#"{"7":true}"#.into())).unwrap();
    assert_eq!(states.get(&7).copied(), Some(true));
    let traffic = tunnel_traffic_reply(Reply::Body(SAMPLE_TRAFFIC.into())).unwrap();
    assert_eq!(traffic.len(), 2);
}

#[test]
fn requests_of_the_service() {
    let c = Client::new("tok".to_string());
    assert_eq!(c.timeout_secs, 8);
    let r = c.user_info();
    assert_eq!(r.url, "https://api.natfrp.com/v4/user/info");
    assert_eq!(r.authorization, "Bearer tok");
    assert!(matches!(r.payload, Payload::Get));
    assert_eq!(c.tunnels().url, "https://api.natfrp.com/v4/tunnels");
    assert_eq!(c.nodes().url, "https://api.natfrp.com/v4/nodes");
    assert_eq!(c.tunnel_traffic(12).url, "https://api.natfrp.com/v4/tunnel/traffic?id=12");
    let r = c.create_tunnel("mc", 218, 25565);
    assert_eq!(r.url, "https://api.natfrp.com/v4/tunnels");
    assert_eq!(
        a_form(r),
        vec![
            field("name", "mc"),
            field("type", "tcp"),
            field("node", "218"),
            field("local_ip", "127.0.0.1"),
            field("local_port", "25565"),
        ]
    );
    let r = c.migrate_tunnel(5, 6);
    assert_eq!(r.url, "https://api.natfrp.com/v4/tunnel/migrate");
    assert_eq!(a_form(r), vec![field("id", "5"), field("node", "6")]);
    assert!(c.delete_tunnels(&[]).is_none());
    let r = c.delete_tunnels(&[1, 20, 300]).unwrap();
    assert_eq!(r.url, "https://api.natfrp.com/v4/tunnel/delete");
    assert_eq!(a_form(r), vec![field("ids", "1,20,300")]);
}

#[test]
fn requests_of_the_launcher() {
    let c: ApiResult<LauncherClient> = LauncherClient::new("pw".to_string());
    let c = c.unwrap();
    assert_eq!(c.timeout_secs, 5);
    assert_eq!(c.auth_header(), "Bearer pw");
    let r = c.tunnels_status();
    assert_eq!(r.url, "https://127.0.0.1:7102/api/tunnels");
    assert!(matches!(r.payload, Payload::Get));
    let r = c.enable(9);
    assert_eq!(r.url, "https://127.0.0.1:7102/api/tunnel/9/enable");
    assert_eq!(r.authorization, "Bearer pw");
    assert!(matches!(r.payload, Payload::PostEmpty));
    assert_eq!(c.disable(10).url, "https://127.0.0.1:7102/api/tunnel/10/disable");
}

#[test]
fn game_markers_count_wherever_they_stand() {
    assert!(is_game_node(&a_node("MC专线")));
    assert!(is_game_node(&a_node("MC server")));
    assert!(is_game_node(&a_node("for MC")));
    assert!(is_game_node(&a_node("for mc use")));
    assert!(is_game_node(&a_node("emcs")));
    assert!(is_game_node(&a_node("minigames")));
    assert!(is_game_node(&a_node("适合游戏")));
    assert!(!is_game_node(&a_node("m c")));
    assert!(!is_game_node(&a_node("游 戏")));
}

#[test]
fn default_group_is_blank() {
    let g = UserGroup::default();
    assert_eq!(g.name, "");
    assert_eq!(g.level, 0);
}

#[test]
fn tunnel_sizes_show_no_idle_zeros() {
    assert_eq!(fmt_bytes(1_288_490_189), "1.2 GB");
    assert_eq!(fmt_bytes(512 * 1024 * 1024), "512 MB");
    assert_eq!(fmt_bytes(42 * 1024), "42 KB");
    assert_eq!(fmt_bytes(7), "7 B");
    assert_eq!(shorten("100"), "100");
    assert_eq!(shorten("100.00"), "100");
    assert_eq!(shorten("0.10"), "0.1");
    assert_eq!(shorten("2.05"), "2.05");
}

#[test]
fn tokens_are_shown_by_their_front_alone() {
    assert_eq!(redact_token("abcdX"), redact_token("abcdY and more"));
    assert_eq!(redact_token("abcd"), "abcd****");
    assert_eq!(redact_token(""), "****");
    assert_ne!(redact_token("abc"), redact_token("abcd"));
    assert_eq!(redact_token("令牌一二三"), "令牌一二****");
}

#[test]
fn tunnel_sizes_match_double_precision() {
    const KB: u64 = 1024;
    const MB: u64 = 1024 * KB;
    const GB: u64 = 1024 * MB;
    const TB: u64 = 1024 * GB;
    let short =
        |s: String| s.trim_end_matches('0').trim_end_matches('.').to_string();
    let reference = |n: u64| {
        if n >= TB {
            format!("{} TB", short(format!("{:.2}", n as f64 / TB as f64)))
        } else if n >= GB {
            format!("{} GB", short(format!("{:.2}", n as f64 / GB as f64)))
        } else if n >= MB {
            format!("{} MB", short(format!("{:.1}", n as f64 / MB as f64)))
        } else if n >= KB {
            format!("{} KB", n / KB)
        } else {
            format!("{} B", n)
        }
    };
    let mut n: u64 = 1;
    let mut x: u64 = 88172645463325252;
    for shift in 0..64 {
        for _ in 0..300 {
            x ^= x << 13;
            x ^= x >> 7;
            x ^= x << 17;
            let sample = x >> shift;
            assert_eq!(fmt_bytes(sample), reference(sample), "{sample}");
        }
        for near in [n.wrapping_sub(1), n, n.wrapping_add(1)] {
            assert_eq!(fmt_bytes(near), reference(near), "{near}");
        }
        n = n.wrapping_mul(2);
    }
    for odd in [1u64, 3, 5, 7, 9, 11, 13, 201, 203, 205, 1000005] {
        for (unit, parts) in [(MB, 4u64), (GB, 8), (TB, 8), (TB, 200)] {
            let tie = odd * unit / parts;
            for near in [tie - 1, tie, tie + 1] {
                assert_eq!(fmt_bytes(near), reference(near), "{near}");
            }
        }
    }
    assert_eq!(fmt_bytes(u64::MAX), "16777216 TB");
    assert_eq!(fmt_bytes(10 * MB), "10 MB");
    assert_eq!(fmt_bytes(100 * GB), "100 GB");
    assert_eq!(fmt_bytes(TB + TB / 2), "1.5 TB");
    assert_eq!(fmt_bytes(MB + MB / 4), "1.2 MB");
    assert_eq!(fmt_bytes(MB + 3 * MB / 4), "1.8 MB");
}
