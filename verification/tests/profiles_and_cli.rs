use nnn::cli::{add_target, env_allowlist_lines, network_lines, paths_lines, ports_text, rewrite_args, decimal};
use nnn::config::{Config, ProfileDef};
use nnn::profile::{find, profile_rows, profiles_json};
use nnn::settings::NetworkConfig;

fn s(v: &[&str]) -> Vec<String> {
    v.iter().map(|x| x.to_string()).collect()
}

fn profile(names: &[&str], toolchain: bool, read: &[&str]) -> ProfileDef {
    ProfileDef { names: s(names), toolchain, config: Config { allow_read: s(read), allow_write: vec![] } }
}

#[test]
fn built_in_profiles_inflate_to_json() {
    assert_eq!(profiles_json(), Some(b"[]".to_vec()));
}

#[test]
fn find_merges_agent_with_base() {
    let ps = vec![
        profile(&["_base"], false, &["/usr"]),
        profile(&["editor", "Editor-Agent"], false, &["~/.editor", "/usr"]),
        profile(&["cargo", "rustc"], true, &["~/.cargo"]),
    ];
    let c = find(&ps, "EDITOR-agent").unwrap();
    assert_eq!(c.allow_read, s(&["/usr", "~/.editor"]));
    let c = find(&ps, "Rustc").unwrap();
    assert_eq!(c.allow_read, s(&["~/.cargo"]));
    assert!(find(&ps, "npm").is_none());
    let no_base = vec![profile(&["editor"], false, &["/x"])];
    assert_eq!(find(&no_base, "editor").unwrap().allow_read, s(&["/x"]));
}

#[test]
fn profile_listing() {
    let ps = vec![
        profile(&["_base"], false, &[]),
        profile(&["editor", "cc", "editor-agent"], false, &[]),
        profile(&["cargo"], true, &[]),
        profile(&[], true, &[]),
    ];
    let rows: Vec<(String, String, String)> =
        profile_rows(&ps).into_iter().map(|r| (r.name, r.kind, r.aliases)).collect();
    assert_eq!(
        rows,
        vec![
            ("editor".to_string(), "agent".to_string(), "cc, editor-agent".to_string()),
            ("cargo".to_string(), "toolchain".to_string(), String::new()),
            ("?".to_string(), "toolchain".to_string(), String::new()),
        ]
    );
}

#[test]
fn double_dash_means_exec() {
    assert_eq!(rewrite_args(s(&["nnn", "--", "ls", "-l"])), s(&["nnn", "exec", "--", "ls", "-l"]));
    assert_eq!(rewrite_args(s(&["nnn", "show"])), s(&["nnn", "show"]));
    assert_eq!(rewrite_args(s(&["nnn"])), s(&["nnn"]));
}

#[test]
fn add_target_choice() {
    assert_eq!(add_target(true, "/g/nnn/config.toml", &Some("/p/.nnn.toml".into()), "/r"), "/g/nnn/config.toml");
    assert_eq!(add_target(false, "/g", &Some("/p/.nnn.toml".into()), "/r"), "/p/.nnn.toml");
    assert_eq!(add_target(false, "/g", &None, "/r"), "/r/.nnn.toml");
    assert_eq!(add_target(false, "/g", &None, "."), "./.nnn.toml");
}

#[test]
fn show_lines() {
    assert_eq!(paths_lines("allow-read", &[]), s(&["  allow-read: (none)"]));
    assert_eq!(paths_lines("allow-write", &s(&["/a", "/b"])), s(&["  allow-write:", "    /a", "    /b"]));
    let net = NetworkConfig { deny_tcp: Some(true), deny_udp: None, allow_ports: vec![80, 443] };
    assert_eq!(network_lines(&net), s(&["  network:", "    deny-tcp: true", "    allow-ports: [80, 443]"]));
    let open = NetworkConfig { deny_tcp: None, deny_udp: None, allow_ports: vec![] };
    assert_eq!(network_lines(&open), s(&["  network: (unrestricted)"]));
    let lines = env_allowlist_lines(&s(&["DISPLAY"]));
    assert_eq!(lines[0], "  allow-env (built-in): HOME USER LOGNAME UID PATH SHELL TERM COLORTERM LANG LC_* XDG_*");
    assert_eq!(lines[1], "  allow-env (config): DISPLAY");
    assert_eq!(env_allowlist_lines(&[]).len(), 1);
}

#[test]
fn ports_render_like_debug() {
    for ports in [vec![], vec![0u16], vec![7, 65535, 10]] {
        assert_eq!(ports_text(&ports), format!("{ports:?}"));
    }
    assert_eq!(decimal(0), "0");
    assert_eq!(decimal(65535), "65535");
}
