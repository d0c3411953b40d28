use nnn::config::Config as PathConfig;
use nnn::settings::{
    apply_exec_flags, env_overrides, flag_set, parse_path_list, parse_port_list, project_choice,
    read_write_wins, Config, NetworkConfig,
};

fn s(v: &[&str]) -> Vec<String> {
    v.iter().map(|x| x.to_string()).collect()
}

fn full(read: &[&str], write: &[&str], env: &[&str], seccomp: Option<bool>, tcp: Option<bool>, udp: Option<bool>, ports: &[u16]) -> Config {
    Config {
        allow_read: s(read),
        allow_write: s(write),
        allow_env: s(env),
        seccomp,
        network: NetworkConfig { deny_tcp: tcp, deny_udp: udp, allow_ports: ports.to_vec() },
    }
}

#[test]
fn path_config_merge_appends_missing_in_order() {
    let global = PathConfig { allow_read: s(&["/usr", "/lib"]), allow_write: s(&["/tmp"]) };
    let project = PathConfig { allow_read: s(&["./src", "/usr"]), allow_write: s(&["./out", "/tmp"]) };
    let m = global.merge(&project);
    assert_eq!(m.allow_read, s(&["/usr", "/lib", "./src"]));
    assert_eq!(m.allow_write, s(&["/tmp", "./out"]));
}

#[test]
fn path_config_merge_is_idempotent() {
    let a = PathConfig { allow_read: s(&["/a"]), allow_write: s(&[]) };
    let b = PathConfig { allow_read: s(&["/b", "/a"]), allow_write: s(&["/w"]) };
    let once = a.merge(&b);
    let twice = once.merge(&b);
    assert_eq!(once.allow_read, twice.allow_read);
    assert_eq!(once.allow_write, twice.allow_write);
    let empty = PathConfig { allow_read: vec![], allow_write: vec![] };
    let same = a.merge(&empty);
    assert_eq!(same.allow_read, a.allow_read);
}

#[test]
fn config_merge_overlay_settings_win() {
    let base = full(&["/usr"], &["/tmp"], &["A"], Some(true), Some(false), None, &[80]);
    let over = full(&["/usr", "/x"], &[], &["B"], Some(false), None, Some(true), &[443, 80]);
    let m = base.merge(&over);
    assert_eq!(m.allow_read, s(&["/usr", "/x"]));
    assert_eq!(m.allow_write, s(&["/tmp"]));
    assert_eq!(m.allow_env, s(&["A", "B"]));
    assert_eq!(m.seccomp, Some(false));
    assert_eq!(m.network.deny_tcp, Some(false));
    assert_eq!(m.network.deny_udp, Some(true));
    assert_eq!(m.network.allow_ports, vec![80, 443]);
    assert!(!m.seccomp_enabled());
    assert!(!m.network.is_deny_tcp());
    assert!(m.network.is_deny_udp());
}

#[test]
fn config_defaults() {
    let c = Config::empty();
    assert!(c.seccomp_enabled());
    assert!(!c.network.is_deny_tcp());
    assert!(!c.network.is_deny_udp());
    let m = c.merge(&Config::empty());
    assert!(m.allow_read.is_empty() && m.seccomp.is_none());
}

#[test]
fn path_list_trims_skips_empty_and_dedups() {
    assert_eq!(parse_path_list(" /a, /b ,,/a,\t/c\n"), s(&["/a", "/b", "/c"]));
    assert_eq!(parse_path_list(""), Vec::<String>::new());
    assert_eq!(parse_path_list(" , "), Vec::<String>::new());
}

#[test]
fn port_list_skips_invalid() {
    assert_eq!(parse_port_list("80, 443,abc,,80,+22,65535,65536,-1"), vec![80, 443, 22, 65535]);
    assert_eq!(parse_port_list("0"), vec![0]);
}

#[test]
fn flags_are_true_or_one() {
    assert!(flag_set(&Some("true".to_string())));
    assert!(flag_set(&Some("1".to_string())));
    assert!(!flag_set(&Some("TRUE".to_string())));
    assert!(!flag_set(&Some("yes".to_string())));
    assert!(!flag_set(&None));
}

#[test]
fn env_overrides_build_a_config() {
    let c = env_overrides(
        &Some("/ro1,/ro2".to_string()),
        &Some("/rw".to_string()),
        &Some("80,x".to_string()),
        &Some("1".to_string()),
        &None,
    );
    assert_eq!(c.allow_read, s(&["/ro1", "/ro2"]));
    assert_eq!(c.allow_write, s(&["/rw"]));
    assert_eq!(c.network.allow_ports, vec![80]);
    assert_eq!(c.network.deny_tcp, Some(true));
    assert_eq!(c.network.deny_udp, None);
    assert!(c.allow_env.is_empty() && c.seccomp.is_none());
}

#[test]
fn exec_flags_then_read_write_wins() {
    let mut c = full(&["/a", "/b"], &["/c"], &[], None, None, None, &[]);
    apply_exec_flags(&mut c, true, &s(&["/d", "/a"]), &s(&["/b"]), &[8080]);
    assert_eq!(c.network.deny_tcp, Some(true));
    assert_eq!(c.allow_read, s(&["/a", "/b", "/d"]));
    assert_eq!(c.allow_write, s(&["/c", "/b"]));
    assert_eq!(c.network.allow_ports, vec![8080]);
    read_write_wins(&mut c);
    assert_eq!(c.allow_read, s(&["/a", "/d"]));
    assert_eq!(c.allow_write, s(&["/c", "/b"]));
}

#[test]
fn exec_flag_off_keeps_deny_tcp() {
    let mut c = full(&[], &[], &[], None, Some(false), None, &[]);
    apply_exec_flags(&mut c, false, &[], &[], &[]);
    assert_eq!(c.network.deny_tcp, Some(false));
}

#[test]
fn discovered_project_config_needs_trust() {
    assert_eq!(project_choice(Some("/x/.nnn.toml".into()), Some("/y/.nnn.toml".into())), Some(("/x/.nnn.toml".to_string(), false)));
    assert_eq!(project_choice(None, Some("/y/.nnn.toml".into())), Some(("/y/.nnn.toml".to_string(), true)));
    assert_eq!(project_choice(None, None), None);
}
