use nnn::landlock::{filesystem_rules, is_proc_link};
use nnn::landlock_raw::{fs_access_all, fs_access_read, fs_access_write, raw_plan};
use nnn::paths::{config_dir, expand, expand_tilde, global_config_path, path_join, trust_store_path};
use nnn::sandbox_rules::{effective_access, landlock_access_read, landlock_access_write, landlock_plan};
use nnn::settings::{Config, NetworkConfig};

fn s(v: &[&str]) -> Vec<String> {
    v.iter().map(|x| x.to_string()).collect()
}

fn home() -> Option<String> {
    Some("/home/u".to_string())
}

#[test]
fn tilde_expansion() {
    assert_eq!(expand_tilde("~", &home()), "/home/u");
    assert_eq!(expand_tilde("~/.cargo/", &home()), "/home/u/.cargo/");
    assert_eq!(expand_tilde("~/", &home()), "/home/u/");
    assert_eq!(expand_tilde("~user/x", &home()), "~user/x");
    assert_eq!(expand_tilde("/abs/~/x", &home()), "/abs/~/x");
    assert_eq!(expand_tilde("~/x", &None), "~/x");
    assert_eq!(expand_tilde("~", &None), "~");
    assert_eq!(expand_tilde("~/x", &Some("/root/".to_string())), "/root/x");
    assert_eq!(expand("~/src", &home()), vec!["/home/u/src".to_string()]);
}

#[test]
fn path_join_like_std() {
    for (a, b) in [("/a", "b"), ("/a/", "b"), ("", "b"), ("/a", "/b"), ("/a", ""), ("a", "b/c")] {
        let want = std::path::Path::new(a).join(b).to_string_lossy().to_string();
        assert_eq!(path_join(a, b), want, "join({a:?}, {b:?})");
    }
}

#[test]
fn config_locations() {
    assert_eq!(config_dir(&Some("/xdg".into()), &home()), "/xdg");
    assert_eq!(config_dir(&Some("".into()), &home()), "/home/u/.config");
    assert_eq!(config_dir(&None, &None), "~/.config");
    assert_eq!(global_config_path("/xdg"), "/xdg/nnn/config.toml");
    assert_eq!(trust_store_path("/home/u/.config"), "/home/u/.config/nnn/trusted.toml");
}

#[test]
fn access_masks() {
    assert_eq!(fs_access_all(), 0x1ffff);
    assert_eq!(fs_access_read(), 0xd);
    assert_eq!(fs_access_write(), 0x1ffff);
    assert_eq!(landlock_access_read(), 0xd);
    assert_eq!(landlock_access_write(0xffff), 0x7fff);
    assert_eq!(landlock_access_write(0x1fff), 0x1fff);
    assert_eq!(effective_access(0x7fff, true), 0x7fff);
    assert_eq!(effective_access(0x7fff, false), 0x4007);
    assert_eq!(effective_access(0x8, false), 0);
}

fn rule_list(rules: &[nnn::rules::PathRule]) -> Vec<(String, u64)> {
    rules.iter().map(|r| (r.path.clone(), r.access)).collect()
}

#[test]
fn landlock_plan_orders_rules() {
    let cfg = Config {
        allow_read: s(&["~/ro"]),
        allow_write: s(&["/w"]),
        allow_env: vec![],
        seccomp: None,
        network: NetworkConfig { deny_tcp: None, deny_udp: None, allow_ports: vec![] },
    };
    let plan = landlock_plan(&cfg, &Some("/cwd".into()), &home());
    assert_eq!(plan.fs_handled, 0xffff);
    assert_eq!(plan.net_handled, 0);
    assert!(plan.connect_ports.is_empty());
    assert!(!plan.udp_ignored);
    let rules = rule_list(&plan.path_rules);
    assert_eq!(rules.len(), 13 + 2 + 1 + 1 + 1);
    assert_eq!(rules[0], ("/usr".to_string(), 0xd));
    assert_eq!(rules[13], ("/dev/null".to_string(), 0x7fff));
    assert_eq!(rules[15], ("/cwd".to_string(), 0x7fff));
    assert_eq!(rules[16], ("/home/u/ro".to_string(), 0xd));
    assert_eq!(rules[17], ("/w".to_string(), 0x7fff));
}

#[test]
fn landlock_plan_network() {
    let cfg = Config {
        allow_read: vec![],
        allow_write: vec![],
        allow_env: vec![],
        seccomp: None,
        network: NetworkConfig { deny_tcp: None, deny_udp: Some(true), allow_ports: vec![443] },
    };
    let plan = landlock_plan(&cfg, &None, &None);
    assert_eq!(plan.net_handled, 3);
    assert_eq!(plan.connect_ports, vec![443]);
    assert!(plan.udp_ignored);
    assert_eq!(plan.path_rules.len(), 15);
}

#[test]
fn raw_plan_rules() {
    let plan = raw_plan(&s(&["/r"]), &s(&["/w"]), &[], false, &None, &["/usr"], &["/dev/null"]);
    assert_eq!(plan.fs_handled, 0x1ffff);
    assert_eq!(plan.net_handled, 0);
    assert_eq!(
        rule_list(&plan.path_rules),
        vec![
            ("/usr".to_string(), 0xd),
            ("/dev/null".to_string(), 0x1ffff),
            ("/r".to_string(), 0xd),
            ("/w".to_string(), 0x1ffff)
        ]
    );
    let plan = raw_plan(&[], &[], &[22], false, &Some("/c".into()), &[], &[]);
    assert_eq!(plan.net_handled, 3);
    assert_eq!(plan.connect_ports, vec![22]);
    assert_eq!(rule_list(&plan.path_rules), vec![("/c".to_string(), 0x1ffff)]);
}

#[test]
fn legacy_filesystem_rules() {
    let cfg = nnn::config::Config { allow_read: s(&["~"]), allow_write: s(&[]) };
    let rules = rule_list(&filesystem_rules(&cfg, 0xffff, &None, &home()));
    assert_eq!(rules.len(), 14 + 4 + 1);
    assert_eq!(rules[13], ("/tmp".to_string(), 0xd));
    assert_eq!(rules[17], ("/var/tmp".to_string(), 0x7fff));
    assert_eq!(rules[18], ("/home/u".to_string(), 0xd));
    assert!(is_proc_link("/proc/self/fd/3"));
    assert!(is_proc_link("/proc/1/root"));
    assert!(!is_proc_link("/procfs"));
}
