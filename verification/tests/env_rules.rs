use nnn::env_policy::{default_env_allowlist, env_matches, hardened_env};
use nnn::sanitize::is_dangerous;

#[test]
fn test_env_matches_exact() {
    let defaults = default_env_allowlist();
    assert!(env_matches("HOME", &defaults));
    assert!(env_matches("PATH", &defaults));
    assert!(env_matches("LANG", &defaults));
    assert!(!env_matches("AWS_SECRET_KEY", &defaults));
    assert!(!env_matches("GITHUB_TOKEN", &defaults));
    assert!(!env_matches("LD_PRELOAD", &defaults));
}

#[test]
fn test_env_matches_prefix() {
    let defaults = default_env_allowlist();
    assert!(env_matches("LC_ALL", &defaults));
    assert!(env_matches("LC_CTYPE", &defaults));
    assert!(env_matches("XDG_RUNTIME_DIR", &defaults));
    assert!(env_matches("XDG_CONFIG_HOME", &defaults));
    assert!(env_matches("XDG_DATA_HOME", &defaults));
    // "LC" without underscore should not match "LC_*" prefix
    assert!(!env_matches("LC", &defaults));
}

#[test]
fn test_is_dangerous() {
    assert!(is_dangerous("LD_PRELOAD"));
    assert!(is_dangerous("LD_LIBRARY_PATH"));
    assert!(is_dangerous("DYLD_INSERT_LIBRARIES"));
    assert!(!is_dangerous("HOME"));
    assert!(!is_dangerous("PATH"));
}

#[test]
fn test_hardened_env_extra_allow() {
    let extra = vec!["DISPLAY".to_string(), "MY_APP_*".to_string()];
    assert!(env_matches("DISPLAY", &extra));
    assert!(env_matches("MY_APP_TOKEN", &extra));
    assert!(!env_matches("OTHER_TOKEN", &extra));
}

fn pair(k: &str, v: &str) -> (String, String) {
    (k.to_string(), v.to_string())
}

#[test]
fn hardened_env_keeps_allowed_drops_the_rest_and_injects() {
    let vars = vec![
        pair("HOME", "/home/u"),
        pair("LD_PRELOAD", "/evil.so"),
        pair("AWS_SECRET_KEY", "x"),
        pair("NNN", "0"),
        pair("LC_ALL", "C"),
        pair("DISPLAY", ":0"),
        pair("XDG_RUNTIME_DIR", "/run/user/1"),
    ];
    let extra = vec!["DISPLAY".to_string()];
    let env = hardened_env(vars, &extra);
    assert_eq!(
        env,
        vec![
            pair("HOME", "/home/u"),
            pair("LC_ALL", "C"),
            pair("DISPLAY", ":0"),
            pair("XDG_RUNTIME_DIR", "/run/user/1"),
            pair("NNN", "1"),
            pair("TMPDIR", "/tmp/nnn"),
        ]
    );
}

#[test]
fn hardened_env_drops_ld_even_when_allow_listed() {
    let vars = vec![pair("LD_LIBRARY_PATH", "/x"), pair("DYLD_X", "y")];
    let extra = vec!["LD_*".to_string(), "DYLD_*".to_string()];
    let env = hardened_env(vars, &extra);
    assert_eq!(env, vec![pair("NNN", "1"), pair("TMPDIR", "/tmp/nnn")]);
}

#[test]
fn sanitize_strips_dangerous_and_marks() {
    let vars = vec![pair("LD_PRELOAD", "a"), pair("FOO", "b"), pair("DYLD_LIBRARY_PATH", "c")];
    let env = nnn::sanitize::hardened_env(vars);
    assert_eq!(env, vec![pair("FOO", "b"), pair("NOUNOURS", "1")]);
}

#[test]
fn env_pattern_star_alone_matches_everything() {
    let pats = vec!["*".to_string()];
    assert!(env_matches("ANYTHING", &pats));
    assert!(env_matches("", &pats));
    let none: Vec<String> = Vec::new();
    assert!(!env_matches("HOME", &none));
}
