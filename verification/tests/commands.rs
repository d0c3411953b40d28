use nnn::command::{check, default_denied, CommandConfig};

fn s(v: &[&str]) -> Vec<String> {
    v.iter().map(|x| x.to_string()).collect()
}

fn cfg(allow: &[&str], deny: &[&str], default_denied: Option<bool>) -> CommandConfig {
    CommandConfig { allow: s(allow), deny: s(deny), default_denied }
}

#[test]
fn empty_command_is_allowed() {
    assert_eq!(check(&[], &cfg(&[], &["ls"], None), false), Ok(()));
}

#[test]
fn default_deny_blocks_by_basename() {
    let r = check(&s(&["/sbin/shutdown", "-h", "now"]), &cfg(&[], &[], None), false);
    assert_eq!(
        r,
        Err("command blocked: /sbin/shutdown -h now (matches default deny rule: \"shutdown\")".to_string())
    );
}

#[test]
fn default_deny_matches_multi_word_prefix() {
    let r = check(&s(&["dd", "if=/dev/zero"]), &cfg(&[], &[], None), false);
    assert!(r.is_ok(), "\"dd if=\" needs a space after the prefix: {r:?}");
    let r = check(&s(&["systemctl", "reboot"]), &cfg(&[], &[], None), false);
    assert_eq!(
        r,
        Err("command blocked: systemctl reboot (matches default deny rule: \"systemctl reboot\")".to_string())
    );
}

#[test]
fn default_deny_can_be_switched_off() {
    assert_eq!(check(&s(&["reboot"]), &cfg(&[], &[], Some(false)), false), Ok(()));
}

#[test]
fn user_deny_rule_blocks_with_its_message() {
    let r = check(&s(&["git", "push", "--force"]), &cfg(&[], &["git push"], None), false);
    assert_eq!(
        r,
        Err("command blocked: git push --force (matches deny rule: \"git push\")".to_string())
    );
}

#[test]
fn deny_rule_needs_word_boundary() {
    assert_eq!(check(&s(&["git", "pushx"]), &cfg(&[], &["git push"], None), false), Ok(()));
}

#[test]
fn allow_takes_precedence_over_deny() {
    assert_eq!(check(&s(&["reboot"]), &cfg(&["reboot"], &["reboot"], None), false), Ok(()));
}

#[test]
fn warn_mode_never_blocks() {
    assert_eq!(check(&s(&["mkfs.ext4", "/dev/sda"]), &cfg(&[], &[], None), true), Ok(()));
    assert_eq!(check(&s(&["rm"]), &cfg(&[], &["rm"], None), true), Ok(()));
}

#[test]
fn user_deny_reported_before_default() {
    let r = check(&s(&["reboot"]), &cfg(&[], &["reboot"], None), false);
    assert_eq!(r, Err("command blocked: reboot (matches deny rule: \"reboot\")".to_string()));
}

#[test]
fn deny_rule_with_quote_is_escaped() {
    let r = check(&s(&["say\"hi"]), &cfg(&[], &["say\"hi"], None), false);
    assert_eq!(r, Err("command blocked: say\"hi (matches deny rule: \"say\\\"hi\")".to_string()));
}

#[test]
fn path_ending_in_dotdot_is_not_reduced() {
    // `Path::file_name` of "bin/.." is None, so the full word is matched.
    assert_eq!(check(&s(&["bin/.."]), &cfg(&[], &[".."], None), false).is_err(), false);
    assert!(check(&s(&["/usr/bin/chroot/"]), &cfg(&[], &[], None), false).is_err());
    assert!(check(&s(&["./nsenter/."]), &cfg(&[], &[], None), false).is_err());
}

#[test]
fn default_list_has_all_rules() {
    let d = default_denied();
    assert_eq!(d.len(), 29);
    assert_eq!(d[0], "shutdown");
    assert_eq!(d[28], "nsenter");
}
