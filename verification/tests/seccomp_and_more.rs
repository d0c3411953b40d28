use nnn::command::{block_warning, check, CommandConfig};
use nnn::landlock::rule_applies;
use nnn::sandbox_rules::{enforcement_result, rule_action};
use nnn::seccomp::{blocked_syscalls, deny_filter, seccomp_error_message, SeccompError, Syscall};
use nnn::settings::{config_from_file, invalid_ports, network_from_file, parse_port_list};
use std::collections::BTreeMap;

fn s(v: &[&str]) -> Vec<String> {
    v.iter().map(|x| x.to_string()).collect()
}

#[test]
fn eighteen_blocked_syscalls() {
    let b = blocked_syscalls();
    assert_eq!(b.len(), 18);
    assert!(matches!(b[0], Syscall::Ptrace));
    assert!(matches!(b[12], Syscall::Mount));
    assert!(matches!(b[17], Syscall::Setdomainname));
}

#[test]
fn deny_filter_is_seccompilers_program() {
    let blocked = vec![101i64, 321, 165];
    let got = match deny_filter(&blocked, "x86_64") {
        Ok(p) => p,
        Err(_) => panic!("x86_64 is supported"),
    };
    let rules: BTreeMap<i64, Vec<seccompiler::SeccompRule>> =
        blocked.iter().map(|&n| (n, vec![])).collect();
    let filter = seccompiler::SeccompFilter::new(
        rules,
        seccompiler::SeccompAction::Allow,
        seccompiler::SeccompAction::KillProcess,
        seccompiler::TargetArch::x86_64,
    )
    .unwrap();
    let want: seccompiler::BpfProgram = filter.try_into().unwrap();
    let want: Vec<(u16, u8, u8, u32)> = want.into_iter().map(|f| (f.code, f.jt, f.jf, f.k)).collect();
    assert_eq!(got, want);
    assert!(got.len() > blocked.len());
    assert!(got.iter().any(|i| i.3 == 321));
    // "AArch64" is accepted in any case
    assert!(deny_filter(&blocked, "AArch64").is_ok());
}

#[test]
fn deny_filter_errors() {
    assert!(matches!(deny_filter(&[1], "riscv64"), Err(SeccompError::UnsupportedArch)));
    assert!(matches!(deny_filter(&[-1], "x86_64"), Err(SeccompError::BadSyscallNumber)));
    assert!(matches!(deny_filter(&[1i64 << 40], "x86_64"), Err(SeccompError::BadSyscallNumber)));
    assert_eq!(seccomp_error_message(&SeccompError::UnsupportedArch, "riscv64"), "unsupported arch: riscv64");
    assert!(seccomp_error_message(&SeccompError::Unbuildable, "x").contains("seccomp = false"));
}

fn cfg(allow: &[&str], deny: &[&str]) -> CommandConfig {
    CommandConfig { allow: s(allow), deny: s(deny), default_denied: None }
}

#[test]
fn warn_mode_reports_the_rule() {
    let cmd = s(&["git", "push"]);
    let c = cfg(&[], &["git push"]);
    assert_eq!(check(&cmd, &c, true), Ok(()));
    assert_eq!(
        block_warning(&cmd, &c),
        Some("command would be blocked: git push (matches deny: \"git push\")".to_string())
    );
    assert_eq!(
        block_warning(&s(&["reboot"]), &cfg(&[], &[])),
        Some("command would be blocked: reboot (matches default deny: \"reboot\")".to_string())
    );
    assert_eq!(block_warning(&s(&["ls"]), &cfg(&[], &["rm"])), None);
    assert_eq!(block_warning(&s(&["reboot"]), &cfg(&["reboot"], &[])), None);
    assert_eq!(block_warning(&[], &cfg(&[], &[])), None);
}

#[test]
fn invalid_ports_are_reported() {
    assert_eq!(parse_port_list("80, x,443,80,70000"), vec![80, 443]);
    assert_eq!(invalid_ports("80, x,443,80,70000, ,"), s(&["x", "70000"]));
    assert!(invalid_ports("").is_empty());
}

#[test]
fn deny_default_denies_tcp() {
    let n = network_from_file(None, None, Some(true), vec![80, 443]);
    assert_eq!(n.deny_tcp, Some(true));
    assert_eq!(n.allow_ports, vec![80, 443]);
    assert_eq!(network_from_file(Some(false), Some(true), Some(true), vec![]).deny_tcp, Some(false));
    assert_eq!(network_from_file(None, None, None, vec![]).deny_tcp, None);
    let c = config_from_file(s(&["/a"]), vec![], vec![], Some(false), Some(n));
    assert!(c.network.is_deny_tcp());
    assert!(!c.seccomp_enabled());
    let c = config_from_file(vec![], vec![], vec![], None, None);
    assert!(c.network.deny_tcp.is_none() && c.network.allow_ports.is_empty());
}

#[test]
fn not_enforced_is_an_error() {
    assert_eq!(enforcement_result(true, "FullyEnforced", "x"), Ok(()));
    assert_eq!(
        enforcement_result(false, "NotEnforced", "NotEnabled"),
        Err("Landlock restrictions not enforced: ruleset=NotEnforced, landlock=NotEnabled (kernel too old or Landlock not enabled in kernel)".to_string())
    );
}

#[test]
fn rule_actions() {
    assert_eq!(rule_action(false, Some(true), 0x7fff), None);
    assert_eq!(rule_action(true, Some(true), 0x7fff), Some(0x7fff));
    assert_eq!(rule_action(true, None, 0xd), Some(0xd));
    assert_eq!(rule_action(true, Some(false), 0xd), Some(0x5));
    assert_eq!(rule_action(true, Some(false), 0x8), None);
    assert!(rule_applies(true, &None, true));
    assert!(!rule_applies(false, &None, true));
    assert!(!rule_applies(true, &Some("/proc/self/fd/1".into()), true));
    assert!(rule_applies(true, &Some("/etc/x".into()), true));
    assert!(!rule_applies(true, &None, false));
}
