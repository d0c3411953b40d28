use vstd::prelude::*;
use crate::config::Config;
use crate::rules::{expanded_rules_for, push_expanded_rules, push_fixed_rules, rule_views, rules_for, PathRule};
use crate::sandbox_rules::{landlock_access_read, landlock_access_write, write_access_spec};
use crate::strings::{opt_view, owned, starts_with, str_views, views};

verus! {

/// System paths always readable.
pub open spec fn system_read_spec() -> Seq<Seq<char>> {
    seq![
        "/usr"@, "/lib"@, "/lib64"@, "/lib32"@, "/bin"@, "/sbin"@, "/etc"@, "/proc"@, "/sys"@,
        "/run"@, "/var"@, "/opt"@, "/dev"@, "/tmp"@,
    ]
}

/// System paths always writable.
pub open spec fn system_write_spec() -> Seq<Seq<char>> {
    seq!["/dev/null"@, "/dev/tty"@, "/tmp"@, "/var/tmp"@]
}

/// System paths always readable.
pub fn system_read_paths() -> (r: Vec<&'static str>)
    ensures
        str_views(r@) == system_read_spec(),
{
    let r = vec![
        "/usr", "/lib", "/lib64", "/lib32", "/bin", "/sbin", "/etc", "/proc", "/sys", "/run",
        "/var", "/opt", "/dev", "/tmp",
    ];
    assert(str_views(r@) =~= system_read_spec());
    r
}

/// System paths always writable.
pub fn system_write_paths() -> (r: Vec<&'static str>)
    ensures
        str_views(r@) == system_write_spec(),
{
    let r = vec!["/dev/null", "/dev/tty", "/tmp", "/var/tmp"];
    assert(str_views(r@) =~= system_write_spec());
    r
}

/// Read access: execute, read files, list directories.
pub fn access_read() -> (r: u64)
    ensures
        r == 0xd,
{
    landlock_access_read()
}

/// Write access for a ruleset that handles `fs_all`.
pub fn access_write(fs_all: u64) -> (r: u64)
    ensures
        r == write_access_spec(fs_all),
{
    landlock_access_write(fs_all)
}

/// The filesystem rules: system read and write paths, the working directory (when
/// known) read-write, then the configured paths with `~` expanded.
pub open spec fn filesystem_rules_spec(config: &Config, fs_all: u64, cwd: Option<Seq<char>>, home: Option<Seq<char>>) -> Seq<(Seq<char>, u64)> {
    let w = write_access_spec(fs_all);
    rules_for(system_read_spec(), 0xd) + rules_for(system_write_spec(), w) + (match cwd {
        Some(c) => seq![(c, w)],
        None => Seq::empty(),
    }) + expanded_rules_for(views(config.allow_read@), home, 0xd) + expanded_rules_for(views(config.allow_write@), home, w)
}

/// The filesystem rules for `config` in a ruleset that handles `fs_all`.
pub fn filesystem_rules(config: &Config, fs_all: u64, cwd: &Option<String>, home: &Option<String>) -> (r: Vec<PathRule>)
    ensures
        rule_views(r@) == filesystem_rules_spec(config, fs_all, opt_view(*cwd), opt_view(*home)),
{
    let read = access_read();
    let write = access_write(fs_all);
    let mut rules: Vec<PathRule> = Vec::new();
    assert(rule_views(rules@) =~= Seq::<(Seq<char>, u64)>::empty());
    let sys_read = system_read_paths();
    let sys_write = system_write_paths();
    push_fixed_rules(&mut rules, sys_read.as_slice(), read);
    push_fixed_rules(&mut rules, sys_write.as_slice(), write);
    let ghost before_cwd = rule_views(rules@);
    if let Some(c) = cwd {
        rules.push(PathRule { path: owned(c.as_str()), access: write });
        assert(rule_views(rules@) =~= before_cwd + seq![(c@, write)]);
    } else {
        assert(rule_views(rules@) =~= before_cwd + Seq::<(Seq<char>, u64)>::empty());
    }
    push_expanded_rules(&mut rules, config.allow_read.as_slice(), home, read);
    push_expanded_rules(&mut rules, config.allow_write.as_slice(), home, write);
    rules
}

/// The rules grant the system paths first, then the working directory (when
/// known) the write rights, then each configured read-only path exactly the read
/// rights and each configured read-write path the write rights, `~` expanded.
pub proof fn lemma_filesystem_rules_layout(config: &Config, fs_all: u64, cwd: Option<Seq<char>>, home: Option<Seq<char>>, i: int)
    ensures
        ({
            let rules = filesystem_rules_spec(config, fs_all, cwd, home);
            let w = write_access_spec(fs_all);
            let start = 18 + (if cwd is Some { 1int } else { 0int });
            let nr = config.allow_read@.len() as int;
            &&& rules.len() == start + nr + config.allow_write@.len()
            &&& (cwd matches Some(c) ==> rules[18] == (c, w))
            &&& (0 <= i < nr ==> rules[start + i] == (crate::paths::expand_tilde_spec(config.allow_read@[i]@, home), 0xdu64))
            &&& (0 <= i < config.allow_write@.len() ==> rules[start + nr + i] == (
                crate::paths::expand_tilde_spec(config.allow_write@[i]@, home),
                w,
            ))
        }),
{
    let w = write_access_spec(fs_all);
    let a = rules_for(system_read_spec(), 0xd);
    let b = rules_for(system_write_spec(), w);
    assert(a.len() == 14);
    assert(b.len() == 4);
}

/// A symlink into `/proc` (such as `/proc/self/fd/...`) is not followed by a rule.
pub open spec fn is_proc_link_spec(target: Seq<char>) -> bool {
    "/proc/self/fd"@.is_prefix_of(target) || "/proc/"@.is_prefix_of(target)
}

/// Whether a symlink target lies in `/proc`, so that the rule is skipped.
pub fn is_proc_link(target: &str) -> (b: bool)
    ensures
        b == is_proc_link_spec(target@),
{
    starts_with(target, "/proc/self/fd") || starts_with(target, "/proc/")
}

/// Whether a configured path gets a rule: it must exist, must not be a symlink
/// into `/proc`, and must open.
pub fn rule_applies(exists: bool, link_target: &Option<String>, opened: bool) -> (b: bool)
    ensures
        b == (exists && !(match link_target {
            Some(t) => is_proc_link_spec(t@),
            None => false,
        }) && opened),
{
    if !exists {
        return false;
    }
    if let Some(t) = link_target {
        if is_proc_link(t.as_str()) {
            return false;
        }
    }
    opened
}

} // verus!
