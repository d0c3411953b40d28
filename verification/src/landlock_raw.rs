use vstd::prelude::*;
use crate::rules::{push_fixed_rules, rule_views, rules_for, PathRule};
use crate::strings::{opt_view, owned, str_views, views};

verus! {

// Landlock access right bits, as the kernel defines them.
pub const LANDLOCK_ACCESS_FS_EXECUTE: u64 = 1;
pub const LANDLOCK_ACCESS_FS_WRITE_FILE: u64 = 2;
pub const LANDLOCK_ACCESS_FS_READ_FILE: u64 = 4;
pub const LANDLOCK_ACCESS_FS_READ_DIR: u64 = 8;
pub const LANDLOCK_ACCESS_FS_REMOVE_DIR: u64 = 0x10;
pub const LANDLOCK_ACCESS_FS_REMOVE_FILE: u64 = 0x20;
pub const LANDLOCK_ACCESS_FS_MAKE_CHAR: u64 = 0x40;
pub const LANDLOCK_ACCESS_FS_MAKE_DIR: u64 = 0x80;
pub const LANDLOCK_ACCESS_FS_MAKE_REG: u64 = 0x100;
pub const LANDLOCK_ACCESS_FS_MAKE_SOCK: u64 = 0x200;
pub const LANDLOCK_ACCESS_FS_MAKE_FIFO: u64 = 0x400;
pub const LANDLOCK_ACCESS_FS_MAKE_BLOCK: u64 = 0x800;
pub const LANDLOCK_ACCESS_FS_MAKE_SYM: u64 = 0x1000;
pub const LANDLOCK_ACCESS_FS_REFER: u64 = 0x2000;
pub const LANDLOCK_ACCESS_FS_TRUNCATE: u64 = 0x4000;
pub const LANDLOCK_ACCESS_FS_IOCTL_DEV: u64 = 0x8000;
/// Connecting to pathname UNIX domain sockets (Landlock ABI V9).
pub const LANDLOCK_ACCESS_FS_RESOLVE_UNIX: u64 = 0x10000;

pub const LANDLOCK_ACCESS_NET_BIND_TCP: u64 = 1;
pub const LANDLOCK_ACCESS_NET_CONNECT_TCP: u64 = 2;

/// Every filesystem access right up to `RESOLVE_UNIX`.
pub fn fs_access_all() -> (r: u64)
    ensures
        r == 0x1ffff,
{
    let r = LANDLOCK_ACCESS_FS_EXECUTE | LANDLOCK_ACCESS_FS_WRITE_FILE | LANDLOCK_ACCESS_FS_READ_FILE
        | LANDLOCK_ACCESS_FS_READ_DIR | LANDLOCK_ACCESS_FS_REMOVE_DIR | LANDLOCK_ACCESS_FS_REMOVE_FILE
        | LANDLOCK_ACCESS_FS_MAKE_CHAR | LANDLOCK_ACCESS_FS_MAKE_DIR | LANDLOCK_ACCESS_FS_MAKE_REG
        | LANDLOCK_ACCESS_FS_MAKE_SOCK | LANDLOCK_ACCESS_FS_MAKE_FIFO | LANDLOCK_ACCESS_FS_MAKE_BLOCK
        | LANDLOCK_ACCESS_FS_MAKE_SYM | LANDLOCK_ACCESS_FS_REFER | LANDLOCK_ACCESS_FS_TRUNCATE
        | LANDLOCK_ACCESS_FS_IOCTL_DEV | LANDLOCK_ACCESS_FS_RESOLVE_UNIX;
    assert(r == 0x1ffff) by (bit_vector)
        requires
            r == 1u64 | 2u64 | 4u64 | 8u64 | 0x10u64 | 0x20u64 | 0x40u64 | 0x80u64 | 0x100u64 | 0x200u64
                | 0x400u64 | 0x800u64 | 0x1000u64 | 0x2000u64 | 0x4000u64 | 0x8000u64 | 0x10000u64,
    ;
    r
}

/// Read-only access for directories: execute, read files, list directories.
pub fn fs_access_read() -> (r: u64)
    ensures
        r == 0xd,
{
    let r = LANDLOCK_ACCESS_FS_EXECUTE | LANDLOCK_ACCESS_FS_READ_FILE | LANDLOCK_ACCESS_FS_READ_DIR;
    assert(r == 0xd) by (bit_vector)
        requires
            r == 1u64 | 4u64 | 8u64,
    ;
    r
}

/// Full write access: every right.
pub fn fs_access_write() -> (r: u64)
    ensures
        r == 0x1ffff,
{
    fs_access_all()
}

/// What the raw-syscall sandbox asks of the kernel.
pub struct RawPlan {
    /// Filesystem rights the ruleset handles.
    pub fs_handled: u64,
    /// Network rights the ruleset handles (0: network unrestricted).
    pub net_handled: u64,
    /// Paths and the rights granted beneath them, in order.
    pub path_rules: Vec<PathRule>,
    /// TCP ports allowed for `connect`.
    pub connect_ports: Vec<u16>,
}

/// The rules of the raw-syscall sandbox: system read paths, system write paths,
/// the working directory (when given), then the configured read and write paths.
pub open spec fn raw_rules_spec(
    read_paths: Seq<Seq<char>>,
    write_paths: Seq<Seq<char>>,
    cwd: Option<Seq<char>>,
    system_read: Seq<Seq<char>>,
    system_write: Seq<Seq<char>>,
) -> Seq<(Seq<char>, u64)> {
    rules_for(system_read, 0xd) + rules_for(system_write, 0x1ffff) + (match cwd {
        Some(c) => seq![(c, 0x1ffffu64)],
        None => Seq::empty(),
    }) + rules_for(read_paths, 0xd) + rules_for(write_paths, 0x1ffff)
}

/// The plan of the raw-syscall sandbox. `cwd` is the working directory when it is
/// to be writable. The network is restricted when TCP is denied or ports are listed.
pub fn raw_plan(
    read_paths: &[String],
    write_paths: &[String],
    allow_ports: &[u16],
    deny_tcp: bool,
    cwd: &Option<String>,
    system_read_paths: &[&str],
    system_write_paths: &[&str],
) -> (p: RawPlan)
    ensures
        p.fs_handled == 0x1ffff,
        p.net_handled == (if deny_tcp || allow_ports@.len() > 0 { 3u64 } else { 0u64 }),
        rule_views(p.path_rules@) == raw_rules_spec(
            views(read_paths@),
            views(write_paths@),
            opt_view(*cwd),
            str_views(system_read_paths@),
            str_views(system_write_paths@),
        ),
        p.connect_ports@ == allow_ports@,
{
    let fs = fs_access_all();
    let net = if deny_tcp || allow_ports.len() > 0 {
        LANDLOCK_ACCESS_NET_BIND_TCP | LANDLOCK_ACCESS_NET_CONNECT_TCP
    } else {
        0
    };
    assert(LANDLOCK_ACCESS_NET_BIND_TCP | LANDLOCK_ACCESS_NET_CONNECT_TCP == 3) by (bit_vector);
    let mut rules: Vec<PathRule> = Vec::new();
    assert(rule_views(rules@) =~= Seq::<(Seq<char>, u64)>::empty());
    push_fixed_rules(&mut rules, system_read_paths, fs_access_read());
    push_fixed_rules(&mut rules, system_write_paths, fs_access_write());
    let ghost before_cwd = rule_views(rules@);
    if let Some(c) = cwd {
        rules.push(PathRule { path: owned(c.as_str()), access: fs_access_write() });
        assert(rule_views(rules@) =~= before_cwd + seq![(c@, 0x1ffffu64)]);
    } else {
        assert(rule_views(rules@) =~= before_cwd + Seq::<(Seq<char>, u64)>::empty());
    }
    push_path_rules(&mut rules, read_paths, fs_access_read());
    push_path_rules(&mut rules, write_paths, fs_access_write());
    let mut ports: Vec<u16> = Vec::new();
    let mut i: usize = 0;
    while i < allow_ports.len()
        invariant
            i <= allow_ports@.len(),
            ports@ == allow_ports@.take(i as int),
        decreases allow_ports@.len() - i,
    {
        ports.push(allow_ports[i]);
        assert(allow_ports@.take(i + 1) =~= allow_ports@.take(i as int).push(allow_ports@[i as int]));
        i = i + 1;
    }
    assert(allow_ports@.take(allow_ports@.len() as int) =~= allow_ports@);
    RawPlan { fs_handled: fs, net_handled: net, path_rules: rules, connect_ports: ports }
}

/// Append a rule with `access` for each path, unexpanded.
fn push_path_rules(out: &mut Vec<PathRule>, paths: &[String], access: u64)
    ensures
        rule_views(final(out)@) == rule_views(old(out)@) + rules_for(views(paths@), access),
{
    let ghost start = rule_views(out@);
    let ghost all = rules_for(views(paths@), access);
    let mut i: usize = 0;
    while i < paths.len()
        invariant
            i <= paths@.len(),
            all == rules_for(views(paths@), access),
            rule_views(out@) == start + all.take(i as int),
        decreases paths@.len() - i,
    {
        let ghost prev = rule_views(out@);
        out.push(PathRule { path: owned(paths[i].as_str()), access });
        assert(all.take(i + 1) =~= all.take(i as int).push(all[i as int]));
        assert(rule_views(out@) =~= prev.push(all[i as int]));
        i = i + 1;
    }
    assert(all.take(paths@.len() as int) =~= all);
}

} // verus!
