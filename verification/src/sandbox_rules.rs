use vstd::prelude::*;
use vstd::string::*;
use ::landlock::{Access, AccessFs, AccessNet, ABI};
use crate::landlock_raw::{
    LANDLOCK_ACCESS_FS_EXECUTE, LANDLOCK_ACCESS_FS_READ_DIR, LANDLOCK_ACCESS_FS_READ_FILE,
    LANDLOCK_ACCESS_FS_REFER, LANDLOCK_ACCESS_FS_TRUNCATE, LANDLOCK_ACCESS_NET_BIND_TCP,
    LANDLOCK_ACCESS_NET_CONNECT_TCP,
};
use crate::rules::{expanded_rules_for, push_expanded_rules, push_fixed_rules, rule_views, rules_for, PathRule};
use crate::settings::{unwrap_or_spec, Config};
use crate::strings::{opt_view, owned, str_views, views};

verus! {

/// `AccessFs::from_all(ABI::V5)`: the sixteen filesystem rights up to `IoctlDev`.
#[verifier::external_body]
fn fs_access_all_v5() -> (r: u64)
    ensures
        r == 0xffff,
{
    AccessFs::from_all(ABI::V5).bits()
}

/// `AccessNet::from_all(ABI::V5)`: `BindTcp | ConnectTcp`.
#[verifier::external_body]
fn net_access_all_v5() -> (r: u64)
    ensures
        r == 3,
{
    AccessNet::from_all(ABI::V5).bits()
}

/// System paths that are always readable.
pub open spec fn system_read_paths_spec() -> Seq<Seq<char>> {
    seq![
        "/usr"@, "/lib"@, "/lib64"@, "/lib32"@, "/bin"@, "/sbin"@, "/etc"@, "/proc"@, "/sys"@,
        "/run"@, "/var"@, "/opt"@, "/dev"@,
    ]
}

/// System paths that are always writable.
pub open spec fn system_write_paths_spec() -> Seq<Seq<char>> {
    seq!["/dev/null"@, "/dev/tty"@]
}

/// System paths that are always readable.
pub fn system_read_paths() -> (r: Vec<&'static str>)
    ensures
        str_views(r@) == system_read_paths_spec(),
{
    let r = vec![
        "/usr", "/lib", "/lib64", "/lib32", "/bin", "/sbin", "/etc", "/proc", "/sys", "/run",
        "/var", "/opt", "/dev",
    ];
    assert(str_views(r@) =~= system_read_paths_spec());
    r
}

/// System paths that are always writable.
pub fn system_write_paths() -> (r: Vec<&'static str>)
    ensures
        str_views(r@) == system_write_paths_spec(),
{
    let r = vec!["/dev/null", "/dev/tty"];
    assert(str_views(r@) =~= system_write_paths_spec());
    r
}

/// Read access: execute, read files, list directories.
pub fn landlock_access_read() -> (r: u64)
    ensures
        r == 0xd,
{
    let r = LANDLOCK_ACCESS_FS_EXECUTE | LANDLOCK_ACCESS_FS_READ_FILE | LANDLOCK_ACCESS_FS_READ_DIR;
    assert(r == 0xd) by (bit_vector)
        requires
            r == 1u64 | 4u64 | 8u64,
    ;
    r
}

/// Write access: read access, writing, removing and making every kind of entry,
/// plus `Refer` and `Truncate` when the handled rights `fs_all` include them.
pub open spec fn write_access_spec(fs_all: u64) -> u64 {
    0x1fffu64 | (fs_all & 0x2000u64) | (fs_all & 0x4000u64)
}

/// Write access for a ruleset that handles `fs_all`.
pub fn landlock_access_write(fs_all: u64) -> (r: u64)
    ensures
        r == write_access_spec(fs_all),
{
    let mut flags: u64 = 0x1fff;
    if fs_all & LANDLOCK_ACCESS_FS_REFER != 0 {
        flags = flags | LANDLOCK_ACCESS_FS_REFER;
    }
    if fs_all & LANDLOCK_ACCESS_FS_TRUNCATE != 0 {
        flags = flags | LANDLOCK_ACCESS_FS_TRUNCATE;
    }
    assert(flags == 0x1fffu64 | (fs_all & 0x2000u64) | (fs_all & 0x4000u64)) by (bit_vector)
        requires
            flags == (if fs_all & 0x4000u64 != 0 {
                (if fs_all & 0x2000u64 != 0 { 0x1fffu64 | 0x2000u64 } else { 0x1fffu64 }) | 0x4000u64
            } else {
                if fs_all & 0x2000u64 != 0 { 0x1fffu64 | 0x2000u64 } else { 0x1fffu64 }
            }),
    ;
    flags
}

/// Write rights always include the read rights and every right up to making
/// symlinks; `Refer` and `Truncate` are granted exactly when the ruleset handles them.
pub proof fn lemma_write_access_covers_read(fs_all: u64)
    ensures
        write_access_spec(fs_all) & 0xdu64 == 0xdu64,
        write_access_spec(fs_all) & 0x1fffu64 == 0x1fffu64,
        (write_access_spec(fs_all) & 0x2000u64 != 0) <==> (fs_all & 0x2000u64 != 0),
        (write_access_spec(fs_all) & 0x4000u64 != 0) <==> (fs_all & 0x4000u64 != 0),
        write_access_spec(fs_all) & !0x7fffu64 == 0,
{
    let w = write_access_spec(fs_all);
    assert(w & 0xdu64 == 0xdu64 && w & 0x1fffu64 == 0x1fffu64
        && ((w & 0x2000u64 != 0) <==> (fs_all & 0x2000u64 != 0))
        && ((w & 0x4000u64 != 0) <==> (fs_all & 0x4000u64 != 0))
        && w & !0x7fffu64 == 0) by (bit_vector)
        requires
            w == 0x1fffu64 | (fs_all & 0x2000u64) | (fs_all & 0x4000u64),
    ;
}

/// Rights that apply to files (not directories): read, write, execute, truncate, ioctl.
pub const FILE_ACCESS: u64 = 0xc007;

/// The rights to request beneath `path`: all of `access` for a directory, only the
/// file rights for anything else. Zero means the rule is skipped.
pub fn effective_access(access: u64, is_dir: bool) -> (r: u64)
    ensures
        r == (if is_dir { access } else { access & 0xc007u64 }),
{
    if is_dir {
        access
    } else {
        access & FILE_ACCESS
    }
}

/// Whether to grant a rule beneath a path, and which rights: nothing when the
/// path could not be opened; otherwise the effective rights (a path whose kind is
/// unknown counts as a directory), nothing when those are empty.
pub open spec fn rule_action_spec(opened: bool, is_dir: Option<bool>, access: u64) -> Option<u64> {
    if !opened {
        None
    } else {
        let dir = match is_dir {
            Some(d) => d,
            None => true,
        };
        let e = if dir { access } else { access & 0xc007u64 };
        if e == 0 {
            None
        } else {
            Some(e)
        }
    }
}

/// The rights to grant beneath a path, or `None` to skip it.
pub fn rule_action(opened: bool, is_dir: Option<bool>, access: u64) -> (r: Option<u64>)
    ensures
        r == rule_action_spec(opened, is_dir, access),
{
    if !opened {
        return None;
    }
    let dir = match is_dir {
        Some(d) => d,
        None => true,
    };
    let e = effective_access(access, dir);
    if e == 0 {
        None
    } else {
        Some(e)
    }
}

/// The message when Landlock did not fully enforce the ruleset.
pub open spec fn not_enforced_message(ruleset: Seq<char>, landlock: Seq<char>) -> Seq<char> {
    "Landlock restrictions not enforced: ruleset="@ + ruleset + ", landlock="@ + landlock
        + " (kernel too old or Landlock not enabled in kernel)"@
}

/// The sandbox only runs the command when the ruleset is fully enforced: anything
/// less is an error, never a silent run without a sandbox. `ruleset` and
/// `landlock` describe the reported status.
pub fn enforcement_result(fully_enforced: bool, ruleset: &str, landlock: &str) -> (r: Result<(), String>)
    ensures
        r is Ok <==> fully_enforced,
        r matches Err(m) ==> m@ == not_enforced_message(ruleset@, landlock@),
{
    if fully_enforced {
        Ok(())
    } else {
        let mut m = owned("Landlock restrictions not enforced: ruleset=");
        m.append(ruleset);
        m.append(", landlock=");
        m.append(landlock);
        m.append(" (kernel too old or Landlock not enabled in kernel)");
        Err(m)
    }
}

/// What the sandbox asks of Landlock.
pub struct SandboxPlan {
    /// Filesystem rights the ruleset handles.
    pub fs_handled: u64,
    /// Network rights the ruleset handles (0: network unrestricted).
    pub net_handled: u64,
    /// Paths and the rights granted beneath them, in order.
    pub path_rules: Vec<PathRule>,
    /// TCP ports allowed for `connect`.
    pub connect_ports: Vec<u16>,
    /// UDP denial was asked for, which this Landlock version cannot enforce.
    pub udp_ignored: bool,
}

/// Whether the configuration restricts the network.
pub open spec fn net_restricted(cfg: &Config) -> bool {
    unwrap_or_spec(cfg.network.deny_tcp, false) || unwrap_or_spec(cfg.network.deny_udp, false)
        || cfg.network.allow_ports@.len() > 0
}

/// The rules of the sandbox: system read paths, system write paths, the working
/// directory (when it is to be writable), then the configured read and write paths
/// with `~` expanded.
pub open spec fn sandbox_rules_spec(cfg: &Config, cwd: Option<Seq<char>>, home: Option<Seq<char>>) -> Seq<(Seq<char>, u64)> {
    let w = write_access_spec(0xffff);
    rules_for(system_read_paths_spec(), 0xd) + rules_for(system_write_paths_spec(), w) + (match cwd {
        Some(c) => seq![(c, w)],
        None => Seq::empty(),
    }) + expanded_rules_for(views(cfg.allow_read@), home, 0xd) + expanded_rules_for(views(cfg.allow_write@), home, w)
}

/// The Landlock plan for `cfg`. `cwd` is the working directory when it is to be
/// writable, `home` expands `~`.
pub fn landlock_plan(cfg: &Config, cwd: &Option<String>, home: &Option<String>) -> (p: SandboxPlan)
    ensures
        p.fs_handled == 0xffff,
        p.net_handled == (if net_restricted(cfg) { 3u64 } else { 0u64 }),
        rule_views(p.path_rules@) == sandbox_rules_spec(cfg, opt_view(*cwd), opt_view(*home)),
        p.connect_ports@ == (if net_restricted(cfg) { cfg.network.allow_ports@ } else { Seq::empty() }),
        p.udp_ignored == unwrap_or_spec(cfg.network.deny_udp, false),
        cfg.network.deny_tcp == Some(true) ==> p.net_handled == 3,
        cfg.network.allow_ports@.len() > 0 ==> p.net_handled == 3 && p.connect_ports@ == cfg.network.allow_ports@,
        (cfg.network.deny_tcp != Some(true) && cfg.network.deny_udp != Some(true) && cfg.network.allow_ports@.len() == 0)
            ==> p.net_handled == 0 && p.connect_ports@.len() == 0,
{
    let fs = fs_access_all_v5();
    let deny_tcp = cfg.network.is_deny_tcp();
    let deny_udp = cfg.network.is_deny_udp();
    let restricted = deny_tcp || deny_udp || cfg.network.allow_ports.len() > 0;
    let mut net: u64 = 0;
    if restricted {
        let handle = LANDLOCK_ACCESS_NET_BIND_TCP | LANDLOCK_ACCESS_NET_CONNECT_TCP;
        assert(handle == 3) by (bit_vector)
            requires
                handle == 1u64 | 2u64,
        ;
        let available = net_access_all_v5();
        assert(available & handle != 0) by (bit_vector)
            requires
                available == 3u64,
                handle == 3u64,
        ;
        net = handle;
    }
    let read = landlock_access_read();
    let write = landlock_access_write(fs);
    let mut rules: Vec<PathRule> = Vec::new();
    assert(rule_views(rules@) =~= Seq::<(Seq<char>, u64)>::empty());
    let sys_read = system_read_paths();
    let sys_write = system_write_paths();
    push_fixed_rules(&mut rules, sys_read.as_slice(), read);
    push_fixed_rules(&mut rules, sys_write.as_slice(), write);
    let ghost before_cwd = rule_views(rules@);
    if let Some(c) = cwd {
        rules.push(PathRule { path: owned(c.as_str()), access: write });
        assert(rule_views(rules@) =~= before_cwd + seq![(c@, write)]);
    } else {
        assert(rule_views(rules@) =~= before_cwd + Seq::<(Seq<char>, u64)>::empty());
    }
    push_expanded_rules(&mut rules, cfg.allow_read.as_slice(), home, read);
    push_expanded_rules(&mut rules, cfg.allow_write.as_slice(), home, write);
    let ports = if restricted {
        cfg.network.allow_ports.clone()
    } else {
        Vec::new()
    };
    SandboxPlan { fs_handled: fs, net_handled: net, path_rules: rules, connect_ports: ports, udp_ignored: deny_udp }
}

/// Listing ports or denying UDP restricts TCP too: the ruleset then handles TCP
/// bind and connect, so only the listed ports can be reached.
pub proof fn lemma_ports_restrict_network(cfg: &Config)
    requires
        cfg.network.allow_ports@.len() > 0 || unwrap_or_spec(cfg.network.deny_udp, false),
    ensures
        net_restricted(cfg),
{
}

/// Each configured read-only path is granted exactly the read rights (never the
/// right to write a file), and each configured read-write path the write rights.
pub proof fn lemma_configured_paths_rights(cfg: &Config, cwd: Option<Seq<char>>, home: Option<Seq<char>>, i: int)
    ensures
        ({
            let rules = sandbox_rules_spec(cfg, cwd, home);
            let start = 15 + (if cwd is Some { 1int } else { 0int });
            let nr = cfg.allow_read@.len() as int;
            &&& rules.len() == start + nr + cfg.allow_write@.len()
            &&& (0 <= i < nr ==> rules[start + i] == (crate::paths::expand_tilde_spec(cfg.allow_read@[i]@, home), 0xdu64))
            &&& (0 <= i < cfg.allow_write@.len() ==> rules[start + nr + i] == (
                crate::paths::expand_tilde_spec(cfg.allow_write@[i]@, home),
                write_access_spec(0xffff),
            ))
            &&& 0xdu64 & 2u64 == 0
            &&& write_access_spec(0xffff) & 2u64 != 0
        }),
{
    let w = write_access_spec(0xffff);
    assert(0xdu64 & 2u64 == 0) by (bit_vector);
    assert(w == 0x7fff) by (bit_vector)
        requires
            w == 0x1fffu64 | (0xffffu64 & 0x2000u64) | (0xffffu64 & 0x4000u64),
    ;
    assert(0x7fffu64 & 2u64 != 0) by (bit_vector);
    let a = rules_for(system_read_paths_spec(), 0xd);
    let b = rules_for(system_write_paths_spec(), w);
    assert(a.len() == 13);
    assert(b.len() == 2);
}

/// Denying TCP restricts the network: the ruleset then handles TCP bind and
/// connect. Without listed ports, no TCP port can be reached. A configuration
/// that denies nothing and lists no port leaves the network alone.
pub proof fn lemma_deny_tcp_restricts_network(cfg: &Config)
    ensures
        cfg.network.deny_tcp == Some(true) ==> net_restricted(cfg),
        (cfg.network.deny_tcp != Some(true) && cfg.network.deny_udp != Some(true)
            && cfg.network.allow_ports@.len() == 0) ==> !net_restricted(cfg),
{
}

} // verus!
