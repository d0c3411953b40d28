use vstd::prelude::*;
use crate::merge::{merge_ports, merge_seq, merge_vec};
use crate::strings::{contains_str, parse_u16, parse_u16_spec, split, split_spec, str_eq, trim, trim_spec, views};

verus! {

/// Network restrictions of the sandbox.
pub struct NetworkConfig {
    /// Deny all TCP bind/connect except `allow_ports`; `None` leaves it to other layers.
    pub deny_tcp: Option<bool>,
    /// Deny UDP; `None` leaves it to other layers.
    pub deny_udp: Option<bool>,
    /// TCP ports allowed for outbound connections.
    pub allow_ports: Vec<u16>,
}

/// `a` when it is set, else `b`.
pub open spec fn or_spec(a: Option<bool>, b: Option<bool>) -> Option<bool> {
    match a {
        Some(x) => Some(x),
        None => b,
    }
}

pub open spec fn unwrap_or_spec(a: Option<bool>, d: bool) -> bool {
    match a {
        Some(x) => x,
        None => d,
    }
}

impl NetworkConfig {
    /// Whether TCP is denied (unset means no).
    pub fn is_deny_tcp(&self) -> (b: bool)
        ensures
            b == unwrap_or_spec(self.deny_tcp, false),
    {
        match self.deny_tcp {
            Some(b) => b,
            None => false,
        }
    }

    /// Whether UDP is denied (unset means no).
    pub fn is_deny_udp(&self) -> (b: bool)
        ensures
            b == unwrap_or_spec(self.deny_udp, false),
    {
        match self.deny_udp {
            Some(b) => b,
            None => false,
        }
    }
}

/// The sandbox configuration: paths, extra environment variables, seccomp and network.
pub struct Config {
    pub allow_read: Vec<String>,
    pub allow_write: Vec<String>,
    /// Extra environment variable patterns passed into the sandbox.
    pub allow_env: Vec<String>,
    /// `None` means the built-in default, which is on.
    pub seccomp: Option<bool>,
    pub network: NetworkConfig,
}

impl Config {
    /// An empty configuration: no paths, no variables, nothing set.
    pub open spec fn is_empty(&self) -> bool {
        &&& self.allow_read@.len() == 0
        &&& self.allow_write@.len() == 0
        &&& self.allow_env@.len() == 0
        &&& self.seccomp is None
        &&& self.network.deny_tcp is None
        &&& self.network.deny_udp is None
        &&& self.network.allow_ports@.len() == 0
    }

    /// `self` is `base` with `overlay` merged on top.
    pub open spec fn is_merge_of(&self, base: &Config, overlay: &Config) -> bool {
        &&& views(self.allow_read@) == merge_seq(views(base.allow_read@), views(overlay.allow_read@))
        &&& views(self.allow_write@) == merge_seq(views(base.allow_write@), views(overlay.allow_write@))
        &&& views(self.allow_env@) == merge_seq(views(base.allow_env@), views(overlay.allow_env@))
        &&& self.seccomp == or_spec(overlay.seccomp, base.seccomp)
        &&& self.network.deny_tcp == or_spec(overlay.network.deny_tcp, base.network.deny_tcp)
        &&& self.network.deny_udp == or_spec(overlay.network.deny_udp, base.network.deny_udp)
        &&& self.network.allow_ports@ == merge_seq(base.network.allow_ports@, overlay.network.allow_ports@)
    }

    /// Whether the seccomp filter applies (unset means yes).
    pub fn seccomp_enabled(&self) -> (b: bool)
        ensures
            b == unwrap_or_spec(self.seccomp, true),
    {
        match self.seccomp {
            Some(b) => b,
            None => true,
        }
    }

    /// An empty configuration.
    pub fn empty() -> (c: Config)
        ensures
            c.is_empty(),
    {
        Config {
            allow_read: Vec::new(),
            allow_write: Vec::new(),
            allow_env: Vec::new(),
            seccomp: None,
            network: NetworkConfig { deny_tcp: None, deny_udp: None, allow_ports: Vec::new() },
        }
    }

    /// Merge `overlay` on top: lists gain the overlay's entries they lack, in order;
    /// settings the overlay sets win.
    pub fn merge(&self, overlay: &Config) -> (c: Config)
        ensures
            c.is_merge_of(self, overlay),
            forall|p: Seq<char>| #[trigger] views(c.allow_read@).contains(p) <==> (views(self.allow_read@).contains(p)
                || views(overlay.allow_read@).contains(p)),
            forall|p: Seq<char>| #[trigger] views(c.allow_write@).contains(p) <==> (views(self.allow_write@).contains(p)
                || views(overlay.allow_write@).contains(p)),
            forall|p: Seq<char>| #[trigger] views(c.allow_env@).contains(p) <==> (views(self.allow_env@).contains(p)
                || views(overlay.allow_env@).contains(p)),
            forall|n: u16| #[trigger] c.network.allow_ports@.contains(n) <==> (self.network.allow_ports@.contains(n)
                || overlay.network.allow_ports@.contains(n)),
    {
        let mut allow_read = self.allow_read.clone();
        let mut allow_write = self.allow_write.clone();
        let mut allow_env = self.allow_env.clone();
        let mut allow_ports = self.network.allow_ports.clone();
        assert(views(allow_read@) =~= views(self.allow_read@));
        assert(views(allow_write@) =~= views(self.allow_write@));
        assert(views(allow_env@) =~= views(self.allow_env@));
        assert(allow_ports@ =~= self.network.allow_ports@);
        merge_vec(&mut allow_read, overlay.allow_read.as_slice());
        merge_vec(&mut allow_write, overlay.allow_write.as_slice());
        merge_vec(&mut allow_env, overlay.allow_env.as_slice());
        merge_ports(&mut allow_ports, overlay.network.allow_ports.as_slice());
        proof {
            crate::merge::lemma_merge_seq_basics(views(self.allow_read@), views(overlay.allow_read@));
            crate::merge::lemma_merge_seq_basics(views(self.allow_write@), views(overlay.allow_write@));
            crate::merge::lemma_merge_seq_basics(views(self.allow_env@), views(overlay.allow_env@));
            crate::merge::lemma_merge_seq_basics(self.network.allow_ports@, overlay.network.allow_ports@);
        }
        Config {
            allow_read,
            allow_write,
            allow_env,
            seccomp: match overlay.seccomp {
                Some(b) => Some(b),
                None => self.seccomp,
            },
            network: NetworkConfig {
                deny_tcp: match overlay.network.deny_tcp {
                    Some(b) => Some(b),
                    None => self.network.deny_tcp,
                },
                deny_udp: match overlay.network.deny_udp {
                    Some(b) => Some(b),
                    None => self.network.deny_udp,
                },
                allow_ports,
            },
        }
    }
}

/// The paths of a comma-separated list: trimmed, empty ones skipped, each once.
pub open spec fn path_list_spec(pieces: Seq<Seq<char>>) -> Seq<Seq<char>>
    decreases pieces.len(),
{
    if pieces.len() == 0 {
        Seq::empty()
    } else {
        let rest = path_list_spec(pieces.drop_last());
        let p = trim_spec(pieces.last());
        if p.len() > 0 && !rest.contains(p) {
            rest.push(p)
        } else {
            rest
        }
    }
}

/// The ports of a comma-separated list: trimmed, empty and invalid ones skipped, each once.
pub open spec fn port_list_spec(pieces: Seq<Seq<char>>) -> Seq<u16>
    decreases pieces.len(),
{
    if pieces.len() == 0 {
        Seq::empty()
    } else {
        let rest = port_list_spec(pieces.drop_last());
        match parse_u16_spec(trim_spec(pieces.last())) {
            Some(port) => if rest.contains(port) {
                rest
            } else {
                rest.push(port)
            },
            None => rest,
        }
    }
}

/// The paths of a comma-separated value such as `$NNN_RO`.
pub fn parse_path_list(val: &str) -> (r: Vec<String>)
    ensures
        views(r@) == path_list_spec(split_spec(val@, ',')),
{
    let pieces = split(val, ',');
    let ghost ps = views(pieces@);
    let mut r: Vec<String> = Vec::new();
    let mut i: usize = 0;
    assert(ps.take(0) =~= Seq::<Seq<char>>::empty());
    while i < pieces.len()
        invariant
            i <= pieces@.len(),
            ps == views(pieces@),
            views(r@) == path_list_spec(ps.take(i as int)),
        decreases pieces@.len() - i,
    {
        assert(ps.take(i + 1).drop_last() =~= ps.take(i as int));
        assert(ps.take(i + 1).last() == pieces@[i as int]@);
        let p = trim(pieces[i].as_str());
        if !p.as_str().is_empty() && !contains_str(&r, p.as_str()) {
            let ghost prev = views(r@);
            r.push(p);
            assert(views(r@) =~= prev.push(p@));
        }
        i = i + 1;
    }
    assert(ps.take(pieces@.len() as int) =~= ps);
    r
}

/// The ports of a comma-separated value such as `$NNN_ALLOW_PORT`; invalid ports are skipped.
pub fn parse_port_list(val: &str) -> (r: Vec<u16>)
    ensures
        r@ == port_list_spec(split_spec(val@, ',')),
{
    let pieces = split(val, ',');
    let ghost ps = views(pieces@);
    let mut r: Vec<u16> = Vec::new();
    let mut i: usize = 0;
    assert(ps.take(0) =~= Seq::<Seq<char>>::empty());
    while i < pieces.len()
        invariant
            i <= pieces@.len(),
            ps == views(pieces@),
            r@ == port_list_spec(ps.take(i as int)),
        decreases pieces@.len() - i,
    {
        assert(ps.take(i + 1).drop_last() =~= ps.take(i as int));
        assert(ps.take(i + 1).last() == pieces@[i as int]@);
        let p = trim(pieces[i].as_str());
        match parse_u16(p.as_str()) {
            Some(port) => {
                if !crate::merge::contains_port(&r, port) {
                    r.push(port);
                }
            },
            None => {},
        }
        i = i + 1;
    }
    assert(ps.take(pieces@.len() as int) =~= ps);
    r
}

/// A boolean variable is on when it is `true` or `1`.
pub open spec fn flag_on(val: Option<Seq<char>>) -> bool {
    match val {
        Some(v) => v == "true"@ || v == "1"@,
        None => false,
    }
}

/// Whether a boolean environment variable is on (`true` or `1`).
pub fn flag_set(val: &Option<String>) -> (b: bool)
    ensures
        b == flag_on(crate::strings::opt_view(*val)),
{
    match val {
        Some(v) => str_eq(v.as_str(), "true") || str_eq(v.as_str(), "1"),
        None => false,
    }
}

/// A comma-separated list read from an unset variable is empty.
pub open spec fn list_of(val: Option<Seq<char>>) -> Seq<Seq<char>> {
    match val {
        Some(v) => path_list_spec(split_spec(v, ',')),
        None => Seq::empty(),
    }
}

pub open spec fn ports_of(val: Option<Seq<char>>) -> Seq<u16> {
    match val {
        Some(v) => port_list_spec(split_spec(v, ',')),
        None => Seq::empty(),
    }
}

/// The configuration given by the variables `NNN_RO`, `NNN_RW`, `NNN_ALLOW_PORT`
/// (comma-separated) and `NNN_DENY_TCP`, `NNN_DENY_UDP` (booleans).
pub fn env_overrides(
    ro: &Option<String>,
    rw: &Option<String>,
    allow_port: &Option<String>,
    deny_tcp: &Option<String>,
    deny_udp: &Option<String>,
) -> (c: Config)
    ensures
        views(c.allow_read@) == list_of(crate::strings::opt_view(*ro)),
        views(c.allow_write@) == list_of(crate::strings::opt_view(*rw)),
        c.allow_env@.len() == 0,
        c.seccomp is None,
        c.network.allow_ports@ == ports_of(crate::strings::opt_view(*allow_port)),
        c.network.deny_tcp == (if flag_on(crate::strings::opt_view(*deny_tcp)) { Some(true) } else { None::<bool> }),
        c.network.deny_udp == (if flag_on(crate::strings::opt_view(*deny_udp)) { Some(true) } else { None::<bool> }),
{
    let mut c = Config::empty();
    if let Some(v) = ro {
        c.allow_read = parse_path_list(v.as_str());
    }
    if let Some(v) = rw {
        c.allow_write = parse_path_list(v.as_str());
    }
    if let Some(v) = allow_port {
        c.network.allow_ports = parse_port_list(v.as_str());
    }
    if flag_set(deny_tcp) {
        c.network.deny_tcp = Some(true);
    }
    if flag_set(deny_udp) {
        c.network.deny_udp = Some(true);
    }
    assert(views(c.allow_read@) =~= list_of(crate::strings::opt_view(*ro)));
    assert(views(c.allow_write@) =~= list_of(crate::strings::opt_view(*rw)));
    c
}

/// Apply the command-line flags of `exec`: `--deny-tcp` forces TCP denial, and
/// `--add-ro`, `--add-rw`, `--allow-port` append to the lists.
pub fn apply_exec_flags(cfg: &mut Config, deny_tcp: bool, add_ro: &[String], add_rw: &[String], allow_port: &[u16])
    ensures
        views(final(cfg).allow_read@) == merge_seq(views(old(cfg).allow_read@), views(add_ro@)),
        views(final(cfg).allow_write@) == merge_seq(views(old(cfg).allow_write@), views(add_rw@)),
        final(cfg).allow_env == old(cfg).allow_env,
        final(cfg).seccomp == old(cfg).seccomp,
        final(cfg).network.deny_tcp == (if deny_tcp { Some(true) } else { old(cfg).network.deny_tcp }),
        final(cfg).network.deny_udp == old(cfg).network.deny_udp,
        final(cfg).network.allow_ports@ == merge_seq(old(cfg).network.allow_ports@, allow_port@),
        forall|p: Seq<char>| #[trigger] views(final(cfg).allow_read@).contains(p) <==> (views(old(cfg).allow_read@).contains(p)
            || views(add_ro@).contains(p)),
        forall|p: Seq<char>| #[trigger] views(final(cfg).allow_write@).contains(p) <==> (views(old(cfg).allow_write@).contains(p)
            || views(add_rw@).contains(p)),
        forall|n: u16| #[trigger] final(cfg).network.allow_ports@.contains(n) <==> (old(cfg).network.allow_ports@.contains(n)
            || allow_port@.contains(n)),
        deny_tcp ==> final(cfg).network.deny_tcp == Some(true),
{
    proof {
        crate::merge::lemma_merge_seq_basics(views(cfg.allow_read@), views(add_ro@));
        crate::merge::lemma_merge_seq_basics(views(cfg.allow_write@), views(add_rw@));
        crate::merge::lemma_merge_seq_basics(cfg.network.allow_ports@, allow_port@);
    }
    if deny_tcp {
        cfg.network.deny_tcp = Some(true);
    }
    merge_vec(&mut cfg.allow_read, add_ro);
    merge_vec(&mut cfg.allow_write, add_rw);
    merge_ports(&mut cfg.network.allow_ports, allow_port);
}

pub open spec fn not_in(v: Seq<Seq<char>>) -> spec_fn(Seq<char>) -> bool {
    |p: Seq<char>| !v.contains(p)
}

/// When a path is both readable and writable, read-write wins: it leaves the read list.
pub fn read_write_wins(cfg: &mut Config)
    ensures
        views(final(cfg).allow_read@) == views(old(cfg).allow_read@).filter(not_in(views(old(cfg).allow_write@))),
        final(cfg).allow_write == old(cfg).allow_write,
        final(cfg).allow_env == old(cfg).allow_env,
        final(cfg).seccomp == old(cfg).seccomp,
        final(cfg).network == old(cfg).network,
{
    let ghost all = views(cfg.allow_read@);
    let ghost w = views(cfg.allow_write@);
    let mut kept: Vec<String> = Vec::new();
    let mut i: usize = 0;
    assert(all.take(0) =~= Seq::<Seq<char>>::empty());
    assert(views(kept@) =~= all.take(0).filter(not_in(w))) by {
        reveal(Seq::filter);
    }
    while i < cfg.allow_read.len()
        invariant
            i <= cfg.allow_read@.len(),
            all == views(cfg.allow_read@),
            w == views(cfg.allow_write@),
            views(kept@) == all.take(i as int).filter(not_in(w)),
        decreases cfg.allow_read@.len() - i,
    {
        let p = &cfg.allow_read[i];
        assert(all[i as int] == p@);
        assert(all.take(i + 1) =~= all.take(i as int).push(p@));
        proof {
            all.take(i as int).lemma_filter_push(p@, not_in(w));
        }
        if !contains_str(&cfg.allow_write, p.as_str()) {
            let ghost prev = views(kept@);
            kept.push(p.clone());
            assert(views(kept@) =~= prev.push(p@));
        }
        i = i + 1;
    }
    assert(all.take(all.len() as int) =~= all);
    cfg.allow_read = kept;
}

/// Which project config to load. One named on the command line is trusted as
/// given; one found by searching upwards must first pass the trust check, since a
/// sandboxed command could have edited it. The result is the path and whether it
/// needs that check.
pub fn project_choice(explicit: Option<String>, discovered: Option<String>) -> (r: Option<(String, bool)>)
    ensures
        match explicit {
            Some(p) => r == Some((p, false)),
            None => match discovered {
                Some(p) => r == Some((p, true)),
                None => r is None,
            },
        },
{
    match explicit {
        Some(p) => Some((p, false)),
        None => match discovered {
            Some(p) => Some((p, true)),
            None => None,
        },
    }
}

/// A setting given by the overlay wins the merge; one the overlay leaves unset
/// keeps the base value. Lists keep the base first and gain the overlay's entries.
pub proof fn lemma_overlay_settings_win(base: Config, overlay: Config, merged: Config)
    requires
        merged.is_merge_of(&base, &overlay),
    ensures
        overlay.seccomp is Some ==> merged.seccomp == overlay.seccomp,
        overlay.seccomp is None ==> merged.seccomp == base.seccomp,
        overlay.network.deny_tcp is Some ==> merged.network.deny_tcp == overlay.network.deny_tcp,
        overlay.network.deny_tcp is None ==> merged.network.deny_tcp == base.network.deny_tcp,
        overlay.network.deny_udp is Some ==> merged.network.deny_udp == overlay.network.deny_udp,
        overlay.network.deny_udp is None ==> merged.network.deny_udp == base.network.deny_udp,
        forall|p: Seq<char>| #[trigger] views(merged.allow_env@).contains(p) <==> (views(base.allow_env@).contains(p)
            || views(overlay.allow_env@).contains(p)),
        forall|n: u16| #[trigger] merged.network.allow_ports@.contains(n) <==> (base.network.allow_ports@.contains(n)
            || overlay.network.allow_ports@.contains(n)),
{
    crate::merge::lemma_merge_seq_basics(views(base.allow_env@), views(overlay.allow_env@));
    crate::merge::lemma_merge_seq_basics(base.network.allow_ports@, overlay.network.allow_ports@);
}

/// Merging an empty config on top changes nothing.
pub proof fn lemma_merge_empty_is_identity(base: Config, overlay: Config, merged: Config)
    requires
        overlay.is_empty(),
        merged.is_merge_of(&base, &overlay),
    ensures
        views(merged.allow_read@) == views(base.allow_read@),
        views(merged.allow_write@) == views(base.allow_write@),
        views(merged.allow_env@) == views(base.allow_env@),
        merged.seccomp == base.seccomp,
        merged.network.deny_tcp == base.network.deny_tcp,
        merged.network.deny_udp == base.network.deny_udp,
        merged.network.allow_ports@ == base.network.allow_ports@,
{
    assert(views(overlay.allow_read@) =~= Seq::<Seq<char>>::empty());
    assert(views(overlay.allow_write@) =~= Seq::<Seq<char>>::empty());
    assert(views(overlay.allow_env@) =~= Seq::<Seq<char>>::empty());
    assert(overlay.network.allow_ports@ =~= Seq::<u16>::empty());
}

/// After read-write wins, no path is both read-only and read-write, and no path
/// is lost: each former read-only path is still read-only or is read-write.
pub proof fn lemma_read_write_wins(before: Config, after: Config)
    requires
        views(after.allow_read@) == views(before.allow_read@).filter(not_in(views(before.allow_write@))),
        after.allow_write == before.allow_write,
    ensures
        forall|p: Seq<char>| #[trigger] views(after.allow_read@).contains(p) ==> !views(after.allow_write@).contains(p),
        forall|p: Seq<char>| #[trigger] views(before.allow_read@).contains(p) ==> views(after.allow_read@).contains(p)
            || views(after.allow_write@).contains(p),
{
    let r = views(before.allow_read@);
    let w = views(before.allow_write@);
    assert forall|p: Seq<char>| #[trigger] views(after.allow_read@).contains(p) implies !views(after.allow_write@).contains(p) by {
        r.lemma_filter_contains_rev(not_in(w), p);
        let k = choose|k: int| 0 <= k < r.filter(not_in(w)).len() && r.filter(not_in(w))[k] == p;
        r.lemma_filter_pred(not_in(w), k);
    }
    assert forall|p: Seq<char>| #[trigger] r.contains(p) implies views(after.allow_read@).contains(p) || w.contains(p) by {
        if !w.contains(p) {
            let k = choose|k: int| 0 <= k < r.len() && r[k] == p;
            r.lemma_filter_contains(not_in(w), k);
        }
    }
}

/// A list read from a variable never holds an empty path, nor a path twice.
pub proof fn lemma_path_list_clean(pieces: Seq<Seq<char>>)
    ensures
        path_list_spec(pieces).no_duplicates(),
        forall|i: int| 0 <= i < path_list_spec(pieces).len() ==> #[trigger] path_list_spec(pieces)[i].len() > 0,
    decreases pieces.len(),
{
    if pieces.len() > 0 {
        lemma_path_list_clean(pieces.drop_last());
        let rest = path_list_spec(pieces.drop_last());
        let p = trim_spec(pieces.last());
        if p.len() > 0 && !rest.contains(p) {
            assert forall|i: int, j: int| 0 <= i < rest.push(p).len() && 0 <= j < rest.push(p).len() && i != j
                implies rest.push(p)[i] != rest.push(p)[j] by {
                if i == rest.len() {
                    assert(rest[j] == rest.push(p)[j]);
                }
                if j == rest.len() {
                    assert(rest[i] == rest.push(p)[i]);
                }
            }
            assert forall|i: int| 0 <= i < rest.push(p).len() implies #[trigger] rest.push(p)[i].len() > 0 by {
                if i < rest.len() {
                    assert(rest.push(p)[i] == rest[i]);
                }
            }
        }
    }
}

/// A port list read from a variable holds no port twice.
pub proof fn lemma_port_list_no_duplicates(pieces: Seq<Seq<char>>)
    ensures
        port_list_spec(pieces).no_duplicates(),
    decreases pieces.len(),
{
    if pieces.len() > 0 {
        lemma_port_list_no_duplicates(pieces.drop_last());
        let rest = port_list_spec(pieces.drop_last());
        if let Some(port) = parse_u16_spec(trim_spec(pieces.last())) {
            if !rest.contains(port) {
                assert forall|i: int, j: int| 0 <= i < rest.push(port).len() && 0 <= j < rest.push(port).len() && i != j
                    implies rest.push(port)[i] != rest.push(port)[j] by {
                    if i == rest.len() {
                        assert(rest[j] == rest.push(port)[j]);
                    }
                    if j == rest.len() {
                        assert(rest[i] == rest.push(port)[i]);
                    }
                }
            }
        }
    }
}

/// The pieces of a port list that are not ports: trimmed, not empty, and not a
/// valid `u16`, in order. They are reported and skipped.
pub open spec fn invalid_ports_spec(pieces: Seq<Seq<char>>) -> Seq<Seq<char>>
    decreases pieces.len(),
{
    if pieces.len() == 0 {
        Seq::empty()
    } else {
        let rest = invalid_ports_spec(pieces.drop_last());
        let p = trim_spec(pieces.last());
        if p.len() > 0 && parse_u16_spec(p) is None {
            rest.push(p)
        } else {
            rest
        }
    }
}

/// The pieces of a comma-separated port list such as `$NNN_ALLOW_PORT` that are
/// not ports, for the warning that names each of them.
pub fn invalid_ports(val: &str) -> (r: Vec<String>)
    ensures
        views(r@) == invalid_ports_spec(split_spec(val@, ',')),
{
    let pieces = split(val, ',');
    let ghost ps = views(pieces@);
    let mut r: Vec<String> = Vec::new();
    let mut i: usize = 0;
    assert(ps.take(0) =~= Seq::<Seq<char>>::empty());
    while i < pieces.len()
        invariant
            i <= pieces@.len(),
            ps == views(pieces@),
            views(r@) == invalid_ports_spec(ps.take(i as int)),
        decreases pieces@.len() - i,
    {
        assert(ps.take(i + 1).drop_last() =~= ps.take(i as int));
        assert(ps.take(i + 1).last() == pieces@[i as int]@);
        let p = trim(pieces[i].as_str());
        if !p.as_str().is_empty() && parse_u16(p.as_str()).is_none() {
            let ghost prev = views(r@);
            r.push(p);
            assert(views(r@) =~= prev.push(p@));
        }
        i = i + 1;
    }
    assert(ps.take(pieces@.len() as int) =~= ps);
    r
}

/// The `[network]` table of a config file. `deny-default = true` denies outbound
/// TCP except the listed ports, as `deny-tcp = true` does; an explicit `deny-tcp`
/// takes precedence over it.
pub fn network_from_file(
    deny_tcp: Option<bool>,
    deny_udp: Option<bool>,
    deny_default: Option<bool>,
    allow_ports: Vec<u16>,
) -> (n: NetworkConfig)
    ensures
        n.deny_tcp == or_spec(deny_tcp, deny_default),
        n.deny_udp == deny_udp,
        n.allow_ports@ == allow_ports@,
{
    let tcp = match deny_tcp {
        Some(b) => Some(b),
        None => deny_default,
    };
    NetworkConfig { deny_tcp: tcp, deny_udp, allow_ports }
}

/// A config as a file gives it; a file without a `[network]` table restricts nothing.
pub fn config_from_file(
    allow_read: Vec<String>,
    allow_write: Vec<String>,
    allow_env: Vec<String>,
    seccomp: Option<bool>,
    network: Option<NetworkConfig>,
) -> (c: Config)
    ensures
        c.allow_read == allow_read,
        c.allow_write == allow_write,
        c.allow_env == allow_env,
        c.seccomp == seccomp,
        match network {
            Some(n) => c.network == n,
            None => c.network.deny_tcp is None && c.network.deny_udp is None && c.network.allow_ports@.len() == 0,
        },
{
    let network = match network {
        Some(n) => n,
        None => NetworkConfig { deny_tcp: None, deny_udp: None, allow_ports: Vec::new() },
    };
    Config { allow_read, allow_write, allow_env, seccomp, network }
}

/// A merge loses no path: every read-only, read-write and environment entry of
/// either side is in the merged config, as is every port, and the merged lists
/// hold nothing else; the base's entries keep their places at the front.
pub proof fn lemma_merge_loses_nothing(base: Config, overlay: Config, merged: Config)
    requires
        merged.is_merge_of(&base, &overlay),
    ensures
        forall|p: Seq<char>| #[trigger] views(merged.allow_read@).contains(p) <==> (views(base.allow_read@).contains(p)
            || views(overlay.allow_read@).contains(p)),
        forall|p: Seq<char>| #[trigger] views(merged.allow_write@).contains(p) <==> (views(base.allow_write@).contains(p)
            || views(overlay.allow_write@).contains(p)),
        forall|p: Seq<char>| #[trigger] views(merged.allow_env@).contains(p) <==> (views(base.allow_env@).contains(p)
            || views(overlay.allow_env@).contains(p)),
        views(merged.allow_read@).subrange(0, base.allow_read@.len() as int) == views(base.allow_read@),
        views(merged.allow_write@).subrange(0, base.allow_write@.len() as int) == views(base.allow_write@),
{
    crate::merge::lemma_merge_seq_basics(views(base.allow_read@), views(overlay.allow_read@));
    crate::merge::lemma_merge_seq_basics(views(base.allow_write@), views(overlay.allow_write@));
    crate::merge::lemma_merge_seq_basics(views(base.allow_env@), views(overlay.allow_env@));
}

} // verus!
