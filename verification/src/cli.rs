use vstd::prelude::*;
use crate::paths::{path_join, path_join_spec};
use crate::settings::NetworkConfig;
use crate::strings::{join_spec, opt_view, owned, str_eq, views};

verus! {

/// `nnn -- <cmd>` is read as `nnn exec -- <cmd>`; any other argument list is kept.
pub open spec fn rewritten_args(raw: Seq<Seq<char>>) -> Seq<Seq<char>> {
    if raw.len() > 1 && raw[1] == "--"@ {
        seq![raw[0], "exec"@, "--"@] + raw.skip(2)
    } else {
        raw
    }
}

/// Rewrite `nnn -- <cmd>` into `nnn exec -- <cmd>`: the only way to run a command
/// without naming a subcommand.
pub fn rewrite_args(raw: Vec<String>) -> (r: Vec<String>)
    ensures
        views(r@) == rewritten_args(views(raw@)),
{
    if raw.len() > 1 && str_eq(raw[1].as_str(), "--") {
        let mut r: Vec<String> = Vec::new();
        r.push(raw[0].clone());
        r.push(owned("exec"));
        r.push(owned("--"));
        let ghost head = views(r@);
        assert(head =~= seq![views(raw@)[0], "exec"@, "--"@]);
        let mut i: usize = 2;
        while i < raw.len()
            invariant
                2 <= i <= raw@.len(),
                views(r@) == head + views(raw@).subrange(2, i as int),
            decreases raw@.len() - i,
        {
            let ghost prev = views(r@);
            r.push(raw[i].clone());
            assert(views(r@) =~= prev.push(raw@[i as int]@));
            assert(views(raw@).subrange(2, i + 1) =~= views(raw@).subrange(2, i as int).push(raw@[i as int]@));
            i = i + 1;
        }
        assert(views(raw@).subrange(2, raw@.len() as int) =~= views(raw@).skip(2));
        r
    } else {
        raw
    }
}

/// The config file that `add-ro`/`add-rw` edit: the global one with `--global`,
/// else the project config found upwards, else `.nnn.toml` in the git root or,
/// failing that, in `root` (the working directory, or `.`).
pub open spec fn add_target_spec(global: bool, global_path: Seq<char>, project: Option<Seq<char>>, root: Seq<char>) -> Seq<char> {
    if global {
        global_path
    } else {
        match project {
            Some(p) => p,
            None => path_join_spec(root, ".nnn.toml"@),
        }
    }
}

/// The config file that `add-ro`/`add-rw` edit.
pub fn add_target(global: bool, global_path: &str, project: &Option<String>, root: &str) -> (r: String)
    ensures
        r@ == add_target_spec(global, global_path@, opt_view(*project), root@),
{
    if global {
        owned(global_path)
    } else {
        match project {
            Some(p) => owned(p.as_str()),
            None => path_join(root, ".nnn.toml"),
        }
    }
}

/// The lines listing `paths` under `label`: `(none)` when there are none.
pub open spec fn paths_lines_spec(label: Seq<char>, paths: Seq<Seq<char>>) -> Seq<Seq<char>> {
    if paths.len() == 0 {
        seq!["  "@ + label + ": (none)"@]
    } else {
        seq!["  "@ + label + ":"@] + paths.map_values(|p: Seq<char>| "    "@ + p)
    }
}

/// The lines listing `paths` under `label`.
pub fn paths_lines(label: &str, paths: &[String]) -> (r: Vec<String>)
    ensures
        views(r@) == paths_lines_spec(label@, views(paths@)),
{
    let mut r: Vec<String> = Vec::new();
    let mut head = owned("  ");
    head.append(label);
    if paths.len() == 0 {
        head.append(": (none)");
        r.push(head);
        assert(views(r@) =~= paths_lines_spec(label@, views(paths@)));
        return r;
    }
    head.append(":");
    r.push(head);
    let ghost first = views(r@);
    let ghost body = views(paths@).map_values(|p: Seq<char>| "    "@ + p);
    let mut i: usize = 0;
    while i < paths.len()
        invariant
            i <= paths@.len(),
            body == views(paths@).map_values(|p: Seq<char>| "    "@ + p),
            views(r@) == first + body.take(i as int),
        decreases paths@.len() - i,
    {
        let mut line = owned("    ");
        line.append(paths[i].as_str());
        let ghost prev = views(r@);
        r.push(line);
        assert(body.take(i + 1) =~= body.take(i as int).push(body[i as int]));
        assert(views(r@) =~= prev.push(body[i as int]));
        i = i + 1;
    }
    assert(body.take(paths@.len() as int) =~= body);
    r
}

/// The decimal digits of `n`.
pub open spec fn decimal_spec(n: nat) -> Seq<char>
    decreases n,
{
    if n < 10 {
        seq![digit_char(n)]
    } else {
        decimal_spec(n / 10).push(digit_char(n % 10))
    }
}

pub open spec fn digit_char(d: nat) -> char {
    if d == 0 { '0' } else if d == 1 { '1' } else if d == 2 { '2' } else if d == 3 { '3' }
    else if d == 4 { '4' } else if d == 5 { '5' } else if d == 6 { '6' } else if d == 7 { '7' }
    else if d == 8 { '8' } else { '9' }
}

/// A one-character string holding the decimal digit `d`.
fn digit_str(d: u16) -> (s: &'static str)
    requires
        d < 10,
    ensures
        s@ == seq![digit_char(d as nat)],
{
    proof {
        reveal_strlit("0");
        reveal_strlit("1");
        reveal_strlit("2");
        reveal_strlit("3");
        reveal_strlit("4");
        reveal_strlit("5");
        reveal_strlit("6");
        reveal_strlit("7");
        reveal_strlit("8");
        reveal_strlit("9");
    }
    let s = if d == 0 { "0" } else if d == 1 { "1" } else if d == 2 { "2" } else if d == 3 { "3" }
    else if d == 4 { "4" } else if d == 5 { "5" } else if d == 6 { "6" } else if d == 7 { "7" }
    else if d == 8 { "8" } else { "9" };
    assert(s@ =~= seq![digit_char(d as nat)]);
    s
}

/// `n` in decimal.
pub fn decimal(n: u16) -> (s: String)
    ensures
        s@ == decimal_spec(n as nat),
    decreases n,
{
    if n < 10 {
        owned(digit_str(n))
    } else {
        let mut s = decimal(n / 10);
        s.append(digit_str(n % 10));
        s
    }
}

/// `ports` as `{:?}` shows them: `[80, 443]`.
pub open spec fn ports_text_spec(ports: Seq<u16>) -> Seq<char> {
    "["@ + join_spec(ports.map_values(|p: u16| decimal_spec(p as nat)), ", "@) + "]"@
}

/// `ports` as `{:?}` shows them.
pub fn ports_text(ports: &[u16]) -> (s: String)
    ensures
        s@ == ports_text_spec(ports@),
{
    let ghost all = ports@.map_values(|p: u16| decimal_spec(p as nat));
    let mut body = String::new();
    let mut i: usize = 0;
    assert(all.take(0) =~= Seq::<Seq<char>>::empty());
    while i < ports.len()
        invariant
            i <= ports@.len(),
            all == ports@.map_values(|p: u16| decimal_spec(p as nat)),
            body@ == join_spec(all.take(i as int), ", "@),
        decreases ports@.len() - i,
    {
        assert(all.take(i + 1).drop_last() =~= all.take(i as int));
        assert(all.take(i + 1).last() == decimal_spec(ports@[i as int] as nat));
        if i != 0 {
            body.append(", ");
        } else {
            assert(body@ =~= Seq::<char>::empty());
        }
        let d = decimal(ports[i]);
        body.append(d.as_str());
        proof {
            if i == 0 {
                assert(body@ =~= d@);
            }
        }
        i = i + 1;
    }
    assert(all.take(ports@.len() as int) =~= all);
    let mut s = owned("[");
    s.append(body.as_str());
    s.append("]");
    s
}

pub open spec fn bool_text(b: bool) -> Seq<char> {
    if b { "true"@ } else { "false"@ }
}

/// The lines describing the network restrictions.
pub open spec fn network_lines_spec(deny_tcp: Option<bool>, deny_udp: Option<bool>, ports: Seq<u16>) -> Seq<Seq<char>> {
    if deny_tcp is Some || deny_udp is Some || ports.len() > 0 {
        seq!["  network:"@] + (match deny_tcp {
            Some(b) => seq!["    deny-tcp: "@ + bool_text(b)],
            None => Seq::empty(),
        }) + (match deny_udp {
            Some(b) => seq!["    deny-udp: "@ + bool_text(b)],
            None => Seq::empty(),
        }) + (if ports.len() > 0 {
            seq!["    allow-ports: "@ + ports_text_spec(ports)]
        } else {
            Seq::empty()
        })
    } else {
        seq!["  network: (unrestricted)"@]
    }
}

/// The lines describing the network restrictions.
pub fn network_lines(net: &NetworkConfig) -> (r: Vec<String>)
    ensures
        views(r@) == network_lines_spec(net.deny_tcp, net.deny_udp, net.allow_ports@),
{
    let mut r: Vec<String> = Vec::new();
    if net.deny_tcp.is_some() || net.deny_udp.is_some() || net.allow_ports.len() > 0 {
        r.push(owned("  network:"));
        let ghost l0 = views(r@);
        if let Some(b) = net.deny_tcp {
            let mut line = owned("    deny-tcp: ");
            line.append(if b { "true" } else { "false" });
            r.push(line);
        }
        let ghost l1 = views(r@);
        assert(l1 =~= l0 + match net.deny_tcp {
            Some(b) => seq!["    deny-tcp: "@ + bool_text(b)],
            None => Seq::<Seq<char>>::empty(),
        });
        if let Some(b) = net.deny_udp {
            let mut line = owned("    deny-udp: ");
            line.append(if b { "true" } else { "false" });
            r.push(line);
        }
        let ghost l2 = views(r@);
        assert(l2 =~= l1 + match net.deny_udp {
            Some(b) => seq!["    deny-udp: "@ + bool_text(b)],
            None => Seq::<Seq<char>>::empty(),
        });
        if net.allow_ports.len() > 0 {
            let mut line = owned("    allow-ports: ");
            let t = ports_text(net.allow_ports.as_slice());
            line.append(t.as_str());
            r.push(line);
        }
        assert(views(r@) =~= l2 + if net.allow_ports@.len() > 0 {
            seq!["    allow-ports: "@ + ports_text_spec(net.allow_ports@)]
        } else {
            Seq::<Seq<char>>::empty()
        });
        assert(l0 =~= seq!["  network:"@]);
    } else {
        r.push(owned("  network: (unrestricted)"));
        assert(views(r@) =~= seq!["  network: (unrestricted)"@]);
    }
    r
}

/// One line naming the patterns of an environment allow-list: `  label: a b c`.
pub open spec fn inline_line_spec(label: Seq<char>, items: Seq<Seq<char>>) -> Seq<char>
    decreases items.len(),
{
    if items.len() == 0 {
        "  "@ + label + ":"@
    } else {
        inline_line_spec(label, items.drop_last()) + " "@ + items.last()
    }
}

/// One line naming the patterns of an environment allow-list.
pub fn inline_line(label: &str, items: &[String]) -> (s: String)
    ensures
        s@ == inline_line_spec(label@, views(items@)),
{
    let mut s = owned("  ");
    s.append(label);
    s.append(":");
    let ghost all = views(items@);
    let mut i: usize = 0;
    assert(all.take(0) =~= Seq::<Seq<char>>::empty());
    while i < items.len()
        invariant
            i <= items@.len(),
            all == views(items@),
            s@ == inline_line_spec(label@, all.take(i as int)),
        decreases items@.len() - i,
    {
        assert(all.take(i + 1).drop_last() =~= all.take(i as int));
        assert(all.take(i + 1).last() == items@[i as int]@);
        s.append(" ");
        s.append(items[i].as_str());
        i = i + 1;
    }
    assert(all.take(items@.len() as int) =~= all);
    s
}

/// The environment allow-list lines: the built-in patterns, then the configured
/// ones when there are any.
pub fn env_allowlist_lines(extra: &[String]) -> (r: Vec<String>)
    ensures
        views(r@) == seq![inline_line_spec("allow-env (built-in)"@, crate::env_policy::default_env_allowlist_spec())]
            + if extra@.len() > 0 {
                seq![inline_line_spec("allow-env (config)"@, views(extra@))]
            } else {
                Seq::<Seq<char>>::empty()
            },
{
    let defaults = crate::env_policy::default_env_allowlist();
    let mut r: Vec<String> = Vec::new();
    r.push(inline_line("allow-env (built-in)", defaults.as_slice()));
    let ghost l0 = views(r@);
    if extra.len() > 0 {
        r.push(inline_line("allow-env (config)", extra));
    }
    assert(views(r@) =~= l0 + if extra@.len() > 0 {
        seq![inline_line_spec("allow-env (config)"@, views(extra@))]
    } else {
        Seq::<Seq<char>>::empty()
    });
    r
}

} // verus!
