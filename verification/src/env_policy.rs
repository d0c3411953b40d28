use vstd::prelude::*;
use crate::sanitize::{is_dangerous, is_dangerous_spec, pair_views};
use crate::strings::{char_at, char_len, owned, starts_with, str_eq, substring, views};

verus! {

/// Variables passed into the sandbox by default; a trailing `*` matches by prefix.
pub open spec fn default_env_allowlist_spec() -> Seq<Seq<char>> {
    seq![
        "HOME"@, "USER"@, "LOGNAME"@, "UID"@, "PATH"@, "SHELL"@, "TERM"@,
        "COLORTERM"@, "LANG"@, "LC_*"@, "XDG_*"@,
    ]
}

/// Variables passed into the sandbox by default. `LC_*` covers the locale
/// variables, `XDG_*` every XDG directory variable.
pub fn default_env_allowlist() -> (r: Vec<String>)
    ensures
        views(r@) == default_env_allowlist_spec(),
{
    let r = vec![
        owned("HOME"), owned("USER"), owned("LOGNAME"), owned("UID"), owned("PATH"),
        owned("SHELL"), owned("TERM"), owned("COLORTERM"), owned("LANG"),
        owned("LC_*"), // prefix: LC_ALL, LC_CTYPE, LC_MESSAGES, etc.
        owned("XDG_*"), // prefix: all XDG vars
    ];
    assert(views(r@) =~= default_env_allowlist_spec());
    r
}

/// Variables injected into the sandbox. `TMPDIR` points at a write-allowed
/// directory so temporary files stay where the sandbox may write.
pub open spec fn injected_env_spec() -> Seq<(Seq<char>, Seq<char>)> {
    seq![("NNN"@, "1"@), ("TMPDIR"@, "/tmp/nnn"@)]
}

/// A key matches a pattern that ends in `*` when it starts with the rest of the
/// pattern, and any other pattern when it equals it.
pub open spec fn pattern_matches(key: Seq<char>, pat: Seq<char>) -> bool {
    if pat.len() > 0 && pat.last() == '*' {
        pat.drop_last().is_prefix_of(key)
    } else {
        key == pat
    }
}

pub open spec fn env_matches_spec(key: Seq<char>, patterns: Seq<Seq<char>>) -> bool {
    exists|i: int| 0 <= i < patterns.len() && pattern_matches(key, #[trigger] patterns[i])
}

/// Whether `key` matches one of `patterns`.
pub fn env_matches(key: &str, patterns: &[String]) -> (b: bool)
    ensures
        b == env_matches_spec(key@, views(patterns@)),
{
    let ghost ps = views(patterns@);
    let mut i: usize = 0;
    while i < patterns.len()
        invariant
            i <= patterns@.len(),
            ps == views(patterns@),
            forall|j: int| 0 <= j < i ==> !pattern_matches(key@, #[trigger] ps[j]),
        decreases patterns@.len() - i,
    {
        let pat = patterns[i].as_str();
        assert(ps[i as int] == pat@);
        let n = char_len(pat);
        let m = if n > 0 && char_at(pat, n - 1) == '*' {
            let prefix = substring(pat, 0, n - 1);
            assert(prefix@ =~= pat@.drop_last());
            starts_with(key, prefix.as_str())
        } else {
            str_eq(key, pat)
        };
        if m {
            return true;
        }
        i = i + 1;
    }
    false
}

/// The variables kept inside the sandbox: allow-listed (built in or configured),
/// not dangerous and not `NNN`, which is injected instead.
pub open spec fn kept_var(key: Seq<char>, extra_allow: Seq<Seq<char>>) -> bool {
    &&& key != "NNN"@
    &&& !is_dangerous_spec(key)
    &&& (env_matches_spec(key, default_env_allowlist_spec()) || env_matches_spec(key, extra_allow))
}

pub open spec fn kept(extra_allow: Seq<Seq<char>>) -> spec_fn((Seq<char>, Seq<char>)) -> bool {
    |p: (Seq<char>, Seq<char>)| kept_var(p.0, extra_allow)
}

/// The environment passed into the sandbox: the kept variables of `vars`, in order,
/// followed by the injected ones.
pub fn hardened_env(vars: Vec<(String, String)>, extra_allow: &[String]) -> (env: Vec<(String, String)>)
    ensures
        pair_views(env@) == pair_views(vars@).filter(kept(views(extra_allow@))) + injected_env_spec(),
{
    let defaults = default_env_allowlist();
    let ghost extra = views(extra_allow@);
    let mut env: Vec<(String, String)> = Vec::new();
    let ghost all = pair_views(vars@);
    let mut i: usize = 0;
    assert(all.take(0) =~= Seq::<(Seq<char>, Seq<char>)>::empty());
    assert(pair_views(env@) =~= all.take(0).filter(kept(extra))) by {
        reveal(Seq::filter);
    }
    while i < vars.len()
        invariant
            i <= vars@.len(),
            all == pair_views(vars@),
            extra == views(extra_allow@),
            views(defaults@) == default_env_allowlist_spec(),
            pair_views(env@) == all.take(i as int).filter(kept(extra)),
        decreases vars@.len() - i,
    {
        let k = vars[i].0.as_str();
        assert(all.take(i + 1) =~= all.take(i as int).push(all[i as int]));
        proof {
            all.take(i as int).lemma_filter_push(all[i as int], kept(extra));
        }
        if !str_eq(k, "NNN") && !is_dangerous(k) && (env_matches(k, defaults.as_slice())
            || env_matches(k, extra_allow)) {
            let ghost prev = pair_views(env@);
            env.push((vars[i].0.clone(), vars[i].1.clone()));
            assert(pair_views(env@) =~= prev.push(all[i as int]));
        }
        i = i + 1;
    }
    assert(all.take(vars@.len() as int) =~= all);
    let ghost kept_part = pair_views(env@);
    env.push((owned("NNN"), owned("1")));
    env.push((owned("TMPDIR"), owned("/tmp/nnn")));
    assert(pair_views(env@) =~= kept_part + injected_env_spec());
    env
}

/// The sandbox environment never carries a library-injection variable or an
/// inherited `NNN`; every inherited variable in it is allow-listed; and it always
/// ends with the injected `NNN=1` and `TMPDIR=/tmp/nnn`.
pub proof fn lemma_hardened_env_safe(vars: Seq<(Seq<char>, Seq<char>)>, extra: Seq<Seq<char>>)
    ensures
        ({
            let kept_vars = vars.filter(kept(extra));
            &&& forall|i: int| 0 <= i < kept_vars.len() ==> !is_dangerous_spec(#[trigger] kept_vars[i].0)
            &&& forall|i: int| 0 <= i < kept_vars.len() ==> #[trigger] kept_vars[i].0 != "NNN"@
            &&& forall|i: int| 0 <= i < kept_vars.len() ==> (env_matches_spec(#[trigger] kept_vars[i].0, default_env_allowlist_spec())
                || env_matches_spec(kept_vars[i].0, extra))
            &&& (kept_vars + injected_env_spec()).subrange(kept_vars.len() as int, kept_vars.len() + 2int) == injected_env_spec()
        }),
{
    let kept_vars = vars.filter(kept(extra));
    assert forall|i: int| 0 <= i < kept_vars.len() implies kept_var(#[trigger] kept_vars[i].0, extra) by {
        vars.lemma_filter_pred(kept(extra), i);
    }
    assert((kept_vars + injected_env_spec()).subrange(kept_vars.len() as int, kept_vars.len() + 2int) =~= injected_env_spec());
}

/// A pattern without a trailing `*` matches exactly the key that equals it; one
/// with a trailing `*` matches exactly the keys that start with the rest.
pub proof fn lemma_pattern_exact_unless_star(key: Seq<char>, pat: Seq<char>)
    ensures
        (pat.len() == 0 || pat.last() != '*') ==> (pattern_matches(key, pat) <==> key == pat),
        (pat.len() > 0 && pat.last() == '*') ==> (pattern_matches(key, pat) <==> (
            key.len() >= pat.len() - 1 && key.subrange(0, pat.len() - 1) == pat.drop_last())),
{
}

/// The built-in allow-list passes exactly the variables it names and those that
/// start with `LC_` or `XDG_`: a name that merely starts with one of the listed
/// names, such as `HOMEBREW_GITHUB_API_TOKEN`, is not passed.
pub proof fn lemma_default_allowlist_members(key: Seq<char>)
    ensures
        env_matches_spec(key, default_env_allowlist_spec()) <==> (
            key == "HOME"@ || key == "USER"@ || key == "LOGNAME"@ || key == "UID"@
            || key == "PATH"@ || key == "SHELL"@ || key == "TERM"@ || key == "COLORTERM"@
            || key == "LANG"@ || "LC_"@.is_prefix_of(key) || "XDG_"@.is_prefix_of(key)),
{
    reveal_strlit("HOME");
    reveal_strlit("USER");
    reveal_strlit("LOGNAME");
    reveal_strlit("UID");
    reveal_strlit("PATH");
    reveal_strlit("SHELL");
    reveal_strlit("TERM");
    reveal_strlit("COLORTERM");
    reveal_strlit("LANG");
    reveal_strlit("LC_*");
    reveal_strlit("XDG_*");
    reveal_strlit("LC_");
    reveal_strlit("XDG_");
    let ps = default_env_allowlist_spec();
    assert("LC_*"@.drop_last() =~= "LC_"@);
    assert("XDG_*"@.drop_last() =~= "XDG_"@);
    assert(pattern_matches(key, ps[0]) <==> key == "HOME"@);
    assert(pattern_matches(key, ps[1]) <==> key == "USER"@);
    assert(pattern_matches(key, ps[2]) <==> key == "LOGNAME"@);
    assert(pattern_matches(key, ps[3]) <==> key == "UID"@);
    assert(pattern_matches(key, ps[4]) <==> key == "PATH"@);
    assert(pattern_matches(key, ps[5]) <==> key == "SHELL"@);
    assert(pattern_matches(key, ps[6]) <==> key == "TERM"@);
    assert(pattern_matches(key, ps[7]) <==> key == "COLORTERM"@);
    assert(pattern_matches(key, ps[8]) <==> key == "LANG"@);
    assert(pattern_matches(key, ps[9]) <==> "LC_"@.is_prefix_of(key));
    assert(pattern_matches(key, ps[10]) <==> "XDG_"@.is_prefix_of(key));
    if env_matches_spec(key, ps) {
        let i = choose|i: int| 0 <= i < ps.len() && pattern_matches(key, #[trigger] ps[i]);
        assert(0 <= i < 11);
    }
}

/// An allow-listed variable that is not dangerous passes through unchanged.
pub proof fn lemma_allowed_var_passes(vars: Seq<(Seq<char>, Seq<char>)>, extra: Seq<Seq<char>>, i: int)
    requires
        0 <= i < vars.len(),
        kept_var(vars[i].0, extra),
    ensures
        vars.filter(kept(extra)).contains(vars[i]),
{
    vars.lemma_filter_contains(kept(extra), i);
}

} // verus!
