use vstd::prelude::*;
use crate::paths::{expand_tilde, expand_tilde_spec};
use crate::strings::{opt_view, owned, str_views, views};

verus! {

/// One filesystem rule: the path and the Landlock access bits granted beneath it.
pub struct PathRule {
    pub path: String,
    pub access: u64,
}

pub open spec fn rule_views(v: Seq<PathRule>) -> Seq<(Seq<char>, u64)> {
    v.map_values(|r: PathRule| (r.path@, r.access))
}

/// Each path with the same access.
pub open spec fn rules_for(paths: Seq<Seq<char>>, access: u64) -> Seq<(Seq<char>, u64)> {
    paths.map_values(|p: Seq<char>| (p, access))
}

/// Each path, `~` expanded, with the same access.
pub open spec fn expanded_rules_for(paths: Seq<Seq<char>>, home: Option<Seq<char>>, access: u64) -> Seq<(Seq<char>, u64)> {
    paths.map_values(|p: Seq<char>| (expand_tilde_spec(p, home), access))
}

/// Append a rule with `access` for each path of `paths`.
pub fn push_fixed_rules(out: &mut Vec<PathRule>, paths: &[&str], access: u64)
    ensures
        rule_views(final(out)@) == rule_views(old(out)@) + rules_for(str_views(paths@), access),
{
    let ghost start = rule_views(out@);
    let mut i: usize = 0;
    while i < paths.len()
        invariant
            i <= paths@.len(),
            rule_views(out@) == start + rules_for(str_views(paths@), access).take(i as int),
        decreases paths@.len() - i,
    {
        let ghost prev = rule_views(out@);
        out.push(PathRule { path: owned(paths[i]), access });
        assert(rules_for(str_views(paths@), access).take(i + 1) =~= rules_for(str_views(paths@), access).take(i as int).push((paths@[i as int]@, access)));
        assert(rule_views(out@) =~= prev.push((paths@[i as int]@, access)));
        i = i + 1;
    }
    assert(rules_for(str_views(paths@), access).take(paths@.len() as int) =~= rules_for(str_views(paths@), access));
}

/// Append a rule with `access` for each configured path, `~` expanded to `home`.
pub fn push_expanded_rules(out: &mut Vec<PathRule>, paths: &[String], home: &Option<String>, access: u64)
    ensures
        rule_views(final(out)@) == rule_views(old(out)@) + expanded_rules_for(views(paths@), opt_view(*home), access),
{
    let ghost start = rule_views(out@);
    let ghost all = expanded_rules_for(views(paths@), opt_view(*home), access);
    let mut i: usize = 0;
    while i < paths.len()
        invariant
            i <= paths@.len(),
            all == expanded_rules_for(views(paths@), opt_view(*home), access),
            rule_views(out@) == start + all.take(i as int),
        decreases paths@.len() - i,
    {
        let ghost prev = rule_views(out@);
        let p = expand_tilde(paths[i].as_str(), home);
        out.push(PathRule { path: p, access });
        assert(all.take(i + 1) =~= all.take(i as int).push(all[i as int]));
        assert(rule_views(out@) =~= prev.push(all[i as int]));
        i = i + 1;
    }
    assert(all.take(paths@.len() as int) =~= all);
}

} // verus!
