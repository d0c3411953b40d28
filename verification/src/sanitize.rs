use vstd::prelude::*;
use crate::strings::starts_with;

verus! {

/// Library-injection variables: `LD_*` and `DYLD_*`.
pub open spec fn is_dangerous_spec(key: Seq<char>) -> bool {
    "LD_"@.is_prefix_of(key) || "DYLD_"@.is_prefix_of(key)
}

/// Whether an environment variable is a library-injection vector (`LD_*`, `DYLD_*`).
pub fn is_dangerous(key: &str) -> (b: bool)
    ensures
        b == is_dangerous_spec(key@),
{
    starts_with(key, "LD_") || starts_with(key, "DYLD_")
}

/// The views of a list of environment entries.
pub open spec fn pair_views(v: Seq<(String, String)>) -> Seq<(Seq<char>, Seq<char>)> {
    v.map_values(|p: (String, String)| (p.0@, p.1@))
}

pub open spec fn not_dangerous() -> spec_fn((Seq<char>, Seq<char>)) -> bool {
    |p: (Seq<char>, Seq<char>)| !is_dangerous_spec(p.0)
}

/// The given environment with dangerous variables stripped, in order, followed by `NOUNOURS=1`.
pub fn hardened_env(vars: Vec<(String, String)>) -> (env: Vec<(String, String)>)
    ensures
        pair_views(env@) == pair_views(vars@).filter(not_dangerous()).push(("NOUNOURS"@, "1"@)),
{
    let mut env: Vec<(String, String)> = Vec::new();
    let ghost all = pair_views(vars@);
    let mut i: usize = 0;
    assert(all.take(0) =~= Seq::<(Seq<char>, Seq<char>)>::empty());
    assert(pair_views(env@) =~= all.take(0).filter(not_dangerous())) by {
        reveal(Seq::filter);
    }
    while i < vars.len()
        invariant
            i <= vars@.len(),
            all == pair_views(vars@),
            pair_views(env@) == all.take(i as int).filter(not_dangerous()),
        decreases vars@.len() - i,
    {
        let (k, v) = (&vars[i].0, &vars[i].1);
        assert(all.take(i + 1) =~= all.take(i as int).push(all[i as int]));
        proof {
            all.take(i as int).lemma_filter_push(all[i as int], not_dangerous());
        }
        if !is_dangerous(k.as_str()) {
            let ghost prev = pair_views(env@);
            env.push((k.clone(), v.clone()));
            assert(pair_views(env@) =~= prev.push(all[i as int]));
        }
        i = i + 1;
    }
    assert(all.take(vars@.len() as int) =~= all);
    let ghost prev = pair_views(env@);
    env.push((crate::strings::owned("NOUNOURS"), crate::strings::owned("1")));
    assert(pair_views(env@) =~= prev.push(("NOUNOURS"@, "1"@)));
    env
}

/// The sanitised environment holds no `LD_*` or `DYLD_*` variable.
pub proof fn lemma_no_dangerous_left(vars: Seq<(Seq<char>, Seq<char>)>)
    ensures
        forall|i: int| 0 <= i < vars.filter(not_dangerous()).push(("NOUNOURS"@, "1"@)).len()
            ==> !is_dangerous_spec(#[trigger] vars.filter(not_dangerous()).push(("NOUNOURS"@, "1"@))[i].0),
{
    let f = vars.filter(not_dangerous());
    let all = f.push(("NOUNOURS"@, "1"@));
    assert forall|i: int| 0 <= i < all.len() implies !is_dangerous_spec(#[trigger] all[i].0) by {
        if i < f.len() {
            vars.lemma_filter_pred(not_dangerous(), i);
            assert(all[i] == f[i]);
        } else {
            assert(all[i] == ("NOUNOURS"@, "1"@));
            reveal_strlit("NOUNOURS");
            reveal_strlit("LD_");
            reveal_strlit("DYLD_");
            assert(!"LD_"@.is_prefix_of("NOUNOURS"@)) by {
                assert("NOUNOURS"@[0] != "LD_"@[0]);
            }
            assert(!"DYLD_"@.is_prefix_of("NOUNOURS"@)) by {
                assert("NOUNOURS"@[0] != "DYLD_"@[0]);
            }
        }
    }
}

/// A variable is dangerous exactly when its name starts with `LD_` or `DYLD_`,
/// character by character: `LDFLAGS` or `LD` alone are not.
pub proof fn lemma_dangerous_names(key: Seq<char>)
    ensures
        is_dangerous_spec(key) <==> (
            (key.len() >= 3 && key[0] == 'L' && key[1] == 'D' && key[2] == '_')
            || (key.len() >= 5 && key[0] == 'D' && key[1] == 'Y' && key[2] == 'L' && key[3] == 'D' && key[4] == '_')
        ),
{
    reveal_strlit("LD_");
    reveal_strlit("DYLD_");
    let a = "LD_"@;
    let b = "DYLD_"@;
    if key.len() >= 3 && key[0] == 'L' && key[1] == 'D' && key[2] == '_' {
        assert(a =~= key.subrange(0, 3));
    }
    if key.len() >= 5 && key[0] == 'D' && key[1] == 'Y' && key[2] == 'L' && key[3] == 'D' && key[4] == '_' {
        assert(b =~= key.subrange(0, 5));
    }
    if a.is_prefix_of(key) {
        assert(key[0] == key.subrange(0, 3)[0]);
        assert(key[1] == key.subrange(0, 3)[1]);
        assert(key[2] == key.subrange(0, 3)[2]);
    }
    if b.is_prefix_of(key) {
        assert(key[0] == key.subrange(0, 5)[0]);
        assert(key[1] == key.subrange(0, 5)[1]);
        assert(key[2] == key.subrange(0, 5)[2]);
        assert(key[3] == key.subrange(0, 5)[3]);
        assert(key[4] == key.subrange(0, 5)[4]);
    }
}

/// A variable that is not dangerous survives sanitising.
pub proof fn lemma_safe_var_kept(vars: Seq<(Seq<char>, Seq<char>)>, i: int)
    requires
        0 <= i < vars.len(),
        !is_dangerous_spec(vars[i].0),
    ensures
        vars.filter(not_dangerous()).contains(vars[i]),
{
    vars.lemma_filter_contains(not_dangerous(), i);
}

} // verus!
