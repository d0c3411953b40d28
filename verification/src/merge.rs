use vstd::prelude::*;
use crate::strings::{contains_str, views};

verus! {

/// `base` followed by every item of `overlay` that is not already there, in order.
pub open spec fn merge_seq<A>(base: Seq<A>, overlay: Seq<A>) -> Seq<A>
    decreases overlay.len(),
{
    if overlay.len() == 0 {
        base
    } else {
        let m = merge_seq(base, overlay.drop_last());
        if m.contains(overlay.last()) {
            m
        } else {
            m.push(overlay.last())
        }
    }
}

/// Merging keeps `base` as a prefix, and the result holds exactly what either side holds.
pub proof fn lemma_merge_seq_basics<A>(base: Seq<A>, overlay: Seq<A>)
    ensures
        merge_seq(base, overlay).len() >= base.len(),
        merge_seq(base, overlay).subrange(0, base.len() as int) == base,
        forall|x: A| #[trigger] merge_seq(base, overlay).contains(x) <==> (base.contains(x) || overlay.contains(x)),
        base.no_duplicates() ==> merge_seq(base, overlay).no_duplicates(),
    decreases overlay.len(),
{
    if overlay.len() == 0 {
        assert(base.subrange(0, base.len() as int) =~= base);
    } else {
        let o = overlay.drop_last();
        lemma_merge_seq_basics(base, o);
        let m = merge_seq(base, o);
        let y = overlay.last();
        assert forall|x: A| #[trigger] merge_seq(base, overlay).contains(x) <==> (base.contains(x) || overlay.contains(x)) by {
            if overlay.contains(x) && !o.contains(x) {
                let k = choose|k: int| 0 <= k < overlay.len() && overlay[k] == x;
                if k < o.len() {
                    assert(o[k] == x);
                }
                assert(x == y);
            }
            if o.contains(x) {
                let k = choose|k: int| 0 <= k < o.len() && o[k] == x;
                assert(overlay[k] == x);
            }
            if !m.contains(y) {
                assert(m.push(y)[m.len() as int] == y);
                if m.push(y).contains(x) {
                    let k = choose|k: int| 0 <= k < m.push(y).len() && m.push(y)[k] == x;
                    if k < m.len() {
                        assert(m[k] == x);
                    }
                }
                if m.contains(x) {
                    let k = choose|k: int| 0 <= k < m.len() && m[k] == x;
                    assert(m.push(y)[k] == x);
                }
            }
            assert(overlay[overlay.len() - 1] == y);
        }
        if !m.contains(y) {
            assert(m.push(y).subrange(0, base.len() as int) =~= m.subrange(0, base.len() as int));
        }
    }
}

/// Adding an overlay a second time changes nothing.
pub proof fn lemma_merge_seq_idempotent<A>(base: Seq<A>, overlay: Seq<A>)
    ensures
        merge_seq(merge_seq(base, overlay), overlay) == merge_seq(base, overlay),
{
    let m = merge_seq(base, overlay);
    lemma_merge_seq_basics(base, overlay);
    lemma_merge_seq_absorbs(m, overlay);
}

/// Merging items that are all present already leaves the sequence unchanged.
pub proof fn lemma_merge_seq_absorbs<A>(base: Seq<A>, overlay: Seq<A>)
    requires
        forall|x: A| overlay.contains(x) ==> base.contains(x),
    ensures
        merge_seq(base, overlay) == base,
    decreases overlay.len(),
{
    if overlay.len() > 0 {
        let o = overlay.drop_last();
        assert forall|x: A| o.contains(x) implies base.contains(x) by {
            let k = choose|k: int| 0 <= k < o.len() && o[k] == x;
            assert(overlay[k] == x);
        }
        lemma_merge_seq_absorbs(base, o);
        assert(overlay[overlay.len() - 1] == overlay.last());
        assert(overlay.contains(overlay.last()));
    }
}

/// Append to `dst` every string of `src` that it does not hold yet.
pub fn merge_vec(dst: &mut Vec<String>, src: &[String])
    ensures
        views(final(dst)@) == merge_seq(views(old(dst)@), views(src@)),
{
    let ghost base = views(dst@);
    let ghost all = views(src@);
    let mut i: usize = 0;
    assert(all.take(0) =~= Seq::<Seq<char>>::empty());
    while i < src.len()
        invariant
            i <= src@.len(),
            all == views(src@),
            views(dst@) == merge_seq(base, all.take(i as int)),
        decreases src@.len() - i,
    {
        let p = &src[i];
        assert(all.take(i + 1).drop_last() =~= all.take(i as int));
        assert(all.take(i + 1).last() == p@);
        if !contains_str(dst, p.as_str()) {
            let ghost prev = views(dst@);
            dst.push(p.clone());
            assert(views(dst@) =~= prev.push(p@));
        }
        i = i + 1;
    }
    assert(all.take(src@.len() as int) =~= all);
}

/// Append to `dst` every port of `src` that it does not hold yet.
pub fn merge_ports(dst: &mut Vec<u16>, src: &[u16])
    ensures
        final(dst)@ == merge_seq(old(dst)@, src@),
{
    let ghost base = dst@;
    let mut i: usize = 0;
    assert(src@.take(0) =~= Seq::<u16>::empty());
    while i < src.len()
        invariant
            i <= src@.len(),
            dst@ == merge_seq(base, src@.take(i as int)),
        decreases src@.len() - i,
    {
        let p = src[i];
        assert(src@.take(i + 1).drop_last() =~= src@.take(i as int));
        assert(src@.take(i + 1).last() == p);
        if !contains_port(dst, p) {
            dst.push(p);
        }
        i = i + 1;
    }
    assert(src@.take(src@.len() as int) =~= src@);
}

/// Whether `v` holds `p`.
pub fn contains_port(v: &Vec<u16>, p: u16) -> (r: bool)
    ensures
        r == v@.contains(p),
{
    let mut i: usize = 0;
    while i < v.len()
        invariant
            i <= v@.len(),
            forall|j: int| 0 <= j < i ==> v@[j] != p,
        decreases v@.len() - i,
    {
        if v[i] == p {
            return true;
        }
        i = i + 1;
    }
    false
}

} // verus!
