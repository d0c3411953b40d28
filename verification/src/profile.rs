use vstd::prelude::*;
use crate::config::{Config, ProfileDef};
use crate::merge::merge_seq;
use crate::strings::{owned, str_eq, views};

verus! {

/// The lowercase form of a string (Unicode `Lowercase` mapping).
pub uninterp spec fn lowercase_spec(s: Seq<char>) -> Seq<char>;

pub open spec fn is_ascii_seq(s: Seq<char>) -> bool {
    forall|i: int| 0 <= i < s.len() ==> (#[trigger] s[i]) <= '\u{7f}'
}

/// ASCII lowercasing: `A`..`Z` become `a`..`z`, everything else stays.
pub open spec fn ascii_lower(s: Seq<char>) -> Seq<char> {
    s.map_values(|c: char| if 'A' <= c <= 'Z' { ((c as u32) + 32) as char } else { c })
}

/// `str::to_lowercase`.
#[verifier::external_body]
fn to_lowercase(s: &str) -> (r: String)
    ensures
        r@ == lowercase_spec(s@),
        is_ascii_seq(s@) ==> r@ == ascii_lower(s@),
{
    s.to_lowercase()
}

/// `miniz_oxide::inflate::decompress_to_vec_zlib`: the bytes a zlib stream holds,
/// `None` if it is not a valid stream.
pub uninterp spec fn zlib_inflate(data: Seq<u8>) -> Option<Seq<u8>>;

/// Decompress a zlib stream.
#[verifier::external_body]
fn inflate_zlib(data: &[u8]) -> (r: Option<Vec<u8>>)
    ensures
        match r {
            Some(v) => zlib_inflate(data@) == Some(v@),
            None => zlib_inflate(data@) is None,
        },
{
    miniz_oxide::inflate::decompress_to_vec_zlib(data).ok()
}

/// The built-in profiles: a zlib-compressed JSON array (empty in this build).
pub open spec fn profiles_blob_spec() -> Seq<u8> {
    seq![120u8, 156, 139, 142, 5, 0, 1, 21, 0, 185]
}

/// The JSON text of the built-in profiles, `None` if the blob does not inflate.
pub fn profiles_json() -> (r: Option<Vec<u8>>)
    ensures
        match r {
            Some(v) => zlib_inflate(profiles_blob_spec()) == Some(v@),
            None => zlib_inflate(profiles_blob_spec()) is None,
        },
{
    let blob: Vec<u8> = vec![120u8, 156, 139, 142, 5, 0, 1, 21, 0, 185];
    assert(blob@ =~= profiles_blob_spec());
    inflate_zlib(blob.as_slice())
}

/// The base profile carries the name `_base`.
pub open spec fn is_base(p: ProfileDef) -> bool {
    views(p.names@).contains("_base"@)
}

/// A profile answers to `lower` when one of its names lowercases to it.
pub open spec fn answers_to(p: ProfileDef, lower: Seq<char>) -> bool {
    exists|k: int| 0 <= k < p.names@.len() && lowercase_spec(#[trigger] p.names@[k]@) == lower
}

/// `j` is the first profile answering to `lower`.
pub open spec fn first_answering(profiles: Seq<ProfileDef>, lower: Seq<char>, j: int) -> bool {
    &&& 0 <= j < profiles.len()
    &&& answers_to(profiles[j], lower)
    &&& forall|k: int| 0 <= k < j ==> !answers_to(#[trigger] profiles[k], lower)
}

/// `j` is the first base profile.
pub open spec fn first_base(profiles: Seq<ProfileDef>, j: int) -> bool {
    &&& 0 <= j < profiles.len()
    &&& is_base(profiles[j])
    &&& forall|k: int| 0 <= k < j ==> !is_base(#[trigger] profiles[k])
}

/// `c` holds the same paths as `d`.
pub open spec fn same_paths(c: Config, d: Config) -> bool {
    views(c.allow_read@) == views(d.allow_read@) && views(c.allow_write@) == views(d.allow_write@)
}

/// `c` holds `base` with `overlay` merged on top.
pub open spec fn merged_paths(c: Config, base: Config, overlay: Config) -> bool {
    &&& views(c.allow_read@) == merge_seq(views(base.allow_read@), views(overlay.allow_read@))
    &&& views(c.allow_write@) == merge_seq(views(base.allow_write@), views(overlay.allow_write@))
}

/// Index of the first profile with a name that lowercases to `lower`.
fn find_answering(profiles: &[ProfileDef], lower: &str) -> (r: Option<usize>)
    ensures
        match r {
            Some(j) => first_answering(profiles@, lower@, j as int),
            None => forall|k: int| 0 <= k < profiles@.len() ==> !answers_to(#[trigger] profiles@[k], lower@),
        },
{
    let mut i: usize = 0;
    while i < profiles.len()
        invariant
            i <= profiles@.len(),
            forall|k: int| 0 <= k < i ==> !answers_to(#[trigger] profiles@[k], lower@),
        decreases profiles@.len() - i,
    {
        let names = &profiles[i].names;
        let mut k: usize = 0;
        while k < names.len()
            invariant
                i < profiles@.len(),
                forall|q: int| 0 <= q < i ==> !answers_to(#[trigger] profiles@[q], lower@),
                k <= names@.len(),
                names == profiles@[i as int].names,
                forall|m: int| 0 <= m < k ==> lowercase_spec(#[trigger] names@[m]@) != lower@,
            decreases names@.len() - k,
        {
            let l = to_lowercase(names[k].as_str());
            if str_eq(l.as_str(), lower) {
                assert(lowercase_spec(profiles@[i as int].names@[k as int]@) == lower@);
                return Some(i);
            }
            k = k + 1;
        }
        i = i + 1;
    }
    None
}

/// Index of the first base profile.
fn find_base(profiles: &[ProfileDef]) -> (r: Option<usize>)
    ensures
        match r {
            Some(j) => first_base(profiles@, j as int),
            None => forall|k: int| 0 <= k < profiles@.len() ==> !is_base(#[trigger] profiles@[k]),
        },
{
    let mut i: usize = 0;
    while i < profiles.len()
        invariant
            i <= profiles@.len(),
            forall|k: int| 0 <= k < i ==> !is_base(#[trigger] profiles@[k]),
        decreases profiles@.len() - i,
    {
        if crate::strings::contains_str(&profiles[i].names, "_base") {
            return Some(i);
        }
        i = i + 1;
    }
    None
}

/// Find a built-in profile by command name, ignoring case. A toolchain profile
/// is returned as it is; an agent profile is merged on top of the base profile.
pub fn find(profiles: &[ProfileDef], name: &str) -> (r: Option<Config>)
    ensures
        match r {
            None => forall|k: int| 0 <= k < profiles@.len() ==> !answers_to(#[trigger] profiles@[k], lowercase_spec(name@)),
            Some(c) => exists|j: int| #![trigger profiles@[j]] first_answering(profiles@, lowercase_spec(name@), j) && {
                let m = profiles@[j];
                if m.toolchain {
                    same_paths(c, m.config)
                } else if exists|b: int| first_base(profiles@, b) {
                    exists|b: int| first_base(profiles@, b) && merged_paths(c, profiles@[b].config, m.config)
                } else {
                    same_paths(c, m.config)
                }
            },
        },
{
    let name_lower = to_lowercase(name);
    let base = find_base(profiles);
    let j = match find_answering(profiles, name_lower.as_str()) {
        Some(j) => j,
        None => return None,
    };
    let matched = &profiles[j];
    if matched.toolchain {
        Some(matched.config.copy())
    } else {
        match base {
            Some(b) => Some(profiles[b].config.merge(&matched.config)),
            None => {
                Some(matched.config.copy())
            },
        }
    }
}

/// One line of the profile listing: name, kind and aliases.
pub struct ProfileRow {
    pub name: String,
    pub kind: String,
    pub aliases: String,
}

/// A profile is listed unless its main name is `_base`.
pub open spec fn listed(p: ProfileDef) -> bool {
    !(p.names@.len() > 0 && p.names@[0]@ == "_base"@)
}

pub open spec fn listed_pred() -> spec_fn(ProfileDef) -> bool {
    |p: ProfileDef| listed(p)
}

/// The listing line of a profile: its main name (`?` if it has none), `toolchain`
/// or `agent`, and its other names separated by `, `.
pub open spec fn row_of(p: ProfileDef) -> (Seq<char>, Seq<char>, Seq<char>) {
    (
        if p.names@.len() > 0 { p.names@[0]@ } else { "?"@ },
        if p.toolchain { "toolchain"@ } else { "agent"@ },
        if p.names@.len() > 1 { crate::strings::join_spec(views(p.names@).skip(1), ", "@) } else { Seq::empty() },
    )
}

pub open spec fn row_views(rows: Seq<ProfileRow>) -> Seq<(Seq<char>, Seq<char>, Seq<char>)> {
    rows.map_values(|r: ProfileRow| (r.name@, r.kind@, r.aliases@))
}

/// The listing of the built-in profiles, the base profile left out.
pub fn profile_rows(profiles: &[ProfileDef]) -> (rows: Vec<ProfileRow>)
    ensures
        row_views(rows@) == profiles@.filter(listed_pred()).map_values(|p: ProfileDef| row_of(p)),
{
    let mut rows: Vec<ProfileRow> = Vec::new();
    let ghost all = profiles@;
    let mut i: usize = 0;
    assert(all.take(0).filter(listed_pred()) =~= Seq::<ProfileDef>::empty()) by {
        reveal(Seq::filter);
    }
    assert(row_views(rows@) =~= all.take(0).filter(listed_pred()).map_values(|p: ProfileDef| row_of(p)));
    while i < profiles.len()
        invariant
            i <= profiles@.len(),
            all == profiles@,
            row_views(rows@) == all.take(i as int).filter(listed_pred()).map_values(|p: ProfileDef| row_of(p)),
        decreases profiles@.len() - i,
    {
        let p = &profiles[i];
        assert(all.take(i + 1) =~= all.take(i as int).push(*p));
        proof {
            all.take(i as int).lemma_filter_push(*p, listed_pred());
        }
        let n = p.names.len();
        let is_base = n > 0 && str_eq(p.names[0].as_str(), "_base");
        if !is_base {
            let name = if n > 0 { owned(p.names[0].as_str()) } else { owned("?") };
            let kind = if p.toolchain { owned("toolchain") } else { owned("agent") };
            let aliases = if n > 1 { crate::strings::join_from(p.names.as_slice(), 1, ", ") } else { String::new() };
            let ghost prev = row_views(rows@);
            rows.push(ProfileRow { name, kind, aliases });
            assert(row_views(rows@) =~= prev.push(row_of(*p)));
        }
        i = i + 1;
    }
    assert(all.take(profiles@.len() as int) =~= all);
    rows
}

} // verus!
