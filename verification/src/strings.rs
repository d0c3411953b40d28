use vstd::prelude::*;
use vstd::string::*;

verus! {

/// The views of a sequence of owned strings.
pub open spec fn views(v: Seq<String>) -> Seq<Seq<char>> {
    v.map_values(|s: String| s@)
}

/// The views of a sequence of string slices.
pub open spec fn str_views(v: Seq<&str>) -> Seq<Seq<char>> {
    v.map_values(|s: &str| s@)
}

/// The view of an optional owned string.
pub open spec fn opt_view(o: Option<String>) -> Option<Seq<char>> {
    match o {
        Some(s) => Some(s@),
        None => None,
    }
}

/// `parts` glued together with `sep` between consecutive parts.
pub open spec fn join_spec(parts: Seq<Seq<char>>, sep: Seq<char>) -> Seq<char>
    decreases parts.len(),
{
    if parts.len() == 0 {
        Seq::empty()
    } else if parts.len() == 1 {
        parts[0]
    } else {
        join_spec(parts.drop_last(), sep) + sep + parts.last()
    }
}

/// The pieces of `s` between occurrences of `sep`; there is always at least one piece.
pub open spec fn split_spec(s: Seq<char>, sep: char) -> Seq<Seq<char>>
    decreases s.len(),
{
    if s.len() == 0 {
        seq![Seq::empty()]
    } else {
        let before = split_spec(s.drop_last(), sep);
        if s.last() == sep {
            before.push(Seq::empty())
        } else {
            before.update(before.len() - 1, before.last().push(s.last()))
        }
    }
}

pub proof fn lemma_split_nonempty(s: Seq<char>, sep: char)
    ensures
        split_spec(s, sep).len() >= 1,
    decreases s.len(),
{
    if s.len() > 0 {
        lemma_split_nonempty(s.drop_last(), sep);
    }
}

/// The character at position `i` of `s`.
pub fn char_at(s: &str, i: usize) -> (c: char)
    requires
        i < s@.len(),
    ensures
        c == s@[i as int],
{
    s.get_char(i)
}

/// The number of characters of `s`.
pub fn char_len(s: &str) -> (n: usize)
    ensures
        n == s@.len(),
{
    s.unicode_len()
}

/// An owned copy of `s`.
pub fn owned(s: &str) -> (r: String)
    ensures
        r@ == s@,
{
    String::from_str(s)
}

/// The characters of `s` from position `from` up to, not including, `to`.
pub fn substring(s: &str, from: usize, to: usize) -> (r: String)
    requires
        from <= to <= s@.len(),
    ensures
        r@ == s@.subrange(from as int, to as int),
{
    String::from_str(s.substring_char(from, to))
}

/// Whether `prefix` is a prefix of `s`, compared character by character.
pub fn starts_with(s: &str, prefix: &str) -> (b: bool)
    ensures
        b == prefix@.is_prefix_of(s@),
{
    let n = s.unicode_len();
    let m = prefix.unicode_len();
    if m > n {
        return false;
    }
    let mut i: usize = 0;
    while i < m
        invariant
            n == s@.len(),
            m == prefix@.len(),
            m <= n,
            i <= m,
            forall|j: int| 0 <= j < i ==> prefix@[j] == s@[j],
        decreases m - i,
    {
        if s.get_char(i) != prefix.get_char(i) {
            return false;
        }
        i = i + 1;
    }
    assert(prefix@ =~= s@.subrange(0, m as int));
    true
}

/// Whether `a` and `b` hold the same characters.
pub fn str_eq(a: &str, b: &str) -> (r: bool)
    ensures
        r == (a@ == b@),
{
    if a.unicode_len() != b.unicode_len() {
        return false;
    }
    let p = starts_with(a, b);
    if p {
        assert(a@ =~= b@);
    }
    p
}

/// Whether `v` holds a string equal to `s`.
pub fn contains_str(v: &Vec<String>, s: &str) -> (r: bool)
    ensures
        r == views(v@).contains(s@),
{
    let mut i: usize = 0;
    while i < v.len()
        invariant
            i <= v@.len(),
            forall|j: int| 0 <= j < i ==> v@[j]@ != s@,
        decreases v@.len() - i,
    {
        if str_eq(v[i].as_str(), s) {
            assert(views(v@)[i as int] == s@);
            return true;
        }
        i = i + 1;
    }
    assert forall|j: int| 0 <= j < views(v@).len() implies views(v@)[j] != s@ by {
        assert(views(v@)[j] == v@[j]@);
    }
    false
}

/// The strings of `parts` glued together with `sep` between consecutive parts.
pub fn join(parts: &[String], sep: &str) -> (r: String)
    ensures
        r@ == join_spec(views(parts@), sep@),
{
    let mut r = String::new();
    let ghost all = views(parts@);
    let mut i: usize = 0;
    while i < parts.len()
        invariant
            i <= parts@.len(),
            all == views(parts@),
            r@ == join_spec(all.take(i as int), sep@),
        decreases parts@.len() - i,
    {
        assert(all.take(i + 1).drop_last() =~= all.take(i as int));
        assert(all.take(i + 1).last() == parts@[i as int]@);
        if i != 0 {
            r.append(sep);
        } else {
            assert(r@ =~= Seq::<char>::empty());
        }
        r.append(parts[i].as_str());
        proof {
            if i == 0 {
                assert(r@ =~= parts@[0]@);
            }
        }
        i = i + 1;
    }
    assert(all.take(parts@.len() as int) =~= all);
    r
}

/// The strings of `parts` from position `start` on, glued together with `sep`.
pub fn join_from(parts: &[String], start: usize, sep: &str) -> (r: String)
    requires
        start <= parts@.len(),
    ensures
        r@ == join_spec(views(parts@).skip(start as int), sep@),
{
    let mut r = String::new();
    let ghost all = views(parts@).skip(start as int);
    let mut i: usize = start;
    assert(all.take(0) =~= Seq::<Seq<char>>::empty());
    while i < parts.len()
        invariant
            start <= i <= parts@.len(),
            all == views(parts@).skip(start as int),
            r@ == join_spec(all.take(i - start), sep@),
        decreases parts@.len() - i,
    {
        assert(all.take(i - start + 1).drop_last() =~= all.take(i - start));
        assert(all.take(i - start + 1).last() == parts@[i as int]@);
        if i != start {
            r.append(sep);
        } else {
            assert(r@ =~= Seq::<char>::empty());
        }
        r.append(parts[i].as_str());
        proof {
            if i == start {
                assert(all.take(1) =~= seq![parts@[i as int]@]);
                assert(r@ =~= parts@[i as int]@);
            }
        }
        i = i + 1;
    }
    assert(all.take(parts@.len() - start) =~= all);
    r
}

/// The pieces of `s` between occurrences of `sep`, as `str::split` gives them.
pub fn split(s: &str, sep: char) -> (r: Vec<String>)
    ensures
        views(r@) == split_spec(s@, sep),
{
    let n = s.unicode_len();
    let mut r: Vec<String> = Vec::new();
    let mut start: usize = 0;
    let mut i: usize = 0;
    assert(s@.take(0) =~= Seq::<char>::empty());
    assert(s@.subrange(0, 0) =~= Seq::<char>::empty());
    assert(views(r@) =~= Seq::<Seq<char>>::empty());
    while i < n
        invariant
            n == s@.len(),
            start <= i <= n,
            split_spec(s@.take(i as int), sep) =~= views(r@).push(s@.subrange(start as int, i as int)),
        decreases n - i,
    {
        let c = s.get_char(i);
        let ghost prev = views(r@);
        let ghost cur = s@.subrange(start as int, i as int);
        let ghost before = split_spec(s@.take(i as int), sep);
        assert(s@.take(i + 1).drop_last() =~= s@.take(i as int));
        assert(s@.take(i + 1).last() == c);
        assert(before == prev.push(cur));
        if c == sep {
            let piece = substring(s, start, i);
            r.push(piece);
            start = i + 1;
            assert(views(r@) =~= prev.push(piece@));
            assert(s@.subrange(i + 1, i + 1) =~= Seq::<char>::empty());
            assert(split_spec(s@.take(i + 1), sep) == before.push(Seq::empty()));
        } else {
            assert(s@.subrange(start as int, i + 1) =~= cur.push(c));
            assert(split_spec(s@.take(i + 1), sep) == before.update(before.len() - 1, cur.push(c)));
            assert(before.update(before.len() - 1, cur.push(c)) =~= prev.push(cur.push(c)));
        }
        i = i + 1;
    }
    assert(s@.take(n as int) =~= s@);
    let ghost prev = views(r@);
    let last = substring(s, start, n);
    r.push(last);
    assert(views(r@) =~= prev.push(last@));
    r
}

/// Unicode `White_Space`, the characters `char::is_whitespace` accepts.
pub open spec fn is_white_space(c: char) -> bool {
    ||| '\u{9}' <= c <= '\u{d}'
    ||| c == ' '
    ||| c == '\u{85}'
    ||| c == '\u{a0}'
    ||| c == '\u{1680}'
    ||| '\u{2000}' <= c <= '\u{200a}'
    ||| c == '\u{2028}'
    ||| c == '\u{2029}'
    ||| c == '\u{202f}'
    ||| c == '\u{205f}'
    ||| c == '\u{3000}'
}

pub open spec fn trim_start_spec(s: Seq<char>) -> Seq<char>
    decreases s.len(),
{
    if s.len() > 0 && is_white_space(s[0]) {
        trim_start_spec(s.drop_first())
    } else {
        s
    }
}

pub open spec fn trim_end_spec(s: Seq<char>) -> Seq<char>
    decreases s.len(),
{
    if s.len() > 0 && is_white_space(s.last()) {
        trim_end_spec(s.drop_last())
    } else {
        s
    }
}

/// `s` without leading and trailing white space.
pub open spec fn trim_spec(s: Seq<char>) -> Seq<char> {
    trim_end_spec(trim_start_spec(s))
}

/// Whether `c` is white space.
pub fn white_space(c: char) -> (b: bool)
    ensures
        b == is_white_space(c),
{
    ('\u{9}' <= c && c <= '\u{d}') || c == ' ' || c == '\u{85}' || c == '\u{a0}' || c == '\u{1680}'
        || ('\u{2000}' <= c && c <= '\u{200a}') || c == '\u{2028}' || c == '\u{2029}'
        || c == '\u{202f}' || c == '\u{205f}' || c == '\u{3000}'
}

/// `s` without leading and trailing white space.
pub fn trim(s: &str) -> (r: String)
    ensures
        r@ == trim_spec(s@),
{
    let n = char_len(s);
    let mut a: usize = 0;
    assert(s@.skip(0) =~= s@);
    while a < n && white_space(char_at(s, a))
        invariant
            n == s@.len(),
            a <= n,
            trim_start_spec(s@) == trim_start_spec(s@.skip(a as int)),
        decreases n - a,
    {
        assert(s@.skip(a as int).drop_first() =~= s@.skip(a + 1));
        a = a + 1;
    }
    let ghost t = s@.skip(a as int);
    assert(trim_start_spec(s@) == t);
    let mut b: usize = n;
    assert(t =~= s@.subrange(a as int, n as int));
    while b > a && white_space(char_at(s, b - 1))
        invariant
            n == s@.len(),
            a <= b <= n,
            trim_end_spec(t) == trim_end_spec(s@.subrange(a as int, b as int)),
        decreases b - a,
    {
        assert(s@.subrange(a as int, b as int).drop_last() =~= s@.subrange(a as int, b - 1));
        b = b - 1;
    }
    substring(s, a, b)
}

pub open spec fn is_digit(c: char) -> bool {
    '0' <= c <= '9'
}

/// The number a sequence of decimal digits denotes.
pub open spec fn digits_value(s: Seq<char>) -> int
    decreases s.len(),
{
    if s.len() == 0 {
        0
    } else {
        digits_value(s.drop_last()) * 10 + (s.last() as int - '0' as int)
    }
}

/// What `str::parse::<u16>` accepts: an optional `+`, then one or more decimal
/// digits denoting at most 65535.
pub open spec fn parse_u16_spec(s: Seq<char>) -> Option<u16> {
    let d = unsigned_digits(s);
    if d.len() > 0 && all_digits(d) && digits_value(d) <= 65535 {
        Some(digits_value(d) as u16)
    } else {
        None
    }
}

/// `s` without one leading `+`.
pub open spec fn unsigned_digits(s: Seq<char>) -> Seq<char> {
    if s.len() > 0 && s[0] == '+' {
        s.drop_first()
    } else {
        s
    }
}

pub open spec fn all_digits(d: Seq<char>) -> bool {
    forall|i: int| 0 <= i < d.len() ==> is_digit(#[trigger] d[i])
}

proof fn lemma_digits_monotone(s: Seq<char>, i: int)
    requires
        0 <= i <= s.len(),
        forall|k: int| 0 <= k < s.len() ==> is_digit(#[trigger] s[k]),
    ensures
        digits_value(s) >= digits_value(s.take(i)) >= 0,
    decreases s.len(),
{
    if s.len() > 0 {
        let p = s.drop_last();
        if i == s.len() {
            assert(s.take(i) =~= s);
            lemma_digits_monotone(p, 0);
        } else {
            assert(p.take(i) =~= s.take(i));
            lemma_digits_monotone(p, i);
        }
    } else {
        assert(s.take(i) =~= s);
    }
}

/// `s` read as a `u16` the way `str::parse::<u16>` reads it.
pub fn parse_u16(s: &str) -> (r: Option<u16>)
    ensures
        r == parse_u16_spec(s@),
{
    let n = char_len(s);
    let start: usize = if n > 0 && char_at(s, 0) == '+' { 1 } else { 0 };
    let ghost d = unsigned_digits(s@);
    assert(d =~= s@.skip(start as int));
    if start >= n {
        return None;
    }
    let mut i: usize = start;
    while i < n
        invariant
            n == s@.len(),
            start <= i <= n,
            d == s@.skip(start as int),
            d == unsigned_digits(s@),
            forall|k: int| start <= k < i ==> is_digit(#[trigger] s@[k]),
        decreases n - i,
    {
        if !('0' <= char_at(s, i) && char_at(s, i) <= '9') {
            assert(!is_digit(d[i - start]));
            assert(parse_u16_spec(s@) is None);
            return None;
        }
        i = i + 1;
    }
    assert forall|k: int| 0 <= k < d.len() implies is_digit(#[trigger] d[k]) by {
        assert(d[k] == s@[k + start]);
    }
    let mut acc: u32 = 0;
    let mut j: usize = start;
    assert(d.take(0) =~= Seq::<char>::empty());
    while j < n
        invariant
            n == s@.len(),
            start <= j <= n,
            d == s@.skip(start as int),
            d == unsigned_digits(s@),
            forall|k: int| 0 <= k < d.len() ==> is_digit(#[trigger] d[k]),
            acc as int == digits_value(d.take(j - start)),
            acc <= 65535,
        decreases n - j,
    {
        let c = char_at(s, j);
        assert(d[j - start] == c);
        assert(d.take(j - start + 1).drop_last() =~= d.take(j - start));
        let digit = (c as u32) - ('0' as u32);
        let next = acc * 10 + digit;
        assert(next as int == digits_value(d.take(j - start + 1)));
        if next > 65535 {
            proof {
                lemma_digits_monotone(d, j - start + 1);
            }
            assert(digits_value(d) > 65535);
            assert(parse_u16_spec(s@) is None);
            return None;
        }
        acc = next;
        j = j + 1;
    }
    assert(d.take(n - start) =~= d);
    Some(acc as u16)
}

} // verus!
