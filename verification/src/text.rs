//! String utilities over the character view of `str`.
//!
//! Every function here is specified over `Seq<char>`, the view of a string,
//! so that the loaders can state what they compute without reference to the
//! byte encoding.

use vstd::prelude::*;
use vstd::string::*;

verus! {

/// `p` is a prefix of `s`.
pub open spec fn has_prefix(s: Seq<char>, p: Seq<char>) -> bool {
    p.len() <= s.len() && s.subrange(0, p.len() as int) == p
}

/// `p` is a suffix of `s`.
pub open spec fn has_suffix(s: Seq<char>, p: Seq<char>) -> bool {
    p.len() <= s.len() && s.subrange(s.len() - p.len(), s.len() as int) == p
}

/// `p` occurs in `s` starting at index `i`.
pub open spec fn occurs_at(s: Seq<char>, p: Seq<char>, i: int) -> bool {
    0 <= i && i + p.len() <= s.len() && s.subrange(i, i + p.len()) == p
}

/// `p` occurs somewhere in `s`.
pub open spec fn contains_str(s: Seq<char>, p: Seq<char>) -> bool {
    exists|i: int| occurs_at(s, p, i)
}

/// `s` without the prefix `p`, or `s` itself where it has no such prefix.
pub open spec fn without_prefix(s: Seq<char>, p: Seq<char>) -> Seq<char> {
    if has_prefix(s, p) {
        s.skip(p.len() as int)
    } else {
        s
    }
}

/// `s` without the suffix `p`, or `s` itself where it has no such suffix.
pub open spec fn without_suffix(s: Seq<char>, p: Seq<char>) -> Seq<char> {
    if has_suffix(s, p) {
        s.take(s.len() - p.len())
    } else {
        s
    }
}

/// The index of the first `c` in `s`, or `s.len()` where there is none.
pub open spec fn index_of(s: Seq<char>, c: char) -> int
    decreases s.len(),
{
    if s.len() == 0 {
        0
    } else if s[0] == c {
        0
    } else {
        1 + index_of(s.drop_first(), c)
    }
}

/// The pieces of `s` between occurrences of `c`. There is always at least
/// one piece; `n` separators give `n + 1` pieces, some of them possibly empty.
pub open spec fn split_on(s: Seq<char>, c: char) -> Seq<Seq<char>>
    decreases s.len(),
{
    let i = index_of(s, c);
    if 0 <= i < s.len() {
        seq![s.take(i)] + split_on(s.skip(i + 1), c)
    } else {
        seq![s]
    }
}

/// The pieces joined with `sep` between neighbours.
pub open spec fn join_with(parts: Seq<Seq<char>>, sep: Seq<char>) -> Seq<char>
    decreases parts.len(),
{
    if parts.len() == 0 {
        Seq::empty()
    } else if parts.len() == 1 {
        parts[0]
    } else {
        join_with(parts.drop_last(), sep) + sep + parts.last()
    }
}

/// The views of a sequence of strings.
pub open spec fn views(v: Seq<String>) -> Seq<Seq<char>> {
    Seq::new(v.len(), |i: int| v[i]@)
}

pub proof fn lemma_index_of_bounds(s: Seq<char>, c: char)
    ensures
        0 <= index_of(s, c) <= s.len(),
        index_of(s, c) < s.len() ==> s[index_of(s, c)] == c,
        forall|k: int| 0 <= k < index_of(s, c) ==> s[k] != c,
    decreases s.len(),
{
    if s.len() > 0 && s[0] != c {
        let t = s.drop_first();
        lemma_index_of_bounds(t, c);
        assert forall|k: int| 0 <= k < index_of(s, c) implies s[k] != c by {
            if k > 0 {
                assert(s[k] == t[k - 1]);
            }
        }
    }
}

/// The first index of `c` is the only `n` with `c` absent before `n` and
/// present at `n` (or `n` at the end).
pub proof fn lemma_index_of_is(s: Seq<char>, c: char, n: int)
    requires
        0 <= n <= s.len(),
        forall|k: int| 0 <= k < n ==> s[k] != c,
        n < s.len() ==> s[n] == c,
    ensures
        index_of(s, c) == n,
{
    lemma_index_of_bounds(s, c);
    let i = index_of(s, c);
    if i < n {
        assert(s[i] == c);
    } else if i > n {
        assert(s[n] == c);
    }
}

/// The characters of a string, as a vector.
pub fn chars_of(s: &str) -> (r: Vec<char>)
    ensures
        r@ == s@,
{
    let mut out: Vec<char> = Vec::new();
    for c in it: s.chars()
        invariant
            out@ == it.seq().take(it.index()),
            it.seq() == s@,
    {
        out.push(c);
    }
    out
}

/// Whether two strings hold the same characters.
pub fn str_eq(a: &str, b: &str) -> (r: bool)
    ensures
        r == (a@ == b@),
{
    let x = a.as_bytes();
    let y = b.as_bytes();
    proof {
        vstd::utf8::encode_utf8_decode_utf8(a@);
        vstd::utf8::encode_utf8_decode_utf8(b@);
    }
    assert(a@ == b@ ==> x@ == y@);
    if x.len() != y.len() {
        return false;
    }
    let mut i: usize = 0;
    while i < x.len()
        invariant
            i <= x.len(),
            x.len() == y.len(),
            a@ == b@ ==> x@ == y@,
            forall|k: int| 0 <= k < i ==> x@[k] == y@[k],
        decreases x.len() - i,
    {
        if x[i] != y[i] {
            return false;
        }
        i += 1;
    }
    assert(x@ =~= y@);
    true
}

/// Whether the characters `p` occur in `s` at position `i`.
pub fn matches_at(s: &Vec<char>, p: &Vec<char>, i: usize) -> (r: bool)
    ensures
        r == occurs_at(s@, p@, i as int),
{
    if p.len() > s.len() || i > s.len() - p.len() {
        return false;
    }
    let mut k: usize = 0;
    while k < p.len()
        invariant
            i + p.len() <= s.len(),
            k <= p.len(),
            forall|j: int| 0 <= j < k ==> s@[i + j] == p@[j],
        decreases p.len() - k,
    {
        if s[i + k] != p[k] {
            assert(s@.subrange(i as int, i + p.len())[k as int] != p@[k as int]);
            return false;
        }
        k += 1;
    }
    assert(s@.subrange(i as int, i + p.len()) =~= p@);
    true
}

/// Whether `s` starts with `p`.
pub fn starts_with(s: &str, p: &str) -> (r: bool)
    ensures
        r == has_prefix(s@, p@),
{
    let sc = chars_of(s);
    let pc = chars_of(p);
    matches_at(&sc, &pc, 0)
}

/// Whether `s` ends with `p`.
pub fn ends_with(s: &str, p: &str) -> (r: bool)
    ensures
        r == has_suffix(s@, p@),
{
    let sc = chars_of(s);
    let pc = chars_of(p);
    if pc.len() > sc.len() {
        return false;
    }
    matches_at(&sc, &pc, sc.len() - pc.len())
}

/// The first position at or after `from` where `p` occurs in `s`.
pub fn find_from(s: &Vec<char>, p: &Vec<char>, from: usize) -> (r: Option<usize>)
    ensures
        match r {
            Some(i) => from <= i && occurs_at(s@, p@, i as int) && forall|k: int|
                from <= k < i ==> !occurs_at(s@, p@, k),
            None => forall|k: int| from <= k ==> !occurs_at(s@, p@, k),
        },
{
    if p.len() > s.len() {
        return None;
    }
    let last = s.len() - p.len();
    let mut i: usize = from;
    while i <= last
        invariant
            from <= i,
            last == s.len() - p.len(),
            forall|k: int| from <= k < i ==> !occurs_at(s@, p@, k),
        decreases last + 1 - i,
    {
        if matches_at(s, p, i) {
            return Some(i);
        }
        if i == last {
            return None;
        }
        i += 1;
    }
    None
}

/// Whether `p` occurs in `s`.
pub fn contains(s: &str, p: &str) -> (r: bool)
    ensures
        r == contains_str(s@, p@),
{
    let sc = chars_of(s);
    let pc = chars_of(p);
    find_from(&sc, &pc, 0).is_some()
}

/// The characters of `s` from `from` up to `to`, as a new string.
pub fn substring(s: &str, from: usize, to: usize) -> (r: String)
    requires
        from <= to <= s@.len(),
    ensures
        r@ == s@.subrange(from as int, to as int),
{
    s.substring_char(from, to).to_owned()
}

/// `s` without the prefix `p`, where it has that prefix.
pub fn strip_prefix<'a>(s: &'a str, p: &str) -> (r: Option<&'a str>)
    ensures
        r is Some == has_prefix(s@, p@),
        r matches Some(t) ==> t@ == s@.skip(p@.len() as int),
{
    let sc = chars_of(s);
    let pc = chars_of(p);
    if matches_at(&sc, &pc, 0) {
        Some(s.substring_char(pc.len(), sc.len()))
    } else {
        None
    }
}

/// `s` without the suffix `p`, where it has that suffix.
pub fn strip_suffix<'a>(s: &'a str, p: &str) -> (r: Option<&'a str>)
    ensures
        r is Some == has_suffix(s@, p@),
        r matches Some(t) ==> t@ == s@.take(s@.len() - p@.len()),
{
    let sc = chars_of(s);
    let pc = chars_of(p);
    if pc.len() <= sc.len() && matches_at(&sc, &pc, sc.len() - pc.len()) {
        Some(s.substring_char(0, sc.len() - pc.len()))
    } else {
        None
    }
}

/// Splits `s` at every occurrence of `c`.
pub fn split(s: &str, c: char) -> (r: Vec<String>)
    ensures
        views(r@) == split_on(s@, c),
        r@.len() >= 1,
{
    let sc = chars_of(s);
    let mut parts: Vec<String> = Vec::new();
    let mut start: usize = 0;
    let mut j: usize = 0;
    assert(s@.skip(0) =~= s@);
    while j < sc.len()
        invariant
            sc@ == s@,
            start <= j <= sc.len(),
            split_on(s@, c) == views(parts@) + split_on(s@.skip(start as int), c),
            forall|k: int| start <= k < j ==> s@[k] != c,
        decreases sc.len() - j,
    {
        if sc[j] == c {
            let piece = substring(s, start, j);
            proof {
                let t = s@.skip(start as int);
                lemma_index_of_is(t, c, j - start);
                assert(t.take(j - start) =~= s@.subrange(start as int, j as int));
                assert(t.skip(j - start + 1) =~= s@.skip(j + 1));
                assert(views(parts@.push(piece)) =~= views(parts@) + seq![piece@]);
            }
            parts.push(piece);
            start = j + 1;
        }
        j += 1;
    }
    let piece = substring(s, start, sc.len());
    proof {
        let t = s@.skip(start as int);
        lemma_index_of_is(t, c, t.len() as int);
        assert(t =~= s@.subrange(start as int, sc.len() as int));
        assert(views(parts@.push(piece)) =~= views(parts@) + seq![piece@]);
    }
    parts.push(piece);
    parts
}

/// Joins the pieces `parts[from..]` with `sep` between neighbours.
pub fn join_from(parts: &Vec<String>, from: usize, sep: &str) -> (r: String)
    requires
        from <= parts.len(),
    ensures
        r@ == join_with(views(parts@).skip(from as int), sep@),
{
    let mut out = String::new();
    let mut i: usize = from;
    let ghost all = views(parts@).skip(from as int);
    while i < parts.len()
        invariant
            from <= i <= parts.len(),
            all == views(parts@).skip(from as int),
            out@ == join_with(all.take(i - from), sep@),
        decreases parts.len() - i,
    {
        proof {
            assert(all.take(i - from + 1).drop_last() =~= all.take(i - from));
            assert(all.take(i - from + 1).last() == parts@[i as int]@);
        }
        if i > from {
            out.append(sep);
        }
        out.append(parts[i].as_str());
        i += 1;
    }
    assert(all.take(parts.len() - from) =~= all);
    out
}

/// The two strings one after the other.
pub fn concat2(a: &str, b: &str) -> (r: String)
    ensures
        r@ == a@ + b@,
{
    let mut out = String::new();
    out.append(a);
    out.append(b);
    assert(out@ =~= a@ + b@);
    out
}

/// Three strings one after the other.
pub fn concat3(a: &str, b: &str, c: &str) -> (r: String)
    ensures
        r@ == a@ + b@ + c@,
{
    let mut out = String::new();
    out.append(a);
    out.append(b);
    out.append(c);
    assert(out@ =~= a@ + b@ + c@);
    out
}

/// `s` with every occurrence of `p` taken out, leftmost first.
pub open spec fn without_all(s: Seq<char>, p: Seq<char>) -> Seq<char>
    decreases s.len(),
{
    if p.len() == 0 || s.len() < p.len() {
        s
    } else if has_prefix(s, p) {
        without_all(s.skip(p.len() as int), p)
    } else {
        seq![s[0]] + without_all(s.skip(1), p)
    }
}

/// `s` with every occurrence of `p` taken out, leftmost first.
pub fn remove_all(s: &str, p: &str) -> (r: String)
    ensures
        r@ == without_all(s@, p@),
{
    let sc = chars_of(s);
    let pc = chars_of(p);
    if pc.len() == 0 || sc.len() < pc.len() {
        return s.to_owned();
    }
    let mut out = String::new();
    let mut start: usize = 0;
    let mut i: usize = 0;
    assert(s@.skip(0) =~= s@);
    assert(out@ + s@.subrange(0, 0) + without_all(s@.skip(0), p@) =~= without_all(s@, p@));
    while i < sc.len()
        invariant
            sc@ == s@,
            pc@ == p@,
            pc.len() > 0,
            start <= i <= sc.len(),
            without_all(s@, p@) == out@ + s@.subrange(start as int, i as int) + without_all(
                s@.skip(i as int),
                p@,
            ),
        decreases sc.len() - i,
    {
        let ghost rest = s@.skip(i as int);
        if matches_at(&sc, &pc, i) {
            let piece = substring(s, start, i);
            out.append(piece.as_str());
            proof {
                assert(rest.subrange(0, p@.len() as int) =~= s@.subrange(i as int, i + p@.len()));
                assert(rest.skip(p@.len() as int) =~= s@.skip(i + p@.len()));
                assert(s@.subrange(i + p@.len(), i + p@.len()) =~= Seq::<char>::empty());
            }
            i = i + pc.len();
            start = i;
        } else {
            proof {
                assert(rest.len() >= p@.len() ==> rest.subrange(0, p@.len() as int) =~= s@.subrange(
                    i as int,
                    i + p@.len(),
                ));
                assert(rest.skip(1) =~= s@.skip(i + 1));
                assert(s@.subrange(start as int, i + 1) =~= s@.subrange(start as int, i as int)
                    + seq![rest[0]]);
                if rest.len() < p@.len() {
                    lemma_without_all_short(rest, p@);
                    lemma_without_all_short(rest.skip(1), p@);
                    assert(rest =~= seq![rest[0]] + rest.skip(1));
                }
            }
            i += 1;
        }
    }
    let piece = substring(s, start, sc.len());
    out.append(piece.as_str());
    proof {
        assert(s@.skip(sc.len() as int) =~= Seq::<char>::empty());
    }
    out
}

/// Nothing is taken out of a string shorter than the pattern.
pub proof fn lemma_without_all_short(s: Seq<char>, p: Seq<char>)
    requires
        s.len() < p.len(),
    ensures
        without_all(s, p) == s,
{
}

/// The first index of `s` whose character does not satisfy `f`, or `s.len()`.
pub open spec fn leading(s: Seq<char>, f: spec_fn(char) -> bool) -> int
    decreases s.len(),
{
    if s.len() == 0 || !f(s[0]) {
        0
    } else {
        1 + leading(s.skip(1), f)
    }
}

/// How many characters at the end of `s` satisfy `f`.
pub open spec fn trailing(s: Seq<char>, f: spec_fn(char) -> bool) -> int
    decreases s.len(),
{
    if s.len() == 0 || !f(s.last()) {
        0
    } else {
        1 + trailing(s.drop_last(), f)
    }
}

/// `s` without the characters at either end that satisfy `f`.
pub open spec fn trimmed(s: Seq<char>, f: spec_fn(char) -> bool) -> Seq<char> {
    let rest = s.skip(leading(s, f));
    rest.take(rest.len() - trailing(rest, f))
}

/// Being the character `c`.
pub open spec fn is_char(c: char) -> spec_fn(char) -> bool {
    |x: char| x == c
}

/// White space as Unicode defines it.
pub open spec fn is_space(c: char) -> bool {
    let n = c as u32;
    (0x09 <= n <= 0x0D) || n == 0x20 || n == 0x85 || n == 0xA0 || n == 0x1680 || (0x2000 <= n
        <= 0x200A) || n == 0x2028 || n == 0x2029 || n == 0x202F || n == 0x205F || n == 0x3000
}

/// Being white space.
pub open spec fn space() -> spec_fn(char) -> bool {
    |x: char| is_space(x)
}

/// Whether `c` is white space.
pub fn char_is_space(c: char) -> (r: bool)
    ensures
        r == is_space(c),
{
    let n = c as u32;
    (0x09 <= n && n <= 0x0D) || n == 0x20 || n == 0x85 || n == 0xA0 || n == 0x1680 || (0x2000 <= n
        && n <= 0x200A) || n == 0x2028 || n == 0x2029 || n == 0x202F || n == 0x205F || n == 0x3000
}

/// The bounds of `sc[lo..hi]` once the characters satisfying the test are cut
/// from both ends: white space where `c` is `None`, else the character `c`.
fn trim_bounds(sc: &Vec<char>, c: Option<char>) -> (r: (usize, usize))
    ensures
        r.0 <= r.1 <= sc@.len(),
        sc@.subrange(r.0 as int, r.1 as int) == trimmed(
            sc@,
            match c {
                Some(c) => is_char(c),
                None => space(),
            },
        ),
{
    let ghost f = match c {
        Some(c) => is_char(c),
        None => space(),
    };
    let n = sc.len();
    let mut lo: usize = 0;
    let mut go = true;
    assert(sc@.skip(0) =~= sc@);
    while go && lo < n
        invariant
            lo <= n,
            n == sc@.len(),
            f == (match c {
                Some(c) => is_char(c),
                None => space(),
            }),
            leading(sc@, f) == lo + leading(sc@.skip(lo as int), f),
            !go ==> lo < n && !f(sc@[lo as int]),
        decreases n - lo + (if go { 1int } else { 0int }),
    {
        let hit = match c {
            Some(c) => sc[lo] == c,
            None => char_is_space(sc[lo]),
        };
        assert(hit == f(sc@[lo as int]));
        assert(sc@.skip(lo as int)[0] == sc@[lo as int]);
        if hit {
            assert(sc@.skip(lo as int).skip(1) =~= sc@.skip(lo + 1));
            lo += 1;
        } else {
            go = false;
        }
    }
    let ghost rest = sc@.skip(lo as int);
    assert(leading(sc@, f) == lo) by {
        if lo < n {
            assert(rest[0] == sc@[lo as int]);
        }
    }
    let mut hi: usize = n;
    let mut go = true;
    assert(rest.take(rest.len() as int) =~= rest);
    while go && hi > lo
        invariant
            lo <= hi <= n,
            n == sc@.len(),
            rest == sc@.skip(lo as int),
            f == (match c {
                Some(c) => is_char(c),
                None => space(),
            }),
            trailing(rest, f) == (n - hi) + trailing(rest.take(hi - lo), f),
            !go ==> hi > lo && !f(sc@[hi - 1]),
        decreases hi - lo + (if go { 1int } else { 0int }),
    {
        let hit = match c {
            Some(c) => sc[hi - 1] == c,
            None => char_is_space(sc[hi - 1]),
        };
        assert(hit == f(sc@[hi - 1]));
        assert(rest.take(hi - lo).last() == sc@[hi - 1]);
        if hit {
            assert(rest.take(hi - lo).drop_last() =~= rest.take(hi - lo - 1));
            hi -= 1;
        } else {
            go = false;
        }
    }
    assert(trailing(rest, f) == n - hi) by {
        if hi > lo {
            assert(rest.take(hi - lo).last() == sc@[hi - 1]);
        }
    }
    assert(sc@.subrange(lo as int, hi as int) =~= rest.take(rest.len() - (n - hi)));
    (lo, hi)
}

/// `s` without white space at either end.
pub fn trim(s: &str) -> (r: &str)
    ensures
        r@ == trimmed(s@, space()),
{
    let sc = chars_of(s);
    let (lo, hi) = trim_bounds(&sc, None);
    s.substring_char(lo, hi)
}

/// `s` without the character `c` at either end.
pub fn trim_matches(s: &str, c: char) -> (r: &str)
    ensures
        r@ == trimmed(s@, is_char(c)),
{
    let sc = chars_of(s);
    let (lo, hi) = trim_bounds(&sc, Some(c));
    s.substring_char(lo, hi)
}

/// `s` with the prefix `p` taken off as often as it occurs there.
pub open spec fn without_leading(s: Seq<char>, p: Seq<char>) -> Seq<char>
    decreases s.len(),
{
    if p.len() > 0 && has_prefix(s, p) {
        without_leading(s.skip(p.len() as int), p)
    } else {
        s
    }
}

/// `s` with the prefix `p` taken off as often as it occurs there.
pub fn trim_start_matches<'a>(s: &'a str, p: &str) -> (r: &'a str)
    ensures
        r@ == without_leading(s@, p@),
{
    let sc = chars_of(s);
    let pc = chars_of(p);
    if pc.len() == 0 {
        return s;
    }
    let mut i: usize = 0;
    assert(s@.skip(0) =~= s@);
    while i <= sc.len() && matches_at(&sc, &pc, i)
        invariant
            sc@ == s@,
            pc@ == p@,
            pc.len() > 0,
            i <= sc.len(),
            without_leading(s@, p@) == without_leading(s@.skip(i as int), p@),
        decreases sc.len() - i,
    {
        proof {
            let rest = s@.skip(i as int);
            assert(rest.subrange(0, p@.len() as int) =~= s@.subrange(i as int, i + p@.len()));
            assert(rest.skip(p@.len() as int) =~= s@.skip(i + p@.len()));
        }
        i = i + pc.len();
    }
    proof {
        let rest = s@.skip(i as int);
        if has_prefix(rest, p@) {
            assert(rest.subrange(0, p@.len() as int) =~= s@.subrange(i as int, i + p@.len()));
        }
        assert(rest =~= s@.subrange(i as int, sc.len() as int));
    }
    s.substring_char(i, sc.len())
}

/// The value of a decimal digit.
pub open spec fn digit_value(c: char) -> Option<int> {
    if '0' <= c && c <= '9' {
        Some(c as u32 - '0' as u32)
    } else {
        None
    }
}

/// The number that the first `n` characters spell in decimal digits.
pub open spec fn decimal(s: Seq<char>, n: nat) -> Option<int>
    decreases n,
{
    if n == 0 || n > s.len() {
        Some(0)
    } else {
        match (decimal(s, (n - 1) as nat), digit_value(s[n - 1])) {
            (Some(a), Some(d)) => Some(a * 10 + d),
            _ => None,
        }
    }
}

/// The 32-bit integer that a string spells: decimal digits, at least one,
/// after an optional sign, within the range of the type.
pub open spec fn int_of(s: Seq<char>) -> Option<i32> {
    let signed = s.len() > 0 && (s[0] == '-' || s[0] == '+');
    let negative = s.len() > 0 && s[0] == '-';
    let digits = if signed {
        s.skip(1)
    } else {
        s
    };
    if digits.len() == 0 {
        None
    } else {
        match decimal(digits, digits.len()) {
            Some(v) => {
                let value = if negative {
                    -v
                } else {
                    v
                };
                if -2147483648 <= value <= 2147483647 {
                    Some(value as i32)
                } else {
                    None
                }
            },
            None => None,
        }
    }
}

/// The 32-bit integer that a string spells.
pub fn parse_i32(s: &str) -> (r: Option<i32>)
    ensures
        r == int_of(s@),
{
    let sc = chars_of(s);
    let signed = sc.len() > 0 && (sc[0] == '-' || sc[0] == '+');
    let negative = sc.len() > 0 && sc[0] == '-';
    let first: usize = if signed {
        1
    } else {
        0
    };
    if sc.len() == first {
        return None;
    }
    let ghost digits = s@.skip(first as int);
    assert(s@.skip(0) =~= s@);
    let mut acc: i64 = 0;
    let mut big = false;
    let mut i: usize = first;
    while i < sc.len()
        invariant
            sc@ == s@,
            first <= i <= sc.len(),
            first < sc.len(),
            signed == (s@.len() > 0 && (s@[0] == '-' || s@[0] == '+')),
            negative == (s@.len() > 0 && s@[0] == '-'),
            first == (if signed { 1int } else { 0int }),
            digits == s@.skip(first as int),
            digits == (if signed { s@.skip(1) } else { s@ }),
            decimal(digits, (i - first) as nat) is Some,
            0 <= decimal(digits, (i - first) as nat)->0,
            big ==> decimal(digits, (i - first) as nat)->0 > 2147483648,
            !big ==> decimal(digits, (i - first) as nat)->0 == acc && acc <= 2147483648,
        decreases sc.len() - i,
    {
        let c = sc[i];
        assert(digits[i - first] == c);
        if !('0' <= c && c <= '9') {
            proof {
                lemma_decimal_fails(digits, (i - first + 1) as nat, digits.len());
            }
            return None;
        }
        let d: i64 = (c as u32 - '0' as u32) as i64;
        assert(digit_value(c) == Some(d as int));
        if !big {
            acc = acc * 10 + d;
            if acc > 2147483648 {
                big = true;
            }
        }
        i += 1;
    }
    assert(digits.len() == sc.len() - first);
    if big {
        return None;
    }
    let value: i64 = if negative {
        -acc
    } else {
        acc
    };
    if value < -2147483648 || value > 2147483647 {
        None
    } else {
        Some(value as i32)
    }
}

/// Once the digits fail to spell a number, more characters do not help.
pub proof fn lemma_decimal_fails(s: Seq<char>, n: nat, m: nat)
    requires
        n <= m <= s.len(),
        decimal(s, n) is None,
    ensures
        decimal(s, m) is None,
    decreases m,
{
    if m > n {
        lemma_decimal_fails(s, n, (m - 1) as nat);
    }
}

} // verus!
