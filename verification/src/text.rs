//! Character-level text utilities shared by the registry, the query
//! resolver and the renderer: ASCII case folding, trimming, line and
//! comma splitting, and conversions between `String` and `Vec<char>`.

use vstd::prelude::*;

verus! {

use vstd::string::StrSliceExecFns;

/// ASCII lowercase of one character; other characters are unchanged.
pub open spec fn lower_char(c: char) -> char {
    if 'A' <= c && c <= 'Z' {
        ((c as u32) + 32) as char
    } else {
        c
    }
}

/// ASCII lowercase of a character sequence.
pub open spec fn lower_of(s: Seq<char>) -> Seq<char> {
    s.map_values(|c: char| lower_char(c))
}

/// Folding a second time changes nothing: the fold's result has no
/// uppercase ASCII letter left.
pub proof fn lemma_lower_idempotent(s: Seq<char>)
    ensures
        lower_of(lower_of(s)) == lower_of(s),
{
    assert forall|i: int| 0 <= i < s.len() implies lower_char(lower_char(s[i])) == lower_char(
        s[i],
    ) by {
        let c = s[i];
        if 'A' <= c && c <= 'Z' {
            assert(c as u32 >= 65 && c as u32 <= 90);
            assert(((c as u32) + 32) as char as u32 == (c as u32) + 32);
        }
    }
    assert(lower_of(lower_of(s)) =~= lower_of(s));
}

/// A key `assoc` finds sits at some position with that key and value.
pub proof fn lemma_assoc_some_has_index<V>(entries: Seq<(Seq<char>, V)>, key: Seq<char>)
    requires
        assoc(entries, key) is Some,
    ensures
        exists|i: int|
            0 <= i < entries.len() && #[trigger] entries[i].0 == key && assoc(entries, key)
                == Some(entries[i].1),
    decreases entries.len(),
{
    if entries[0].0 == key {
        assert(entries[0].0 == key);
    } else {
        lemma_assoc_some_has_index(entries.drop_first(), key);
        let j = choose|j: int|
            0 <= j < entries.drop_first().len() && #[trigger] entries.drop_first()[j].0 == key
                && assoc(entries.drop_first(), key) == Some(entries.drop_first()[j].1);
        assert(entries[j + 1].0 == key);
    }
}

/// Lowercase the ASCII letters of a string, leaving other characters as they are.
pub fn to_lower(s: &str) -> (r: Vec<char>)
    ensures
        r@ == lower_of(s@),
{
    let mut out: Vec<char> = Vec::new();
    let n: usize = s.unicode_len();
    let mut i: usize = 0;
    while i < n
        invariant
            n == s@.len(),
            i <= n,
            out@ == lower_of(s@.subrange(0, i as int)),
        decreases n - i,
    {
        let c = s.get_char(i);
        let lc: char = if 'A' <= c && c <= 'Z' {
            (((c as u32) + 32) as u8) as char
        } else {
            c
        };
        proof {
            assert(lc == lower_char(s@[i as int]));
        }
        out.push(lc);
        proof {
            assert(out@ =~= lower_of(s@.subrange(0, i + 1 as int)));
        }
        i = i + 1;
    }
    proof {
        assert(s@.subrange(0, n as int) =~= s@);
    }
    out
}

/// The characters of a string, in order.
pub fn str_chars(s: &str) -> (r: Vec<char>)
    ensures
        r@ == s@,
{
    let mut out: Vec<char> = Vec::new();
    let n: usize = s.unicode_len();
    let mut i: usize = 0;
    while i < n
        invariant
            n == s@.len(),
            i <= n,
            out@ == s@.subrange(0, i as int),
        decreases n - i,
    {
        let c = s.get_char(i);
        out.push(c);
        proof {
            assert(out@ =~= s@.subrange(0, i + 1 as int));
        }
        i = i + 1;
    }
    proof {
        assert(s@.subrange(0, n as int) =~= s@);
    }
    out
}

/// Relies on `String: FromIterator<char>`: collecting characters yields the
/// string made of exactly those characters in order.
#[verifier::external_body]
pub(crate) fn chars_to_string(v: &Vec<char>) -> (r: String)
    ensures
        r@ == v@,
{
    v.iter().collect()
}

/// Whether `s` begins with the characters of `p`.
pub open spec fn starts_with(s: Seq<char>, p: Seq<char>) -> bool {
    s.len() >= p.len() && s.subrange(0, p.len() as int) == p
}

/// Whether the characters of `v` begin with the prefix `p`.
pub fn chars_start_with(v: &Vec<char>, p: &str) -> (r: bool)
    ensures
        r == starts_with(v@, p@),
{
    let pn: usize = p.unicode_len();
    if v.len() < pn {
        return false;
    }
    let mut i: usize = 0;
    while i < pn
        invariant
            pn == p@.len(),
            v@.len() >= pn,
            i <= pn,
            forall|j: int| 0 <= j < i ==> v@[j] == p@[j],
        decreases pn - i,
    {
        if v[i] != p.get_char(i) {
            proof {
                assert(v@.subrange(0, pn as int)[i as int] != p@[i as int]);
            }
            return false;
        }
        i = i + 1;
    }
    proof {
        assert(v@.subrange(0, pn as int) =~= p@);
    }
    true
}

/// The whitespace characters recognized by the trimming helper.
pub open spec fn is_space(c: char) -> bool {
    c == ' ' || c == '\t' || c == '\r' || c == '\n' || c == '\u{b}' || c == '\u{c}'
}

/// `s` without its leading whitespace.
pub open spec fn drop_leading_spaces(s: Seq<char>) -> Seq<char>
    decreases s.len(),
{
    if s.len() > 0 && is_space(s[0]) {
        drop_leading_spaces(s.drop_first())
    } else {
        s
    }
}

/// `s` without its trailing whitespace.
pub open spec fn drop_trailing_spaces(s: Seq<char>) -> Seq<char>
    decreases s.len(),
{
    if s.len() > 0 && is_space(s[s.len() - 1]) {
        drop_trailing_spaces(s.drop_last())
    } else {
        s
    }
}

/// `s` without leading and trailing whitespace.
pub open spec fn trim_spec(s: Seq<char>) -> Seq<char> {
    drop_trailing_spaces(drop_leading_spaces(s))
}

/// Whether `c` is one of the whitespace characters the trimmer removes.
pub fn is_space_char(c: char) -> (r: bool)
    ensures
        r == is_space(c),
{
    c == ' ' || c == '\t' || c == '\r' || c == '\n' || c == '\u{b}' || c == '\u{c}'
}

/// The characters of `v` without leading and trailing whitespace.
pub fn trim_chars(v: &Vec<char>) -> (r: Vec<char>)
    ensures
        r@ == trim_spec(v@),
{
    proof {
        assert(v@.subrange(0, v@.len() as int) =~= v@);
    }
    let mut a: usize = 0;
    while a < v.len() && is_space_char(v[a])
        invariant
            a <= v@.len(),
            drop_leading_spaces(v@) == drop_leading_spaces(v@.subrange(a as int, v@.len() as int)),
        decreases v@.len() - a,
    {
        proof {
            let tail = v@.subrange(a as int, v@.len() as int);
            assert(tail.drop_first() =~= v@.subrange(a + 1 as int, v@.len() as int));
        }
        a = a + 1;
    }
    let mut b: usize = v.len();
    while b > a && is_space_char(v[b - 1])
        invariant
            a <= b <= v@.len(),
            drop_leading_spaces(v@) == drop_leading_spaces(v@.subrange(a as int, v@.len() as int)),
            a < v@.len() ==> !is_space(v@[a as int]),
            drop_trailing_spaces(v@.subrange(a as int, v@.len() as int)) == drop_trailing_spaces(
                v@.subrange(a as int, b as int),
            ),
        decreases b,
    {
        proof {
            let cur = v@.subrange(a as int, b as int);
            assert(cur.drop_last() =~= v@.subrange(a as int, b - 1 as int));
        }
        b = b - 1;
    }
    let mut out: Vec<char> = Vec::new();
    let mut i: usize = a;
    while i < b
        invariant
            a <= b <= v@.len(),
            a <= i <= b,
            out@ == v@.subrange(a as int, i as int),
        decreases b - i,
    {
        out.push(v[i]);
        proof {
            assert(out@ =~= v@.subrange(a as int, i + 1 as int));
        }
        i = i + 1;
    }
    proof {
        let mid = v@.subrange(a as int, b as int);
        if a < b {
            assert(!is_space(mid[0]));
            assert(drop_leading_spaces(mid) == mid);
        } else {
            assert(mid =~= Seq::<char>::empty());
        }
        assert(trim_spec(v@) == drop_trailing_spaces(v@.subrange(a as int, v@.len() as int)));
        assert(trim_spec(v@) == drop_trailing_spaces(mid));
        if a < b {
            assert(!is_space(mid[mid.len() - 1]));
            assert(drop_trailing_spaces(mid) == mid);
        }
        assert(out@ == mid);
    }
    out
}

/// Whether the characters of `v` are exactly those of `p`.
pub fn chars_equal(v: &Vec<char>, p: &str) -> (r: bool)
    ensures
        r == (v@ == p@),
{
    let pn: usize = p.unicode_len();
    if v.len() != pn {
        proof {
            assert(v@.len() != p@.len());
        }
        return false;
    }
    let sw = chars_start_with(v, p);
    proof {
        if sw {
            assert(v@.subrange(0, pn as int) =~= v@);
        } else {
            if v@ == p@ {
                assert(v@.subrange(0, pn as int) =~= p@);
            }
        }
    }
    sw
}

/// No two entries share a key, so a lookup is unambiguous.
pub open spec fn unique_keys<V>(entries: Seq<(Seq<char>, V)>) -> bool {
    forall|i: int, j: int|
        #![trigger entries[i].0, entries[j].0]
        0 <= i < j < entries.len() ==> entries[i].0 != entries[j].0
}

/// First value in the pair list whose key equals `key`, if any.
pub open spec fn assoc<V>(entries: Seq<(Seq<char>, V)>, key: Seq<char>) -> Option<V>
    decreases entries.len(),
{
    if entries.len() == 0 {
        None
    } else if entries[0].0 == key {
        Some(entries[0].1)
    } else {
        assoc(entries.drop_first(), key)
    }
}

/// How a lookup reads a list extended by one pair: an existing key wins,
/// the new pair answers only for its own, previously absent key.
pub proof fn lemma_assoc_push<V>(entries: Seq<(Seq<char>, V)>, p: (Seq<char>, V), key: Seq<char>)
    ensures
        assoc(entries.push(p), key) == (if assoc(entries, key) is Some {
            assoc(entries, key)
        } else if p.0 == key {
            Some(p.1)
        } else {
            None::<V>
        }),
    decreases entries.len(),
{
    if entries.len() == 0 {
        assert(entries.push(p)[0] == p);
        assert(entries.push(p).drop_first() =~= Seq::<(Seq<char>, V)>::empty());
    } else {
        assert(entries.push(p)[0] == entries[0]);
        assert(entries.push(p).drop_first() =~= entries.drop_first().push(p));
        lemma_assoc_push(entries.drop_first(), p, key);
    }
}

/// Replacing the value of the first pair holding a key changes the lookup
/// of that key alone.
pub proof fn lemma_assoc_update<V>(entries: Seq<(Seq<char>, V)>, i: int, v: V)
    requires
        0 <= i < entries.len(),
        forall|j: int| 0 <= j < i ==> entries[j].0 != entries[i].0,
    ensures
        assoc(entries.update(i, (entries[i].0, v)), entries[i].0) == Some(v),
        forall|k: Seq<char>|
            k != entries[i].0 ==> assoc(entries.update(i, (entries[i].0, v)), k) == assoc(
                entries,
                k,
            ),
    decreases i,
{
    let key = entries[i].0;
    let upd = entries.update(i, (key, v));
    if i == 0 {
        assert(upd[0].0 == key);
        assert forall|k: Seq<char>| k != key implies assoc(upd, k) == assoc(entries, k) by {
            assert(upd.drop_first() =~= entries.drop_first());
        }
    } else {
        assert(upd[0] == entries[0]);
        assert(upd.drop_first() =~= entries.drop_first().update(i - 1, (key, v)));
        assert(entries.drop_first()[i - 1].0 == key);
        lemma_assoc_update(entries.drop_first(), i - 1, v);
        assert(entries[0].0 != key);
        assert(assoc(upd, key) == Some(v));
        assert forall|k: Seq<char>| k != key implies assoc(upd, k) == assoc(entries, k) by {
            if entries[0].0 != k {
                assert(assoc(upd, k) == assoc(upd.drop_first(), k));
                assert(assoc(entries, k) == assoc(entries.drop_first(), k));
            }
        }
    }
}

/// A key found at a position of a unique-key table is found by `assoc`.
pub proof fn lemma_assoc_some_of_key<V>(entries: Seq<(Seq<char>, V)>, i: int)
    requires
        0 <= i < entries.len(),
        forall|j: int| 0 <= j < i ==> entries[j].0 != entries[i].0,
    ensures
        assoc(entries, entries[i].0) == Some(entries[i].1),
    decreases i,
{
    if i > 0 {
        assert(entries.drop_first()[i - 1] == entries[i]);
        lemma_assoc_some_of_key(entries.drop_first(), i - 1);
    }
}

/// A key that no entry holds is not found by `assoc`.
pub proof fn lemma_assoc_keys_absent<V>(entries: Seq<(Seq<char>, V)>, key: Seq<char>)
    requires
        forall|j: int| 0 <= j < entries.len() ==> entries[j].0 != key,
    ensures
        assoc(entries, key) is None,
    decreases entries.len(),
{
    if entries.len() > 0 {
        assert(forall|j: int|
            0 <= j < entries.drop_first().len() ==> entries.drop_first()[j] == entries[j + 1]);
        lemma_assoc_keys_absent(entries.drop_first(), key);
    }
}

/// The reverse: a key `assoc` does not find is held by no entry.
pub proof fn lemma_assoc_none_no_key<V>(entries: Seq<(Seq<char>, V)>, key: Seq<char>)
    requires
        assoc(entries, key) is None,
    ensures
        forall|j: int| 0 <= j < entries.len() ==> entries[j].0 != key,
    decreases entries.len(),
{
    if entries.len() > 0 {
        lemma_assoc_none_no_key(entries.drop_first(), key);
        assert(forall|j: int|
            1 <= j < entries.len() ==> entries[j] == entries.drop_first()[j - 1]);
    }
}

/// Look `key` up in a list of string pairs, front to back.
pub fn assoc_get(v: &Vec<(String, String)>, key: &String) -> (r: Option<String>)
    ensures
        match r {
            Some(s) => assoc(v.deep_view(), key@) == Some(s@),
            None => assoc(v.deep_view(), key@) is None,
        },
{
    proof {
        assert(v.deep_view().subrange(0, v@.len() as int) =~= v.deep_view());
    }
    let mut i: usize = 0;
    while i < v.len()
        invariant
            i <= v@.len(),
            assoc(v.deep_view(), key@) == assoc(
                v.deep_view().subrange(i as int, v@.len() as int),
                key@,
            ),
        decreases v@.len() - i,
    {
        proof {
            let tail = v.deep_view().subrange(i as int, v@.len() as int);
            assert(tail[0] == v.deep_view()[i as int]);
            assert(tail.drop_first() =~= v.deep_view().subrange(i + 1 as int, v@.len() as int));
        }
        if v[i].0 == *key {
            return Some(v[i].1.clone());
        }
        i = i + 1;
    }
    proof {
        assert(v.deep_view().subrange(v@.len() as int, v@.len() as int) =~= Seq::<(
            Seq<char>,
            Seq<char>,
        )>::empty());
    }
    None
}

/// Append the characters of `s` to `out`.
pub fn push_str_chars(out: &mut Vec<char>, s: &str)
    ensures
        final(out)@ == old(out)@ + s@,
{
    let n: usize = s.unicode_len();
    let mut i: usize = 0;
    while i < n
        invariant
            n == s@.len(),
            i <= n,
            out@ == old(out)@ + s@.subrange(0, i as int),
        decreases n - i,
    {
        let c = s.get_char(i);
        out.push(c);
        proof {
            assert(old(out)@ + s@.subrange(0, i + 1 as int) =~= (old(out)@ + s@.subrange(
                0,
                i as int,
            )).push(s@[i as int]));
        }
        i = i + 1;
    }
    proof {
        assert(s@.subrange(0, n as int) =~= s@);
    }
}

/// Append the characters of `v` to `out`.
pub fn push_chars(out: &mut Vec<char>, v: &Vec<char>)
    ensures
        final(out)@ == old(out)@ + v@,
{
    let n: usize = v.len();
    let mut i: usize = 0;
    while i < n
        invariant
            n == v@.len(),
            i <= n,
            out@ == old(out)@ + v@.subrange(0, i as int),
        decreases n - i,
    {
        out.push(v[i]);
        proof {
            assert(old(out)@ + v@.subrange(0, i + 1 as int) =~= (old(out)@ + v@.subrange(
                0,
                i as int,
            )).push(v@[i as int]));
        }
        i = i + 1;
    }
    proof {
        assert(v@.subrange(0, n as int) =~= v@);
    }
}

/// Index of the first occurrence of `c` in `s`, or `s.len()` if absent.
pub open spec fn find_char(s: Seq<char>, c: char) -> int
    decreases s.len(),
{
    if s.len() == 0 {
        0
    } else if s[0] == c {
        0
    } else {
        1 + find_char(s.drop_first(), c)
    }
}

pub proof fn lemma_find_char(s: Seq<char>, c: char)
    ensures
        0 <= find_char(s, c) <= s.len(),
        find_char(s, c) < s.len() ==> s[find_char(s, c)] == c,
        forall|j: int| 0 <= j < find_char(s, c) ==> s[j] != c,
    decreases s.len(),
{
    if s.len() > 0 && s[0] != c {
        lemma_find_char(s.drop_first(), c);
        assert forall|j: int| 0 <= j < find_char(s, c) implies s[j] != c by {
            if j > 0 {
                assert(s.drop_first()[j - 1] != c);
            }
        }
    }
}

/// `find_char` is determined by a scan that stops at the first hit.
pub proof fn lemma_find_char_unique(s: Seq<char>, c: char, m: int)
    requires
        0 <= m <= s.len(),
        forall|j: int| 0 <= j < m ==> s[j] != c,
        m < s.len() ==> s[m] == c,
    ensures
        find_char(s, c) == m,
    decreases s.len(),
{
    if s.len() > 0 && s[0] != c {
        assert(m > 0);
        lemma_find_char_unique(s.drop_first(), c, m - 1);
    }
}

/// `s` without one trailing carriage return, if it has one.
pub open spec fn strip_cr(s: Seq<char>) -> Seq<char> {
    if s.len() > 0 && s[s.len() - 1] == '\r' {
        s.drop_last()
    } else {
        s
    }
}

/// The lines of `s`: split at each newline, dropping a carriage return
/// that immediately precedes the newline; a trailing newline ends the
/// last line rather than opening an empty one.
pub open spec fn spec_lines(s: Seq<char>) -> Seq<Seq<char>>
    decreases s.len(),
    via spec_lines_dec
{
    if s.len() == 0 {
        Seq::empty()
    } else {
        let i = find_char(s, '\n');
        if i == s.len() {
            seq![s]
        } else {
            seq![strip_cr(s.subrange(0, i))] + spec_lines(s.subrange(i + 1, s.len() as int))
        }
    }
}

#[via_fn]
proof fn spec_lines_dec(s: Seq<char>) {
    lemma_find_char(s, '\n');
}

/// The comma-separated segments of `s`; always at least one segment.
pub open spec fn spec_split_commas(s: Seq<char>) -> Seq<Seq<char>>
    decreases s.len(),
    via spec_split_commas_dec
{
    let i = find_char(s, ',');
    if i == s.len() {
        seq![s]
    } else {
        seq![s.subrange(0, i)] + spec_split_commas(s.subrange(i + 1, s.len() as int))
    }
}

#[via_fn]
proof fn spec_split_commas_dec(s: Seq<char>) {
    lemma_find_char(s, ',');
}

/// The characters of `v` from `a` (inclusive) to `b` (exclusive).
pub fn copy_range(v: &Vec<char>, a: usize, b: usize) -> (r: Vec<char>)
    requires
        a <= b <= v@.len(),
    ensures
        r@ == v@.subrange(a as int, b as int),
{
    let mut out: Vec<char> = Vec::new();
    let mut i: usize = a;
    while i < b
        invariant
            a <= i <= b <= v@.len(),
            out@ == v@.subrange(a as int, i as int),
        decreases b - i,
    {
        out.push(v[i]);
        proof {
            assert(out@ =~= v@.subrange(a as int, i + 1 as int));
        }
        i = i + 1;
    }
    out
}

/// The lines of `v`, as `spec_lines` describes them.
pub fn split_lines(v: &Vec<char>) -> (r: Vec<Vec<char>>)
    ensures
        r.deep_view() == spec_lines(v@),
{
    let mut out: Vec<Vec<char>> = Vec::new();
    let mut pos: usize = 0;
    proof {
        assert(v@.subrange(0, v@.len() as int) =~= v@);
        assert(out.deep_view() + spec_lines(v@) =~~= spec_lines(v@));
    }
    while pos < v.len()
        invariant
            pos <= v@.len(),
            spec_lines(v@) == out.deep_view() + spec_lines(v@.subrange(pos as int, v@.len() as int)),
        decreases v@.len() - pos,
    {
        let ghost tail = v@.subrange(pos as int, v@.len() as int);
        let mut j: usize = pos;
        while j < v.len() && v[j] != '\n'
            invariant
                pos <= j <= v@.len(),
                forall|k: int| pos <= k < j ==> v@[k] != '\n',
            decreases v@.len() - j,
        {
            j = j + 1;
        }
        proof {
            lemma_find_char_unique(tail, '\n', j - pos);
        }
        if j == v.len() {
            let line = copy_range(v, pos, j);
            let ghost pre = out.deep_view();
            proof {
                assert(tail.subrange(0, tail.len() as int) =~= tail);
                assert(line@ =~= tail);
                assert(spec_lines(tail) =~= seq![tail]);
            }
            out.push(line);
            pos = j;
            proof {
                assert(out.deep_view() =~~= pre.push(line@));
                assert(v@.subrange(pos as int, v@.len() as int) =~= Seq::<char>::empty());
                assert(pre + spec_lines(tail) =~~= out.deep_view() + spec_lines(
                    Seq::<char>::empty(),
                ));
            }
        } else {
            let end: usize = if j > pos && v[j - 1] == '\r' {
                j - 1
            } else {
                j
            };
            let line = copy_range(v, pos, end);
            let ghost pre = out.deep_view();
            proof {
                let i = (j - pos) as int;
                assert(strip_cr(tail.subrange(0, i)) =~= line@);
                assert(tail.subrange(i + 1, tail.len() as int) =~= v@.subrange(
                    j + 1 as int,
                    v@.len() as int,
                ));
                assert(spec_lines(tail) == seq![line@] + spec_lines(
                    v@.subrange(j + 1 as int, v@.len() as int),
                ));
            }
            out.push(line);
            pos = j + 1;
            proof {
                assert(out.deep_view() =~~= pre.push(line@));
                assert(pre + spec_lines(tail) =~~= out.deep_view() + spec_lines(
                    v@.subrange(pos as int, v@.len() as int),
                ));
            }
        }
    }
    proof {
        assert(v@.subrange(pos as int, v@.len() as int) =~= Seq::<char>::empty());
        assert(spec_lines(Seq::<char>::empty()) =~= Seq::<Seq<char>>::empty());
        assert(out.deep_view() + Seq::<Seq<char>>::empty() =~= out.deep_view());
    }
    out
}

/// The comma-separated segments of `v`, as `spec_split_commas` describes them.
pub fn split_commas(v: &Vec<char>) -> (r: Vec<Vec<char>>)
    ensures
        r.deep_view() == spec_split_commas(v@),
{
    let mut out: Vec<Vec<char>> = Vec::new();
    let mut pos: usize = 0;
    proof {
        assert(v@.subrange(0, v@.len() as int) =~= v@);
        assert(out.deep_view() + spec_split_commas(v@) =~~= spec_split_commas(v@));
    }
    loop
        invariant
            pos <= v@.len(),
            spec_split_commas(v@) == out.deep_view() + spec_split_commas(
                v@.subrange(pos as int, v@.len() as int),
            ),
        decreases v@.len() - pos + 1,
    {
        let ghost tail = v@.subrange(pos as int, v@.len() as int);
        let mut j: usize = pos;
        while j < v.len() && v[j] != ','
            invariant
                pos <= j <= v@.len(),
                forall|k: int| pos <= k < j ==> v@[k] != ',',
            decreases v@.len() - j,
        {
            j = j + 1;
        }
        proof {
            lemma_find_char_unique(tail, ',', j - pos);
        }
        let seg = copy_range(v, pos, j);
        let ghost pre = out.deep_view();
        proof {
            assert(seg@ =~= tail.subrange(0, (j - pos) as int));
        }
        if j == v.len() {
            proof {
                assert(seg@ =~= tail);
                assert(spec_split_commas(tail) =~= seq![tail]);
            }
            out.push(seg);
            proof {
                assert(out.deep_view() =~~= pre.push(tail));
                assert(pre + spec_split_commas(tail) =~~= out.deep_view());
            }
            return out;
        } else {
            proof {
                assert(tail.subrange((j - pos) + 1, tail.len() as int) =~= v@.subrange(
                    j + 1 as int,
                    v@.len() as int,
                ));
                assert(spec_split_commas(tail) == seq![seg@] + spec_split_commas(
                    v@.subrange(j + 1 as int, v@.len() as int),
                ));
            }
            let ghost segview = seg@;
            out.push(seg);
            pos = j + 1;
            proof {
                assert(out.deep_view() =~~= pre.push(segview));
                assert(pre + spec_split_commas(tail) =~~= out.deep_view() + spec_split_commas(
                    v@.subrange(pos as int, v@.len() as int),
                ));
            }
        }
    }
}

/// Index of the first occurrence of `p` in `s`, or `s.len()` if absent.
pub open spec fn find_sub(s: Seq<char>, p: Seq<char>) -> int
    decreases s.len(),
{
    if starts_with(s, p) {
        0
    } else if s.len() == 0 {
        0
    } else {
        1 + find_sub(s.drop_first(), p)
    }
}

/// `find_sub` is determined by a scan that stops at the first match.
pub proof fn lemma_find_sub_unique(s: Seq<char>, p: Seq<char>, m: int)
    requires
        p.len() > 0,
        0 <= m <= s.len(),
        forall|j: int| 0 <= j < m ==> !starts_with(s.skip(j), p),
        m < s.len() ==> starts_with(s.skip(m), p),
    ensures
        find_sub(s, p) == m,
    decreases s.len(),
{
    if starts_with(s, p) {
        assert(s.skip(0) =~= s);
        assert(m == 0);
    } else if s.len() == 0 {
    } else {
        assert(s.skip(0) =~= s);
        assert(m > 0);
        assert forall|j: int| 0 <= j < m - 1 implies !starts_with(s.drop_first().skip(j), p) by {
            assert(s.drop_first().skip(j) =~= s.skip(j + 1));
        }
        if m - 1 < s.drop_first().len() {
            assert(s.drop_first().skip(m - 1) =~= s.skip(m));
        }
        lemma_find_sub_unique(s.drop_first(), p, m - 1);
    }
}

/// Whether the characters of `v` from position `i` on begin with `p`.
pub fn chars_match_at(v: &Vec<char>, p: &str, i: usize) -> (r: bool)
    requires
        i <= v@.len(),
    ensures
        r == starts_with(v@.skip(i as int), p@),
{
    let pn: usize = p.unicode_len();
    if pn > v.len() - i {
        proof {
            assert(v@.skip(i as int).len() < p@.len());
        }
        return false;
    }
    let ghost tail = v@.skip(i as int);
    let mut k: usize = 0;
    while k < pn
        invariant
            pn == p@.len(),
            i + pn <= v@.len(),
            tail == v@.skip(i as int),
            k <= pn,
            forall|j: int| 0 <= j < k ==> tail[j] == p@[j],
        decreases pn - k,
    {
        let n = v.len();
        proof {
            assert(i + k < n);
            assert(tail[k as int] == v@[i + k as int]);
        }
        if v[i + k] != p.get_char(k) {
            proof {
                assert(tail.subrange(0, pn as int)[k as int] != p@[k as int]);
            }
            return false;
        }
        k = k + 1;
    }
    proof {
        assert(tail.subrange(0, pn as int) =~= p@);
    }
    true
}

} // verus!
