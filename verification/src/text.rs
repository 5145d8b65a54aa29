//! Text as sequences of characters: conversions between `String` and
//! `Vec<char>`, and splitting on a separator.

use vstd::prelude::*;

verus! {

/// `String::push` of the standard library: appends one character at the end.
pub assume_specification[ String::push ](s: &mut String, c: char)
    ensures
        final(s)@ == old(s)@.push(c),
;

/// The characters of `s`, in order.
pub fn chars_of(s: &str) -> (v: Vec<char>)
    ensures
        v@ == s@,
{
    let mut v: Vec<char> = Vec::new();
    for c in it: s.chars()
        invariant
            v@ == it.seq().take(it.index() as int),
            it.seq() == s@,
    {
        v.push(c);
    }
    v
}

/// The string made of the characters of `v`, in order.
pub fn string_of(v: &Vec<char>) -> (s: String)
    ensures
        s@ == v@,
{
    let mut s = String::new();
    let mut i: usize = 0;
    while i < v.len()
        invariant
            i <= v.len(),
            s@ == v@.take(i as int),
        decreases v.len() - i,
    {
        s.push(v[i]);
        i += 1;
    }
    s
}

/// Appends the characters of `tail` to `v`.
pub fn append(v: &mut Vec<char>, tail: &Vec<char>)
    ensures
        final(v)@ == old(v)@ + tail@,
{
    let mut i: usize = 0;
    while i < tail.len()
        invariant
            i <= tail.len(),
            v@ == old(v)@ + tail@.take(i as int),
        decreases tail.len() - i,
    {
        v.push(tail[i]);
        i += 1;
    }
}

/// Appends the characters of the string `tail` to `v`.
pub fn append_str(v: &mut Vec<char>, tail: &str)
    ensures
        final(v)@ == old(v)@ + tail@,
{
    let t = chars_of(tail);
    append(v, &t);
}

/// Whether `v` and `w` hold the same characters.
pub fn same_chars(v: &Vec<char>, w: &Vec<char>) -> (b: bool)
    ensures
        b == (v@ == w@),
{
    if v.len() != w.len() {
        return false;
    }
    let mut i: usize = 0;
    while i < v.len()
        invariant
            i <= v.len(),
            v.len() == w.len(),
            v@.take(i as int) == w@.take(i as int),
        decreases v.len() - i,
    {
        if v[i] != w[i] {
            assert(v@[i as int] != w@[i as int]);
            return false;
        }
        assert(v@.take(i + 1) == v@.take(i as int).push(v@[i as int]));
        assert(w@.take(i + 1) == w@.take(i as int).push(w@[i as int]));
        i += 1;
    }
    assert(v@ == v@.take(v.len() as int));
    assert(w@ == w@.take(w.len() as int));
    true
}

/// Whether `v` holds exactly the characters of `word`.
pub fn is_text(v: &Vec<char>, word: &str) -> (b: bool)
    ensures
        b == (v@ == word@),
{
    let w = chars_of(word);
    same_chars(v, &w)
}

/// Whether `c` occurs in `v`.
pub fn has_char(v: &Vec<char>, c: char) -> (b: bool)
    ensures
        b == v@.contains(c),
{
    let mut i: usize = 0;
    while i < v.len()
        invariant
            i <= v.len(),
            forall|j: int| 0 <= j < i ==> v@[j] != c,
        decreases v.len() - i,
    {
        if v[i] == c {
            return true;
        }
        i += 1;
    }
    false
}

/// Index of the first `c` in `s`, or `s.len()` when `s` holds none.
pub open spec fn find(s: Seq<char>, c: char) -> int
    decreases s.len(),
{
    if s.len() == 0 || s[0] == c {
        0
    } else {
        1 + find(s.drop_first(), c)
    }
}

/// `find` returns the least index that holds `c`, and the length without one.
pub proof fn lemma_find(s: Seq<char>, c: char)
    ensures
        0 <= find(s, c) <= s.len(),
        forall|j: int| 0 <= j < find(s, c) ==> s[j] != c,
        find(s, c) < s.len() ==> s[find(s, c)] == c,
    decreases s.len(),
{
    if s.len() == 0 || s[0] == c {
    } else {
        let t = s.drop_first();
        lemma_find(t, c);
        assert forall|j: int| 0 <= j < find(s, c) implies s[j] != c by {
            if j > 0 {
                assert(s[j] == t[j - 1]);
            }
        }
    }
}

/// An index with no `c` before it, which holds `c` or is the length, is `find`.
pub proof fn lemma_find_is(s: Seq<char>, c: char, i: int)
    requires
        0 <= i <= s.len(),
        forall|j: int| 0 <= j < i ==> s[j] != c,
        i < s.len() ==> s[i] == c,
    ensures
        find(s, c) == i,
{
    lemma_find(s, c);
    let f = find(s, c);
    if f < i {
        assert(s[f] != c);
    } else if i < f {
        assert(s[i] == c);
    }
}

/// The pieces of `s` between occurrences of `sep`; always at least one piece.
pub open spec fn split(s: Seq<char>, sep: char) -> Seq<Seq<char>>
    decreases s.len(),
{
    let i = find(s, sep);
    if 0 <= i < s.len() {
        seq![s.take(i)] + split(s.skip(i + 1), sep)
    } else {
        seq![s]
    }
}

/// The pieces joined again, with one `sep` between neighbours.
pub open spec fn join(parts: Seq<Seq<char>>, sep: char) -> Seq<char>
    decreases parts.len(),
{
    if parts.len() == 0 {
        Seq::empty()
    } else if parts.len() == 1 {
        parts[0]
    } else {
        parts[0] + seq![sep] + join(parts.drop_first(), sep)
    }
}

/// Splitting gives at least one piece, and the pieces joined are the text
/// that was split.
pub proof fn lemma_join_split(s: Seq<char>, sep: char)
    ensures
        split(s, sep).len() >= 1,
        join(split(s, sep), sep) == s,
    decreases s.len(),
{
    let i = find(s, sep);
    lemma_find(s, sep);
    if 0 <= i < s.len() {
        let rest = s.skip(i + 1);
        lemma_join_split(rest, sep);
        let parts = split(s, sep);
        assert(parts.drop_first() =~= split(rest, sep));
        assert(parts[0] == s.take(i));
        assert(s =~= s.take(i) + seq![sep] + rest);
    }
}

/// The views of the elements of `parts`.
pub open spec fn views(parts: Seq<Vec<char>>) -> Seq<Seq<char>> {
    parts.map_values(|p: Vec<char>| p@)
}

/// Splitting what `join` made of pieces without `sep` gives the pieces back.
pub proof fn lemma_split_join(parts: Seq<Seq<char>>, sep: char)
    requires
        parts.len() >= 1,
        forall|k: int| 0 <= k < parts.len() ==> !(#[trigger] parts[k]).contains(sep),
    ensures
        split(join(parts, sep), sep) == parts,
    decreases parts.len(),
{
    let s = join(parts, sep);
    if parts.len() == 1 {
        assert(!parts[0].contains(sep));
        lemma_find(s, sep);
        if find(s, sep) < s.len() {
            assert(s.contains(sep));
        }
        assert(split(s, sep) == seq![s]);
        assert(seq![s] =~= parts);
    } else {
        let head = parts[0];
        let rest = parts.drop_first();
        assert(!head.contains(sep));
        assert forall|j: int| 0 <= j < head.len() implies s[j] != sep by {
            assert(s[j] == head[j]);
            if head[j] == sep {
                assert(head.contains(sep));
            }
        }
        assert(s[head.len() as int] == sep);
        lemma_find_is(s, sep, head.len() as int);
        assert(s.take(head.len() as int) =~= head);
        assert(s.skip(head.len() as int + 1) =~= join(rest, sep));
        assert forall|k: int| 0 <= k < rest.len() implies !(#[trigger] rest[k]).contains(sep) by {
            assert(rest[k] == parts[k + 1]);
        }
        lemma_split_join(rest, sep);
        assert(seq![head] + rest =~= parts);
    }
}

/// Splits `v` at every `sep`.
pub fn split_chars(v: &Vec<char>, sep: char) -> (parts: Vec<Vec<char>>)
    ensures
        views(parts@) == split(v@, sep),
{
    let mut parts: Vec<Vec<char>> = Vec::new();
    let mut cur: Vec<char> = Vec::new();
    let ghost mut start: int = 0;
    let mut i: usize = 0;
    assert(v@.skip(0) =~= v@);
    assert(views(parts@) + split(v@, sep) =~= split(v@, sep));
    while i < v.len()
        invariant
            0 <= start <= i <= v.len(),
            cur@ == v@.subrange(start, i as int),
            forall|j: int| start <= j < i ==> v@[j] != sep,
            views(parts@) + split(v@.skip(start), sep) == split(v@, sep),
        decreases v.len() - i,
    {
        if v[i] == sep {
            proof {
                let t = v@.skip(start);
                lemma_find_is(t, sep, i - start);
                assert(t.take(i - start) =~= cur@);
                assert(t.skip(i - start + 1) =~= v@.skip(i + 1));
                assert(views(parts@.push(cur)) =~= views(parts@) + seq![cur@]);
            }
            parts.push(cur);
            cur = Vec::new();
            proof {
                start = i + 1;
            }
        } else {
            cur.push(v[i]);
        }
        i += 1;
    }
    proof {
        let t = v@.skip(start);
        lemma_find_is(t, sep, t.len() as int);
        assert(t =~= cur@);
        assert(views(parts@.push(cur)) =~= views(parts@) + seq![cur@]);
    }
    parts.push(cur);
    parts
}

/// What stands before and after the first `sep` of `s`, if it has one.
pub open spec fn split_once(s: Seq<char>, sep: char) -> Option<(Seq<char>, Seq<char>)> {
    let i = find(s, sep);
    if 0 <= i < s.len() {
        Some((s.take(i), s.skip(i + 1)))
    } else {
        None
    }
}

/// Splits `v` at its first `sep`.
pub fn split_once_chars(v: &Vec<char>, sep: char) -> (r: Option<(Vec<char>, Vec<char>)>)
    ensures
        match r {
            Some((a, b)) => split_once(v@, sep) == Some((a@, b@)),
            None => split_once(v@, sep).is_none(),
        },
{
    let mut i: usize = 0;
    while i < v.len() && v[i] != sep
        invariant
            i <= v.len(),
            forall|j: int| 0 <= j < i ==> v@[j] != sep,
        decreases v.len() - i,
    {
        i += 1;
    }
    proof {
        lemma_find_is(v@, sep, i as int);
    }
    if i == v.len() {
        return None;
    }
    let mut a: Vec<char> = Vec::new();
    let mut k: usize = 0;
    while k < i
        invariant
            k <= i < v.len(),
            a@ == v@.take(k as int),
        decreases i - k,
    {
        a.push(v[k]);
        k += 1;
    }
    let mut b: Vec<char> = Vec::new();
    k = i + 1;
    while k < v.len()
        invariant
            i < k <= v.len(),
            b@ == v@.subrange(i + 1, k as int),
        decreases v.len() - k,
    {
        b.push(v[k]);
        k += 1;
    }
    assert(b@ == v@.skip(i + 1));
    Some((a, b))
}

} // verus!
