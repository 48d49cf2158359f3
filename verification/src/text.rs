//! Character-level helpers over string views: splitting on a separator,
//! replacing a character, joining lines.
use vstd::prelude::*;

verus! {

/// Appends `c` to `s`.
///
/// Trusted: calls `String::push`, which std documents as appending the
/// given char to the end of the string; the contract says just that.
#[verifier::external_body]
pub(crate) fn push_char(s: &mut String, c: char)
    ensures
        final(s)@ == old(s)@.push(c),
{
    s.push(c);
}

/// The characters of `s`, in order.
pub fn chars_of(s: &str) -> (v: Vec<char>)
    ensures
        v@ == s@,
{
    let mut v: Vec<char> = Vec::new();
    for c in it: s.chars()
        invariant
            v@ == it.seq().take(it.index()),
    {
        v.push(c);
    }
    v
}

/// The characters `v[from..to]` as a `String`.
pub fn string_of_range(v: &Vec<char>, from: usize, to: usize) -> (s: String)
    requires
        from <= to <= v@.len(),
    ensures
        s@ == v@.subrange(from as int, to as int),
{
    let mut s = String::new();
    let mut i = from;
    while i < to
        invariant
            from <= i <= to <= v@.len(),
            s@ == v@.subrange(from as int, i as int),
        decreases to - i,
    {
        push_char(&mut s, v[i]);
        i = i + 1;
        assert(s@ =~= v@.subrange(from as int, i as int));
    }
    s
}

/// The characters `v[from..to]` as a vector.
pub fn vec_range(v: &Vec<char>, from: usize, to: usize) -> (out: Vec<char>)
    requires
        from <= to <= v@.len(),
    ensures
        out@ == v@.subrange(from as int, to as int),
{
    let mut out: Vec<char> = Vec::new();
    let mut i = from;
    while i < to
        invariant
            from <= i <= to <= v@.len(),
            out@ == v@.subrange(from as int, i as int),
        decreases to - i,
    {
        out.push(v[i]);
        i = i + 1;
        assert(out@ =~= v@.subrange(from as int, i as int));
    }
    out
}

/// Whether `sep` occurs in `s` starting at index `k`.
pub open spec fn matches_at(s: Seq<char>, sep: Seq<char>, k: int) -> bool {
    &&& 0 <= k
    &&& k + sep.len() <= s.len()
    &&& s.subrange(k, k + sep.len()) == sep
}

/// The first index `k >= from` at which `sep` occurs in `s`.
pub open spec fn find_from(s: Seq<char>, sep: Seq<char>, from: int) -> Option<int>
    decreases s.len() + 1 - from,
{
    if from < 0 || from + sep.len() > s.len() {
        None
    } else if matches_at(s, sep, from) {
        Some(from)
    } else {
        find_from(s, sep, from + 1)
    }
}

/// A match that `find_from` reports lies at or after `from`.
pub proof fn lemma_find_from_bounds(s: Seq<char>, sep: Seq<char>, from: int)
    ensures
        find_from(s, sep, from) matches Some(k) ==> from <= k && matches_at(s, sep, k),
    decreases s.len() + 1 - from,
{
    if !(from < 0 || from + sep.len() > s.len()) && !matches_at(s, sep, from) {
        lemma_find_from_bounds(s, sep, from + 1);
    }
}

/// The pieces of `s[start..]` between the occurrences of `sep`, found from
/// left to right without overlap (the pieces that `str::split` yields).
pub open spec fn split_from(s: Seq<char>, sep: Seq<char>, start: int) -> Seq<Seq<char>>
    decreases s.len() - start,
{
    if sep.len() == 0 || start < 0 || start > s.len() {
        Seq::empty()
    } else {
        match find_from(s, sep, start) {
            Some(k) => {
                proof {
                    lemma_find_from_bounds(s, sep, start);
                }
                seq![s.subrange(start, k)] + split_from(s, sep, k + sep.len())
            },
            None => seq![s.subrange(start, s.len() as int)],
        }
    }
}

/// The pieces of `s` between the occurrences of `sep`.
pub open spec fn split_seq(s: Seq<char>, sep: Seq<char>) -> Seq<Seq<char>> {
    split_from(s, sep, 0)
}

/// The views of a sequence of character vectors.
pub open spec fn views(v: Seq<Vec<char>>) -> Seq<Seq<char>> {
    v.map_values(|l: Vec<char>| l@)
}

/// Whether `sep` occurs in `s` at index `k`, decided by comparison.
fn matches_at_exec(s: &Vec<char>, sep: &Vec<char>, k: usize) -> (b: bool)
    requires
        k + sep@.len() <= s@.len(),
    ensures
        b == matches_at(s@, sep@, k as int),
{
    let sl = s.len();
    let mut j: usize = 0;
    while j < sep.len()
        invariant
            j <= sep@.len(),
            sl == s@.len(),
            k + sep@.len() <= s@.len(),
            forall|i: int| 0 <= i < j ==> s@[k + i] == sep@[i],
        decreases sep@.len() - j,
    {
        if s[k + j] != sep[j] {
            assert(s@.subrange(k as int, k + sep@.len())[j as int] != sep@[j as int]);
            return false;
        }
        j = j + 1;
    }
    assert(s@.subrange(k as int, k + sep@.len()) =~= sep@);
    true
}

/// Splits `s` at every occurrence of the non-empty separator `sep`.
pub fn split_chars(s: &Vec<char>, sep: &Vec<char>) -> (out: Vec<Vec<char>>)
    requires
        sep@.len() > 0,
    ensures
        views(out@) == split_seq(s@, sep@),
{
    let mut out: Vec<Vec<char>> = Vec::new();
    let mut start: usize = 0;
    let mut k: usize = 0;
    while sep.len() <= s.len() && k <= s.len() - sep.len()
        invariant
            sep@.len() > 0,
            start <= k <= s@.len(),
            find_from(s@, sep@, start as int) == find_from(s@, sep@, k as int),
            split_seq(s@, sep@) == views(out@) + split_from(s@, sep@, start as int),
        decreases s@.len() - k,
    {
        if matches_at_exec(s, sep, k) {
            let piece = vec_range(s, start, k);
            proof {
                assert(split_from(s@, sep@, start as int) == seq![s@.subrange(start as int, k as int)]
                    + split_from(s@, sep@, k + sep@.len()));
                assert(views(out@.push(piece)) =~= views(out@).push(piece@));
            }
            out.push(piece);
            start = k + sep.len();
            k = start;
        } else {
            k = k + 1;
        }
    }
    let last = vec_range(s, start, s.len());
    proof {
        assert(find_from(s@, sep@, k as int) is None);
        assert(split_from(s@, sep@, start as int) == seq![s@.subrange(start as int, s@.len() as int)]);
        assert(views(out@.push(last)) =~= views(out@).push(last@));
    }
    out.push(last);
    out
}

/// The pieces `ls` put back together with `sep` between neighbours.
pub open spec fn join_with(ls: Seq<Seq<char>>, sep: Seq<char>) -> Seq<char>
    decreases ls.len(),
{
    if ls.len() == 0 {
        Seq::empty()
    } else if ls.len() == 1 {
        ls[0]
    } else {
        ls[0] + sep + join_with(ls.drop_first(), sep)
    }
}

/// Joining no pieces gives nothing, and joining one piece gives that piece.
pub proof fn lemma_join_small(x: Seq<char>, sep: Seq<char>)
    ensures
        join_with(Seq::empty(), sep) == Seq::<char>::empty(),
        join_with(seq![x], sep) == x,
{
}

/// Adding a piece at the end adds the separator and that piece.
pub proof fn lemma_join_push(ls: Seq<Seq<char>>, sep: Seq<char>, x: Seq<char>)
    requires
        ls.len() > 0,
    ensures
        join_with(ls.push(x), sep) == join_with(ls, sep) + sep + x,
    decreases ls.len(),
{
    let lx = ls.push(x);
    if ls.len() == 1 {
        assert(lx.drop_first() =~= seq![x]);
        assert(join_with(seq![x], sep) == x);
        assert(join_with(lx, sep) == ls[0] + sep + x);
    } else {
        assert(lx.drop_first() =~= ls.drop_first().push(x));
        lemma_join_push(ls.drop_first(), sep, x);
        assert(join_with(lx, sep) == ls[0] + sep + (join_with(ls.drop_first(), sep) + sep + x));
        assert(join_with(lx, sep) =~= (ls[0] + sep + join_with(ls.drop_first(), sep)) + sep + x);
    }
}

/// Every split gives at least one piece.
pub proof fn lemma_split_from_nonempty(s: Seq<char>, sep: Seq<char>, start: int)
    requires
        sep.len() > 0,
        0 <= start <= s.len(),
    ensures
        split_from(s, sep, start).len() > 0,
{
}

/// Joining the pieces of `s[start..]` with the separator gives back
/// `s[start..]`.
pub proof fn lemma_join_split_from(s: Seq<char>, sep: Seq<char>, start: int)
    requires
        sep.len() > 0,
        0 <= start <= s.len(),
    ensures
        join_with(split_from(s, sep, start), sep) == s.subrange(start, s.len() as int),
    decreases s.len() - start,
{
    lemma_find_from_bounds(s, sep, start);
    match find_from(s, sep, start) {
        Some(k) => {
            let rest = split_from(s, sep, k + sep.len());
            lemma_join_split_from(s, sep, k + sep.len());
            lemma_split_from_nonempty(s, sep, k + sep.len());
            let all = split_from(s, sep, start);
            assert(all == seq![s.subrange(start, k)] + rest);
            assert(all.drop_first() =~= rest);
            assert(all.len() > 1);
            assert(s.subrange(k, k + sep.len()) == sep);
            assert(s.subrange(start, s.len() as int) =~= s.subrange(start, k) + sep
                + s.subrange(k + sep.len(), s.len() as int));
        },
        None => {},
    }
}

/// Splitting loses nothing: joining the pieces of `s` with the separator
/// gives back `s`.
pub proof fn lemma_join_split(s: Seq<char>, sep: Seq<char>)
    requires
        sep.len() > 0,
    ensures
        join_with(split_seq(s, sep), sep) == s,
{
    lemma_join_split_from(s, sep, 0);
    assert(s.subrange(0, s.len() as int) =~= s);
}

/// Appends the characters `v` to `s`.
pub fn push_all(s: &mut String, v: &Vec<char>)
    ensures
        final(s)@ == old(s)@ + v@,
{
    let mut i: usize = 0;
    while i < v.len()
        invariant
            i <= v@.len(),
            s@ == old(s)@ + v@.take(i as int),
        decreases v@.len() - i,
    {
        push_char(s, v[i]);
        i = i + 1;
        assert(s@ =~= old(s)@ + v@.take(i as int));
    }
    assert(v@.take(v@.len() as int) =~= v@);
}

/// `s` with every `from` replaced by `to`.
pub open spec fn replace_char(s: Seq<char>, from: char, to: char) -> Seq<char> {
    s.map_values(|c: char| if c == from { to } else { c })
}

/// `s` with every `from` replaced by `to`, as a `String`.
pub fn replace_char_exec(s: &Vec<char>, from: char, to: char) -> (out: String)
    ensures
        out@ == replace_char(s@, from, to),
{
    let mut out = String::new();
    let mut i: usize = 0;
    while i < s.len()
        invariant
            i <= s@.len(),
            out@ == replace_char(s@.take(i as int), from, to),
        decreases s@.len() - i,
    {
        let c = if s[i] == from { to } else { s[i] };
        push_char(&mut out, c);
        i = i + 1;
        assert(replace_char(s@.take(i as int), from, to) =~= replace_char(
            s@.take((i - 1) as int),
            from,
            to,
        ).push(c));
    }
    assert(s@.take(s@.len() as int) =~= s@);
    out
}

} // verus!
