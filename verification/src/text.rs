//! Text utilities over character sequences: runs of characters of one
//! class, splitting at a separator, joining with one, and trimming
//! surrounding whitespace.

use vstd::prelude::*;
use vstd::string::*;

verus! {

/// How many characters `s` starts with that are all in `class`.
pub open spec fn prefix_len(s: Seq<char>, class: spec_fn(char) -> bool) -> nat
    decreases s.len(),
{
    if s.len() == 0 || !class(s[0]) {
        0
    } else {
        1 + prefix_len(s.drop_first(), class)
    }
}

/// How many characters `s` ends with that are all in `class`.
pub open spec fn suffix_len(s: Seq<char>, class: spec_fn(char) -> bool) -> nat
    decreases s.len(),
{
    if s.len() == 0 || !class(s.last()) {
        0
    } else {
        1 + suffix_len(s.drop_last(), class)
    }
}

/// The class of all characters but `c`.
pub open spec fn other_than(c: char) -> spec_fn(char) -> bool {
    |x: char| x != c
}

/// `k` is `prefix_len(s, class)` exactly where the first `k` characters of
/// `s` are in the class and the next one, if there is one, is not.
pub proof fn lemma_prefix_len(s: Seq<char>, class: spec_fn(char) -> bool, k: int)
    ensures
        prefix_len(s, class) <= s.len(),
        prefix_len(s, class) == k <==> {
            &&& 0 <= k <= s.len()
            &&& forall|j: int| 0 <= j < k ==> class(#[trigger] s[j])
            &&& k < s.len() ==> !class(s[k])
        },
    decreases s.len(),
{
    if s.len() == 0 || !class(s[0]) {
        if 0 < k <= s.len() && s.len() > 0 {
            assert(!class(s[0]));
        }
    } else {
        let t = s.drop_first();
        lemma_prefix_len(t, class, k - 1);
        if prefix_len(s, class) == k {
            assert forall|j: int| 0 <= j < k implies class(#[trigger] s[j]) by {
                if j > 0 {
                    assert(class(t[j - 1]));
                }
            }
        }
        if 0 <= k <= s.len() && (forall|j: int| 0 <= j < k ==> class(#[trigger] s[j])) && (k
            < s.len() ==> !class(s[k])) {
            assert(k > 0);
            assert forall|j: int| 0 <= j < k - 1 implies class(#[trigger] t[j]) by {
                assert(t[j] == s[j + 1]);
            }
        }
    }
}

/// `k` is `suffix_len(s, class)` exactly where the last `k` characters of
/// `s` are in the class and the one before them, if there is one, is not.
pub proof fn lemma_suffix_len(s: Seq<char>, class: spec_fn(char) -> bool, k: int)
    ensures
        suffix_len(s, class) <= s.len(),
        suffix_len(s, class) == k <==> {
            &&& 0 <= k <= s.len()
            &&& forall|j: int| s.len() - k <= j < s.len() ==> class(#[trigger] s[j])
            &&& k < s.len() ==> !class(s[s.len() - k - 1])
        },
    decreases s.len(),
{
    if s.len() == 0 || !class(s.last()) {
        if 0 < k <= s.len() && s.len() > 0 {
            assert(!class(s[s.len() - 1]));
        }
    } else {
        let t = s.drop_last();
        lemma_suffix_len(t, class, k - 1);
        if suffix_len(s, class) == k {
            assert forall|j: int| s.len() - k <= j < s.len() implies class(#[trigger] s[j]) by {
                if j < s.len() - 1 {
                    assert(class(t[j]));
                }
            }
        }
        if 0 <= k <= s.len() && (forall|j: int|
            s.len() - k <= j < s.len() ==> class(#[trigger] s[j])) && (k < s.len() ==> !class(
            s[s.len() - k - 1],
        )) {
            assert(k > 0);
            assert forall|j: int| t.len() - (k - 1) <= j < t.len() implies class(
                #[trigger] t[j],
            ) by {
                assert(t[j] == s[j]);
            }
        }
    }
}

/// Position of the first `sep` in `s`, or `s.len()` where `s` holds none.
pub open spec fn first_sep(s: Seq<char>, sep: char) -> nat {
    prefix_len(s, other_than(sep))
}

/// The segments of `s` between occurrences of `sep`, in order. A sequence
/// without `sep` is its own single segment; `n` separators give `n + 1`
/// segments, some of which may be empty.
pub open spec fn split(s: Seq<char>, sep: char) -> Seq<Seq<char>>
    decreases s.len(),
{
    let i = first_sep(s, sep) as int;
    if i >= s.len() {
        seq![s]
    } else {
        seq![s.subrange(0, i)] + split(s.subrange(i + 1, s.len() as int), sep)
    }
}

/// The segments of `parts` written one after another with `sep` between
/// neighbours.
pub open spec fn join(parts: Seq<Seq<char>>, sep: char) -> Seq<char>
    decreases parts.len(),
{
    if parts.len() == 0 {
        Seq::empty()
    } else if parts.len() == 1 {
        parts[0]
    } else {
        parts[0] + seq![sep] + join(parts.drop_first(), sep)
    }
}

/// Splitting never yields an empty list, and no segment holds the separator.
pub proof fn lemma_split_segments(s: Seq<char>, sep: char)
    ensures
        split(s, sep).len() >= 1,
        forall|k: int, j: int|
            0 <= k < split(s, sep).len() && 0 <= j < split(s, sep)[k].len() ==> split(
                s,
                sep,
            )[k][j] != sep,
    decreases s.len(),
{
    let i = first_sep(s, sep) as int;
    lemma_prefix_len(s, other_than(sep), i);
    if i < s.len() {
        let tail = s.subrange(i + 1, s.len() as int);
        lemma_split_segments(tail, sep);
        assert forall|k: int, j: int|
            0 <= k < split(s, sep).len() && 0 <= j < split(s, sep)[k].len() implies split(
            s,
            sep,
        )[k][j] != sep by {
            if k > 0 {
                assert(split(s, sep)[k] == split(tail, sep)[k - 1]);
            } else {
                assert(other_than(sep)(s[j]));
            }
        }
    } else {
        assert forall|j: int| 0 <= j < s.len() implies s[j] != sep by {
            assert(other_than(sep)(s[j]));
        }
    }
}

/// Joining the segments of a split with the same separator gives the
/// sequence back that was split.
pub proof fn lemma_join_split(s: Seq<char>, sep: char)
    ensures
        join(split(s, sep), sep) == s,
    decreases s.len(),
{
    let i = first_sep(s, sep) as int;
    lemma_prefix_len(s, other_than(sep), i);
    if i < s.len() {
        let head = s.subrange(0, i);
        let tail = s.subrange(i + 1, s.len() as int);
        lemma_join_split(tail, sep);
        lemma_split_segments(tail, sep);
        let parts = split(s, sep);
        assert(parts.drop_first() =~= split(tail, sep));
        assert(parts[0] == head);
        assert(head + seq![sep] + tail =~= s);
    }
}

/// Finds the first `c` in `s` between the positions `from` and `to`, and
/// gives `to` where there is none.
pub(crate) fn find_char(s: &str, c: char, from: usize, to: usize) -> (at: usize)
    requires
        from <= to <= s@.len(),
    ensures
        from <= at <= to,
        at - from == prefix_len(s@.subrange(from as int, to as int), other_than(c)),
{
    let mut at = from;
    while at < to && s.get_char(at) != c
        invariant
            from <= at <= to <= s@.len(),
            forall|j: int| from <= j < at ==> s@[j] != c,
        decreases to - at,
    {
        at += 1;
    }
    proof {
        lemma_prefix_len(s@.subrange(from as int, to as int), other_than(c), at - from);
    }
    at
}

/// Splits `s` at every `sep`, as `str::split` does for a `char` pattern.
pub fn split_str(s: &str, sep: char) -> (parts: Vec<String>)
    ensures
        parts.deep_view() == split(s@, sep),
{
    let n = s.unicode_len();
    let mut parts: Vec<String> = Vec::new();
    let mut start: usize = 0;
    assert(parts.deep_view() =~= Seq::<Seq<char>>::empty());
    assert(s@.subrange(0, n as int) =~= s@);
    loop
        invariant
            n == s@.len(),
            start <= n,
            split(s@, sep) == parts.deep_view() + split(s@.subrange(start as int, n as int), sep),
        decreases n - start,
    {
        let end = find_char(s, sep, start, n);
        let piece = s.substring_char(start, end).to_owned();
        let ghost rest = s@.subrange(start as int, n as int);
        let ghost before = parts.deep_view();
        assert(rest.subrange(0, end - start) =~= piece@);
        parts.push(piece);
        assert(parts.deep_view() =~= before.push(piece@));
        if end == n {
            assert(before.push(piece@) =~= before + split(rest, sep));
            return parts;
        }
        proof {
            let tail = s@.subrange(end + 1, n as int);
            assert(rest.subrange(end - start + 1, rest.len() as int) =~= tail);
            assert(split(rest, sep) == seq![piece@] + split(tail, sep));
            assert(before.push(piece@) + split(tail, sep) =~= before + split(rest, sep));
        }
        start = end + 1;
    }
}

/// Whether `c` is whitespace in the sense of `char::is_whitespace`, that is,
/// whether it has the Unicode property `White_Space`.
pub uninterp spec fn unicode_whitespace(c: char) -> bool;

/// `char::is_whitespace` decides the Unicode property `White_Space`; the
/// property itself is a table of the Unicode standard and is left unfolded.
pub assume_specification[ char::is_whitespace ](c: char) -> (b: bool)
    ensures
        b == unicode_whitespace(c),
;

/// The class of whitespace characters.
pub open spec fn whitespace() -> spec_fn(char) -> bool {
    |c: char| unicode_whitespace(c)
}

/// `s` without the whitespace that it starts and ends with.
pub open spec fn trim(s: Seq<char>) -> Seq<char> {
    let rest = s.skip(prefix_len(s, whitespace()) as int);
    rest.take(rest.len() - suffix_len(rest, whitespace()))
}

/// A trimmed sequence neither starts nor ends with whitespace, and the
/// untrimmed one is the trimmed sequence between two runs of whitespace.
pub proof fn lemma_trim(s: Seq<char>)
    ensures
        trim(s).len() > 0 ==> !unicode_whitespace(trim(s).first()) && !unicode_whitespace(
            trim(s).last(),
        ),
        exists|before: Seq<char>, after: Seq<char>|
            #![trigger before + trim(s) + after]
            {
                &&& s == before + trim(s) + after
                &&& forall|j: int| 0 <= j < before.len() ==> unicode_whitespace(before[j])
                &&& forall|j: int| 0 <= j < after.len() ==> unicode_whitespace(after[j])
            },
{
    let a = prefix_len(s, whitespace()) as int;
    lemma_prefix_len(s, whitespace(), a);
    let rest = s.skip(a);
    let b = suffix_len(rest, whitespace()) as int;
    lemma_suffix_len(rest, whitespace(), b);
    let before = s.take(a);
    let after = rest.skip(rest.len() - b);
    assert(s =~= before + trim(s) + after);
    assert forall|j: int| 0 <= j < before.len() implies unicode_whitespace(before[j]) by {
        assert(whitespace()(s[j]));
    }
    assert forall|j: int| 0 <= j < after.len() implies unicode_whitespace(after[j]) by {
        assert(whitespace()(rest[rest.len() - b + j]));
    }
    if trim(s).len() > 0 {
        assert(trim(s).last() == rest[rest.len() - b - 1]);
        assert(trim(s).first() == s[a]);
    }
}

/// Removes leading and trailing whitespace, as `str::trim` does.
pub fn trim_str(s: &str) -> (t: &str)
    ensures
        t@ == trim(s@),
{
    let n = s.unicode_len();
    let mut a: usize = 0;
    while a < n && s.get_char(a).is_whitespace()
        invariant
            n == s@.len(),
            a <= n,
            forall|j: int| 0 <= j < a ==> unicode_whitespace(s@[j]),
        decreases n - a,
    {
        a += 1;
    }
    let mut b: usize = n;
    while b > a && s.get_char(b - 1).is_whitespace()
        invariant
            n == s@.len(),
            a <= b <= n,
            forall|j: int| b <= j < n ==> unicode_whitespace(s@[j]),
        decreases b,
    {
        b -= 1;
    }
    proof {
        lemma_prefix_len(s@, whitespace(), a as int);
        let rest = s@.skip(a as int);
        assert forall|j: int| rest.len() - (n - b) <= j < rest.len() implies whitespace()(
            #[trigger] rest[j],
        ) by {
            assert(rest[j] == s@[a + j]);
        }
        lemma_suffix_len(rest, whitespace(), n - b);
        assert(rest.take(rest.len() - (n - b)) =~= s@.subrange(a as int, b as int));
    }
    s.substring_char(a, b)
}

} // verus!
