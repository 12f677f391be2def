//! Splitting a sequence at a separator and joining the pieces again.

use vstd::prelude::*;

verus! {

/// Position of the first occurrence of `sep` in `s`, or the length of `s`
/// where there is none.
pub open spec fn first_sep<T>(s: Seq<T>, sep: T) -> nat
    decreases s.len(),
{
    if s.len() == 0 || s[0] == sep {
        0
    } else {
        1 + first_sep(s.drop_first(), sep)
    }
}

/// The pieces of `s` between the occurrences of `sep`, in order. A sequence
/// with `n` separators has `n + 1` pieces, empty ones included.
pub open spec fn split<T>(s: Seq<T>, sep: T) -> Seq<Seq<T>>
    decreases s.len(),
{
    let k = first_sep(s, sep) as int;
    if k >= s.len() {
        seq![s]
    } else {
        seq![s.take(k)] + split(s.skip(k + 1), sep)
    }
}

/// The pieces written one after another with `sep` between neighbours.
pub open spec fn join<T>(parts: Seq<Seq<T>>, sep: T) -> Seq<T>
    decreases parts.len(),
{
    if parts.len() == 0 {
        Seq::empty()
    } else if parts.len() == 1 {
        parts[0]
    } else {
        parts[0] + seq![sep] + join(parts.drop_first(), sep)
    }
}

/// `first_sep` stays within the sequence, nothing before it is the
/// separator, and where it is inside the sequence it points at one.
pub proof fn lemma_first_sep<T>(s: Seq<T>, sep: T)
    ensures
        first_sep(s, sep) <= s.len(),
        forall|i: int| 0 <= i < first_sep(s, sep) ==> s[i] != sep,
        first_sep(s, sep) < s.len() ==> s[first_sep(s, sep) as int] == sep,
        first_sep(s, sep) == s.len() <==> !s.contains(sep),
    decreases s.len(),
{
    if s.len() == 0 || s[0] == sep {
    } else {
        let t = s.drop_first();
        lemma_first_sep(t, sep);
        let k = first_sep(s, sep);
        assert forall|i: int| 0 <= i < k implies s[i] != sep by {
            if i > 0 {
                assert(s[i] == t[i - 1]);
            }
        }
        if t.contains(sep) {
            let j = choose|j: int| 0 <= j < t.len() && t[j] == sep;
            assert(s[j + 1] == sep);
        }
        if s.contains(sep) {
            let j = choose|j: int| 0 <= j < s.len() && s[j] == sep;
            assert(t[j - 1] == sep);
        }
    }
}

/// A position with no separator before it, which is the end of the sequence
/// or holds a separator, is the one that `first_sep` gives.
pub proof fn lemma_first_sep_unique<T>(s: Seq<T>, sep: T, k: int)
    requires
        0 <= k <= s.len(),
        forall|i: int| 0 <= i < k ==> s[i] != sep,
        k < s.len() ==> s[k] == sep,
    ensures
        first_sep(s, sep) == k,
{
    lemma_first_sep(s, sep);
    let f = first_sep(s, sep) as int;
    if f < k {
        assert(s[f] == sep);
    } else if k < f {
        assert(s[k] == sep);
    }
}

/// Every piece of a split is free of the separator.
pub proof fn lemma_split_pieces<T>(s: Seq<T>, sep: T)
    ensures
        split(s, sep).len() >= 1,
        forall|i: int| 0 <= i < split(s, sep).len() ==> !(#[trigger] split(s, sep)[i]).contains(sep),
    decreases s.len(),
{
    lemma_first_sep(s, sep);
    let k = first_sep(s, sep) as int;
    if k >= s.len() {
    } else {
        let rest = s.skip(k + 1);
        lemma_split_pieces(rest, sep);
        let head = s.take(k);
        if head.contains(sep) {
            let j = choose|j: int| 0 <= j < head.len() && head[j] == sep;
            assert(s[j] == sep);
        }
        assert forall|i: int| 0 <= i < split(s, sep).len() implies !(#[trigger] split(
            s,
            sep,
        )[i]).contains(sep) by {
            if i > 0 {
                assert(split(s, sep)[i] == split(rest, sep)[i - 1]);
            }
        }
    }
}

/// Joining the pieces of a split gives the sequence back.
pub proof fn lemma_join_split<T>(s: Seq<T>, sep: T)
    ensures
        join(split(s, sep), sep) == s,
    decreases s.len(),
{
    lemma_first_sep(s, sep);
    let k = first_sep(s, sep) as int;
    if k >= s.len() {
    } else {
        let rest = s.skip(k + 1);
        lemma_join_split(rest, sep);
        lemma_split_pieces(rest, sep);
        let parts = split(s, sep);
        assert(parts.drop_first() =~= split(rest, sep));
        assert(parts[0] == s.take(k));
        assert(s =~= s.take(k) + seq![sep] + rest);
    }
}

/// Splitting the join of pieces that are free of the separator gives the
/// pieces back.
pub proof fn lemma_split_join<T>(parts: Seq<Seq<T>>, sep: T)
    requires
        parts.len() >= 1,
        forall|i: int| 0 <= i < parts.len() ==> !(#[trigger] parts[i]).contains(sep),
    ensures
        split(join(parts, sep), sep) == parts,
    decreases parts.len(),
{
    let s = join(parts, sep);
    if parts.len() == 1 {
        lemma_first_sep(s, sep);
        assert(split(s, sep) =~= parts);
    } else {
        let head = parts[0];
        let tail = parts.drop_first();
        assert forall|i: int| 0 <= i < tail.len() implies !(#[trigger] tail[i]).contains(sep) by {
            assert(tail[i] == parts[i + 1]);
        }
        lemma_split_join(tail, sep);
        let k = head.len() as int;
        assert forall|i: int| 0 <= i < k implies s[i] != sep by {
            assert(s[i] == head[i]);
        }
        assert(s[k] == sep);
        lemma_first_sep_unique(s, sep, k);
        assert(s.take(k) =~= head);
        assert(s.skip(k + 1) =~= join(tail, sep));
        assert(split(s, sep) =~= parts);
    }
}

} // verus!
