//! Cutting runs of characters at separators.
use vstd::prelude::*;

verus! {

/// The parts of `s` between occurrences of `sep`. There is always at least one
/// part, and none holds `sep`.
pub open spec fn split(s: Seq<char>, sep: char) -> Seq<Seq<char>>
    decreases s.len(),
{
    if s.len() == 0 {
        seq![Seq::<char>::empty()]
    } else {
        let parts = split(s.drop_last(), sep);
        if s.last() == sep {
            parts.push(Seq::empty())
        } else {
            parts.drop_last().push(parts.last().push(s.last()))
        }
    }
}

/// A list of parts read by its views.
pub open spec fn parts_view(parts: Seq<Vec<char>>) -> Seq<Seq<char>> {
    Seq::new(parts.len(), |i: int| parts[i]@)
}

/// Position of the first `c` in `s`, or the length of `s` when there is none.
pub open spec fn first_index(s: Seq<char>, c: char) -> int
    decreases s.len(),
{
    if s.len() == 0 || s[0] == c {
        0
    } else {
        1 + first_index(s.drop_first(), c)
    }
}

/// The first occurrence lies inside `s` exactly when there is one.
pub proof fn lemma_first_index(s: Seq<char>, c: char)
    ensures
        0 <= first_index(s, c) <= s.len(),
        forall|i: int| 0 <= i < first_index(s, c) ==> s[i] != c,
        first_index(s, c) < s.len() ==> s[first_index(s, c)] == c,
    decreases s.len(),
{
    if s.len() > 0 && s[0] != c {
        lemma_first_index(s.drop_first(), c);
        assert forall|i: int| 0 <= i < first_index(s, c) implies s[i] != c by {
            if i > 0 {
                assert(s[i] == s.drop_first()[i - 1]);
            }
        }
    }
}

/// A position with `c` and none before it is the first one.
pub proof fn lemma_first_index_unique(s: Seq<char>, c: char, at: int)
    requires
        0 <= at <= s.len(),
        forall|i: int| 0 <= i < at ==> s[i] != c,
        at < s.len() ==> s[at] == c,
    ensures
        first_index(s, c) == at,
{
    lemma_first_index(s, c);
    if first_index(s, c) < at {
        assert(s[first_index(s, c)] != c);
    }
}

/// Splitting yields at least one part.
pub proof fn lemma_split_nonempty(s: Seq<char>, sep: char)
    ensures
        split(s, sep).len() >= 1,
    decreases s.len(),
{
    if s.len() > 0 {
        lemma_split_nonempty(s.drop_last(), sep);
    }
}

/// A text without the separator is its own only part.
pub proof fn lemma_split_single(part: Seq<char>, sep: char)
    requires
        !part.contains(sep),
    ensures
        split(part, sep) == seq![part],
    decreases part.len(),
{
    if part.len() > 0 {
        let shorter = part.drop_last();
        assert(!shorter.contains(sep)) by {
            if shorter.contains(sep) {
                let i = choose|i: int| 0 <= i < shorter.len() && shorter[i] == sep;
                assert(part[i] == sep);
            }
        }
        lemma_split_single(shorter, sep);
        assert(part[part.len() - 1] != sep);
        assert(split(part, sep) == seq![shorter.push(part.last())]);
        assert(shorter.push(part.last()) == part);
    } else {
        assert(part == Seq::<char>::empty());
    }
}

/// A part that follows a separator is one more part.
pub proof fn lemma_split_append(s: Seq<char>, part: Seq<char>, sep: char)
    requires
        !part.contains(sep),
    ensures
        split(s.push(sep) + part, sep) == split(s, sep).push(part),
    decreases part.len(),
{
    let whole = s.push(sep) + part;
    if part.len() == 0 {
        assert(whole == s.push(sep));
        assert(whole.drop_last() == s);
        assert(part == Seq::<char>::empty());
    } else {
        let shorter = part.drop_last();
        assert(!shorter.contains(sep)) by {
            if shorter.contains(sep) {
                let i = choose|i: int| 0 <= i < shorter.len() && shorter[i] == sep;
                assert(part[i] == sep);
            }
        }
        lemma_split_append(s, shorter, sep);
        assert(whole.drop_last() == s.push(sep) + shorter);
        assert(part[part.len() - 1] != sep);
        assert(whole.last() == part.last());
        let parts = split(whole.drop_last(), sep);
        assert(parts.drop_last() == split(s, sep));
        assert(shorter.push(part.last()) == part);
    }
}

/// What follows a separator is cut on its own.
pub proof fn lemma_split_concat(s: Seq<char>, rest: Seq<char>, sep: char)
    ensures
        split(s.push(sep) + rest, sep) == split(s, sep) + split(rest, sep),
    decreases rest.len(),
{
    let whole = s.push(sep) + rest;
    lemma_split_nonempty(rest, sep);
    if rest.len() == 0 {
        assert(whole =~= s.push(sep));
        assert(whole.drop_last() =~= s);
        assert(split(whole, sep) =~= split(s, sep) + split(rest, sep));
    } else {
        let shorter = rest.drop_last();
        lemma_split_concat(s, shorter, sep);
        lemma_split_nonempty(shorter, sep);
        assert(whole.drop_last() =~= s.push(sep) + shorter);
        assert(whole.last() == rest.last());
        assert(split(whole, sep) =~= split(s, sep) + split(rest, sep));
    }
}

/// The first part ends at the first separator, and the others are those of the rest.
pub proof fn lemma_split_first(s: Seq<char>, sep: char)
    ensures
        ({
            let at = first_index(s, sep);
            &&& 0 <= at <= s.len()
            &&& split(s, sep)[0] == s.take(at)
            &&& at == s.len() ==> split(s, sep).len() == 1
            &&& at < s.len() ==> s[at] == sep && split(s, sep) == seq![s.take(at)] + split(
                s.skip(at + 1),
                sep,
            )
        }),
{
    let at = first_index(s, sep);
    lemma_first_index(s, sep);
    let head = s.take(at);
    assert(!head.contains(sep)) by {
        if head.contains(sep) {
            let i = choose|i: int| 0 <= i < head.len() && head[i] == sep;
            assert(s[i] == sep);
        }
    }
    lemma_split_single(head, sep);
    if at == s.len() {
        assert(head =~= s);
    } else {
        assert(s =~= head.push(sep) + s.skip(at + 1));
        lemma_split_concat(head, s.skip(at + 1), sep);
    }
}

/// Cuts `s` at every `sep`.
pub fn split_chars(s: &[char], sep: char) -> (parts: Vec<Vec<char>>)
    ensures
        parts_view(parts@) == split(s@, sep),
        parts@.len() >= 1,
{
    let mut parts: Vec<Vec<char>> = Vec::new();
    let mut current: Vec<char> = Vec::new();
    let mut i: usize = 0;
    assert(s@.take(0) == Seq::<char>::empty());
    assert(parts_view(parts@).push(current@) == split(s@.take(0), sep));
    while i < s.len()
        invariant
            i <= s@.len(),
            parts_view(parts@).push(current@) == split(s@.take(i as int), sep),
        decreases s@.len() - i,
    {
        let c: char = s[i];
        let ghost before = split(s@.take(i as int), sep);
        let ghost held = parts_view(parts@);
        i += 1;
        assert(s@.take(i as int).drop_last() == s@.take(i - 1));
        assert(s@.take(i as int).last() == c);
        if c == sep {
            parts.push(current);
            current = Vec::new();
            assert(parts_view(parts@) == before);
        } else {
            assert(before.drop_last() == held);
            assert(before.last() == current@);
            current.push(c);
        }
    }
    assert(s@.take(i as int) == s@);
    let ghost held = parts_view(parts@);
    parts.push(current);
    assert(parts_view(parts@) == held.push(current@));
    parts
}

/// Position of the first `c`, or the length when there is none.
pub fn index_of(s: &[char], c: char) -> (at: usize)
    ensures
        at == first_index(s@, c),
        at <= s@.len(),
        at < s@.len() ==> s@[at as int] == c,
{
    let mut i: usize = 0;
    while i < s.len() && s[i] != c
        invariant
            i <= s@.len(),
            forall|j: int| 0 <= j < i ==> s@[j] != c,
        decreases s@.len() - i,
    {
        i += 1;
    }
    proof {
        lemma_first_index_unique(s@, c, i as int);
    }
    i
}

/// Copies the characters from `from` up to `to`.
pub fn slice_of(s: &[char], from: usize, to: usize) -> (part: Vec<char>)
    requires
        from <= to <= s@.len(),
    ensures
        part@ == s@.subrange(from as int, to as int),
{
    let mut part: Vec<char> = Vec::new();
    let mut i: usize = from;
    while i < to
        invariant
            from <= i <= to <= s@.len(),
            part@ == s@.subrange(from as int, i as int),
        decreases to - i,
    {
        part.push(s[i]);
        i += 1;
    }
    part
}

} // verus!
