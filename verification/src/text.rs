//! Splitting, joining and comparing texts, with the facts that relate them.

use vstd::prelude::*;
use vstd::std_specs::iter::IteratorSpec;

verus! {

/// The pieces of `s` between the occurrences of `sep`.
///
/// The empty text is one empty piece; a separator at the end opens a new,
/// empty piece; any other character extends the last piece.
pub open spec fn split(s: Seq<char>, sep: char) -> Seq<Seq<char>>
    decreases s.len(),
{
    if s.len() == 0 {
        seq![Seq::<char>::empty()]
    } else {
        let before = split(s.drop_last(), sep);
        if s.last() == sep {
            before.push(Seq::<char>::empty())
        } else {
            before.drop_last().push(before.last().push(s.last()))
        }
    }
}

/// The pieces of `parts` written one after the other with `sep` between
/// neighbours.
pub open spec fn join(parts: Seq<Seq<char>>, sep: char) -> Seq<char>
    decreases parts.len(),
{
    if parts.len() == 0 {
        Seq::<char>::empty()
    } else if parts.len() == 1 {
        parts[0]
    } else {
        join(parts.drop_last(), sep).push(sep) + parts.last()
    }
}

/// How often `c` occurs in `s`.
pub open spec fn occurrences(s: Seq<char>, c: char) -> nat
    decreases s.len(),
{
    if s.len() == 0 {
        0
    } else if s.last() == c {
        occurrences(s.drop_last(), c) + 1
    } else {
        occurrences(s.drop_last(), c)
    }
}

/// No piece of `parts` holds the character `c`.
pub open spec fn free_of(parts: Seq<Seq<char>>, c: char) -> bool {
    forall|i: int| 0 <= i < parts.len() ==> !(#[trigger] parts[i]).contains(c)
}

/// Splitting gives one piece more than there are separators.
pub proof fn lemma_split_len(s: Seq<char>, sep: char)
    ensures
        split(s, sep).len() == occurrences(s, sep) + 1,
    decreases s.len(),
{
    if s.len() > 0 {
        lemma_split_len(s.drop_last(), sep);
    }
}

/// No piece that splitting yields holds the separator.
pub proof fn lemma_split_free_of(s: Seq<char>, sep: char)
    ensures
        free_of(split(s, sep), sep),
    decreases s.len(),
{
    let parts = split(s, sep);
    if s.len() == 0 {
        assert(!Seq::<char>::empty().contains(sep));
    } else {
        let before = split(s.drop_last(), sep);
        lemma_split_free_of(s.drop_last(), sep);
        lemma_split_len(s.drop_last(), sep);
        assert forall|i: int| 0 <= i < parts.len() implies !(#[trigger] parts[i]).contains(sep) by {
            if i < parts.len() - 1 {
                assert(parts[i] == before[i]);
            } else if s.last() == sep {
                assert(parts[i] =~= Seq::<char>::empty());
            } else {
                let piece = before.last();
                assert(!piece.contains(sep));
                assert(parts[i] == piece.push(s.last()));
                if parts[i].contains(sep) {
                    let k = choose|k: int| 0 <= k < parts[i].len() && parts[i][k] == sep;
                    if k < piece.len() {
                        assert(piece[k] == sep);
                    }
                }
            }
        }
    }
}

/// Joining the pieces of a text with the separator gives the text back.
pub proof fn lemma_join_split(s: Seq<char>, sep: char)
    ensures
        join(split(s, sep), sep) == s,
    decreases s.len(),
{
    if s.len() == 0 {
    } else {
        let before = split(s.drop_last(), sep);
        lemma_join_split(s.drop_last(), sep);
        lemma_split_len(s.drop_last(), sep);
        let c = s.last();
        if c == sep {
            let parts = before.push(Seq::<char>::empty());
            assert(parts.drop_last() == before);
            assert(join(parts, sep) == s.drop_last().push(sep) + Seq::<char>::empty());
            assert(s.drop_last().push(sep) + Seq::<char>::empty() == s);
        } else {
            let parts = before.drop_last().push(before.last().push(c));
            if before.len() == 1 {
                assert(join(parts, sep) == before[0].push(c));
                assert(s.drop_last().push(c) == s);
            } else {
                assert(parts.drop_last() == before.drop_last());
                let head = join(before.drop_last(), sep).push(sep);
                assert(join(parts, sep) == head + before.last().push(c));
                assert(head + before.last().push(c) == (head + before.last()).push(c));
                assert(s.drop_last().push(c) == s);
            }
        }
    }
}

/// A text without separator, appended to `s`, extends the last piece of `s`.
pub proof fn lemma_split_append(s: Seq<char>, t: Seq<char>, sep: char)
    requires
        !t.contains(sep),
    ensures
        split(s + t, sep) == split(s, sep).drop_last().push(split(s, sep).last() + t),
    decreases t.len(),
{
    lemma_split_len(s, sep);
    let parts = split(s, sep);
    if t.len() == 0 {
        assert(s + t == s);
        assert(parts.last() + t == parts.last());
        assert(parts.drop_last().push(parts.last()) == parts);
    } else {
        let shorter = t.drop_last();
        assert(!shorter.contains(sep)) by {
            if shorter.contains(sep) {
                let k = choose|k: int| 0 <= k < shorter.len() && shorter[k] == sep;
                assert(t[k] == sep);
            }
        }
        lemma_split_append(s, shorter, sep);
        assert((s + t).drop_last() == s + shorter);
        assert((s + t).last() == t.last());
        assert(t.last() != sep) by {
            assert(t[t.len() - 1] == t.last());
        }
        let before = split(s + shorter, sep);
        assert(before.drop_last() == parts.drop_last());
        assert(before.last().push(t.last()) == parts.last() + t) by {
            assert(shorter.push(t.last()) == t);
            assert((parts.last() + shorter).push(t.last()) == parts.last() + shorter.push(
                t.last(),
            ));
        }
    }
}

/// Splitting what was joined gives the pieces back, where there is at least
/// one piece and none holds the separator.
pub proof fn lemma_split_join(parts: Seq<Seq<char>>, sep: char)
    requires
        parts.len() > 0,
        free_of(parts, sep),
    ensures
        split(join(parts, sep), sep) == parts,
    decreases parts.len(),
{
    if parts.len() == 1 {
        let empty = Seq::<char>::empty();
        lemma_split_append(empty, parts[0], sep);
        assert(empty + parts[0] == parts[0]);
        assert(split(empty, sep) == seq![empty]);
        assert(seq![empty].drop_last().push(seq![empty].last() + parts[0]) == parts);
    } else {
        let front = parts.drop_last();
        assert(free_of(front, sep)) by {
            assert forall|i: int| 0 <= i < front.len() implies !(#[trigger] front[i]).contains(
                sep,
            ) by {
                assert(front[i] == parts[i]);
            }
        }
        lemma_split_join(front, sep);
        let head = join(front, sep).push(sep);
        assert(head.drop_last() == join(front, sep));
        assert(split(head, sep) == front.push(Seq::<char>::empty()));
        assert(!parts.last().contains(sep)) by {
            assert(parts[parts.len() - 1] == parts.last());
        }
        lemma_split_append(head, parts.last(), sep);
        assert(front.push(Seq::<char>::empty()).drop_last() == front);
        assert(Seq::<char>::empty() + parts.last() == parts.last());
        assert(front.push(parts.last()) == parts);
    }
}

/// Splits `s` at every occurrence of `sep`.
pub fn split_text(s: &str, sep: char) -> (parts: Vec<String>)
    ensures
        parts.deep_view() == split(s@, sep),
{
    let n = s.unicode_len();
    let mut parts: Vec<String> = Vec::new();
    let mut start: usize = 0;
    let mut i: usize = 0;
    proof {
        assert(s@.take(0).len() == 0);
        assert(parts.deep_view() =~= Seq::<Seq<char>>::empty());
        assert(s@.subrange(0, 0) =~= Seq::<char>::empty());
        assert(parts.deep_view().push(s@.subrange(0, 0)) =~= seq![Seq::<char>::empty()]);
    }
    for c in it: s.chars()
        invariant
            it.seq() == s@,
            n == s@.len(),
            i == it.index(),
            start <= i,
            split(s@.take(i as int), sep) == parts.deep_view().push(
                s@.subrange(start as int, i as int),
            ),
    {
        proof {
            assert(s@.take(i + 1).drop_last() == s@.take(i as int));
            assert(s@.take(i + 1).last() == c);
        }
        if c == sep {
            let piece = s.substring_char(start, i).to_owned();
            let ghost before = parts.deep_view();
            parts.push(piece);
            assert(parts.deep_view() == before.push(s@.subrange(start as int, i as int)));
            start = i + 1;
            assert(s@.subrange(start as int, start as int) == Seq::<char>::empty());
        } else {
            assert(s@.subrange(start as int, i + 1) == s@.subrange(start as int, i as int).push(c));
            assert(parts.deep_view().push(s@.subrange(start as int, i as int)).drop_last()
                == parts.deep_view());
        }
        i += 1;
    }
    assert(s@.take(n as int) == s@);
    let last = s.substring_char(start, n).to_owned();
    let ghost before = parts.deep_view();
    parts.push(last);
    assert(parts.deep_view() == before.push(s@.subrange(start as int, n as int)));
    parts
}

/// Whether two texts hold the same characters.
pub fn same_text(a: &str, b: &str) -> (same: bool)
    ensures
        same == (a@ == b@),
{
    let mut rest = b.chars();
    for c in it: a.chars()
        invariant
            it.seq() == a@,
            it.index() <= b@.len(),
            rest.remaining() == b@.skip(it.index() as int),
            b@.take(it.index() as int) == a@.take(it.index() as int),
    {
        match rest.next() {
            Some(d) => {
                if c != d {
                    assert(a@[it.index() as int] != b@[it.index() as int]);
                    return false;
                }
                assert(b@.take(it.index() + 1) == b@.take(it.index() as int).push(d));
                assert(a@.take(it.index() + 1) == a@.take(it.index() as int).push(c));
                assert(b@.skip(it.index() as int).drop_first() == b@.skip(it.index() + 1));
            },
            None => {
                assert(b@.len() == it.index());
                return false;
            },
        }
    }
    assert(a@.take(a@.len() as int) == a@);
    match rest.next() {
        Some(_) => false,
        None => {
            assert(b@.take(b@.len() as int) == b@);
            true
        },
    }
}

} // verus!
