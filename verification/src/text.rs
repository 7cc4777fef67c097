//! Operations on text that the recipe book needs: turning spaces into
//! hyphens and cutting a text at a separator.

use vstd::prelude::*;
use vstd::string::*;

verus! {

/// A space becomes a hyphen; every other character stays.
pub open spec fn hyphenate_char(c: char) -> char {
    if c == ' ' {
        '-'
    } else {
        c
    }
}

/// The text `s` with each space replaced by a hyphen.
pub open spec fn hyphenated(s: Seq<char>) -> Seq<char> {
    Seq::new(s.len(), |i: int| hyphenate_char(s[i]))
}

/// The hyphenated text has as many characters as the text, holds a hyphen
/// where the text holds a space, and the text's own character everywhere
/// else. So it holds no space.
pub proof fn lemma_hyphenated(s: Seq<char>)
    ensures
        hyphenated(s).len() == s.len(),
        forall|i: int| 0 <= i < s.len() && s[i] == ' ' ==> #[trigger] hyphenated(s)[i] == '-',
        forall|i: int| 0 <= i < s.len() && s[i] != ' ' ==> #[trigger] hyphenated(s)[i] == s[i],
        !hyphenated(s).contains(' '),
{
}

/// Returns `s` with each space replaced by a hyphen.
pub fn replace_spaces(s: &str) -> (r: String)
    ensures
        r@ == hyphenated(s@),
{
    let n = s.unicode_len();
    let mut r = String::new();
    let mut start: usize = 0;
    let mut i: usize = 0;
    for c in it: s.chars()
        invariant
            it.seq() == s@,
            n == s@.len(),
            i == it.index(),
            start <= i <= n,
            r@ == hyphenated(s@.take(start as int)),
            forall|k: int| start <= k < i ==> s@[k] != ' ',
    {
        if c == ' ' {
            r.append(s.substring_char(start, i));
            r.append("-");
            proof {
                reveal_strlit("-");
            }
            start = i + 1;
            assert(r@ =~= hyphenated(s@.take(start as int)));
        }
        i = i + 1;
    }
    r.append(s.substring_char(start, i));
    assert(r@ =~= hyphenated(s@));
    r
}

/// The pieces into which the separator `sep` cuts the text `s`.
///
/// A text without a separator is one piece, the empty text too. Each
/// separator ends one piece and begins the next, so a text that ends in a
/// separator has an empty last piece.
pub open spec fn split_on(s: Seq<char>, sep: char) -> Seq<Seq<char>>
    decreases s.len(),
{
    if s.len() == 0 {
        seq![Seq::<char>::empty()]
    } else {
        let before = split_on(s.drop_last(), sep);
        if s.last() == sep {
            before.push(Seq::<char>::empty())
        } else {
            before.drop_last().push(before.last().push(s.last()))
        }
    }
}

/// The pieces `parts` put together again, with `sep` between neighbours.
pub open spec fn join_with(parts: Seq<Seq<char>>, sep: char) -> Seq<char>
    decreases parts.len(),
{
    if parts.len() == 0 {
        Seq::<char>::empty()
    } else if parts.len() == 1 {
        parts[0]
    } else {
        join_with(parts.drop_last(), sep).push(sep) + parts.last()
    }
}

/// How often `c` occurs in `s`.
pub open spec fn count_of(s: Seq<char>, c: char) -> nat
    decreases s.len(),
{
    if s.len() == 0 {
        0
    } else {
        count_of(s.drop_last(), c) + if s.last() == c {
            1nat
        } else {
            0nat
        }
    }
}

/// A text is cut into one piece more than it has separators, and no piece
/// holds a separator.
pub proof fn lemma_split_pieces(s: Seq<char>, sep: char)
    ensures
        split_on(s, sep).len() == count_of(s, sep) + 1,
        forall|i: int|
            0 <= i < split_on(s, sep).len() ==> !(#[trigger] split_on(s, sep)[i]).contains(sep),
    decreases s.len(),
{
    if s.len() > 0 {
        lemma_split_pieces(s.drop_last(), sep);
        let before = split_on(s.drop_last(), sep);
        let parts = split_on(s, sep);
        assert forall|i: int| 0 <= i < parts.len() implies !(#[trigger] parts[i]).contains(
            sep,
        ) by {
            if s.last() == sep {
                if i < before.len() {
                    assert(parts[i] == before[i]);
                }
            } else {
                if i < before.len() - 1 {
                    assert(parts[i] == before[i]);
                } else {
                    let grown = before.last().push(s.last());
                    assert(parts[i] == grown);
                    assert(!before[before.len() - 1].contains(sep));
                    if grown.contains(sep) {
                        let k = choose|k: int| 0 <= k < grown.len() && grown[k] == sep;
                        assert(before.last()[k] == sep);
                    }
                }
            }
        }
    }
}

/// Putting the pieces of a text together again gives the text back.
pub proof fn lemma_join_split(s: Seq<char>, sep: char)
    ensures
        join_with(split_on(s, sep), sep) == s,
    decreases s.len(),
{
    if s.len() == 0 {
        assert(join_with(split_on(s, sep), sep) =~= s);
    } else {
        lemma_join_split(s.drop_last(), sep);
        lemma_split_pieces(s.drop_last(), sep);
        let before = split_on(s.drop_last(), sep);
        let parts = split_on(s, sep);
        if s.last() == sep {
            assert(parts.drop_last() =~= before);
            assert(join_with(parts, sep) =~= s);
        } else if before.len() == 1 {
            assert(join_with(parts, sep) =~= s);
        } else {
            assert(parts.drop_last() =~= before.drop_last());
            assert(parts.last() == before.last().push(s.last()));
            let head = join_with(before.drop_last(), sep).push(sep);
            assert(join_with(before, sep) == head + before.last());
            assert(join_with(parts, sep) == head + parts.last());
            assert(head + before.last().push(s.last()) =~= (head + before.last()).push(
                s.last(),
            ));
            assert(s =~= s.drop_last().push(s.last()));
        }
    }
}

/// Cuts `s` at each line feed and returns the pieces in their order.
pub fn split_lines(s: &str) -> (r: Vec<String>)
    ensures
        r.deep_view() == split_on(s@, '\n'),
{
    let n = s.unicode_len();
    let mut parts: Vec<String> = Vec::new();
    let mut start: usize = 0;
    let mut i: usize = 0;
    proof {
        assert(parts.deep_view() =~= Seq::<Seq<char>>::empty());
        assert(s@.subrange(0, 0) =~= Seq::<char>::empty());
        assert(parts.deep_view().push(s@.subrange(0, 0)) =~= split_on(s@.take(0), '\n'));
    }
    for c in it: s.chars()
        invariant
            it.seq() == s@,
            n == s@.len(),
            i == it.index(),
            start <= i <= n,
            parts.deep_view().push(s@.subrange(start as int, i as int)) == split_on(
                s@.take(i as int),
                '\n',
            ),
    {
        proof {
            let ghost prefix = s@.take(i + 1);
            assert(prefix.drop_last() =~= s@.take(i as int));
            assert(prefix.last() == c);
        }
        if c == '\n' {
            let piece = s.substring_char(start, i).to_owned();
            let ghost before = parts.deep_view();
            parts.push(piece);
            assert(parts.deep_view() =~= before.push(s@.subrange(start as int, i as int)));
            start = i + 1;
            assert(s@.subrange(start as int, i + 1) =~= Seq::<char>::empty());
            assert(parts.deep_view().push(s@.subrange(start as int, i + 1)) =~= split_on(
                s@.take(i + 1),
                '\n',
            ));
        } else {
            assert(parts.deep_view().push(s@.subrange(start as int, i + 1)) =~= split_on(
                s@.take(i + 1),
                '\n',
            )) by {
                let done = parts.deep_view().push(s@.subrange(start as int, i as int));
                assert(done.drop_last() =~= parts.deep_view());
                assert(done.last().push(c) =~= s@.subrange(start as int, i + 1));
            }
        }
        i = i + 1;
    }
    let piece = s.substring_char(start, n).to_owned();
    let ghost before = parts.deep_view();
    parts.push(piece);
    assert(parts.deep_view() =~= before.push(s@.subrange(start as int, n as int)));
    assert(s@.take(n as int) =~= s@);
    parts
}

} // verus!
