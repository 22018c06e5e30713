//! Text as sequences of characters: splitting, ordering and rendering.
use vstd::prelude::*;

verus! {

/// The pieces of `s` between the occurrences of `sep`. There is always one
/// piece more than there are separators, so the empty text has one empty piece.
pub open spec fn split(s: Seq<char>, sep: char) -> Seq<Seq<char>>
    decreases s.len(),
{
    if s.len() == 0 {
        seq![Seq::<char>::empty()]
    } else {
        let before = split(s.drop_last(), sep);
        if s.last() == sep {
            before.push(Seq::<char>::empty())
        } else {
            before.drop_last().push(before.last().push(s.last()))
        }
    }
}

/// The pieces of `s`, each ended by `sep`; the last one may lack its separator.
pub open spec fn split_terminator(s: Seq<char>, sep: char) -> Seq<Seq<char>> {
    let pieces = split(s, sep);
    if pieces.last().len() == 0 {
        pieces.drop_last()
    } else {
        pieces
    }
}

/// The pieces glued together with `sep` between each two.
pub open spec fn join(pieces: Seq<Seq<char>>, sep: char) -> Seq<char>
    decreases pieces.len(),
{
    if pieces.len() == 0 {
        Seq::empty()
    } else if pieces.len() == 1 {
        pieces[0]
    } else {
        join(pieces.drop_last(), sep).push(sep) + pieces.last()
    }
}

/// The views of some pieces of text.
pub open spec fn views(pieces: Seq<&str>) -> Seq<Seq<char>> {
    pieces.map_values(|piece: &str| piece@)
}

/// The characters of `text`.
pub fn chars_of(text: &str) -> (chars: Vec<char>)
    ensures
        chars@ == text@,
{
    let mut chars: Vec<char> = Vec::new();
    for c in it: text.chars()
        invariant
            it.seq() == text@,
            chars@ == text@.take(it.index() as int),
    {
        chars.push(c);
    }
    assert(text@.take(text@.len() as int) =~= text@);
    chars
}

/// The pieces of `text` between the occurrences of `sep`.
pub fn split_text(text: &str, sep: char) -> (pieces: Vec<&str>)
    ensures
        views(pieces@) == split(text@, sep),
{
    let chars = chars_of(text);
    let mut pieces: Vec<&str> = Vec::new();
    let mut start: usize = 0;
    let mut i: usize = 0;
    assert(text@.take(0).len() == 0);
    assert(text@.subrange(0, 0) =~= Seq::<char>::empty());
    assert(views(pieces@).push(text@.subrange(0, 0)) =~= split(text@.take(0), sep));
    while i < chars.len()
        invariant
            start <= i <= chars.len(),
            chars@ == text@,
            views(pieces@).push(text@.subrange(start as int, i as int)) == split(
                text@.take(i as int),
                sep,
            ),
        decreases chars.len() - i,
    {
        let ghost longer = text@.take(i + 1);
        let ghost known = views(pieces@);
        assert(longer.drop_last() =~= text@.take(i as int));
        assert(known.push(text@.subrange(start as int, i as int)).drop_last() =~= known);
        if chars[i] == sep {
            let piece = text.substring_char(start, i);
            pieces.push(piece);
            start = i + 1;
            assert(views(pieces@) =~= known.push(piece@));
            assert(text@.subrange(start as int, i + 1) =~= Seq::<char>::empty());
        } else {
            assert(text@.subrange(start as int, i + 1) =~= text@.subrange(
                start as int,
                i as int,
            ).push(text@[i as int]));
        }
        i = i + 1;
    }
    let rest = text.substring_char(start, i);
    let ghost known = views(pieces@);
    pieces.push(rest);
    assert(views(pieces@) =~= known.push(rest@));
    assert(text@.take(i as int) =~= text@);
    pieces
}

/// The pieces of `text`, each ended by `sep`, with or without a separator
/// behind the last one.
pub fn split_terminated(text: &str, sep: char) -> (pieces: Vec<&str>)
    ensures
        views(pieces@) == split_terminator(text@, sep),
{
    let mut pieces = split_text(text, sep);
    proof {
        lemma_split_not_empty(text@, sep);
    }
    let ghost all = pieces@;
    assert(views(all).last() == all.last()@);
    let last = pieces[pieces.len() - 1];
    if last.is_empty() {
        pieces.pop();
        assert(views(pieces@) =~= views(all).drop_last());
    }
    pieces
}

/// There is at least one piece.
pub proof fn lemma_split_not_empty(s: Seq<char>, sep: char)
    ensures
        split(s, sep).len() >= 1,
    decreases s.len(),
{
    if s.len() > 0 {
        lemma_split_not_empty(s.drop_last(), sep);
    }
}

/// Splitting loses nothing: the pieces joined again are the text.
pub proof fn law_join_undoes_split(s: Seq<char>, sep: char)
    ensures
        join(split(s, sep), sep) == s,
    decreases s.len(),
{
    if s.len() > 0 {
        let before = split(s.drop_last(), sep);
        lemma_split_not_empty(s.drop_last(), sep);
        law_join_undoes_split(s.drop_last(), sep);
        if s.last() == sep {
            let pieces = before.push(Seq::<char>::empty());
            assert(pieces.drop_last() =~= before);
            assert(join(pieces, sep) =~= s);
        } else {
            let pieces = before.drop_last().push(before.last().push(s.last()));
            assert(pieces.drop_last() =~= before.drop_last());
            if before.len() == 1 {
                assert(join(pieces, sep) == pieces[0]);
                assert(join(before, sep) == before[0]);
                assert(pieces[0] =~= s);
            } else {
                let glued = join(before.drop_last(), sep).push(sep);
                assert(join(pieces, sep) == glued + before.last().push(s.last()));
                assert(glued + before.last().push(s.last()) =~= (glued + before.last()).push(
                    s.last(),
                ));
                assert(s.drop_last().push(s.last()) =~= s);
            }
        }
    }
}

/// No piece holds the separator.
pub proof fn law_pieces_hold_no_separator(s: Seq<char>, sep: char)
    ensures
        forall|i: int| 0 <= i < split(s, sep).len() ==> !(#[trigger] split(s, sep)[i]).contains(sep),
    decreases s.len(),
{
    lemma_split_not_empty(s, sep);
    if s.len() > 0 {
        let before = split(s.drop_last(), sep);
        lemma_split_not_empty(s.drop_last(), sep);
        law_pieces_hold_no_separator(s.drop_last(), sep);
        assert forall|i: int| 0 <= i < split(s, sep).len() implies !(#[trigger] split(
            s,
            sep,
        )[i]).contains(sep) by {
            let piece = split(s, sep)[i];
            if piece.contains(sep) {
                let k = piece.index_of(sep);
                if i < before.len() - 1 || (s.last() == sep && i < before.len()) {
                    assert(piece == before[i]);
                } else if s.last() != sep {
                    let shorter = before.last();
                    assert(before[before.len() - 1] == shorter);
                    assert(piece == shorter.push(s.last()));
                    assert(k < shorter.len());
                    assert(shorter[k] == sep);
                }
            }
        }
    }
}

/// A separator behind the last piece changes nothing.
pub proof fn law_final_terminator_is_optional(s: Seq<char>, sep: char)
    requires
        s.len() > 0,
        s.last() != sep,
    ensures
        split_terminator(s.push(sep), sep) == split_terminator(s, sep),
{
    assert(s.push(sep).drop_last() =~= s);
    lemma_split_not_empty(s.drop_last(), sep);
    assert(split(s, sep).push(Seq::<char>::empty()).drop_last() =~= split(s, sep));
}

/// The pieces of two texts with a separator between them are the pieces of the
/// one and then those of the other.
pub proof fn lemma_split_of_joined(a: Seq<char>, b: Seq<char>, sep: char)
    ensures
        split(a.push(sep) + b, sep) == split(a, sep) + split(b, sep),
    decreases b.len(),
{
    let whole = a.push(sep) + b;
    if b.len() == 0 {
        assert(whole =~= a.push(sep));
        assert(a.push(sep).drop_last() =~= a);
        assert(split(whole, sep) =~= split(a, sep) + split(b, sep));
    } else {
        assert(whole.drop_last() =~= a.push(sep) + b.drop_last());
        assert(whole.last() == b.last());
        lemma_split_of_joined(a, b.drop_last(), sep);
        lemma_split_not_empty(b.drop_last(), sep);
        assert(split(whole, sep) =~= split(a, sep) + split(b, sep));
    }
}

/// Whether `a` stands before `b` in the dictionary order of their characters.
pub open spec fn text_before(a: Seq<char>, b: Seq<char>) -> bool
    decreases a.len(),
{
    if b.len() == 0 {
        false
    } else if a.len() == 0 {
        true
    } else if a[0] != b[0] {
        (a[0] as int) < (b[0] as int)
    } else {
        text_before(a.drop_first(), b.drop_first())
    }
}

/// Of two texts exactly one stands before the other, unless they are equal.
pub proof fn lemma_text_order_total(a: Seq<char>, b: Seq<char>)
    ensures
        a == b || text_before(a, b) || text_before(b, a),
        !(text_before(a, b) && text_before(b, a)),
        a == b ==> !text_before(a, b),
    decreases a.len(),
{
    if a.len() > 0 && b.len() > 0 && a[0] == b[0] {
        lemma_text_order_total(a.drop_first(), b.drop_first());
        if a.drop_first() == b.drop_first() {
            assert(a =~= seq![a[0]] + a.drop_first());
            assert(b =~= seq![b[0]] + b.drop_first());
        }
    } else if a.len() == 0 && b.len() == 0 {
        assert(a =~= b);
    } else if a.len() > 0 && b.len() > 0 {
        assert(a[0] as int != b[0] as int);
    }
}

/// The dictionary order is transitive.
pub proof fn lemma_text_order_transitive(a: Seq<char>, b: Seq<char>, c: Seq<char>)
    requires
        text_before(a, b),
        text_before(b, c),
    ensures
        text_before(a, c),
    decreases a.len(),
{
    if a.len() > 0 && a[0] == b[0] && b[0] == c[0] {
        lemma_text_order_transitive(a.drop_first(), b.drop_first(), c.drop_first());
    }
}

/// Whether `a` stands before `b` in dictionary order.
pub fn is_before(a: &str, b: &str) -> (result: bool)
    ensures
        result == text_before(a@, b@),
{
    let left = chars_of(a);
    let right = chars_of(b);
    let mut i: usize = 0;
    assert(a@.skip(0) =~= a@);
    assert(b@.skip(0) =~= b@);
    while i < left.len() && i < right.len()
        invariant
            i <= left.len(),
            i <= right.len(),
            left@ == a@,
            right@ == b@,
            text_before(a@, b@) == text_before(a@.skip(i as int), b@.skip(i as int)),
        decreases left.len() - i,
    {
        let x: char = left[i];
        let y: char = right[i];
        if x != y {
            return x < y;
        }
        assert(a@.skip(i as int).drop_first() =~= a@.skip(i + 1));
        assert(b@.skip(i as int).drop_first() =~= b@.skip(i + 1));
        i = i + 1;
    }
    i < right.len()
}

/// Whether two texts are the same.
pub fn same_text(a: &str, b: &str) -> (result: bool)
    ensures
        result == (a@ == b@),
{
    a.to_owned() == b.to_owned()
}

/// A text without the separator is one piece. Otherwise what stands in front of the
/// first separator is the first piece, and the others are those of what stands
/// behind it.
pub proof fn law_split_at_first_separator(a: Seq<char>, b: Seq<char>, sep: char)
    requires
        !a.contains(sep),
    ensures
        split(a, sep) == seq![a],
        split(a.push(sep) + b, sep) == seq![a] + split(b, sep),
    decreases a.len(),
{
    if a.len() > 0 {
        let shorter = a.drop_last();
        assert(a[a.len() - 1] != sep);
        assert forall|i: int| 0 <= i < shorter.len() implies shorter[i] != sep by {
            assert(a[i] != sep);
        }
        law_split_at_first_separator(shorter, b, sep);
        assert(shorter.push(a.last()) =~= a);
        assert(split(a, sep) =~= seq![a]);
    } else {
        assert(a =~= Seq::<char>::empty());
    }
    lemma_split_of_joined(a, b, sep);
}

/// The empty text has no line. A text without the separator is one line, unless it is
/// empty. Otherwise what stands in front of the first separator is the first line,
/// empty or not, and the others are those of what stands behind it.
pub proof fn law_lines_end_at_separators(a: Seq<char>, b: Seq<char>, sep: char)
    requires
        !a.contains(sep),
    ensures
        a.len() == 0 ==> split_terminator(a, sep).len() == 0,
        a.len() > 0 ==> split_terminator(a, sep) == seq![a],
        split_terminator(a.push(sep) + b, sep) == seq![a] + split_terminator(b, sep),
{
    law_split_at_first_separator(a, b, sep);
    lemma_split_not_empty(b, sep);
    let whole = split(a.push(sep) + b, sep);
    assert(whole.last() == split(b, sep).last());
    assert(whole.drop_last() =~= seq![a] + split(b, sep).drop_last());
}

/// One text stands before another if, where they first differ, it has the smaller
/// character or has ended.
pub proof fn law_dictionary_order(a: Seq<char>, b: Seq<char>)
    ensures
        text_before(a, b) <==> exists|k: int|
            0 <= k <= a.len() && k < b.len() && #[trigger] a.take(k) == b.take(k) && (k == a.len()
                || (a[k] as int) < (b[k] as int)),
    decreases a.len(),
{
    if a.len() == 0 {
        if b.len() > 0 {
            assert(a.take(0) =~= b.take(0));
        }
    } else if b.len() > 0 {
        let x = a.drop_first();
        let y = b.drop_first();
        if a[0] != b[0] {
            assert(a.take(0) =~= b.take(0));
            assert forall|k: int| 0 < k <= a.len() && k < b.len() implies #[trigger] a.take(k)
                != b.take(k) by {
                assert(a.take(k)[0] != b.take(k)[0]);
            }
        } else {
            law_dictionary_order(x, y);
            if text_before(x, y) {
                let k = choose|k: int|
                    0 <= k <= x.len() && k < y.len() && #[trigger] x.take(k) == y.take(k) && (k
                        == x.len() || (x[k] as int) < (y[k] as int));
                assert(a.take(k + 1) =~= seq![a[0]] + x.take(k));
                assert(b.take(k + 1) =~= seq![b[0]] + y.take(k));
            }
            if exists|k: int|
                0 <= k <= a.len() && k < b.len() && #[trigger] a.take(k) == b.take(k) && (k
                    == a.len() || (a[k] as int) < (b[k] as int)) {
                let k = choose|k: int|
                    0 <= k <= a.len() && k < b.len() && #[trigger] a.take(k) == b.take(k) && (k
                        == a.len() || (a[k] as int) < (b[k] as int));
                assert(k > 0);
                assert(x.take(k - 1) =~= a.take(k).drop_first());
                assert(y.take(k - 1) =~= b.take(k).drop_first());
            }
        }
    }
}

/// The views of some pieces are as many, each at the place of its piece.
pub proof fn law_views_of_pieces(pieces: Seq<&str>, i: int)
    ensures
        views(pieces).len() == pieces.len(),
        0 <= i < pieces.len() ==> views(pieces)[i] == pieces[i]@,
{
}

} // verus!
