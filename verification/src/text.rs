//! Helpers for the strings that the library handles: the labels of a name
//! and the text of an upstream answer.

use vstd::prelude::*;
use vstd::string::StringExecFns;
use crate::views::{lemma_views_push, views};

verus! {

/// Appends one character to a string.
///
/// Trusted: the body calls `String::push` of the standard library, which
/// appends the given character to the end of the string and changes
/// nothing else.
#[verifier::external_body]
pub(crate) fn push_char(s: &mut String, c: char)
    ensures
        final(s)@ == old(s)@.push(c),
{
    s.push(c)
}

/// A copy of a list of strings.
pub fn clone_names(names: &Vec<String>) -> (r: Vec<String>)
    ensures
        views(r@) == views(names@),
{
    let mut out: Vec<String> = Vec::new();
    let mut i: usize = 0;
    while i < names.len()
        invariant
            i <= names.len(),
            views(out@) == views(names@).take(i as int),
        decreases names.len() - i,
    {
        let s = names[i].clone();
        proof {
            lemma_views_push(out@, s);
            assert(views(names@).take(i + 1) =~= views(names@).take(i as int).push(s@));
        }
        out.push(s);
        i += 1;
    }
    assert(views(names@).take(i as int) =~= views(names@));
    out
}

/// A copy of a list of bytes.
pub fn clone_bytes(bytes: &Vec<u8>) -> (r: Vec<u8>)
    ensures
        r@ == bytes@,
{
    let r = bytes.clone();
    assert(r@ =~= bytes@);
    r
}

/// The characters of a string.
pub fn chars_of(text: &str) -> (r: Vec<char>)
    ensures
        r@ == text@,
{
    let mut out: Vec<char> = Vec::new();
    for c in it: text.chars()
        invariant
            out@ == it.seq().take(it.index() as int),
            it.seq() == text@,
    {
        out.push(c);
        assert(out@ =~= it.seq().take(it.index() + 1));
    }
    assert(out@ =~= text@);
    out
}

/// The string that a list of characters spells.
pub fn string_of(chars: &Vec<char>) -> (r: String)
    ensures
        r@ == chars@,
{
    let mut out = String::new();
    let mut i: usize = 0;
    while i < chars.len()
        invariant
            i <= chars.len(),
            out@ == chars@.take(i as int),
        decreases chars.len() - i,
    {
        push_char(&mut out, chars[i]);
        i += 1;
        assert(out@ =~= chars@.take(i as int));
    }
    assert(chars@.take(i as int) =~= chars@);
    out
}

/// A character of white space: one of the 25 characters that Unicode
/// gives the property `White_Space`.
pub open spec fn white_space(c: char) -> bool {
    let n = c as u32;
    ||| 0x09 <= n <= 0x0d
    ||| n == 0x20
    ||| n == 0x85
    ||| n == 0xa0
    ||| n == 0x1680
    ||| 0x2000 <= n <= 0x200a
    ||| n == 0x2028
    ||| n == 0x2029
    ||| n == 0x202f
    ||| n == 0x205f
    ||| n == 0x3000
}

/// A text that holds nothing but white space: nothing is left of it once
/// the white space at its two ends is trimmed.
pub open spec fn blank(text: Seq<char>) -> bool {
    forall|i: int| 0 <= i < text.len() ==> white_space(#[trigger] text[i])
}

/// Tells whether `c` is a character of white space.
pub fn is_white_space(c: char) -> (b: bool)
    ensures
        b == white_space(c),
{
    let n = c as u32;
    (0x09 <= n && n <= 0x0d) || n == 0x20 || n == 0x85 || n == 0xa0 || n == 0x1680 || (0x2000 <= n
        && n <= 0x200a) || n == 0x2028 || n == 0x2029 || n == 0x202f || n == 0x205f || n == 0x3000
}

/// Tells whether `text` holds nothing but white space.
pub fn is_blank(text: &Vec<char>) -> (b: bool)
    ensures
        b == blank(text@),
{
    let mut i: usize = 0;
    while i < text.len()
        invariant
            i <= text.len(),
            forall|k: int| 0 <= k < i ==> white_space(#[trigger] text@[k]),
        decreases text.len() - i,
    {
        if !is_white_space(text[i]) {
            return false;
        }
        i += 1;
    }
    true
}

/// The pieces of `text` between the occurrences of `sep`, in order. A text
/// of n separators has n + 1 pieces, and a piece may be empty.
pub open spec fn split(text: Seq<char>, sep: char) -> Seq<Seq<char>>
    decreases text.len(),
{
    if text.len() == 0 {
        seq![Seq::empty()]
    } else {
        let before = split(text.drop_last(), sep);
        if text.last() == sep {
            before.push(Seq::empty())
        } else {
            before.drop_last().push(before.last().push(text.last()))
        }
    }
}

/// The pieces with `sep` between each two of them.
pub open spec fn join(pieces: Seq<Seq<char>>, sep: char) -> Seq<char>
    decreases pieces.len(),
{
    if pieces.len() == 0 {
        Seq::empty()
    } else if pieces.len() == 1 {
        pieces[0]
    } else {
        join(pieces.drop_last(), sep).push(sep) + pieces.last()
    }
}

/// A piece that does not hold the separator.
pub open spec fn free_of(piece: Seq<char>, sep: char) -> bool {
    forall|i: int| 0 <= i < piece.len() ==> piece[i] != sep
}

/// Every text has a piece, and no piece holds the separator.
pub proof fn lemma_split_pieces(text: Seq<char>, sep: char)
    ensures
        split(text, sep).len() >= 1,
        forall|i: int| 0 <= i < split(text, sep).len() ==> free_of(#[trigger] split(text, sep)[i], sep),
    decreases text.len(),
{
    if text.len() > 0 {
        lemma_split_pieces(text.drop_last(), sep);
        let before = split(text.drop_last(), sep);
        assert(free_of(before.last(), sep));
        assert forall|i: int| 0 <= i < split(text, sep).len() implies free_of(
            #[trigger] split(text, sep)[i],
            sep,
        ) by {
            if i < before.len() - 1 {
                assert(free_of(before[i], sep));
            }
        }
    }
}

proof fn lemma_join_grow(pieces: Seq<Seq<char>>, piece: Seq<char>, c: char, sep: char)
    ensures
        join(pieces.push(piece.push(c)), sep) == join(pieces.push(piece), sep).push(c),
{
    let longer = pieces.push(piece.push(c));
    let shorter = pieces.push(piece);
    assert(longer.drop_last() =~= pieces);
    assert(shorter.drop_last() =~= pieces);
    assert(join(longer, sep) =~= join(shorter, sep).push(c));
}

/// Joining the pieces of a text gives the text back.
pub proof fn lemma_split_join(text: Seq<char>, sep: char)
    ensures
        join(split(text, sep), sep) == text,
    decreases text.len(),
{
    if text.len() == 0 {
        assert(join(split(text, sep), sep) =~= text);
    } else {
        let shorter = text.drop_last();
        let before = split(shorter, sep);
        lemma_split_join(shorter, sep);
        lemma_split_pieces(shorter, sep);
        assert(text =~= shorter.push(text.last()));
        if text.last() == sep {
            assert(before.push(Seq::empty()).drop_last() =~= before);
            assert(join(before.push(Seq::empty()), sep) =~= join(before, sep).push(sep));
        } else {
            lemma_join_grow(before.drop_last(), before.last(), text.last(), sep);
            assert(before.drop_last().push(before.last()) =~= before);
        }
    }
}

proof fn lemma_split_append(text: Seq<char>, more: Seq<char>, sep: char)
    requires
        free_of(more, sep),
    ensures
        split(text + more, sep) == split(text, sep).drop_last().push(
            split(text, sep).last() + more,
        ),
    decreases more.len(),
{
    lemma_split_pieces(text, sep);
    let pieces = split(text, sep);
    if more.len() == 0 {
        assert(text + more =~= text);
        assert(pieces.last() + more =~= pieces.last());
        assert(pieces.drop_last().push(pieces.last()) =~= pieces);
    } else {
        let shorter = more.drop_last();
        assert(free_of(shorter, sep));
        lemma_split_append(text, shorter, sep);
        assert((text + more).drop_last() =~= text + shorter);
        assert((text + more).last() == more.last());
        let before = split(text + shorter, sep);
        assert(before.drop_last() =~= pieces.drop_last());
        assert(before.last().push(more.last()) =~= pieces.last() + more);
    }
}

/// Splitting what was joined gives the pieces back, if there is a piece
/// and none of them holds the separator.
pub proof fn lemma_join_split(pieces: Seq<Seq<char>>, sep: char)
    requires
        pieces.len() >= 1,
        forall|i: int| 0 <= i < pieces.len() ==> free_of(#[trigger] pieces[i], sep),
    ensures
        split(join(pieces, sep), sep) == pieces,
    decreases pieces.len(),
{
    let last = pieces.last();
    assert(free_of(last, sep));
    if pieces.len() == 1 {
        lemma_split_append(Seq::empty(), last, sep);
        assert(Seq::<char>::empty() + last =~= last);
        assert(split(Seq::empty(), sep).last() + last =~= last);
        assert(split(join(pieces, sep), sep) =~= pieces);
    } else {
        let init = pieces.drop_last();
        assert forall|i: int| 0 <= i < init.len() implies free_of(#[trigger] init[i], sep) by {
            assert(init[i] == pieces[i]);
        }
        lemma_join_split(init, sep);
        let head = join(init, sep).push(sep);
        assert(head.drop_last() =~= join(init, sep));
        assert(split(head, sep) == init.push(Seq::empty()));
        lemma_split_append(head, last, sep);
        assert(init.push(Seq::empty()).drop_last() =~= init);
        assert(Seq::<char>::empty() + last =~= last);
        assert(split(join(pieces, sep), sep) =~= pieces);
    }
}

/// The pieces of `text` between the occurrences of `sep`.
pub fn split_chars(text: &Vec<char>, sep: char) -> (r: Vec<Vec<char>>)
    ensures
        views(r@) == split(text@, sep),
{
    let mut done: Vec<Vec<char>> = Vec::new();
    let mut current: Vec<char> = Vec::new();
    let mut i: usize = 0;
    proof {
        assert(text@.take(0) =~= Seq::empty());
        assert(views(done@).push(current@) =~= split(text@.take(0), sep));
    }
    while i < text.len()
        invariant
            i <= text.len(),
            views(done@).push(current@) == split(text@.take(i as int), sep),
        decreases text.len() - i,
    {
        let c = text[i];
        proof {
            let before = split(text@.take(i as int), sep);
            assert(text@.take(i + 1).drop_last() =~= text@.take(i as int));
            assert(text@.take(i + 1).last() == c);
            assert(before.drop_last() =~= views(done@));
            assert(before.last() == current@);
        }
        if c == sep {
            proof {
                lemma_views_push(done@, current);
            }
            done.push(current);
            current = Vec::new();
        } else {
            current.push(c);
        }
        i += 1;
    }
    proof {
        assert(text@.take(i as int) =~= text@);
        lemma_views_push(done@, current);
    }
    done.push(current);
    done
}

/// The strings of `names` with `sep` between each two of them.
pub fn join_names(names: &Vec<String>, sep: char) -> (r: String)
    ensures
        r@ == join(views(names@), sep),
{
    let mut out = String::new();
    let mut i: usize = 0;
    assert(views(names@).take(0) =~= Seq::empty());
    while i < names.len()
        invariant
            i <= names.len(),
            out@ == join(views(names@).take(i as int), sep),
        decreases names.len() - i,
    {
        proof {
            let now = views(names@).take(i + 1);
            assert(now.drop_last() =~= views(names@).take(i as int));
            assert(now.last() == names@[i as int]@);
            if i == 0 {
                assert(out@ + names@[i as int]@ =~= names@[i as int]@);
            }
        }
        if i > 0 {
            push_char(&mut out, sep);
        }
        out.append(names[i].as_str());
        i += 1;
    }
    assert(views(names@).take(i as int) =~= views(names@));
    out
}

} // verus!
