//! Numbers in decimal text: single numbers, and lists of octets as the
//! record cache holds addresses.

use vstd::prelude::*;
use crate::text::{
    chars_of, free_of, join, lemma_join_split, lemma_split_join, push_char, split, split_chars,
};
use crate::views::views;

verus! {

/// A decimal digit.
pub open spec fn is_digit(c: char) -> bool {
    '0' <= c <= '9'
}

/// The number that a digit stands for.
pub open spec fn digit_value(c: char) -> nat {
    (c as int - '0' as int) as nat
}

/// The digit that stands for a number below ten.
pub open spec fn digit_char(d: nat) -> char {
    ('0' as int + d) as char
}

/// A text of digits only.
pub open spec fn all_digits(s: Seq<char>) -> bool {
    forall|i: int| 0 <= i < s.len() ==> is_digit(#[trigger] s[i])
}

/// The number that a text of digits spells in base ten.
pub open spec fn digits_value(s: Seq<char>) -> nat
    decreases s.len(),
{
    if s.len() == 0 {
        0
    } else {
        digits_value(s.drop_last()) * 10 + digit_value(s.last())
    }
}

/// A number in decimal, without sign or leading zeros.
pub open spec fn decimal(n: nat) -> Seq<char>
    decreases n,
{
    if n < 10 {
        seq![digit_char(n)]
    } else {
        decimal(n / 10).push(digit_char(n % 10))
    }
}

/// A text of one or more digits that does not start with a zero, unless it
/// is the single digit zero.
pub open spec fn canonical(s: Seq<char>) -> bool {
    s.len() >= 1 && all_digits(s) && (s.len() == 1 || s[0] != '0')
}

/// The decimal text of a number is canonical and spells the number.
pub proof fn lemma_decimal_canonical(n: nat)
    ensures
        canonical(decimal(n)),
        digits_value(decimal(n)) == n,
        n >= 1 ==> decimal(n)[0] != '0',
    decreases n,
{
    if n < 10 {
        let s = decimal(n);
        assert(s.drop_last() =~= Seq::empty());
        assert(digits_value(s) == digits_value(s.drop_last()) * 10 + digit_value(s.last()));
    } else {
        lemma_decimal_canonical(n / 10);
        let s = decimal(n);
        assert(s.drop_last() =~= decimal(n / 10));
        assert(s[0] == decimal(n / 10)[0]);
        assert(digits_value(s) == digits_value(s.drop_last()) * 10 + digit_value(s.last()));
        assert forall|i: int| 0 <= i < s.len() implies is_digit(#[trigger] s[i]) by {
            if i < s.len() - 1 {
                assert(s[i] == decimal(n / 10)[i]);
            }
        }
    }
}

proof fn lemma_leading_digit(s: Seq<char>)
    requires
        s.len() >= 1,
        all_digits(s),
        s[0] != '0',
    ensures
        digits_value(s) >= 1,
    decreases s.len(),
{
    if s.len() > 1 {
        let init = s.drop_last();
        assert(init[0] == s[0]);
        assert forall|i: int| 0 <= i < init.len() implies is_digit(#[trigger] init[i]) by {
            assert(init[i] == s[i]);
        }
        lemma_leading_digit(init);
    } else {
        assert(s.drop_last() =~= Seq::empty());
        assert(is_digit(s[0]));
    }
}

/// A canonical text is the decimal text of the number that it spells.
pub proof fn lemma_canonical_decimal(s: Seq<char>)
    requires
        canonical(s),
    ensures
        decimal(digits_value(s)) == s,
    decreases s.len(),
{
    let init = s.drop_last();
    assert(is_digit(s.last()));
    if s.len() == 1 {
        assert(init =~= Seq::empty());
        assert(decimal(digits_value(s)) =~= s);
    } else {
        assert(init[0] == s[0]);
        assert forall|i: int| 0 <= i < init.len() implies is_digit(#[trigger] init[i]) by {
            assert(init[i] == s[i]);
        }
        lemma_canonical_decimal(init);
        lemma_leading_digit(init);
        let n = digits_value(s);
        assert(n == digits_value(init) * 10 + digit_value(s.last()));
        assert(n / 10 == digits_value(init) && n % 10 == digit_value(s.last()));
        assert(decimal(n) =~= s);
    }
}

/// A text spells no less than any of its beginnings.
pub proof fn lemma_digits_value_grows(s: Seq<char>, k: int)
    requires
        0 <= k <= s.len(),
    ensures
        digits_value(s.take(k)) <= digits_value(s),
    decreases s.len() - k,
{
    if k < s.len() {
        lemma_digits_value_grows(s, k + 1);
        assert(s.take(k + 1).drop_last() =~= s.take(k));
    } else {
        assert(s.take(k) =~= s);
    }
}

/// The number that a text spells, if the text is one or more digits and
/// the number is no more than `max`.
pub open spec fn digits_of(s: Seq<char>, max: nat) -> Option<nat> {
    if s.len() >= 1 && all_digits(s) && digits_value(s) <= max {
        Some(digits_value(s))
    } else {
        None
    }
}

/// Reads the number that `chars` spell from index `from` to the end, if
/// they are one or more digits and the number is no more than `max`.
pub fn read_digits(chars: &Vec<char>, from: usize, max: u32) -> (r: Option<u32>)
    requires
        from <= chars.len(),
    ensures
        r is None <==> digits_of(chars@.skip(from as int), max as nat) is None,
        r matches Some(n) ==> digits_of(chars@.skip(from as int), max as nat) == Some(n as nat),
{
    let ghost s = chars@.skip(from as int);
    if from == chars.len() {
        return None;
    }
    let mut value: u64 = 0;
    let mut i: usize = from;
    let limit = max as u64;
    assert(s.take(0) =~= Seq::empty());
    while i < chars.len()
        invariant
            from <= i <= chars.len(),
            s == chars@.skip(from as int),
            limit == max,
            value <= limit,
            value == digits_value(s.take(i - from)),
            all_digits(s.take(i - from)),
        decreases chars.len() - i,
    {
        let c = chars[i];
        assert(s[i - from] == c);
        if !(c >= '0' && c <= '9') {
            return None;
        }
        let d = (c as u32 - '0' as u32) as u64;
        proof {
            let now = s.take(i - from + 1);
            assert(now.drop_last() =~= s.take(i - from));
            assert(now.last() == c);
            assert(digits_value(now) == value * 10 + d);
            assert forall|k: int| 0 <= k < now.len() implies is_digit(#[trigger] now[k]) by {
                if k < now.len() - 1 {
                    assert(now[k] == s.take(i - from)[k]);
                }
            }
            lemma_digits_value_grows(s, i - from + 1);
        }
        value = value * 10 + d;
        if value > limit {
            return None;
        }
        i += 1;
    }
    assert(s.take(i - from) =~= s);
    Some(value as u32)
}

/// Appends `n` in decimal to `out`.
pub fn push_decimal(out: &mut String, n: u32)
    ensures
        final(out)@ == old(out)@ + decimal(n as nat),
    decreases n,
{
    if n >= 10 {
        push_decimal(out, n / 10);
    }
    let d = (n % 10) as u8;
    push_char(out, (48u8 + d) as char);
    assert(out@ =~= old(out)@ + decimal(n as nat));
}

/// The number that a text spells as the standard library reads an unsigned
/// number: a plus sign may stand in front, one or more digits follow, and
/// the number fits 32 bits.
pub open spec fn u32_of(text: Seq<char>) -> Option<u32> {
    let digits = if text.len() >= 1 && text[0] == '+' {
        text.skip(1)
    } else {
        text
    };
    match digits_of(digits, u32::MAX as nat) {
        Some(n) => Some(n as u32),
        None => None,
    }
}

/// Reads an unsigned number of 32 bits.
pub fn parse_u32(text: &Vec<char>) -> (r: Option<u32>)
    ensures
        r == u32_of(text@),
{
    let from: usize = if text.len() >= 1 && text[0] == '+' {
        1
    } else {
        0
    };
    assert(text@.skip(0) =~= text@);
    read_digits(text, from, 0xffff_ffff)
}

/// The octet that a text spells: the text is canonical and its number is
/// no more than 255.
pub open spec fn octet_of(piece: Seq<char>) -> Option<u8> {
    if canonical(piece) && digits_value(piece) <= 255 {
        Some(digits_value(piece) as u8)
    } else {
        None
    }
}

/// Reads one octet.
pub fn parse_octet(piece: &Vec<char>) -> (r: Option<u8>)
    ensures
        r == octet_of(piece@),
{
    if piece.len() == 0 {
        return None;
    }
    if piece.len() > 1 && piece[0] == '0' {
        return None;
    }
    assert(piece@.skip(0) =~= piece@);
    match read_digits(piece, 0, 255) {
        Some(n) => Some(n as u8),
        None => None,
    }
}

/// The decimal texts of a list of octets.
pub open spec fn decimals(octets: Seq<u8>) -> Seq<Seq<char>> {
    Seq::new(octets.len(), |i: int| decimal(octets[i] as nat))
}

/// A list of octets as text: each in decimal, with `sep` between them.
pub open spec fn octets_text(octets: Seq<u8>, sep: char) -> Seq<char> {
    join(decimals(octets), sep)
}

/// The `count` octets that a text spells: it has `count` pieces between
/// its separators and each piece spells an octet.
pub open spec fn octets_of(text: Seq<char>, sep: char, count: nat) -> Option<Seq<u8>> {
    let pieces = split(text, sep);
    if pieces.len() == count && (forall|i: int|
        0 <= i < pieces.len() ==> octet_of(#[trigger] pieces[i]) is Some) {
        Some(Seq::new(pieces.len(), |i: int| octet_of(pieces[i]).unwrap()))
    } else {
        None
    }
}

/// The text of one octet or more is not empty.
pub proof fn lemma_octets_text_not_empty(octets: Seq<u8>, sep: char)
    requires
        octets.len() >= 1,
    ensures
        octets_text(octets, sep).len() >= 1,
{
    let pieces = decimals(octets);
    lemma_decimal_canonical(octets[octets.len() - 1] as nat);
    assert(pieces.last().len() >= 1);
    if pieces.len() > 1 {
        assert(join(pieces, sep).len() >= 1);
    }
}

/// Octets as text: each in decimal, with `sep` between them.
pub fn octets_to_text(octets: &Vec<u8>, sep: char) -> (r: String)
    ensures
        r@ == octets_text(octets@, sep),
{
    let mut out = String::new();
    let mut i: usize = 0;
    assert(decimals(octets@).take(0) =~= Seq::empty());
    while i < octets.len()
        invariant
            i <= octets.len(),
            out@ == join(decimals(octets@).take(i as int), sep),
        decreases octets.len() - i,
    {
        proof {
            let now = decimals(octets@).take(i + 1);
            assert(now.drop_last() =~= decimals(octets@).take(i as int));
            assert(now.last() == decimal(octets@[i as int] as nat));
            if i == 0 {
                assert(out@ + now.last() =~= now.last());
            }
        }
        if i > 0 {
            push_char(&mut out, sep);
        }
        push_decimal(&mut out, octets[i] as u32);
        i += 1;
    }
    assert(decimals(octets@).take(i as int) =~= decimals(octets@));
    out
}

/// Reads `count` octets that stand in decimal with `sep` between them.
pub fn parse_octets(text: &str, sep: char, count: usize) -> (r: Option<Vec<u8>>)
    ensures
        r is None <==> octets_of(text@, sep, count as nat) is None,
        r matches Some(octets) ==> octets_of(text@, sep, count as nat) == Some(octets@),
{
    let chars = chars_of(text);
    let pieces = split_chars(&chars, sep);
    if pieces.len() != count {
        return None;
    }
    let mut out: Vec<u8> = Vec::new();
    let mut i: usize = 0;
    while i < pieces.len()
        invariant
            i <= pieces.len(),
            views(pieces@) == split(text@, sep),
            out@.len() == i,
            forall|k: int| 0 <= k < i ==> octet_of(#[trigger] views(pieces@)[k]) == Some(out@[k]),
        decreases pieces.len() - i,
    {
        match parse_octet(&pieces[i]) {
            Some(octet) => {
                out.push(octet);
            },
            None => {
                assert(octet_of(views(pieces@)[i as int]) is None);
                return None;
            },
        }
        i += 1;
    }
    assert(out@ =~= octets_of(text@, sep, count as nat).unwrap());
    Some(out)
}

/// Reading the text of octets gives the octets back: what the cache writes
/// for an address it reads as the same address.
pub proof fn law_octets_round_trip(octets: Seq<u8>, sep: char)
    requires
        octets.len() >= 1,
        !is_digit(sep),
    ensures
        octets_of(octets_text(octets, sep), sep, octets.len()) == Some(octets),
{
    let pieces = decimals(octets);
    assert forall|i: int| 0 <= i < pieces.len() implies free_of(#[trigger] pieces[i], sep) by {
        lemma_decimal_canonical(octets[i] as nat);
    }
    lemma_join_split(pieces, sep);
    assert forall|i: int| 0 <= i < pieces.len() implies octet_of(#[trigger] pieces[i]) == Some(
        octets[i],
    ) by {
        lemma_decimal_canonical(octets[i] as nat);
    }
    assert(octets_of(octets_text(octets, sep), sep, octets.len()).unwrap() =~= octets);
}

/// A text that spells octets is the text of those octets: no two texts
/// are read as the same address.
pub proof fn law_octets_text_unique(text: Seq<char>, sep: char, count: nat)
    requires
        octets_of(text, sep, count) is Some,
    ensures
        octets_text(octets_of(text, sep, count).unwrap(), sep) == text,
{
    let pieces = split(text, sep);
    let octets = octets_of(text, sep, count).unwrap();
    assert forall|i: int| 0 <= i < pieces.len() implies decimals(octets)[i] == pieces[i] by {
        assert(octet_of(pieces[i]) is Some);
        lemma_canonical_decimal(pieces[i]);
    }
    assert(decimals(octets) =~= pieces);
    lemma_split_join(text, sep);
}

} // verus!
