//! Texts character by character: taking them apart, building them, and
//! numbers as text.

use vstd::prelude::*;
use vstd::string::StringSliceAdditionalSpecFns;
use vstd::utf8::{encode_scalar, encode_utf8, encode_utf8_decode_utf8, encode_utf8_first_scalar, encode_utf8_valid_utf8, is_char_boundary, pop_first_scalar};

verus! {

/// `String::push` of the standard library: the text afterwards is the text
/// before with the one character behind it.
pub assume_specification[ String::push ](text: &mut String, c: char)
    ensures
        final(text)@ == old(text)@.push(c),
;

/// The bytes of a text are the bytes of its front before the bytes of its
/// back.
pub proof fn lemma_encode_concat(front: Seq<char>, back: Seq<char>)
    ensures
        encode_utf8(front + back) == encode_utf8(front) + encode_utf8(back),
    decreases front.len(),
{
    if front.len() == 0 {
        assert(front + back =~= back);
        assert(encode_utf8(front) + encode_utf8(back) =~= encode_utf8(back));
    } else {
        lemma_encode_concat(front.drop_first(), back);
        assert((front + back).drop_first() =~= front.drop_first() + back);
        assert(encode_utf8(front + back) =~= encode_utf8(front) + encode_utf8(back));
    }
}

/// Where the bytes of the front end, a character begins.
pub proof fn lemma_boundary_behind(front: Seq<char>, back: Seq<char>)
    ensures
        is_char_boundary(encode_utf8(front + back), encode_utf8(front).len() as int),
    decreases front.len(),
{
    let bytes = encode_utf8(front + back);
    encode_utf8_valid_utf8(front + back);
    if front.len() > 0 {
        let whole = front + back;
        encode_utf8_first_scalar(whole);
        lemma_encode_concat(front, back);
        lemma_boundary_behind(front.drop_first(), back);
        assert(whole.drop_first() =~= front.drop_first() + back);
        assert(pop_first_scalar(bytes) =~= encode_utf8(whole.drop_first()));
        assert(encode_utf8(front).len() == encode_scalar(front[0] as u32).len() + encode_utf8(
            front.drop_first(),
        ).len());
    }
}

/// A text is known by its bytes.
pub proof fn lemma_same_bytes(a: Seq<char>, b: Seq<char>)
    requires
        encode_utf8(a) == encode_utf8(b),
    ensures
        a == b,
{
    encode_utf8_decode_utf8(a);
    encode_utf8_decode_utf8(b);
}

/// The first character of `s` and the text behind it; nothing of an empty
/// text.
pub fn split_first<'a>(s: &'a str) -> (r: Option<(char, &'a str)>)
    ensures
        r is Some <==> s@.len() > 0,
        match r {
            Some((c, rest)) => c == s@[0] && rest@ == s@.skip(1),
            None => true,
        },
{
    let bytes = s.as_bytes();
    if bytes.len() == 0 {
        assert(s@.len() == 0) by {
            if s@.len() > 0 {
                encode_utf8_first_scalar(s@);
            }
        }
        return None;
    }
    let lead = bytes[0];
    let width: usize = if lead <= 0x7f {
        1
    } else if lead <= 0xdf {
        2
    } else if lead <= 0xef {
        3
    } else {
        4
    };
    proof {
        assert(s@.len() > 0);
        let head = seq![s@[0]];
        let tail = s@.skip(1);
        assert(s@ =~= head + tail);
        assert(head.drop_first() =~= Seq::<char>::empty());
        assert(encode_utf8(head.drop_first()) =~= Seq::<u8>::empty());
        assert(encode_utf8(head) =~= encode_scalar(head[0] as u32));
        encode_utf8_first_scalar(s@);
        lemma_encode_concat(head, tail);
        lemma_boundary_behind(head, tail);
    }
    let c = s.get_char(0);
    let (_, rest) = s.split_at(width);
    proof {
        let head = seq![s@[0]];
        let tail = s@.skip(1);
        assert(rest.spec_bytes() =~= encode_utf8(tail));
        lemma_same_bytes(rest@, tail);
    }
    Some((c, rest))
}

/// Whether `s` ends with `rest`.
pub open spec fn ends_with(s: Seq<char>, rest: Seq<char>) -> bool {
    rest.len() <= s.len() && s.skip(s.len() - rest.len()) == rest
}

/// The text of `s` before the text `rest` that ends it.
pub(crate) fn before<'a>(s: &'a str, rest: &str) -> (r: &'a str)
    requires
        ends_with(s@, rest@),
    ensures
        r@ == s@.take(s@.len() - rest@.len()),
{
    let ghost front = s@.take(s@.len() - rest@.len());
    let total = s.as_bytes().len();
    let behind = rest.as_bytes().len();
    proof {
        assert(s@ =~= front + rest@);
        lemma_encode_concat(front, rest@);
        lemma_boundary_behind(front, rest@);
    }
    let (head, _) = s.split_at(total - behind);
    proof {
        assert(head.spec_bytes() =~= encode_utf8(front));
        lemma_same_bytes(head@, front);
    }
    head
}

/// The character of a decimal digit.
pub open spec fn digit_char(d: int) -> char {
    if d == 0 {
        '0'
    } else if d == 1 {
        '1'
    } else if d == 2 {
        '2'
    } else if d == 3 {
        '3'
    } else if d == 4 {
        '4'
    } else if d == 5 {
        '5'
    } else if d == 6 {
        '6'
    } else if d == 7 {
        '7'
    } else if d == 8 {
        '8'
    } else {
        '9'
    }
}

/// The decimal digits of `n`, the highest first, with no leading zero.
pub open spec fn digits(n: nat) -> Seq<char>
    decreases n,
{
    if n < 10 {
        seq![digit_char(n as int)]
    } else {
        digits(n / 10).push(digit_char((n % 10) as int))
    }
}

/// `n` in decimal, with a minus sign before a negative number.
pub open spec fn decimal(n: int) -> Seq<char> {
    if n < 0 {
        seq!['-'] + digits((-n) as nat)
    } else {
        digits(n as nat)
    }
}

/// The character of one decimal digit.
fn digit(d: u32) -> (r: char)
    requires
        d < 10,
    ensures
        r == digit_char(d as int),
{
    match d {
        0 => '0',
        1 => '1',
        2 => '2',
        3 => '3',
        4 => '4',
        5 => '5',
        6 => '6',
        7 => '7',
        8 => '8',
        _ => '9',
    }
}

/// Appends the decimal digits of `n`.
fn push_digits(text: &mut String, n: u32)
    ensures
        final(text)@ == old(text)@ + digits(n as nat),
    decreases n,
{
    if n >= 10 {
        push_digits(text, n / 10);
    }
    text.push(digit(n % 10));
    assert(text@ =~= old(text)@ + digits(n as nat));
}

/// A number as decimal text.
pub fn to_decimal(n: i32) -> (r: String)
    ensures
        r@ == decimal(n as int),
{
    let mut text = String::new();
    if n < 0 {
        text.push('-');
        let wide: i64 = n as i64;
        let magnitude: u32 = (0 - wide) as u32;
        push_digits(&mut text, magnitude);
        assert(text@ =~= seq!['-'] + digits((-n) as nat));
    } else {
        push_digits(&mut text, n as u32);
        assert(text@ =~= digits(n as nat));
    }
    text
}

} // verus!
