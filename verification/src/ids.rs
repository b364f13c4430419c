//! Structured unique identifiers, held as their 128-bit value.

use vstd::prelude::*;
use crate::text::{hex_char, hex_digit, string_of};

verus! {

/// What `uuid::Uuid::parse_str` makes of a text: the identifier's 128-bit
/// value, or the message of the parse error.
pub uninterp spec fn uuid_parse(text: Seq<char>) -> Result<u128, Seq<char>>;

/// `uuid::Uuid::parse_str`, with the identifier handed back as the integer of
/// `Uuid::as_u128` and the error as the text it displays. The result depends
/// on the text alone.
#[verifier::external_body]
pub(crate) fn parse_uuid(text: &str) -> (r: Result<u128, String>)
    ensures
        match r {
            Ok(value) => uuid_parse(text@) == Ok::<u128, Seq<char>>(value),
            Err(message) => uuid_parse(text@) == Err::<u128, Seq<char>>(message@),
        },
{
    match uuid::Uuid::parse_str(text) {
        Ok(id) => Ok(id.as_u128()),
        Err(e) => Err(e.to_string()),
    }
}

/// The lowest `digits` hexadecimal digits of a value, the highest of them
/// first, in lower case.
pub open spec fn hex_digits(value: nat, digits: nat) -> Seq<char>
    decreases digits,
{
    if digits == 0 {
        Seq::empty()
    } else {
        hex_digits(value / 16, (digits - 1) as nat).push(hex_digit((value % 16) as int))
    }
}

/// The text of an identifier: its 32 hexadecimal digits in lower case, in
/// groups of 8, 4, 4, 4 and 12 with hyphens between them.
pub open spec fn uuid_hyphenated(value: u128) -> Seq<char> {
    let digits = hex_digits(value as nat, 32);
    digits.subrange(0, 8) + seq!['-'] + digits.subrange(8, 12) + seq!['-'] + digits.subrange(
        12,
        16,
    ) + seq!['-'] + digits.subrange(16, 20) + seq!['-'] + digits.subrange(20, 32)
}

/// `hex_digits` gives as many digits as it is asked for.
pub proof fn lemma_hex_digits_len(value: nat, digits: nat)
    ensures
        hex_digits(value, digits).len() == digits,
    decreases digits,
{
    if digits > 0 {
        lemma_hex_digits_len(value / 16, (digits - 1) as nat);
    }
}

/// Appends the lowest `digits` hexadecimal digits of a value.
pub fn push_hex(out: &mut Vec<char>, value: u128, digits: u8)
    ensures
        final(out)@ == old(out)@ + hex_digits(value as nat, digits as nat),
    decreases digits,
{
    if digits > 0 {
        push_hex(out, value / 16, digits - 1);
        out.push(hex_char((value % 16) as u8));
    }
    assert(out@ =~= old(out)@ + hex_digits(value as nat, digits as nat));
}

/// Appends the characters of `digits` from `from` up to `to`.
fn push_group(out: &mut Vec<char>, digits: &Vec<char>, from: usize, to: usize)
    requires
        from <= to <= digits.len(),
    ensures
        final(out)@ == old(out)@ + digits@.subrange(from as int, to as int),
{
    let mut i: usize = from;
    assert(out@ =~= old(out)@ + digits@.subrange(from as int, from as int));
    while i < to
        invariant
            from <= i <= to <= digits.len(),
            out@ == old(out)@ + digits@.subrange(from as int, i as int),
        decreases to - i,
    {
        out.push(digits[i]);
        assert(out@ =~= old(out)@ + digits@.subrange(from as int, i + 1));
        i += 1;
    }
}

/// Spells an identifier in its hyphenated form.
pub fn uuid_text(value: u128) -> (r: String)
    ensures
        r@ == uuid_hyphenated(value),
{
    let mut digits: Vec<char> = Vec::new();
    push_hex(&mut digits, value, 32);
    proof {
        lemma_hex_digits_len(value as nat, 32);
        assert(digits@ =~= hex_digits(value as nat, 32));
    }
    let mut out: Vec<char> = Vec::new();
    push_group(&mut out, &digits, 0, 8);
    out.push('-');
    push_group(&mut out, &digits, 8, 12);
    out.push('-');
    push_group(&mut out, &digits, 12, 16);
    out.push('-');
    push_group(&mut out, &digits, 16, 20);
    out.push('-');
    push_group(&mut out, &digits, 20, 32);
    assert(out@ =~= uuid_hyphenated(value));
    string_of(&out)
}

} // verus!
