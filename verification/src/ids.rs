//! 128-bit identifiers and their textual form.
//!
//! Items, principals and session tokens are all named by 128-bit identifiers,
//! held as `u128` values. Their text form is the hyphenated lower-case
//! hexadecimal notation `xxxxxxxx-xxxx-xxxx-xxxx-xxxxxxxxxxxx`.
use vstd::prelude::*;

verus! {

/// The lower-case hexadecimal digit for a value between 0 and 15.
pub open spec fn hex_char(value: int) -> char {
    seq!['0', '1', '2', '3', '4', '5', '6', '7', '8', '9', 'a', 'b', 'c', 'd', 'e', 'f'][value]
}

/// The `k`-th hexadecimal digit of `id`, counted from the most significant one.
pub open spec fn hex_digit(id: u128, k: int) -> int {
    ((id as int) / vstd::arithmetic::power::pow(16, (31 - k) as nat)) % 16
}

/// The 32 hexadecimal digits of `id`, most significant first.
pub open spec fn hex_digits(id: u128) -> Seq<char> {
    Seq::new(32, |k: int| hex_char(hex_digit(id, k)))
}

/// The hyphenated text form of `id`: its 32 digits in groups of 8, 4, 4, 4 and 12.
pub open spec fn hyphenated(id: u128) -> Seq<char> {
    let digits = hex_digits(id);
    digits.subrange(0, 8) + seq!['-'] + digits.subrange(8, 12) + seq!['-'] + digits.subrange(
        12,
        16,
    ) + seq!['-'] + digits.subrange(16, 20) + seq!['-'] + digits.subrange(20, 32)
}

/// Whether `c` is a lower-case hexadecimal digit.
pub open spec fn is_hex_char(c: char) -> bool {
    ('0' <= c && c <= '9') || ('a' <= c && c <= 'f')
}

/// The text form is 36 characters long: hyphens at the places 8, 13, 18
/// and 23, and lower-case hexadecimal digits everywhere else.
pub proof fn law_text_form(id: u128)
    ensures
        hyphenated(id).len() == 36,
        forall|i: int|
            0 <= i < 36 ==> ((#[trigger] hyphenated(id)[i]) == '-' <==> (i == 8 || i == 13 || i
                == 18 || i == 23)),
        forall|i: int|
            0 <= i < 36 && i != 8 && i != 13 && i != 18 && i != 23 ==> is_hex_char(
                #[trigger] hyphenated(id)[i],
            ),
{
    let digits = hex_digits(id);
    assert forall|k: int| 0 <= k < 32 implies is_hex_char(#[trigger] digits[k]) && digits[k]
        != '-' by {
        let value = hex_digit(id, k);
        assert(0 <= value < 16);
    }
    assert forall|i: int| 0 <= i < 36 && i != 8 && i != 13 && i != 18 && i != 23 implies is_hex_char(
        #[trigger] hyphenated(id)[i],
    ) && hyphenated(id)[i] != '-' by {
        let k = if i < 8 {
            i
        } else if i < 13 {
            i - 1
        } else if i < 18 {
            i - 2
        } else if i < 23 {
            i - 3
        } else {
            i - 4
        };
        assert(hyphenated(id)[i] == digits[k]);
    }
    assert(hyphenated(id)[8] == '-');
    assert(hyphenated(id)[13] == '-');
    assert(hyphenated(id)[18] == '-');
    assert(hyphenated(id)[23] == '-');
}

/// Whether `id` carries the version and variant marks of a randomly generated identifier.
pub open spec fn is_random_id(id: u128) -> bool {
    &&& ((id as int) / 0x1000_0000_0000_0000_0000) % 16 == 4
    &&& ((id as int) / 0x4000_0000_0000_0000) % 4 == 2
}

/// Whether a text has one of the lengths of the notations of an
/// identifier: 32 characters without hyphens, 36 with them, 45 as a URN.
pub open spec fn has_id_length(text: Seq<char>) -> bool {
    text.len() == 32 || text.len() == 36 || text.len() == 45
}

/// What `uuid::Uuid::parse_str` makes of a text: the identifier it denotes, if any.
pub uninterp spec fn parsed_uuid(text: Seq<char>) -> Option<u128>;

/// Draws a new identifier with `uuid::Uuid::new_v4`.
///
/// The value is random; all that is claimed is that it carries the marks of
/// a version 4, RFC 4122 identifier, which the generator sets on every value.
#[verifier::external_body]
pub(crate) fn fresh_id() -> (id: u128)
    ensures
        is_random_id(id),
{
    uuid::Uuid::new_v4().as_u128()
}

/// Reads an identifier with `uuid::Uuid::parse_str`.
///
/// The parser accepts the hyphenated, the simple and the URN notation, in
/// either case of the digits. The contract names what it answers, which
/// depends on the text alone, and adds the one fact that the parser checks
/// before it reads a digit: a text that it accepts is 32, 36 or 45
/// characters long.
#[verifier::external_body]
pub(crate) fn parse_id(text: &str) -> (id: Option<u128>)
    ensures
        id == parsed_uuid(text@),
        id is Some ==> has_id_length(text@),
{
    match uuid::Uuid::parse_str(text) {
        Ok(id) => Some(id.as_u128()),
        Err(_) => None,
    }
}

/// Writes an identifier with `uuid::Uuid::to_hyphenated`.
///
/// The claim is that the text is the lower-case hyphenated notation of the
/// big-endian value, and that the parser reads that notation back.
#[verifier::external_body]
pub(crate) fn format_id(id: u128) -> (text: String)
    ensures
        text@ == hyphenated(id),
        parsed_uuid(text@) == Some(id),
{
    uuid::Uuid::from_u128(id).to_hyphenated().to_string()
}

} // verus!
