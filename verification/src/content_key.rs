//! The keys under which file contents are kept.

use vstd::arithmetic::power::pow;
use vstd::prelude::*;

verus! {

use vstd::arithmetic::div_mod::{lemma_basic_div, lemma_div_denominator, lemma_fundamental_div_mod};
use vstd::arithmetic::power::{lemma_pow0, lemma_pow1, lemma_pow_adds, lemma_pow_positive};

/// Whether `key` has the version and the variant of a random UUID.
pub open spec fn is_random_key(key: u128) -> bool {
    &&& (key / 0x1000_0000_0000_0000_0000) % 16 == 4
    &&& (key / 0x4000_0000_0000_0000) % 4 == 2
}

/// `uuid::Uuid::new_v4`, then `as_u128`: a random UUID.  Which one is left to chance, and that no
/// two of them are the same is not stated.
#[verifier::external_body]
pub(crate) fn uuid_new_v4() -> (key: u128)
    ensures
        is_random_key(key),
{
    uuid::Uuid::new_v4().as_u128()
}

/// A hexadecimal digit.
pub open spec fn hex_digit(value: int) -> char {
    if value < 10 {
        (48 + value) as char
    } else {
        (87 + value) as char
    }
}

/// The digit at `place` of `key` in base sixteen, where place 0 holds the units.
pub open spec fn hex_place(key: u128, place: nat) -> int {
    (key as int / pow(16, place)) % 16
}

/// How many hyphens stand before position `i` of a UUID's text.
pub open spec fn hyphens_before(i: int) -> int {
    if i <= 8 {
        0
    } else if i <= 13 {
        1
    } else if i <= 18 {
        2
    } else if i <= 23 {
        3
    } else {
        4
    }
}

/// The text of a UUID: its digits, most significant first, in groups of 8, 4, 4, 4 and 12.
pub open spec fn hyphenated(key: u128) -> Seq<char> {
    Seq::new(
        36,
        |i: int|
            if i == 8 || i == 13 || i == 18 || i == 23 {
                '-'
            } else {
                hex_digit(hex_place(key, (31 - (i - hyphens_before(i))) as nat))
            },
    )
}

/// `uuid::Uuid::from_u128`, then its `Display`: the text of the UUID, in lower case and with
/// hyphens.
#[verifier::external_body]
pub(crate) fn uuid_to_string(key: u128) -> (text: String)
    ensures
        text@ == hyphenated(key),
{
    uuid::Uuid::from_u128(key).to_string()
}

/// A hexadecimal digit tells its value.
proof fn lemma_hex_digit_injective(a: int, b: int)
    requires
        0 <= a < 16,
        0 <= b < 16,
        hex_digit(a) == hex_digit(b),
    ensures
        a == b,
{
}

/// Two keys that agree in their digits from `place` on agree in what those digits stand for.
proof fn lemma_same_places(a: u128, b: u128, place: nat)
    requires
        place <= 32,
        forall|p: nat| place <= p < 32 ==> #[trigger] hex_place(a, p) == hex_place(b, p),
    ensures
        a as int / pow(16, place) == b as int / pow(16, place),
    decreases 32 - place,
{
    let unit = pow(16, place);
    lemma_pow_positive(16, place);
    if place == 32 {
        assert(pow(16, 32) == 0x1_0000_0000_0000_0000_0000_0000_0000_0000) by {
            reveal_with_fuel(pow, 33);
        }
        lemma_basic_div(a as int, unit);
        lemma_basic_div(b as int, unit);
    } else {
        lemma_same_places(a, b, place + 1);
        lemma_pow_adds(16, place, 1);
        lemma_pow1(16);
        lemma_div_denominator(a as int, unit, 16);
        lemma_div_denominator(b as int, unit, 16);
        lemma_fundamental_div_mod(a as int / unit, 16);
        lemma_fundamental_div_mod(b as int / unit, 16);
        assert(hex_place(a, place) == hex_place(b, place));
    }
}

/// Different keys have different texts.
pub proof fn law_key_text_injective(a: u128, b: u128)
    requires
        hyphenated(a) == hyphenated(b),
    ensures
        a == b,
{
    assert forall|p: nat| 0 <= p < 32 implies #[trigger] hex_place(a, p) == hex_place(b, p) by {
        let d = 31 - p;
        let i = if d < 8 {
            d
        } else if d < 12 {
            d + 1
        } else if d < 16 {
            d + 2
        } else if d < 20 {
            d + 3
        } else {
            d + 4
        };
        assert((31 - (i - hyphens_before(i))) as nat == p);
        assert(hyphenated(a)[i] == hex_digit(hex_place(a, p)));
        assert(hyphenated(b)[i] == hex_digit(hex_place(b, p)));
        lemma_hex_digit_injective(hex_place(a, p), hex_place(b, p));
    }
    lemma_same_places(a, b, 0);
    lemma_pow0(16);
}

} // verus!
