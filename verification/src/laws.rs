//! What holds of reading and writing addresses, for every address and every
//! text.

use crate::address::{
    lemma_parse_dotted, DMXAddress, MAX_ABSOLUTE, MAX_UNIVERSE, UNIVERSE_SIZE,
};
use crate::decimal::{
    all_digits, decimal, decimal_padded, digits_value, is_digit, lemma_decimal_denotes,
    lemma_parse_decimal_padded,
};
use crate::error::DMXParseError;
use vstd::prelude::*;
use vstd::std_specs::cmp::PartialEqSpec;

verus! {

/// Digits hold no `.`.
proof fn lemma_digits_have_no_dot(s: Seq<char>)
    requires
        all_digits(s),
    ensures
        !s.contains('.'),
{
    if s.contains('.') {
        let i = choose|i: int| 0 <= i < s.len() && s[i] == '.';
        assert(is_digit(s[i]));
    }
}

/// Reading the text of a valid address gives that address back.
pub proof fn lemma_parse_of_format(a: DMXAddress)
    requires
        a.is_valid(),
    ensures
        DMXAddress::parse_spec(a.format_spec()) == Ok::<DMXAddress, DMXParseError>(a),
{
    let universe = decimal(a.universe as nat);
    let address = decimal_padded(a.address as nat, 3);
    lemma_decimal_denotes(a.universe as nat);
    lemma_digits_have_no_dot(universe);
    lemma_parse_decimal_padded(a.universe as nat, 0);
    lemma_parse_decimal_padded(a.address as nat, 3);
    lemma_parse_dotted(universe, address);
}

/// Reading the absolute address of a valid address, written as a number,
/// gives that address back.
pub proof fn lemma_parse_of_absolute(a: DMXAddress)
    requires
        a.is_valid(),
    ensures
        DMXAddress::parse_spec(decimal(a.absolute as nat)) == Ok::<DMXAddress, DMXParseError>(a),
{
    let text = decimal(a.absolute as nat);
    lemma_decimal_denotes(a.absolute as nat);
    lemma_digits_have_no_dot(text);
    lemma_parse_decimal_padded(a.absolute as nat, 0);
}

/// Every address that a text denotes is valid: universe and channel are in
/// range, and the absolute address is the channel plus 512 for each universe
/// before its own.
pub proof fn lemma_parsed_is_valid(text: Seq<char>)
    ensures
        DMXAddress::parse_spec(text) matches Ok(a) ==> a.is_valid(),
        DMXAddress::parse_spec(text) matches Ok(a) ==> a.absolute == a.address + (a.universe - 1)
            * 512,
        DMXAddress::parse_spec(text) matches Ok(a) ==> 1 <= a.absolute <= MAX_ABSOLUTE,
{
}

/// The two ways of naming a channel agree: the address made from a universe
/// and a channel is the address made from its absolute address, and the
/// other way round.
pub proof fn lemma_forms_agree(a: DMXAddress)
    requires
        a.is_valid(),
    ensures
        DMXAddress::dotted_spec(a.universe as nat, a.address as nat) == Ok::<
            DMXAddress,
            DMXParseError,
        >(a),
        DMXAddress::absolute_spec(a.absolute as nat) == Ok::<DMXAddress, DMXParseError>(a),
{
}

/// A number beyond the last channel is no absolute address, however many
/// digits it has.
pub proof fn lemma_oversized_absolute_is_rejected(text: Seq<char>)
    requires
        all_digits(text),
        digits_value(text) > MAX_ABSOLUTE,
    ensures
        DMXAddress::parse_spec(text) is Err,
{
    lemma_digits_have_no_dot(text);
    if text.len() > 0 {
        assert(is_digit(text[0]));
    }
}

/// A universe beyond the highest one, or a channel beyond the last of a
/// universe, is rejected, however many digits it has.
pub proof fn lemma_oversized_part_is_rejected(universe: Seq<char>, address: Seq<char>)
    requires
        all_digits(universe),
        all_digits(address),
        digits_value(universe) > MAX_UNIVERSE || digits_value(address) > UNIVERSE_SIZE,
    ensures
        DMXAddress::parse_spec(universe.push('.') + address) is Err,
{
    lemma_digits_have_no_dot(universe);
    lemma_parse_dotted(universe, address);
    if universe.len() > 0 {
        assert(is_digit(universe[0]));
    }
    if address.len() > 0 {
        assert(is_digit(address[0]));
    }
}

/// The absolute form, told by division: the channel is what is left of the
/// absolute address after taking out whole universes, the universe is the
/// number of whole universes and one more. Where nothing is left, the
/// channel is the last of its universe, 512, and the universe is the number
/// of whole universes itself.
pub proof fn lemma_absolute_by_remainder(absolute: nat)
    ensures
        DMXAddress::absolute_spec(absolute) is Ok <==> 1 <= absolute <= MAX_ABSOLUTE,
        DMXAddress::absolute_spec(absolute) matches Ok(a) ==> (absolute % 512 != 0 ==> a.address
            == absolute % 512 && a.universe == absolute / 512 + 1),
        DMXAddress::absolute_spec(absolute) matches Ok(a) ==> (absolute % 512 == 0 ==> a.address
            == 512 && a.universe == absolute / 512),
{
}

/// `==` on addresses compares the three fields: two addresses are equal
/// exactly when they are the same value.
pub proof fn lemma_equality_is_fieldwise(a: DMXAddress, b: DMXAddress)
    ensures
        a.eq_spec(&b) <==> a == b,
        a.eq_spec(&b) <==> (a.universe == b.universe && a.address == b.address && a.absolute
            == b.absolute),
{
}

} // verus!
