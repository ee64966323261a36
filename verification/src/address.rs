//! The address of one DMX512 channel.
//!
//! A channel is named either by its universe and its place in that universe,
//! written `universe.channel`, or by one number that counts the channels
//! through all universes. Both count from 1.

use crate::decimal::{
    append_decimal, append_decimal_padded, decimal, decimal_padded, is_numeral,
    lemma_numeral_chars, parse_u32, parse_u32_spec,
};
use crate::error::DMXParseError;
use crate::text::split_once;
use vstd::prelude::*;

verus! {

/// The number of channels in one universe.
pub const UNIVERSE_SIZE: u32 = 512;

/// The highest universe, which is the highest that sACN can carry.
pub const MAX_UNIVERSE: u32 = 63_999;

/// The absolute address of the last channel of the highest universe.
pub const MAX_ABSOLUTE: u32 = 32_767_488;

/// The address of a DMX channel, by universe and as one absolute number.
#[derive(Debug, Clone, Copy)]
pub struct DMXAddress {
    /// The universe, starting from 1.
    pub universe: u16,
    /// The place of the channel in its universe (1 to 512).
    pub address: u16,
    /// The place of the channel among the channels of all universes
    /// (1 to 32767488).
    pub absolute: u32,
}

impl DMXAddress {
    /// Whether the three fields name one channel that exists: universe and
    /// channel are in range, and the absolute address is the one that belongs
    /// to them.
    pub open spec fn is_valid(&self) -> bool {
        &&& 1 <= self.universe <= MAX_UNIVERSE
        &&& 1 <= self.address <= UNIVERSE_SIZE
        &&& self.absolute == self.address + (self.universe - 1) * UNIVERSE_SIZE
    }

    /// The address of channel `address` of universe `universe`, if there is
    /// such a channel.
    pub open spec fn dotted_spec(universe: nat, address: nat) -> Result<DMXAddress, DMXParseError> {
        if 1 <= universe <= MAX_UNIVERSE && 1 <= address <= UNIVERSE_SIZE {
            Ok(
                DMXAddress {
                    universe: universe as u16,
                    address: address as u16,
                    absolute: (address + (universe - 1) * UNIVERSE_SIZE) as u32,
                },
            )
        } else {
            Err(DMXParseError)
        }
    }

    /// The address of the channel that is the `absolute`-th of all, if there
    /// is such a channel. Channel 512 of a universe is its last one: the
    /// absolute address 512 is `1.512`, and 513 is `2.001`.
    pub open spec fn absolute_spec(absolute: nat) -> Result<DMXAddress, DMXParseError> {
        if 1 <= absolute <= MAX_ABSOLUTE {
            Ok(
                DMXAddress {
                    universe: ((absolute - 1) / (UNIVERSE_SIZE as int) + 1) as u16,
                    address: ((absolute - 1) % (UNIVERSE_SIZE as int) + 1) as u16,
                    absolute: absolute as u32,
                },
            )
        } else {
            Err(DMXParseError)
        }
    }

    /// The address that `universe.channel` denotes, `universe` and `address`
    /// being what stands on either side of the `.`: both are numerals, for a
    /// universe and a channel that exist.
    pub open spec fn dotted_form_spec(universe: Seq<char>, address: Seq<char>) -> Result<
        DMXAddress,
        DMXParseError,
    > {
        match (parse_u32_spec(universe), parse_u32_spec(address)) {
            (Some(universe), Some(address)) => Self::dotted_spec(universe as nat, address as nat),
            _ => Err(DMXParseError),
        }
    }

    /// The address that `text` denotes as an absolute address: it is a
    /// numeral, for a channel that exists.
    pub open spec fn absolute_form_spec(text: Seq<char>) -> Result<DMXAddress, DMXParseError> {
        match parse_u32_spec(text) {
            Some(absolute) => Self::absolute_spec(absolute as nat),
            None => Err(DMXParseError),
        }
    }

    /// The address that `text` denotes.
    ///
    /// A text with a `.` is read as `universe.channel`, and it has to hold
    /// exactly one `.`. A text without a `.` is read as an absolute address.
    /// Everything that is neither is an error.
    pub open spec fn parse_spec(text: Seq<char>) -> Result<DMXAddress, DMXParseError> {
        if text.contains('.') {
            let dot = text.index_of('.');
            let before = text.take(dot);
            let after = text.skip(dot + 1);
            if before.contains('.') || after.contains('.') {
                Err(DMXParseError)
            } else {
                Self::dotted_form_spec(before, after)
            }
        } else {
            Self::absolute_form_spec(text)
        }
    }

    /// The text of the address: the universe as it is, a `.`, and the channel
    /// in at least three digits.
    pub open spec fn format_spec(&self) -> Seq<char> {
        decimal(self.universe as nat).push('.') + decimal_padded(self.address as nat, 3)
    }

    /// Makes the address of channel `address` of universe `universe`.
    ///
    /// Fails unless the universe is between 1 and 63999 and the channel
    /// between 1 and 512.
    pub fn from_universe_and_address(universe: u32, address: u32) -> (r: Result<
        DMXAddress,
        DMXParseError,
    >)
        ensures
            r == Self::dotted_spec(universe as nat, address as nat),
            r matches Ok(a) ==> a.is_valid(),
    {
        if universe == 0 || universe > MAX_UNIVERSE || address == 0 || address > UNIVERSE_SIZE {
            return Err(DMXParseError);
        }
        let absolute: u32 = address + (universe - 1) * UNIVERSE_SIZE;
        Ok(DMXAddress { universe: universe as u16, address: address as u16, absolute })
    }

    /// Makes the address of the channel that is the `absolute`-th of all.
    ///
    /// Fails unless `absolute` is between 1 and 32767488.
    pub fn from_absolute(absolute: u32) -> (r: Result<DMXAddress, DMXParseError>)
        ensures
            r == Self::absolute_spec(absolute as nat),
            r matches Ok(a) ==> a.is_valid(),
    {
        let rest: u32 = absolute % UNIVERSE_SIZE;
        // The last channel of a universe leaves no rest: it is channel 512
        // of the universe that the division gives, not channel 0 of the next.
        let (universe, address): (u32, u32) = if rest > 0 {
            (absolute / UNIVERSE_SIZE + 1, rest)
        } else {
            (absolute / UNIVERSE_SIZE, UNIVERSE_SIZE)
        };
        if universe == 0 || universe > MAX_UNIVERSE {
            return Err(DMXParseError);
        }
        Ok(DMXAddress { universe: universe as u16, address: address as u16, absolute })
    }

    /// Writes the address as `universe.channel`, the channel in three digits:
    /// `1.009`, `4.465`.
    pub fn to_string(&self) -> (text: String)
        ensures
            text@ == self.format_spec(),
    {
        let mut text = String::new();
        append_decimal(&mut text, self.universe as u32);
        proof {
            reveal_strlit(".");
        }
        text.append(".");
        append_decimal_padded(&mut text, self.address as u32, 3);
        assert(text@ =~= self.format_spec());
        text
    }
}

/// A numeral holds no `.`.
proof fn lemma_numeral_has_no_dot(text: Seq<char>)
    requires
        is_numeral(text),
    ensures
        !text.contains('.'),
{
    if text.contains('.') {
        let i = choose|i: int| 0 <= i < text.len() && text[i] == '.';
        lemma_numeral_chars(text, i);
    }
}

/// A text with a `.` is read by what stands before its first `.` and what
/// stands after it. Where the text holds a second `.`, the part after the
/// first one is no numeral, and the text no address.
pub proof fn lemma_parse_dotted(before: Seq<char>, after: Seq<char>)
    requires
        !before.contains('.'),
    ensures
        DMXAddress::parse_spec(before.push('.') + after) == DMXAddress::dotted_form_spec(
            before,
            after,
        ),
{
    let text = before.push('.') + after;
    let at = before.len() as int;
    assert(text[at] == '.');
    let dot = text.index_of('.');
    if dot < at {
        assert(before[dot] == '.');
    } else if dot == at {
        assert(text.take(dot) =~= before);
        assert(text.skip(dot + 1) =~= after);
    } else {
        assert(text.take(dot)[at] == '.');
        assert(after[dot - at - 1] == '.');
    }
    if is_numeral(after) {
        lemma_numeral_has_no_dot(after);
    }
}

impl<'a> TryFrom<&'a str> for DMXAddress {
    type Error = DMXParseError;

    /// Reads an address from `universe.channel` or from an absolute address.
    ///
    /// `4.465` and `2001` both give universe 4, channel 465, absolute 2001.
    /// Each number is an optional `+` and digits; nothing may stand around
    /// it. The universe has to be between 1 and 63999, the channel between 1
    /// and 512, an absolute address between 1 and 32767488.
    fn try_from(value: &'a str) -> (r: Result<DMXAddress, DMXParseError>)
        ensures
            r == Self::parse_spec(value@),
            r matches Ok(a) ==> a.is_valid(),
    {
        match split_once(value, '.') {
            Some((before, after)) => {
                proof {
                    lemma_parse_dotted(before@, after@);
                }
                let universe = match parse_u32(before) {
                    Some(universe) => universe,
                    None => { return Err(DMXParseError); },
                };
                let address = match parse_u32(after) {
                    Some(address) => address,
                    None => { return Err(DMXParseError); },
                };
                Self::from_universe_and_address(universe, address)
            },
            None => match parse_u32(value) {
                Some(absolute) => Self::from_absolute(absolute),
                None => Err(DMXParseError),
            },
        }
    }
}

impl<'a> vstd::std_specs::convert::TryFromSpecImpl<&'a str> for DMXAddress {
    open spec fn obeys_try_from_spec() -> bool {
        true
    }

    open spec fn try_from_spec(value: &'a str) -> Result<DMXAddress, DMXParseError> {
        Self::parse_spec(value@)
    }
}

impl PartialEq for DMXAddress {
    /// Two addresses are equal when all three fields are.
    fn eq(&self, other: &Self) -> (equal: bool) {
        self.universe == other.universe && self.address == other.address && self.absolute
            == other.absolute
    }
}

impl vstd::std_specs::cmp::PartialEqSpecImpl for DMXAddress {
    open spec fn obeys_eq_spec() -> bool {
        true
    }

    open spec fn eq_spec(&self, other: &Self) -> bool {
        &&& self.universe == other.universe
        &&& self.address == other.address
        &&& self.absolute == other.absolute
    }
}

impl Eq for DMXAddress {

}

} // verus!
