//! What holds of every address, on chosen ones.

use std::convert::TryFrom;

use dmx_struct::{DMXAddress, DMXParseError};

fn universes() -> Vec<u16> {
    let mut all: Vec<u16> = vec![1, 2, 9, 10, 99, 100, 999, 1000, 9999, 10000, 63998, 63999];
    let mut universe: u16 = 1;
    while universe < 63999 - 37 {
        all.push(universe);
        universe += 37;
    }
    all
}

const CHANNELS: [u16; 12] = [1, 2, 9, 10, 11, 99, 100, 101, 255, 256, 511, 512];

fn absolute_of(universe: u16, channel: u16) -> u32 {
    channel as u32 + (universe as u32 - 1) * 512
}

#[test]
fn reading_what_was_written_gives_the_address_back() {
    for universe in universes() {
        for channel in CHANNELS {
            let a = DMXAddress {
                universe,
                address: channel,
                absolute: absolute_of(universe, channel),
            };
            assert_eq!(DMXAddress::try_from(a.to_string().as_str()), Ok(a));
        }
    }
}

#[test]
fn reading_the_absolute_address_gives_the_address_back() {
    for universe in universes() {
        for channel in CHANNELS {
            let a = DMXAddress {
                universe,
                address: channel,
                absolute: absolute_of(universe, channel),
            };
            assert_eq!(DMXAddress::try_from(a.absolute.to_string().as_str()), Ok(a));
            assert_eq!(DMXAddress::from_absolute(a.absolute), Ok(a));
            assert_eq!(
                DMXAddress::from_universe_and_address(universe as u32, channel as u32),
                Ok(a)
            );
        }
    }
}

#[test]
fn round_trip_of_one_address() {
    let a = DMXAddress { universe: 4, address: 65, absolute: 1601 };
    assert_eq!(a.to_string(), "4.065");
    assert_eq!(DMXAddress::try_from("4.065"), Ok(a));
    assert_eq!(DMXAddress::try_from("1601"), Ok(a));
}

#[test]
fn absolute_belongs_to_universe_and_channel() {
    let texts = [
        "1", "512", "513", "1024", "1025", "2001", "131072", "32767488", "1.1", "1.512", "2.1",
        "4.465", "63999.512", "63999.1", "+7", "007.007", "100.100",
    ];
    for text in texts {
        let a = DMXAddress::try_from(text).unwrap();
        assert_eq!(a.absolute, a.address as u32 + (a.universe as u32 - 1) * 512, "{:?}", text);
        assert!(1 <= a.universe && a.universe <= 63999, "{:?}", text);
        assert!(1 <= a.address && a.address <= 512, "{:?}", text);
    }
    let mut absolute: u32 = 1;
    while absolute <= 32767488 {
        let a = DMXAddress::try_from(absolute.to_string().as_str()).unwrap();
        assert_eq!(a.absolute, absolute);
        assert_eq!(a.absolute, a.address as u32 + (a.universe as u32 - 1) * 512);
        assert!(1 <= a.address && a.address <= 512);
        absolute += 4099;
    }
}

#[test]
fn what_is_read_is_in_range_or_an_error() {
    let numbers = [
        "0", "1", "2", "511", "512", "513", "514", "63998", "63999", "64000", "65535", "65536",
    ];
    for universe in numbers {
        for channel in numbers {
            let text = format!("{}.{}", universe, channel);
            let u: u32 = universe.parse().unwrap();
            let c: u32 = channel.parse().unwrap();
            let expected = if 1 <= u && u <= 63999 && 1 <= c && c <= 512 {
                Ok(DMXAddress {
                    universe: u as u16,
                    address: c as u16,
                    absolute: c + (u - 1) * 512,
                })
            } else {
                Err(DMXParseError)
            };
            assert_eq!(DMXAddress::try_from(text.as_str()), expected, "{:?}", text);
        }
    }
}

#[test]
fn equal_fields_make_equal_addresses() {
    let a = DMXAddress { universe: 4, address: 465, absolute: 2001 };
    let b = DMXAddress { universe: 4, address: 465, absolute: 2001 };
    assert!(a == b);
    assert!(b == a);
    assert!(!(a != b));
    assert_eq!(a, b);
}

#[test]
fn one_different_field_makes_different_addresses() {
    let a = DMXAddress { universe: 4, address: 465, absolute: 2001 };
    assert!(a != DMXAddress { universe: 5, address: 465, absolute: 2001 });
    assert!(a != DMXAddress { universe: 4, address: 464, absolute: 2001 });
    assert!(a != DMXAddress { universe: 4, address: 465, absolute: 2002 });
    assert!(!(a == DMXAddress { universe: 5, address: 465, absolute: 2001 }));
    assert!(!(a == DMXAddress { universe: 4, address: 464, absolute: 2001 }));
    assert!(!(a == DMXAddress { universe: 4, address: 465, absolute: 2002 }));
    assert_ne!(a, DMXAddress { universe: 465, address: 4, absolute: 2001 });
}

#[test]
fn read_and_built_addresses_are_equal() {
    let read = DMXAddress::try_from("4.465").unwrap();
    let built = DMXAddress { universe: 4, address: 465, absolute: 2001 };
    assert_eq!(read, built);
    assert_eq!(DMXAddress::try_from("2001").unwrap(), built);
    let copy = read;
    assert_eq!(copy, read);
}

#[test]
fn errors_are_all_the_same() {
    let a = DMXAddress::try_from("nothing").unwrap_err();
    let b = DMXAddress::try_from("0.0").unwrap_err();
    let c = DMXAddress::try_from("99999999999999999999").unwrap_err();
    assert_eq!(a, b);
    assert_eq!(b, c);
    assert_eq!(a.to_string(), c.to_string());
}
