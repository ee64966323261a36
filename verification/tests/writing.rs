//! The text of an address.

use dmx_struct::{DMXAddress, DMXParseError};

#[test]
fn channel_is_written_in_three_digits() {
    assert_eq!(DMXAddress { universe: 1, address: 9, absolute: 9 }.to_string(), "1.009");
    assert_eq!(DMXAddress { universe: 1, address: 342, absolute: 342 }.to_string(), "1.342");
    assert_eq!(DMXAddress { universe: 4, address: 465, absolute: 2001 }.to_string(), "4.465");
    assert_eq!(DMXAddress { universe: 1, address: 10, absolute: 10 }.to_string(), "1.010");
    assert_eq!(DMXAddress { universe: 1, address: 99, absolute: 99 }.to_string(), "1.099");
    assert_eq!(DMXAddress { universe: 1, address: 100, absolute: 100 }.to_string(), "1.100");
    assert_eq!(DMXAddress { universe: 1, address: 512, absolute: 512 }.to_string(), "1.512");
}

#[test]
fn universe_is_written_as_it_is() {
    assert_eq!(DMXAddress { universe: 10, address: 1, absolute: 4609 }.to_string(), "10.001");
    assert_eq!(DMXAddress { universe: 256, address: 512, absolute: 131072 }.to_string(), "256.512");
    assert_eq!(
        DMXAddress { universe: 63999, address: 512, absolute: 32767488 }.to_string(),
        "63999.512"
    );
}

#[test]
fn absolute_is_not_written() {
    assert_eq!(DMXAddress { universe: 2, address: 1, absolute: 0 }.to_string(), "2.001");
    assert_eq!(DMXAddress { universe: 2, address: 1, absolute: u32::MAX }.to_string(), "2.001");
}

#[test]
fn fields_out_of_range_are_written_too() {
    assert_eq!(DMXAddress { universe: 0, address: 0, absolute: 0 }.to_string(), "0.000");
    assert_eq!(
        DMXAddress { universe: 65535, address: 1000, absolute: 0 }.to_string(),
        "65535.1000"
    );
    assert_eq!(
        DMXAddress { universe: u16::MAX, address: u16::MAX, absolute: 0 }.to_string(),
        "65535.65535"
    );
}

#[test]
fn text_is_what_std_formats() {
    let channels: [u16; 14] = [0, 1, 9, 10, 11, 99, 100, 101, 512, 999, 1000, 9999, 10000, 65535];
    let mut universe: u32 = 0;
    while universe <= 65535 {
        for channel in channels {
            let a = DMXAddress { universe: universe as u16, address: channel, absolute: 0 };
            assert_eq!(a.to_string(), format!("{}.{:03}", universe, channel));
        }
        universe += 13;
    }
}

#[test]
fn error_has_one_message() {
    assert_eq!(DMXParseError.to_string(), "something went terribly wrong");
    let e = DMXParseError {};
    assert_eq!(e.to_string(), "something went terribly wrong");
}
