//! Endpoint addresses.
use vstd::prelude::*;

verus! {

/// Direction of USB traffic, from the perspective of the host.
#[derive(Copy, Clone, PartialEq, Eq, Structural, Debug)]
pub enum Direction {
    /// Host to device.
    Out,
    /// Device to host.
    In,
}

/// An endpoint address: the endpoint's number, and the direction in the highest bit.
#[derive(Copy, Clone, PartialEq, Eq, Structural, Debug)]
pub struct EndpointAddress {
    pub raw: u8,
}

/// `embassy_usb::driver::EndpointAddress::index`: the address without its highest bit.
#[verifier::external_body]
fn address_index(raw: u8) -> (index: usize)
    ensures
        index == raw & 0x7fu8,
{
    embassy_usb::driver::EndpointAddress::from(raw).index()
}

/// `embassy_usb::driver::EndpointAddress::is_in`: whether the address has its highest bit
/// set.
#[verifier::external_body]
fn address_is_in(raw: u8) -> (is_in: bool)
    ensures
        is_in == (raw & 0x80u8 != 0),
{
    embassy_usb::driver::EndpointAddress::from(raw).is_in()
}

/// `embassy_usb::driver::EndpointAddress::from_parts`: the low eight bits of the index,
/// with the highest bit set as well for the direction IN.
#[verifier::external_body]
fn address_from_parts(index: usize, direction: Direction) -> (raw: u8)
    ensures
        raw == #[verifier::truncate] (index as u8) | (if direction == Direction::In {
            0x80u8
        } else {
            0u8
        }),
{
    let direction = match direction {
        Direction::Out => embassy_usb::driver::Direction::Out,
        Direction::In => embassy_usb::driver::Direction::In,
    };
    u8::from(embassy_usb::driver::EndpointAddress::from_parts(index, direction))
}

impl EndpointAddress {
    /// The endpoint's number.
    pub open spec fn number(self) -> int {
        self.raw as int % 128
    }

    /// Whether the endpoint sends to the host.
    pub open spec fn inward(self) -> bool {
        self.raw >= 128
    }

    /// The address of endpoint `index` in the given direction.
    pub fn from_parts(index: usize, direction: Direction) -> (address: EndpointAddress)
        ensures
            address.number() == index % 128,
            address.inward() == (direction == Direction::In || index % 256 >= 128),
    {
        let raw: u8 = address_from_parts(index, direction);
        proof {
            let low = #[verifier::truncate] (index as u8);
            assert(low == index % 256 && index % 256 % 128 == index % 128) by (bit_vector)
                requires
                    low == index as u8,
            ;
            assert(low | 0x80u8 >= 128 && (low | 0x80u8) % 128 == low % 128 && low | 0u8 == low)
                by (bit_vector);
        }
        EndpointAddress { raw }
    }

    /// The endpoint's number.
    pub fn index(&self) -> (index: usize)
        ensures
            index == self.number(),
    {
        let raw: u8 = self.raw;
        assert(raw & 0x7fu8 == raw % 128) by (bit_vector);
        address_index(raw)
    }

    /// Whether the endpoint sends to the host.
    pub fn is_in(&self) -> (is_in: bool)
        ensures
            is_in == self.inward(),
    {
        let raw: u8 = self.raw;
        assert((raw & 0x80u8 != 0) == (raw >= 128)) by (bit_vector);
        address_is_in(raw)
    }
}

} // verus!
