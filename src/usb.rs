//! Declarations of the `usb_device` items this crate calls.
use vstd::prelude::*;
use usb_device::endpoint::EndpointAddress;
use usb_device::UsbDirection;

verus! {

#[verifier::external_type_specification]
#[verifier::external_body]
pub struct ExEndpointAddress(usb_device::endpoint::EndpointAddress);

#[verifier::external_type_specification]
#[verifier::external_body]
pub struct ExEndpointType(usb_device::endpoint::EndpointType);

#[verifier::external_type_specification]
pub struct ExUsbDirection(usb_device::UsbDirection);

/// What `EndpointAddress::index` returns for an address.
pub uninterp spec fn address_index(a: EndpointAddress) -> nat;

/// What `EndpointAddress::is_in` returns for an address.
pub uninterp spec fn address_is_in(a: EndpointAddress) -> bool;

/// Relies on `EndpointAddress::index`: the endpoint number part of the address.
pub assume_specification[ usb_device::endpoint::EndpointAddress::index ](a: &EndpointAddress) -> (r: usize)
    ensures
        r as nat == address_index(*a),
;

/// Relies on `EndpointAddress::is_in`: whether the direction bit is IN.
pub assume_specification[ usb_device::endpoint::EndpointAddress::is_in ](a: &EndpointAddress) -> (r: bool)
    ensures
        r == address_is_in(*a),
;

/// Relies on `EndpointAddress::from_parts`, which ORs the number with the
/// direction bit (0x80 for IN, 0 for OUT); for numbers below 0x80 the index
/// reads back as the number and the direction as given.
#[verifier::external_body]
pub(crate) fn address_from_parts(number: u8, direction: UsbDirection) -> (r: EndpointAddress)
    requires
        number < 0x80,
    ensures
        address_index(r) == number as nat,
        address_is_in(r) == (direction == UsbDirection::In),
{
    EndpointAddress::from_parts(number as usize, direction)
}

} // verus!
