use otg_bus::allocator::{EndpointAllocator, EndpointConfig, UsbError};
use usb_device::endpoint::EndpointType;
use usb_device::UsbDirection;

fn config(number: Option<u8>) -> EndpointConfig {
    EndpointConfig {
        number,
        ep_type: EndpointType::Bulk,
        max_packet_size: 64,
        interval: 0,
    }
}

#[test]
fn ep0_then_any_then_overflow() {
    let mut a = EndpointAllocator::new();
    let d = a.alloc_in(&config(Some(0))).ok().unwrap();
    assert_eq!(d.address.index(), 0);
    assert_eq!(d.address.direction(), UsbDirection::In);
    let d = a.alloc_out(&config(Some(0))).ok().unwrap();
    assert_eq!(d.address.index(), 0);
    assert_eq!(d.address.direction(), UsbDirection::Out);
    let d = a.alloc_in(&config(None)).ok().unwrap();
    assert_eq!(d.address.index(), 1);
    assert_eq!(a.alloc_in(&config(None)).ok().unwrap().address.index(), 2);
    assert_eq!(a.alloc_in(&config(None)).ok().unwrap().address.index(), 3);
    assert_eq!(a.alloc_in(&config(None)).err(), Some(UsbError::EndpointOverflow));
}

#[test]
fn any_free_never_gives_zero() {
    let mut a = EndpointAllocator::new();
    let d = a.alloc_out(&config(None)).ok().unwrap();
    assert_eq!(d.address.index(), 1);
    assert!(!a.is_out_taken(0));
    assert!(a.is_out_taken(1));
    assert!(!a.is_in_taken(1));
}

#[test]
fn taken_number_is_invalid() {
    let mut a = EndpointAllocator::new();
    assert!(a.alloc_in(&config(Some(2))).is_ok());
    assert_eq!(a.alloc_in(&config(Some(2))).err(), Some(UsbError::InvalidEndpoint));
    assert!(a.alloc_out(&config(Some(2))).is_ok());
    assert_eq!(a.alloc_in(&config(None)).ok().unwrap().address.index(), 1);
    assert_eq!(a.alloc_in(&config(None)).ok().unwrap().address.index(), 3);
    assert_eq!(a.alloc_in(&config(None)).err(), Some(UsbError::EndpointOverflow));
}

#[test]
fn number_out_of_range_is_invalid() {
    let mut a = EndpointAllocator::new();
    assert_eq!(a.alloc_in(&config(Some(4))).err(), Some(UsbError::InvalidEndpoint));
    assert_eq!(a.alloc_out(&config(Some(7))).err(), Some(UsbError::InvalidEndpoint));
    assert!(!a.is_in_taken(4));
}

#[test]
fn descriptor_keeps_config() {
    let mut a = EndpointAllocator::new();
    let c = EndpointConfig {
        number: None,
        ep_type: EndpointType::Interrupt,
        max_packet_size: 8,
        interval: 10,
    };
    let d = a.alloc_in(&c).ok().unwrap();
    assert_eq!(d.ep_type, EndpointType::Interrupt);
    assert_eq!(d.max_packet_size, 8);
    assert_eq!(d.interval, 10);
}
