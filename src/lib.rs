//! Device-mode core of a USB OTG controller driver: endpoint number
//! allocation, FIFO partitioning and the interrupt poll state machine.

pub mod mask;
pub mod usb;
pub mod allocator;
pub mod endpoint;
pub mod bus;
