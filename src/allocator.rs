//! Assignment of hardware endpoint numbers (0 to 3) per direction, made
//! while the device's endpoint set is built and before any register access.
use vstd::prelude::*;
use usb_device::endpoint::{EndpointAddress, EndpointType};
use usb_device::UsbDirection;
use crate::mask::{has_bit8, set_bit8};
use crate::usb::{address_from_parts, address_index, address_is_in};

verus! {

/// Number of hardware endpoints in each direction.
pub const NUM_ENDPOINTS: u8 = 4;

/// Errors of endpoint allocation.
#[derive(Clone, Copy, Debug, PartialEq, Eq, Structural)]
pub enum UsbError {
    /// The requested endpoint number is taken, or outside 0 to 3.
    InvalidEndpoint,
    /// No endpoint number is left in the requested direction.
    EndpointOverflow,
}

/// What the device stack asks of one endpoint.
pub struct EndpointConfig {
    /// A specific endpoint number, or `None` for any free one.
    pub number: Option<u8>,
    pub ep_type: EndpointType,
    pub max_packet_size: u16,
    pub interval: u8,
}

/// An allocated endpoint.
pub struct EndpointDescriptor {
    pub address: EndpointAddress,
    pub ep_type: EndpointType,
    pub max_packet_size: u16,
    pub interval: u8,
}

/// Whether endpoint number `n` is taken in bitmap `b`.
pub open spec fn is_taken(b: u8, n: u8) -> bool {
    has_bit8(b, n)
}

/// The lowest free number among 1, 2 and 3; endpoint 0 is never handed out
/// unasked.
pub open spec fn first_free(b: u8) -> Option<u8> {
    if !is_taken(b, 1) {
        Some(1u8)
    } else if !is_taken(b, 2) {
        Some(2u8)
    } else if !is_taken(b, 3) {
        Some(3u8)
    } else {
        None
    }
}

/// One allocation on a bitmap: the bitmap after it and the outcome.
pub open spec fn alloc_step(b: u8, req: Option<u8>) -> (u8, Result<u8, UsbError>) {
    match req {
        Some(n) => {
            if n < NUM_ENDPOINTS && !is_taken(b, n) {
                (b | (1u8 << n), Ok(n))
            } else {
                (b, Err(UsbError::InvalidEndpoint))
            }
        },
        None => match first_free(b) {
            Some(n) => (b | (1u8 << n), Ok(n)),
            None => (b, Err(UsbError::EndpointOverflow)),
        },
    }
}

/// Outcomes of a sequence of allocations in one direction, from bitmap `b`.
pub open spec fn alloc_outcomes(b: u8, reqs: Seq<Option<u8>>) -> Seq<Result<u8, UsbError>>
    decreases reqs.len(),
{
    if reqs.len() == 0 {
        Seq::empty()
    } else {
        let (b1, r) = alloc_step(b, reqs[0]);
        seq![r] + alloc_outcomes(b1, reqs.subrange(1, reqs.len() as int))
    }
}

/// The two bitmaps of endpoint numbers in use, one per direction.
pub struct EndpointAllocator {
    endpoints_in: u8,
    endpoints_out: u8,
}

impl EndpointAllocator {
    /// Only numbers 0 to 3 are ever marked.
    pub closed spec fn wf(&self) -> bool {
        self.endpoints_in < 16 && self.endpoints_out < 16
    }

    pub closed spec fn in_map(&self) -> u8 {
        self.endpoints_in
    }

    pub closed spec fn out_map(&self) -> u8 {
        self.endpoints_out
    }

    /// An allocator with every number free.
    pub fn new() -> (r: Self)
        ensures
            r.wf(),
            r.in_map() == 0,
            r.out_map() == 0,
    {
        Self { endpoints_in: 0, endpoints_out: 0 }
    }

    /// Whether IN endpoint `n` is taken.
    pub fn is_in_taken(&self, n: u8) -> (r: bool)
        requires
            n < 8,
        ensures
            r == is_taken(self.in_map(), n),
    {
        self.endpoints_in & (1u8 << n) != 0
    }

    /// Whether OUT endpoint `n` is taken.
    pub fn is_out_taken(&self, n: u8) -> (r: bool)
        requires
            n < 8,
        ensures
            r == is_taken(self.out_map(), n),
    {
        self.endpoints_out & (1u8 << n) != 0
    }

    fn alloc_number(bitmap: &mut u8, config: &EndpointConfig) -> (r: Result<u8, UsbError>)
        requires
            *old(bitmap) < 16,
        ensures
            (*final(bitmap), r) == alloc_step(*old(bitmap), config.number),
            *final(bitmap) < 16,
    {
        match config.number {
            Some(number) => {
                if number < NUM_ENDPOINTS && *bitmap & (1u8 << number) == 0 {
                    *bitmap = set_bit8(*bitmap, number);
                    Ok(number)
                } else {
                    Err(UsbError::InvalidEndpoint)
                }
            },
            None => {
                let mut number: u8 = 1;
                while number < NUM_ENDPOINTS
                    invariant
                        1 <= number <= NUM_ENDPOINTS,
                        *bitmap == *old(bitmap),
                        *bitmap < 16,
                        config.number is None,
                        forall|k: u8| 1 <= k < number ==> is_taken(*bitmap, k),
                    decreases NUM_ENDPOINTS - number,
                {
                    if *bitmap & (1u8 << number) == 0 {
                        proof {
                            if number >= 2 {
                                assert(is_taken(*bitmap, 1));
                            }
                            if number >= 3 {
                                assert(is_taken(*bitmap, 2));
                            }
                            assert(first_free(*bitmap) == Some(number));
                        }
                        *bitmap = set_bit8(*bitmap, number);
                        return Ok(number);
                    }
                    number = number + 1;
                }
                Err(UsbError::EndpointOverflow)
            },
        }
    }

    fn alloc_endpoint(bitmap: &mut u8, config: &EndpointConfig, direction: UsbDirection) -> (r: Result<
        EndpointDescriptor,
        UsbError,
    >)
        requires
            *old(bitmap) < 16,
        ensures
            *final(bitmap) == alloc_step(*old(bitmap), config.number).0,
            *final(bitmap) < 16,
            describes(r, alloc_step(*old(bitmap), config.number).1, config, direction),
    {
        let number = Self::alloc_number(bitmap, config)?;
        Ok(EndpointDescriptor {
            address: address_from_parts(number, direction),
            ep_type: config.ep_type,
            max_packet_size: config.max_packet_size,
            interval: config.interval,
        })
    }
}

impl EndpointAllocator {
    /// Allocates an IN endpoint number as `config` asks.
    pub fn alloc_in(&mut self, config: &EndpointConfig) -> (r: Result<EndpointDescriptor, UsbError>)
        requires
            old(self).wf(),
        ensures
            final(self).wf(),
            final(self).in_map() == alloc_step(old(self).in_map(), config.number).0,
            final(self).out_map() == old(self).out_map(),
            describes(r, alloc_step(old(self).in_map(), config.number).1, config, UsbDirection::In),
    {
        Self::alloc_endpoint(&mut self.endpoints_in, config, UsbDirection::In)
    }

    /// Allocates an OUT endpoint number as `config` asks.
    pub fn alloc_out(&mut self, config: &EndpointConfig) -> (r: Result<EndpointDescriptor, UsbError>)
        requires
            old(self).wf(),
        ensures
            final(self).wf(),
            final(self).out_map() == alloc_step(old(self).out_map(), config.number).0,
            final(self).in_map() == old(self).in_map(),
            describes(r, alloc_step(old(self).out_map(), config.number).1, config, UsbDirection::Out),
    {
        Self::alloc_endpoint(&mut self.endpoints_out, config, UsbDirection::Out)
    }
}

/// `r` is the descriptor for outcome `o` of a request `config` in `direction`,
/// or the same error.
pub open spec fn describes(
    r: Result<EndpointDescriptor, UsbError>,
    o: Result<u8, UsbError>,
    config: &EndpointConfig,
    direction: UsbDirection,
) -> bool {
    match (r, o) {
        (Ok(d), Ok(n)) => address_index(d.address) == n as nat
            && address_is_in(d.address) == (direction == UsbDirection::In)
            && d.ep_type == config.ep_type
            && d.max_packet_size == config.max_packet_size
            && d.interval == config.interval,
        (Err(e), Err(f)) => e == f,
        _ => false,
    }
}

proof fn lemma_step(b: u8, req: Option<u8>)
    requires
        b < 16,
    ensures
        alloc_step(b, req).0 < 16,
        forall|k: u8| k < 8 && is_taken(b, k) ==> #[trigger] is_taken(alloc_step(b, req).0, k),
        alloc_step(b, req).1 matches Ok(n) ==> n < NUM_ENDPOINTS && !is_taken(b, n)
            && is_taken(alloc_step(b, req).0, n) && (req is None ==> n != 0),
{
    let (b1, r) = alloc_step(b, req);
    if let Ok(n) = r {
        assert(n < 4);
        assert(b1 == b | (1u8 << n));
        assert(b1 < 16 && b1 & (1u8 << n) != 0 && forall|k: u8|
            k < 8 && #[trigger] (b & (1u8 << k)) != 0 ==> b1 & (1u8 << k) != 0) by (bit_vector)
            requires
                b1 == b | (1u8 << n),
                b < 16,
                n < 4,
        ;
    }
}

/// Over any sequence of allocations in one direction, starting from a valid
/// bitmap: no number is handed out twice, none that was taken at the start is
/// handed out, every number is below four, and the any-free path never hands
/// out endpoint 0.
pub proof fn lemma_allocations_distinct(b: u8, reqs: Seq<Option<u8>>)
    requires
        b < 16,
    ensures
        alloc_outcomes(b, reqs).len() == reqs.len(),
        forall|i: int, j: int|
            0 <= i < j < reqs.len() && alloc_outcomes(b, reqs)[i] is Ok && alloc_outcomes(
                b,
                reqs,
            )[j] is Ok ==> #[trigger] alloc_outcomes(b, reqs)[i]->Ok_0 != #[trigger] alloc_outcomes(
                b,
                reqs,
            )[j]->Ok_0,
        forall|i: int|
            0 <= i < reqs.len() && #[trigger] alloc_outcomes(b, reqs)[i] is Ok ==> {
                let n = alloc_outcomes(b, reqs)[i]->Ok_0;
                &&& n < NUM_ENDPOINTS
                &&& !is_taken(b, n)
                &&& reqs[i] is None ==> n != 0
            },
    decreases reqs.len(),
{
    if reqs.len() > 0 {
        let (b1, r) = alloc_step(b, reqs[0]);
        let rest = reqs.subrange(1, reqs.len() as int);
        lemma_step(b, reqs[0]);
        lemma_allocations_distinct(b1, rest);
        let outs = alloc_outcomes(b, reqs);
        let tail = alloc_outcomes(b1, rest);
        assert(outs == seq![r] + tail);
        assert forall|i: int| 0 <= i < reqs.len() && #[trigger] outs[i] is Ok implies {
            let n = outs[i]->Ok_0;
            &&& n < NUM_ENDPOINTS
            &&& !is_taken(b, n)
            &&& reqs[i] is None ==> n != 0
        } by {
            if i > 0 {
                assert(outs[i] == tail[i - 1]);
                assert(reqs[i] == rest[i - 1]);
                let n = outs[i]->Ok_0;
                assert(!is_taken(b1, n));
            }
        }
        assert forall|i: int, j: int|
            0 <= i < j < reqs.len() && outs[i] is Ok && outs[j] is Ok implies #[trigger] outs[i]->Ok_0
            != #[trigger] outs[j]->Ok_0 by {
            assert(outs[j] == tail[j - 1]);
            if i > 0 {
                assert(outs[i] == tail[i - 1]);
            } else {
                assert(!is_taken(b1, outs[j]->Ok_0));
            }
        }
    }
}

} // verus!
