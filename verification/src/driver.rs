//! The USB device driver: endpoints, control pipe and bus.
use vstd::prelude::*;
use crate::driver::address::{Direction, EndpointAddress};
use crate::driver::bus::PioUsbBus;
use crate::driver::control::PioControlPipe;
use crate::driver::endpoint::{EndpointInfo, EndpointType, PioEndpointIn, PioEndpointOut};
use crate::driver::hardware::PioUsbHardware;
use crate::driver::irq::UsbIrqState;
use crate::driver::state::Configured;

pub mod address;
pub mod bus;
pub mod control;
pub mod dma;
pub mod endpoint;
pub mod hardware;
pub mod instruction;
pub mod interrupt;
pub mod irq;
pub mod laws;
pub mod state;

verus! {

/// The requested endpoint is taken, or none is left.
#[derive(Copy, Clone, PartialEq, Eq, Structural, Debug)]
pub struct EndpointAllocError;

/// The driver before it is started: it hands out endpoints.
pub struct PioUsbDriver {
    pub hw: PioUsbHardware<Configured>,
    /// One bit for each IN endpoint that is taken.
    pub ep_in_alloc: u16,
    /// One bit for each OUT endpoint that is taken.
    pub ep_out_alloc: u16,
}

/// What has to be done to the peripherals when the driver starts.
pub struct StartPlan {
    /// Executed once by the decoder's state machine, before it is enabled: fills the output
    /// shift register with ones.
    pub fill_osr: u16,
    /// Executed next: clears scratch register X.
    pub clear_x: u16,
    /// The number of transfers that the receive DMA is started with.
    pub rx_count: u32,
    /// The state that the interrupt works on, with the control words of both channels.
    pub state: UsbIrqState,
}

/// The endpoints whose bits are set in `mask`.
pub open spec fn taken(mask: u16) -> Set<int> {
    Set::new(|i: int| 0 <= i < 16 && (mask >> (i as u16)) & 1u16 == 1u16)
}

/// Whether `index` is the lowest endpoint that is not in `used`.
pub open spec fn lowest_free(used: Set<int>, index: int) -> bool {
    &&& 0 <= index < 16
    &&& !used.contains(index)
    &&& forall|i: int| 0 <= i < index ==> used.contains(i)
}

/// Whether a request for an endpoint is granted `index`: the number that is asked for if it
/// is free, or the lowest free number if none is asked for.
pub open spec fn grants(used: Set<int>, requested: Option<EndpointAddress>, index: int) -> bool {
    match requested {
        Some(addr) => index == addr.number() && !used.contains(index),
        None => lowest_free(used, index),
    }
}

/// Whether a request for an endpoint is refused: the number that is asked for is taken, or
/// none is asked for and all are taken.
pub open spec fn refuses(used: Set<int>, requested: Option<EndpointAddress>) -> bool {
    match requested {
        Some(addr) => used.contains(addr.number()),
        None => forall|i: int| 0 <= i < 16 ==> used.contains(i),
    }
}

proof fn lemma_taken_bit(mask: u16, index: u16)
    requires
        index < 16,
    ensures
        taken(mask).contains(index as int) <==> mask & (1u16 << index) != 0,
        taken(mask | (1u16 << index)) == taken(mask).insert(index as int),
{
    assert((mask & (1u16 << index) != 0) == ((mask >> index) & 1u16 == 1u16)) by (bit_vector)
        requires
            index < 16,
    ;
    let after = mask | (1u16 << index);
    assert forall|i: int| taken(after).contains(i) == taken(mask).insert(index as int).contains(i) by {
        if 0 <= i < 16 {
            let j = i as u16;
            assert((((mask | (1u16 << index)) >> j) & 1u16 == 1u16) == ((mask >> j) & 1u16 == 1u16
                || j == index)) by (bit_vector)
                requires
                    index < 16,
                    j < 16,
            ;
        }
    }
    assert(taken(after) =~= taken(mask).insert(index as int));
}

/// Takes an endpoint out of `mask`, and returns its number.
fn alloc_index(mask: &mut u16, ep_addr: Option<EndpointAddress>) -> (index: Result<
    usize,
    EndpointAllocError,
>)
    requires
        ep_addr matches Some(addr) ==> addr.number() < 16,
    ensures
        index is Err <==> refuses(taken(*old(mask)), ep_addr),
        index is Err ==> *final(mask) == *old(mask),
        index matches Ok(i) ==> {
            &&& i < 16
            &&& grants(taken(*old(mask)), ep_addr, i as int)
            &&& taken(*final(mask)) == taken(*old(mask)).insert(i as int)
        },
{
    let index: usize = match ep_addr {
        Some(addr) => {
            let idx: usize = addr.index();
            proof {
                lemma_taken_bit(*mask, idx as u16);
            }
            if (*mask & (1u16 << idx as u16)) != 0 {
                return Err(EndpointAllocError);
            }
            idx
        },
        None => {
            let idx: usize = mask.trailing_ones() as usize;
            proof {
                vstd::std_specs::bits::axiom_u16_trailing_ones(*mask);
                assert forall|i: int| 0 <= i < idx && i < 16 implies taken(*mask).contains(i) by {
                    assert((*mask >> (i as u16)) & 1u16 == 1u16);
                }
                if idx < 16 {
                    assert(!taken(*mask).contains(idx as int));
                }
            }
            if idx >= 16 {
                return Err(EndpointAllocError);
            }
            idx
        },
    };
    proof {
        lemma_taken_bit(*mask, index as u16);
    }
    *mask = *mask | (1u16 << index as u16);
    Ok(index)
}

impl PioUsbDriver {
    /// The numbers of the IN endpoints that are taken.
    pub open spec fn in_taken(self) -> Set<int> {
        taken(self.ep_in_alloc)
    }

    /// The numbers of the OUT endpoints that are taken.
    pub open spec fn out_taken(self) -> Set<int> {
        taken(self.ep_out_alloc)
    }

    /// A driver with nothing but endpoint 0 taken.
    pub fn new(hw: PioUsbHardware<Configured>) -> (driver: Self)
        ensures
            driver.hw == hw,
            driver.in_taken() == Set::<int>::empty().insert(0),
            driver.out_taken() == Set::<int>::empty().insert(0),
    {
        proof {
            assert(1u16 == 0u16 | (1u16 << 0u16)) by (bit_vector);
            assert(forall|j: u16| j < 16 ==> #[trigger] (0u16 >> j) & 1u16 == 0u16) by (bit_vector);
            assert(taken(0) =~= Set::<int>::empty());
            lemma_taken_bit(0, 0);
        }
        PioUsbDriver { hw, ep_in_alloc: 1, ep_out_alloc: 1 }
    }

    /// Allocates an IN endpoint.
    pub fn alloc_endpoint_in(
        &mut self,
        ep_type: EndpointType,
        ep_addr: Option<EndpointAddress>,
        max_packet_size: u16,
        interval_ms: u8,
    ) -> (endpoint: Result<PioEndpointIn, EndpointAllocError>)
        requires
            ep_addr matches Some(addr) ==> addr.number() < 16,
        ensures
            final(self).hw == old(self).hw,
            final(self).out_taken() == old(self).out_taken(),
            endpoint is Err <==> refuses(old(self).in_taken(), ep_addr),
            endpoint is Err ==> final(self).in_taken() == old(self).in_taken(),
            endpoint matches Ok(granted) ==> {
                &&& granted.wf()
                &&& grants(old(self).in_taken(), ep_addr, granted.number())
                &&& final(self).in_taken() == old(self).in_taken().insert(granted.number())
                &&& granted.info.addr.inward()
                &&& granted.info.ep_type == ep_type
                &&& granted.info.max_packet_size == max_packet_size
                &&& granted.info.interval_ms == interval_ms
            },
    {
        match alloc_index(&mut self.ep_in_alloc, ep_addr) {
            Err(error) => Err(error),
            Ok(index) => Ok(
                PioEndpointIn {
                    info: EndpointInfo {
                        addr: EndpointAddress::from_parts(index, Direction::In),
                        ep_type,
                        max_packet_size,
                        interval_ms,
                    },
                },
            ),
        }
    }

    /// Allocates an OUT endpoint.
    pub fn alloc_endpoint_out(
        &mut self,
        ep_type: EndpointType,
        ep_addr: Option<EndpointAddress>,
        max_packet_size: u16,
        interval_ms: u8,
    ) -> (endpoint: Result<PioEndpointOut, EndpointAllocError>)
        requires
            ep_addr matches Some(addr) ==> addr.number() < 16,
        ensures
            final(self).hw == old(self).hw,
            final(self).in_taken() == old(self).in_taken(),
            endpoint is Err <==> refuses(old(self).out_taken(), ep_addr),
            endpoint is Err ==> final(self).out_taken() == old(self).out_taken(),
            endpoint matches Ok(granted) ==> {
                &&& granted.wf()
                &&& grants(old(self).out_taken(), ep_addr, granted.number())
                &&& final(self).out_taken() == old(self).out_taken().insert(granted.number())
                &&& !granted.info.addr.inward()
                &&& granted.info.ep_type == ep_type
                &&& granted.info.max_packet_size == max_packet_size
                &&& granted.info.interval_ms == interval_ms
            },
    {
        match alloc_index(&mut self.ep_out_alloc, ep_addr) {
            Err(error) => Err(error),
            Ok(index) => Ok(
                PioEndpointOut {
                    info: EndpointInfo {
                        addr: EndpointAddress::from_parts(index, Direction::Out),
                        ep_type,
                        max_packet_size,
                        interval_ms,
                    },
                },
            ),
        }
    }

    /// Starts the device. `sm_tx` and `sm_eop` are the state machines that transmit and that
    /// deliver received bytes, and `is_pio0` tells which PIO block they belong to.
    pub fn start(
        self,
        _control_max_packet_size: u16,
        is_pio0: bool,
        sm_tx: usize,
        sm_eop: usize,
    ) -> (started: (PioUsbBus, PioControlPipe, StartPlan))
        requires
            sm_tx < 4,
            sm_eop < 4,
            self.hw.dp_pin < 32,
            self.hw.dm_pin < 32,
        ensures
            started.0._hw == self.hw,
            started.2.fill_osr == 0xa0eb,
            started.2.clear_x == 0xa023,
            started.2.rx_count == 128,
            started.2.state.wf(),
            started.2.state@ == irq::LinkModel::initial(
                dma::control_word(dma::tx_request(is_pio0, sm_tx as int), true, false) as u32,
                dma::control_word(dma::rx_request(is_pio0, sm_eop as int), false, true) as u32,
                hardware::line_mask(self.hw.dp_pin, self.hw.dm_pin),
            ),
    {
        let tx_control: u32 = dma::tx_control(is_pio0, sm_tx);
        let rx_control: u32 = dma::rx_control(is_pio0, sm_eop);
        let dp_dm_mask: u32 = self.hw.dp_dm_mask();
        let plan = StartPlan {
            fill_osr: instruction::fill_osr(),
            clear_x: instruction::clear_x(),
            rx_count: irq::RX_DMA_LEN,
            state: UsbIrqState::new(tx_control, rx_control, dp_dm_mask),
        };
        (PioUsbBus { _hw: self.hw }, PioControlPipe, plan)
    }
}

} // verus!
