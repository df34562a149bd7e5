//! Control of the bus as a whole.
use vstd::prelude::*;
use crate::driver::address::EndpointAddress;
use crate::driver::endpoint::{EndpointModel, EndpointStatus, Poll};
use crate::driver::hardware::PioUsbHardware;
use crate::driver::irq::{Event, LinkModel, UsbIrqState, WakeTarget};
use crate::driver::state::Configured;

verus! {

/// What the hardware cannot do.
#[derive(Copy, Clone, PartialEq, Eq, Structural, Debug)]
pub struct Unsupported;

/// The bus.
pub struct PioUsbBus {
    pub _hw: PioUsbHardware<Configured>,
}

/// The status of the endpoint at `address`.
pub open spec fn status_at(link: LinkModel, address: EndpointAddress) -> EndpointStatus {
    if address.inward() {
        link.ep_in[address.number()].status
    } else {
        link.ep_out[address.number()].status
    }
}

/// Whether the endpoint at `address` is enabled.
pub open spec fn enabled_at(link: LinkModel, address: EndpointAddress) -> bool {
    if address.inward() {
        link.ep_in[address.number()].enabled
    } else {
        link.ep_out[address.number()].enabled
    }
}

/// The state with another status at `address`.
pub open spec fn with_status_at(
    link: LinkModel,
    address: EndpointAddress,
    status: EndpointStatus,
) -> LinkModel {
    if address.inward() {
        link.with_in(address.number(), link.ep_in[address.number()].with_status(status))
    } else {
        link.with_out(address.number(), link.ep_out[address.number()].with_status(status))
    }
}

/// The state with the endpoint at `address` enabled or disabled.
pub open spec fn with_enabled_at(link: LinkModel, address: EndpointAddress, enabled: bool) -> LinkModel {
    if address.inward() {
        link.with_in(address.number(), EndpointModel {
            enabled,
            ..link.ep_in[address.number()]
        })
    } else {
        link.with_out(address.number(), EndpointModel {
            enabled,
            ..link.ep_out[address.number()]
        })
    }
}

impl PioUsbBus {
    /// Takes the event that has happened on the bus.
    pub fn poll(&self, state: &mut UsbIrqState) -> (event: Poll<Event>)
        requires
            old(state).wf(),
        ensures
            final(state).wf(),
            final(state)@ == (LinkModel { event: None, ..old(state)@ }),
            event == match old(state)@.event {
                Some(event) => Poll::Ready(event),
                None => Poll::Pending,
            },
    {
        let taken: Option<Event> = state.bus_event.take();
        assert(state@ =~= (LinkModel { event: None, ..old(state)@ }));
        match taken {
            Some(event) => Poll::Ready(event),
            None => Poll::Pending,
        }
    }

    /// Sets or clears the STALL condition of an endpoint.
    pub fn endpoint_set_stalled(
        &self,
        state: &mut UsbIrqState,
        ep_addr: EndpointAddress,
        stalled: bool,
    )
        requires
            old(state).wf(),
            ep_addr.number() < 16,
        ensures
            final(state).wf(),
            final(state)@ == with_status_at(
                old(state)@,
                ep_addr,
                if stalled {
                    EndpointStatus::Stalled
                } else {
                    EndpointStatus::Idle
                },
            ),
    {
        let ep: usize = ep_addr.index();
        let status = if stalled {
            EndpointStatus::Stalled
        } else {
            EndpointStatus::Idle
        };
        if ep_addr.is_in() {
            state.ep_in_states[ep].status = status;
        } else {
            state.ep_out_states[ep].status = status;
        }
        assert(state@ =~= with_status_at(old(state)@, ep_addr, status));
    }

    /// Whether the STALL condition of an endpoint is set.
    pub fn endpoint_is_stalled(&self, state: &UsbIrqState, ep_addr: EndpointAddress) -> (stalled:
        bool)
        requires
            ep_addr.number() < 16,
        ensures
            stalled == (status_at(state@, ep_addr) == EndpointStatus::Stalled),
    {
        let ep: usize = ep_addr.index();
        if ep_addr.is_in() {
            state.ep_in_states[ep].status == EndpointStatus::Stalled
        } else {
            state.ep_out_states[ep].status == EndpointStatus::Stalled
        }
    }

    /// Enables or disables an endpoint, and tells whom to wake.
    pub fn endpoint_set_enabled(
        &self,
        state: &mut UsbIrqState,
        ep_addr: EndpointAddress,
        enabled: bool,
    ) -> (wake: Option<WakeTarget>)
        requires
            old(state).wf(),
            ep_addr.number() < 16,
        ensures
            final(state).wf(),
            final(state)@ == with_enabled_at(old(state)@, ep_addr, enabled),
            wake == if !enabled {
                None
            } else if ep_addr.inward() {
                Some(WakeTarget::In(ep_addr.number() as u8))
            } else {
                Some(WakeTarget::Out(ep_addr.number() as u8))
            },
    {
        let ep: usize = ep_addr.index();
        let is_in: bool = ep_addr.is_in();
        if is_in {
            state.ep_in_states[ep].enabled = enabled;
        } else {
            state.ep_out_states[ep].enabled = enabled;
        }
        assert(state@ =~= with_enabled_at(old(state)@, ep_addr, enabled));
        if !enabled {
            None
        } else if is_in {
            Some(WakeTarget::In(ep as u8))
        } else {
            Some(WakeTarget::Out(ep as u8))
        }
    }

    /// Waking the host is not supported.
    pub fn remote_wakeup(&self) -> (result: Result<(), Unsupported>)
        ensures
            result == Err::<(), Unsupported>(Unsupported),
    {
        Err(Unsupported)
    }
}

} // verus!
