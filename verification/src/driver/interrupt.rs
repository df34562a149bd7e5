//! The PIO interrupt, step by step.
//!
//! The interrupt alternates register accesses and decisions. `PioUsbIrqHandler` makes the
//! decisions: it names the next access, and is told what the access read.
use vstd::prelude::*;
use crate::driver::hardware;
use crate::driver::irq::{LinkModel, TxSource, UsbIrqState, WakeTarget, RX_DMA_LEN};

verus! {

/// PIO interrupt flag that the decoder raises at the end of a packet.
pub const EOP_FLAG: u32 = 4;

/// PIO interrupt flag that is only cleared.
pub const SPARE_FLAG: u32 = 8;

/// Enable bit of a DMA channel's control word.
pub const DMA_ENABLE: u32 = 1;

/// Processor cycles (3.2 us) for which both lines have to stay low to count as a bus reset.
pub const RESET_DELAY: u32 = 400;

/// The next thing to do in the interrupt.
#[derive(Copy, Clone, PartialEq, Eq, Structural, Debug)]
pub enum IrqAction {
    /// Read the PIO's interrupt flags.
    ReadFlags,
    /// Write these flags to the PIO's interrupt register, which clears them.
    ClearFlags(u32),
    /// Read the receive DMA's control word.
    ReadRxControl,
    /// Write the receive DMA's control word.
    WriteRxControl(u32),
    /// Read how many transfers the receive DMA has left.
    ReadRxRemaining,
    /// Read the input pins.
    ReadPins,
    /// Wait for so many processor cycles.
    Delay(u32),
    /// Wake a task.
    Wake(WakeTarget),
    /// Point the transmit DMA to these bytes and start it with this control word.
    FireTx(TxSource, u32),
    /// Point the receive DMA to the start of the receive buffer again, give it so many
    /// transfers, and start it with this control word.
    RearmRx(u32, u32),
    /// Return from the interrupt.
    Done,
}

/// How far the interrupt has come.
#[derive(Copy, Clone, PartialEq, Eq, Structural, Debug)]
pub enum IrqPhase {
    /// Nothing has been done.
    Entry,
    /// The interrupt flags are being read.
    Flags,
    /// The end-of-packet flag has been cleared.
    Cleared,
    /// The receive DMA's control word is being read.
    Control,
    /// The receive DMA has been paused.
    Paused,
    /// The receive DMA's transfer count is being read.
    Remaining,
    /// The pins are being read for the first time.
    FirstPins,
    /// Both lines were low, and the delay is over.
    Settled,
    /// The pins are being read for the second time.
    SecondPins,
    /// A task has been woken; this remains to be sent.
    Answer(Option<TxSource>),
    /// The packet or the reset has been dealt with.
    Handled,
    /// The receive DMA runs again.
    Rearmed,
    /// All flags are cleared.
    Finished,
    /// The interrupt is over.
    Over,
}

/// One interrupt in progress.
#[derive(Copy, Clone, PartialEq, Eq, Structural, Debug)]
pub struct PioUsbIrqHandler {
    pub phase: IrqPhase,
    /// The interrupt flags, once they have been read.
    pub flags: u32,
}

/// A step of the interrupt: the handler and the shared state behind it, and what to do.
#[verifier::ext_equal]
pub struct IrqStep {
    pub handler: PioUsbIrqHandler,
    pub link: LinkModel,
    pub action: IrqAction,
}

impl PioUsbIrqHandler {
    /// The handler in another phase.
    pub open spec fn at(self, phase: IrqPhase) -> PioUsbIrqHandler {
        PioUsbIrqHandler { phase, ..self }
    }

    /// The step that clears the spare flag where it is raised, or ends the interrupt.
    pub open spec fn finish(self, link: LinkModel) -> IrqStep {
        if self.flags & SPARE_FLAG != 0 {
            IrqStep {
                handler: self.at(IrqPhase::Finished),
                link,
                action: IrqAction::ClearFlags(SPARE_FLAG),
            }
        } else {
            IrqStep { handler: self.at(IrqPhase::Over), link, action: IrqAction::Done }
        }
    }

    /// The step that starts the receive DMA again.
    pub open spec fn rearm(self, link: LinkModel) -> IrqStep {
        IrqStep {
            handler: self.at(IrqPhase::Rearmed),
            link,
            action: IrqAction::RearmRx(RX_DMA_LEN, link.rx_control),
        }
    }

    /// The step that sends `send`, or starts the receive DMA again where there is nothing
    /// to send.
    pub open spec fn answer(self, link: LinkModel, send: Option<TxSource>) -> IrqStep {
        match send {
            Some(source) => IrqStep {
                handler: self.at(IrqPhase::Handled),
                link,
                action: IrqAction::FireTx(source, link.tx_control),
            },
            None => self.rearm(link),
        }
    }

    /// The step that processes the packet of `len` bytes.
    pub open spec fn packet(self, link: LinkModel, len: int) -> IrqStep {
        let response = link.response(len);
        match response.wake {
            Some(target) => IrqStep {
                handler: self.at(IrqPhase::Answer(response.send)),
                link: link.after_packet(len),
                action: IrqAction::Wake(target),
            },
            None => self.answer(link.after_packet(len), response.send),
        }
    }

    /// The step that follows when the last access has read `input`.
    pub open spec fn step(self, link: LinkModel, input: u32) -> IrqStep {
        match self.phase {
            IrqPhase::Entry => IrqStep {
                handler: self.at(IrqPhase::Flags),
                link,
                action: IrqAction::ReadFlags,
            },
            IrqPhase::Flags => {
                let told = PioUsbIrqHandler { flags: input, ..self };
                if input & EOP_FLAG != 0 {
                    IrqStep {
                        handler: told.at(IrqPhase::Cleared),
                        link,
                        action: IrqAction::ClearFlags(EOP_FLAG),
                    }
                } else {
                    told.finish(link)
                }
            },
            IrqPhase::Cleared => IrqStep {
                handler: self.at(IrqPhase::Control),
                link,
                action: IrqAction::ReadRxControl,
            },
            IrqPhase::Control => IrqStep {
                handler: self.at(IrqPhase::Paused),
                link,
                action: IrqAction::WriteRxControl(input & !DMA_ENABLE),
            },
            IrqPhase::Paused => IrqStep {
                handler: self.at(IrqPhase::Remaining),
                link,
                action: IrqAction::ReadRxRemaining,
            },
            IrqPhase::Remaining => if RX_DMA_LEN - input < 2 {
                IrqStep {
                    handler: self.at(IrqPhase::FirstPins),
                    link,
                    action: IrqAction::ReadPins,
                }
            } else {
                self.packet(link, RX_DMA_LEN - input)
            },
            IrqPhase::FirstPins => if hardware::lines_low(input, link.line_mask) {
                IrqStep {
                    handler: self.at(IrqPhase::Settled),
                    link,
                    action: IrqAction::Delay(RESET_DELAY),
                }
            } else {
                self.rearm(link)
            },
            IrqPhase::Settled => IrqStep {
                handler: self.at(IrqPhase::SecondPins),
                link,
                action: IrqAction::ReadPins,
            },
            IrqPhase::SecondPins => if hardware::lines_low(input, link.line_mask) {
                IrqStep {
                    handler: self.at(IrqPhase::Handled),
                    link: link.after_reset(),
                    action: IrqAction::Wake(WakeTarget::Bus),
                }
            } else {
                self.rearm(link)
            },
            IrqPhase::Answer(send) => self.answer(link, send),
            IrqPhase::Handled => self.rearm(link),
            IrqPhase::Rearmed => self.finish(link),
            IrqPhase::Finished | IrqPhase::Over => IrqStep {
                handler: self.at(IrqPhase::Over),
                link,
                action: IrqAction::Done,
            },
        }
    }

    /// Whether the handler can go on with `input`: a transfer count lies within the receive
    /// buffer, and the packet that it tells of can be processed.
    pub open spec fn admits(self, link: LinkModel, input: u32) -> bool {
        self.phase == IrqPhase::Remaining ==> {
            &&& input <= RX_DMA_LEN
            &&& RX_DMA_LEN - input < 2 || link.fits(RX_DMA_LEN - input)
        }
    }

    /// An interrupt that has just begun.
    pub fn new() -> (handler: Self)
        ensures
            handler == (PioUsbIrqHandler { phase: IrqPhase::Entry, flags: 0 }),
    {
        PioUsbIrqHandler { phase: IrqPhase::Entry, flags: 0 }
    }

    /// Whether the handler can go on with `input`.
    pub fn can_continue(&self, state: &UsbIrqState, input: u32) -> (possible: bool)
        requires
            state.wf(),
        ensures
            possible == self.admits(state@, input),
    {
        match self.phase {
            IrqPhase::Remaining => input <= RX_DMA_LEN && (RX_DMA_LEN - input < 2
                || state.packet_fits((RX_DMA_LEN - input) as usize)),
            _ => true,
        }
    }

    fn finish_interrupt(&mut self) -> (action: IrqAction)
        ensures
            forall|link: LinkModel| #[trigger]
                old(self).finish(link) == (IrqStep { handler: *final(self), link, action }),
    {
        if self.flags & SPARE_FLAG != 0 {
            self.phase = IrqPhase::Finished;
            IrqAction::ClearFlags(SPARE_FLAG)
        } else {
            self.phase = IrqPhase::Over;
            IrqAction::Done
        }
    }

    fn rearm_receiver(&mut self, state: &UsbIrqState) -> (action: IrqAction)
        ensures
            old(self).rearm(state@) == (IrqStep { handler: *final(self), link: state@, action }),
    {
        self.phase = IrqPhase::Rearmed;
        IrqAction::RearmRx(RX_DMA_LEN, state.rx_dma_ctrl_word)
    }

    fn send_answer(&mut self, state: &UsbIrqState, send: Option<TxSource>) -> (action: IrqAction)
        ensures
            old(self).answer(state@, send) == (IrqStep {
                handler: *final(self),
                link: state@,
                action,
            }),
    {
        match send {
            Some(source) => {
                self.phase = IrqPhase::Handled;
                IrqAction::FireTx(source, state.tx_dma_ctrl_word)
            },
            None => self.rearm_receiver(state),
        }
    }

    /// Decides the next action of the interrupt. `input` is what the last action has read;
    /// behind an action that reads nothing it is ignored.
    pub fn on_interrupt(&mut self, state: &mut UsbIrqState, input: u32) -> (action: IrqAction)
        requires
            old(state).wf(),
            old(self).admits(old(state)@, input),
        ensures
            final(state).wf(),
            old(self).step(old(state)@, input) == (IrqStep {
                handler: *final(self),
                link: final(state)@,
                action,
            }),
    {
        match self.phase {
            IrqPhase::Entry => {
                self.phase = IrqPhase::Flags;
                IrqAction::ReadFlags
            },
            IrqPhase::Flags => {
                self.flags = input;
                if input & EOP_FLAG != 0 {
                    self.phase = IrqPhase::Cleared;
                    IrqAction::ClearFlags(EOP_FLAG)
                } else {
                    self.finish_interrupt()
                }
            },
            IrqPhase::Cleared => {
                self.phase = IrqPhase::Control;
                IrqAction::ReadRxControl
            },
            IrqPhase::Control => {
                self.phase = IrqPhase::Paused;
                IrqAction::WriteRxControl(input & !DMA_ENABLE)
            },
            IrqPhase::Paused => {
                self.phase = IrqPhase::Remaining;
                IrqAction::ReadRxRemaining
            },
            IrqPhase::Remaining => {
                let len: usize = (RX_DMA_LEN - input) as usize;
                if len < 2 {
                    self.phase = IrqPhase::FirstPins;
                    IrqAction::ReadPins
                } else {
                    let response = state.on_packet(len);
                    match response.wake {
                        Some(target) => {
                            self.phase = IrqPhase::Answer(response.send);
                            IrqAction::Wake(target)
                        },
                        None => self.send_answer(state, response.send),
                    }
                }
            },
            IrqPhase::FirstPins => {
                if input & state.dp_dm_mask == 0 {
                    self.phase = IrqPhase::Settled;
                    IrqAction::Delay(RESET_DELAY)
                } else {
                    self.rearm_receiver(state)
                }
            },
            IrqPhase::Settled => {
                self.phase = IrqPhase::SecondPins;
                IrqAction::ReadPins
            },
            IrqPhase::SecondPins => {
                if input & state.dp_dm_mask == 0 {
                    state.bus_reset();
                    self.phase = IrqPhase::Handled;
                    IrqAction::Wake(WakeTarget::Bus)
                } else {
                    self.rearm_receiver(state)
                }
            },
            IrqPhase::Answer(send) => self.send_answer(state, send),
            IrqPhase::Handled => self.rearm_receiver(state),
            IrqPhase::Rearmed => self.finish_interrupt(),
            IrqPhase::Finished | IrqPhase::Over => {
                self.phase = IrqPhase::Over;
                IrqAction::Done
            },
        }
    }
}

} // verus!
