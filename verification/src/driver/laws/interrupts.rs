//! Whole interrupts, access by access.
//!
//! An interrupt is a row of calls of `on_interrupt`, each on what the one before it has left,
//! and each told what the access before it has read.
use vstd::prelude::*;
use crate::driver::interrupt::{IrqAction, IrqPhase, PioUsbIrqHandler};
use crate::driver::irq::{Response, UsbIrqState, WakeTarget};
use crate::driver::laws::packets;

verus! {

/// `actions` are `expected` and then nothing more.
pub open spec fn does(actions: Seq<IrqAction>, expected: Seq<IrqAction>) -> bool {
    &&& expected.len() <= actions.len()
    &&& forall|i: int| 0 <= i < expected.len() ==> #[trigger] actions[i] == expected[i]
    &&& forall|i: int| expected.len() <= i < actions.len() ==> #[trigger] actions[i] == IrqAction::Done
}

/// How every interrupt ends: the spare flag is cleared where it was raised.
pub open spec fn clearing(flags: u32) -> Seq<IrqAction> {
    if flags & 8 != 0 {
        seq![IrqAction::ClearFlags(8)]
    } else {
        Seq::empty()
    }
}

/// How an interrupt begins that finds the end-of-packet flag: it clears that flag, stops the
/// receive DMA without touching its other settings, and asks how much was received.
pub open spec fn pausing(control: u32) -> Seq<IrqAction> {
    seq![
        IrqAction::ReadFlags,
        IrqAction::ClearFlags(4),
        IrqAction::ReadRxControl,
        IrqAction::WriteRxControl(control & !1u32),
        IrqAction::ReadRxRemaining,
    ]
}

/// States with the same contents agree in every field.
proof fn lemma_same_state(a: UsbIrqState, b: UsbIrqState)
    requires
        a@ == b@,
    ensures
        packets::same_state(a, b),
{
    packets::lemma_same_in(a, b, -1);
    packets::lemma_same_out(a, b, -1);
}

/// Thirteen calls, more than any interrupt takes.
pub open spec fn called(
    handlers: Seq<&mut PioUsbIrqHandler>,
    states: Seq<&mut UsbIrqState>,
    inputs: Seq<u32>,
    actions: Seq<IrqAction>,
) -> bool {
    &&& handlers.len() == 13
    &&& states.len() == 13
    &&& inputs.len() == 13
    &&& actions.len() == 13
    &&& forall|k: int|
        0 <= k < 13 ==> #[trigger] call_ensures(
            PioUsbIrqHandler::on_interrupt,
            (handlers[k], states[k], inputs[k]),
            actions[k],
        )
}

/// What one call does, by the handler's step.
proof fn lemma_call(
    handlers: Seq<&mut PioUsbIrqHandler>,
    states: Seq<&mut UsbIrqState>,
    inputs: Seq<u32>,
    actions: Seq<IrqAction>,
    k: int,
)
    requires
        0 <= k < 13,
        states[k].wf(),
        handlers[k].admits(states[k]@, inputs[k]),
        called(handlers, states, inputs, actions),
        forall|k: int|
            0 < k < 13 ==> *(#[trigger] handlers[k]) == *final(handlers[k - 1]) && *states[k]
                == *final(states[k - 1]),
    ensures
        ({
            let step = handlers[k].step(states[k]@, inputs[k]);
            &&& step.handler == *final(handlers[k])
            &&& step.link == final(states[k])@
            &&& step.action == actions[k]
        }),
        final(states[k]).wf(),
        k < 12 ==> *handlers[k + 1] == *final(handlers[k]) && *states[k + 1] == *final(states[k]),
{
    assert(call_ensures(
        PioUsbIrqHandler::on_interrupt,
        (handlers[k], states[k], inputs[k]),
        actions[k],
    ));
    if k < 12 {
        assert(*handlers[k + 1] == *final(handlers[k]));
    }
}

/// Once an interrupt is over, every call just says so.
proof fn lemma_over(
    handlers: Seq<&mut PioUsbIrqHandler>,
    states: Seq<&mut UsbIrqState>,
    inputs: Seq<u32>,
    actions: Seq<IrqAction>,
    n: int,
)
    requires
        0 <= n < 13,
        handlers[n].phase == IrqPhase::Over,
        states[n].wf(),
        called(handlers, states, inputs, actions),
        forall|k: int|
            0 < k < 13 ==> *(#[trigger] handlers[k]) == *final(handlers[k - 1]) && *states[k]
                == *final(states[k - 1]),
    ensures
        forall|i: int| n <= i < 13 ==> #[trigger] actions[i] == IrqAction::Done,
        final(states[12])@ == states[n]@,
    decreases 13 - n,
{
    lemma_call(handlers, states, inputs, actions, n);
    if n < 12 {
        lemma_over(handlers, states, inputs, actions, n + 1);
    }
}

/// Behind the receive DMA's restart only the spare flag is left to be cleared.
proof fn lemma_rearmed(
    handlers: Seq<&mut PioUsbIrqHandler>,
    states: Seq<&mut UsbIrqState>,
    inputs: Seq<u32>,
    actions: Seq<IrqAction>,
    n: int,
)
    requires
        0 <= n < 11,
        handlers[n].phase == IrqPhase::Rearmed,
        states[n].wf(),
        called(handlers, states, inputs, actions),
        forall|k: int|
            0 < k < 13 ==> *(#[trigger] handlers[k]) == *final(handlers[k - 1]) && *states[k]
                == *final(states[k - 1]),
    ensures
        does(actions.skip(n), clearing(handlers[n].flags)),
        final(states[12])@ == states[n]@,
{
    lemma_call(handlers, states, inputs, actions, n);
    lemma_call(handlers, states, inputs, actions, n + 1);
    if handlers[n].flags & 8 != 0 {
        lemma_over(handlers, states, inputs, actions, n + 2);
    } else {
        lemma_over(handlers, states, inputs, actions, n + 1);
    }
}

/// Up to the transfer count nothing is decided.
proof fn lemma_paused(
    handlers: Seq<&mut PioUsbIrqHandler>,
    states: Seq<&mut UsbIrqState>,
    inputs: Seq<u32>,
    actions: Seq<IrqAction>,
)
    requires
        call_ensures(PioUsbIrqHandler::new, (), *handlers[0]),
        states[0].wf(),
        inputs[1] & 4 != 0,
        called(handlers, states, inputs, actions),
        forall|k: int|
            0 < k < 13 ==> *(#[trigger] handlers[k]) == *final(handlers[k - 1]) && *states[k]
                == *final(states[k - 1]),
    ensures
        handlers[5].phase == IrqPhase::Remaining,
        handlers[5].flags == inputs[1],
        states[5]@ == states[0]@,
        states[5].wf(),
        actions.take(5) == pausing(inputs[3]),
{
    lemma_call(handlers, states, inputs, actions, 0);
    lemma_call(handlers, states, inputs, actions, 1);
    lemma_call(handlers, states, inputs, actions, 2);
    lemma_call(handlers, states, inputs, actions, 3);
    lemma_call(handlers, states, inputs, actions, 4);
    assert(actions.take(5) =~= pausing(inputs[3]));
}

/// An interrupt without the end-of-packet flag clears the spare flag where it was raised, and
/// changes nothing.
pub proof fn law_idle_interrupt(
    handlers: Seq<&mut PioUsbIrqHandler>,
    states: Seq<&mut UsbIrqState>,
    inputs: Seq<u32>,
    actions: Seq<IrqAction>,
)
    requires
        call_ensures(PioUsbIrqHandler::new, (), *handlers[0]),
        states[0].wf(),
        inputs[1] & 4 == 0,
        called(handlers, states, inputs, actions),
        forall|k: int|
            0 < k < 13 ==> *(#[trigger] handlers[k]) == *final(handlers[k - 1]) && *states[k]
                == *final(states[k - 1]),
    ensures
        does(actions, seq![IrqAction::ReadFlags] + clearing(inputs[1])),
        packets::same_state(*states[0], *final(states[12])),
{
    lemma_call(handlers, states, inputs, actions, 0);
    lemma_call(handlers, states, inputs, actions, 1);
    lemma_call(handlers, states, inputs, actions, 2);
    if inputs[1] & 8 != 0 {
        lemma_over(handlers, states, inputs, actions, 3);
    } else {
        lemma_over(handlers, states, inputs, actions, 2);
    }
    lemma_same_state(*states[0], *final(states[12]));
}

/// An interrupt that finds a packet of at least two bytes does with it what `on_packet` does:
/// the same state is left behind, the same task is woken and the same is sent, the task
/// first. Then the receiver starts afresh with the whole buffer.
pub proof fn law_packet_interrupt(
    handlers: Seq<&mut PioUsbIrqHandler>,
    states: Seq<&mut UsbIrqState>,
    inputs: Seq<u32>,
    actions: Seq<IrqAction>,
    packet: &mut UsbIrqState,
    response: Response,
)
    requires
        call_ensures(PioUsbIrqHandler::new, (), *handlers[0]),
        states[0].wf(),
        inputs[1] & 4 != 0,
        inputs[5] <= 126,
        states[0]@.fits(128 - inputs[5]),
        *packet == *states[0],
        call_ensures(UsbIrqState::on_packet, (packet, (128 - inputs[5]) as usize), response),
        called(handlers, states, inputs, actions),
        forall|k: int|
            0 < k < 13 ==> *(#[trigger] handlers[k]) == *final(handlers[k - 1]) && *states[k]
                == *final(states[k - 1]),
    ensures
        does(
            actions,
            pausing(inputs[3]) + (match response.wake {
                Some(target) => seq![IrqAction::Wake(target)],
                None => Seq::empty(),
            }) + (match response.send {
                Some(source) => seq![IrqAction::FireTx(source, states[0].tx_dma_ctrl_word)],
                None => Seq::empty(),
            }) + seq![IrqAction::RearmRx(128, states[0].rx_dma_ctrl_word)] + clearing(inputs[1]),
        ),
        packets::same_state(*final(packet), *final(states[12])),
{
    lemma_paused(handlers, states, inputs, actions);
    lemma_call(handlers, states, inputs, actions, 5);
    let woken = response.wake is Some;
    let sent = response.send is Some;
    let middle = (match response.wake {
        Some(target) => seq![IrqAction::Wake(target)],
        None => Seq::empty(),
    }) + (match response.send {
        Some(source) => seq![IrqAction::FireTx(source, states[0].tx_dma_ctrl_word)],
        None => Seq::empty(),
    }) + seq![IrqAction::RearmRx(128, states[0].rx_dma_ctrl_word)];
    let n = 5 + middle.len() as int;
    if n > 6 {
        lemma_call(handlers, states, inputs, actions, 6);
    }
    if n > 7 {
        lemma_call(handlers, states, inputs, actions, 7);
    }
    assert(actions.subrange(5, n) =~= middle);
    lemma_rearmed(handlers, states, inputs, actions, n);
    lemma_joined(actions, pausing(inputs[3]), middle, clearing(inputs[1]));
    assert(pausing(inputs[3]) + (match response.wake {
        Some(target) => seq![IrqAction::Wake(target)],
        None => Seq::empty(),
    }) + (match response.send {
        Some(source) => seq![IrqAction::FireTx(source, states[0].tx_dma_ctrl_word)],
        None => Seq::empty(),
    }) + seq![IrqAction::RearmRx(128, states[0].rx_dma_ctrl_word)] =~= pausing(inputs[3]) + middle);
    lemma_same_state(*final(packet), *final(states[12]));
}

/// Actions that are known part by part are known.
proof fn lemma_joined(
    actions: Seq<IrqAction>,
    first: Seq<IrqAction>,
    middle: Seq<IrqAction>,
    last: Seq<IrqAction>,
)
    requires
        first.len() + middle.len() <= actions.len(),
        actions.take(first.len() as int) == first,
        actions.subrange(first.len() as int, (first.len() + middle.len()) as int) == middle,
        does(actions.skip((first.len() + middle.len()) as int), last),
    ensures
        does(actions, first + middle + last),
{
    let n = first.len() as int;
    let m = (first.len() + middle.len()) as int;
    let all = first + middle + last;
    assert forall|i: int| 0 <= i < all.len() implies #[trigger] actions[i] == all[i] by {
        if i < n {
            assert(actions.take(n)[i] == first[i]);
        } else if i < m {
            assert(actions.subrange(n, m)[i - n] == middle[i - n]);
        } else {
            assert(actions.skip(m)[i - m] == last[i - m]);
        }
    }
    assert forall|i: int| all.len() <= i < actions.len() implies #[trigger] actions[i]
        == IrqAction::Done by {
        assert(actions.skip(m)[i - m] == IrqAction::Done);
    }
}

/// An interrupt that finds fewer than two bytes looks at the lines. Where both are low, and
/// still are after a while, it does what `bus_reset` does and wakes whoever polls the bus;
/// where either is not, nothing changes. Then the receiver starts afresh.
pub proof fn law_reset_interrupt(
    handlers: Seq<&mut PioUsbIrqHandler>,
    states: Seq<&mut UsbIrqState>,
    inputs: Seq<u32>,
    actions: Seq<IrqAction>,
    reset: &mut UsbIrqState,
)
    requires
        call_ensures(PioUsbIrqHandler::new, (), *handlers[0]),
        states[0].wf(),
        inputs[1] & 4 != 0,
        127 <= inputs[5] <= 128,
        *reset == *states[0],
        call_ensures(UsbIrqState::bus_reset, (reset,), ()),
        called(handlers, states, inputs, actions),
        forall|k: int|
            0 < k < 13 ==> *(#[trigger] handlers[k]) == *final(handlers[k - 1]) && *states[k]
                == *final(states[k - 1]),
    ensures
        ({
            let mask = states[0].dp_dm_mask;
            let rearm = seq![IrqAction::RearmRx(128, states[0].rx_dma_ctrl_word)];
            if inputs[6] & mask != 0 {
                &&& does(
                    actions,
                    pausing(inputs[3]) + (seq![IrqAction::ReadPins] + rearm) + clearing(inputs[1]),
                )
                &&& packets::same_state(*states[0], *final(states[12]))
            } else if inputs[8] & mask != 0 {
                &&& does(
                    actions,
                    pausing(inputs[3]) + (seq![
                        IrqAction::ReadPins,
                        IrqAction::Delay(400),
                        IrqAction::ReadPins,
                    ] + rearm) + clearing(inputs[1]),
                )
                &&& packets::same_state(*states[0], *final(states[12]))
            } else {
                &&& does(
                    actions,
                    pausing(inputs[3]) + (seq![
                        IrqAction::ReadPins,
                        IrqAction::Delay(400),
                        IrqAction::ReadPins,
                        IrqAction::Wake(WakeTarget::Bus),
                    ] + rearm) + clearing(inputs[1]),
                )
                &&& packets::same_state(*final(reset), *final(states[12]))
            }
        }),
{
    let mask = states[0].dp_dm_mask;
    let rearm = seq![IrqAction::RearmRx(128, states[0].rx_dma_ctrl_word)];
    lemma_paused(handlers, states, inputs, actions);
    lemma_call(handlers, states, inputs, actions, 5);
    lemma_call(handlers, states, inputs, actions, 6);
    let middle = if inputs[6] & mask != 0 {
        seq![IrqAction::ReadPins] + rearm
    } else if inputs[8] & mask != 0 {
        seq![IrqAction::ReadPins, IrqAction::Delay(400), IrqAction::ReadPins] + rearm
    } else {
        seq![
            IrqAction::ReadPins,
            IrqAction::Delay(400),
            IrqAction::ReadPins,
            IrqAction::Wake(WakeTarget::Bus),
        ] + rearm
    };
    let n = 5 + middle.len() as int;
    if n > 7 {
        lemma_call(handlers, states, inputs, actions, 7);
        lemma_call(handlers, states, inputs, actions, 8);
    }
    if n > 9 {
        lemma_call(handlers, states, inputs, actions, 9);
    }
    assert(actions.subrange(5, n) =~= middle);
    lemma_rearmed(handlers, states, inputs, actions, n);
    lemma_joined(actions, pausing(inputs[3]), middle, clearing(inputs[1]));
    if n > 9 {
        lemma_same_state(*final(reset), *final(states[12]));
    } else {
        lemma_same_state(*states[0], *final(states[12]));
    }
}

/// Behind an access that reads nothing, it does not matter what the handler is told.
pub proof fn law_input_ignored(
    first: &mut PioUsbIrqHandler,
    first_state: &mut UsbIrqState,
    first_input: u32,
    first_action: IrqAction,
    second: &mut PioUsbIrqHandler,
    second_state: &mut UsbIrqState,
    second_input: u32,
    second_action: IrqAction,
)
    requires
        first_state.wf(),
        *second == *first,
        *second_state == *first_state,
        !(first.phase is Flags || first.phase is Control || first.phase is Remaining
            || first.phase is FirstPins || first.phase is SecondPins),
        call_ensures(
            PioUsbIrqHandler::on_interrupt,
            (first, first_state, first_input),
            first_action,
        ),
        call_ensures(
            PioUsbIrqHandler::on_interrupt,
            (second, second_state, second_input),
            second_action,
        ),
    ensures
        second_action == first_action,
        *final(second) == *final(first),
        packets::same_state(*final(first_state), *final(second_state)),
{
    lemma_same_state(*final(first_state), *final(second_state));
}

/// An interrupt can go on with whatever was read, but for transfer counts beyond the receive
/// buffer and for packets that cannot be processed.
pub proof fn law_can_continue(
    handler: PioUsbIrqHandler,
    state: UsbIrqState,
    input: u32,
    possible: bool,
    fits: bool,
)
    requires
        state.wf(),
        call_ensures(PioUsbIrqHandler::can_continue, (&handler, &state, input), possible),
        input <= 128,
        call_ensures(UsbIrqState::packet_fits, (&state, (128 - input) as usize), fits),
    ensures
        possible <==> (handler.phase is Remaining ==> input >= 127 || fits),
{
}

/// An interrupt cannot go on with a transfer count beyond the receive buffer; where no
/// transfer count is read, the same number is no obstacle.
pub proof fn law_count_beyond_buffer(
    handler: PioUsbIrqHandler,
    state: UsbIrqState,
    input: u32,
    possible: bool,
)
    requires
        state.wf(),
        input > 128,
        call_ensures(PioUsbIrqHandler::can_continue, (&handler, &state, input), possible),
    ensures
        possible <==> !(handler.phase is Remaining),
{
}

} // verus!
