//! Software PHY layer: USB NRZI encoding and bit stuffing.
//!
//! A packet leaves the device as a stream of two-bit PIO instructions, one for each bit
//! time on the line, packed four to a byte with the earliest in the high bits.
use vstd::prelude::*;

pub mod laws;

verus! {

/// PIO instruction that drives both lines low.
pub const PIO_USB_TX_ENCODED_DATA_SE0: u8 = 0;

/// PIO instruction that drives the K state.
pub const PIO_USB_TX_ENCODED_DATA_K: u8 = 1;

/// PIO instruction that completes a packet.
pub const PIO_USB_TX_ENCODED_DATA_COMP: u8 = 2;

/// PIO instruction that drives the J state.
pub const PIO_USB_TX_ENCODED_DATA_J: u8 = 3;

/// Bit `index` of `byte`, counted from the least significant bit.
pub open spec fn bit_of(byte: u8, index: int) -> bool {
    byte & (1u8 << (index as u8)) != 0
}

/// The bits of a packet in the order in which USB sends them: byte by byte, the least
/// significant bit of each byte first.
pub open spec fn bits_of(buffer: Seq<u8>) -> Seq<bool> {
    Seq::new(8 * buffer.len(), |i: int| bit_of(buffer[i / 8], i % 8))
}

/// How many ones stand at the end of `bits`.
pub open spec fn trailing_ones(bits: Seq<bool>) -> nat
    decreases bits.len(),
{
    if bits.len() == 0 || !bits.last() {
        0
    } else {
        trailing_ones(bits.drop_last()) + 1
    }
}

/// `sent` with a zero behind it where it ends in six ones.
pub open spec fn break_run(sent: Seq<bool>) -> Seq<bool> {
    if trailing_ones(sent) == 6 {
        sent.push(false)
    } else {
        sent
    }
}

/// Bit stuffing: the bits of `bits` in order, with a zero inserted whenever six ones in a
/// row have been sent.
pub open spec fn stuffed(bits: Seq<bool>) -> Seq<bool>
    decreases bits.len(),
{
    if bits.len() == 0 {
        bits
    } else {
        break_run(stuffed(bits.drop_last()).push(bits.last()))
    }
}

/// Whether the line is in the K state once `bits` have been sent. It starts in K; a zero
/// changes the state and a one keeps it.
pub open spec fn level(bits: Seq<bool>) -> bool
    decreases bits.len(),
{
    if bits.len() == 0 {
        true
    } else {
        level(bits.drop_last()) == bits.last()
    }
}

/// The instruction that drives a line state.
pub open spec fn symbol(level: bool) -> u8 {
    if level {
        PIO_USB_TX_ENCODED_DATA_K
    } else {
        PIO_USB_TX_ENCODED_DATA_J
    }
}

/// NRZI: for each bit, the line state that the bits up to and with it lead to.
pub open spec fn nrzi(bits: Seq<bool>) -> Seq<u8> {
    Seq::new(bits.len(), |i: int| symbol(level(bits.take(i + 1))))
}

/// The end-of-packet sequence.
pub open spec fn end_of_packet() -> Seq<u8> {
    seq![PIO_USB_TX_ENCODED_DATA_SE0, PIO_USB_TX_ENCODED_DATA_COMP]
}

/// `symbols` filled up with K to a multiple of four.
pub open spec fn padded(symbols: Seq<u8>) -> Seq<u8> {
    symbols + Seq::new(((4 - symbols.len() % 4) % 4) as nat, |i: int| PIO_USB_TX_ENCODED_DATA_K)
}

/// The instructions of a whole packet, in the order in which the PIO executes them.
pub open spec fn symbols_of(buffer: Seq<u8>) -> Seq<u8> {
    padded(nrzi(stuffed(bits_of(buffer))) + end_of_packet())
}

/// Four instructions in one byte, the first in the two highest bits.
pub open spec fn quad(symbols: Seq<u8>) -> u8
    recommends
        symbols.len() == 4,
{
    (64 * symbols[0] + 16 * symbols[1] + 4 * symbols[2] + symbols[3]) as u8
}

/// A stream of instructions packed four to a byte.
pub open spec fn packed(symbols: Seq<u8>) -> Seq<u8> {
    Seq::new(symbols.len() / 4, |j: int| quad(symbols.subrange(4 * j, 4 * j + 4)))
}

/// The bytes that make the PIO send the packet `buffer`.
pub open spec fn encoded(buffer: Seq<u8>) -> Seq<u8> {
    packed(symbols_of(buffer))
}

/// The number that `symbols` spell in base four.
spec fn base4(symbols: Seq<u8>) -> int
    decreases symbols.len(),
{
    if symbols.len() == 0 {
        0
    } else {
        4 * base4(symbols.drop_last()) + symbols.last()
    }
}

/// The instructions that share byte `j`, as far as they are there.
spec fn group(symbols: Seq<u8>, j: int) -> Seq<u8> {
    symbols.subrange(4 * j, if 4 * j + 4 <= symbols.len() { 4 * j + 4 } else { symbols.len() as int })
}

/// The buffer `data`, which held `init` at first, has taken `symbols` so far.
#[verifier::opaque]
spec fn holds(data: Seq<u8>, init: Seq<u8>, symbols: Seq<u8>) -> bool {
    &&& data.len() == init.len()
    &&& symbols.len() <= 4 * data.len()
    &&& forall|i: int| 0 <= i < symbols.len() ==> #[trigger] symbols[i] <= 3
    &&& forall|j: int|
        0 <= j < data.len() ==> #[trigger] data[j] == if 4 * j < symbols.len() {
            base4(group(symbols, j))
        } else {
            init[j] as int
        }
}

proof fn lemma_base4_bound(symbols: Seq<u8>)
    requires
        symbols.len() <= 4,
        forall|i: int| 0 <= i < symbols.len() ==> #[trigger] symbols[i] <= 3,
    ensures
        0 <= base4(symbols),
        symbols.len() == 0 ==> base4(symbols) == 0,
        symbols.len() <= 1 ==> base4(symbols) < 4,
        symbols.len() <= 2 ==> base4(symbols) < 16,
        symbols.len() <= 3 ==> base4(symbols) < 64,
        base4(symbols) < 256,
    decreases symbols.len(),
{
    if symbols.len() > 0 {
        lemma_base4_bound(symbols.drop_last());
        assert(symbols.last() == symbols[symbols.len() - 1]);
    }
}

/// `data` after the instruction with number `bit_idx` has been written into it.
spec fn written(data: Seq<u8>, bit_idx: int, state: u8) -> Seq<u8> {
    data.update(
        bit_idx / 4,
        if bit_idx % 4 == 0 {
            state
        } else {
            (data[bit_idx / 4] << 2u8) | state
        },
    )
}

/// Writing one more instruction keeps `holds`.
proof fn lemma_holds_push(data: Seq<u8>, init: Seq<u8>, symbols: Seq<u8>, state: u8)
    requires
        holds(data, init, symbols),
        symbols.len() < 4 * data.len(),
        state <= 3,
    ensures
        holds(written(data, symbols.len() as int, state), init, symbols.push(state)),
{
    reveal(holds);
    let n = symbols.len() as int;
    let after = written(data, n, state);
    let longer = symbols.push(state);
    assert forall|j: int| 0 <= j < after.len() implies #[trigger] after[j] == if 4 * j
        < longer.len() {
        base4(group(longer, j))
    } else {
        init[j] as int
    } by {
        if j == n / 4 {
            assert(group(longer, j).drop_last() =~= symbols.subrange(4 * j, n));
            assert(group(longer, j).last() == state);
            if n % 4 == 0 {
                lemma_base4_bound(symbols.subrange(4 * j, n));
            } else {
                assert(group(symbols, j) =~= symbols.subrange(4 * j, n));
                lemma_base4_bound(group(symbols, j));
                let before = data[j];
                assert(before < 64 && state <= 3 ==> (before << 2u8) | state == 4 * before + state)
                    by (bit_vector);
            }
        } else if 4 * j < n {
            assert(data[j] == base4(group(symbols, j)));
            assert(group(longer, j) =~= group(symbols, j));
        } else {
            assert(data[j] == init[j]);
        }
    }
}

/// A buffer that holds whole groups of four holds the packed stream.
proof fn lemma_holds_packed(data: Seq<u8>, init: Seq<u8>, symbols: Seq<u8>)
    requires
        holds(data, init, symbols),
        symbols.len() % 4 == 0,
    ensures
        data == packed(symbols) + init.skip(symbols.len() as int / 4),
{
    reveal(holds);
    let result = packed(symbols) + init.skip(symbols.len() as int / 4);
    assert forall|j: int| 0 <= j < data.len() implies data[j] == result[j] by {
        if 4 * j < symbols.len() {
            let four = symbols.subrange(4 * j, 4 * j + 4);
            assert(group(symbols, j) == four);
            lemma_base4_bound(four);
            reveal_with_fuel(base4, 5);
        }
    }
    assert(data =~= result);
}

/// Stuffing bit by bit never takes back what has been sent.
proof fn lemma_stuffed_take(bits: Seq<bool>, k: int)
    requires
        0 <= k <= bits.len(),
    ensures
        stuffed(bits.take(k)).len() <= stuffed(bits).len(),
        stuffed(bits.take(k)) == stuffed(bits).take(stuffed(bits.take(k)).len() as int),
    decreases bits.len() - k,
{
    if k == bits.len() {
        assert(bits.take(k) =~= bits);
        assert(stuffed(bits).take(stuffed(bits).len() as int) =~= stuffed(bits));
    } else {
        lemma_stuffed_take(bits, k + 1);
        assert(bits.take(k + 1).drop_last() =~= bits.take(k));
        let shorter = stuffed(bits.take(k));
        assert(stuffed(bits.take(k + 1)).take(shorter.len() as int) =~= shorter);
        assert(stuffed(bits).take(shorter.len() as int) =~= stuffed(bits.take(k + 1)).take(
            shorter.len() as int,
        ));
    }
}

/// One more bit on the line adds one symbol.
proof fn lemma_nrzi_push(bits: Seq<bool>, bit: bool)
    ensures
        nrzi(bits.push(bit)) == nrzi(bits).push(symbol(level(bits.push(bit)))),
        level(bits.push(bit)) == (level(bits) == bit),
{
    let longer = bits.push(bit);
    assert(longer.drop_last() =~= bits);
    assert(longer.take(longer.len() as int) =~= longer);
    assert forall|i: int| 0 <= i < bits.len() implies nrzi(longer)[i] == nrzi(bits)[i] by {
        assert(longer.take(i + 1) =~= bits.take(i + 1));
    }
    assert(nrzi(longer) =~= nrzi(bits).push(symbol(level(longer))));
}

/// The run of ones at the end after one more bit.
pub(crate) proof fn lemma_trailing_ones_push(bits: Seq<bool>, bit: bool)
    ensures
        trailing_ones(bits.push(bit)) == if bit {
            trailing_ones(bits) + 1
        } else {
            0
        },
{
    assert(bits.push(bit).drop_last() =~= bits);
}

/// Writes one instruction into its place in the buffer.
fn push_bit(encoded_data: &mut [u8], bit_idx: usize, state: u8)
    requires
        bit_idx < 4 * old(encoded_data)@.len(),
    ensures
        final(encoded_data)@ == written(old(encoded_data)@, bit_idx as int, state),
{
    assert(bit_idx >> 2usize == bit_idx / 4) by (bit_vector);
    assert(bit_idx & 3usize == bit_idx % 4) by (bit_vector);
    assert((0u8 << 2u8) | state == state) by (bit_vector);
    let byte_idx: usize = bit_idx >> 2;
    if bit_idx & 3 == 0 {
        encoded_data[byte_idx] = 0;
    }
    encoded_data[byte_idx] = (encoded_data[byte_idx] << 2) | state;
}

/// The instruction for the line state `current_state`, where 1 stands for K.
fn state_symbol(current_state: u8) -> (state: u8)
    ensures
        state == symbol(current_state == 1),
{
    if current_state == 1 {
        PIO_USB_TX_ENCODED_DATA_K
    } else {
        PIO_USB_TX_ENCODED_DATA_J
    }
}

/// Encodes a raw USB packet into PIO TX instructions.
///
/// Applies NRZI encoding and bit stuffing, appends the end-of-packet sequence (SE0, COMP)
/// and pads the remaining bits of the last byte with the K state.
///
/// `buffer` is the raw packet (SYNC, PID, data, CRC); `encoded_data` takes the
/// instructions and has to be large enough for them, and their number has to fit a `usize`.
/// Returns the number of bytes written.
pub fn encode_tx_data(buffer: &[u8], encoded_data: &mut [u8]) -> (written: usize)
    requires
        encoded(buffer@).len() <= old(encoded_data)@.len(),
        4 * encoded(buffer@).len() <= usize::MAX,
    ensures
        written == encoded(buffer@).len(),
        final(encoded_data)@ == encoded(buffer@) + old(encoded_data)@.skip(written as int),
{
    let ghost init = encoded_data@;
    let ghost bits = bits_of(buffer@);
    let ghost total = stuffed(bits);
    let mut bit_idx: usize = 0;
    let mut current_state: u8 = 1;
    let mut bit_stuffing: u8 = 6;
    proof {
        assert(bits.take(0) =~= Seq::<bool>::empty());
        assert(nrzi(stuffed(bits.take(0))) =~= Seq::<u8>::empty());
        assert(holds(init, init, Seq::<u8>::empty())) by {
            reveal(holds);
        }
    }
    let mut index: usize = 0;
    while index < buffer.len()
        invariant
            index <= buffer@.len(),
            bits == bits_of(buffer@),
            total == stuffed(bits),
            total.len() + 2 <= 4 * init.len(),
            total.len() + 2 <= usize::MAX,
            current_state <= 1,
            1 <= bit_stuffing <= 6,
            encoded_data@.len() == init.len(),
            holds(encoded_data@, init, nrzi(stuffed(bits.take(8 * index as int)))),
            bit_idx == stuffed(bits.take(8 * index as int)).len(),
            current_state == 1 <==> level(stuffed(bits.take(8 * index as int))),
            bit_stuffing + trailing_ones(stuffed(bits.take(8 * index as int))) == 6,
        decreases buffer@.len() - index,
    {
        let data_byte: u8 = buffer[index];
        let mut b: u8 = 0;
        while b < 8
            invariant
                b <= 8,
                index < buffer@.len(),
                data_byte == buffer@[index as int],
                bits == bits_of(buffer@),
                total == stuffed(bits),
                total.len() + 2 <= 4 * init.len(),
                total.len() + 2 <= usize::MAX,
                current_state <= 1,
                1 <= bit_stuffing <= 6,
                encoded_data@.len() == init.len(),
                holds(encoded_data@, init, nrzi(stuffed(bits.take(8 * index + b)))),
                bit_idx == stuffed(bits.take(8 * index + b)).len(),
                current_state == 1 <==> level(stuffed(bits.take(8 * index + b))),
                bit_stuffing + trailing_ones(stuffed(bits.take(8 * index + b))) == 6,
            decreases 8 - b,
        {
            let ghost k = 8 * index + b;
            let ghost sent = stuffed(bits.take(k));
            let ghost bit = bits[k];
            proof {
                lemma_stuffed_take(bits, k + 1);
                assert(bits.take(k + 1).drop_last() =~= bits.take(k));
                assert(stuffed(bits.take(k + 1)) == break_run(sent.push(bit)));
                lemma_nrzi_push(sent, bit);
                lemma_trailing_ones_push(sent, bit);
                lemma_holds_push(encoded_data@, init, nrzi(sent), symbol(level(sent.push(bit))));
                assert(k / 8 == index && k % 8 == b);
                assert(0u8 ^ 1u8 == 1u8 && 1u8 ^ 1u8 == 0u8) by (bit_vector);
            }
            if (data_byte & (1u8 << b)) != 0 {
                push_bit(encoded_data, bit_idx, state_symbol(current_state));
                bit_stuffing = bit_stuffing - 1;
            } else {
                current_state = current_state ^ 1;
                push_bit(encoded_data, bit_idx, state_symbol(current_state));
                bit_stuffing = 6;
            }
            bit_idx = bit_idx + 1;
            if bit_stuffing == 0 {
                proof {
                    let run = sent.push(bit);
                    lemma_nrzi_push(run, false);
                    lemma_trailing_ones_push(run, false);
                    lemma_holds_push(
                        encoded_data@,
                        init,
                        nrzi(run),
                        symbol(level(run.push(false))),
                    );
                }
                current_state = current_state ^ 1;
                push_bit(encoded_data, bit_idx, state_symbol(current_state));
                bit_stuffing = 6;
                bit_idx = bit_idx + 1;
            }
            b = b + 1;
        }
        index = index + 1;
    }
    proof {
        assert(bits.take(8 * buffer@.len() as int) =~= bits);
    }
    let ghost line = nrzi(total);
    let ghost with_se0 = line.push(PIO_USB_TX_ENCODED_DATA_SE0);
    let ghost whole = line + end_of_packet();
    proof {
        lemma_holds_push(encoded_data@, init, line, PIO_USB_TX_ENCODED_DATA_SE0);
    }
    push_bit(encoded_data, bit_idx, PIO_USB_TX_ENCODED_DATA_SE0);
    bit_idx = bit_idx + 1;
    proof {
        lemma_holds_push(encoded_data@, init, with_se0, PIO_USB_TX_ENCODED_DATA_COMP);
        assert(with_se0.push(PIO_USB_TX_ENCODED_DATA_COMP) =~= whole);
    }
    push_bit(encoded_data, bit_idx, PIO_USB_TX_ENCODED_DATA_COMP);
    bit_idx = bit_idx + 1;
    proof {
        assert(bit_idx & 3usize == bit_idx % 4) by (bit_vector);
        assert(padded(whole).take(bit_idx as int) =~= whole);
    }
    while (bit_idx & 3) != 0
        invariant
            whole.len() <= bit_idx <= padded(whole).len(),
            padded(whole).len() <= 4 * init.len(),
            padded(whole).len() <= usize::MAX,
            encoded_data@.len() == init.len(),
            holds(encoded_data@, init, padded(whole).take(bit_idx as int)),
        decreases padded(whole).len() - bit_idx,
    {
        proof {
            assert(bit_idx & 3usize == bit_idx % 4) by (bit_vector);
            let now = padded(whole).take(bit_idx as int);
            lemma_holds_push(encoded_data@, init, now, PIO_USB_TX_ENCODED_DATA_K);
            assert(now.push(PIO_USB_TX_ENCODED_DATA_K) =~= padded(whole).take(bit_idx + 1));
        }
        push_bit(encoded_data, bit_idx, PIO_USB_TX_ENCODED_DATA_K);
        bit_idx = bit_idx + 1;
    }
    proof {
        assert(bit_idx & 3usize == bit_idx % 4) by (bit_vector);
        assert(bit_idx >> 2usize == bit_idx / 4) by (bit_vector);
        assert(bit_idx == padded(whole).len());
        assert(padded(whole).take(bit_idx as int) =~= padded(whole));
        lemma_holds_packed(encoded_data@, init, padded(whole));
    }
    bit_idx >> 2
}

} // verus!
