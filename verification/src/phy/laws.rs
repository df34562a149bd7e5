//! What the line coding guarantees of every packet.
use vstd::prelude::*;
use crate::phy;

verus! {

/// The instructions of a packed stream, one by one.
pub open spec fn unpacked(data: Seq<u8>) -> Seq<u8> {
    Seq::new(
        4 * data.len(),
        |i: int|
            (if i % 4 == 0 {
                data[i / 4] / 64
            } else if i % 4 == 1 {
                data[i / 4] / 16 % 4
            } else if i % 4 == 2 {
                data[i / 4] / 4 % 4
            } else {
                data[i / 4] % 4
            }),
    )
}

/// The line states before the first SE0.
pub open spec fn before_se0(symbols: Seq<u8>) -> Seq<u8>
    decreases symbols.len(),
{
    if symbols.len() == 0 || symbols[0] == phy::PIO_USB_TX_ENCODED_DATA_SE0 {
        Seq::empty()
    } else {
        seq![symbols[0]] + before_se0(symbols.drop_first())
    }
}

/// The bits that a receiver reads off the line: a one wherever the state stays what it
/// was, with K before the first bit.
pub open spec fn nrzi_bits(symbols: Seq<u8>) -> Seq<bool> {
    Seq::new(
        symbols.len(),
        |i: int|
            symbols[i] == if i == 0 {
                phy::PIO_USB_TX_ENCODED_DATA_K
            } else {
                symbols[i - 1]
            },
    )
}

/// `sent` without the bits that stand behind six ones.
pub open spec fn unstuffed(sent: Seq<bool>) -> Seq<bool>
    decreases sent.len(),
{
    if sent.len() == 0 {
        sent
    } else if phy::trailing_ones(sent.drop_last()) == 6 {
        unstuffed(sent.drop_last())
    } else {
        unstuffed(sent.drop_last()).push(sent.last())
    }
}

/// 1 for a one and 0 for a zero.
pub open spec fn bit_value(bit: bool) -> int {
    if bit {
        1
    } else {
        0
    }
}

/// The byte that eight bits spell, the least significant first.
pub open spec fn byte_of(bits: Seq<bool>) -> u8
    recommends
        bits.len() == 8,
{
    (bit_value(bits[0]) + 2 * bit_value(bits[1]) + 4 * bit_value(bits[2]) + 8 * bit_value(bits[3])
        + 16 * bit_value(bits[4]) + 32 * bit_value(bits[5]) + 64 * bit_value(bits[6]) + 128
        * bit_value(bits[7])) as u8
}

/// The bytes that a stream of bits spells.
pub open spec fn bytes_of(bits: Seq<bool>) -> Seq<u8> {
    Seq::new(bits.len() / 8, |j: int| byte_of(bits.subrange(8 * j, 8 * j + 8)))
}

/// What a receiver makes of the instructions in `data`.
pub open spec fn decoded(data: Seq<u8>) -> Seq<u8> {
    bytes_of(unstuffed(nrzi_bits(before_se0(unpacked(data)))))
}

/// A stuffed stream never ends in six ones.
proof fn lemma_stuffed_tail(bits: Seq<bool>)
    ensures
        phy::trailing_ones(phy::stuffed(bits)) < 6,
    decreases bits.len(),
{
    if bits.len() > 0 {
        lemma_stuffed_tail(bits.drop_last());
        let sent = phy::stuffed(bits.drop_last());
        phy::lemma_trailing_ones_push(sent, bits.last());
        phy::lemma_trailing_ones_push(sent.push(bits.last()), false);
    }
}

proof fn lemma_trailing_ones_window(bits: Seq<bool>, n: nat)
    requires
        n <= bits.len(),
        forall|i: int| bits.len() - n <= i < bits.len() ==> #[trigger] bits[i],
    ensures
        phy::trailing_ones(bits) >= n,
    decreases n,
{
    if n > 0 {
        assert(bits[bits.len() - 1]);
        assert forall|i: int|
            bits.drop_last().len() - (n - 1) <= i < bits.drop_last().len() implies #[trigger] bits.drop_last()[i] by {
            assert(bits[i]);
        }
        lemma_trailing_ones_window(bits.drop_last(), (n - 1) as nat);
    }
}

/// Six ones in a row on the line are always followed by a zero.
pub proof fn law_zero_after_six_ones(bits: Seq<bool>, i: int)
    requires
        0 <= i,
        i + 6 <= phy::stuffed(bits).len(),
        forall|k: int| i <= k < i + 6 ==> #[trigger] phy::stuffed(bits)[k],
    ensures
        i + 6 < phy::stuffed(bits).len(),
        !phy::stuffed(bits)[i + 6],
    decreases bits.len(),
{
    if bits.len() > 0 {
        let sent = phy::stuffed(bits.drop_last());
        let longer = sent.push(bits.last());
        let all = phy::stuffed(bits);
        lemma_stuffed_tail(bits.drop_last());
        phy::lemma_trailing_ones_push(sent, bits.last());
        if i + 6 <= sent.len() {
            assert forall|k: int| i <= k < i + 6 implies #[trigger] sent[k] by {
                assert(all[k]);
            }
            law_zero_after_six_ones(bits.drop_last(), i);
        } else if i + 6 == longer.len() {
            assert forall|k: int| longer.len() - 6 <= k < longer.len() implies #[trigger] longer[k] by {
                assert(all[k]);
            }
            lemma_trailing_ones_window(longer, 6);
        } else {
            assert(all[i + 5]);
        }
    }
}

/// The line never keeps one state for eight bit times within a packet.
pub proof fn law_line_changes(bits: Seq<bool>, i: int)
    requires
        0 <= i,
        i + 8 <= phy::nrzi(phy::stuffed(bits)).len(),
    ensures
        exists|k: int|
            i < k < i + 8 && #[trigger] phy::nrzi(phy::stuffed(bits))[k] != phy::nrzi(
                phy::stuffed(bits),
            )[i],
{
    let sent = phy::stuffed(bits);
    let line = phy::nrzi(sent);
    if forall|k: int| i < k < i + 8 ==> #[trigger] line[k] == line[i] {
        assert forall|k: int| i + 1 <= k < i + 7 implies #[trigger] sent[k] by {
            assert(sent.take(k + 1).drop_last() =~= sent.take(k));
            assert(line[k] == line[i]);
            assert(k - 1 == i || line[k - 1] == line[i]);
        }
        law_zero_after_six_ones(bits, i + 1);
        assert(sent.take(i + 8).drop_last() =~= sent.take(i + 7));
        assert(line[i + 7] == line[i]);
        assert(line[i + 6] == line[i]);
    }
}

/// A packet on the line is J and K states, then SE0 and COMP, then K up to the next
/// multiple of four.
pub proof fn law_packet_shape(buffer: Seq<u8>)
    ensures
        ({
            let line = phy::symbols_of(buffer);
            let n = phy::stuffed(phy::bits_of(buffer)).len() as int;
            &&& n + 2 <= line.len() < n + 6
            &&& line.len() % 4 == 0
            &&& forall|i: int|
                0 <= i < n ==> #[trigger] line[i] == phy::PIO_USB_TX_ENCODED_DATA_J || line[i]
                    == phy::PIO_USB_TX_ENCODED_DATA_K
            &&& line[n] == phy::PIO_USB_TX_ENCODED_DATA_SE0
            &&& line[n + 1] == phy::PIO_USB_TX_ENCODED_DATA_COMP
            &&& forall|i: int|
                n + 2 <= i < line.len() ==> #[trigger] line[i] == phy::PIO_USB_TX_ENCODED_DATA_K
        }),
{
}

proof fn lemma_stuffed_len(bits: Seq<bool>)
    ensures
        bits.len() <= phy::stuffed(bits).len(),
        6 * (phy::stuffed(bits).len() - bits.len()) + phy::trailing_ones(phy::stuffed(bits))
            <= bits.len(),
    decreases bits.len(),
{
    if bits.len() > 0 {
        let sent = phy::stuffed(bits.drop_last());
        lemma_stuffed_len(bits.drop_last());
        phy::lemma_trailing_ones_push(sent, bits.last());
        phy::lemma_trailing_ones_push(sent.push(bits.last()), false);
    }
}

/// A packet of `n` bytes takes at least `2 * n + 1` and at most `n * 2 * 7 / 6 + 2` bytes
/// of instructions.
pub proof fn law_encoded_len(buffer: Seq<u8>)
    ensures
        2 * buffer.len() + 1 <= phy::encoded(buffer).len() <= buffer.len() * 2 * 7 / 6 + 2,
{
    lemma_stuffed_len(phy::bits_of(buffer));
}

proof fn lemma_unpacked(symbols: Seq<u8>)
    requires
        symbols.len() % 4 == 0,
        forall|i: int| 0 <= i < symbols.len() ==> #[trigger] symbols[i] <= 3,
    ensures
        unpacked(phy::packed(symbols)) == symbols,
{
    assert forall|i: int| 0 <= i < symbols.len() implies unpacked(phy::packed(symbols))[i]
        == symbols[i] by {
        let j = i / 4;
        let four = symbols.subrange(4 * j, 4 * j + 4);
        assert(four[0] <= 3 && four[1] <= 3 && four[2] <= 3 && four[3] <= 3) by {
            assert(symbols[4 * j] <= 3 && symbols[4 * j + 1] <= 3 && symbols[4 * j + 2] <= 3
                && symbols[4 * j + 3] <= 3);
        }
        assert(phy::packed(symbols)[j] == phy::quad(four));
    }
    assert(unpacked(phy::packed(symbols)) =~= symbols);
}

proof fn lemma_before_se0(line: Seq<u8>, rest: Seq<u8>)
    requires
        forall|i: int| 0 <= i < line.len() ==> #[trigger] line[i] != phy::PIO_USB_TX_ENCODED_DATA_SE0,
        rest.len() > 0,
        rest[0] == phy::PIO_USB_TX_ENCODED_DATA_SE0,
    ensures
        before_se0(line + rest) == line,
    decreases line.len(),
{
    if line.len() == 0 {
        assert(before_se0(line + rest) =~= line);
    } else {
        assert(line[0] != phy::PIO_USB_TX_ENCODED_DATA_SE0);
        assert forall|i: int| 0 <= i < line.drop_first().len() implies #[trigger] line.drop_first()[i]
            != phy::PIO_USB_TX_ENCODED_DATA_SE0 by {
            assert(line[i + 1] != phy::PIO_USB_TX_ENCODED_DATA_SE0);
        }
        lemma_before_se0(line.drop_first(), rest);
        assert((line + rest).drop_first() =~= line.drop_first() + rest);
        assert(seq![line[0]] + line.drop_first() =~= line);
    }
}

proof fn lemma_nrzi_bits(bits: Seq<bool>)
    ensures
        nrzi_bits(phy::nrzi(bits)) == bits,
{
    assert forall|i: int| 0 <= i < bits.len() implies nrzi_bits(phy::nrzi(bits))[i] == bits[i] by {
        assert(bits.take(i + 1).drop_last() =~= bits.take(i));
        assert(phy::level(bits.take(i + 1)) == (phy::level(bits.take(i)) == bits[i]));
        if i == 0 {
            assert(phy::level(bits.take(i)));
        } else {
            assert(phy::nrzi(bits)[i - 1] == phy::symbol(phy::level(bits.take(i))));
        }
    }
    assert(nrzi_bits(phy::nrzi(bits)) =~= bits);
}

proof fn lemma_unstuffed(bits: Seq<bool>)
    ensures
        unstuffed(phy::stuffed(bits)) == bits,
    decreases bits.len(),
{
    if bits.len() > 0 {
        let sent = phy::stuffed(bits.drop_last());
        let longer = sent.push(bits.last());
        lemma_unstuffed(bits.drop_last());
        lemma_stuffed_tail(bits.drop_last());
        assert(longer.drop_last() =~= sent);
        assert(longer.push(false).drop_last() =~= longer);
        assert(unstuffed(longer) == unstuffed(sent).push(bits.last()));
        assert(bits.drop_last().push(bits.last()) =~= bits);
    }
}

proof fn lemma_byte_bits(byte: u8)
    ensures
        byte == bit_value(phy::bit_of(byte, 0)) + 2 * bit_value(phy::bit_of(byte, 1)) + 4
            * bit_value(phy::bit_of(byte, 2)) + 8 * bit_value(phy::bit_of(byte, 3)) + 16
            * bit_value(phy::bit_of(byte, 4)) + 32 * bit_value(phy::bit_of(byte, 5)) + 64
            * bit_value(phy::bit_of(byte, 6)) + 128 * bit_value(phy::bit_of(byte, 7)),
{
    assert(byte == (if byte & (1u8 << 0u8) != 0 { 1int } else { 0 }) + 2 * (if byte & (1u8 << 1u8)
        != 0 { 1int } else { 0 }) + 4 * (if byte & (1u8 << 2u8) != 0 { 1int } else { 0 }) + 8 * (if byte
        & (1u8 << 3u8) != 0 { 1int } else { 0 }) + 16 * (if byte & (1u8 << 4u8) != 0 { 1int } else { 0 })
        + 32 * (if byte & (1u8 << 5u8) != 0 { 1int } else { 0 }) + 64 * (if byte & (1u8 << 6u8) != 0 {
        1int
    } else {
        0
    }) + 128 * (if byte & (1u8 << 7u8) != 0 { 1int } else { 0 })) by (bit_vector);
}

proof fn lemma_byte_of(eight: Seq<bool>, byte: u8)
    requires
        eight.len() == 8,
        forall|b: int| 0 <= b < 8 ==> #[trigger] eight[b] == phy::bit_of(byte, b),
    ensures
        byte_of(eight) == byte,
{
    lemma_byte_bits(byte);
}

proof fn lemma_bytes_of(buffer: Seq<u8>)
    ensures
        bytes_of(phy::bits_of(buffer)) == buffer,
{
    let bits = phy::bits_of(buffer);
    assert forall|j: int| 0 <= j < buffer.len() implies #[trigger] bytes_of(bits)[j] == buffer[j] by {
        let eight = bits.subrange(8 * j, 8 * j + 8);
        assert forall|b: int| 0 <= b < 8 implies #[trigger] eight[b] == phy::bit_of(buffer[j], b) by {
            assert((8 * j + b) / 8 == j && (8 * j + b) % 8 == b);
        }
        lemma_byte_of(eight, buffer[j]);
    }
    assert(bytes_of(bits) =~= buffer);
}

proof fn lemma_unpacked_concat(first: Seq<u8>, second: Seq<u8>)
    ensures
        unpacked(first + second) == unpacked(first) + unpacked(second),
{
    let both = unpacked(first + second);
    let parts = unpacked(first) + unpacked(second);
    assert forall|i: int| 0 <= i < both.len() implies both[i] == parts[i] by {
        if i >= 4 * first.len() {
            assert(i / 4 - first.len() == (i - 4 * first.len()) / 4);
            assert(i % 4 == (i - 4 * first.len()) % 4);
        }
    }
    assert(both =~= parts);
}

/// The line states come back out of the instructions that they are packed into.
proof fn lemma_line_recovered(line: Seq<u8>, rest: Seq<u8>)
    requires
        forall|i: int|
            0 <= i < line.len() ==> #[trigger] line[i] == phy::PIO_USB_TX_ENCODED_DATA_J || line[i]
                == phy::PIO_USB_TX_ENCODED_DATA_K,
    ensures
        before_se0(unpacked(phy::packed(phy::padded(line + phy::end_of_packet())) + rest)) == line,
{
    let all = phy::padded(line + phy::end_of_packet());
    let tail = all.skip(line.len() as int) + unpacked(rest);
    lemma_unpacked(all);
    lemma_unpacked_concat(phy::packed(all), rest);
    assert(all + unpacked(rest) =~= line + tail);
    assert(tail[0] == all[line.len() as int]);
    lemma_before_se0(line, tail);
}

/// A receiver recovers every packet from its instructions, whatever follows them.
pub proof fn law_decode_encoded(buffer: Seq<u8>, rest: Seq<u8>)
    ensures
        decoded(phy::encoded(buffer) + rest) == buffer,
{
    let bits = phy::bits_of(buffer);
    lemma_line_recovered(phy::nrzi(phy::stuffed(bits)), rest);
    lemma_nrzi_bits(phy::stuffed(bits));
    lemma_unstuffed(bits);
    lemma_bytes_of(buffer);
}

/// No two packets have the same instructions, nor does one packet's encoding begin
/// another's.
pub proof fn law_encoding_unambiguous(first: Seq<u8>, second: Seq<u8>)
    requires
        phy::encoded(first).is_prefix_of(phy::encoded(second)),
    ensures
        first == second,
{
    let rest = phy::encoded(second).skip(phy::encoded(first).len() as int);
    assert(phy::encoded(first) + rest =~= phy::encoded(second));
    law_decode_encoded(first, rest);
    law_decode_encoded(second, Seq::empty());
    assert(phy::encoded(second) + Seq::<u8>::empty() =~= phy::encoded(second));
}

/// The run of ones at the end of `bits` is as long as it is counted: so many ones, and in
/// front of them a zero or nothing.
pub proof fn law_trailing_ones(bits: Seq<bool>)
    ensures
        phy::trailing_ones(bits) <= bits.len(),
        forall|i: int|
            bits.len() - phy::trailing_ones(bits) <= i < bits.len() ==> #[trigger] bits[i],
        phy::trailing_ones(bits) < bits.len() ==> !bits[bits.len() - phy::trailing_ones(bits) - 1],
    decreases bits.len(),
{
    if bits.len() > 0 && bits.last() {
        let shorter = bits.drop_last();
        law_trailing_ones(shorter);
        assert forall|i: int|
            bits.len() - phy::trailing_ones(bits) <= i < bits.len() implies #[trigger] bits[i] by {
            if i < shorter.len() {
                assert(shorter[i]);
            }
        }
    }
}

/// `data` are the instructions for exactly the packet `packet`: J and K states, then SE0 and
/// COMP, then K up to the end of the byte. Read off the line, no six ones stand without a zero
/// behind them; without those zeros eight bits are left for each byte, and they spell the
/// packet.
#[verifier::opaque]
pub open spec fn carries(data: Seq<u8>, packet: Seq<u8>) -> bool {
    let line = unpacked(data);
    let states = before_se0(line);
    let sent = nrzi_bits(states);
    let n = states.len() as int;
    &&& n + 2 <= line.len() < n + 6
    &&& forall|i: int|
        0 <= i < n ==> #[trigger] line[i] == phy::PIO_USB_TX_ENCODED_DATA_J || line[i]
            == phy::PIO_USB_TX_ENCODED_DATA_K
    &&& line[n] == phy::PIO_USB_TX_ENCODED_DATA_SE0
    &&& line[n + 1] == phy::PIO_USB_TX_ENCODED_DATA_COMP
    &&& forall|i: int|
        n + 2 <= i < line.len() ==> #[trigger] line[i] == phy::PIO_USB_TX_ENCODED_DATA_K
    &&& forall|i: int| #[trigger] six_ones(sent, i) ==> i + 6 < n && !sent[i + 6]
    &&& unstuffed(sent).len() == 8 * packet.len()
    &&& bytes_of(unstuffed(sent)) == packet
}

/// Six ones stand in `sent` from `i` on.
pub open spec fn six_ones(sent: Seq<bool>, i: int) -> bool {
    &&& 0 <= i
    &&& i + 6 <= sent.len()
    &&& forall|k: int| i <= k < i + 6 ==> #[trigger] sent[k]
}

/// The instructions for a packet carry that packet.
pub proof fn law_encoded_carries(packet: Seq<u8>)
    ensures
        carries(phy::encoded(packet), packet),
{
    reveal(carries);
    let bits = phy::bits_of(packet);
    let states = phy::nrzi(phy::stuffed(bits));
    lemma_line_recovered(states, Seq::empty());
    assert(phy::encoded(packet) + Seq::<u8>::empty() =~= phy::encoded(packet));
    lemma_unpacked(phy::symbols_of(packet));
    lemma_nrzi_bits(phy::stuffed(bits));
    lemma_unstuffed(bits);
    lemma_bytes_of(packet);
    law_packet_shape(packet);
    assert forall|i: int| #[trigger] six_ones(phy::stuffed(bits), i) implies i + 6
        < phy::stuffed(bits).len() && !phy::stuffed(bits)[i + 6] by {
        law_zero_after_six_ones(bits, i);
    }
}

/// A receiver recovers the packet that instructions carry.
pub proof fn law_carries_decodes(data: Seq<u8>, packet: Seq<u8>)
    requires
        carries(data, packet),
    ensures
        decoded(data) == packet,
{
    reveal(carries);
}

/// What stands in front can be taken off again.
proof fn lemma_front(all: Seq<u8>, front: Seq<u8>, behind: Seq<u8>)
    requires
        all == front + behind.skip(front.len() as int),
        front.len() <= behind.len(),
    ensures
        all.len() == behind.len(),
        all.take(front.len() as int) == front,
        forall|i: int| front.len() <= i < behind.len() ==> #[trigger] all[i] == behind[i],
{
    assert(all.take(front.len() as int) =~= front);
}

/// Encoding writes instructions that carry exactly the packet, tells how many bytes they take,
/// and leaves the buffer behind them alone.
pub proof fn law_encode(buffer: &[u8], encoded_data: &mut [u8], written: usize)
    requires
        buffer@.len() * 2 * 7 / 6 + 2 <= encoded_data@.len(),
        4 * encoded_data@.len() <= usize::MAX,
        call_ensures(phy::encode_tx_data, (buffer, encoded_data), written),
    ensures
        written <= old(encoded_data)@.len(),
        final(encoded_data)@.len() == old(encoded_data)@.len(),
        carries(final(encoded_data)@.take(written as int), buffer@),
        forall|i: int|
            written <= i < old(encoded_data)@.len() ==> #[trigger] final(encoded_data)@[i] == old(
                encoded_data,
            )@[i],
{
    law_encoded_len(buffer@);
    law_encoded_carries(buffer@);
    lemma_front(final(encoded_data)@, phy::encoded(buffer@), old(encoded_data)@);
}

} // verus!
