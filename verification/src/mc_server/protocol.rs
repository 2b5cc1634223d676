//! Wire codec of the Server List Ping protocol: VarInts, length-prefixed
//! strings and packet frames.

use crate::error::{ProtocolError, ProtocolErrorView};
use vstd::prelude::*;
use vstd::slice::slice_subrange;
use vstd::utf8::{decode_utf8, encode_utf8, valid_utf8};
use vstd::utf8::{encode_utf8_decode_utf8, encode_utf8_valid_utf8};

verus! {

/// The unsigned reading of a signed 32-bit value: its two's complement
/// bit pattern taken as a natural number.
pub open spec fn wire_bits(value: i32) -> nat {
    if value >= 0 {
        value as nat
    } else {
        (value + 0x1_0000_0000) as nat
    }
}

/// The signed value whose bit pattern is `bits`, for `bits` below 2^32.
pub open spec fn from_wire_bits(bits: nat) -> i32 {
    if bits < 0x8000_0000 {
        bits as i32
    } else {
        (bits - 0x1_0000_0000) as i32
    }
}

/// The VarInt encoding of a natural number: base-128 digits, least
/// significant first, each but the last with its high bit set.
pub open spec fn varint_bytes(n: nat) -> Seq<u8>
    decreases n,
{
    if n < 128 {
        seq![n as u8]
    } else {
        seq![(n % 128 + 128) as u8] + varint_bytes(n / 128)
    }
}

/// The VarInt encoding of a signed 32-bit value.
pub open spec fn encode_varint(value: i32) -> Seq<u8> {
    varint_bytes(wire_bits(value))
}

proof fn lemma_cast_bits(value: i32)
    ensures
        (value as u32) as nat == wire_bits(value),
{
    assert(value >= 0 ==> (value as u32) == value) by (bit_vector);
    assert(value < 0 ==> (value as u32) == value + 0x1_0000_0000) by (bit_vector);
}

proof fn lemma_wire_bits_inverse(value: i32)
    ensures
        wire_bits(value) < 0x1_0000_0000,
        from_wire_bits(wire_bits(value)) == value,
{
}

proof fn lemma_low_bits(rest: u32)
    ensures
        (rest & 0x7F) == rest % 128,
        (rest >> 7) == rest / 128,
        ((rest & 0x7F) as u8) | 0x80 == (rest % 128 + 128),
        ((rest & 0x7F) as u8) == rest % 128,
{
    assert((rest & 0x7F) == rest % 128) by (bit_vector);
    assert((rest >> 7) == rest / 128) by (bit_vector);
    assert(((rest & 0x7F) as u8) | 0x80 == (rest % 128 + 128)) by (bit_vector);
    assert(((rest & 0x7F) as u8) == rest % 128) by (bit_vector);
}

/// Appends the VarInt encoding of the 32-bit pattern `bits` to `buf`.
fn write_varint_bits(buf: &mut Vec<u8>, bits: u32)
    ensures
        final(buf)@ == old(buf)@ + varint_bytes(bits as nat),
{
    let mut rest: u32 = bits;
    loop
        invariant_except_break
            old(buf)@ + varint_bytes(bits as nat) == buf@ + varint_bytes(rest as nat),
        ensures
            buf@ == old(buf)@ + varint_bytes(bits as nat),
        decreases rest,
    {
        let ghost before = buf@;
        let ghost prev = rest;
        proof {
            lemma_low_bits(rest);
        }
        let mut temp: u8 = (rest & 0x7F) as u8;
        rest = rest >> 7;
        if rest != 0 {
            temp = temp | 0x80;
        }
        buf.push(temp);
        proof {
            if prev < 128 {
                assert(varint_bytes(prev as nat) == seq![temp]);
                assert(before + seq![temp] == buf@);
            } else {
                assert(varint_bytes(prev as nat) == seq![temp] + varint_bytes(rest as nat));
                assert(before + (seq![temp] + varint_bytes(rest as nat)) == buf@ + varint_bytes(
                    rest as nat,
                ));
            }
        }
        if rest == 0 {
            break;
        }
    }
}

/// Appends the VarInt encoding of `value` to `buf`. Negative values are
/// written by their 32-bit pattern, so every value encodes and the call
/// never fails.
pub fn write_varint(buf: &mut Vec<u8>, value: i32) -> (r: Result<(), ProtocolError>)
    ensures
        r is Ok,
        final(buf)@ == old(buf)@ + encode_varint(value),
        1 <= encode_varint(value).len() <= 5,
{
    proof {
        lemma_cast_bits(value);
        lemma_encode_varint_len(value);
    }
    write_varint_bits(buf, value as u32);
    Ok(())
}

/// Whether a VarInt byte announces that another byte follows.
pub open spec fn continues(byte: u8) -> bool {
    byte >= 0x80
}

/// Number of leading bytes of `bytes` that carry the continuation bit.
pub open spec fn continuation_run(bytes: Seq<u8>) -> nat
    decreases bytes.len(),
{
    if bytes.len() > 0 && continues(bytes[0]) {
        1 + continuation_run(bytes.drop_first())
    } else {
        0
    }
}

/// The number whose base-128 digits, least significant first, are the low
/// seven bits of each byte of `bytes`.
pub open spec fn payload_value(bytes: Seq<u8>) -> nat
    decreases bytes.len(),
{
    if bytes.len() == 0 {
        0
    } else {
        (bytes[0] % 128) as nat + 128 * payload_value(bytes.drop_first())
    }
}

/// What decoding one VarInt from the front of `bytes` gives: the value and
/// the number of bytes it took. Five bytes that all announce a successor
/// are malformed; a run of such bytes that reaches the end of the data is
/// incomplete. Payload bits beyond the 32nd are dropped.
pub open spec fn decode_varint(bytes: Seq<u8>) -> Result<(i32, nat), ProtocolErrorView> {
    let run = continuation_run(bytes);
    if run >= 5 {
        Err(ProtocolErrorView::VarIntTooLarge)
    } else if run >= bytes.len() {
        Err(ProtocolErrorView::UnexpectedEndOfData)
    } else {
        Ok(
            (
                from_wire_bits(payload_value(bytes.take(run as int + 1)) % 0x1_0000_0000),
                run + 1,
            ),
        )
    }
}

/// The accumulator of a VarInt after the low seven bits of `byte` have been
/// merged in at bit position `shift`.
pub open spec fn merge_payload(acc: i32, byte: u8, shift: i32) -> i32 {
    #[verifier::truncate]
    (((acc as u32) | (((byte & 0x7F) as u32) << (shift as u32))) as i32)
}

/// Takes one byte of a VarInt into the accumulator `result` at bit position
/// `shift`. Returns `Ok(true)` when the byte was the last one, `Ok(false)`
/// after advancing `shift` by seven when more bytes must follow, and
/// `VarIntTooLarge` when the advanced `shift` has reached 35.
pub fn process_varint_byte(byte: u8, result: &mut i32, shift: &mut i32) -> (r: Result<
    bool,
    ProtocolError,
>)
    requires
        0 <= *old(shift) < 32,
    ensures
        *final(result) == merge_payload(*old(result), byte, *old(shift)),
        !continues(byte) ==> r == Ok::<bool, ProtocolError>(true) && *final(shift) == *old(shift),
        continues(byte) ==> *final(shift) == *old(shift) + 7,
        continues(byte) && *old(shift) + 7 < 35 ==> r == Ok::<bool, ProtocolError>(false),
        continues(byte) && *old(shift) + 7 >= 35 ==> r == Err::<bool, ProtocolError>(
            ProtocolError::VarIntTooLarge,
        ),
{
    assert((byte & 0x80 == 0) <==> byte < 0x80) by (bit_vector);
    let merged: u32 = (*result as u32) | (((byte & 0x7F) as u32) << (*shift as u32));
    *result = merged as i32;
    if byte & 0x80 == 0 {
        return Ok(true);
    }
    *shift = *shift + 7;
    if *shift >= 35 {
        return Err(ProtocolError::VarIntTooLarge);
    }
    Ok(false)
}

/// The weight of the base-128 digit at position `n`.
pub open spec fn pow128(n: nat) -> nat
    decreases n,
{
    if n == 0 {
        1
    } else {
        128 * pow128((n - 1) as nat)
    }
}

/// A prefix of `k` continuation bytes that is followed by a terminating
/// byte, or by the end of the data, is a run of exactly `k`.
pub proof fn lemma_continuation_run(bytes: Seq<u8>, k: nat)
    requires
        k <= bytes.len(),
        forall|i: int| 0 <= i < k ==> continues(#[trigger] bytes[i]),
        k == bytes.len() || !continues(bytes[k as int]),
    ensures
        continuation_run(bytes) == k,
    decreases k,
{
    if k > 0 {
        let rest = bytes.drop_first();
        assert(continues(bytes[0]));
        assert forall|i: int| 0 <= i < k - 1 implies continues(#[trigger] rest[i]) by {
            assert(rest[i] == bytes[i + 1]);
        }
        lemma_continuation_run(rest, (k - 1) as nat);
    }
}

/// Every byte inside the continuation run carries the continuation bit, and
/// the byte after the run, if there is one, does not.
pub proof fn lemma_continuation_run_bytes(bytes: Seq<u8>)
    ensures
        continuation_run(bytes) <= bytes.len(),
        forall|i: int| 0 <= i < continuation_run(bytes) ==> continues(#[trigger] bytes[i]),
        continuation_run(bytes) < bytes.len() ==> !continues(
            bytes[continuation_run(bytes) as int],
        ),
    decreases bytes.len(),
{
    if bytes.len() > 0 && continues(bytes[0]) {
        let rest = bytes.drop_first();
        lemma_continuation_run_bytes(rest);
        assert forall|i: int| 0 <= i < continuation_run(bytes) implies continues(
            #[trigger] bytes[i],
        ) by {
            if i > 0 {
                assert(bytes[i] == rest[i - 1]);
            }
        }
        if continuation_run(bytes) < bytes.len() {
            assert(bytes[continuation_run(bytes) as int] == rest[continuation_run(rest) as int]);
        }
    }
}

/// Any `k` leading continuation bytes are part of the run.
pub proof fn lemma_continuation_run_at_least(bytes: Seq<u8>, k: nat)
    requires
        k <= bytes.len(),
        forall|i: int| 0 <= i < k ==> continues(#[trigger] bytes[i]),
    ensures
        continuation_run(bytes) >= k,
    decreases k,
{
    if k > 0 {
        let rest = bytes.drop_first();
        assert(continues(bytes[0]));
        assert forall|i: int| 0 <= i < k - 1 implies continues(#[trigger] rest[i]) by {
            assert(rest[i] == bytes[i + 1]);
        }
        lemma_continuation_run_at_least(rest, (k - 1) as nat);
    }
}

/// Appending a byte adds its payload at the weight of its position.
pub proof fn lemma_payload_value_push(bytes: Seq<u8>, byte: u8)
    ensures
        payload_value(bytes.push(byte)) == payload_value(bytes) + (byte % 128) as nat * pow128(
            bytes.len(),
        ),
    decreases bytes.len(),
{
    let longer = bytes.push(byte);
    let p = (byte % 128) as nat;
    if bytes.len() == 0 {
        assert(longer.drop_first() =~= Seq::<u8>::empty());
        assert(payload_value(longer.drop_first()) == 0);
        assert(longer[0] == byte);
        assert(payload_value(longer) == p + 128 * 0);
        assert(pow128(0) == 1);
        assert(p * 1 == p) by (nonlinear_arith);
    } else {
        let rest = bytes.drop_first();
        assert(longer.drop_first() =~= rest.push(byte));
        assert(longer[0] == bytes[0]);
        lemma_payload_value_push(rest, byte);
        let w = pow128(rest.len());
        assert(pow128(bytes.len()) == 128 * w);
        assert(128 * (p * w) == p * (128 * w)) by (nonlinear_arith);
        assert(payload_value(longer) == (bytes[0] % 128) as nat + 128 * payload_value(
            rest.push(byte),
        ));
        assert(payload_value(bytes) == (bytes[0] % 128) as nat + 128 * payload_value(rest));
    }
}

/// The payloads of `n` bytes stay below the weight of position `n`.
pub proof fn lemma_payload_value_bound(bytes: Seq<u8>)
    ensures
        payload_value(bytes) < pow128(bytes.len()),
    decreases bytes.len(),
{
    if bytes.len() > 0 {
        lemma_payload_value_bound(bytes.drop_first());
    }
}

proof fn lemma_pow128_values()
    ensures
        pow128(0) == 1,
        pow128(1) == 0x80,
        pow128(2) == 0x4000,
        pow128(3) == 0x20_0000,
        pow128(4) == 0x1000_0000,
        pow128(5) == 0x8_0000_0000,
{
    reveal_with_fuel(pow128, 6);
}

proof fn lemma_merge_bits(acc: u32, byte: u8, shift: u32)
    requires
        shift == 0 || shift == 7 || shift == 14 || shift == 21 || shift == 28,
        shift == 0 ==> acc < 1,
        shift == 7 ==> acc < 0x80,
        shift == 14 ==> acc < 0x4000,
        shift == 21 ==> acc < 0x20_0000,
        shift == 28 ==> acc < 0x1000_0000,
    ensures
        shift == 0 ==> (acc | (((byte & 0x7F) as u32) << shift)) == acc + (byte % 128),
        shift == 7 ==> (acc | (((byte & 0x7F) as u32) << shift)) == acc + (byte % 128) * 0x80,
        shift == 14 ==> (acc | (((byte & 0x7F) as u32) << shift)) == acc + (byte % 128) * 0x4000,
        shift == 21 ==> (acc | (((byte & 0x7F) as u32) << shift)) == acc + (byte % 128)
            * 0x20_0000,
        shift == 28 ==> (acc | (((byte & 0x7F) as u32) << shift)) == acc + ((byte % 128) % 16)
            * 0x1000_0000,
{
    assert(acc < 1 ==> (acc | (((byte & 0x7F) as u32) << 0u32)) == acc + (byte % 128))
        by (bit_vector);
    assert(acc < 0x80 ==> (acc | (((byte & 0x7F) as u32) << 7u32)) == acc + (byte % 128) * 0x80)
        by (bit_vector);
    assert(acc < 0x4000 ==> (acc | (((byte & 0x7F) as u32) << 14u32)) == acc + (byte % 128)
        * 0x4000) by (bit_vector);
    assert(acc < 0x20_0000 ==> (acc | (((byte & 0x7F) as u32) << 21u32)) == acc + (byte % 128)
        * 0x20_0000) by (bit_vector);
    assert(acc < 0x1000_0000 ==> (acc | (((byte & 0x7F) as u32) << 28u32)) == acc + ((byte % 128)
        % 16) * 0x1000_0000) by (bit_vector);
}

/// One step of decoding: merging the next byte into an accumulator that
/// holds the payloads of `prefix` gives the payloads of the longer prefix,
/// cut to 32 bits.
proof fn lemma_decode_step(prefix: Seq<u8>, byte: u8, acc: i32, shift: i32)
    requires
        prefix.len() <= 4,
        shift == 7 * prefix.len(),
        acc >= 0,
        acc as nat == payload_value(prefix),
    ensures
        wire_bits(merge_payload(acc, byte, shift)) == payload_value(prefix.push(byte))
            % 0x1_0000_0000,
        prefix.len() < 4 ==> merge_payload(acc, byte, shift) >= 0 && merge_payload(
            acc,
            byte,
            shift,
        ) as nat == payload_value(prefix.push(byte)),
{
    lemma_pow128_values();
    lemma_payload_value_bound(prefix);
    lemma_payload_value_push(prefix, byte);
    lemma_cast_bits(acc);
    let a: u32 = acc as u32;
    let s: u32 = shift as u32;
    let m: u32 = a | (((byte & 0x7F) as u32) << s);
    let p: nat = (byte % 128) as nat;
    lemma_merge_bits(a, byte, s);
    lemma_cast_bits(#[verifier::truncate] (m as i32));
    assert((#[verifier::truncate] (m as i32)) as u32 == m) by (bit_vector);
    assert(merge_payload(acc, byte, shift) == #[verifier::truncate] (m as i32));
    if prefix.len() == 4 {
        let q: nat = p / 16;
        let low: nat = p % 16;
        assert(payload_value(prefix.push(byte)) == a + p * 0x1000_0000);
        assert(p == 16 * q + low);
        assert(m == a + low * 0x1000_0000);
        assert(a + p * 0x1000_0000 == q * 0x1_0000_0000 + m);
        assert((q * 0x1_0000_0000 + m) % 0x1_0000_0000 == m) by (nonlinear_arith)
            requires
                m < 0x1_0000_0000,
        ;
    } else {
        if prefix.len() == 0 {
            assert(m == a + p);
            assert(p * 1 == p) by (nonlinear_arith);
        } else if prefix.len() == 1 {
            assert(m == a + p * 0x80);
        } else if prefix.len() == 2 {
            assert(m == a + p * 0x4000);
        } else {
            assert(m == a + p * 0x20_0000);
        }
        assert(m as nat == payload_value(prefix.push(byte)));
        assert(m < 0x1000_0000);
        assert(m as i32 == m) by (bit_vector)
            requires
                m < 0x1000_0000,
        ;
    }
}

/// Decodes one VarInt from the front of `data` and says how many bytes it
/// took.
pub fn read_varint_from_slice(data: &[u8]) -> (r: Result<(i32, usize), ProtocolError>)
    ensures
        match r {
            Ok((value, used)) => decode_varint(data@) == Ok::<(i32, nat), ProtocolErrorView>(
                (value, used as nat),
            ),
            Err(e) => decode_varint(data@) == Err::<(i32, nat), ProtocolErrorView>(e@),
        },
{
    let mut result: i32 = 0;
    let mut shift: i32 = 0;
    let mut pos: usize = 0;
    proof {
        assert(data@.take(0) =~= Seq::<u8>::empty());
    }
    loop
        invariant_except_break
            pos <= 4,
            pos <= data@.len(),
            shift == 7 * pos,
            forall|i: int| 0 <= i < pos ==> continues(#[trigger] data@[i]),
            result >= 0,
            result as nat == payload_value(data@.take(pos as int)),
        ensures
            1 <= pos <= 5,
            pos <= data@.len(),
            forall|i: int| 0 <= i < pos - 1 ==> continues(#[trigger] data@[i]),
            !continues(data@[pos - 1]),
            wire_bits(result) == payload_value(data@.take(pos as int)) % 0x1_0000_0000,
        decreases 5 - pos,
    {
        if pos >= data.len() {
            proof {
                lemma_continuation_run(data@, pos as nat);
            }
            return Err(ProtocolError::UnexpectedEndOfData);
        }
        let byte: u8 = data[pos];
        proof {
            lemma_decode_step(data@.take(pos as int), byte, result, shift);
            assert(data@.take(pos as int).push(byte) =~= data@.take(pos + 1));
        }
        pos += 1;
        match process_varint_byte(byte, &mut result, &mut shift) {
            Ok(done) => {
                if done {
                    break;
                }
            },
            Err(e) => {
                proof {
                    lemma_continuation_run_at_least(data@, 5);
                }
                return Err(e);
            },
        }
    }
    proof {
        lemma_continuation_run(data@, (pos - 1) as nat);
        lemma_wire_bits_inverse(result);
    }
    Ok((result, pos))
}

/// The shape of an encoded natural number: a run of continuation bytes
/// closed by one terminating byte, whose payloads spell the number.
pub proof fn lemma_varint_bytes_shape(n: nat, rest: Seq<u8>)
    ensures
        varint_bytes(n).len() >= 1,
        continuation_run(varint_bytes(n) + rest) == varint_bytes(n).len() - 1,
        payload_value(varint_bytes(n)) == n,
    decreases n,
{
    let enc = varint_bytes(n);
    if n < 128 {
        assert(enc =~= seq![n as u8]);
        assert((enc + rest)[0] == n as u8);
        assert(enc.drop_first() =~= Seq::<u8>::empty());
        assert(payload_value(enc.drop_first()) == 0);
    } else {
        let head = (n % 128 + 128) as u8;
        let tail = varint_bytes(n / 128);
        lemma_varint_bytes_shape(n / 128, rest);
        assert(enc =~= seq![head] + tail);
        assert((enc + rest)[0] == head);
        assert((enc + rest).drop_first() =~= tail + rest);
        assert(enc.drop_first() =~= tail);
        assert(head % 128 == n % 128);
    }
}

/// A number below the weight of position `k` encodes in at most `k` bytes.
pub proof fn lemma_varint_bytes_len(n: nat, k: nat)
    requires
        k >= 1,
        n < pow128(k),
    ensures
        varint_bytes(n).len() <= k,
    decreases k,
{
    reveal_with_fuel(pow128, 2);
    if n >= 128 {
        lemma_varint_bytes_len(n / 128, (k - 1) as nat);
    }
}

/// Every 32-bit value encodes in one to five bytes.
pub proof fn lemma_encode_varint_len(value: i32)
    ensures
        1 <= encode_varint(value).len() <= 5,
{
    lemma_pow128_values();
    lemma_varint_bytes_len(wire_bits(value), 5);
    lemma_varint_bytes_shape(wire_bits(value), Seq::<u8>::empty());
}

/// Decoding what was encoded gives the value back, whatever follows it,
/// and takes exactly the bytes of the encoding.
pub proof fn lemma_varint_round_trip(value: i32, rest: Seq<u8>)
    ensures
        decode_varint(encode_varint(value) + rest) == Ok::<(i32, nat), ProtocolErrorView>(
            (value, encode_varint(value).len()),
        ),
{
    let enc = encode_varint(value);
    lemma_encode_varint_len(value);
    lemma_varint_bytes_shape(wire_bits(value), rest);
    lemma_wire_bits_inverse(value);
    assert((enc + rest).take(enc.len() as int) =~= enc);
    assert(wire_bits(value) % 0x1_0000_0000 == wire_bits(value));
}

/// Which data decodes and which fails, and how: five leading continuation
/// bytes are too large; fewer, reaching the end of the data, are
/// incomplete; otherwise the VarInt ends with the first byte that has its
/// high bit clear.
pub proof fn lemma_decode_varint_outcomes(bytes: Seq<u8>)
    ensures
        decode_varint(bytes) == Err::<(i32, nat), ProtocolErrorView>(
            ProtocolErrorView::VarIntTooLarge,
        )
            <==> bytes.len() >= 5 && forall|i: int| 0 <= i < 5 ==> continues(#[trigger] bytes[i]),
        decode_varint(bytes) == Err::<(i32, nat), ProtocolErrorView>(
            ProtocolErrorView::UnexpectedEndOfData,
        ) <==> bytes.len() < 5 && forall|i: int|
            0 <= i < bytes.len() ==> continues(#[trigger] bytes[i]),
        decode_varint(bytes) matches Ok((_, used)) ==> 1 <= used <= 5 && used <= bytes.len()
            && !continues(bytes[used - 1]) && forall|i: int|
            0 <= i < used - 1 ==> continues(#[trigger] bytes[i]),
{
    lemma_continuation_run_bytes(bytes);
    if bytes.len() >= 5 && forall|i: int| 0 <= i < 5 ==> continues(#[trigger] bytes[i]) {
        lemma_continuation_run_at_least(bytes, 5);
    }
    if bytes.len() < 5 && forall|i: int| 0 <= i < bytes.len() ==> continues(#[trigger] bytes[i]) {
        lemma_continuation_run_at_least(bytes, bytes.len());
    }
}

/// A VarInt that is being read one byte at a time, as from a stream. It
/// holds what the bytes taken so far amount to; each of them carried the
/// continuation bit, and there are at most four.
pub struct VarIntReader {
    value: i32,
    shift: i32,
    seen: Ghost<Seq<u8>>,
}

/// What a reader has after one more byte: the need for another byte, or
/// the finished value.
pub enum VarIntProgress {
    More(VarIntReader),
    Done(i32),
}

impl VarIntReader {
    #[verifier::type_invariant]
    spec fn well_formed(self) -> bool {
        &&& self.seen@.len() <= 4
        &&& self.shift == 7 * self.seen@.len()
        &&& forall|i: int| 0 <= i < self.seen@.len() ==> continues(#[trigger] self.seen@[i])
        &&& self.value >= 0
        &&& self.value as nat == payload_value(self.seen@)
    }

    /// The bytes taken so far.
    pub closed spec fn seen(self) -> Seq<u8> {
        self.seen@
    }

    /// A reader that has taken no byte yet.
    pub fn new() -> (r: VarIntReader)
        ensures
            r.seen() == Seq::<u8>::empty(),
    {
        VarIntReader { value: 0, shift: 0, seen: Ghost(Seq::empty()) }
    }

    /// Takes the next byte. The outcome is that of decoding all the bytes
    /// taken so far from a slice: the value once it is complete, the need
    /// for more while the data would end early, or the refusal of a fifth
    /// continuation byte.
    pub fn push(self, byte: u8) -> (r: Result<VarIntProgress, ProtocolError>)
        ensures
            match r {
                Ok(VarIntProgress::More(next)) => next.seen() == self.seen().push(byte)
                    && decode_varint(next.seen()) == Err::<(i32, nat), ProtocolErrorView>(
                    ProtocolErrorView::UnexpectedEndOfData,
                ),
                Ok(VarIntProgress::Done(value)) => decode_varint(self.seen().push(byte)) == Ok::<
                    (i32, nat),
                    ProtocolErrorView,
                >((value, self.seen().len() + 1)),
                Err(e) => e@ == ProtocolErrorView::VarIntTooLarge && decode_varint(
                    self.seen().push(byte),
                ) == Err::<(i32, nat), ProtocolErrorView>(ProtocolErrorView::VarIntTooLarge),
            },
    {
        proof {
            use_type_invariant(&self);
        }
        let ghost all = self.seen@.push(byte);
        let mut value: i32 = self.value;
        let mut shift: i32 = self.shift;
        proof {
            lemma_decode_step(self.seen@, byte, value, shift);
            assert(all.take(all.len() as int) =~= all);
        }
        match process_varint_byte(byte, &mut value, &mut shift) {
            Ok(done) => {
                if done {
                    proof {
                        lemma_continuation_run(all, self.seen@.len());
                        lemma_wire_bits_inverse(value);
                    }
                    Ok(VarIntProgress::Done(value))
                } else {
                    proof {
                        lemma_continuation_run(all, all.len());
                    }
                    Ok(VarIntProgress::More(VarIntReader { value, shift, seen: Ghost(all) }))
                }
            },
            Err(e) => {
                proof {
                    lemma_continuation_run_at_least(all, 5);
                }
                Err(e)
            },
        }
    }
}

/// The length prefix of a payload of `len` bytes: the VarInt of the length
/// as a 32-bit pattern.
pub open spec fn length_prefix(len: nat) -> Seq<u8> {
    varint_bytes(len % 0x1_0000_0000)
}

/// A protocol string: the byte length of the text, then its UTF-8 bytes.
pub open spec fn encode_string(text: Seq<char>) -> Seq<u8> {
    length_prefix(encode_utf8(text).len()) + encode_utf8(text)
}

/// A packet on the wire: the byte length of the payload, then the payload.
pub open spec fn frame(payload: Seq<u8>) -> Seq<u8> {
    length_prefix(payload.len()) + payload
}

/// What lossy decoding makes of bytes that are not valid UTF-8: the text in
/// which each invalid sequence is replaced by U+FFFD.
pub uninterp spec fn lossy_chars(bytes: Seq<u8>) -> Seq<char>;

/// The text that a run of bytes stands for: the decoded text where the
/// bytes are valid UTF-8, the text with replacement characters otherwise.
pub open spec fn lossy_text(bytes: Seq<u8>) -> Seq<char> {
    if valid_utf8(bytes) {
        decode_utf8(bytes)
    } else {
        lossy_chars(bytes)
    }
}

/// `String::from_utf8_lossy` of std. Valid UTF-8 is decoded as it stands;
/// for other input the result is only named, as the text with replacement
/// characters that std produces.
#[verifier::external_body]
fn utf8_lossy(bytes: &[u8]) -> (text: String)
    ensures
        valid_utf8(bytes@) ==> text@ == decode_utf8(bytes@),
        !valid_utf8(bytes@) ==> text@ == lossy_chars(bytes@),
{
    String::from_utf8_lossy(bytes).into_owned()
}

/// What decoding one protocol string from the front of `bytes` gives. A
/// declared length that the remaining bytes cannot meet, a negative one
/// included, is a truncated string.
pub open spec fn decode_string(bytes: Seq<u8>) -> Result<Seq<char>, ProtocolErrorView> {
    match decode_varint(bytes) {
        Err(e) => Err(e),
        Ok((len, offset)) => if len < 0 || offset + len > bytes.len() {
            Err(ProtocolErrorView::TruncatedString)
        } else {
            Ok(lossy_text(bytes.subrange(offset as int, offset + len)))
        },
    }
}

proof fn lemma_length_as_bits(len: usize)
    ensures
        wire_bits(#[verifier::truncate] (len as i32)) == (len as nat) % 0x1_0000_0000,
{
    let v: i32 = #[verifier::truncate] (len as i32);
    lemma_cast_bits(v);
    assert((#[verifier::truncate] (len as i32)) as u32 == (len as u64) % 0x1_0000_0000)
        by (bit_vector);
}

/// Appends `s` to `buf` as a protocol string. The call never fails.
pub fn write_string(buf: &mut Vec<u8>, s: &str) -> (r: Result<(), ProtocolError>)
    ensures
        r is Ok,
        final(buf)@ == old(buf)@ + encode_string(s@),
{
    let bytes = s.as_bytes();
    proof {
        lemma_length_as_bits(bytes.len());
    }
    write_varint(buf, #[verifier::truncate] (bytes.len() as i32))?;
    let ghost prefixed = buf@;
    buf.extend_from_slice(bytes);
    assert(buf@ =~= prefixed + bytes@);
    assert(buf@ =~= old(buf)@ + encode_string(s@));
    Ok(())
}

/// Decodes one protocol string from the front of `data`; bytes after it
/// are ignored. Invalid UTF-8 is replaced, not rejected.
pub fn read_string(data: &[u8]) -> (r: Result<String, ProtocolError>)
    ensures
        match r {
            Ok(text) => decode_string(data@) == Ok::<Seq<char>, ProtocolErrorView>(text@),
            Err(e) => decode_string(data@) == Err::<Seq<char>, ProtocolErrorView>(e@),
        },
{
    let (len, offset) = read_varint_from_slice(data)?;
    if len < 0 {
        return Err(ProtocolError::TruncatedString);
    }
    let wanted: usize = len as usize;
    if wanted > data.len() - offset {
        return Err(ProtocolError::TruncatedString);
    }
    let body = slice_subrange(data, offset, offset + wanted);
    Ok(utf8_lossy(body))
}

/// Frames `data` as one packet: its length as a VarInt, then the bytes.
pub fn frame_packet(data: &[u8]) -> (packet: Vec<u8>)
    ensures
        packet@ == frame(data@),
{
    let mut packet: Vec<u8> = Vec::new();
    proof {
        lemma_length_as_bits(data.len());
    }
    let _ = write_varint(&mut packet, #[verifier::truncate] (data.len() as i32));
    let ghost prefixed = packet@;
    packet.extend_from_slice(data);
    assert(packet@ =~= prefixed + data@);
    packet
}

/// A string survives encoding and decoding, whatever follows it, as long
/// as its byte length fits the signed 32-bit length prefix.
pub proof fn lemma_string_round_trip(text: Seq<char>, rest: Seq<u8>)
    requires
        encode_utf8(text).len() <= i32::MAX,
    ensures
        decode_string(encode_string(text) + rest) == Ok::<Seq<char>, ProtocolErrorView>(text),
{
    let body = encode_utf8(text);
    let len: i32 = body.len() as i32;
    let prefix = encode_varint(len);
    assert(length_prefix(body.len()) == prefix);
    let all = encode_string(text) + rest;
    assert(all =~= prefix + (body + rest));
    lemma_varint_round_trip(len, body + rest);
    assert(all.subrange(prefix.len() as int, prefix.len() + len) =~= body);
    encode_utf8_valid_utf8(text);
    encode_utf8_decode_utf8(text);
}

/// A declared length beyond the bytes that remain is a truncated string.
pub proof fn lemma_truncated_string(bytes: Seq<u8>, len: i32, offset: nat)
    requires
        decode_varint(bytes) == Ok::<(i32, nat), ProtocolErrorView>((len, offset)),
        offset + len > bytes.len(),
    ensures
        decode_string(bytes) == Err::<Seq<char>, ProtocolErrorView>(
            ProtocolErrorView::TruncatedString,
        ),
{
}

/// A packet can be taken off the front of a stream again: its length
/// prefix decodes to the length of its payload, and that many bytes after
/// the prefix are the payload, whatever follows the packet.
pub proof fn lemma_frame_round_trip(payload: Seq<u8>, rest: Seq<u8>)
    requires
        payload.len() <= i32::MAX,
    ensures
        decode_varint(frame(payload) + rest) == Ok::<(i32, nat), ProtocolErrorView>(
            (payload.len() as i32, length_prefix(payload.len()).len()),
        ),
        (frame(payload) + rest).subrange(
            length_prefix(payload.len()).len() as int,
            (length_prefix(payload.len()).len() + payload.len()) as int,
        ) == payload,
{
    let len: i32 = payload.len() as i32;
    let prefix = encode_varint(len);
    assert(length_prefix(payload.len()) == prefix);
    let all = frame(payload) + rest;
    assert(all =~= prefix + (payload + rest));
    lemma_varint_round_trip(len, payload + rest);
    assert(all.subrange(prefix.len() as int, (prefix.len() + payload.len()) as int) =~= payload);
}

} // verus!
