//! VarInts and packet frames, the two building blocks of every packet.
use vstd::prelude::*;

verus! {

/// Longest VarInt the protocol allows, in bytes.
pub const MAX_VARINT_BYTES: usize = 5;

/// The value of a run of 7-bit groups, least significant group first. The top
/// bit of each byte only says whether another group follows.
pub open spec fn groups_value(bytes: Seq<u8>) -> nat
    decreases bytes.len(),
{
    if bytes.len() == 0 {
        0
    } else {
        (bytes[0] % 128) as nat + 128 * groups_value(bytes.drop_first())
    }
}

/// How many bytes the VarInt at the start of `bytes` takes: every byte whose
/// top bit is set, and the one after them.
pub open spec fn varint_size(bytes: Seq<u8>) -> nat
    decreases bytes.len(),
{
    if bytes.len() == 0 || bytes[0] < 128 {
        1
    } else {
        1 + varint_size(bytes.drop_first())
    }
}

/// The signed reading of the low 32 bits of `value`.
pub open spec fn signed_32(value: nat) -> i32 {
    let low = value % 0x1_0000_0000;
    if low < 0x8000_0000 {
        low as i32
    } else {
        (low - 0x1_0000_0000) as i32
    }
}

/// The unsigned reading of the bits of `value`.
pub open spec fn unsigned_32(value: i32) -> u32 {
    if value >= 0 {
        value as u32
    } else {
        (value + 0x1_0000_0000) as u32
    }
}

/// The VarInt at the start of `bytes` and what follows it, if there is a
/// complete one of at most five bytes.
pub open spec fn leading_varint(bytes: Seq<u8>) -> Option<(i32, Seq<u8>)> {
    let n = varint_size(bytes);
    if n <= MAX_VARINT_BYTES && n <= bytes.len() {
        Some((signed_32(groups_value(bytes.take(n as int))), bytes.skip(n as int)))
    } else {
        None
    }
}

/// The VarInt encoding of `value`.
pub open spec fn varint_bytes(value: nat) -> Seq<u8>
    decreases value,
{
    if value < 128 {
        seq![value as u8]
    } else {
        seq![(128 + value % 128) as u8] + varint_bytes(value / 128)
    }
}

/// A payload with its length in front.
pub open spec fn framed(payload: Seq<u8>) -> Seq<u8> {
    varint_bytes((payload.len() % 0x1_0000_0000) as nat) + payload
}

proof fn lemma_groups_push(bytes: Seq<u8>, byte: u8)
    ensures
        groups_value(bytes.push(byte)) == groups_value(bytes) + vstd::arithmetic::power::pow(
            128,
            bytes.len(),
        ) * (byte % 128),
    decreases bytes.len(),
{
    broadcast use vstd::arithmetic::power::lemma_pow0;

    if bytes.len() == 0 {
        assert(bytes.push(byte).drop_first() =~= Seq::<u8>::empty());
        assert(groups_value(bytes.push(byte).drop_first()) == 0);
        assert(vstd::arithmetic::power::pow(128, 0) == 1);
    } else {
        let tail = bytes.drop_first();
        assert(bytes.push(byte).drop_first() =~= tail.push(byte));
        lemma_groups_push(tail, byte);
        let p = vstd::arithmetic::power::pow(128, tail.len());
        reveal(vstd::arithmetic::power::pow);
        assert(vstd::arithmetic::power::pow(128, bytes.len()) == 128 * p);
        let g = (byte % 128) as int;
        assert(128 * (p * g) == (128 * p) * g) by (nonlinear_arith);
    }
}

proof fn lemma_group_weights()
    ensures
        vstd::arithmetic::power::pow(128, 0) == 1,
        vstd::arithmetic::power::pow(128, 1) == 0x80,
        vstd::arithmetic::power::pow(128, 2) == 0x4000,
        vstd::arithmetic::power::pow(128, 3) == 0x20_0000,
        vstd::arithmetic::power::pow(128, 4) == 0x1000_0000,
{
    reveal(vstd::arithmetic::power::pow);
    reveal_with_fuel(vstd::arithmetic::power::pow, 5);
}

/// Fewer than five groups stay below the weight of the next one.
proof fn lemma_groups_bound(bytes: Seq<u8>)
    ensures
        groups_value(bytes) < vstd::arithmetic::power::pow(128, bytes.len()),
    decreases bytes.len(),
{
    reveal(vstd::arithmetic::power::pow);
    if bytes.len() > 0 {
        lemma_groups_bound(bytes.drop_first());
    }
}

/// Setting a group's bits adds its weight, and the bits above the 32nd fall
/// away.
proof fn lemma_group_bits(num: u32, byte: u8, seen: nat)
    requires
        seen < MAX_VARINT_BYTES,
        num < vstd::arithmetic::power::pow(128, seen),
    ensures
        (num | (((byte & 0x7F) as u32) << ((7 * seen) as u32))) == (num
            + vstd::arithmetic::power::pow(128, seen) * (byte % 128)) % 0x1_0000_0000,
{
    lemma_group_weights();
    let x = (byte & 0x7F) as u32;
    assert(byte & 0x7F == byte % 128) by (bit_vector);
    assert(x < 128);
    if seen == 0 {
        assert(num | (x << 0u32) == x) by (bit_vector)
            requires
                num == 0,
        ;
    } else if seen == 1 {
        assert(num | (x << 7u32) == num + 0x80 * x) by (bit_vector)
            requires
                num < 0x80,
                x < 128,
        ;
    } else if seen == 2 {
        assert(num | (x << 14u32) == num + 0x4000 * x) by (bit_vector)
            requires
                num < 0x4000,
                x < 128,
        ;
    } else if seen == 3 {
        assert(num | (x << 21u32) == num + 0x20_0000 * x) by (bit_vector)
            requires
                num < 0x20_0000,
                x < 128,
        ;
    } else {
        assert(num | (x << 28u32) == (num + 0x1000_0000 * x) % 0x1_0000_0000) by (bit_vector)
            requires
                num < 0x1000_0000,
                x < 128,
        ;
    }
}

proof fn lemma_signed_cast(num: u32)
    ensures
        (num as i32) == signed_32(num as nat),
{
    assert(num >= 0x8000_0000 ==> (num as i32) == num - 0x1_0000_0000) by (bit_vector);
}

pub proof fn lemma_unsigned_cast(value: i32)
    ensures
        (value as u32) == unsigned_32(value),
{
    assert(value < 0 ==> (value as u32) == value + 0x1_0000_0000) by (bit_vector);
}

/// What one more byte did for a [`VarintReader`].
#[derive(Clone, Copy, Debug, PartialEq, Eq, Structural)]
pub enum VarintStep {
    /// The VarInt is complete.
    Done(i32),
    /// At least one more byte belongs to it.
    More,
    /// A sixth byte would be needed.
    TooBig,
}

/// Decodes a VarInt that arrives one byte at a time. Its view is the bytes it
/// has taken so far.
pub struct VarintReader {
    num: u32,
    shift: u32,
    seen: Ghost<Seq<u8>>,
}

impl View for VarintReader {
    type V = Seq<u8>;

    closed spec fn view(&self) -> Seq<u8> {
        self.seen@
    }
}

impl VarintReader {
    #[verifier::type_invariant]
    spec fn inv(self) -> bool {
        &&& self.seen@.len() < MAX_VARINT_BYTES
        &&& self.shift == 7 * self.seen@.len()
        &&& self.num == groups_value(self.seen@)
        &&& forall|i: int| 0 <= i < self.seen@.len() ==> self.seen@[i] >= 128
    }

    /// A reader that has not seen any byte.
    pub fn new() -> (reader: VarintReader)
        ensures
            reader@ == Seq::<u8>::empty(),
    {
        VarintReader { num: 0, shift: 0, seen: Ghost(Seq::empty()) }
    }

    /// Takes the next byte. The reader only moves on when more are needed.
    pub fn push(&mut self, byte: u8) -> (step: VarintStep)
        ensures
            forall|i: int| 0 <= i < old(self)@.len() ==> old(self)@[i] >= 128,
            old(self)@.len() < MAX_VARINT_BYTES,
            step == (if byte < 128 {
                VarintStep::Done(signed_32(groups_value(old(self)@.push(byte))))
            } else if old(self)@.len() + 1 < MAX_VARINT_BYTES {
                VarintStep::More
            } else {
                VarintStep::TooBig
            }),
            final(self)@ == (if step is More {
                old(self)@.push(byte)
            } else {
                old(self)@
            }),
    {
        proof {
            use_type_invariant(&*self);
            lemma_groups_push(self.seen@, byte);
            lemma_groups_bound(self.seen@);
            lemma_group_weights();
            lemma_group_bits(self.num, byte, self.seen@.len());
            assert(byte & 0x80 == 0 <==> byte < 128) by (bit_vector);
        }
        let num: u32 = self.num | (((byte & 0x7F) as u32) << self.shift);
        if byte & 0x80 == 0 {
            proof {
                lemma_signed_cast(num);
            }
            return VarintStep::Done(num as i32);
        }
        let shift: u32 = self.shift + 7;
        if shift >= 32 {
            return VarintStep::TooBig;
        }
        proof {
            lemma_groups_bound(self.seen@.push(byte));
        }
        *self = VarintReader { num, shift, seen: Ghost(self.seen@.push(byte)) };
        VarintStep::More
    }
}

/// Where a VarInt made of `head` (all with their top bit set) and `byte` ends.
proof fn lemma_varint_size(bytes: Seq<u8>, n: nat)
    requires
        n <= bytes.len(),
        forall|i: int| 0 <= i < n ==> bytes[i] >= 128,
    ensures
        varint_size(bytes) >= n + 1,
        n < bytes.len() && bytes[n as int] < 128 ==> varint_size(bytes) == n + 1,
        n == bytes.len() ==> varint_size(bytes) == n + 1,
    decreases n,
{
    if n > 0 {
        lemma_varint_size(bytes.drop_first(), (n - 1) as nat);
    }
}

/// Parses a VarInt out of a byte slice, returning its value and the rest.
pub fn take_varint(buf: &[u8]) -> (taken: Option<(i32, &[u8])>)
    ensures
        match taken {
            Some((value, rest)) => leading_varint(buf@) == Some((value, rest@)),
            None => leading_varint(buf@) is None,
        },
{
    let mut reader = VarintReader::new();
    let mut i: usize = 0;
    while i < buf.len()
        invariant
            i <= buf.len(),
            reader@ == buf@.take(i as int),
            forall|j: int| 0 <= j < i ==> buf@[j] >= 128,
        decreases buf.len() - i,
    {
        let byte: u8 = buf[i];
        proof {
            lemma_varint_size(buf@, i as nat);
            assert(buf@.take(i as int).push(byte) =~= buf@.take(i + 1));
        }
        match reader.push(byte) {
            VarintStep::Done(value) => {
                let rest = vstd::slice::slice_subrange(buf, i + 1, buf.len());
                assert(rest@ =~= buf@.skip(i + 1));
                return Some((value, rest));
            },
            VarintStep::More => {
                i += 1;
            },
            VarintStep::TooBig => {
                proof {
                    lemma_varint_size(buf@, (i + 1) as nat);
                }
                return None;
            },
        }
    }
    proof {
        lemma_varint_size(buf@, i as nat);
    }
    None
}

/// Encodes `value` as a VarInt.
pub fn encode_varint(value: u32) -> (bytes: Vec<u8>)
    ensures
        bytes@ == varint_bytes(value as nat),
{
    let mut out: Vec<u8> = Vec::new();
    let mut left: u32 = value;
    loop
        invariant_except_break
            out@ + varint_bytes(left as nat) == varint_bytes(value as nat),
        ensures
            out@ == varint_bytes(value as nat),
        decreases left,
    {
        let low: u8 = (left & 0x7F) as u8;
        let high: u32 = left >> 7;
        proof {
            assert(left & 0x7F == left % 128) by (bit_vector);
            assert(left >> 7 == left / 128) by (bit_vector);
            assert(low < 128 ==> low | 0x80 == 128 + low) by (bit_vector);
        }
        let ghost before = out@;
        if high == 0 {
            out.push(low);
            assert(out@ =~= before + varint_bytes(left as nat));
            break;
        }
        out.push(low | 0x80);
        assert(before + varint_bytes(left as nat) =~= out@ + varint_bytes(high as nat));
        left = high;
    }
    out
}

/// Encodes a length prefix and a payload into a full packet frame.
pub fn frame(payload: &[u8]) -> (packet: Vec<u8>)
    ensures
        packet@ == framed(payload@),
{
    let len: u64 = payload.len() as u64;
    assert(len as u32 == len % 0x1_0000_0000) by (bit_vector);
    let mut out: Vec<u8> = encode_varint(len as u32);
    out.extend_from_slice(payload);
    out
}

/// Why a packet was refused while its length was being read.
#[derive(Clone, Copy, Debug, PartialEq, Eq, Structural)]
pub enum PacketError {
    /// The length prefix runs past five bytes.
    VarintTooBig,
    /// The length is negative or above the limit.
    BadLength,
}

/// What a [`PacketReader`] wants next.
#[derive(Clone, Copy, Debug, PartialEq, Eq, Structural)]
pub enum PacketStep {
    /// One more byte of the length prefix.
    Byte,
    /// The packet's body, exactly this many bytes.
    Body(usize),
    /// Nothing: the packet is refused.
    Refused(PacketError),
}

/// What a packet reader with limit `max` answers to a length of `len`.
pub open spec fn body_step(len: i32, max: i32) -> PacketStep {
    if len < 0 || len > max {
        PacketStep::Refused(PacketError::BadLength)
    } else {
        PacketStep::Body(len as usize)
    }
}

/// What a packet reader that has taken `seen` and has limit `max` answers to
/// `byte`.
pub open spec fn prefix_step(seen: Seq<u8>, byte: u8, max: i32) -> PacketStep {
    if byte < 128 {
        body_step(signed_32(groups_value(seen.push(byte))), max)
    } else if seen.len() + 1 < MAX_VARINT_BYTES {
        PacketStep::Byte
    } else {
        PacketStep::Refused(PacketError::VarintTooBig)
    }
}

/// Checks a packet's declared length against `max`, before anything is
/// allocated for it.
pub fn check_packet_len(len: i32, max: i32) -> (step: PacketStep)
    ensures
        step == body_step(len, max),
{
    if len < 0 || len > max {
        PacketStep::Refused(PacketError::BadLength)
    } else {
        PacketStep::Body(len as usize)
    }
}

/// Reads the length prefix of a packet and bounds the body that follows. Its
/// view is the prefix bytes taken so far.
pub struct PacketReader {
    length: VarintReader,
    max: i32,
}

impl View for PacketReader {
    type V = Seq<u8>;

    closed spec fn view(&self) -> Seq<u8> {
        self.length@
    }
}

impl PacketReader {
    /// The largest body this reader lets through.
    pub closed spec fn limit(self) -> i32 {
        self.max
    }

    /// A reader for one packet whose body holds at most `max` bytes.
    pub fn new(max: i32) -> (reader: PacketReader)
        ensures
            reader@ == Seq::<u8>::empty(),
            reader.limit() == max,
    {
        PacketReader { length: VarintReader::new(), max }
    }

    /// Takes the next byte of the length prefix.
    pub fn push(&mut self, byte: u8) -> (step: PacketStep)
        ensures
            final(self).limit() == old(self).limit(),
            step == prefix_step(old(self)@, byte, old(self).limit()),
            final(self)@ == (if step is Byte {
                old(self)@.push(byte)
            } else {
                old(self)@
            }),
    {
        match self.length.push(byte) {
            VarintStep::Done(len) => check_packet_len(len, self.max),
            VarintStep::More => PacketStep::Byte,
            VarintStep::TooBig => PacketStep::Refused(PacketError::VarintTooBig),
        }
    }
}

/// The VarInt encoding takes between one and five bytes.
pub proof fn law_varint_length(value: u32)
    ensures
        1 <= varint_bytes(value as nat).len() <= MAX_VARINT_BYTES,
{
    reveal_with_fuel(varint_bytes, 5);
}

/// The encoding's bytes give the value back, and only its last byte has a
/// clear top bit.
proof fn lemma_varint_bytes(value: nat)
    ensures
        varint_bytes(value).len() >= 1,
        groups_value(varint_bytes(value)) == value,
        varint_bytes(value).last() < 128,
        forall|i: int| 0 <= i < varint_bytes(value).len() - 1 ==> varint_bytes(value)[i] >= 128,
    decreases value,
{
    let bytes = varint_bytes(value);
    if value < 128 {
        assert(bytes.drop_first() =~= Seq::<u8>::empty());
        assert(groups_value(bytes.drop_first()) == 0);
    } else {
        lemma_varint_bytes(value / 128);
        assert(bytes.drop_first() =~= varint_bytes(value / 128));
    }
}

/// Reading undoes encoding: whatever follows a VarInt, its value comes back
/// and the rest is left untouched.
pub proof fn law_varint_round_trip(value: u32, rest: Seq<u8>)
    ensures
        leading_varint(varint_bytes(value as nat) + rest) == Some((signed_32(value as nat), rest)),
{
    let bytes = varint_bytes(value as nat);
    let all = bytes + rest;
    law_varint_length(value);
    lemma_varint_bytes(value as nat);
    let n = (bytes.len() - 1) as nat;
    assert forall|i: int| 0 <= i < n implies all[i] >= 128 by {
        assert(all[i] == bytes[i]);
    }
    assert(all[n as int] == bytes.last());
    lemma_varint_size(all, n);
    assert(all.take(bytes.len() as int) =~= bytes);
    assert(all.skip(bytes.len() as int) =~= rest);
}

/// A framed payload is read back whole: its length first, then the payload,
/// with what follows the frame left over.
pub proof fn law_frame_round_trip(payload: Seq<u8>, rest: Seq<u8>)
    requires
        payload.len() <= i32::MAX,
    ensures
        leading_varint(framed(payload) + rest) == Some((payload.len() as i32, payload + rest)),
{
    law_varint_round_trip(payload.len() as u32, payload + rest);
    assert(framed(payload) + rest =~= varint_bytes(payload.len()) + (payload + rest));
}

/// A signed number survives being written as a VarInt.
pub proof fn law_signed_round_trip(value: i32)
    ensures
        signed_32(unsigned_32(value) as nat) == value,
{
}

/// No packet body is ever asked for beyond the reader's limit.
pub proof fn law_body_within_limit(len: i32, max: i32)
    ensures
        body_step(len, max) matches PacketStep::Body(n) ==> n <= max,
{
}

/// A reader fed a frame byte by byte asks for one byte after another through
/// the length prefix, and then for exactly the payload.
pub proof fn law_frame_streams(payload: Seq<u8>, max: i32, i: int)
    requires
        payload.len() <= max,
        0 <= i < varint_bytes(payload.len()).len(),
    ensures
        prefix_step(framed(payload).take(i), framed(payload)[i], max) == (if i + 1
            < varint_bytes(payload.len()).len() {
            PacketStep::Byte
        } else {
            PacketStep::Body(payload.len() as usize)
        }),
{
    let bytes = varint_bytes(payload.len());
    law_varint_length(payload.len() as u32);
    lemma_varint_bytes(payload.len());
    assert(framed(payload).take(i) =~= bytes.take(i));
    assert(framed(payload)[i] == bytes[i]);
    if i + 1 == bytes.len() {
        assert(bytes.take(i).push(bytes[i]) =~= bytes);
    }
}

/// The signed and the unsigned reading of a number differ by multiples of 2^32
/// only.
pub proof fn law_readings_agree_modulo(value: nat, signed: i32)
    ensures
        (signed_32(value) - value) % 0x1_0000_0000 == 0,
        (unsigned_32(signed) - signed) % 0x1_0000_0000 == 0,
{
    let low = value % 0x1_0000_0000;
    assert(value - low == 0x1_0000_0000 * (value / 0x1_0000_0000));
    assert(signed_32(value) == low || signed_32(value) == low - 0x1_0000_0000);
    assert((0x1_0000_0000 * (-((value / 0x1_0000_0000) as int))) % 0x1_0000_0000 == 0)
        by (nonlinear_arith);
    assert((0x1_0000_0000 * (-((value / 0x1_0000_0000) as int) - 1)) % 0x1_0000_0000 == 0)
        by (nonlinear_arith);
}

/// A VarInt is read group by group: a byte below 128 is one of its own, and any
/// other byte adds its low seven bits below what follows, as long as there are
/// no more than five bytes.
pub proof fn law_varint_groups(byte: u8, rest: Seq<u8>)
    ensures
        byte < 128 ==> leading_varint(seq![byte] + rest) == Some((byte as i32, rest)),
        byte >= 128 ==> (match leading_varint(rest) {
            Some((value, tail)) => if rest.len() - tail.len() <= 4 {
                leading_varint(seq![byte] + rest) matches Some((all, left)) && left == tail && (all - (
                byte - 128 + 128 * unsigned_32(value))) % 0x1_0000_0000 == 0
            } else {
                leading_varint(seq![byte] + rest) is None
            },
            None => leading_varint(seq![byte] + rest) is None,
        }),
        leading_varint(Seq::empty()) is None,
{
    let bytes = seq![byte] + rest;
    assert(bytes.drop_first() =~= rest);
    let n = varint_size(bytes);
    if byte < 128 {
        assert(bytes.take(1) =~= seq![byte]);
        assert(seq![byte].drop_first() =~= Seq::<u8>::empty());
        assert(groups_value(seq![byte].drop_first()) == 0);
        assert(bytes.skip(1) =~= rest);
    } else {
        let m = varint_size(rest);
        assert(n == m + 1);
        if m <= rest.len() {
            assert(bytes.skip(n as int) =~= rest.skip(m as int));
            assert(bytes.take(n as int).drop_first() =~= rest.take(m as int));
            let v = groups_value(rest.take(m as int));
            assert(groups_value(bytes.take(n as int)) == (byte - 128) + 128 * v);
            if n <= MAX_VARINT_BYTES {
                let value = signed_32(v);
                let all = signed_32(groups_value(bytes.take(n as int)));
                law_readings_agree_modulo(v, value);
                law_readings_agree_modulo(groups_value(bytes.take(n as int)), value);
                let u = unsigned_32(value) as int;
                let total = (byte - 128) + 128 * v;
                assert((all - total) % 0x1_0000_0000 == 0);
                assert((value - v) % 0x1_0000_0000 == 0);
                assert((u - value) % 0x1_0000_0000 == 0);
                assert((all - (byte - 128 + 128 * u)) % 0x1_0000_0000 == 0) by (nonlinear_arith)
                    requires
                        (all - total) % 0x1_0000_0000 == 0,
                        (value - v) % 0x1_0000_0000 == 0,
                        (u - value) % 0x1_0000_0000 == 0,
                        total == (byte - 128) + 128 * v,
                {
                    let a = (all - total) / 0x1_0000_0000;
                    let b = (value - v) / 0x1_0000_0000;
                    let c = (u - value) / 0x1_0000_0000;
                    assert(all - total == 0x1_0000_0000 * a);
                    assert(value - v == 0x1_0000_0000 * b);
                    assert(u - value == 0x1_0000_0000 * c);
                    assert(all - (byte - 128 + 128 * u) == 0x1_0000_0000 * (a - 128 * b - 128 * c));
                }
            }
        }
    }
}

/// No encoding is longer than it has to be: a last group that is not alone is
/// not empty.
pub proof fn law_varint_is_shortest(value: nat)
    ensures
        varint_bytes(value).len() > 1 ==> varint_bytes(value).last() != 0,
    decreases value,
{
    if value >= 128 {
        law_varint_is_shortest(value / 128);
        lemma_varint_bytes(value / 128);
        assert(varint_bytes(value).last() == varint_bytes(value / 128).last());
        if varint_bytes(value / 128).len() == 1 {
            assert(value / 128 < 128) by {
                if value / 128 >= 128 {
                    lemma_varint_bytes(value / 128 / 128);
                }
            }
        }
    }
}

/// A frame is the length of the payload as a VarInt, and the payload.
pub proof fn law_frame_is_length_and_payload(payload: Seq<u8>)
    requires
        payload.len() <= u32::MAX,
    ensures
        ({
            let prefix = varint_bytes(payload.len()).len() as int;
            &&& framed(payload).len() == prefix + payload.len()
            &&& framed(payload).take(prefix) == varint_bytes(payload.len())
            &&& framed(payload).skip(prefix) == payload
        }),
{
    let prefix = varint_bytes(payload.len());
    assert(framed(payload) =~= prefix + payload);
    assert(framed(payload).take(prefix.len() as int) =~= prefix);
    assert(framed(payload).skip(prefix.len() as int) =~= payload);
}

/// A body is asked for exactly if its length is neither negative nor above the
/// limit, and then all of it.
pub proof fn law_length_decides(len: i32, max: i32)
    ensures
        0 <= len <= max ==> (body_step(len, max) matches PacketStep::Body(n) && n == len),
        len < 0 || len > max ==> body_step(len, max) == PacketStep::Refused(PacketError::BadLength),
{
}

/// A length that arrives byte by byte is the one that is read from all its bytes
/// at once.
pub proof fn law_prefix_reads_a_varint(seen: Seq<u8>, byte: u8, max: i32)
    requires
        seen.len() < 5,
        forall|i: int| 0 <= i < seen.len() ==> seen[i] >= 128,
    ensures
        byte < 128 ==> (leading_varint(seen.push(byte)) matches Some((len, rest)) && rest.len() == 0
            && prefix_step(seen, byte, max) == body_step(len, max)),
        byte >= 128 && seen.len() < 4 ==> prefix_step(seen, byte, max) is Byte,
        byte >= 128 && seen.len() == 4 ==> prefix_step(seen, byte, max) == PacketStep::Refused(
            PacketError::VarintTooBig,
        ),
{
    let bytes = seen.push(byte);
    assert forall|i: int| 0 <= i < seen.len() implies bytes[i] >= 128 by {
        assert(bytes[i] == seen[i]);
    }
    lemma_varint_size(bytes, seen.len());
    assert(bytes.take(bytes.len() as int) =~= bytes);
}

/// A packet reader answers each byte by the bytes it has taken, and keeps the
/// byte exactly if it wants another.
pub proof fn law_packet_reader_follows_its_bytes(
    reader: &mut PacketReader,
    byte: u8,
    step: PacketStep,
)
    requires
        call_ensures(PacketReader::push, (reader, byte), step),
    ensures
        step == prefix_step(old(reader)@, byte, old(reader).limit()),
        final(reader).limit() == old(reader).limit(),
        step is Byte ==> final(reader)@ == old(reader)@.push(byte),
{
}

/// A new packet reader takes a length of one byte at once and holds it to the
/// limit it was made with.
pub proof fn law_new_reader_keeps_its_limit(
    max: i32,
    fresh: PacketReader,
    reader: &mut PacketReader,
    byte: u8,
    step: PacketStep,
)
    requires
        call_ensures(PacketReader::new, (max,), fresh),
        call_ensures(PacketReader::push, (reader, byte), step),
        *old(reader) == fresh,
    ensures
        byte < 128 && byte <= max ==> (step matches PacketStep::Body(n) && n == byte),
        byte < 128 && byte > max ==> step == PacketStep::Refused(PacketError::BadLength),
        byte >= 128 ==> step is Byte,
{
    let none = Seq::<u8>::empty();
    law_prefix_reads_a_varint(none, byte, max);
    if byte < 128 {
        law_varint_groups(byte, none);
        assert(none.push(byte) =~= seq![byte] + none);
        law_length_decides(byte as i32, max);
    }
}

} // verus!
