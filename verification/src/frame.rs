//! The transfer frame: an 8-byte length field followed by exactly that many
//! bytes of payload.
//!
//! Both peers use the same discipline in both directions.  The length field
//! holds the payload's length as an unsigned 64-bit number in the byte order
//! that the peers agree on, which is the sender's native one unless the
//! caller says otherwise.  Nothing separates or pads the two parts.

use vstd::prelude::*;
use vstd::arithmetic::div_mod::lemma_mod_breakdown;
use crate::error::ProtocolError;

verus! {

/// The order in which the bytes of the length field stand.
#[derive(Clone, Copy, Debug, PartialEq, Eq, Structural)]
pub enum ByteOrder {
    /// The byte of least weight comes first.
    LittleEndian,
    /// The byte of most weight comes first.
    BigEndian,
}

/// 256 to the power of `count`.
pub open spec fn radix_power(count: nat) -> nat
    decreases count,
{
    if count == 0 {
        1
    } else {
        256 * radix_power((count - 1) as nat)
    }
}

/// The `count` lowest digits of `value` in base 256, the lowest first.
pub open spec fn digits(value: nat, count: nat) -> Seq<u8>
    decreases count,
{
    if count == 0 {
        Seq::empty()
    } else {
        seq![(value % 256) as u8] + digits(value / 256, (count - 1) as nat)
    }
}

/// The number whose digits in base 256, the lowest first, are `digits`.
pub open spec fn number(digits: Seq<u8>) -> nat
    decreases digits.len(),
{
    if digits.len() == 0 {
        0
    } else {
        digits[0] as nat + 256 * number(digits.subrange(1, digits.len() as int))
    }
}

/// The length field that announces `length` bytes of payload.
pub open spec fn length_field(length: u64, order: ByteOrder) -> Seq<u8> {
    match order {
        ByteOrder::LittleEndian => digits(length as nat, 8),
        ByteOrder::BigEndian => digits(length as nat, 8).reverse(),
    }
}

/// The length that `field` announces.
pub open spec fn declared_length(field: Seq<u8>, order: ByteOrder) -> nat {
    match order {
        ByteOrder::LittleEndian => number(field),
        ByteOrder::BigEndian => number(field.reverse()),
    }
}

/// The frame that carries `payload`.
pub open spec fn frame(payload: Seq<u8>, order: ByteOrder) -> Seq<u8> {
    length_field(payload.len() as u64, order) + payload
}

/// `digits` yields as many digits as it is asked for.
pub proof fn lemma_digits_len(value: nat, count: nat)
    ensures
        digits(value, count).len() == count,
    decreases count,
{
    if count > 0 {
        lemma_digits_len(value / 256, (count - 1) as nat);
    }
}

/// A number with `n` digits is below 256 to the power of `n`.
pub proof fn lemma_number_bound(digits: Seq<u8>)
    ensures
        number(digits) < radix_power(digits.len()),
    decreases digits.len(),
{
    if digits.len() > 0 {
        lemma_number_bound(digits.subrange(1, digits.len() as int));
    }
}

/// The powers of 256 grow with the exponent.
pub proof fn lemma_radix_power_monotonic(low: nat, high: nat)
    requires
        low <= high,
    ensures
        0 < radix_power(low) <= radix_power(high),
    decreases high,
{
    if high == 0 {
    } else if low == high {
        lemma_radix_power_monotonic((low - 1) as nat, (high - 1) as nat);
    } else {
        lemma_radix_power_monotonic(low, (high - 1) as nat);
    }
}

/// Eight digits hold every unsigned 64-bit number and nothing more.
pub proof fn lemma_radix_power_eight()
    ensures
        radix_power(7) == 0x100_0000_0000_0000,
        radix_power(8) == 0x1_0000_0000_0000_0000,
{
    reveal_with_fuel(radix_power, 9);
}

/// Reading back the `count` lowest digits of `value` gives `value` modulo
/// 256 to the power of `count`.
pub proof fn lemma_number_of_digits(value: nat, count: nat)
    ensures
        number(digits(value, count)) == value % radix_power(count),
    decreases count,
{
    if count > 0 {
        let rest = digits(value / 256, (count - 1) as nat);
        let all = digits(value, count);
        lemma_number_of_digits(value / 256, (count - 1) as nat);
        lemma_radix_power_monotonic(0, (count - 1) as nat);
        lemma_mod_breakdown(value as int, 256, radix_power((count - 1) as nat) as int);
        assert(all.subrange(1, all.len() as int) =~= rest);
        assert(all[0] == (value % 256) as u8);
    }
}

/// Writing out the digits of the number that `digits` stands for gives
/// `digits` back.
pub proof fn lemma_digits_of_number(digits: Seq<u8>)
    ensures
        self::digits(number(digits), digits.len()) == digits,
    decreases digits.len(),
{
    if digits.len() > 0 {
        let tail = digits.subrange(1, digits.len() as int);
        lemma_digits_of_number(tail);
        let value = number(digits);
        assert(value % 256 == digits[0] as nat);
        assert(value / 256 == number(tail));
        assert(self::digits(value, digits.len()) =~= digits);
    }
}

/// A length survives being written as a length field and read back, in
/// either byte order, and the field is eight bytes long.
pub proof fn lemma_length_round_trip(length: u64, order: ByteOrder)
    ensures
        length_field(length, order).len() == 8,
        declared_length(length_field(length, order), order) == length,
{
    let low_first = digits(length as nat, 8);
    lemma_digits_len(length as nat, 8);
    lemma_number_of_digits(length as nat, 8);
    lemma_radix_power_eight();
    assert(low_first.reverse().reverse() =~= low_first);
}

/// A field of eight bytes, in either byte order, announces a length that
/// fits in 64 bits, and no other field announces the same length.
pub proof fn lemma_field_round_trip(field: Seq<u8>, order: ByteOrder)
    requires
        field.len() == 8,
    ensures
        declared_length(field, order) <= u64::MAX,
        length_field(declared_length(field, order) as u64, order) == field,
{
    lemma_radix_power_eight();
    match order {
        ByteOrder::LittleEndian => {
            lemma_number_bound(field);
            lemma_digits_of_number(field);
        },
        ByteOrder::BigEndian => {
            lemma_number_bound(field.reverse());
            lemma_digits_of_number(field.reverse());
            assert(field.reverse().reverse() =~= field);
        },
    }
}

/// What a receiver makes of `stream`, the bytes that arrive before the
/// stream ends: the payload of the frame that `stream` begins with, or the
/// reason why there is none.  A length above `max_length` is refused
/// whatever follows the length field.  Bytes beyond the frame are not
/// looked at.
pub open spec fn received(stream: Seq<u8>, max_length: u64, order: ByteOrder) -> Result<
    Seq<u8>,
    ProtocolError,
> {
    if stream.len() < 8 {
        Err(ProtocolError::ShortLength { received: stream.len() as u64 })
    } else {
        let declared = declared_length(stream.subrange(0, 8), order);
        if declared > max_length {
            Err(ProtocolError::Oversized { declared: declared as u64, limit: max_length })
        } else if stream.len() < 8 + declared {
            Err(
                ProtocolError::ShortPayload {
                    declared: declared as u64,
                    received: (stream.len() - 8) as u64,
                },
            )
        } else {
            Ok(stream.subrange(8, 8 + declared as int))
        }
    }
}

/// How many bytes of `stream` a receiver reads: the length field, and the
/// payload only if its announced length is within `max_length`, and no more
/// than there are.
pub open spec fn extent(stream: Seq<u8>, max_length: u64, order: ByteOrder) -> nat {
    if stream.len() < 8 {
        stream.len()
    } else {
        let declared = declared_length(stream.subrange(0, 8), order);
        if declared > max_length {
            8
        } else if stream.len() < 8 + declared {
            stream.len()
        } else {
            8 + declared
        }
    }
}

/// The part of `stream` that a receiver reads.
pub open spec fn intake(stream: Seq<u8>, max_length: u64, order: ByteOrder) -> Seq<u8> {
    stream.take(extent(stream, max_length, order) as int)
}

/// What was sent as one frame is received as it was sent, whatever follows
/// it on the stream, provided that the receiver accepts its length.
pub proof fn lemma_frame_round_trip(
    payload: Seq<u8>,
    rest: Seq<u8>,
    max_length: u64,
    order: ByteOrder,
)
    requires
        payload.len() <= max_length,
    ensures
        received(frame(payload, order) + rest, max_length, order) == Ok::<
            Seq<u8>,
            ProtocolError,
        >(payload),
        intake(frame(payload, order) + rest, max_length, order) == frame(payload, order),
{
    let length = payload.len() as u64;
    let stream = frame(payload, order) + rest;
    lemma_length_round_trip(length, order);
    assert(stream.subrange(0, 8) =~= length_field(length, order));
    assert(stream.subrange(8, 8 + payload.len() as int) =~= payload);
    assert(stream.take(8 + payload.len() as int) =~= frame(payload, order));
}

/// A frame that announces more than the receiver accepts is refused on its
/// length field alone: the receiver reads those eight bytes and not one
/// byte of payload, however much of it is there.
pub proof fn lemma_oversized_refused(stream: Seq<u8>, max_length: u64, order: ByteOrder)
    requires
        stream.len() >= 8,
        declared_length(stream.subrange(0, 8), order) > max_length,
    ensures
        received(stream, max_length, order) == Err::<Seq<u8>, ProtocolError>(
            ProtocolError::Oversized {
                declared: declared_length(stream.subrange(0, 8), order) as u64,
                limit: max_length,
            },
        ),
        extent(stream, max_length, order) == 8,
        declared_length(stream.subrange(0, 8), order) <= u64::MAX,
{
    lemma_field_round_trip(stream.subrange(0, 8), order);
}

/// A stream that ends before the frame is complete is a short read, and no
/// stream is both complete and short.
pub proof fn lemma_short_read(stream: Seq<u8>, max_length: u64, order: ByteOrder)
    ensures
        received(stream, max_length, order) is Ok <==> stream.len() >= 8 && declared_length(
            stream.subrange(0, 8),
            order,
        ) <= max_length && stream.len() >= 8 + declared_length(stream.subrange(0, 8), order),
        received(stream, max_length, order) matches Ok(payload) ==> payload.len()
            == declared_length(stream.subrange(0, 8), order) && payload.len() <= max_length,
        received(stream, max_length, order) matches Err(ProtocolError::ShortLength { received })
            ==> received == stream.len() && stream.len() < 8,
        received(stream, max_length, order) matches Err(
            ProtocolError::ShortPayload { declared, received },
        ) ==> received == stream.len() - 8 && received < declared <= max_length,
{
    if stream.len() >= 8 {
        lemma_field_round_trip(stream.subrange(0, 8), order);
    }
}

/// What a receiver makes of a stream depends on the part that it reads and
/// on nothing else, and of that part it reads all.
pub proof fn lemma_intake_decides(stream: Seq<u8>, max_length: u64, order: ByteOrder)
    ensures
        received(intake(stream, max_length, order), max_length, order) == received(
            stream,
            max_length,
            order,
        ),
        intake(intake(stream, max_length, order), max_length, order) == intake(
            stream,
            max_length,
            order,
        ),
{
    let part = intake(stream, max_length, order);
    if stream.len() >= 8 {
        lemma_field_round_trip(stream.subrange(0, 8), order);
        assert(part.subrange(0, 8) =~= stream.subrange(0, 8));
        let declared = declared_length(stream.subrange(0, 8), order);
        if declared <= max_length && stream.len() >= 8 + declared {
            assert(part.subrange(8, 8 + declared as int) =~= stream.subrange(8, 8 + declared as int));
        }
    }
    assert(part.take(part.len() as int) =~= part);
    assert(stream.take(stream.len() as int) =~= stream);
}

/// A receiver reads the same bytes whether the stream reaches it in one
/// piece or in two.
pub proof fn lemma_intake_in_pieces(
    first: Seq<u8>,
    second: Seq<u8>,
    max_length: u64,
    order: ByteOrder,
)
    ensures
        intake(intake(first, max_length, order) + second, max_length, order) == intake(
            first + second,
            max_length,
            order,
        ),
{
    let part = intake(first, max_length, order);
    let whole = first + second;
    assert(first.take(first.len() as int) =~= first);
    if part.len() < first.len() {
        assert(first.len() >= 8);
        assert(part.subrange(0, 8) =~= first.subrange(0, 8));
        assert((part + second).subrange(0, 8) =~= first.subrange(0, 8));
        assert(whole.subrange(0, 8) =~= first.subrange(0, 8));
        assert((part + second).take(part.len() as int) =~= part);
        assert(whole.take(part.len() as int) =~= part);
    } else {
        assert(part == first);
    }
}

/// `u64::to_ne_bytes`: the eight bytes that hold `value` in this machine's
/// memory.  With the std documentation the contract takes them to stand in
/// native byte order, which is one of the two orders that exist; it does not
/// say which.
#[verifier::external_body]
fn native_bytes(value: u64) -> (bytes: Vec<u8>)
    ensures
        bytes@ == length_field(value, ByteOrder::LittleEndian) || bytes@ == length_field(
            value,
            ByteOrder::BigEndian,
        ),
{
    value.to_ne_bytes().to_vec()
}

impl ByteOrder {
    /// The byte order in which a machine holds its numbers, told from the
    /// bytes `probe` in which it holds the number one.
    pub fn of_probe(probe: &[u8]) -> (order: ByteOrder)
        ensures
            order == if probe@.len() > 0 && probe@[0] == 1 {
                ByteOrder::LittleEndian
            } else {
                ByteOrder::BigEndian
            },
            probe@ == length_field(1, ByteOrder::LittleEndian) ==> order
                == ByteOrder::LittleEndian,
            probe@ == length_field(1, ByteOrder::BigEndian) ==> order == ByteOrder::BigEndian,
    {
        proof {
            lemma_digits_of_one();
        }
        if probe.len() > 0 && probe[0] == 1 {
            ByteOrder::LittleEndian
        } else {
            ByteOrder::BigEndian
        }
    }

    /// The byte order of the machine that runs this code.
    pub fn native() -> (order: ByteOrder) {
        let probe = native_bytes(1);
        Self::of_probe(probe.as_slice())
    }
}

/// The digits of the number one.
proof fn lemma_digits_of_one()
    ensures
        digits(1, 8) == seq![1u8, 0u8, 0u8, 0u8, 0u8, 0u8, 0u8, 0u8],
        digits(1, 8).reverse() == seq![0u8, 0u8, 0u8, 0u8, 0u8, 0u8, 0u8, 1u8],
{
    reveal_with_fuel(digits, 9);
    assert(digits(1, 8) =~= seq![1u8, 0u8, 0u8, 0u8, 0u8, 0u8, 0u8, 0u8]);
    assert(digits(1, 8).reverse() =~= seq![0u8, 0u8, 0u8, 0u8, 0u8, 0u8, 0u8, 1u8]);
}

/// The bytes of `bytes` in reverse order.
fn reversed(bytes: &[u8]) -> (turned: Vec<u8>)
    ensures
        turned@ == bytes@.reverse(),
{
    let mut turned: Vec<u8> = Vec::new();
    let mut left: usize = bytes.len();
    while left > 0
        invariant
            left <= bytes@.len(),
            turned@.len() == bytes@.len() - left,
            forall|i: int| 0 <= i < turned@.len() ==> turned@[i] == bytes@[bytes@.len() - 1 - i],
        decreases left,
    {
        left -= 1;
        turned.push(bytes[left]);
    }
    assert(turned@ =~= bytes@.reverse());
    turned
}

/// Appends `bytes` to `target`.
fn append(target: &mut Vec<u8>, bytes: &[u8])
    ensures
        final(target)@ == old(target)@ + bytes@,
{
    let mut at: usize = 0;
    while at < bytes.len()
        invariant
            at <= bytes@.len(),
            target@ == old(target)@ + bytes@.take(at as int),
        decreases bytes@.len() - at,
    {
        target.push(bytes[at]);
        at += 1;
        assert(old(target)@ + bytes@.take(at as int) =~= (old(target)@ + bytes@.take(at - 1)).push(
            bytes@[at - 1],
        ));
    }
    assert(bytes@.take(at as int) =~= bytes@);
}

/// Writes the length field that announces `length` bytes of payload.
pub fn encode_length(length: u64, order: ByteOrder) -> (field: Vec<u8>)
    ensures
        field@ == length_field(length, order),
        field@.len() == 8,
{
    let mut field: Vec<u8> = Vec::new();
    let mut rest: u64 = length;
    let mut filled: usize = 0;
    while filled < 8
        invariant
            filled <= 8,
            field@.len() == filled,
            field@ + digits(rest as nat, (8 - filled) as nat) == digits(length as nat, 8),
        decreases 8 - filled,
    {
        let digit: u8 = (rest % 256) as u8;
        assert(field@.push(digit) + digits((rest / 256) as nat, (8 - filled - 1) as nat) =~= field@
            + digits(rest as nat, (8 - filled) as nat));
        field.push(digit);
        rest = rest / 256;
        filled += 1;
    }
    assert(field@ =~= field@ + digits(rest as nat, 0));
    match order {
        ByteOrder::LittleEndian => field,
        ByteOrder::BigEndian => reversed(field.as_slice()),
    }
}

/// Reads the length that `field` announces.  A length field has eight
/// bytes; for any other number of bytes there is no length.
pub fn decode_length(field: &[u8], order: ByteOrder) -> (length: Option<u64>)
    ensures
        length is Some <==> field@.len() == 8,
        length matches Some(declared) ==> declared == declared_length(field@, order),
{
    if field.len() != 8 {
        return None;
    }
    match order {
        ByteOrder::LittleEndian => Some(number_of(field)),
        ByteOrder::BigEndian => {
            let turned = reversed(field);
            Some(number_of(turned.as_slice()))
        },
    }
}

/// The number whose eight digits, the lowest first, are `field`.
fn number_of(field: &[u8]) -> (value: u64)
    requires
        field@.len() == 8,
    ensures
        value == number(field@),
{
    let mut value: u64 = 0;
    let mut at: usize = 8;
    while at > 0
        invariant
            at <= 8,
            field@.len() == 8,
            value == number(field@.subrange(at as int, 8)),
        decreases at,
    {
        at -= 1;
        let ghost higher = field@.subrange(at + 1, 8);
        let ghost here = field@.subrange(at as int, 8);
        proof {
            lemma_number_bound(higher);
            lemma_radix_power_monotonic(higher.len(), 7);
            lemma_radix_power_eight();
            assert(here.subrange(1, here.len() as int) =~= higher);
        }
        value = value * 256 + field[at] as u64;
    }
    assert(field@.subrange(0, 8) =~= field@);
    value
}

/// Builds the frame that carries `payload`: the length field first, then
/// the payload, byte for byte.
pub fn send_frame(payload: &[u8], order: ByteOrder) -> (bytes: Vec<u8>)
    ensures
        bytes@ == frame(payload@, order),
        bytes@.len() == 8 + payload@.len(),
{
    let mut bytes = encode_length(payload.len() as u64, order);
    append(&mut bytes, payload);
    bytes
}

/// What a [`FrameReceiver`] was set up with and what it has read so far.
pub struct Intake {
    /// The byte order of the length field.
    pub order: ByteOrder,
    /// The longest payload that is accepted.
    pub max_length: u64,
    /// The bytes read so far: those of the length field, then those of the
    /// payload.
    pub consumed: Seq<u8>,
}

impl Intake {
    /// Nothing was read beyond what the frame needs.
    pub open spec fn wf(self) -> bool {
        extent(self.consumed, self.max_length, self.order) == self.consumed.len()
    }

    /// How many bytes are still to be read before the frame is complete or
    /// refused.
    pub open spec fn wanted(self) -> nat {
        if self.consumed.len() < 8 {
            (8 - self.consumed.len()) as nat
        } else {
            let declared = declared_length(self.consumed.subrange(0, 8), self.order);
            if declared > self.max_length {
                0
            } else {
                (8 + declared - self.consumed.len()) as nat
            }
        }
    }

    /// What has been received, were the stream to end now.
    pub open spec fn result(self) -> Result<Seq<u8>, ProtocolError> {
        received(self.consumed, self.max_length, self.order)
    }
}

/// Receives one frame from a stream that arrives piece by piece.
///
/// The caller asks [`FrameReceiver::wanted`] how many bytes to read, reads
/// at most that many, hands them to [`FrameReceiver::feed`], and goes on
/// until nothing more is wanted or the stream has ended.  Then
/// [`FrameReceiver::finish`] gives the payload or the error.  The payload
/// is buffered as it arrives and never before: a frame that announces too
/// much is refused when its length field is complete.
pub struct FrameReceiver {
    order: ByteOrder,
    max_length: u64,
    field: Vec<u8>,
    payload: Vec<u8>,
}

impl View for FrameReceiver {
    type V = Intake;

    closed spec fn view(&self) -> Intake {
        Intake {
            order: self.order,
            max_length: self.max_length,
            consumed: self.field@ + self.payload@,
        }
    }
}

impl FrameReceiver {
    /// How the two buffers go together: the payload is only filled once
    /// the length field is complete and admits it, and only as far as
    /// announced.
    spec fn coherent(order: ByteOrder, max_length: u64, field: Seq<u8>, payload: Seq<u8>) -> bool {
        &&& field.len() <= 8
        &&& field.len() < 8 ==> payload.len() == 0
        &&& field.len() == 8 ==> if declared_length(field, order) > max_length {
            payload.len() == 0
        } else {
            payload.len() <= declared_length(field, order)
        }
    }

    #[verifier::type_invariant]
    spec fn inv(self) -> bool {
        Self::coherent(self.order, self.max_length, self.field@, self.payload@)
    }

    /// Coherent buffers hold exactly what a receiver reads of them.
    proof fn lemma_coherent(order: ByteOrder, max_length: u64, field: Seq<u8>, payload: Seq<u8>)
        requires
            Self::coherent(order, max_length, field, payload),
        ensures
            (Intake { order, max_length, consumed: field + payload }).wf(),
            field.len() == 8 ==> (field + payload).subrange(0, 8) == field,
            field.len() == 8 ==> (field + payload).subrange(8, 8 + payload.len() as int)
                == payload,
            field.len() < 8 ==> field + payload == field,
    {
        if field.len() == 8 {
            assert((field + payload).subrange(0, 8) =~= field);
            assert((field + payload).subrange(8, 8 + payload.len() as int) =~= payload);
        } else {
            assert(field + payload =~= field);
        }
    }

    /// A receiver that accepts payloads of up to `max_length` bytes.
    pub fn new(max_length: u64, order: ByteOrder) -> (receiver: FrameReceiver)
        ensures
            receiver@ == (Intake { order, max_length, consumed: Seq::empty() }),
            receiver@.wf(),
    {
        let receiver = FrameReceiver { order, max_length, field: Vec::new(), payload: Vec::new() };
        assert(receiver.field@ + receiver.payload@ =~= Seq::empty());
        receiver
    }

    /// The longest payload that is accepted.
    pub fn max_length(&self) -> (max_length: u64)
        ensures
            max_length == self@.max_length,
    {
        self.max_length
    }

    /// The byte order of the length field.
    pub fn order(&self) -> (order: ByteOrder)
        ensures
            order == self@.order,
    {
        self.order
    }

    /// How many bytes the caller is to read next: what is missing of the
    /// length field, then what is missing of the payload, and nothing once
    /// the frame is complete or refused.
    pub fn wanted(&self) -> (count: u64)
        ensures
            count == self@.wanted(),
            self@.wf(),
    {
        proof {
            use_type_invariant(self);
            Self::lemma_coherent(self.order, self.max_length, self.field@, self.payload@);
        }
        if self.field.len() < 8 {
            (8 - self.field.len()) as u64
        } else {
            match decode_length(self.field.as_slice(), self.order) {
                Some(declared) => {
                    if declared > self.max_length {
                        0
                    } else {
                        declared - self.payload.len() as u64
                    }
                },
                None => 0,
            }
        }
    }

    /// Takes the bytes that the caller has read.  Of `chunk` the receiver
    /// takes what the frame still needs, first for the length field, then
    /// for the payload, and leaves the rest; it returns how many bytes it
    /// took.
    pub fn feed(&mut self, chunk: &[u8]) -> (taken: usize)
        ensures
            final(self)@.order == old(self)@.order,
            final(self)@.max_length == old(self)@.max_length,
            final(self)@.consumed == intake(
                old(self)@.consumed + chunk@,
                old(self)@.max_length,
                old(self)@.order,
            ),
            final(self)@.consumed == old(self)@.consumed + chunk@.take(taken as int),
            taken <= chunk@.len(),
            final(self)@.wf(),
    {
        proof {
            use_type_invariant(&*self);
            Self::lemma_coherent(self.order, self.max_length, self.field@, self.payload@);
        }
        let ghost before = self.field@ + self.payload@;
        let ghost stream = before + chunk@;
        let order = self.order;
        let max_length = self.max_length;
        // The buffers leave the receiver while they grow and come back
        // when they fit together again.
        let mut payload: Vec<u8> = Vec::new();
        core::mem::swap(&mut self.payload, &mut payload);
        let mut field: Vec<u8> = Vec::new();
        core::mem::swap(&mut self.field, &mut field);
        let mut taken: usize = 0;
        assert(before + chunk@.take(0) =~= before);
        while taken < chunk.len() && field.len() < 8
            invariant
                taken <= chunk@.len(),
                Self::coherent(order, max_length, field@, payload@),
                field@ + payload@ == before + chunk@.take(taken as int),
            decreases chunk@.len() - taken,
        {
            field.push(chunk[taken]);
            taken += 1;
            assert(field@ + payload@ =~= before + chunk@.take(taken as int));
        }
        if field.len() == 8 {
            match decode_length(field.as_slice(), order) {
                Some(declared) => {
                    if declared <= max_length {
                        while taken < chunk.len() && (payload.len() as u64) < declared
                            invariant
                                taken <= chunk@.len(),
                                field@.len() == 8,
                                declared == declared_length(field@, order),
                                declared <= max_length,
                                Self::coherent(order, max_length, field@, payload@),
                                field@ + payload@ == before + chunk@.take(taken as int),
                            decreases chunk@.len() - taken,
                        {
                            let ghost held = field@ + payload@;
                            payload.push(chunk[taken]);
                            taken += 1;
                            assert(chunk@.take(taken as int) =~= chunk@.take(taken - 1).push(
                                chunk@[taken - 1],
                            ));
                            assert(field@ + payload@ =~= held.push(chunk@[taken - 1]));
                        }
                    }
                },
                None => {},
            }
        }
        proof {
            let after = field@ + payload@;
            Self::lemma_coherent(order, max_length, field@, payload@);
            assert(chunk@.take(chunk@.len() as int) =~= chunk@);
            assert(stream.take(stream.len() as int) =~= stream);
            assert(after =~= stream.take(after.len() as int));
            if after.len() >= 8 {
                assert(stream.subrange(0, 8) =~= after.subrange(0, 8));
            }
        }
        core::mem::swap(&mut self.field, &mut field);
        core::mem::swap(&mut self.payload, &mut payload);
        taken
    }

    /// Whether the frame has arrived whole.
    pub fn is_complete(&self) -> (complete: bool)
        ensures
            complete == self@.result() is Ok,
    {
        proof {
            use_type_invariant(self);
            Self::lemma_coherent(self.order, self.max_length, self.field@, self.payload@);
        }
        match decode_length(self.field.as_slice(), self.order) {
            Some(declared) => declared <= self.max_length && self.payload.len() as u64
                == declared,
            None => false,
        }
    }

    /// Ends the reception: the payload if the frame has arrived whole, the
    /// refusal if it announced too much, and else the short read that the
    /// end of the stream amounts to.
    pub fn finish(self) -> (result: Result<Vec<u8>, ProtocolError>)
        ensures
            result matches Ok(payload) ==> self@.result() == Ok::<Seq<u8>, ProtocolError>(
                payload@,
            ),
            result matches Err(error) ==> self@.result() == Err::<Seq<u8>, ProtocolError>(error),
    {
        proof {
            use_type_invariant(&self);
            Self::lemma_coherent(self.order, self.max_length, self.field@, self.payload@);
        }
        match decode_length(self.field.as_slice(), self.order) {
            None => Err(ProtocolError::ShortLength { received: self.field.len() as u64 }),
            Some(declared) => {
                if declared > self.max_length {
                    Err(ProtocolError::Oversized { declared, limit: self.max_length })
                } else if (self.payload.len() as u64) < declared {
                    Err(
                        ProtocolError::ShortPayload {
                            declared,
                            received: self.payload.len() as u64,
                        },
                    )
                } else {
                    Ok(self.payload)
                }
            },
        }
    }
}

/// Receives one frame from `stream`, the bytes that arrive before the
/// stream ends, and accepts a payload of up to `max_length` bytes.
pub fn recv_frame(stream: &[u8], max_length: u64, order: ByteOrder) -> (result: Result<
    Vec<u8>,
    ProtocolError,
>)
    ensures
        result matches Ok(payload) ==> received(stream@, max_length, order) == Ok::<
            Seq<u8>,
            ProtocolError,
        >(payload@),
        result matches Err(error) ==> received(stream@, max_length, order) == Err::<
            Seq<u8>,
            ProtocolError,
        >(error),
{
    let mut receiver = FrameReceiver::new(max_length, order);
    receiver.feed(stream);
    proof {
        assert(Seq::<u8>::empty() + stream@ =~= stream@);
        lemma_intake_decides(stream@, max_length, order);
    }
    receiver.finish()
}

} // verus!
