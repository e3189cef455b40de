//! The essence of a value transaction: its inputs, its outputs, and a
//! payload that it may carry.

use vstd::prelude::*;
use crate::protocol::message::codec::append_bytes;
use crate::payload::error::Error;
use crate::payload::input::{
    input_bytes, lemma_input_round_trip, parse_input, Input, UTXOInputView,
};
use crate::payload::milestone::{
    lemma_payload_round_trip, parse_payload, payload_bytes, payload_fits, Payload, PayloadView,
};
use crate::payload::output::{
    lemma_output_round_trip, output_bytes, parse_output, Output, OutputView,
};
use crate::payload::packable::{
    le_bytes_u16, le_bytes_u32, le_u16, le_u32, lemma_le_round_trip, push_u16, push_u32,
    take_u16, take_u32, take_u8, PackableError,
};

verus! {

/// The essence of a value transaction.
#[derive(Debug)]
pub struct TransactionEssence {
    inputs: Vec<Input>,
    outputs: Vec<Output>,
    payload: Option<Payload>,
}

/// An essence as plain values.
pub struct EssenceView {
    pub inputs: Seq<UTXOInputView>,
    pub outputs: Seq<OutputView>,
    pub payload: Option<PayloadView>,
}

/// Inputs as plain values.
pub open spec fn input_views(inputs: Seq<Input>) -> Seq<UTXOInputView> {
    Seq::new(inputs.len(), |i: int| inputs[i]@)
}

/// Outputs as plain values.
pub open spec fn output_views(outputs: Seq<Output>) -> Seq<OutputView> {
    Seq::new(outputs.len(), |i: int| outputs[i]@)
}

/// The payload, if any, as plain values.
pub open spec fn payload_view(payload: Option<Payload>) -> Option<PayloadView> {
    match payload {
        Some(p) => Some(p@),
        None => None,
    }
}

impl View for TransactionEssence {
    type V = EssenceView;

    closed spec fn view(&self) -> EssenceView {
        EssenceView {
            inputs: input_views(self.inputs@),
            outputs: output_views(self.outputs@),
            payload: payload_view(self.payload),
        }
    }
}

/// The bytes of the first `n` inputs, one after another.
pub open spec fn inputs_bytes(inputs: Seq<UTXOInputView>, n: int) -> Seq<u8>
    decreases n,
{
    if n <= 0 {
        Seq::empty()
    } else {
        inputs_bytes(inputs, n - 1) + input_bytes(inputs[n - 1])
    }
}

/// The bytes of the first `n` outputs, one after another.
pub open spec fn outputs_bytes(outputs: Seq<OutputView>, n: int) -> Seq<u8>
    decreases n,
{
    if n <= 0 {
        Seq::empty()
    } else {
        outputs_bytes(outputs, n - 1) + output_bytes(outputs[n - 1])
    }
}

/// The bytes of the payload part: the length of the payload in four
/// bytes, zero for none, then the payload.
pub open spec fn payload_part(payload: Option<PayloadView>) -> Seq<u8> {
    match payload {
        Some(p) => le_bytes_u32(payload_bytes(p).len() as u32) + payload_bytes(p),
        None => le_bytes_u32(0),
    }
}

/// The bytes of an essence: the type, zero; the number of inputs in two
/// bytes and the inputs; the number of outputs in two bytes and the
/// outputs; the payload part.
pub open spec fn essence_bytes(essence: EssenceView) -> Seq<u8> {
    seq![0u8] + le_bytes_u16(essence.inputs.len() as u16) + inputs_bytes(
        essence.inputs,
        essence.inputs.len() as int,
    ) + le_bytes_u16(essence.outputs.len() as u16) + outputs_bytes(
        essence.outputs,
        essence.outputs.len() as int,
    ) + payload_part(essence.payload)
}

/// Whether an essence can be packed: its counts and the length of its
/// payload fit the fields that announce them.
pub open spec fn essence_packs(essence: EssenceView) -> bool {
    &&& essence.inputs.len() <= u16::MAX
    &&& essence.outputs.len() <= u16::MAX
    &&& match essence.payload {
        Some(p) => (p is Indexation ==> payload_fits(p)) && payload_bytes(p).len() <= u32::MAX,
        None => true,
    }
}

/// Whether an essence is read back from its bytes: it can be packed,
/// every transaction id and address is 32 bytes, and its payload fits.
pub open spec fn essence_fits(essence: EssenceView) -> bool {
    &&& essence_packs(essence)
    &&& forall|i: int| 0 <= i < essence.inputs.len() ==> (#[trigger] essence.inputs[i]).id.len() == 32
    &&& forall|i: int|
        0 <= i < essence.outputs.len() ==> (#[trigger] essence.outputs[i]).address.len() == 32
    &&& match essence.payload {
        Some(p) => payload_fits(p),
        None => true,
    }
}

/// The first `n` inputs that stand at the start of `bytes`, with their length.
pub open spec fn parse_inputs(bytes: Seq<u8>, n: int) -> Result<
    (Seq<UTXOInputView>, int),
    PackableError,
>
    decreases n,
{
    if n <= 0 {
        Ok((Seq::empty(), 0))
    } else {
        match parse_inputs(bytes, n - 1) {
            Err(e) => Err(e),
            Ok((inputs, used)) => match parse_input(bytes.skip(used)) {
                Err(e) => Err(e),
                Ok((input, len)) => Ok((inputs.push(input), used + len)),
            },
        }
    }
}

/// The first `n` outputs that stand at the start of `bytes`, with their length.
pub open spec fn parse_outputs(bytes: Seq<u8>, n: int) -> Result<
    (Seq<OutputView>, int),
    PackableError,
>
    decreases n,
{
    if n <= 0 {
        Ok((Seq::empty(), 0))
    } else {
        match parse_outputs(bytes, n - 1) {
            Err(e) => Err(e),
            Ok((outputs, used)) => match parse_output(bytes.skip(used)) {
                Err(e) => Err(e),
                Ok((output, len)) => Ok((outputs.push(output), used + len)),
            },
        }
    }
}

/// The payload part that stands at the start of `bytes`, with its
/// length: a length of zero means no payload; another length must be the
/// length of the payload that follows.
pub open spec fn parse_payload_part(bytes: Seq<u8>) -> Result<(Option<PayloadView>, int), PackableError> {
    if bytes.len() < 4 {
        Err(PackableError::Io)
    } else if le_u32(bytes.subrange(0, 4)) == 0 {
        Ok((None, 4))
    } else {
        match parse_payload(bytes.skip(4)) {
            Err(e) => Err(e),
            Ok((payload, len)) => if len == le_u32(bytes.subrange(0, 4)) {
                Ok((Some(payload), 4 + len))
            } else {
                Err(PackableError::InvalidAnnouncedLen)
            },
        }
    }
}

/// The essence that stands at the start of `bytes`, with its length.
pub open spec fn parse_essence(bytes: Seq<u8>) -> Result<(EssenceView, int), PackableError> {
    if bytes.len() < 1 {
        Err(PackableError::Io)
    } else if bytes[0] != 0 {
        Err(PackableError::InvalidType)
    } else if bytes.len() < 3 {
        Err(PackableError::Io)
    } else {
        match parse_inputs(bytes.skip(3), le_u16(bytes.subrange(1, 3)) as int) {
            Err(e) => Err(e),
            Ok((inputs, a)) => if bytes.len() < 3 + a + 2 {
                Err(PackableError::Io)
            } else {
                match parse_outputs(
                    bytes.skip(5 + a),
                    le_u16(bytes.subrange(3 + a, 5 + a)) as int,
                ) {
                    Err(e) => Err(e),
                    Ok((outputs, b)) => match parse_payload_part(bytes.skip(5 + a + b)) {
                        Err(e) => Err(e),
                        Ok((payload, c)) => Ok(
                            (EssenceView { inputs, outputs, payload }, 5 + a + b + c),
                        ),
                    },
                }
            },
        }
    }
}

proof fn lemma_inputs_round_trip(inputs: Seq<UTXOInputView>, n: int, rest: Seq<u8>)
    requires
        0 <= n <= inputs.len(),
        forall|i: int| 0 <= i < inputs.len() ==> (#[trigger] inputs[i]).id.len() == 32,
    ensures
        inputs_bytes(inputs, n).len() == 35 * n,
        parse_inputs(inputs_bytes(inputs, n) + rest, n) == Ok::<
            (Seq<UTXOInputView>, int),
            PackableError,
        >((inputs.subrange(0, n), 35 * n)),
    decreases n,
{
    if n > 0 {
        let last = input_bytes(inputs[n - 1]);
        let bytes = inputs_bytes(inputs, n) + rest;
        lemma_input_round_trip(inputs[n - 1], rest);
        lemma_inputs_round_trip(inputs, n - 1, last + rest);
        assert(bytes =~= inputs_bytes(inputs, n - 1) + (last + rest));
        assert(bytes.skip(35 * (n - 1)) =~= last + rest);
        assert(inputs.subrange(0, n - 1).push(inputs[n - 1]) =~= inputs.subrange(0, n));
    } else {
        assert(inputs.subrange(0, 0) =~= Seq::<UTXOInputView>::empty());
    }
}

proof fn lemma_outputs_round_trip(outputs: Seq<OutputView>, n: int, rest: Seq<u8>)
    requires
        0 <= n <= outputs.len(),
        forall|i: int| 0 <= i < outputs.len() ==> (#[trigger] outputs[i]).address.len() == 32,
    ensures
        outputs_bytes(outputs, n).len() == 42 * n,
        parse_outputs(outputs_bytes(outputs, n) + rest, n) == Ok::<
            (Seq<OutputView>, int),
            PackableError,
        >((outputs.subrange(0, n), 42 * n)),
    decreases n,
{
    if n > 0 {
        let last = output_bytes(outputs[n - 1]);
        let bytes = outputs_bytes(outputs, n) + rest;
        lemma_output_round_trip(outputs[n - 1], rest);
        lemma_outputs_round_trip(outputs, n - 1, last + rest);
        assert(bytes =~= outputs_bytes(outputs, n - 1) + (last + rest));
        assert(bytes.skip(42 * (n - 1)) =~= last + rest);
        assert(outputs.subrange(0, n - 1).push(outputs[n - 1]) =~= outputs.subrange(0, n));
    } else {
        assert(outputs.subrange(0, 0) =~= Seq::<OutputView>::empty());
    }
}

/// A payload part is read back from its own bytes, whatever follows them.
pub proof fn lemma_payload_part_round_trip(payload: Option<PayloadView>, rest: Seq<u8>)
    requires
        match payload {
            Some(p) => payload_fits(p) && payload_bytes(p).len() <= u32::MAX,
            None => true,
        },
    ensures
        parse_payload_part(payload_part(payload) + rest) == Ok::<
            (Option<PayloadView>, int),
            PackableError,
        >((payload, payload_part(payload).len() as int)),
{
    let bytes = payload_part(payload) + rest;
    match payload {
        Some(p) => {
            let len = payload_bytes(p).len();
            lemma_le_round_trip(0, len as u32, 0);
            lemma_payload_round_trip(p, rest);
            assert(bytes.subrange(0, 4) =~= le_bytes_u32(len as u32));
            assert(bytes.skip(4) =~= payload_bytes(p) + rest);
        },
        None => {
            lemma_le_round_trip(0, 0, 0);
            assert(bytes.subrange(0, 4) =~= le_bytes_u32(0));
        },
    }
}

/// An essence that fits is read back from its own bytes, whatever follows them.
#[verifier::rlimit(100)]
pub proof fn lemma_essence_round_trip(essence: EssenceView, rest: Seq<u8>)
    requires
        essence_fits(essence),
    ensures
        parse_essence(essence_bytes(essence) + rest) == Ok::<(EssenceView, int), PackableError>(
            (essence, essence_bytes(essence).len() as int),
        ),
{
    let n = essence.inputs.len() as int;
    let m = essence.outputs.len() as int;
    let part = payload_part(essence.payload);
    let bytes = essence_bytes(essence) + rest;
    let after_outputs = part + rest;
    let after_inputs = le_bytes_u16(m as u16) + outputs_bytes(essence.outputs, m) + after_outputs;
    let a = 35 * n;
    let b = 42 * m;
    lemma_le_round_trip(n as u16, 0, 0);
    lemma_le_round_trip(m as u16, 0, 0);
    lemma_inputs_round_trip(essence.inputs, n, after_inputs);
    lemma_outputs_round_trip(essence.outputs, m, after_outputs);
    lemma_payload_part_round_trip(essence.payload, rest);
    assert(bytes.len() == 5 + a + b + part.len() + rest.len());
    assert(bytes[0] == 0);
    assert(bytes.subrange(1, 3) =~= le_bytes_u16(n as u16));
    assert(bytes.skip(3) =~= inputs_bytes(essence.inputs, n) + after_inputs);
    assert(essence.inputs.subrange(0, n) =~= essence.inputs);
    assert(parse_inputs(bytes.skip(3), n) == Ok::<(Seq<UTXOInputView>, int), PackableError>(
        (essence.inputs, a),
    ));
    assert(bytes.subrange(3 + a, 5 + a) =~= le_bytes_u16(m as u16));
    assert(bytes.skip(5 + a) =~= outputs_bytes(essence.outputs, m) + after_outputs);
    assert(essence.outputs.subrange(0, m) =~= essence.outputs);
    assert(parse_outputs(bytes.skip(5 + a), m) == Ok::<(Seq<OutputView>, int), PackableError>(
        (essence.outputs, b),
    ));
    assert(bytes.skip(5 + a + b) =~= after_outputs);
    assert(parse_payload_part(bytes.skip(5 + a + b)) == Ok::<
        (Option<PayloadView>, int),
        PackableError,
    >((essence.payload, part.len() as int)));
}

impl TransactionEssence {
    /// A builder of an essence.
    pub fn builder() -> (builder: TransactionEssenceBuilder)
        ensures
            builder@ == (EssenceView {
                inputs: Seq::empty(),
                outputs: Seq::empty(),
                payload: None,
            }),
    {
        TransactionEssenceBuilder::new()
    }

    /// The inputs.
    pub fn inputs(&self) -> (inputs: &Vec<Input>)
        ensures
            input_views(inputs@) == self@.inputs,
    {
        &self.inputs
    }

    /// The outputs.
    pub fn outputs(&self) -> (outputs: &Vec<Output>)
        ensures
            output_views(outputs@) == self@.outputs,
    {
        &self.outputs
    }

    /// The payload, if the essence carries one.
    pub fn payload(&self) -> (payload: &Option<Payload>)
        ensures
            payload_view(*payload) == self@.payload,
    {
        &self.payload
    }

    /// Length in bytes of the packed essence, if it is one that `usize` holds.
    pub fn packed_len(&self) -> (len: Option<usize>)
        ensures
            len.is_some() == (essence_bytes(self@).len() <= usize::MAX),
            len matches Some(l) ==> l == essence_bytes(self@).len(),
    {
        let ghost essence = self@;
        let ghost n = essence.inputs.len() as int;
        let ghost m = essence.outputs.len() as int;
        let mut total: usize = 5;
        let mut i: usize = 0;
        while i < self.inputs.len()
            invariant
                i <= self.inputs@.len(),
                essence == self@,
                n == essence.inputs.len(),
                total == 5 + inputs_bytes(essence.inputs, i as int).len(),
            decreases self.inputs@.len() - i,
        {
            let id_len: usize = match &self.inputs[i] {
                Input::UTXO(input) => input.id().0.len(),
            };
            let next: u128 = total as u128 + 3 + id_len as u128;
            if next > usize::MAX as u128 {
                proof {
                    lemma_inputs_bytes_grow(essence.inputs, i + 1, n);
                }
                return None;
            }
            total = next as usize;
            i = i + 1;
        }
        let ghost after_inputs = total;
        let mut i: usize = 0;
        while i < self.outputs.len()
            invariant
                i <= self.outputs@.len(),
                essence == self@,
                n == essence.inputs.len(),
                m == essence.outputs.len(),
                after_inputs == 5 + inputs_bytes(essence.inputs, n).len(),
                total == after_inputs + outputs_bytes(essence.outputs, i as int).len(),
            decreases self.outputs@.len() - i,
        {
            let address_len: usize = match &self.outputs[i] {
                Output::SignatureLockedSingle(output) => output.address.len(),
            };
            let next: u128 = total as u128 + 10 + address_len as u128;
            if next > usize::MAX as u128 {
                proof {
                    lemma_outputs_bytes_grow(essence.outputs, i + 1, m);
                }
                return None;
            }
            total = next as usize;
            i = i + 1;
        }
        let payload_len: usize = match &self.payload {
            Some(payload) => {
                match payload.packed_len() {
                    Some(len) => len,
                    None => {
                        return None;
                    },
                }
            },
            None => 0,
        };
        let all: u128 = total as u128 + 4 + payload_len as u128;
        if all > usize::MAX as u128 {
            None
        } else {
            Some(all as usize)
        }
    }

    /// Appends the bytes of the essence. An essence whose counts or
    /// payload do not fit the fields that announce them is refused, and
    /// nothing is appended.
    pub fn pack(&self, buf: &mut Vec<u8>) -> (res: Result<(), PackableError>)
        ensures
            res.is_ok() == essence_packs(self@),
            res.is_ok() ==> final(buf)@ == old(buf)@ + essence_bytes(self@),
            res matches Err(e) ==> e == PackableError::InvalidAnnouncedLen && final(buf)@ == old(
                buf,
            )@,
    {
        if self.inputs.len() > 0xffff || self.outputs.len() > 0xffff {
            return Err(PackableError::InvalidAnnouncedLen);
        }
        let mut packed_payload: Vec<u8> = Vec::new();
        match &self.payload {
            Some(payload) => {
                match payload.pack(&mut packed_payload) {
                    Ok(()) => {},
                    Err(e) => {
                        return Err(e);
                    },
                }
                assert(packed_payload@ =~= payload_bytes(payload@));
                if packed_payload.len() > 0xffff_ffff {
                    return Err(PackableError::InvalidAnnouncedLen);
                }
            },
            None => {},
        }
        let ghost essence = self@;
        buf.push(0u8);
        push_u16(buf, self.inputs.len() as u16);
        let ghost head = buf@;
        let mut i: usize = 0;
        while i < self.inputs.len()
            invariant
                i <= self.inputs@.len(),
                essence == self@,
                buf@ == head + inputs_bytes(essence.inputs, i as int),
            decreases self.inputs@.len() - i,
        {
            self.inputs[i].pack(buf);
            i = i + 1;
            assert(buf@ =~= head + inputs_bytes(essence.inputs, i as int));
        }
        push_u16(buf, self.outputs.len() as u16);
        let ghost head = buf@;
        let mut i: usize = 0;
        while i < self.outputs.len()
            invariant
                i <= self.outputs@.len(),
                essence == self@,
                buf@ == head + outputs_bytes(essence.outputs, i as int),
            decreases self.outputs@.len() - i,
        {
            self.outputs[i].pack(buf);
            i = i + 1;
            assert(buf@ =~= head + outputs_bytes(essence.outputs, i as int));
        }
        match &self.payload {
            Some(payload) => {
                push_u32(buf, packed_payload.len() as u32);
                append_bytes(buf, &packed_payload);
            },
            None => {
                push_u32(buf, 0);
            },
        }
        assert(buf@ =~= old(buf)@ + essence_bytes(essence));
        Ok(())
    }

    /// Reads an essence at `pos` and moves `pos` behind it.
    pub fn unpack(bytes: &Vec<u8>, pos: &mut usize) -> (res: Result<Self, PackableError>)
        requires
            *old(pos) <= bytes@.len(),
        ensures
            res.is_ok() == parse_essence(bytes@.skip(*old(pos) as int)).is_ok(),
            res matches Ok(essence) ==> (parse_essence(bytes@.skip(*old(pos) as int)) matches Ok(
                parsed,
            ) && essence@ == parsed.0 && *final(pos) == *old(pos) + parsed.1),
            res matches Err(e) ==> (parse_essence(bytes@.skip(*old(pos) as int)) matches Err(pe)
                && pe == e),
            *final(pos) <= bytes@.len(),
    {
        let ghost start = *pos as int;
        let ghost rest = bytes@.skip(start);
        let kind = match take_u8(bytes, pos) {
            Ok(kind) => kind,
            Err(e) => {
                return Err(e);
            },
        };
        assert(rest[0] == kind);
        if kind != 0 {
            return Err(PackableError::InvalidType);
        }
        let inputs_len = match take_u16(bytes, pos) {
            Ok(len) => len as usize,
            Err(e) => {
                return Err(e);
            },
        };
        assert(rest.subrange(1, 3) =~= bytes@.subrange(start + 1, start + 3));
        let ghost list = rest.skip(3);
        let mut inputs: Vec<Input> = Vec::new();
        let mut i: usize = 0;
        assert(input_views(inputs@) =~= Seq::<UTXOInputView>::empty());
        while i < inputs_len
            invariant
                i <= inputs_len,
                0 <= start,
                start == *old(pos),
                start + 3 <= *pos <= bytes@.len(),
                rest == bytes@.skip(start),
                rest.len() >= 3,
                rest[0] == 0,
                le_u16(rest.subrange(1, 3)) == inputs_len,
                list == rest.skip(3),
                parse_inputs(list, i as int) == Ok::<(Seq<UTXOInputView>, int), PackableError>(
                    (input_views(inputs@), *pos - start - 3),
                ),
            decreases inputs_len - i,
        {
            let ghost used = *pos - start - 3;
            assert(list.skip(used) =~= bytes@.skip(*pos as int));
            let ghost held = input_views(inputs@);
            match Input::unpack(bytes, pos) {
                Ok(input) => {
                    inputs.push(input);
                    assert(input_views(inputs@) =~= held.push(input@));
                },
                Err(e) => {
                    proof {
                        lemma_parse_inputs_fails(list, i + 1, inputs_len as int);
                    }
                    return Err(e);
                },
            }
            i = i + 1;
        }
        let ghost a = *pos - start - 3;
        let outputs_len = match take_u16(bytes, pos) {
            Ok(len) => len as usize,
            Err(e) => {
                return Err(e);
            },
        };
        assert(rest.subrange(3 + a, 5 + a) =~= bytes@.subrange(start + 3 + a, start + 5 + a));
        let ghost list = rest.skip(5 + a);
        let mut outputs: Vec<Output> = Vec::new();
        let mut i: usize = 0;
        assert(output_views(outputs@) =~= Seq::<OutputView>::empty());
        while i < outputs_len
            invariant
                i <= outputs_len,
                0 <= start,
                start == *old(pos),
                start + 5 + a <= *pos <= bytes@.len(),
                rest == bytes@.skip(start),
                rest.len() >= 5 + a,
                rest[0] == 0,
                parse_inputs(rest.skip(3), le_u16(rest.subrange(1, 3)) as int) matches Ok(parsed)
                    && parsed.1 == a,
                le_u16(rest.subrange(3 + a, 5 + a)) == outputs_len,
                list == rest.skip(5 + a),
                a >= 0,
                parse_outputs(list, i as int) == Ok::<(Seq<OutputView>, int), PackableError>(
                    (output_views(outputs@), *pos - start - 5 - a),
                ),
            decreases outputs_len - i,
        {
            let ghost used = *pos - start - 5 - a;
            assert(list.skip(used) =~= bytes@.skip(*pos as int));
            let ghost held = output_views(outputs@);
            match Output::unpack(bytes, pos) {
                Ok(output) => {
                    outputs.push(output);
                    assert(output_views(outputs@) =~= held.push(output@));
                },
                Err(e) => {
                    proof {
                        lemma_parse_outputs_fails(list, i + 1, outputs_len as int);
                    }
                    return Err(e);
                },
            }
            i = i + 1;
        }
        let ghost b = *pos - start - 5 - a;
        let ghost tail = rest.skip(5 + a + b);
        assert(tail =~= bytes@.skip(*pos as int));
        let ghost part_start = *pos as int;
        let payload_len = match take_u32(bytes, pos) {
            Ok(len) => len as usize,
            Err(e) => {
                return Err(e);
            },
        };
        assert(tail.subrange(0, 4) =~= bytes@.subrange(part_start, part_start + 4));
        let payload: Option<Payload> = if payload_len > 0 {
            assert(tail.skip(4) =~= bytes@.skip(*pos as int));
            let before: usize = *pos;
            let payload = match Payload::unpack(bytes, pos) {
                Ok(payload) => payload,
                Err(e) => {
                    return Err(e);
                },
            };
            if *pos - before != payload_len {
                return Err(PackableError::InvalidAnnouncedLen);
            }
            Some(payload)
        } else {
            None
        };
        Ok(Self { inputs, outputs, payload })
    }
}

/// More inputs have more bytes.
proof fn lemma_inputs_bytes_grow(inputs: Seq<UTXOInputView>, k: int, n: int)
    requires
        0 <= k <= n,
    ensures
        inputs_bytes(inputs, k).len() <= inputs_bytes(inputs, n).len(),
    decreases n - k,
{
    if k < n {
        lemma_inputs_bytes_grow(inputs, k, n - 1);
    }
}

/// More outputs have more bytes.
proof fn lemma_outputs_bytes_grow(outputs: Seq<OutputView>, k: int, n: int)
    requires
        0 <= k <= n,
    ensures
        outputs_bytes(outputs, k).len() <= outputs_bytes(outputs, n).len(),
    decreases n - k,
{
    if k < n {
        lemma_outputs_bytes_grow(outputs, k, n - 1);
    }
}

/// Where the first `k` inputs cannot be read, more cannot be read either,
/// and for the same reason.
proof fn lemma_parse_inputs_fails(bytes: Seq<u8>, k: int, n: int)
    requires
        0 <= k <= n,
        parse_inputs(bytes, k).is_err(),
    ensures
        parse_inputs(bytes, n) == parse_inputs(bytes, k),
    decreases n - k,
{
    if k < n {
        lemma_parse_inputs_fails(bytes, k, n - 1);
    }
}

/// Where the first `k` outputs cannot be read, more cannot be read either,
/// and for the same reason.
proof fn lemma_parse_outputs_fails(bytes: Seq<u8>, k: int, n: int)
    requires
        0 <= k <= n,
        parse_outputs(bytes, k).is_err(),
    ensures
        parse_outputs(bytes, n) == parse_outputs(bytes, k),
    decreases n - k,
{
    if k < n {
        lemma_parse_outputs_fails(bytes, k, n - 1);
    }
}

/// Collects the parts of an essence.
#[derive(Debug)]
pub struct TransactionEssenceBuilder {
    inputs: Vec<Input>,
    outputs: Vec<Output>,
    payload: Option<Payload>,
}

impl View for TransactionEssenceBuilder {
    type V = EssenceView;

    closed spec fn view(&self) -> EssenceView {
        EssenceView {
            inputs: input_views(self.inputs@),
            outputs: output_views(self.outputs@),
            payload: payload_view(self.payload),
        }
    }
}

impl TransactionEssenceBuilder {
    /// A builder without inputs, outputs or payload.
    pub fn new() -> (builder: Self)
        ensures
            builder@ == (EssenceView {
                inputs: Seq::empty(),
                outputs: Seq::empty(),
                payload: None,
            }),
    {
        let builder = Self { inputs: Vec::new(), outputs: Vec::new(), payload: None };
        assert(builder@.inputs =~= Seq::<UTXOInputView>::empty());
        assert(builder@.outputs =~= Seq::<OutputView>::empty());
        builder
    }

    /// Adds an input at the end.
    pub fn add_input(self, input: Input) -> (builder: Self)
        ensures
            builder@ == (EssenceView { inputs: self@.inputs.push(input@), ..self@ }),
    {
        let mut builder = self;
        builder.inputs.push(input);
        assert(builder@.inputs =~= self@.inputs.push(input@));
        builder
    }

    /// Adds an output at the end.
    pub fn add_output(self, output: Output) -> (builder: Self)
        ensures
            builder@ == (EssenceView { outputs: self@.outputs.push(output@), ..self@ }),
    {
        let mut builder = self;
        builder.outputs.push(output);
        assert(builder@.outputs =~= self@.outputs.push(output@));
        builder
    }

    /// Sets the payload.
    pub fn with_payload(self, payload: Payload) -> (builder: Self)
        ensures
            builder@ == (EssenceView { payload: Some(payload@), ..self@ }),
    {
        let mut builder = self;
        builder.payload = Some(payload);
        builder
    }

    /// The essence, if there is an input and an output.
    pub fn finish(self) -> (res: Result<TransactionEssence, Error>)
        ensures
            res.is_ok() == (self@.inputs.len() > 0 && self@.outputs.len() > 0),
            res matches Ok(essence) ==> essence@ == self@,
            res matches Err(e) ==> e == (if self@.inputs.len() == 0 {
                Error::NoInput
            } else {
                Error::NoOutput
            }),
    {
        if self.inputs.len() == 0 {
            return Err(Error::NoInput);
        }
        if self.outputs.len() == 0 {
            return Err(Error::NoOutput);
        }
        Ok(TransactionEssence { inputs: self.inputs, outputs: self.outputs, payload: self.payload })
    }
}

} // verus!
