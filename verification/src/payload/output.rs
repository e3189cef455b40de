//! Outputs of a value transaction.

use vstd::prelude::*;
use crate::protocol::message::codec::append_bytes;
use crate::payload::packable::{
    le_bytes_u64, le_u64, lemma_le_round_trip, push_u64, take_bytes, take_u64,
    take_u8, PackableError,
};

verus! {

/// An amount locked to an Ed25519 address, which the owner of the
/// address's key can spend.
#[derive(Debug)]
pub struct SignatureLockedSingleOutput {
    /// The address: 32 bytes.
    pub address: Vec<u8>,
    pub amount: u64,
}

/// An output of a value transaction.
#[derive(Debug)]
pub enum Output {
    SignatureLockedSingle(SignatureLockedSingleOutput),
}

/// An output as plain values.
pub struct OutputView {
    pub address: Seq<u8>,
    pub amount: u64,
}

impl View for Output {
    type V = OutputView;

    open spec fn view(&self) -> OutputView {
        match self {
            Output::SignatureLockedSingle(output) => OutputView {
                address: output.address@,
                amount: output.amount,
            },
        }
    }
}

/// The bytes of an output whose address is 32 bytes: the kind of the
/// output, zero; the kind of the address, one; the address; the amount.
pub open spec fn output_bytes(output: OutputView) -> Seq<u8> {
    seq![0u8, 1u8] + output.address + le_bytes_u64(output.amount)
}

/// The output that stands at the start of `bytes`, with its length.
pub open spec fn parse_output(bytes: Seq<u8>) -> Result<(OutputView, int), PackableError> {
    if bytes.len() < 1 {
        Err(PackableError::Io)
    } else if bytes[0] != 0 {
        Err(PackableError::InvalidVariant)
    } else if bytes.len() < 2 {
        Err(PackableError::Io)
    } else if bytes[1] != 1 {
        Err(PackableError::InvalidVariant)
    } else if bytes.len() < 42 {
        Err(PackableError::Io)
    } else {
        Ok((OutputView { address: bytes.subrange(2, 34), amount: le_u64(bytes.subrange(34, 42)) }, 42))
    }
}

/// An output is read back from its own bytes, whatever follows them.
pub proof fn lemma_output_round_trip(output: OutputView, rest: Seq<u8>)
    requires
        output.address.len() == 32,
    ensures
        output_bytes(output).len() == 42,
        parse_output(output_bytes(output) + rest) == Ok::<(OutputView, int), PackableError>(
            (output, 42),
        ),
{
    let bytes = output_bytes(output) + rest;
    lemma_le_round_trip(0, 0, output.amount);
    assert(bytes.subrange(2, 34) =~= output.address);
    assert(bytes.subrange(34, 42) =~= le_bytes_u64(output.amount));
}

impl Output {
    /// Appends the bytes of the output.
    pub fn pack(&self, buf: &mut Vec<u8>)
        ensures
            final(buf)@ == old(buf)@ + output_bytes(self@),
    {
        match self {
            Output::SignatureLockedSingle(output) => {
                buf.push(0u8);
                buf.push(1u8);
                append_bytes(buf, &output.address);
                push_u64(buf, output.amount);
                assert(buf@ =~= old(buf)@ + output_bytes(self@));
            },
        }
    }

    /// Reads an output at `pos` and moves `pos` behind it.
    pub fn unpack(bytes: &Vec<u8>, pos: &mut usize) -> (res: Result<Self, PackableError>)
        requires
            *old(pos) <= bytes@.len(),
        ensures
            res.is_ok() == parse_output(bytes@.skip(*old(pos) as int)).is_ok(),
            res matches Ok(output) ==> output@ == parse_output(
                bytes@.skip(*old(pos) as int),
            ).unwrap().0 && *final(pos) == *old(pos) + 42,
            res matches Err(e) ==> (parse_output(bytes@.skip(*old(pos) as int)) matches Err(pe) && pe == e),
            *final(pos) <= bytes@.len(),
    {
        let ghost start = *pos as int;
        let ghost rest = bytes@.skip(start);
        let kind = match take_u8(bytes, pos) {
            Ok(kind) => kind,
            Err(e) => {
                return Err(e);
            },
        };
        assert(rest[0] == kind);
        if kind != 0 {
            return Err(PackableError::InvalidVariant);
        }
        let address_kind = match take_u8(bytes, pos) {
            Ok(kind) => kind,
            Err(e) => {
                return Err(e);
            },
        };
        assert(rest[1] == address_kind);
        if address_kind != 1 {
            return Err(PackableError::InvalidVariant);
        }
        let address = match take_bytes(bytes, pos, 32) {
            Ok(address) => address,
            Err(e) => {
                return Err(e);
            },
        };
        let amount = match take_u64(bytes, pos) {
            Ok(amount) => amount,
            Err(e) => {
                return Err(e);
            },
        };
        proof {
            assert(rest.subrange(2, 34) =~= bytes@.subrange(start + 2, start + 34));
            assert(rest.subrange(34, 42) =~= bytes@.subrange(start + 34, start + 42));
        }
        Ok(Output::SignatureLockedSingle(SignatureLockedSingleOutput { address, amount }))
    }
}

} // verus!
