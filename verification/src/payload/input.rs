//! Inputs of a value transaction: outputs of earlier transactions.

use vstd::prelude::*;
use crate::protocol::message::codec::append_bytes;
use vstd::string::*;
use crate::payload::error::Error;
use crate::payload::packable::{
    le_bytes_u16, le_u16, lemma_le_round_trip, push_u16, take_bytes, take_u16,
    take_u8, PackableError,
};

verus! {

/// An input or output may stand in places 0 to 126.
pub const INPUT_OUTPUT_COUNT_MAX: u16 = 127;

/// Length in bytes of a transaction id.
pub const TRANSACTION_ID_LENGTH: usize = 32;

/// The identifier of a transaction: 32 bytes.
#[derive(Debug)]
pub struct TransactionId(pub Vec<u8>);

impl View for TransactionId {
    type V = Seq<u8>;

    open spec fn view(&self) -> Seq<u8> {
        self.0@
    }
}

/// The hexadecimal digit of a number below sixteen.
pub open spec fn hex_digit(n: int) -> char {
    if n == 0 {
        '0'
    } else if n == 1 {
        '1'
    } else if n == 2 {
        '2'
    } else if n == 3 {
        '3'
    } else if n == 4 {
        '4'
    } else if n == 5 {
        '5'
    } else if n == 6 {
        '6'
    } else if n == 7 {
        '7'
    } else if n == 8 {
        '8'
    } else if n == 9 {
        '9'
    } else if n == 10 {
        'a'
    } else if n == 11 {
        'b'
    } else if n == 12 {
        'c'
    } else if n == 13 {
        'd'
    } else if n == 14 {
        'e'
    } else {
        'f'
    }
}

/// Bytes in hexadecimal: two lower-case digits for each byte, the high one first.
pub open spec fn hex(bytes: Seq<u8>) -> Seq<char> {
    Seq::new(
        2 * bytes.len(),
        |i: int|
            if i % 2 == 0 {
                hex_digit(bytes[i / 2] as int / 16)
            } else {
                hex_digit(bytes[i / 2] as int % 16)
            },
    )
}

/// Bytes in hexadecimal, as `hex::encode` writes them: two lower-case
/// digits for each byte, the high one first.
#[verifier::external_body]
pub(crate) fn hex_encode(bytes: &Vec<u8>) -> (text: String)
    ensures
        text@ == hex(bytes@),
{
    hex::encode(bytes)
}

/// An output of an earlier transaction, by the id of the transaction and
/// the place of the output in it.
#[derive(Debug)]
pub struct UTXOInput {
    id: TransactionId,
    index: u16,
}

/// An input as plain values.
pub struct UTXOInputView {
    pub id: Seq<u8>,
    pub index: u16,
}

impl View for UTXOInput {
    type V = UTXOInputView;

    closed spec fn view(&self) -> UTXOInputView {
        UTXOInputView { id: self.id@, index: self.index }
    }
}

/// The bytes of an input whose id is 32 bytes: the id, then the index.
pub open spec fn utxo_bytes(input: UTXOInputView) -> Seq<u8> {
    input.id + le_bytes_u16(input.index)
}

/// The input that stands at the start of `bytes`, with its length.
pub open spec fn parse_utxo(bytes: Seq<u8>) -> Result<(UTXOInputView, int), PackableError> {
    if bytes.len() < 34 {
        Err(PackableError::Io)
    } else {
        Ok((UTXOInputView { id: bytes.subrange(0, 32), index: le_u16(bytes.subrange(32, 34)) }, 34))
    }
}

/// An input is read back from its own bytes, whatever follows them.
pub proof fn lemma_utxo_round_trip(input: UTXOInputView, rest: Seq<u8>)
    requires
        input.id.len() == 32,
    ensures
        parse_utxo(utxo_bytes(input) + rest) == Ok::<(UTXOInputView, int), PackableError>(
            (input, 34),
        ),
{
    let bytes = utxo_bytes(input) + rest;
    lemma_le_round_trip(input.index, 0, 0);
    assert(bytes.subrange(0, 32) =~= input.id);
    assert(bytes.subrange(32, 34) =~= le_bytes_u16(input.index));
}

impl UTXOInput {
    /// The input at place `index` of the transaction `id`. Places from
    /// 127 on are refused.
    pub fn new(id: TransactionId, index: u16) -> (res: Result<Self, Error>)
        ensures
            res.is_ok() == (index < INPUT_OUTPUT_COUNT_MAX),
            res matches Ok(input) ==> input@ == (UTXOInputView { id: id@, index }),
            res matches Err(e) ==> e == Error::InvalidIndex,
    {
        if index >= INPUT_OUTPUT_COUNT_MAX {
            return Err(Error::InvalidIndex);
        }
        Ok(Self { id, index })
    }

    /// The id of the transaction.
    pub fn id(&self) -> (id: &TransactionId)
        ensures
            id@ == self@.id,
    {
        &self.id
    }

    /// The place of the output.
    pub fn index(&self) -> (index: u16)
        ensures
            index == self@.index,
    {
        self.index
    }

    /// The input for a reader: the id in hexadecimal, then the two bytes
    /// of the index in hexadecimal, the low byte first.
    pub fn to_string(&self) -> (text: String)
        ensures
            text@ == hex(self@.id) + hex(le_bytes_u16(self@.index)),
    {
        let mut text = hex_encode(&self.id.0);
        let mut index_bytes: Vec<u8> = Vec::new();
        push_u16(&mut index_bytes, self.index);
        assert(index_bytes@ =~= le_bytes_u16(self.index));
        let tail = hex_encode(&index_bytes);
        text.append(tail.as_str());
        text
    }

    /// Length in bytes of the packed input.
    pub fn packed_len(&self) -> (len: usize)
        requires
            self@.id.len() <= usize::MAX - 2,
        ensures
            len == utxo_bytes(self@).len(),
    {
        self.id.0.len() + 2
    }

    /// Appends the bytes of the input.
    pub fn pack(&self, buf: &mut Vec<u8>)
        ensures
            final(buf)@ == old(buf)@ + utxo_bytes(self@),
    {
        append_bytes(buf, &self.id.0);
        push_u16(buf, self.index);
        assert(buf@ =~= old(buf)@ + utxo_bytes(self@));
    }

    /// Reads an input at `pos` and moves `pos` behind it.
    pub fn unpack(bytes: &Vec<u8>, pos: &mut usize) -> (res: Result<Self, PackableError>)
        requires
            *old(pos) <= bytes@.len(),
        ensures
            res.is_ok() == parse_utxo(bytes@.skip(*old(pos) as int)).is_ok(),
            res matches Ok(input) ==> input@ == parse_utxo(bytes@.skip(*old(pos) as int)).unwrap().0
                && *final(pos) == *old(pos) + 34,
            res matches Err(e) ==> (parse_utxo(bytes@.skip(*old(pos) as int)) matches Err(pe) && pe == e),
            *final(pos) <= bytes@.len(),
    {
        let ghost start = *pos as int;
        let ghost rest = bytes@.skip(start);
        let id = match take_bytes(bytes, pos, 32) {
            Ok(id) => id,
            Err(e) => {
                return Err(e);
            },
        };
        let index = match take_u16(bytes, pos) {
            Ok(index) => index,
            Err(e) => {
                return Err(e);
            },
        };
        proof {
            assert(rest.subrange(0, 32) =~= bytes@.subrange(start, start + 32));
            assert(rest.subrange(32, 34) =~= bytes@.subrange(start + 32, start + 34));
        }
        Ok(Self { id: TransactionId(id), index })
    }
}

/// An input of a value transaction.
#[derive(Debug)]
pub enum Input {
    UTXO(UTXOInput),
}

impl View for Input {
    type V = UTXOInputView;

    open spec fn view(&self) -> UTXOInputView {
        match self {
            Input::UTXO(input) => input@,
        }
    }
}

/// The bytes of an input: the kind, zero, then the input.
pub open spec fn input_bytes(input: UTXOInputView) -> Seq<u8> {
    seq![0u8] + utxo_bytes(input)
}

/// The input that stands at the start of `bytes`, with its length.
pub open spec fn parse_input(bytes: Seq<u8>) -> Result<(UTXOInputView, int), PackableError> {
    if bytes.len() < 1 {
        Err(PackableError::Io)
    } else if bytes[0] != 0 {
        Err(PackableError::InvalidVariant)
    } else {
        match parse_utxo(bytes.skip(1)) {
            Ok((input, len)) => Ok((input, len + 1)),
            Err(e) => Err(e),
        }
    }
}

/// An input is read back from its own bytes, whatever follows them.
pub proof fn lemma_input_round_trip(input: UTXOInputView, rest: Seq<u8>)
    requires
        input.id.len() == 32,
    ensures
        input_bytes(input).len() == 35,
        parse_input(input_bytes(input) + rest) == Ok::<(UTXOInputView, int), PackableError>(
            (input, 35),
        ),
{
    let bytes = input_bytes(input) + rest;
    lemma_utxo_round_trip(input, rest);
    assert(bytes.skip(1) =~= utxo_bytes(input) + rest);
}

impl Input {
    /// Appends the bytes of the input.
    pub fn pack(&self, buf: &mut Vec<u8>)
        ensures
            final(buf)@ == old(buf)@ + input_bytes(self@),
    {
        match self {
            Input::UTXO(input) => {
                buf.push(0u8);
                input.pack(buf);
                assert(buf@ =~= old(buf)@ + input_bytes(self@));
            },
        }
    }

    /// Reads an input at `pos` and moves `pos` behind it.
    pub fn unpack(bytes: &Vec<u8>, pos: &mut usize) -> (res: Result<Self, PackableError>)
        requires
            *old(pos) <= bytes@.len(),
        ensures
            res.is_ok() == parse_input(bytes@.skip(*old(pos) as int)).is_ok(),
            res matches Ok(input) ==> input@ == parse_input(
                bytes@.skip(*old(pos) as int),
            ).unwrap().0 && *final(pos) == *old(pos) + 35,
            res matches Err(e) ==> (parse_input(bytes@.skip(*old(pos) as int)) matches Err(pe) && pe == e),
            *final(pos) <= bytes@.len(),
    {
        let ghost start = *pos as int;
        let kind = match take_u8(bytes, pos) {
            Ok(kind) => kind,
            Err(e) => {
                return Err(e);
            },
        };
        assert(bytes@.skip(start)[0] == kind);
        if kind != 0 {
            return Err(PackableError::InvalidVariant);
        }
        assert(bytes@.skip(start).skip(1) =~= bytes@.skip(start + 1));
        match UTXOInput::unpack(bytes, pos) {
            Ok(input) => Ok(Input::UTXO(input)),
            Err(e) => Err(e),
        }
    }
}

} // verus!
