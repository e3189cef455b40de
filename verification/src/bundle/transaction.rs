//! The fields of a transaction, the transaction itself and its builder.

use vstd::prelude::*;
use crate::bundle::constants::{
    ADDRESS_TRIT_LEN, HASH_TRIT_LEN, NONCE_TRIT_LEN, PAYLOAD_TRIT_LEN, TAG_TRIT_LEN,
};
use crate::ternary::trits::{balanced_trits, int_trits, zero_trits, zeros};

verus! {

/// A copy of `trits`.
pub fn copy_trits(trits: &Vec<i8>) -> (copy: Vec<i8>)
    ensures
        copy@ == trits@,
{
    let mut copy: Vec<i8> = Vec::new();
    let mut i: usize = 0;
    while i < trits.len()
        invariant
            i <= trits.len(),
            copy@ == trits@.subrange(0, i as int),
        decreases trits.len() - i,
    {
        copy.push(trits[i]);
        i = i + 1;
        assert(copy@ =~= trits@.subrange(0, i as int));
    }
    assert(trits@.subrange(0, trits.len() as int) =~= trits@);
    copy
}

/// The signature or message fragment of a transaction. 6561 trits when well formed.
#[derive(Debug)]
pub struct Payload(pub Vec<i8>);

impl View for Payload {
    type V = Seq<i8>;

    open spec fn view(&self) -> Seq<i8> {
        self.0@
    }
}

impl Payload {
    /// All zero.
    pub fn zeros() -> (field: Self)
        ensures
            field@ == zero_trits(6561),
    {
        Self(zeros(PAYLOAD_TRIT_LEN))
    }

    /// Wraps trits without looking at them.
    pub fn from_inner_unchecked(trits: Vec<i8>) -> (field: Self)
        ensures
            field@ == trits@,
    {
        Self(trits)
    }

    /// The trits.
    pub fn to_inner(&self) -> (trits: &Vec<i8>)
        ensures
            trits@ == self@,
    {
        &self.0
    }

    /// Length in trits of a well-formed field.
    pub fn trit_len() -> (len: usize)
        ensures
            len == 6561,
    {
        PAYLOAD_TRIT_LEN
    }

    /// A copy of this field.
    pub fn duplicate(&self) -> (copy: Self)
        ensures
            copy@ == self@,
    {
        Self(copy_trits(&self.0))
    }
}

/// The address that a transaction moves value to or from. 243 trits when well formed.
#[derive(Debug)]
pub struct Address(pub Vec<i8>);

impl View for Address {
    type V = Seq<i8>;

    open spec fn view(&self) -> Seq<i8> {
        self.0@
    }
}

impl Address {
    /// All zero.
    pub fn zeros() -> (field: Self)
        ensures
            field@ == zero_trits(243),
    {
        Self(zeros(ADDRESS_TRIT_LEN))
    }

    /// Wraps trits without looking at them.
    pub fn from_inner_unchecked(trits: Vec<i8>) -> (field: Self)
        ensures
            field@ == trits@,
    {
        Self(trits)
    }

    /// The trits.
    pub fn to_inner(&self) -> (trits: &Vec<i8>)
        ensures
            trits@ == self@,
    {
        &self.0
    }

    /// Length in trits of a well-formed field.
    pub fn trit_len() -> (len: usize)
        ensures
            len == 243,
    {
        ADDRESS_TRIT_LEN
    }

    /// A copy of this field.
    pub fn duplicate(&self) -> (copy: Self)
        ensures
            copy@ == self@,
    {
        Self(copy_trits(&self.0))
    }
}

/// A tag, also used for the obsolete tag. 81 trits when well formed.
#[derive(Debug)]
pub struct Tag(pub Vec<i8>);

impl View for Tag {
    type V = Seq<i8>;

    open spec fn view(&self) -> Seq<i8> {
        self.0@
    }
}

impl Tag {
    /// All zero.
    pub fn zeros() -> (field: Self)
        ensures
            field@ == zero_trits(81),
    {
        Self(zeros(TAG_TRIT_LEN))
    }

    /// Wraps trits without looking at them.
    pub fn from_inner_unchecked(trits: Vec<i8>) -> (field: Self)
        ensures
            field@ == trits@,
    {
        Self(trits)
    }

    /// The trits.
    pub fn to_inner(&self) -> (trits: &Vec<i8>)
        ensures
            trits@ == self@,
    {
        &self.0
    }

    /// Length in trits of a well-formed field.
    pub fn trit_len() -> (len: usize)
        ensures
            len == 81,
    {
        TAG_TRIT_LEN
    }

    /// A copy of this field.
    pub fn duplicate(&self) -> (copy: Self)
        ensures
            copy@ == self@,
    {
        Self(copy_trits(&self.0))
    }
}

/// A hash: of a transaction, or of a bundle. 243 trits when well formed.
#[derive(Debug)]
pub struct Hash(pub Vec<i8>);

impl View for Hash {
    type V = Seq<i8>;

    open spec fn view(&self) -> Seq<i8> {
        self.0@
    }
}

impl Hash {
    /// All zero.
    pub fn zeros() -> (field: Self)
        ensures
            field@ == zero_trits(243),
    {
        Self(zeros(HASH_TRIT_LEN))
    }

    /// Wraps trits without looking at them.
    pub fn from_inner_unchecked(trits: Vec<i8>) -> (field: Self)
        ensures
            field@ == trits@,
    {
        Self(trits)
    }

    /// The trits.
    pub fn to_inner(&self) -> (trits: &Vec<i8>)
        ensures
            trits@ == self@,
    {
        &self.0
    }

    /// Length in trits of a well-formed field.
    pub fn trit_len() -> (len: usize)
        ensures
            len == 243,
    {
        HASH_TRIT_LEN
    }

    /// A copy of this field.
    pub fn duplicate(&self) -> (copy: Self)
        ensures
            copy@ == self@,
    {
        Self(copy_trits(&self.0))
    }
}

/// The proof-of-work nonce. 81 trits when well formed.
#[derive(Debug)]
pub struct Nonce(pub Vec<i8>);

impl View for Nonce {
    type V = Seq<i8>;

    open spec fn view(&self) -> Seq<i8> {
        self.0@
    }
}

impl Nonce {
    /// All zero.
    pub fn zeros() -> (field: Self)
        ensures
            field@ == zero_trits(81),
    {
        Self(zeros(NONCE_TRIT_LEN))
    }

    /// Wraps trits without looking at them.
    pub fn from_inner_unchecked(trits: Vec<i8>) -> (field: Self)
        ensures
            field@ == trits@,
    {
        Self(trits)
    }

    /// The trits.
    pub fn to_inner(&self) -> (trits: &Vec<i8>)
        ensures
            trits@ == self@,
    {
        &self.0
    }

    /// Length in trits of a well-formed field.
    pub fn trit_len() -> (len: usize)
        ensures
            len == 81,
    {
        NONCE_TRIT_LEN
    }

    /// A copy of this field.
    pub fn duplicate(&self) -> (copy: Self)
        ensures
            copy@ == self@,
    {
        Self(copy_trits(&self.0))
    }
}

/// The value that a transaction moves: positive for an output, negative for an input.
#[derive(Clone, Copy, Debug, PartialEq, Eq, Structural)]
pub struct Value(pub i64);

impl Value {
    pub fn from_inner_unchecked(value: i64) -> (field: Self)
        ensures
            field.0 == value,
    {
        Self(value)
    }

    pub fn to_inner(&self) -> (value: &i64)
        ensures
            *value == self.0,
    {
        &self.0
    }
}

/// A timestamp.
#[derive(Clone, Copy, Debug, PartialEq, Eq, Structural)]
pub struct Timestamp(pub u64);

impl Timestamp {
    pub fn from_inner_unchecked(value: u64) -> (field: Self)
        ensures
            field.0 == value,
    {
        Self(value)
    }

    pub fn to_inner(&self) -> (value: &u64)
        ensures
            *value == self.0,
    {
        &self.0
    }
}

/// The place of a transaction in its bundle.
#[derive(Clone, Copy, Debug, PartialEq, Eq, Structural)]
pub struct Index(pub usize);

impl Index {
    pub fn from_inner_unchecked(value: usize) -> (field: Self)
        ensures
            field.0 == value,
    {
        Self(value)
    }

    pub fn to_inner(&self) -> (value: &usize)
        ensures
            *value == self.0,
    {
        &self.0
    }
}

/// Why a transaction could not be built.
#[derive(Debug)]
pub enum TransactionError {
    /// A field was never set.
    MissingField(&'static str),
    /// A transaction that moves value has an address whose last trit is not zero.
    InvalidAddress,
    /// The trits are not as many as a transaction has.
    InvalidLength,
    /// The trits of a number spell none that the field can hold.
    InvalidNumericField(&'static str),
}

/// A transaction with every field set.
#[derive(Debug)]
pub struct Transaction {
    pub payload: Payload,
    pub address: Address,
    pub value: Value,
    pub obsolete_tag: Tag,
    pub timestamp: Timestamp,
    pub index: Index,
    pub last_index: Index,
    pub bundle: Hash,
    pub trunk: Hash,
    pub branch: Hash,
    pub tag: Tag,
    pub attachment_ts: Timestamp,
    pub attachment_lbts: Timestamp,
    pub attachment_ubts: Timestamp,
    pub nonce: Nonce,
}

/// A transaction under construction: each field is set or not.
#[derive(Debug)]
pub struct TransactionBuilder {
    pub payload: Option<Payload>,
    pub address: Option<Address>,
    pub value: Option<Value>,
    pub obsolete_tag: Option<Tag>,
    pub timestamp: Option<Timestamp>,
    pub index: Option<Index>,
    pub last_index: Option<Index>,
    pub bundle: Option<Hash>,
    pub trunk: Option<Hash>,
    pub branch: Option<Hash>,
    pub tag: Option<Tag>,
    pub attachment_ts: Option<Timestamp>,
    pub attachment_lbts: Option<Timestamp>,
    pub attachment_ubts: Option<Timestamp>,
    pub nonce: Option<Nonce>,
}

/// What a builder holds, field by field: trits as sequences, numbers as they are.
pub struct TransactionBuilderView {
    pub payload: Option<Seq<i8>>,
    pub address: Option<Seq<i8>>,
    pub value: Option<i64>,
    pub obsolete_tag: Option<Seq<i8>>,
    pub timestamp: Option<u64>,
    pub index: Option<usize>,
    pub last_index: Option<usize>,
    pub bundle: Option<Seq<i8>>,
    pub trunk: Option<Seq<i8>>,
    pub branch: Option<Seq<i8>>,
    pub tag: Option<Seq<i8>>,
    pub attachment_ts: Option<u64>,
    pub attachment_lbts: Option<u64>,
    pub attachment_ubts: Option<u64>,
    pub nonce: Option<Seq<i8>>,
}

/// The trits of a field that may be unset.
pub open spec fn opt_trits<T: View<V = Seq<i8>>>(field: Option<T>) -> Option<Seq<i8>> {
    match field {
        Some(f) => Some(f@),
        None => None,
    }
}

/// The value, if set.
pub open spec fn opt_value(field: Option<Value>) -> Option<i64> {
    match field {
        Some(f) => Some(f.0),
        None => None,
    }
}

/// The timestamp, if set.
pub open spec fn opt_timestamp(field: Option<Timestamp>) -> Option<u64> {
    match field {
        Some(f) => Some(f.0),
        None => None,
    }
}

/// The index, if set.
pub open spec fn opt_index(field: Option<Index>) -> Option<usize> {
    match field {
        Some(f) => Some(f.0),
        None => None,
    }
}

impl View for TransactionBuilder {
    type V = TransactionBuilderView;

    open spec fn view(&self) -> TransactionBuilderView {
        TransactionBuilderView {
            payload: opt_trits(self.payload),
            address: opt_trits(self.address),
            value: opt_value(self.value),
            obsolete_tag: opt_trits(self.obsolete_tag),
            timestamp: opt_timestamp(self.timestamp),
            index: opt_index(self.index),
            last_index: opt_index(self.last_index),
            bundle: opt_trits(self.bundle),
            trunk: opt_trits(self.trunk),
            branch: opt_trits(self.branch),
            tag: opt_trits(self.tag),
            attachment_ts: opt_timestamp(self.attachment_ts),
            attachment_lbts: opt_timestamp(self.attachment_lbts),
            attachment_ubts: opt_timestamp(self.attachment_ubts),
            nonce: opt_trits(self.nonce),
        }
    }
}

/// The views of builders, in order.
pub open spec fn builder_views(builders: Seq<TransactionBuilder>) -> Seq<TransactionBuilderView> {
    Seq::new(builders.len(), |i: int| builders[i]@)
}

impl TransactionBuilderView {
    /// Whether every field that the essence reads is set.
    pub open spec fn has_essence(&self) -> bool {
        &&& self.address.is_some()
        &&& self.value.is_some()
        &&& self.obsolete_tag.is_some()
        &&& self.timestamp.is_some()
        &&& self.index.is_some()
        &&& self.last_index.is_some()
    }

    /// The first reason, if any, for which this builder cannot be built: the
    /// value or the address is missing; the transaction moves value and its
    /// address is not 243 trits ending in zero; or one of the other fields
    /// is missing, looked for in the order of their declaration.
    pub open spec fn build_error(&self) -> Option<TransactionError> {
        if self.value.is_none() {
            Some(TransactionError::MissingField("value"))
        } else if self.address.is_none() {
            Some(TransactionError::MissingField("address"))
        } else if self.value.unwrap() != 0 && !(self.address.unwrap().len() >= 243
            && self.address.unwrap()[242] == 0) {
            Some(TransactionError::InvalidAddress)
        } else if self.payload.is_none() {
            Some(TransactionError::MissingField("payload"))
        } else if self.obsolete_tag.is_none() {
            Some(TransactionError::MissingField("obsolete_tag"))
        } else if self.timestamp.is_none() {
            Some(TransactionError::MissingField("timestamp"))
        } else if self.index.is_none() {
            Some(TransactionError::MissingField("index"))
        } else if self.last_index.is_none() {
            Some(TransactionError::MissingField("last_index"))
        } else if self.bundle.is_none() {
            Some(TransactionError::MissingField("bundle"))
        } else if self.trunk.is_none() {
            Some(TransactionError::MissingField("trunk"))
        } else if self.branch.is_none() {
            Some(TransactionError::MissingField("branch"))
        } else if self.tag.is_none() {
            Some(TransactionError::MissingField("tag"))
        } else if self.attachment_ts.is_none() {
            Some(TransactionError::MissingField("attachment_ts"))
        } else if self.attachment_lbts.is_none() {
            Some(TransactionError::MissingField("attachment_lbts"))
        } else if self.attachment_ubts.is_none() {
            Some(TransactionError::MissingField("attachment_ubts"))
        } else if self.nonce.is_none() {
            Some(TransactionError::MissingField("nonce"))
        } else {
            None
        }
    }

    /// The essence, where every field that it reads is set.
    pub open spec fn essence(&self) -> Seq<i8> {
        essence_trits(
            self.address.unwrap(),
            self.value.unwrap(),
            self.obsolete_tag.unwrap(),
            self.timestamp.unwrap(),
            self.index.unwrap(),
            self.last_index.unwrap(),
        )
    }
}

/// `trits` cut or padded with zeros to `width` places.
pub open spec fn window(trits: Seq<i8>, width: nat) -> Seq<i8> {
    Seq::new(
        width,
        |i: int|
            if i < trits.len() {
                trits[i]
            } else {
                0i8
            },
    )
}

/// An unsigned 64-bit number read as a signed one of the same bits.
pub open spec fn as_signed(value: u64) -> int {
    if value <= i64::MAX {
        value as int
    } else {
        value - 0x1_0000_0000_0000_0000
    }
}

/// The part of a transaction that the bundle hash covers, 486 trits: the
/// address, then the value, the obsolete tag, the timestamp, the index and
/// the last index, each in a window of its own width. A number is spelled in
/// balanced trits; one too wide for its window keeps its low trits.
pub open spec fn essence_trits(
    address: Seq<i8>,
    value: i64,
    obsolete_tag: Seq<i8>,
    timestamp: u64,
    index: usize,
    last_index: usize,
) -> Seq<i8> {
    window(address, 243) + window(balanced_trits(value as int), 81) + window(obsolete_tag, 81)
        + window(balanced_trits(as_signed(timestamp)), 27) + window(
        balanced_trits(as_signed(index as u64)),
        27,
    ) + window(balanced_trits(as_signed(last_index as u64)), 27)
}

/// Appends to `out` the window of `trits` that is `width` wide.
pub fn push_window(out: &mut Vec<i8>, trits: &Vec<i8>, width: usize)
    ensures
        final(out)@ == old(out)@ + window(trits@, width as nat),
{
    let mut i: usize = 0;
    while i < width
        invariant
            i <= width,
            out@ == old(out)@ + window(trits@, width as nat).subrange(0, i as int),
        decreases width - i,
    {
        let t: i8 = if i < trits.len() {
            trits[i]
        } else {
            0
        };
        out.push(t);
        i = i + 1;
        assert(out@ =~= old(out)@ + window(trits@, width as nat).subrange(0, i as int));
    }
    assert(window(trits@, width as nat).subrange(0, width as int) =~= window(
        trits@,
        width as nat,
    ));
}

/// The signed number with the bits of `value`.
pub fn to_signed(value: u64) -> (signed: i64)
    ensures
        signed == as_signed(value),
{
    if value <= 0x7fff_ffff_ffff_ffff {
        value as i64
    } else {
        let low: u64 = value - 0x8000_0000_0000_0000;
        (low as i64) + (-0x7fff_ffff_ffff_ffff - 1)
    }
}

impl TransactionBuilder {
    /// A builder with no field set.
    pub fn new() -> (builder: Self)
        ensures
            builder.payload.is_none(),
            builder.address.is_none(),
            builder.value.is_none(),
            builder.obsolete_tag.is_none(),
            builder.timestamp.is_none(),
            builder.index.is_none(),
            builder.last_index.is_none(),
            builder.bundle.is_none(),
            builder.trunk.is_none(),
            builder.branch.is_none(),
            builder.tag.is_none(),
            builder.attachment_ts.is_none(),
            builder.attachment_lbts.is_none(),
            builder.attachment_ubts.is_none(),
            builder.nonce.is_none(),
    {
        Self {
            payload: None,
            address: None,
            value: None,
            obsolete_tag: None,
            timestamp: None,
            index: None,
            last_index: None,
            bundle: None,
            trunk: None,
            branch: None,
            tag: None,
            attachment_ts: None,
            attachment_lbts: None,
            attachment_ubts: None,
            nonce: None,
        }
    }

    pub fn with_payload(self, payload: Payload) -> (builder: Self)
        ensures
            builder == (TransactionBuilder { payload: Some(payload), ..self }),
    {
        let mut builder = self;
        builder.payload = Some(payload);
        builder
    }

    pub fn with_address(self, address: Address) -> (builder: Self)
        ensures
            builder == (TransactionBuilder { address: Some(address), ..self }),
    {
        let mut builder = self;
        builder.address = Some(address);
        builder
    }

    pub fn with_value(self, value: Value) -> (builder: Self)
        ensures
            builder == (TransactionBuilder { value: Some(value), ..self }),
    {
        let mut builder = self;
        builder.value = Some(value);
        builder
    }

    pub fn with_obsolete_tag(self, obsolete_tag: Tag) -> (builder: Self)
        ensures
            builder == (TransactionBuilder { obsolete_tag: Some(obsolete_tag), ..self }),
    {
        let mut builder = self;
        builder.obsolete_tag = Some(obsolete_tag);
        builder
    }

    pub fn with_timestamp(self, timestamp: Timestamp) -> (builder: Self)
        ensures
            builder == (TransactionBuilder { timestamp: Some(timestamp), ..self }),
    {
        let mut builder = self;
        builder.timestamp = Some(timestamp);
        builder
    }

    pub fn with_index(self, index: Index) -> (builder: Self)
        ensures
            builder == (TransactionBuilder { index: Some(index), ..self }),
    {
        let mut builder = self;
        builder.index = Some(index);
        builder
    }

    pub fn with_last_index(self, last_index: Index) -> (builder: Self)
        ensures
            builder == (TransactionBuilder { last_index: Some(last_index), ..self }),
    {
        let mut builder = self;
        builder.last_index = Some(last_index);
        builder
    }

    pub fn with_tag(self, tag: Tag) -> (builder: Self)
        ensures
            builder == (TransactionBuilder { tag: Some(tag), ..self }),
    {
        let mut builder = self;
        builder.tag = Some(tag);
        builder
    }

    pub fn with_attachment_ts(self, attachment_ts: Timestamp) -> (builder: Self)
        ensures
            builder == (TransactionBuilder { attachment_ts: Some(attachment_ts), ..self }),
    {
        let mut builder = self;
        builder.attachment_ts = Some(attachment_ts);
        builder
    }

    pub fn with_bundle(self, bundle: Hash) -> (builder: Self)
        ensures
            builder == (TransactionBuilder { bundle: Some(bundle), ..self }),
    {
        let mut builder = self;
        builder.bundle = Some(bundle);
        builder
    }

    pub fn with_trunk(self, trunk: Hash) -> (builder: Self)
        ensures
            builder == (TransactionBuilder { trunk: Some(trunk), ..self }),
    {
        let mut builder = self;
        builder.trunk = Some(trunk);
        builder
    }

    pub fn with_branch(self, branch: Hash) -> (builder: Self)
        ensures
            builder == (TransactionBuilder { branch: Some(branch), ..self }),
    {
        let mut builder = self;
        builder.branch = Some(branch);
        builder
    }

    pub fn with_attachment_lbts(self, attachment_lbts: Timestamp) -> (builder: Self)
        ensures
            builder == (TransactionBuilder { attachment_lbts: Some(attachment_lbts), ..self }),
    {
        let mut builder = self;
        builder.attachment_lbts = Some(attachment_lbts);
        builder
    }

    pub fn with_attachment_ubts(self, attachment_ubts: Timestamp) -> (builder: Self)
        ensures
            builder == (TransactionBuilder { attachment_ubts: Some(attachment_ubts), ..self }),
    {
        let mut builder = self;
        builder.attachment_ubts = Some(attachment_ubts);
        builder
    }

    pub fn with_nonce(self, nonce: Nonce) -> (builder: Self)
        ensures
            builder == (TransactionBuilder { nonce: Some(nonce), ..self }),
    {
        let mut builder = self;
        builder.nonce = Some(nonce);
        builder
    }

    /// The essence of this transaction.
    pub fn essence(&self) -> (essence: Vec<i8>)
        requires
            self@.has_essence(),
        ensures
            essence@ == self@.essence(),
            essence.len() == 486,
    {
        let mut out: Vec<i8> = Vec::new();
        match (
            &self.address,
            &self.value,
            &self.obsolete_tag,
            &self.timestamp,
            &self.index,
            &self.last_index,
        ) {
            (
                Some(address),
                Some(value),
                Some(obsolete_tag),
                Some(timestamp),
                Some(index),
                Some(last_index),
            ) => {
                push_window(&mut out, &address.0, 243);
                let value_trits = int_trits(value.0);
                push_window(&mut out, &value_trits, 81);
                push_window(&mut out, &obsolete_tag.0, 81);
                let timestamp_trits = int_trits(to_signed(timestamp.0));
                push_window(&mut out, &timestamp_trits, 27);
                let index_trits = int_trits(to_signed(index.0 as u64));
                push_window(&mut out, &index_trits, 27);
                let last_index_trits = int_trits(to_signed(last_index.0 as u64));
                push_window(&mut out, &last_index_trits, 27);
            },
            _ => {},
        }
        out
    }

    /// Builds the transaction, or says what is missing or wrong.
    pub fn build(self) -> (res: Result<Transaction, TransactionError>)
        ensures
            res.is_err() == self@.build_error().is_some(),
            res.is_err() ==> res.unwrap_err() == self@.build_error().unwrap(),
            res.is_ok() ==> res.unwrap()@ == self@,
    {
        let value: i64 = match &self.value {
            Some(value) => value.0,
            None => {
                return Err(TransactionError::MissingField("value"));
            },
        };
        match &self.address {
            Some(address) => {
                if value != 0 && !(address.0.len() >= 243 && address.0[242] == 0) {
                    return Err(TransactionError::InvalidAddress);
                }
            },
            None => {
                return Err(TransactionError::MissingField("address"));
            },
        }
        match self {
            TransactionBuilder { value: None, .. } => Err(TransactionError::MissingField("value")),
            TransactionBuilder { address: None, .. } => Err(
                TransactionError::MissingField("address"),
            ),
            TransactionBuilder { payload: None, .. } => Err(
                TransactionError::MissingField("payload"),
            ),
            TransactionBuilder { obsolete_tag: None, .. } => Err(
                TransactionError::MissingField("obsolete_tag"),
            ),
            TransactionBuilder { timestamp: None, .. } => Err(
                TransactionError::MissingField("timestamp"),
            ),
            TransactionBuilder { index: None, .. } => Err(
                TransactionError::MissingField("index"),
            ),
            TransactionBuilder { last_index: None, .. } => Err(
                TransactionError::MissingField("last_index"),
            ),
            TransactionBuilder { bundle: None, .. } => Err(
                TransactionError::MissingField("bundle"),
            ),
            TransactionBuilder { trunk: None, .. } => Err(
                TransactionError::MissingField("trunk"),
            ),
            TransactionBuilder { branch: None, .. } => Err(
                TransactionError::MissingField("branch"),
            ),
            TransactionBuilder { tag: None, .. } => Err(
                TransactionError::MissingField("tag"),
            ),
            TransactionBuilder { attachment_ts: None, .. } => Err(
                TransactionError::MissingField("attachment_ts"),
            ),
            TransactionBuilder { attachment_lbts: None, .. } => Err(
                TransactionError::MissingField("attachment_lbts"),
            ),
            TransactionBuilder { attachment_ubts: None, .. } => Err(
                TransactionError::MissingField("attachment_ubts"),
            ),
            TransactionBuilder { nonce: None, .. } => Err(
                TransactionError::MissingField("nonce"),
            ),
            TransactionBuilder {
                payload: Some(payload),
                address: Some(address),
                value: Some(value),
                obsolete_tag: Some(obsolete_tag),
                timestamp: Some(timestamp),
                index: Some(index),
                last_index: Some(last_index),
                bundle: Some(bundle),
                trunk: Some(trunk),
                branch: Some(branch),
                tag: Some(tag),
                attachment_ts: Some(attachment_ts),
                attachment_lbts: Some(attachment_lbts),
                attachment_ubts: Some(attachment_ubts),
                nonce: Some(nonce),
            } => Ok(
                Transaction {
                    payload,
                    address,
                    value,
                    obsolete_tag,
                    timestamp,
                    index,
                    last_index,
                    bundle,
                    trunk,
                    branch,
                    tag,
                    attachment_ts,
                    attachment_lbts,
                    attachment_ubts,
                    nonce,
                },
            ),
        }
    }
}

impl View for Transaction {
    type V = TransactionBuilderView;

    /// A transaction is seen as the builder with every field set that gives it.
    open spec fn view(&self) -> TransactionBuilderView {
        TransactionBuilderView {
            payload: Some(self.payload@),
            address: Some(self.address@),
            value: Some(self.value.0),
            obsolete_tag: Some(self.obsolete_tag@),
            timestamp: Some(self.timestamp.0),
            index: Some(self.index.0),
            last_index: Some(self.last_index.0),
            bundle: Some(self.bundle@),
            trunk: Some(self.trunk@),
            branch: Some(self.branch@),
            tag: Some(self.tag@),
            attachment_ts: Some(self.attachment_ts.0),
            attachment_lbts: Some(self.attachment_lbts.0),
            attachment_ubts: Some(self.attachment_ubts.0),
            nonce: Some(self.nonce@),
        }
    }
}

/// The views of transactions, in order.
pub open spec fn transaction_views(transactions: Seq<Transaction>) -> Seq<TransactionBuilderView> {
    Seq::new(transactions.len(), |i: int| transactions[i]@)
}

/// The builders of one bundle, in bundle order.
#[derive(Debug)]
pub struct TransactionBuilders(pub Vec<TransactionBuilder>);

impl TransactionBuilders {
    pub fn new() -> (builders: Self)
        ensures
            builders.0@.len() == 0,
    {
        Self(Vec::new())
    }

    pub fn push(&mut self, builder: TransactionBuilder)
        ensures
            final(self).0@ == old(self).0@.push(builder),
    {
        self.0.push(builder);
    }

    pub fn len(&self) -> (len: usize)
        ensures
            len == self.0@.len(),
    {
        self.0.len()
    }
}

/// The transactions of one bundle, in bundle order.
#[derive(Debug)]
pub struct Transactions(pub Vec<Transaction>);

impl Transactions {
    pub fn new() -> (transactions: Self)
        ensures
            transactions.0@.len() == 0,
    {
        Self(Vec::new())
    }

    pub fn push(&mut self, transaction: Transaction)
        ensures
            final(self).0@ == old(self).0@.push(transaction),
    {
        self.0.push(transaction);
    }

    pub fn len(&self) -> (len: usize)
        ensures
            len == self.0@.len(),
    {
        self.0.len()
    }
}

} // verus!
