use bee::bundle::outgoing_bundle_builder::{OutgoingBundleBuilder, OutgoingBundleBuilderError};
use bee::bundle::transaction::{
    Address, Index, Nonce, Payload, Tag, Timestamp, TransactionBuilder, Value,
};
use bee::bundle::validation::{signature_runs, SignatureRun};
use bee::crypto::sponge::{Sponge, SpongeError};
use bee::signing::scheme::{PrivateKey, PrivateKeyGenerator, SigningFailure};

/// A sponge for tests: its output is the sum of what it absorbed, trit by
/// trit and balanced again, so that it changes with every input trit.
#[derive(Default)]
struct SumSponge {
    state: Vec<i8>,
}

impl Sponge for SumSponge {
    fn reset(&mut self) {
        self.state.clear();
    }

    fn absorb(&mut self, input: &Vec<i8>) -> Result<(), SpongeError> {
        if input.len() % 243 != 0 {
            return Err(SpongeError);
        }
        self.state.extend_from_slice(input);
        Ok(())
    }

    fn squeeze_into(&mut self, buf: &mut Vec<i8>) -> Result<(), SpongeError> {
        for i in 0..buf.len() {
            let mut sum: i32 = 0;
            let mut j = i;
            while j < self.state.len() {
                sum += self.state[j] as i32;
                j += buf.len();
            }
            buf[i] = (((sum % 3) + 4) % 3 - 1) as i8;
        }
        Ok(())
    }
}

/// A sponge for tests whose first answers cannot be signed: it yields plus
/// ones until the obsolete tag of the first essence spells three.
#[derive(Default)]
struct StubbornSponge {
    state: Vec<i8>,
}

impl Sponge for StubbornSponge {
    fn reset(&mut self) {
        self.state.clear();
    }

    fn absorb(&mut self, input: &Vec<i8>) -> Result<(), SpongeError> {
        self.state.extend_from_slice(input);
        Ok(())
    }

    fn squeeze_into(&mut self, buf: &mut Vec<i8>) -> Result<(), SpongeError> {
        // The obsolete tag stands at trits 324..405 of the first essence.
        let tag = &self.state[324..405];
        let done = tag[0] == 0 && tag[1] == 1 && tag[2..].iter().all(|t| *t == 0);
        // A tryte of 13 beside one of -13: the sum is zero, so that normalisation
        // leaves both and the chunk of plus ones stays.
        for (i, t) in buf.iter_mut().enumerate() {
            *t = if done {
                0
            } else if i < 3 {
                1
            } else if i < 6 {
                -1
            } else {
                0
            };
        }
        Ok(())
    }
}

struct NoKey;

impl PrivateKey for NoKey {
    fn sign(&mut self, _message: &Vec<i8>) -> Result<Vec<i8>, SigningFailure> {
        Err(SigningFailure)
    }
}

struct NoKeys;

impl PrivateKeyGenerator for NoKeys {
    type Seed = ();
    type PrivateKey = NoKey;

    fn generate(&self, _seed: &(), _index: u64) -> Result<NoKey, SigningFailure> {
        Err(SigningFailure)
    }
}

/// A key whose signature repeats the first trit of the message plus a mark.
struct EchoKey(i8);

impl PrivateKey for EchoKey {
    fn sign(&mut self, message: &Vec<i8>) -> Result<Vec<i8>, SigningFailure> {
        let mut signature = vec![self.0; 6561];
        signature.extend(vec![message[0]; 6561]);
        signature.extend(vec![-1i8; 10]);
        Ok(signature)
    }
}

struct EchoKeys;

impl PrivateKeyGenerator for EchoKeys {
    type Seed = ();
    type PrivateKey = EchoKey;

    fn generate(&self, _seed: &(), index: u64) -> Result<EchoKey, SigningFailure> {
        Ok(EchoKey((index % 2) as i8))
    }
}

fn default_transaction_builder(index: usize, last_index: usize) -> TransactionBuilder {
    TransactionBuilder::new()
        .with_payload(Payload::zeros())
        .with_address(Address::zeros())
        .with_value(Value::from_inner_unchecked(0))
        .with_obsolete_tag(Tag::zeros())
        .with_timestamp(Timestamp::from_inner_unchecked(0))
        .with_index(Index::from_inner_unchecked(index))
        .with_last_index(Index::from_inner_unchecked(last_index))
        .with_tag(Tag::zeros())
        .with_attachment_ts(Timestamp::from_inner_unchecked(0))
        .with_bundle(bee::bundle::transaction::Hash::zeros())
        .with_trunk(bee::bundle::transaction::Hash::zeros())
        .with_branch(bee::bundle::transaction::Hash::zeros())
        .with_attachment_lbts(Timestamp::from_inner_unchecked(0))
        .with_attachment_ubts(Timestamp::from_inner_unchecked(0))
        .with_nonce(Nonce::zeros())
}

fn valued(value: i64) -> TransactionBuilder {
    default_transaction_builder(0, 0).with_value(Value::from_inner_unchecked(value))
}

#[test]
fn outgoing_bundle_builder_value_test() -> Result<(), OutgoingBundleBuilderError> {
    let bundle_size = 3;
    let mut bundle_builder = OutgoingBundleBuilder::<SumSponge>::new();

    for i in 0..bundle_size {
        bundle_builder.push(default_transaction_builder(i, bundle_size - 1));
    }

    let bundle = bundle_builder
        .seal()?
        .sign(&NoKeys, &(), Vec::new())?
        .attach_local(
            bee::bundle::transaction::Hash::zeros(),
            bee::bundle::transaction::Hash::zeros(),
        )?
        .build()?;

    assert_eq!(bundle.len(), bundle_size);

    Ok(())
}

#[test]
fn outgoing_bundle_builder_data_test() -> Result<(), OutgoingBundleBuilderError> {
    let bundle_size = 3;
    let mut bundle_builder = OutgoingBundleBuilder::<SumSponge>::new();

    for i in 0..bundle_size {
        bundle_builder.push(default_transaction_builder(i, bundle_size - 1));
    }

    let bundle = bundle_builder
        .seal()?
        .attach_local(
            bee::bundle::transaction::Hash::zeros(),
            bee::bundle::transaction::Hash::zeros(),
        )?
        .build()?;

    assert_eq!(bundle.len(), bundle_size);

    Ok(())
}

#[test]
fn seal_refuses_an_empty_bundle() {
    let builder = OutgoingBundleBuilder::<SumSponge>::new();
    assert!(matches!(builder.seal(), Err(OutgoingBundleBuilderError::Empty)));
}

#[test]
fn seal_names_the_missing_field() {
    let mut builder = OutgoingBundleBuilder::<SumSponge>::new();
    builder.push(default_transaction_builder(0, 0));
    builder.push(
        TransactionBuilder::new()
            .with_payload(Payload::zeros())
            .with_value(Value::from_inner_unchecked(0)),
    );
    assert!(matches!(
        builder.seal(),
        Err(OutgoingBundleBuilderError::MissingTransactionBuilderField("address"))
    ));

    let mut builder = OutgoingBundleBuilder::<SumSponge>::new();
    builder.push(
        TransactionBuilder::new()
            .with_payload(Payload::zeros())
            .with_address(Address::zeros())
            .with_value(Value::from_inner_unchecked(0))
            .with_tag(Tag::zeros())
            .with_timestamp(Timestamp::from_inner_unchecked(0)),
    );
    assert!(matches!(
        builder.seal(),
        Err(OutgoingBundleBuilderError::MissingTransactionBuilderField("obsolete_tag"))
    ));
}

#[test]
fn seal_refuses_values_that_do_not_cancel() {
    let mut builder = OutgoingBundleBuilder::<SumSponge>::new();
    builder.push(valued(5));
    builder.push(valued(-3));
    assert!(matches!(builder.seal(), Err(OutgoingBundleBuilderError::InvalidValue(2))));
}

#[test]
fn seal_refuses_a_partial_sum_above_the_supply() {
    let supply = bee::bundle::constants::IOTA_SUPPLY;
    let mut builder = OutgoingBundleBuilder::<SumSponge>::new();
    builder.push(valued(supply));
    builder.push(valued(1));
    builder.push(valued(-supply - 1));
    assert!(matches!(
        builder.seal(),
        Err(OutgoingBundleBuilderError::InvalidValue(v)) if v == supply + 1
    ));

    let mut builder = OutgoingBundleBuilder::<SumSponge>::new();
    builder.push(valued(i64::MAX));
    builder.push(valued(i64::MAX));
    assert!(matches!(
        builder.seal(),
        Err(OutgoingBundleBuilderError::InvalidValue(i64::MAX))
    ));
}

#[test]
fn seal_writes_indices_and_one_hash() {
    let mut builder = OutgoingBundleBuilder::<SumSponge>::new();
    builder.push(valued(7).with_index(Index::from_inner_unchecked(9)));
    builder.push(valued(-7));
    let bundle = builder
        .seal()
        .unwrap()
        .sign(&NoKeys, &(), Vec::new())
        .unwrap()
        .attach_remote(
            bee::bundle::transaction::Hash::zeros(),
            bee::bundle::transaction::Hash::zeros(),
        )
        .unwrap()
        .build()
        .unwrap();
    let first = bundle.get(0).unwrap();
    let second = bundle.get(1).unwrap();
    assert_eq!(first.index.0, 0);
    assert_eq!(second.index.0, 1);
    assert_eq!(first.last_index.0, 1);
    assert_eq!(second.last_index.0, 1);
    assert_eq!(first.bundle.0, second.bundle.0);
    assert_eq!(first.bundle.0.len(), 243);
    assert!(bundle.get(2).is_none());
}

#[test]
fn seal_increments_the_obsolete_tag_until_the_hash_can_be_signed() {
    let mut builder = OutgoingBundleBuilder::<StubbornSponge>::new();
    builder.push(default_transaction_builder(0, 1));
    builder.push(default_transaction_builder(1, 1));
    let bundle = builder
        .seal()
        .unwrap()
        .attach_local(
            bee::bundle::transaction::Hash::zeros(),
            bee::bundle::transaction::Hash::zeros(),
        )
        .unwrap()
        .build()
        .unwrap();
    // Three increments of the zero tag: 1, then 1 followed by -1 (two), then 0 followed by 1 (three).
    let mut expected = vec![0i8; 81];
    expected[1] = 1;
    assert_eq!(bundle.get(0).unwrap().obsolete_tag.0, expected);
    assert_eq!(bundle.get(1).unwrap().obsolete_tag.0, expected);
    assert_eq!(bundle.get(0).unwrap().bundle.0, vec![0i8; 243]);
}

#[test]
fn attach_refuses_an_unsigned_input() {
    let mut builder = OutgoingBundleBuilder::<SumSponge>::new();
    builder.push(valued(4));
    builder.push(valued(-4));
    let sealed = builder.seal().unwrap();
    assert!(matches!(
        sealed.attach_local(
            bee::bundle::transaction::Hash::zeros(),
            bee::bundle::transaction::Hash::zeros()
        ),
        Err(OutgoingBundleBuilderError::UnsignedInput)
    ));
}

#[test]
fn sign_reports_a_failed_key() {
    let mut builder = OutgoingBundleBuilder::<SumSponge>::new();
    builder.push(valued(4));
    builder.push(valued(-4));
    let sealed = builder.seal().unwrap();
    assert!(matches!(
        sealed.sign(&NoKeys, &(), vec![(0, Address::zeros())]),
        Err(OutgoingBundleBuilderError::FailedSigningOperation)
    ));
}

#[test]
fn sign_places_each_fragment_in_its_own_transaction_of_the_run() {
    let mut builder = OutgoingBundleBuilder::<SumSponge>::new();
    builder.push(valued(5));
    builder.push(valued(-2));
    builder.push(valued(0));
    builder.push(valued(0));
    builder.push(valued(-3));
    builder.push(valued(0));
    let bundle = builder
        .seal()
        .unwrap()
        .sign(&EchoKeys, &(), vec![(1, Address::zeros()), (2, Address::zeros())])
        .unwrap()
        .attach_local(
            bee::bundle::transaction::Hash::zeros(),
            bee::bundle::transaction::Hash::zeros(),
        )
        .unwrap()
        .build()
        .unwrap();
    let echo = bundle.get(0).unwrap().bundle.0[0];
    // The output keeps its payload.
    assert_eq!(bundle.get(0).unwrap().payload.0, vec![0i8; 6561]);
    // The first input and the two transactions behind it: three fragments.
    assert_eq!(bundle.get(1).unwrap().payload.0, vec![1i8; 6561]);
    assert_eq!(bundle.get(2).unwrap().payload.0, vec![echo; 6561]);
    assert_eq!(bundle.get(3).unwrap().payload.0, vec![-1i8; 10]);
    // The second input and the one transaction behind it: the third fragment has no place.
    assert_eq!(bundle.get(4).unwrap().payload.0, vec![0i8; 6561]);
    assert_eq!(bundle.get(5).unwrap().payload.0, vec![echo; 6561]);
    assert_eq!(
        signature_runs(&bundle),
        vec![SignatureRun { start: 1, len: 3 }, SignatureRun { start: 4, len: 2 }]
    );
}

#[test]
fn sign_leaves_alone_what_is_not_in_the_run_of_an_input() {
    let mut builder = OutgoingBundleBuilder::<SumSponge>::new();
    let mut elsewhere = vec![0i8; 243];
    elsewhere[0] = 1;
    builder.push(valued(3));
    builder.push(valued(-3));
    builder.push(valued(0).with_address(Address::from_inner_unchecked(elsewhere)));
    builder.push(valued(0));
    let bundle = builder
        .seal()
        .unwrap()
        .sign(&EchoKeys, &(), vec![(1, Address::zeros())])
        .unwrap()
        .attach_local(
            bee::bundle::transaction::Hash::zeros(),
            bee::bundle::transaction::Hash::zeros(),
        )
        .unwrap()
        .build()
        .unwrap();
    assert_eq!(bundle.get(0).unwrap().payload.0, vec![0i8; 6561]);
    assert_eq!(bundle.get(1).unwrap().payload.0, vec![1i8; 6561]);
    assert_eq!(bundle.get(2).unwrap().payload.0, vec![0i8; 6561]);
    assert_eq!(bundle.get(3).unwrap().payload.0, vec![0i8; 6561]);
}

#[test]
fn sign_without_inputs_changes_nothing() {
    let mut builder = OutgoingBundleBuilder::<SumSponge>::new();
    builder.push(valued(2));
    builder.push(valued(-2));
    let bundle = builder
        .seal()
        .unwrap()
        .sign(&NoKeys, &(), vec![])
        .unwrap()
        .attach_local(
            bee::bundle::transaction::Hash::zeros(),
            bee::bundle::transaction::Hash::zeros(),
        )
        .unwrap()
        .build()
        .unwrap();
    assert_eq!(bundle.get(1).unwrap().payload.0, vec![0i8; 6561]);
}

#[test]
fn build_reports_the_first_transaction_that_cannot_be_built() {
    let mut builder = OutgoingBundleBuilder::<SumSponge>::new();
    builder.push(default_transaction_builder(0, 0));
    builder.push(
        TransactionBuilder::new()
            .with_payload(Payload::zeros())
            .with_address(Address::zeros())
            .with_value(Value::from_inner_unchecked(0))
            .with_obsolete_tag(Tag::zeros())
            .with_timestamp(Timestamp::from_inner_unchecked(0))
            .with_tag(Tag::zeros()),
    );
    let attached = builder
        .seal()
        .unwrap()
        .attach_local(
            bee::bundle::transaction::Hash::zeros(),
            bee::bundle::transaction::Hash::zeros(),
        )
        .unwrap();
    assert!(matches!(
        attached.build(),
        Err(OutgoingBundleBuilderError::TransactionError(
            bee::bundle::transaction::TransactionError::MissingField("trunk")
        ))
    ));
}

/// A sponge for tests whose every answer holds a chunk of plus ones beside
/// a chunk of minus ones.
#[derive(Default)]
struct HopelessSponge;

impl Sponge for HopelessSponge {
    fn reset(&mut self) {}

    fn absorb(&mut self, _input: &Vec<i8>) -> Result<(), SpongeError> {
        Ok(())
    }

    fn squeeze_into(&mut self, buf: &mut Vec<i8>) -> Result<(), SpongeError> {
        for (i, t) in buf.iter_mut().enumerate() {
            *t = if i < 3 { 1 } else if i < 6 { -1 } else { 0 };
        }
        Ok(())
    }
}

/// A sponge for tests that yields nothing.
#[derive(Default)]
struct MuteSponge;

impl Sponge for MuteSponge {
    fn reset(&mut self) {}

    fn absorb(&mut self, _input: &Vec<i8>) -> Result<(), SpongeError> {
        Ok(())
    }

    fn squeeze_into(&mut self, _buf: &mut Vec<i8>) -> Result<(), SpongeError> {
        Err(SpongeError)
    }
}

#[test]
fn seal_within_gives_up_or_names_what_the_essence_lacks() {
    let mut builder = OutgoingBundleBuilder::<StubbornSponge>::new();
    builder.push(default_transaction_builder(0, 0));
    assert!(builder.seal_within(3).unwrap().is_some());

    let mut builder = OutgoingBundleBuilder::<StubbornSponge>::new();
    builder.push(default_transaction_builder(0, 0));
    assert!(builder.seal_within(2).unwrap().is_none());

    let mut builder = OutgoingBundleBuilder::<HopelessSponge>::new();
    builder.push(default_transaction_builder(0, 0));
    assert!(builder.seal_within(50).unwrap().is_none());

    let mut builder = OutgoingBundleBuilder::<MuteSponge>::new();
    builder.push(default_transaction_builder(0, 0));
    assert!(builder.seal_within(50).unwrap().is_none());

    let mut builder = OutgoingBundleBuilder::<SumSponge>::new();
    builder.push(default_transaction_builder(0, 0));
    builder.push(
        TransactionBuilder::new()
            .with_payload(Payload::zeros())
            .with_address(Address::zeros())
            .with_value(Value::from_inner_unchecked(0))
            .with_obsolete_tag(Tag::zeros())
            .with_tag(Tag::zeros()),
    );
    assert!(matches!(
        builder.seal_within(1),
        Err(OutgoingBundleBuilderError::MissingTransactionBuilderField("timestamp"))
    ));

    let mut builder = OutgoingBundleBuilder::<SumSponge>::new();
    builder.push(default_transaction_builder(0, 0));
    builder.push(
        TransactionBuilder::new()
            .with_payload(Payload::zeros())
            .with_address(Address::zeros())
            .with_value(Value::from_inner_unchecked(0))
            .with_timestamp(Timestamp::from_inner_unchecked(0))
            .with_tag(Tag::zeros()),
    );
    assert!(matches!(
        builder.seal_within(1),
        Err(OutgoingBundleBuilderError::MissingTransactionBuilderField("obsolete_tag"))
    ));

    let builder = OutgoingBundleBuilder::<SumSponge>::new();
    assert!(matches!(builder.seal_within(1), Err(OutgoingBundleBuilderError::Empty)));
}
