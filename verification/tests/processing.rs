use bee::bundle::bundle::Bundle;
use bee::bundle::codec::{read_number, weight_magnitude, MAX_27_TRITS};
use bee::bundle::transaction::{
    Address, Index, Nonce, Payload, Tag, Timestamp, Transaction, TransactionBuilder,
    TransactionError, Transactions, Value,
};
use bee::bundle::validation::{signature_runs, validate_bundle, BundleError, SignatureRun};
use bee::protocol::message::transaction::{compress_transaction_bytes, TransactionMessage};
use bee::protocol::message::transaction_request::TransactionRequest;
use bee::protocol::peer::EndpointId;
use bee::protocol::metrics::ProtocolMetrics;
use bee::protocol::worker::hasher::{
    count_poll, decode_transaction, encode_transaction, send_hashes, trigger_hashing, BatchPoll, BatchStream, Dropped, HashCache,
    HashMode, HasherWorkerEvent, Polled, ProcessorWorkerEvent,
};
use bee::protocol::worker::bundle_validator::{BundleCollector, Gathered};
use bee::protocol::worker::processor::{Processed, ProcessorWorker};
use bee::protocol::worker::requester::RequestedTransactions;
use bee::signing::normalize::normalize_hash;
use bee::tangle::graph::Tangle;
use bee::ternary::bigint::{T242, T243};
use bee_ternary::{T1B1Buf, T5B1Buf, TritBuf};

fn trits(first: &[i8], len: usize) -> Vec<i8> {
    let mut all = vec![0i8; len];
    all[..first.len()].copy_from_slice(first);
    all
}

fn transaction(value: i64, index: usize, last_index: usize, address: &[i8]) -> Transaction {
    TransactionBuilder::new()
        .with_payload(Payload::from_inner_unchecked(trits(&[1, -1], 6561)))
        .with_address(Address::from_inner_unchecked(trits(address, 243)))
        .with_value(Value::from_inner_unchecked(value))
        .with_obsolete_tag(Tag::from_inner_unchecked(trits(&[0, 1], 81)))
        .with_timestamp(Timestamp::from_inner_unchecked(1_600_000_000))
        .with_index(Index::from_inner_unchecked(index))
        .with_last_index(Index::from_inner_unchecked(last_index))
        .with_tag(Tag::from_inner_unchecked(trits(&[-1], 81)))
        .with_attachment_ts(Timestamp::from_inner_unchecked(MAX_27_TRITS))
        .with_bundle(bee::bundle::transaction::Hash::from_inner_unchecked(trits(&[1, 0, -1], 243)))
        .with_trunk(bee::bundle::transaction::Hash::from_inner_unchecked(trits(&[0, 0, 1], 243)))
        .with_branch(bee::bundle::transaction::Hash::from_inner_unchecked(trits(&[0, -1], 243)))
        .with_attachment_lbts(Timestamp::from_inner_unchecked(0))
        .with_attachment_ubts(Timestamp::from_inner_unchecked(7))
        .with_nonce(Nonce::from_inner_unchecked(trits(&[1, 1], 81)))
        .build()
        .unwrap()
}

fn wire_bytes(transaction: &Transaction) -> Vec<u8> {
    let trits = transaction.to_trits();
    let packed = TritBuf::<T1B1Buf>::from_i8s(&trits).unwrap().encode::<T5B1Buf>();
    let whole: Vec<u8> = packed.as_i8_slice().iter().map(|b| *b as u8).collect();
    assert_eq!(whole.len(), 1604);
    compress_transaction_bytes(&whole)
}

fn event(transaction: &Transaction, hash: Vec<i8>) -> ProcessorWorkerEvent {
    ProcessorWorkerEvent {
        hash,
        from: EndpointId(1),
        transaction_message: TransactionMessage::new(wire_bytes(transaction)),
    }
}

fn weighty_hash(zeros: usize, mark: i8) -> Vec<i8> {
    let mut hash = vec![mark; 243];
    for t in hash.iter_mut().skip(243 - zeros) {
        *t = 0;
    }
    hash
}

#[test]
fn numbers_are_spelled_in_balanced_trits() {
    let transaction = transaction(-2, 4, 5, &[1]);
    let trits = transaction.to_trits();
    assert_eq!(trits.len(), 8019);
    // -2 is 1 - 3.
    assert_eq!(&trits[6804..6808], &[1, -1, 0, 0]);
    // 4 is 1 + 3; 5 is -1 - 3 + 9.
    assert_eq!(&trits[6993..6997], &[1, 1, 0, 0]);
    assert_eq!(&trits[7020..7024], &[-1, -1, 1, 0]);
    // The greatest number of 27 trits is all plus ones.
    assert_eq!(&trits[7857..7884], &[1i8; 27][..]);
    assert_eq!(read_number(&trits, 6804, 6885), Some(-2));
    assert_eq!(read_number(&trits, 7857, 7884), Some(MAX_27_TRITS as i64));
    assert_eq!(read_number(&vec![0, 2, 0], 0, 3), None);
    assert_eq!(read_number(&vec![1i8; 41], 0, 41), None);
    assert_eq!(read_number(&vec![1i8; 40], 0, 40), Some(6078832729528464400));
    assert_eq!(read_number(&vec![], 0, 0), Some(0));
}

#[test]
fn transaction_is_read_back_from_its_trits() {
    let transaction = transaction(i64::MIN, 3, 9, &[1, 0, -1]);
    let read = Transaction::from_trits(&transaction.to_trits()).unwrap();
    assert_eq!(read.payload.0, transaction.payload.0);
    assert_eq!(read.address.0, transaction.address.0);
    assert_eq!(read.value, transaction.value);
    assert_eq!(read.obsolete_tag.0, transaction.obsolete_tag.0);
    assert_eq!(read.timestamp, transaction.timestamp);
    assert_eq!(read.index, transaction.index);
    assert_eq!(read.last_index, transaction.last_index);
    assert_eq!(read.bundle.0, transaction.bundle.0);
    assert_eq!(read.trunk.0, transaction.trunk.0);
    assert_eq!(read.branch.0, transaction.branch.0);
    assert_eq!(read.tag.0, transaction.tag.0);
    assert_eq!(read.attachment_ts, transaction.attachment_ts);
    assert_eq!(read.attachment_lbts, transaction.attachment_lbts);
    assert_eq!(read.attachment_ubts, transaction.attachment_ubts);
    assert_eq!(read.nonce.0, transaction.nonce.0);
}

#[test]
fn trits_that_are_no_transaction_are_refused() {
    assert!(matches!(
        Transaction::from_trits(&vec![0i8; 8018]),
        Err(TransactionError::InvalidLength)
    ));
    let mut trits = vec![0i8; 8019];
    trits[6966] = -1;
    assert!(matches!(
        Transaction::from_trits(&trits),
        Err(TransactionError::InvalidNumericField("timestamp"))
    ));
    let mut trits = vec![0i8; 8019];
    for t in trits.iter_mut().skip(6804).take(41) {
        *t = 1;
    }
    assert!(matches!(
        Transaction::from_trits(&trits),
        Err(TransactionError::InvalidNumericField("value"))
    ));
    let mut trits = vec![0i8; 8019];
    trits[7020] = 5;
    assert!(matches!(
        Transaction::from_trits(&trits),
        Err(TransactionError::InvalidNumericField("last_index"))
    ));
}

#[test]
fn builder_names_what_is_missing() {
    assert!(matches!(
        TransactionBuilder::new().build(),
        Err(TransactionError::MissingField("value"))
    ));
    assert!(matches!(
        TransactionBuilder::new().with_value(Value::from_inner_unchecked(0)).build(),
        Err(TransactionError::MissingField("address"))
    ));
    assert!(matches!(
        TransactionBuilder::new()
            .with_value(Value::from_inner_unchecked(1))
            .with_address(Address::from_inner_unchecked(vec![0, 1]))
            .build(),
        Err(TransactionError::InvalidAddress)
    ));
    let mut address = vec![0i8; 243];
    address[242] = 1;
    assert!(matches!(
        TransactionBuilder::new()
            .with_value(Value::from_inner_unchecked(1))
            .with_address(Address::from_inner_unchecked(address.clone()))
            .build(),
        Err(TransactionError::InvalidAddress)
    ));
    assert!(matches!(
        TransactionBuilder::new()
            .with_value(Value::from_inner_unchecked(0))
            .with_address(Address::from_inner_unchecked(address))
            .build(),
        Err(TransactionError::MissingField("payload"))
    ));
    assert_eq!(Payload::trit_len(), 6561);
    assert_eq!(Address::trit_len(), 243);
    assert_eq!(Tag::trit_len(), 81);
    assert_eq!(Nonce::trit_len(), 81);
    assert_eq!(bee::bundle::transaction::Hash::trit_len(), 243);
    assert_eq!(Tag::zeros().duplicate().to_inner(), &vec![0i8; 81]);
    assert_eq!(*Value::from_inner_unchecked(3).to_inner(), 3);
    assert_eq!(*Timestamp::from_inner_unchecked(3).to_inner(), 3);
    assert_eq!(*Index::from_inner_unchecked(3).to_inner(), 3);
}

#[test]
fn essence_holds_address_value_tag_time_and_places() {
    let builder = TransactionBuilder::new()
        .with_address(Address::from_inner_unchecked(trits(&[1, -1], 243)))
        .with_value(Value::from_inner_unchecked(5))
        .with_obsolete_tag(Tag::from_inner_unchecked(trits(&[-1], 81)))
        .with_timestamp(Timestamp::from_inner_unchecked(2))
        .with_index(Index::from_inner_unchecked(1))
        .with_last_index(Index::from_inner_unchecked(3));
    let essence = builder.essence();
    assert_eq!(essence.len(), 486);
    assert_eq!(&essence[0..3], &[1, -1, 0]);
    assert_eq!(&essence[243..247], &[-1, -1, 1, 0]);
    assert_eq!(&essence[324..326], &[-1, 0]);
    assert_eq!(&essence[405..408], &[-1, 1, 0]);
    assert_eq!(&essence[432..434], &[1, 0]);
    assert_eq!(&essence[459..462], &[0, 1, 0]);
}

#[test]
fn weight_is_the_number_of_trailing_zero_trits() {
    assert_eq!(weight_magnitude(&weighty_hash(14, 1)), 14);
    assert_eq!(weight_magnitude(&weighty_hash(0, -1)), 0);
    assert_eq!(weight_magnitude(&vec![0i8; 243]), 243);
    assert_eq!(weight_magnitude(&vec![]), 0);
}

#[test]
fn bad_proof_of_work_never_reaches_the_tangle() {
    let worker = ProcessorWorker::new(14, trits(&[1], 243));
    let mut tangle = Tangle::new();
    let mut requested = RequestedTransactions::new();
    let mut metrics = ProtocolMetrics::new();
    let transaction = transaction(0, 0, 0, &[0]);
    let outcome = worker.process(
        &mut tangle,
        &mut requested,
        &mut metrics,
        &event(&transaction, weighty_hash(13, 1)),
        5,
    );
    assert!(matches!(outcome, Processed::Invalid));
    assert_eq!(metrics.invalid_transactions, 1);
    assert_eq!(tangle.len(), 0);
}

#[test]
fn processor_inserts_once_and_settles_the_request() {
    let worker = ProcessorWorker::new(14, trits(&[1], 243));
    let mut tangle = Tangle::new();
    let mut requested = RequestedTransactions::new();
    let mut metrics = ProtocolMetrics::new();
    let hash = weighty_hash(14, 1);
    requested.insert(hash.clone(), 8, 1000);
    let tail_to_coordinator = transaction(0, 0, 2, &[1]);

    let outcome = worker.process(
        &mut tangle,
        &mut requested,
        &mut metrics,
        &event(&tail_to_coordinator, hash.clone()),
        1250,
    );
    match outcome {
        Processed::New(new) => {
            assert_eq!(new.hash, hash);
            assert!(new.bundle_tail);
            assert!(new.milestone_candidate);
            assert_eq!(new.answered, Some((250, 8)));
        }
        _ => panic!("a new transaction is inserted"),
    }
    assert_eq!(metrics.new_transactions, 1);
    assert_eq!(tangle.len(), 1);
    assert!(!requested.contains_key(&hash));
    let metadata = tangle.get_metadata(&hash).unwrap();
    assert!(metadata.flags.requested);
    assert!(!metadata.flags.solid);
    assert_eq!(metadata.arrival_timestamp, 1250);

    let again = worker.process(
        &mut tangle,
        &mut requested,
        &mut metrics,
        &event(&tail_to_coordinator, hash.clone()),
        1300,
    );
    assert!(matches!(again, Processed::Known));
    assert_eq!(metrics.known_transactions, 1);
    assert_eq!(tangle.len(), 1);

    let other = transaction(0, 1, 2, &[0, 1]);
    match worker.process(
        &mut tangle,
        &mut requested,
        &mut metrics,
        &event(&other, weighty_hash(20, -1)),
        1300,
    ) {
        Processed::New(new) => {
            assert!(!new.bundle_tail);
            assert!(!new.milestone_candidate);
            assert_eq!(new.answered, None);
        }
        _ => panic!("a new transaction is inserted"),
    }

    let garbage = ProcessorWorkerEvent {
        hash: weighty_hash(30, 1),
        from: EndpointId(1),
        transaction_message: TransactionMessage::new(vec![0x7f; 400]),
    };
    assert!(matches!(
        worker.process(&mut tangle, &mut requested, &mut metrics, &garbage, 1),
        Processed::Invalid
    ));
    assert_eq!(tangle.len(), 2);
}

#[test]
fn packed_trits_are_unpacked_five_to_a_byte() {
    let transaction = transaction(7, 1, 1, &[1, 1, -1]);
    let decoded = decode_transaction(&wire_bytes(&transaction)).unwrap();
    assert_eq!(decoded, transaction.to_trits());
    assert!(decode_transaction(&vec![0u8; 291]).is_none());
    assert!(decode_transaction(&vec![0u8; 1605]).is_none());
    // 122 is no packing of five trits.
    assert!(decode_transaction(&vec![122u8; 292]).is_none());
    assert_eq!(decode_transaction(&vec![0u8; 292]), Some(vec![0i8; 8019]));
    // -121 is five minus ones, 121 five plus ones.
    let mut bytes = vec![0u8; 292];
    bytes[291] = 121;
    bytes[290] = (-121i8) as u8;
    let decoded = decode_transaction(&bytes).unwrap();
    assert_eq!(&decoded[8015..8019], &[1, 1, 1, 1]);
    assert_eq!(&decoded[8010..8015], &[-1, -1, -1, -1, -1]);
}

fn incoming(byte: u8, from: u64) -> HasherWorkerEvent {
    let mut bytes = vec![0u8; 292];
    bytes[0] = byte;
    HasherWorkerEvent { from: EndpointId(from), transaction_message: TransactionMessage::new(bytes) }
}

#[test]
fn batches_fill_or_flush() {
    let mut stream = BatchStream::new(100);
    assert_eq!(stream.on_polled(Polled::Pending), BatchPoll::Pending);
    assert_eq!(stream.full_batch(), None);
    assert_eq!(stream.on_polled(Polled::Item(incoming(1, 1))), BatchPoll::Added);
    assert_eq!(stream.on_polled(Polled::Item(incoming(1, 2))), BatchPoll::Dropped(Dropped::Known));
    assert_eq!(
        stream.on_polled(Polled::Item(incoming(122, 2))),
        BatchPoll::Dropped(Dropped::Invalid)
    );
    assert_eq!(stream.on_polled(Polled::Item(incoming(2, 3))), BatchPoll::Added);
    assert_eq!(stream.batch_len(), 2);
    assert_eq!(stream.on_polled(Polled::Pending), BatchPoll::Ready(2));
    let (trits, events) = stream.take_batch();
    assert_eq!(trits.len(), 2);
    assert_eq!(events.len(), 2);
    // The bytes of these transactions stand behind the fragment, which is all zeros.
    assert_eq!(trits[0][0], 0);
    assert_eq!(trits[0][6560..6563], [1, 0, 0]);
    assert_eq!(trits[1][6560..6563], [-1, 1, 0]);
    assert_eq!(events[1].from, EndpointId(3));
    assert_eq!(stream.batch_len(), 0);
    // The cache outlives the batch.
    assert_eq!(stream.on_polled(Polled::Item(incoming(2, 3))), BatchPoll::Dropped(Dropped::Known));
    for i in 3..66u8 {
        assert_eq!(stream.on_polled(Polled::Item(incoming(i, 1))), BatchPoll::Added);
    }
    assert_eq!(stream.on_polled(Polled::Item(incoming(66, 1))), BatchPoll::Ready(64));
    assert_eq!(stream.full_batch(), Some(64));
    assert_eq!(stream.on_polled(Polled::Closed), BatchPoll::Closed);
}

#[test]
fn small_batches_are_hashed_one_by_one() {
    assert_eq!(trigger_hashing(0), HashMode::Unbatched);
    assert_eq!(trigger_hashing(2), HashMode::Unbatched);
    assert_eq!(trigger_hashing(3), HashMode::Batched);
    assert_eq!(trigger_hashing(64), HashMode::Batched);
}

#[test]
fn hashes_meet_their_transactions_in_order() {
    let mut events = vec![incoming(1, 1), incoming(2, 2), incoming(3, 3)];
    let out = send_hashes(vec![vec![1], vec![2]], &mut events);
    assert!(events.is_empty());
    assert_eq!(out.len(), 2);
    assert_eq!(out[0].hash, vec![1]);
    assert_eq!(out[0].from, EndpointId(1));
    assert_eq!(out[0].transaction_message.bytes[0], 1);
    assert_eq!(out[1].hash, vec![2]);
    assert_eq!(out[1].from, EndpointId(2));
    let mut events = vec![incoming(1, 1)];
    let out = send_hashes(vec![vec![1], vec![2]], &mut events);
    assert_eq!(out.len(), 1);
    assert_eq!(out[0].hash, vec![1]);
}

#[test]
fn cache_forgets_the_oldest() {
    let mut cache = HashCache::new(2);
    assert!(cache.insert(&vec![1]));
    assert!(cache.insert(&vec![2]));
    assert!(!cache.insert(&vec![1]));
    assert!(cache.insert(&vec![3]));
    assert!(!cache.contains(&vec![1]));
    assert!(cache.contains(&vec![2]));
    assert!(cache.contains(&vec![3]));
    let mut none = HashCache::new(0);
    assert!(none.insert(&vec![1]));
    assert!(none.insert(&vec![2]));
    assert!(!none.contains(&vec![1]));
}

#[test]
fn normalisation_balances_each_fragment() {
    // Tryte 0 is 13, tryte 1 is 5, the rest of the first fragment zero: sum 18.
    let mut hash = vec![0i8; 243];
    hash[0] = 1;
    hash[1] = 1;
    hash[2] = 1;
    hash[3] = -1;
    hash[4] = -1;
    hash[5] = 1;
    // Second fragment: one tryte of -13.
    hash[81] = -1;
    hash[82] = -1;
    hash[83] = -1;
    let normalized = normalize_hash(&hash);
    // 18 are taken from the first tryte: 13 - 18 = -5, which is 1 + 3 - 9.
    assert_eq!(&normalized[0..6], &[1, 1, -1, -1, -1, 1]);
    // 13 are given to the first tryte of the second fragment: 0.
    assert_eq!(&normalized[81..84], &[0, 0, 0]);
    assert_eq!(&normalized[84..243], &vec![0i8; 159][..]);
    for fragment in 0..3 {
        let sum: i32 = (0..27)
            .map(|j| {
                let at = (fragment * 27 + j) * 3;
                normalized[at] as i32 + 3 * normalized[at + 1] as i32 + 9 * normalized[at + 2] as i32
            })
            .sum();
        assert_eq!(sum, 0);
    }
}

fn bundle_of(transactions: Vec<Transaction>) -> Bundle {
    let mut all = Transactions::new();
    for transaction in transactions {
        all.push(transaction);
    }
    Bundle(all)
}

#[test]
fn bundle_is_accepted_when_balanced_placed_and_signed() {
    let bundle = bundle_of(vec![
        transaction(10, 0, 2, &[1]),
        transaction(-10, 1, 2, &[0, 1]),
        transaction(0, 2, 2, &[0, 1]),
    ]);
    assert_eq!(signature_runs(&bundle), vec![SignatureRun { start: 1, len: 2 }]);
    assert_eq!(validate_bundle(&bundle, &vec![true]), Ok(()));
    assert_eq!(validate_bundle(&bundle, &vec![false]), Err(BundleError::InvalidSignature));
    assert_eq!(validate_bundle(&bundle, &vec![]), Err(BundleError::InvalidSignature));
    assert_eq!(validate_bundle(&bundle, &vec![true, true]), Err(BundleError::InvalidSignature));
}

#[test]
fn bundle_is_refused_for_its_first_fault() {
    assert_eq!(validate_bundle(&bundle_of(vec![]), &vec![]), Err(BundleError::Empty));
    let gap = bundle_of(vec![transaction(0, 0, 1, &[1]), transaction(0, 2, 1, &[1])]);
    assert_eq!(validate_bundle(&gap, &vec![]), Err(BundleError::Misplaced(1)));
    let short = bundle_of(vec![transaction(0, 0, 2, &[1]), transaction(0, 1, 2, &[1])]);
    assert_eq!(validate_bundle(&short, &vec![]), Err(BundleError::Misplaced(0)));
    let unbalanced = bundle_of(vec![transaction(5, 0, 1, &[1]), transaction(-4, 1, 1, &[0, 1])]);
    assert_eq!(validate_bundle(&unbalanced, &vec![true]), Err(BundleError::InvalidValue(1)));
    let supply = bee::bundle::constants::IOTA_SUPPLY;
    let excessive = bundle_of(vec![
        transaction(supply, 0, 2, &[1]),
        transaction(1, 1, 2, &[1]),
        transaction(-supply - 1, 2, 2, &[0, 1]),
    ]);
    assert_eq!(
        validate_bundle(&excessive, &vec![true]),
        Err(BundleError::InvalidValue(supply + 1))
    );
}

#[test]
fn bundle_whose_hash_cannot_be_signed_is_refused() {
    let mut m = vec![0i8; 243];
    m[0] = 1;
    m[1] = 1;
    m[2] = 1;
    m[3] = -1;
    m[4] = -1;
    m[5] = -1;
    let with_hash = |hash: Vec<i8>| {
        let transaction = TransactionBuilder::new()
            .with_payload(Payload::zeros())
            .with_address(Address::zeros())
            .with_value(Value::from_inner_unchecked(0))
            .with_obsolete_tag(Tag::zeros())
            .with_timestamp(Timestamp::from_inner_unchecked(0))
            .with_index(Index::from_inner_unchecked(0))
            .with_last_index(Index::from_inner_unchecked(0))
            .with_tag(Tag::zeros())
            .with_attachment_ts(Timestamp::from_inner_unchecked(0))
            .with_bundle(bee::bundle::transaction::Hash::from_inner_unchecked(hash))
            .with_trunk(bee::bundle::transaction::Hash::zeros())
            .with_branch(bee::bundle::transaction::Hash::zeros())
            .with_attachment_lbts(Timestamp::from_inner_unchecked(0))
            .with_attachment_ubts(Timestamp::from_inner_unchecked(0))
            .with_nonce(Nonce::zeros())
            .build()
            .unwrap();
        bundle_of(vec![transaction])
    };
    assert_eq!(validate_bundle(&with_hash(m), &vec![]), Err(BundleError::MBug));
    assert_eq!(
        validate_bundle(&with_hash(vec![0i8; 242]), &vec![]),
        Err(BundleError::InvalidBundleHash)
    );
    assert_eq!(
        validate_bundle(&with_hash(vec![2i8; 243]), &vec![]),
        Err(BundleError::InvalidBundleHash)
    );
    assert_eq!(validate_bundle(&with_hash(vec![0i8; 243]), &vec![]), Ok(()));
}

#[test]
fn t242_gains_a_zero_in_front() {
    let narrow = T242::from_trit_buf(vec![1i8; 242]).unwrap();
    let wide: T243 = narrow.into_t243();
    let trits = wide.into_inner();
    assert_eq!(trits.len(), 243);
    assert_eq!(trits[241], 1);
    assert_eq!(trits[242], 0);
    assert!(T242::from_trit_buf(vec![0i8; 243]).is_none());
    assert!(T243::from_trit_buf(vec![0i8; 242]).is_none());
    assert_eq!(T242::LEN, 242);
    assert_eq!(T243::LEN, 243);
}

#[test]
fn transaction_is_carried_packed_and_compressed() {
    let transaction = transaction(-9, 2, 3, &[1, 0, -1]);
    let bytes = encode_transaction(&transaction).unwrap();
    assert_eq!(bytes, wire_bytes(&transaction));
    assert!(bytes.len() < 1604);
    assert_eq!(decode_transaction(&bytes).unwrap(), transaction.to_trits());
    let read = Transaction::from_trits(&decode_transaction(&bytes).unwrap()).unwrap();
    assert_eq!(read.value, transaction.value);
    assert_eq!(read.trunk.0, transaction.trunk.0);

    let odd = TransactionBuilder::new()
        .with_payload(Payload::from_inner_unchecked(vec![2i8; 6561]))
        .with_address(Address::zeros())
        .with_value(Value::from_inner_unchecked(0))
        .with_obsolete_tag(Tag::zeros())
        .with_timestamp(Timestamp::from_inner_unchecked(0))
        .with_index(Index::from_inner_unchecked(0))
        .with_last_index(Index::from_inner_unchecked(0))
        .with_tag(Tag::zeros())
        .with_attachment_ts(Timestamp::from_inner_unchecked(0))
        .with_bundle(bee::bundle::transaction::Hash::zeros())
        .with_trunk(bee::bundle::transaction::Hash::zeros())
        .with_branch(bee::bundle::transaction::Hash::zeros())
        .with_attachment_lbts(Timestamp::from_inner_unchecked(0))
        .with_attachment_ubts(Timestamp::from_inner_unchecked(0))
        .with_nonce(Nonce::zeros())
        .build()
        .unwrap();
    assert!(encode_transaction(&odd).is_none());
}

#[test]
fn transaction_request_carries_the_packed_hash() {
    let mut hash = vec![0i8; 243];
    hash[0] = 1;
    hash[5] = -1;
    hash[242] = 1;
    let request = TransactionRequest::for_hash(&hash).unwrap();
    assert_eq!(request.hash.len(), 49);
    assert_eq!(request.hash[0], 1);
    assert_eq!(request.hash[1], 255);
    assert_eq!(request.hash[48], 9);
    assert_eq!(request.hash_trits(), Some(hash.clone()));
    assert_eq!(request.size(), 49);
    assert_eq!(TransactionRequest::ID, 5);
    assert!(TransactionRequest::size_range().contains(&49));
    assert!(!TransactionRequest::size_range().contains(&50));
    let mut bytes = vec![0u8; 49];
    request.into_bytes(&mut bytes);
    let read = TransactionRequest::from_bytes(&bytes);
    assert_eq!(read.hash_trits(), Some(hash));
    assert!(TransactionRequest::for_hash(&vec![0i8; 242]).is_none());
    assert!(TransactionRequest::for_hash(&vec![2i8; 243]).is_none());
    assert!(TransactionRequest::new(&vec![122u8; 49]).hash_trits().is_none());
    assert!(TransactionRequest::new(&vec![0u8; 48]).hash_trits().is_none());
}

fn linked(value: i64, index: usize, last_index: usize, trunk: &[i8]) -> Transaction {
    let mut transaction = transaction(value, index, last_index, &[0, 1]);
    transaction.trunk = bee::bundle::transaction::Hash::from_inner_unchecked(trits(trunk, 243));
    transaction
}

#[test]
fn bundle_is_gathered_from_its_tail_along_the_trunks() {
    let collector = BundleCollector::new(trits(&[1], 243));
    assert_eq!(collector.wanted_hash(), trits(&[1], 243));
    let collector = match collector.on_fetched(Some(linked(10, 0, 2, &[1, 1]))) {
        Gathered::More(collector) => collector,
        other => panic!("{:?}", other),
    };
    assert_eq!(collector.wanted_hash(), trits(&[1, 1], 243));
    let collector = match collector.on_fetched(Some(linked(-10, 1, 2, &[1, 1, 1]))) {
        Gathered::More(collector) => collector,
        other => panic!("{:?}", other),
    };
    assert_eq!(collector.wanted_hash(), trits(&[1, 1, 1], 243));
    let bundle = match collector.on_fetched(Some(linked(0, 2, 2, &[-1]))) {
        Gathered::Whole(bundle) => bundle,
        other => panic!("{:?}", other),
    };
    assert_eq!(bundle.len(), 3);
    assert_eq!(bundle.get(0).unwrap().value.0, 10);
    assert_eq!(bundle.get(1).unwrap().value.0, -10);
    assert_eq!(bundle.get(2).unwrap().index.0, 2);
    assert_eq!(validate_bundle(&bundle, &vec![true]), Ok(()));
}

#[test]
fn bundle_of_one_transaction_is_whole_at_once() {
    let collector = BundleCollector::new(trits(&[1], 243));
    assert!(matches!(collector.on_fetched(Some(linked(0, 0, 0, &[1, 1]))), Gathered::Whole(_)));
}

#[test]
fn bundle_is_not_gathered_without_a_transaction_or_with_a_foreign_one() {
    let collector = BundleCollector::new(trits(&[1], 243));
    assert!(matches!(collector.on_fetched(None), Gathered::Missing));
    let collector = match BundleCollector::new(trits(&[1], 243)).on_fetched(Some(linked(0, 0, 1, &[1, 1]))) {
        Gathered::More(collector) => collector,
        other => panic!("{:?}", other),
    };
    assert!(matches!(collector.on_fetched(None), Gathered::Missing));
    let collector = match BundleCollector::new(trits(&[1], 243)).on_fetched(Some(linked(0, 0, 1, &[1, 1]))) {
        Gathered::More(collector) => collector,
        other => panic!("{:?}", other),
    };
    let mut foreign = linked(0, 1, 1, &[-1]);
    foreign.bundle = bee::bundle::transaction::Hash::from_inner_unchecked(trits(&[-1, -1], 243));
    assert!(matches!(collector.on_fetched(Some(foreign)), Gathered::Foreign));
}

#[test]
fn drops_are_counted_by_their_kind() {
    let mut metrics = ProtocolMetrics::new();
    count_poll(&mut metrics, BatchPoll::Added);
    count_poll(&mut metrics, BatchPoll::Pending);
    count_poll(&mut metrics, BatchPoll::Ready(3));
    count_poll(&mut metrics, BatchPoll::Closed);
    assert_eq!(metrics, ProtocolMetrics::new());
    count_poll(&mut metrics, BatchPoll::Dropped(Dropped::Known));
    count_poll(&mut metrics, BatchPoll::Dropped(Dropped::Known));
    count_poll(&mut metrics, BatchPoll::Dropped(Dropped::Invalid));
    assert_eq!(metrics.known_transactions, 2);
    assert_eq!(metrics.invalid_transactions, 1);
    assert_eq!(metrics.new_transactions, 0);
}
