use bee::node::conf::{LogLevel, NodeConfBuilder};
use bee::payload::error::Error;
use bee::payload::essence::{TransactionEssence, TransactionEssenceBuilder};
use bee::payload::input::{Input, TransactionId, UTXOInput};
use bee::payload::milestone::{Indexation, Milestone, Payload};
use bee::payload::output::{Output, SignatureLockedSingleOutput};
use bee::payload::packable::PackableError;
use bee::payload::unlock::{
    Ed25519Signature, ReferenceUnlock, SignatureUnlock, UnlockBlock, WotsSignature,
};
use bee::peering::config::StaticPeeringConfigBuilder;
use bee::protocol::config::ProtocolConfigBuilder;
use bee::signing::ed25519::{PrivateKey, PublicKey, Seed, Signature};
use bee::signing::wots::{
    WotsError, WotsSecurityLevel, WotsSpongePrivateKeyGeneratorBuilder,
};
use bee::crypto::sponge::{Sponge, SpongeError};
use blake2::digest::{Update, VariableOutput};

fn input(byte: u8, index: u16) -> Input {
    Input::UTXO(UTXOInput::new(TransactionId(vec![byte; 32]), index).unwrap())
}

fn output(byte: u8, amount: u64) -> Output {
    Output::SignatureLockedSingle(SignatureLockedSingleOutput { address: vec![byte; 32], amount })
}

#[test]
fn utxo_input_keeps_its_place_below_127() {
    let ok = UTXOInput::new(TransactionId(vec![0xab; 32]), 126).unwrap();
    assert_eq!(ok.index(), 126);
    assert_eq!(ok.id().0, vec![0xab; 32]);
    assert!(matches!(
        UTXOInput::new(TransactionId(vec![0; 32]), 127),
        Err(Error::InvalidIndex)
    ));
    assert_eq!(ok.packed_len(), 34);
    let text = ok.to_string();
    assert_eq!(text.len(), 68);
    assert_eq!(&text[..4], "abab");
    assert_eq!(&text[64..], "7e00");
}

#[test]
fn essence_needs_an_input_and_an_output() {
    assert!(matches!(TransactionEssence::builder().finish(), Err(Error::NoInput)));
    assert!(matches!(
        TransactionEssenceBuilder::new().add_output(output(1, 1)).finish(),
        Err(Error::NoInput)
    ));
    assert!(matches!(
        TransactionEssenceBuilder::new().add_input(input(1, 1)).finish(),
        Err(Error::NoOutput)
    ));
    let essence = TransactionEssenceBuilder::new()
        .add_input(input(1, 1))
        .add_input(input(2, 0))
        .add_output(output(3, 9))
        .finish()
        .unwrap();
    assert_eq!(essence.inputs().len(), 2);
    assert_eq!(essence.outputs().len(), 1);
    assert!(essence.payload().is_none());
}

#[test]
fn essence_is_packed_and_read_back() {
    let essence = TransactionEssenceBuilder::new()
        .add_input(input(1, 0x12))
        .add_output(output(3, 0x0102_0304_0506_0708))
        .add_output(output(4, 1))
        .with_payload(Payload::Indexation(Indexation { index: vec![9, 8], data: vec![7; 5] }))
        .finish()
        .unwrap();
    let mut bytes = vec![0xee];
    essence.pack(&mut bytes).unwrap();
    let mut expected = vec![0xee, 0, 1, 0, 0];
    expected.extend(vec![1u8; 32]);
    expected.extend([0x12, 0]);
    expected.extend([2, 0]);
    expected.extend([0, 1]);
    expected.extend(vec![3u8; 32]);
    expected.extend([8, 7, 6, 5, 4, 3, 2, 1]);
    expected.extend([0, 1]);
    expected.extend(vec![4u8; 32]);
    expected.extend([1, 0, 0, 0, 0, 0, 0, 0]);
    expected.extend([17, 0, 0, 0]);
    expected.extend([2, 0, 0, 0, 2, 0, 9, 8, 5, 0, 0, 0, 7, 7, 7, 7, 7]);
    assert_eq!(bytes, expected);

    let mut pos = 1usize;
    let read = TransactionEssence::unpack(&bytes, &mut pos).unwrap();
    assert_eq!(pos, bytes.len());
    assert_eq!(read.inputs().len(), 1);
    assert_eq!(read.outputs().len(), 2);
    match &read.inputs()[0] {
        Input::UTXO(input) => {
            assert_eq!(input.index(), 0x12);
            assert_eq!(input.id().0, vec![1u8; 32]);
        }
    }
    match &read.outputs()[0] {
        Output::SignatureLockedSingle(output) => {
            assert_eq!(output.amount, 0x0102_0304_0506_0708);
            assert_eq!(output.address, vec![3u8; 32]);
        }
    }
    match read.payload() {
        Some(Payload::Indexation(indexation)) => {
            assert_eq!(indexation.index, vec![9, 8]);
            assert_eq!(indexation.data, vec![7; 5]);
        }
        _ => panic!("the payload is indexed data"),
    }
}

#[test]
fn essence_that_is_cut_short_or_mistyped_is_refused() {
    let essence = TransactionEssenceBuilder::new()
        .add_input(input(1, 0))
        .add_output(output(3, 9))
        .finish()
        .unwrap();
    let mut bytes = Vec::new();
    essence.pack(&mut bytes).unwrap();
    assert_eq!(bytes.len(), 1 + 2 + 35 + 2 + 42 + 4);
    for cut in 0..bytes.len() {
        let mut pos = 0usize;
        assert!(matches!(
            TransactionEssence::unpack(&bytes[..cut].to_vec(), &mut pos),
            Err(PackableError::Io)
        ));
    }
    let mut wrong = bytes.clone();
    wrong[0] = 1;
    let mut pos = 0usize;
    assert!(matches!(
        TransactionEssence::unpack(&wrong, &mut pos),
        Err(PackableError::InvalidType)
    ));
    let mut wrong = bytes.clone();
    wrong[3] = 1;
    let mut pos = 0usize;
    assert!(matches!(
        TransactionEssence::unpack(&wrong, &mut pos),
        Err(PackableError::InvalidVariant)
    ));
    // A payload whose length is announced wrongly.
    let milestone = Payload::Milestone(Milestone {
        index: 5,
        timestamp: 6,
        merkle_proof: vec![1; 64],
        signature: vec![2; 64],
    });
    let essence = TransactionEssenceBuilder::new()
        .add_input(input(1, 0))
        .add_output(output(3, 9))
        .with_payload(milestone)
        .finish()
        .unwrap();
    let mut bytes = Vec::new();
    essence.pack(&mut bytes).unwrap();
    assert_eq!(&bytes[82..86], &[144, 0, 0, 0]);
    let mut pos = 0usize;
    match TransactionEssence::unpack(&bytes, &mut pos).unwrap().payload() {
        Some(Payload::Milestone(milestone)) => {
            assert_eq!(milestone.index, 5);
            assert_eq!(milestone.timestamp, 6);
            assert_eq!(milestone.signature, vec![2; 64]);
        }
        _ => panic!("the payload is a milestone"),
    }
    bytes[82] = 143;
    let mut pos = 0usize;
    assert!(matches!(
        TransactionEssence::unpack(&bytes, &mut pos),
        Err(PackableError::InvalidAnnouncedLen)
    ));
}

#[test]
fn payload_lengths() {
    let indexation = Payload::Indexation(Indexation { index: vec![1], data: vec![] });
    assert_eq!(indexation.packed_len(), Some(11));
    let mut bytes = Vec::new();
    indexation.pack(&mut bytes).unwrap();
    assert_eq!(bytes, vec![2, 0, 0, 0, 1, 0, 1, 0, 0, 0, 0]);
    let too_long = Payload::Indexation(Indexation { index: vec![0; 65536], data: vec![] });
    let mut bytes = vec![4];
    assert_eq!(too_long.pack(&mut bytes), Err(PackableError::InvalidAnnouncedLen));
    assert_eq!(bytes, vec![4]);
    let mut pos = 0usize;
    assert!(matches!(
        Payload::unpack(&vec![3, 0, 0, 0], &mut pos),
        Err(PackableError::InvalidVariant)
    ));
}

#[test]
fn unlock_blocks_are_packed_and_read_back() {
    let wots = UnlockBlock::from_signature(SignatureUnlock::from_wots(WotsSignature(vec![
        -1, 0, 1,
    ])));
    let mut bytes = Vec::new();
    wots.pack(&mut bytes).unwrap();
    assert_eq!(bytes, vec![0, 0, 3, 0, 0, 0, 255, 0, 1]);
    let mut pos = 0usize;
    match UnlockBlock::unpack(&bytes, &mut pos).unwrap() {
        UnlockBlock::Signature(SignatureUnlock::Wots(signature)) => {
            assert_eq!(signature.0, vec![-1, 0, 1])
        }
        _ => panic!("the block is a Winternitz signature"),
    }
    assert_eq!(pos, 9);

    let ed = UnlockBlock::from_signature(SignatureUnlock::from_ed25519(Ed25519Signature {
        public_key: vec![5; 32],
        signature: vec![6; 64],
    }));
    let mut bytes = Vec::new();
    ed.pack(&mut bytes).unwrap();
    assert_eq!(bytes.len(), 98);
    assert_eq!(&bytes[..3], &[0, 1, 5]);
    let mut pos = 0usize;
    match UnlockBlock::unpack(&bytes, &mut pos).unwrap() {
        UnlockBlock::Signature(SignatureUnlock::Ed25519(signature)) => {
            assert_eq!(signature.public_key, vec![5; 32]);
            assert_eq!(signature.signature, vec![6; 64]);
        }
        _ => panic!("the block is an Ed25519 signature"),
    }

    let reference = UnlockBlock::from_reference(ReferenceUnlock { index: 0x0201 });
    let mut bytes = Vec::new();
    reference.pack(&mut bytes).unwrap();
    assert_eq!(bytes, vec![1, 1, 2]);
    let mut pos = 0usize;
    assert!(matches!(
        UnlockBlock::unpack(&bytes, &mut pos),
        Ok(UnlockBlock::Reference(ReferenceUnlock { index: 0x0201 }))
    ));
    let mut pos = 0usize;
    assert!(matches!(
        UnlockBlock::unpack(&vec![2, 0, 0], &mut pos),
        Err(PackableError::InvalidVariant)
    ));
    let mut pos = 0usize;
    assert!(matches!(
        UnlockBlock::unpack(&vec![0, 2, 0], &mut pos),
        Err(PackableError::InvalidVariant)
    ));
    let mut pos = 0usize;
    assert!(matches!(UnlockBlock::unpack(&vec![1, 0], &mut pos), Err(PackableError::Io)));
}

#[test]
fn errors_say_what_is_wrong() {
    assert_eq!(Error::AmountError.to_string(), "Invalid amount provided.");
    assert_eq!(Error::CountError.to_string(), "Invalid count number provided.");
    assert_eq!(Error::NoInput.to_string(), "No input provided.");
    assert_eq!(Error::NoOutput.to_string(), "No output provided.");
    assert_eq!(Error::DuplicateError.to_string(), "The object in the set must be unique.");
    assert_eq!(Error::InvalidIndex.to_string(), "Invalid index provided.");
    assert_eq!(
        Error::OrderError.to_string(),
        "The vector is not sorted by lexicographical order."
    );
    assert_eq!(Error::HashError.to_string(), "The format of provided hash is not correct.");
    assert_eq!(
        Error::PathError.to_string(),
        "The format of provided BIP32 path is not correct."
    );
    assert_eq!(Error::MissingField("inputs").to_string(), "Missing required field: inputs.");
    assert_eq!(
        Error::from_signing(bee::signing::ed25519::Error::VerifyError).to_string(),
        "Failed to verify signature."
    );
    assert_eq!(
        Error::SigningError(bee::signing::ed25519::Error::ConvertError).to_string(),
        "Failed to convert bytes to target primitives."
    );
    assert_eq!(
        Error::SigningError(bee::signing::ed25519::Error::PrivateKeyError).to_string(),
        "Failed to generate private key."
    );
}

#[test]
fn node_conf_reads_the_log_level() {
    assert_eq!(NodeConfBuilder::new().build().log_level, LogLevel::Info);
    assert_eq!(NodeConfBuilder::new().log_level("trace").build().log_level, LogLevel::Trace);
    assert_eq!(NodeConfBuilder::new().log_level("debug").build().log_level, LogLevel::Debug);
    assert_eq!(NodeConfBuilder::new().log_level("info").build().log_level, LogLevel::Info);
    assert_eq!(NodeConfBuilder::new().log_level("warn").build().log_level, LogLevel::Warn);
    assert_eq!(NodeConfBuilder::new().log_level("error").build().log_level, LogLevel::Error);
    assert_eq!(NodeConfBuilder::new().log_level("loud").build().log_level, LogLevel::Info);
    let conf = NodeConfBuilder::new().protocol(ProtocolConfigBuilder::new().mwm(9)).build();
    assert_eq!(conf.protocol.mwm, 9);
    assert_eq!(bee::node::conf::CONF_PATH, "./conf.toml");
}

#[test]
fn static_peering_config_defaults_and_peers() {
    let config = StaticPeeringConfigBuilder::new().build();
    assert_eq!(config.limit(), 5);
    assert!(config.peers().is_empty());
    let config = StaticPeeringConfigBuilder::new()
        .limit(2)
        .add_peer("tcp://a:1")
        .add_peer("tcp://b:2")
        .build();
    assert_eq!(config.limit(), 2);
    assert_eq!(config.peers(), &vec![String::from("tcp://a:1"), String::from("tcp://b:2")]);
}

#[test]
fn test_new_seed() {
    let seed = Seed::rand();

    // check if Seed generates different seeds in consequent calls.
    assert_ne!(seed.as_bytes(), Seed::rand().as_bytes());

    // check if private key derivation logic is deterministic
    assert_eq!(
        PrivateKey::generate_from_seed(&seed, 0).unwrap().as_bytes(),
        PrivateKey::generate_from_seed(&seed, 0).unwrap().as_bytes()
    );
    assert_eq!(
        PrivateKey::generate_from_seed(&seed, 1337).unwrap().as_bytes(),
        PrivateKey::generate_from_seed(&seed, 1337).unwrap().as_bytes()
    );

    // check if the generated keypair can sign and verify
    let private_key = PrivateKey::generate_from_seed(&seed, 7).unwrap();
    let public_key = private_key.generate_public_key();
    let signature = private_key.sign(&vec![1, 3, 3, 8]).unwrap();
    public_key.verify(&vec![1, 3, 3, 8], &signature).unwrap();
}

#[test]
fn private_key_is_the_seed_mixed_with_the_digest_of_the_index() {
    let seed = Seed::from_bytes(&(0..32).collect::<Vec<u8>>()).unwrap();
    let index: u64 = 0x0102_0304_0506_0708;
    let key = PrivateKey::generate_from_seed(&seed, index).unwrap();
    let mut hash = blake2::VarBlake2b::new(32).unwrap();
    hash.update(index.to_le_bytes());
    let digest = hash.finalize_boxed();
    let expected: Vec<u8> = (0..32u8).zip(digest.iter()).map(|(s, d)| s ^ d).collect();
    assert_eq!(key.to_bytes().to_vec(), expected);
    assert_ne!(key.to_bytes(), seed.to_bytes());
    assert!(Seed::from_bytes(&vec![0; 31]).is_err());
    let mut seed = seed;
    seed.zeroize();
    assert_eq!(seed.to_bytes(), [0u8; 32]);
    let mut key = key;
    key.zeroize();
    assert_eq!(key.to_bytes(), [0u8; 32]);
    assert!(PrivateKey::from_bytes(&vec![0; 33]).is_err());
    assert_eq!(PrivateKey::from_bytes(&expected).unwrap().as_bytes().to_vec(), expected);
}

fn unhex(text: &str) -> Vec<u8> {
    hex::decode(text).unwrap()
}

#[test]
fn ed25519_known_answer() {
    let secret = unhex("9d61b19deffd5a60ba844af492ec2cc44449c5697b326919703bac031cae7f60");
    let public = unhex("d75a980182b10ab7d54bfed3c964073a0ee172f3daa62325af021a68f707511a");
    let signature = unhex(
        "e5564300c360ac729086e2cc806e828a84877f1eb8e5d974d873e065224901555fb8821590a33bacc61e39701cf9b46bd25bf5f0595bbe24655141438e7a100b",
    );
    let key = PrivateKey::from_bytes(&secret).unwrap();
    let derived = key.generate_public_key();
    assert_eq!(derived.to_bytes().to_vec(), public);
    assert_eq!(derived.as_bytes().to_vec(), public);
    let signed = key.sign(&vec![]).unwrap();
    assert_eq!(signed.to_bytes().to_vec(), signature);
    assert_eq!(derived.verify(&vec![], &signed), Ok(true));
    assert_eq!(
        derived.verify(&vec![1], &signed),
        Err(bee::signing::ed25519::Error::VerifyError)
    );
    let parsed = PublicKey::from_bytes(&public).unwrap();
    assert_eq!(parsed.verify(&vec![], &signed), Ok(true));
    assert!(PublicKey::from_bytes(&public[..31].to_vec()).is_err());
    let mut array = [0u8; 64];
    array.copy_from_slice(&signature);
    assert_eq!(Signature::from_bytes(array).unwrap().to_bytes(), array);
    array[63] |= 0x80;
    assert!(Signature::from_bytes(array).is_err());
}

#[derive(Default)]
struct CountingSponge {
    state: Vec<i8>,
}

impl Sponge for CountingSponge {
    fn reset(&mut self) {
        self.state.clear();
    }

    fn absorb(&mut self, input: &Vec<i8>) -> Result<(), SpongeError> {
        if input.is_empty() {
            return Err(SpongeError);
        }
        self.state.extend_from_slice(input);
        Ok(())
    }

    fn squeeze_into(&mut self, buf: &mut Vec<i8>) -> Result<(), SpongeError> {
        for (i, t) in buf.iter_mut().enumerate() {
            *t = self.state[i % self.state.len()];
        }
        Ok(())
    }
}

#[test]
fn wots_key_has_a_fragment_for_each_level() {
    assert_eq!(WotsSecurityLevel::Low.fragments(), 1);
    assert_eq!(WotsSecurityLevel::Medium.fragments(), 2);
    assert_eq!(WotsSecurityLevel::High.fragments(), 3);
    assert!(matches!(
        WotsSpongePrivateKeyGeneratorBuilder::<CountingSponge>::new().build(),
        Err(WotsError::MissingSecurityLevel)
    ));
    let generator = WotsSpongePrivateKeyGeneratorBuilder::<CountingSponge>::new()
        .security_level(WotsSecurityLevel::Medium)
        .build()
        .unwrap();
    let key = generator.generate_from_entropy(&vec![1, -1, 0]).unwrap();
    assert_eq!(key.state().len(), 2 * 6561);
    assert_eq!(&key.state()[..4], &[1, -1, 0, 1]);
    assert!(matches!(
        generator.generate_from_entropy(&vec![]),
        Err(WotsError::FailedSpongeOperation)
    ));
}

#[test]
fn packed_lengths_are_the_lengths_of_the_bytes() {
    let essence = TransactionEssenceBuilder::new()
        .add_input(input(1, 0))
        .add_input(input(2, 1))
        .add_output(output(3, 9))
        .with_payload(Payload::Indexation(Indexation { index: vec![1, 2, 3], data: vec![4] }))
        .finish()
        .unwrap();
    let mut bytes = Vec::new();
    essence.pack(&mut bytes).unwrap();
    assert_eq!(essence.packed_len(), Some(bytes.len()));
    assert_eq!(bytes.len(), 1 + 2 + 70 + 2 + 42 + 4 + 14);
    for block in [
        UnlockBlock::from_reference(ReferenceUnlock { index: 3 }),
        UnlockBlock::from_signature(SignatureUnlock::from_wots(WotsSignature(vec![1; 9]))),
        UnlockBlock::from_signature(SignatureUnlock::from_ed25519(Ed25519Signature {
            public_key: vec![0; 32],
            signature: vec![0; 64],
        })),
    ] {
        let mut bytes = Vec::new();
        block.pack(&mut bytes).unwrap();
        assert_eq!(block.packed_len(), Some(bytes.len()));
    }
}
