use filecrypt::archive::decrypt_archive;
use filecrypt::cipher::decrypt;
use filecrypt::cli::{DisplayPathBuf, Operation, SubCommand};
use filecrypt::decryption::{Decryption, InputMode};
use filecrypt::encryption::Encryption;
use filecrypt::error::{CryptError, IoCause, Target};
use filecrypt::keygen::{KeyGeneration, KeySize};
use filecrypt::keys::PrivateKey;
use filecrypt::pem::{load_private_key, load_public_key, private_key_to_pem, public_key_to_pem};
use filecrypt::workflow::{fail_with, Action, Event, PathStatus};

fn unhex(lines: &[&str]) -> Vec<u8> {
    let digits: Vec<u8> = lines
        .iter()
        .flat_map(|line| line.bytes())
        .map(|digit| match digit {
            b'0'..=b'9' => digit - b'0',
            b'a'..=b'f' => digit - b'a' + 10,
            other => panic!("not a hex digit: {}", other),
        })
        .collect();
    digits.chunks(2).map(|pair| pair[0] * 16 + pair[1]).collect()
}

/// A 1024-bit key.
fn first_key() -> PrivateKey {
    PrivateKey {
        modulus: unhex(&[
            "baf1eb54108d66b13962243d8fbe5f40e93419ed84238881b0565db2f2674e75",
            "c08e114da6a2b247eada9a027ff9c73c1519fe42160c831a7253cab85b5267ab",
            "77b3ae1fb43217e932eecbee3c888af46e28861306e048b245b0f3d1c26150af",
            "27612181e107f0f3cee06d28fd54ca73664f460554e3761b78fd8046713f9a91",
        ]),
        public_exponent: vec![1, 0, 1],
        private_exponent: unhex(&[
            "b8111ab45ad7df15007b3153ac04b5a523f8b8ceb41c887ba934606da15f3651",
            "9a9647533d8f541a9b9341b0d4710b4a8d3c5aac97291aad1f848145a4252f0c",
            "66af30fbe696f843c365c6ed5bfe9b8909f77704f00b26e94d011c5cb2d447f5",
            "fe1d873b58ee8ae2a2a6ce294a94126873ed2423694ae7673a89ff474e4c5341",
        ]),
        prime1: unhex(&[
            "dca8511588512eab98685e8bcaf57533a39eeccd7763fa070422cb8dceaaf30d",
            "5f769b4efab3e7b23b847779d62e713cf87c3d34a871132186ef7a2a72c818f3",
        ]),
        prime2: unhex(&[
            "d8e3478a6d4fae8bc29ab2e0f0bbce90d83f12d7d86b651f363718167153ff84",
            "f045e8adca0ac4f3722fe766d1981c2984a754aac9d7d1ababe898ecc6f95f6b",
        ]),
    }
}
/// A 512-bit key.
fn short_key() -> PrivateKey {
    PrivateKey {
        modulus: unhex(&[
            "b9a5b6a0c20ae2504482aee2bcbec9c66a2197b2ec353df63900f178b7d485e8",
            "c4351e9a00d999f0e61404008042198aa661f7d30aab27254004bf5ef90a0c5d",
        ]),
        public_exponent: vec![1, 0, 1],
        private_exponent: unhex(&[
            "28695439e6436c4440c599c02d89f26e48880b779d4771b7796d25233c10fd1c",
            "f100fd3b066e1c83a91af04196ac6e627b08956d475d82b825ad3042df2f7399",
        ]),
        prime1: unhex(&[
            "ea4111e861e4a60523e09e17662cd84bb0d5c66ba2ee2f1ca214a5a7472e8b9f",
        ]),
        prime2: unhex(&[
            "cae186c0fcdbfe1e1e5185571f5bc2409edaf6550d2cba33bfc1fbc8dc212683",
        ]),
    }
}
fn sample(len: usize) -> Vec<u8> {
    (0..len).map(|i| (i * 11 % 256) as u8).collect()
}

fn public_pem(key: &PrivateKey) -> String {
    public_key_to_pem(&key.public_key()).expect("pem")
}

/// The machine after the key files have been found free and the private
/// key has been handed out for writing.
fn generation_with_private_key_written() -> (KeyGeneration, Vec<u8>) {
    let (machine, _) = KeyGeneration::start(KeySize::Bytes128);
    let (machine, _) = machine.step(Event::Status(PathStatus::Directory));
    let (machine, _) = machine.step(Event::Status(PathStatus::Missing));
    let (machine, action) = machine.step(Event::Status(PathStatus::Missing));
    match action {
        Action::Write { target: Target::PrivateKeyFile, contents } => (machine, contents),
        other => panic!("unexpected {:?}", other),
    }
}

/// The machine after the key has been read.
fn encryption_with_key(key: &PrivateKey, output: &str, zip: bool) -> Encryption {
    let (machine, action) = Encryption::start(String::from(output), zip);
    assert!(matches!(action, Action::Probe(Target::Input)));
    let (machine, action) = machine.step(Event::Status(PathStatus::File));
    assert!(matches!(action, Action::Probe(Target::Output)));
    let (machine, action) = machine.step(Event::Status(PathStatus::Missing));
    assert!(matches!(action, Action::ReadText(Target::KeyFile)));
    let (machine, action) = machine.step(Event::Text(public_pem(key)));
    assert!(matches!(action, Action::ReadBytes(Target::Input)));
    machine
}

/// The machine after the key has been read.
fn decryption_with_key(key: &PrivateKey, mode: InputMode) -> Decryption {
    let (machine, action) = Decryption::start(mode);
    assert!(matches!(action, Action::Probe(Target::Input)));
    let (machine, action) = machine.step(Event::Status(PathStatus::File));
    assert!(matches!(action, Action::Probe(Target::Output)));
    let (machine, action) = machine.step(Event::Status(PathStatus::Missing));
    assert!(matches!(action, Action::ReadText(Target::KeyFile)));
    let (machine, action) = machine.step(Event::Text(private_key_to_pem(key).expect("pem")));
    assert!(matches!(action, Action::ReadBytes(Target::Input)));
    machine
}

#[test]
fn failed_request_carries_its_reason() {
    match fail_with(Event::Failed(String::from("disk full"))) {
        CryptError::IoFailure(IoCause::File(reason)) => assert_eq!(reason, "disk full"),
        other => panic!("unexpected {:?}", other),
    }
    assert!(matches!(fail_with(Event::Done), CryptError::IoFailure(IoCause::UnexpectedAnswer)));
    assert!(matches!(
        fail_with(Event::Status(PathStatus::File)),
        CryptError::IoFailure(IoCause::UnexpectedAnswer)
    ));
}

#[test]
fn generation_probes_the_destination_first() {
    let (machine, action) = KeyGeneration::start(KeySize::Bytes256);
    assert!(matches!(machine, KeyGeneration::ProbingDestination { size: KeySize::Bytes256 }));
    assert!(matches!(action, Action::Probe(Target::Destination)));
}

#[test]
fn generation_creates_a_missing_destination() {
    let (machine, _) = KeyGeneration::start(KeySize::Bytes128);
    let (machine, action) = machine.step(Event::Status(PathStatus::Missing));
    assert!(matches!(action, Action::CreateDirectory(Target::Destination)));
    let (machine, action) = machine.step(Event::Done);
    assert!(matches!(action, Action::Probe(Target::PrivateKeyFile)));
    assert!(matches!(machine, KeyGeneration::ProbingPrivateKey { .. }));
}

#[test]
fn generation_fails_where_the_destination_cannot_be_created() {
    let (machine, _) = KeyGeneration::start(KeySize::Bytes128);
    let (machine, _) = machine.step(Event::Status(PathStatus::Missing));
    let (machine, action) = machine.step(Event::Failed(String::from("read-only")));
    assert!(matches!(machine, KeyGeneration::Finished));
    match action {
        Action::Fail(CryptError::IoFailure(IoCause::File(reason))) => assert_eq!(reason, "read-only"),
        other => panic!("unexpected {:?}", other),
    }
}

#[test]
fn generation_refuses_a_destination_that_is_no_directory() {
    for status in [PathStatus::File, PathStatus::Other] {
        let (machine, _) = KeyGeneration::start(KeySize::Bytes128);
        let (machine, action) = machine.step(Event::Status(status));
        assert!(matches!(action, Action::Fail(CryptError::NotADirectory)));
        assert!(matches!(machine, KeyGeneration::Finished));
    }
}

#[test]
fn generation_stops_at_an_existing_private_key_file() {
    for status in [PathStatus::File, PathStatus::Directory, PathStatus::Other] {
        let (machine, _) = KeyGeneration::start(KeySize::Bytes128);
        let (machine, action) = machine.step(Event::Status(PathStatus::Directory));
        assert!(matches!(action, Action::Probe(Target::PrivateKeyFile)));
        let (machine, action) = machine.step(Event::Status(status));
        assert!(matches!(
            action,
            Action::Fail(CryptError::AlreadyExists(Target::PrivateKeyFile))
        ));
        assert!(matches!(machine, KeyGeneration::Finished));
    }
}

#[test]
fn generation_stops_at_an_existing_public_key_file() {
    let (machine, _) = KeyGeneration::start(KeySize::Bytes128);
    let (machine, _) = machine.step(Event::Status(PathStatus::Directory));
    let (machine, action) = machine.step(Event::Status(PathStatus::Missing));
    assert!(matches!(action, Action::Probe(Target::PublicKeyFile)));
    let (machine, action) = machine.step(Event::Status(PathStatus::File));
    assert!(matches!(action, Action::Fail(CryptError::AlreadyExists(Target::PublicKeyFile))));
    assert!(matches!(machine, KeyGeneration::Finished));
}

#[test]
fn generation_writes_the_private_key_then_the_public_key() {
    let (machine, private_text) = generation_with_private_key_written();
    let private = load_private_key(&String::from_utf8(private_text).expect("text")).expect("key");
    assert_eq!(private.public_key().size(), 128);
    let (machine, action) = machine.step(Event::Done);
    let public_text = match action {
        Action::Write { target: Target::PublicKeyFile, contents } => contents,
        other => panic!("unexpected {:?}", other),
    };
    let public = load_public_key(&String::from_utf8(public_text).expect("text")).expect("key");
    assert_eq!(public.modulus, private.modulus);
    assert_eq!(public.exponent, private.public_exponent);
    let (machine, action) = machine.step(Event::Done);
    assert!(matches!(action, Action::Succeed(Target::Destination)));
    assert!(matches!(machine, KeyGeneration::Finished));
}

#[test]
fn generation_fails_where_the_private_key_cannot_be_written() {
    let (machine, _) = generation_with_private_key_written();
    let (machine, action) = machine.step(Event::Failed(String::from("disk full")));
    assert!(matches!(machine, KeyGeneration::Finished));
    match action {
        Action::Fail(CryptError::IoFailure(IoCause::File(reason))) => assert_eq!(reason, "disk full"),
        other => panic!("unexpected {:?}", other),
    }
}

#[test]
fn generation_removes_the_private_key_where_the_public_key_cannot_be_written() {
    for answer in [Event::Done, Event::Failed(String::from("gone already"))] {
        let (machine, _) = generation_with_private_key_written();
        let (machine, _) = machine.step(Event::Done);
        let (machine, action) = machine.step(Event::Failed(String::from("disk full")));
        assert!(matches!(action, Action::Remove(Target::PrivateKeyFile)));
        assert!(matches!(machine, KeyGeneration::RemovingPrivateKey { .. }));
        let (machine, action) = machine.step(answer);
        assert!(matches!(machine, KeyGeneration::Finished));
        match action {
            Action::Fail(CryptError::IoFailure(IoCause::File(reason))) => {
                assert_eq!(reason, "disk full")
            }
            other => panic!("unexpected {:?}", other),
        }
    }
}

#[test]
fn a_finished_machine_asks_for_nothing_more() {
    let (machine, _) = KeyGeneration::start(KeySize::Bytes128);
    let (machine, _) = machine.step(Event::Status(PathStatus::File));
    let (machine, action) = machine.step(Event::Done);
    assert!(matches!(machine, KeyGeneration::Finished));
    assert!(matches!(action, Action::Fail(CryptError::IoFailure(IoCause::UnexpectedAnswer))));
}

#[test]
fn an_answer_of_the_wrong_kind_ends_the_run() {
    let (machine, _) = KeyGeneration::start(KeySize::Bytes128);
    let (machine, action) = machine.step(Event::Bytes(vec![1, 2, 3]));
    assert!(matches!(machine, KeyGeneration::Finished));
    assert!(matches!(action, Action::Fail(CryptError::IoFailure(IoCause::UnexpectedAnswer))));
    let (machine, _) = Encryption::start(String::from("out"), true);
    let (machine, action) = machine.step(Event::Text(String::from("?")));
    assert!(matches!(machine, Encryption::Finished));
    assert!(matches!(action, Action::Fail(CryptError::IoFailure(IoCause::UnexpectedAnswer))));
    let (machine, _) = Decryption::start(InputMode::Archive);
    let (machine, action) = machine.step(Event::Done);
    assert!(matches!(machine, Decryption::Finished));
    assert!(matches!(action, Action::Fail(CryptError::IoFailure(IoCause::UnexpectedAnswer))));
}

#[test]
fn encryption_needs_an_input_that_is_a_file() {
    let (machine, _) = Encryption::start(String::from("out.bin"), true);
    let (_, action) = machine.step(Event::Status(PathStatus::Missing));
    assert!(matches!(action, Action::Fail(CryptError::NotFound)));
    for status in [PathStatus::Directory, PathStatus::Other] {
        let (machine, _) = Encryption::start(String::from("out.bin"), true);
        let (machine, action) = machine.step(Event::Status(status));
        assert!(matches!(action, Action::Fail(CryptError::NotAFile)));
        assert!(matches!(machine, Encryption::Finished));
    }
}

#[test]
fn encryption_stops_at_an_existing_output() {
    for status in [PathStatus::File, PathStatus::Directory, PathStatus::Other] {
        let (machine, _) = Encryption::start(String::from("out.bin"), true);
        let (machine, _) = machine.step(Event::Status(PathStatus::File));
        let (machine, action) = machine.step(Event::Status(status));
        assert!(matches!(action, Action::Fail(CryptError::AlreadyExists(Target::Output))));
        assert!(matches!(machine, Encryption::Finished));
    }
}

#[test]
fn encryption_fails_on_a_key_file_that_cannot_be_read_or_decoded() {
    let (machine, _) = Encryption::start(String::from("out.bin"), true);
    let (machine, _) = machine.step(Event::Status(PathStatus::File));
    let (machine, _) = machine.step(Event::Status(PathStatus::Missing));
    let (_, action) = machine.step(Event::Failed(String::from("no such file")));
    assert!(matches!(action, Action::Fail(CryptError::IoFailure(IoCause::File(_)))));
    let (machine, _) = Encryption::start(String::from("out.bin"), true);
    let (machine, _) = machine.step(Event::Status(PathStatus::File));
    let (machine, _) = machine.step(Event::Status(PathStatus::Missing));
    let (machine, action) = machine.step(Event::Text(String::from("no key")));
    assert!(matches!(action, Action::Fail(CryptError::KeyDecodeFailure { .. })));
    assert!(matches!(machine, Encryption::Finished));
}

#[test]
fn encryption_writes_one_block_where_the_input_fits() {
    let key = first_key();
    let machine = encryption_with_key(&key, "out.bin", true);
    let input = sample(100);
    let (machine, action) = machine.step(Event::Bytes(input.clone()));
    let block = match action {
        Action::Write { target: Target::Output, contents } => contents,
        other => panic!("unexpected {:?}", other),
    };
    assert_eq!(block.len(), 128);
    assert_eq!(decrypt(&key, &block).expect("plaintext"), input);
    let (machine, action) = machine.step(Event::Done);
    assert!(matches!(action, Action::Succeed(Target::Output)));
    assert!(matches!(machine, Encryption::Finished));
}

#[test]
fn encryption_reports_a_write_that_failed() {
    let key = first_key();
    let machine = encryption_with_key(&key, "out.bin", true);
    let (machine, _) = machine.step(Event::Bytes(sample(10)));
    let (machine, action) = machine.step(Event::Failed(String::from("disk full")));
    assert!(matches!(action, Action::Fail(CryptError::IoFailure(IoCause::File(_)))));
    assert!(matches!(machine, Encryption::Finished));
}

#[test]
fn encryption_probes_the_archive_path_before_it_chunks() {
    let key = short_key();
    let machine = encryption_with_key(&key, "out.bin", true);
    let input = sample(200);
    let (machine, action) = machine.step(Event::Bytes(input.clone()));
    assert!(matches!(action, Action::Probe(Target::ArchiveOutput)));
    let (machine, action) = machine.step(Event::Status(PathStatus::Missing));
    let archive = match action {
        Action::Write { target: Target::ArchiveOutput, contents } => contents,
        other => panic!("unexpected {:?}", other),
    };
    assert_eq!(decrypt_archive(&key, archive).expect("plaintext"), input);
    let (machine, action) = machine.step(Event::Done);
    assert!(matches!(action, Action::Succeed(Target::ArchiveOutput)));
    assert!(matches!(machine, Encryption::Finished));
}

#[test]
fn encryption_stops_at_an_existing_archive() {
    let key = short_key();
    let machine = encryption_with_key(&key, "out.bin", true);
    let (machine, _) = machine.step(Event::Bytes(sample(200)));
    let (machine, action) = machine.step(Event::Status(PathStatus::File));
    assert!(matches!(action, Action::Fail(CryptError::AlreadyExists(Target::ArchiveOutput))));
    assert!(matches!(machine, Encryption::Finished));
}

#[test]
fn encryption_without_chunks_refuses_a_large_input() {
    let key = first_key();
    let machine = encryption_with_key(&key, "out.bin", false);
    let (machine, action) = machine.step(Event::Bytes(sample(200)));
    match action {
        Action::Fail(CryptError::MessageTooLarge { input_len, capacity }) => {
            assert_eq!((input_len, capacity), (200, 117));
        }
        other => panic!("unexpected {:?}", other),
    }
    assert!(matches!(machine, Encryption::Finished));
}

#[test]
fn decryption_needs_an_input_that_is_a_file() {
    let (machine, _) = Decryption::start(InputMode::SingleCiphertext);
    let (_, action) = machine.step(Event::Status(PathStatus::Missing));
    assert!(matches!(action, Action::Fail(CryptError::NotFound)));
    let (machine, _) = Decryption::start(InputMode::SingleCiphertext);
    let (_, action) = machine.step(Event::Status(PathStatus::Directory));
    assert!(matches!(action, Action::Fail(CryptError::NotAFile)));
}

#[test]
fn decryption_stops_at_an_existing_output() {
    let (machine, _) = Decryption::start(InputMode::Archive);
    let (machine, _) = machine.step(Event::Status(PathStatus::File));
    let (machine, action) = machine.step(Event::Status(PathStatus::File));
    assert!(matches!(action, Action::Fail(CryptError::AlreadyExists(Target::Output))));
    assert!(matches!(machine, Decryption::Finished));
}

#[test]
fn decryption_fails_on_text_that_is_no_private_key() {
    let (machine, _) = Decryption::start(InputMode::SingleCiphertext);
    let (machine, _) = machine.step(Event::Status(PathStatus::File));
    let (machine, _) = machine.step(Event::Status(PathStatus::Missing));
    let (machine, action) = machine.step(Event::Text(public_pem(&first_key())));
    assert!(matches!(action, Action::Fail(CryptError::KeyDecodeFailure { .. })));
    assert!(matches!(machine, Decryption::Finished));
}

#[test]
fn decryption_writes_the_plaintext_of_a_single_ciphertext() {
    let key = first_key();
    let encryption = encryption_with_key(&key, "out.bin", true);
    let (_, action) = encryption.step(Event::Bytes(b"the plaintext".to_vec()));
    let block = match action {
        Action::Write { contents, .. } => contents,
        other => panic!("unexpected {:?}", other),
    };
    let machine = decryption_with_key(&key, InputMode::SingleCiphertext);
    let (machine, action) = machine.step(Event::Bytes(block));
    match action {
        Action::Write { target: Target::Output, contents } => {
            assert_eq!(contents, b"the plaintext".to_vec())
        }
        other => panic!("unexpected {:?}", other),
    }
    let (machine, action) = machine.step(Event::Done);
    assert!(matches!(action, Action::Succeed(Target::Output)));
    assert!(matches!(machine, Decryption::Finished));
}

#[test]
fn decryption_of_a_bad_ciphertext_writes_nothing() {
    let key = first_key();
    let machine = decryption_with_key(&key, InputMode::SingleCiphertext);
    let (machine, action) = machine.step(Event::Bytes(vec![7u8; 128]));
    assert!(matches!(action, Action::Fail(CryptError::DecryptionFailure(_))));
    assert!(matches!(machine, Decryption::Finished));
}

#[test]
fn decryption_of_bytes_that_are_no_archive_writes_nothing() {
    let key = short_key();
    let machine = decryption_with_key(&key, InputMode::Archive);
    let (machine, action) = machine.step(Event::Bytes(vec![7u8; 128]));
    assert!(matches!(action, Action::Fail(CryptError::IoFailure(IoCause::Archive(_)))));
    assert!(matches!(machine, Decryption::Finished));
}

#[test]
fn commands_begin_with_a_probe() {
    let generate = SubCommand::Gen {
        output_directory: DisplayPathBuf::new(String::from("keys")),
        name: String::from("alice"),
        key_size_in_bytes: 256,
    };
    match Operation::start(generate) {
        Some((Operation::Gen(KeyGeneration::ProbingDestination { size }), action)) => {
            assert_eq!(size, KeySize::Bytes256);
            assert!(matches!(action, Action::Probe(Target::Destination)));
        }
        other => panic!("unexpected {:?}", other),
    }
    let encrypt = SubCommand::Enc {
        public_pem_file: String::from("alice.PUB.pem"),
        input_filename: String::from("in.txt"),
        output_filename: String::from("out.bin"),
        zip: false,
    };
    match Operation::start(encrypt) {
        Some((Operation::Enc(Encryption::ProbingInput { output, zip }), action)) => {
            assert_eq!(output, "out.bin");
            assert!(!zip);
            assert!(matches!(action, Action::Probe(Target::Input)));
        }
        other => panic!("unexpected {:?}", other),
    }
}

#[test]
fn decryption_command_reads_the_mode_off_the_input() {
    for (input, expected) in [("in.zip", InputMode::Archive), ("in.bin", InputMode::SingleCiphertext)] {
        let command = SubCommand::Dec {
            private_pem_file: String::from("alice.PRIV.pem"),
            input_filename: String::from(input),
            output_filename: String::from("out.txt"),
        };
        match Operation::start(command) {
            Some((Operation::Dec(Decryption::ProbingInput { mode }), action)) => {
                assert_eq!(mode, expected);
                assert!(matches!(action, Action::Probe(Target::Input)));
            }
            other => panic!("unexpected {:?}", other),
        }
    }
}

#[test]
fn a_key_size_that_is_not_offered_begins_nothing() {
    for size in [0usize, 64, 127, 1024] {
        let command = SubCommand::Gen {
            output_directory: DisplayPathBuf::new(String::from("keys")),
            name: String::from("alice"),
            key_size_in_bytes: size,
        };
        assert!(Operation::start(command).is_none());
    }
}

#[test]
fn a_command_steps_as_its_machine_does() {
    let command = SubCommand::Dec {
        private_pem_file: String::from("alice.PRIV.pem"),
        input_filename: String::from("in.bin"),
        output_filename: String::from("out.txt"),
    };
    let (operation, _) = Operation::start(command).expect("operation");
    let (operation, action) = operation.step(Event::Status(PathStatus::File));
    assert!(matches!(action, Action::Probe(Target::Output)));
    let (operation, action) = operation.step(Event::Status(PathStatus::Directory));
    assert!(matches!(action, Action::Fail(CryptError::AlreadyExists(Target::Output))));
    assert!(matches!(operation, Operation::Dec(Decryption::Finished)));
}
