use giopg::secretbox::decrypt;
use giopg::secretbox::encrypt;
use giopg::secretbox::strip_random_bytes;
use giopg::secretbox::write_random_bytes;
use giopg::secretbox::DecryptError;
use giopg::secretbox::ENCRYPT_PREFIX_LENGTH;
use giopg::secretbox::ENCRYPT_SUFFIX_LENGTH;
use giopg::secretbox::PREFIX_LENGTH;
use giopg::secretbox::TAG_LENGTH;
use giopg::secretbox::TOTAL_OVERHEAD;

#[test]
fn test_encrypt_decrypt() {
    sodiumoxide::init().expect("sodiumoxide initialization failed");

    let passphrase = "My_P4ssPhr4s3_Str1ng";
    let msg = "My secret content";

    let enc_output = encrypt(passphrase, msg.as_bytes());
    let dec_result = decrypt(passphrase, &enc_output);

    match dec_result {
        Ok(dec_output) => assert_eq!(dec_output, msg.as_bytes()),
        Err(err) => panic!("decrypt failed: {:?}", err),
    }
}

#[test]
fn test_encrypt_decrypt_long_message() {
    sodiumoxide::init().expect("sodiumoxide initialization failed");

    let passphrase = "My_P4ssPhr4s3_Str1ng";
    let msg = "Ab".repeat(15 * 1024);

    let enc_output = encrypt(passphrase, msg.as_bytes());
    let dec_result = decrypt(passphrase, &enc_output);

    match dec_result {
        Ok(dec_output) => assert_eq!(dec_output, msg.as_bytes()),
        Err(err) => panic!("decrypt failed: {:?}", err),
    }
}

#[test]
fn test_encrypt_decrypt_wrong_decryption_passphrase() {
    sodiumoxide::init().expect("sodiumoxide initialization failed");

    let passphrase = "My_P4ssPhr4s3_Str1ng";
    let msg = "My secret content";

    let wrong_passphrase = "Blah";

    let enc_output = encrypt(passphrase, msg.as_bytes());
    let dec_result = decrypt(wrong_passphrase, &enc_output);

    match dec_result {
        Ok(_) => panic!("decrypt should fail with wrong passphrase"),
        Err(_) => (),
    }
}

#[test]
fn test_empty_payload_round_trip() {
    sodiumoxide::init().expect("sodiumoxide initialization failed");

    let passphrase = "My_P4ssPhr4s3_Str1ng";
    let payload: Vec<u8> = Vec::new();

    let enc_output = encrypt(passphrase, &payload);
    assert_eq!(enc_output.len(), TOTAL_OVERHEAD);

    let dec_output = decrypt(passphrase, &enc_output).expect("decrypt failed");
    assert_eq!(dec_output.len(), 0);
}

#[test]
fn test_empty_passphrase_round_trip() {
    sodiumoxide::init().expect("sodiumoxide initialization failed");

    let msg = "content under the default empty passphrase";

    let enc_output = encrypt("", msg.as_bytes());
    let dec_output = decrypt("", &enc_output).expect("decrypt failed");
    assert_eq!(dec_output, msg.as_bytes());
}

#[test]
fn test_ciphertext_length_invariant() {
    sodiumoxide::init().expect("sodiumoxide initialization failed");

    assert_eq!(
        TOTAL_OVERHEAD,
        PREFIX_LENGTH + ENCRYPT_PREFIX_LENGTH + ENCRYPT_SUFFIX_LENGTH + 2 * TAG_LENGTH
    );
    assert_eq!(TOTAL_OVERHEAD, 441);

    let passphrase = "My_P4ssPhr4s3_Str1ng";
    for n in [0usize, 1, 17, 256, 10_000] {
        let payload = vec![7u8; n];
        let enc_output = encrypt(passphrase, &payload);
        assert_eq!(enc_output.len(), n + TOTAL_OVERHEAD);
    }
}

#[test]
fn test_encrypt_is_not_deterministic() {
    sodiumoxide::init().expect("sodiumoxide initialization failed");

    let passphrase = "My_P4ssPhr4s3_Str1ng";
    let msg = "My secret content";

    let first = encrypt(passphrase, msg.as_bytes());
    let second = encrypt(passphrase, msg.as_bytes());

    assert_ne!(first, second);
    assert_eq!(decrypt(passphrase, &first).expect("decrypt failed"), msg.as_bytes());
    assert_eq!(decrypt(passphrase, &second).expect("decrypt failed"), msg.as_bytes());
}

#[test]
fn test_concrete_scenario() {
    sodiumoxide::init().expect("sodiumoxide initialization failed");

    let passphrase = "My_P4ssPhr4s3_Str1ng";
    let msg = "My secret content";

    let enc_output = encrypt(passphrase, msg.as_bytes());
    assert!(enc_output.len() > 18);
    assert_eq!(enc_output.len(), msg.len() + TOTAL_OVERHEAD);

    let dec_output = decrypt(passphrase, &enc_output).expect("decrypt failed");
    assert_eq!(dec_output, msg.as_bytes());

    assert!(decrypt("Blah", &enc_output).is_err());
}

#[test]
fn test_tampered_ciphertext_is_rejected() {
    sodiumoxide::init().expect("sodiumoxide initialization failed");

    let passphrase = "My_P4ssPhr4s3_Str1ng";
    let msg = "tamper target";

    let enc_output = encrypt(passphrase, msg.as_bytes());

    // Every byte of the authenticated part: flipping any one of them must
    // turn decryption into the opaque error.
    for i in PREFIX_LENGTH..enc_output.len() {
        let mut tampered = enc_output.clone();
        tampered[i] ^= 0x01;
        assert!(decrypt(passphrase, &tampered).is_err(), "byte {} not detected", i);
    }
}

#[test]
fn test_envelope_prefix_is_not_authenticated() {
    sodiumoxide::init().expect("sodiumoxide initialization failed");

    let passphrase = "My_P4ssPhr4s3_Str1ng";
    let msg = "My secret content";

    // The envelope prefix is discarded verbatim on decode, so a flip inside
    // it changes nothing.
    let mut enc_output = encrypt(passphrase, msg.as_bytes());
    enc_output[0] ^= 0x01;
    let dec_output = decrypt(passphrase, &enc_output).expect("decrypt failed");
    assert_eq!(dec_output, msg.as_bytes());
}

#[test]
fn test_truncated_input_is_a_decrypt_error() {
    sodiumoxide::init().expect("sodiumoxide initialization failed");

    let passphrase = "My_P4ssPhr4s3_Str1ng";

    // Shorter than the envelope prefix.
    assert!(decrypt(passphrase, &[0u8; 10]).is_err());
    // Exactly the envelope prefix, with nothing left to open.
    assert!(decrypt(passphrase, &[0u8; 231]).is_err());
    // Arbitrary bytes past the prefix fail the outer authentication.
    assert!(decrypt(passphrase, &[0u8; 500]).is_err());
    // A produced ciphertext cut short fails as well.
    let enc_output = encrypt(passphrase, b"payload");
    assert!(decrypt(passphrase, &enc_output[..enc_output.len() - 1]).is_err());
}

#[test]
fn test_strip_random_bytes() {
    let input = [1u8, 2, 3, 4, 5];

    let rest = strip_random_bytes(&input, 2).expect("strip failed");
    assert_eq!(rest, [3u8, 4, 5]);

    let all = strip_random_bytes(&input, 5).expect("strip failed");
    assert_eq!(all.len(), 0);

    assert_eq!(strip_random_bytes(&input, 6), Err(DecryptError {}));
}

#[test]
fn test_write_random_bytes() {
    sodiumoxide::init().expect("sodiumoxide initialization failed");

    let mut sink = vec![9u8, 9];
    write_random_bytes(&mut sink, 5);
    assert_eq!(sink.len(), 7);
    assert_eq!(&sink[..2], [9u8, 9]);
}

#[test]
fn test_decrypt_error_message() {
    let err = DecryptError {};
    assert_eq!(err.message(), "decrypt error");
}
