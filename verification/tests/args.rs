use giopg::args::Action;
use giopg::args::GiopgArgs;

#[test]
fn test_action_from_str_accepts_the_two_actions() {
    assert_eq!(Action::from_str("encrypt").unwrap(), Action::Encrypt);
    assert_eq!(Action::from_str("decrypt").unwrap(), Action::Decrypt);
}

#[test]
fn test_action_from_str_rejects_anything_else() {
    for bad in ["", "Encrypt", "encode", "decrypt ", "blah"] {
        let err = match Action::from_str(bad) {
            Ok(_) => panic!("'{}' should not parse", bad),
            Err(err) => err,
        };
        assert_eq!(err.value(), bad);
        assert_eq!(
            err.message(),
            format!("illegal value '{}' for Action (expected: encrypt|decrypt)", bad)
        );
    }
}

#[test]
fn test_args_hold_their_values() {
    let args = GiopgArgs {
        action: Action::Encrypt,
        input_file: String::from("in.txt"),
        output_file: String::from("out.bin"),
        passphrase: false,
    };
    assert_eq!(args.action, Action::Encrypt);
    assert_eq!(args.input_file, "in.txt");
    assert_eq!(args.output_file, "out.bin");
    assert!(!args.passphrase);
}
