use dfs_node::kv::{handle_input_line, parse_line, LineCommand};

#[test]
fn get_takes_a_key() {
    match handle_input_line("GET report.txt") {
        LineCommand::Get { key } => assert_eq!(key, b"report.txt".to_vec()),
        other => panic!("{:?}", other),
    }
}

#[test]
fn get_providers_takes_a_key() {
    match handle_input_line("GET_PROVIDERS report.txt") {
        LineCommand::GetProviders { key } => assert_eq!(key, b"report.txt".to_vec()),
        other => panic!("{:?}", other),
    }
}

#[test]
fn put_takes_a_key_and_a_value() {
    match handle_input_line("PUT colour blue") {
        LineCommand::Put { key, value } => {
            assert_eq!(key, b"colour".to_vec());
            assert_eq!(value, b"blue".to_vec());
        }
        other => panic!("{:?}", other),
    }
}

#[test]
fn put_provider_takes_a_key() {
    match handle_input_line("PUT_PROVIDER report.txt") {
        LineCommand::PutProvider { key } => assert_eq!(key, b"report.txt".to_vec()),
        other => panic!("{:?}", other),
    }
}

#[test]
fn what_follows_the_arguments_is_ignored() {
    match handle_input_line("PUT colour dark blue") {
        LineCommand::Put { key, value } => {
            assert_eq!(key, b"colour".to_vec());
            assert_eq!(value, b"dark".to_vec());
        }
        other => panic!("{:?}", other),
    }
    match handle_input_line("GET a b c") {
        LineCommand::Get { key } => assert_eq!(key, b"a".to_vec()),
        other => panic!("{:?}", other),
    }
}

#[test]
fn a_command_without_its_key_is_refused() {
    assert!(matches!(handle_input_line("GET"), LineCommand::ExpectedKey));
    assert!(matches!(handle_input_line("GET_PROVIDERS"), LineCommand::ExpectedKey));
    assert!(matches!(handle_input_line("PUT"), LineCommand::ExpectedKey));
    assert!(matches!(handle_input_line("PUT_PROVIDER"), LineCommand::ExpectedKey));
}

#[test]
fn put_without_its_value_is_refused() {
    assert!(matches!(handle_input_line("PUT colour"), LineCommand::ExpectedValue));
}

#[test]
fn other_words_are_refused() {
    assert!(matches!(handle_input_line(""), LineCommand::ExpectedCommand));
    assert!(matches!(handle_input_line("get key"), LineCommand::ExpectedCommand));
    assert!(matches!(handle_input_line("GETS key"), LineCommand::ExpectedCommand));
    assert!(matches!(handle_input_line(" GET key"), LineCommand::ExpectedCommand));
    assert!(matches!(handle_input_line("DELETE key"), LineCommand::ExpectedCommand));
    assert!(matches!(handle_input_line("PUT_PROVIDERS key"), LineCommand::ExpectedCommand));
    assert!(matches!(handle_input_line("GET\tkey"), LineCommand::ExpectedCommand));
}

#[test]
fn two_spaces_enclose_an_empty_argument() {
    match handle_input_line("GET ") {
        LineCommand::Get { key } => assert!(key.is_empty()),
        other => panic!("{:?}", other),
    }
    match handle_input_line("GET  x") {
        LineCommand::Get { key } => assert!(key.is_empty()),
        other => panic!("{:?}", other),
    }
    match handle_input_line("PUT  x") {
        LineCommand::Put { key, value } => {
            assert!(key.is_empty());
            assert_eq!(value, b"x".to_vec());
        }
        other => panic!("{:?}", other),
    }
    match handle_input_line("PUT k ") {
        LineCommand::Put { key, value } => {
            assert_eq!(key, b"k".to_vec());
            assert!(value.is_empty());
        }
        other => panic!("{:?}", other),
    }
}

#[test]
fn arguments_keep_their_bytes() {
    match handle_input_line("PUT cl\u{e9} v\u{e4}lue") {
        LineCommand::Put { key, value } => {
            assert_eq!(key, "cl\u{e9}".as_bytes().to_vec());
            assert_eq!(value, "v\u{e4}lue".as_bytes().to_vec());
        }
        other => panic!("{:?}", other),
    }
    match parse_line(&[b'G', b'E', b'T', b' ', 0xFF, 0x00]) {
        LineCommand::Get { key } => assert_eq!(key, vec![0xFF, 0x00]),
        other => panic!("{:?}", other),
    }
}

#[test]
fn lines_are_cut_as_split_cuts_them() {
    for line in ["GET a", "GET  a", "PUT a b c", "PUT a", "PUT", "GET_PROVIDERS x y", " PUT a b"] {
        let mut args = line.split(' ');
        let word = args.next();
        let first = args.next().map(|s| s.as_bytes().to_vec());
        let second = args.next().map(|s| s.as_bytes().to_vec());
        match (handle_input_line(line), word) {
            (LineCommand::Get { key }, Some("GET")) => assert_eq!(Some(key), first),
            (LineCommand::GetProviders { key }, Some("GET_PROVIDERS")) => {
                assert_eq!(Some(key), first)
            }
            (LineCommand::PutProvider { key }, Some("PUT_PROVIDER")) => {
                assert_eq!(Some(key), first)
            }
            (LineCommand::Put { key, value }, Some("PUT")) => {
                assert_eq!(Some(key), first);
                assert_eq!(Some(value), second);
            }
            (LineCommand::ExpectedKey, Some(_)) => assert_eq!(first, None),
            (LineCommand::ExpectedValue, Some("PUT")) => assert_eq!(second, None),
            (LineCommand::ExpectedCommand, Some(w)) => {
                assert!(!["GET", "GET_PROVIDERS", "PUT", "PUT_PROVIDER"].contains(&w))
            }
            (other, _) => panic!("{:?} on {:?}", other, line),
        }
    }
}
