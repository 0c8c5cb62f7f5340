use haproxy_stats::command::{Command, CommandParseError, Commands};

#[test]
fn test_command_new() {
    assert_eq!(Command::show_stat().as_str(), "show stat");

    //
    match Command::new("show stat;") {
        Err(CommandParseError::RequireEscapeSemiColon) => {}
        x => panic!("{:?}", x),
    }
}

#[test]
fn escaped_separators_are_accepted_unchanged() {
    for text in ["", "show info", "set server a/b state ready", "a\\;b", "\\;", "a\\\\;b\\;c"] {
        let command = Command::new(text).unwrap();
        assert_eq!(command.as_str(), text);
        assert_eq!(command.to_string(), text);
    }
}

#[test]
fn unescaped_separator_is_rejected_anywhere() {
    for text in [";", ";show info", "show;info", "show info;", "a\\;b;c", "a;\\;", ";;"] {
        assert!(matches!(
            Command::new(text),
            Err(CommandParseError::RequireEscapeSemiColon)
        ));
    }
    assert_eq!(
        CommandParseError::RequireEscapeSemiColon.to_string(),
        "RequireEscapeSemiColon"
    );
}

#[test]
fn command_is_sent_with_line_end() {
    assert_eq!(Command::show_info().to_write_bytes(), b"show info\r\n".to_vec());
    assert_eq!(Command::show_env().to_write_bytes(), b"show env\r\n".to_vec());
    assert_eq!(Command::show_stat().to_write_bytes(), b"show stat\r\n".to_vec());
    assert_eq!(Command::new("").unwrap().to_write_bytes(), b"\r\n".to_vec());
    assert_eq!(
        Command::new("a\\;b").unwrap().to_write_bytes(),
        b"a\\;b\r\n".to_vec()
    );
    assert_eq!(
        Command::new("h\u{e9}").unwrap().to_write_bytes(),
        vec![b'h', 0xc3, 0xa9, b'\r', b'\n']
    );
}

#[test]
fn batch_joins_commands_with_separator() {
    let list = [Command::show_info(), Command::show_stat()];
    let batch = Commands::new(&list);
    assert_eq!(batch.to_string(), "show info;show stat");
    assert_eq!(batch.to_write_bytes(), b"show info;show stat\r\n".to_vec());

    let one = [Command::show_env()];
    assert_eq!(
        Commands::new(&one).to_write_bytes(),
        Command::show_env().to_write_bytes()
    );

    let none: [Command; 0] = [];
    assert_eq!(Commands::new(&none).to_write_bytes(), b"\r\n".to_vec());

    let three = [
        Command::new("a\\;b").unwrap(),
        Command::new("").unwrap(),
        Command::new("c").unwrap(),
    ];
    assert_eq!(Commands::new(&three).internal_to_string(), "a\\;b;;c");
}

#[test]
fn command_round_trips_through_its_wire_bytes() {
    for text in ["show stat", "a\\;b", "", "h\u{e9}llo"] {
        let command = Command::new(text).unwrap();
        let bytes = command.to_write_bytes();
        let body = std::str::from_utf8(&bytes[..bytes.len() - 2]).unwrap();
        let again = Command::new(body).unwrap();
        assert_eq!(again.as_str(), text);
        assert_eq!(again.to_write_bytes(), bytes);
    }
}

#[test]
fn command_parses_from_str() {
    let command: Command = "show info".parse().unwrap();
    assert_eq!(command.as_str(), "show info");
    assert!("a;b".parse::<Command>().is_err());
    assert_eq!(command.clone().as_str(), "show info");
}
