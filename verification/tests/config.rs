use daapstt::command::{
    parse_realtime_command, run_command, usage, Command, CommandError, RealtimeCommand,
};
use daapstt::config::{
    is_switched_on, keyterms_path, load_env_file, parse_whole_number, Config, ConfigError,
    Environment,
};
use daapstt::text::is_white_space;

fn environment(api_key: Option<&str>) -> Environment {
    Environment {
        api_key: api_key.map(str::to_string),
        api_url: None,
        realtime_url: None,
        marker_char: None,
        max_recording_secs: None,
        record_target: None,
        pause_media: None,
        keyterms_file: None,
    }
}

#[test]
fn parses_exact_realtime_cli_actions() {
    assert_eq!(
        parse_realtime_command(&["on".into()]).unwrap(),
        RealtimeCommand::On
    );
    assert_eq!(
        parse_realtime_command(&["off".into()]).unwrap(),
        RealtimeCommand::Off
    );
    assert_eq!(
        parse_realtime_command(&["status".into()]).unwrap(),
        RealtimeCommand::Status
    );
    assert!(parse_realtime_command(&[]).is_err());
    assert!(parse_realtime_command(&["on".into(), "now".into()]).is_err());
}

fn command(args: &[&str]) -> Result<Command, CommandError> {
    run_command(&args.iter().map(|arg| arg.to_string()).collect())
}

#[test]
fn commands_are_read_out_of_the_arguments() {
    assert_eq!(command(&[]), Ok(Command::Daemon));
    assert_eq!(command(&["keyterms"]), Ok(Command::Keyterms));
    assert_eq!(command(&["keyterms", "list"]), Ok(Command::ListKeyterms));
    assert_eq!(
        command(&["keyterms", "add", "two words"]),
        Ok(Command::AddKeyterm("two words".to_string()))
    );
    assert_eq!(
        command(&["keyterms", "remove", "x"]),
        Ok(Command::RemoveKeyterm("x".to_string()))
    );
    assert_eq!(
        command(&["realtime", "off"]),
        Ok(Command::Realtime(RealtimeCommand::Off))
    );
    assert_eq!(command(&["keyterms", "add"]), Err(CommandError::InvalidKeyterms));
    assert_eq!(
        command(&["keyterms", "list", "x"]),
        Err(CommandError::InvalidKeyterms)
    );
    assert_eq!(command(&["realtime", "On"]), Err(CommandError::InvalidRealtime));
    assert_eq!(
        command(&["fly"]),
        Err(CommandError::Unknown("fly".to_string()))
    );
    assert_eq!(
        command(&["fly"]).unwrap_err().message(),
        format!("unknown command: fly\n\n{}", usage())
    );
    assert!(usage().ends_with("daapstt realtime on|off|status"));
}

#[test]
fn the_api_key_is_required() {
    for key in [None, Some(""), Some(" \t")] {
        assert_eq!(
            Config::from_env(environment(key), "/k"),
            Err(ConfigError::MissingApiKey)
        );
    }
    assert!(ConfigError::MissingApiKey
        .message()
        .starts_with("ELEVENLABS_API_KEY is not set."));
}

#[test]
fn unset_variables_have_defaults() {
    let config = Config::from_env(environment(Some("key")), "/k").unwrap();
    assert_eq!(config.elevenlabs_api_key, "key");
    assert_eq!(
        config.elevenlabs_api_url,
        "https://api.elevenlabs.io/v1/speech-to-text"
    );
    assert_eq!(
        config.elevenlabs_realtime_url,
        "wss://api.elevenlabs.io/v1/speech-to-text/realtime"
    );
    assert_eq!(config.marker_char, "§");
    assert_eq!(config.max_recording_secs, 60);
    assert_eq!(config.record_target, None);
    assert!(config.pause_media);
    assert_eq!(config.keyterms_path, "/k");
}

#[test]
fn set_variables_replace_the_defaults() {
    let mut variables = environment(Some(" key "));
    variables.max_recording_secs = Some("+90".to_string());
    variables.pause_media = Some("False".to_string());
    variables.record_target = Some("42".to_string());
    variables.keyterms_file = Some("/other".to_string());
    variables.marker_char = Some("*".to_string());
    let config = Config::from_env(variables, "/k").unwrap();
    assert_eq!(config.elevenlabs_api_key, " key ");
    assert_eq!(config.max_recording_secs, 90);
    assert!(!config.pause_media);
    assert_eq!(config.record_target.as_deref(), Some("42"));
    assert_eq!(config.keyterms_path, "/other");
    assert_eq!(config.marker_char, "*");
    assert_eq!(keyterms_path(None, "/k"), "/k");
}

#[test]
fn numbers_are_read_as_the_standard_library_does() {
    for text in [
        "", "0", "7", "007", "+5", "+", "-1", "-0", " 1", "1 ", "1_000", "1.5", "x", "++1",
        "18446744073709551615", "18446744073709551616", "99999999999999999999999", "٣",
    ] {
        assert_eq!(parse_whole_number(text), text.parse::<u64>().ok());
    }
}

#[test]
fn switches_are_read_as_the_standard_library_does() {
    for text in ["false", "FALSE", "FaLsE", "0", "1", "true", "", "no", "00", "falsé", "ﬀalse"] {
        assert_eq!(
            is_switched_on(text),
            text.to_lowercase() != "false" && text != "0"
        );
    }
    // No other character than an ASCII letter lowers to a letter of the word.
    for code in 0x80..=0x10ffff_u32 {
        if let Some(c) = char::from_u32(code) {
            let lowered: String = c.to_lowercase().collect();
            assert!(!"false".contains(&lowered));
        }
    }
}

#[test]
fn white_space_follows_the_standard_library() {
    for code in 0..=0x10ffff_u32 {
        if let Some(c) = char::from_u32(code) {
            assert_eq!(is_white_space(c), c.is_whitespace());
        }
    }
}

#[test]
fn environment_files_hold_assignments() {
    let read = load_env_file(
        "# comment\n\n A = 1 \nB=x=y\r\n=skipped\nno assignment\n  # C=3\nA=\nD=\"quoted\"",
    );
    let pairs: Vec<(&str, &str)> = read
        .iter()
        .map(|(key, value)| (key.as_str(), value.as_str()))
        .collect();
    assert_eq!(
        pairs,
        [("A", "1"), ("B", "x=y"), ("A", ""), ("D", "\"quoted\"")]
    );
    assert!(load_env_file("").is_empty());
}
