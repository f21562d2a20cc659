use pubky_cli::error::CliError;
use pubky_cli::keys::public_key_for_secret;
use pubky_cli::util::{
    decrypt_recovery, network_config, new_recovery_file, recovery_file_for,
    recovery_passphrase_prompt, Network,
};

fn some(s: &str) -> Option<String> {
    Some(s.to_string())
}

#[test]
fn network_defaults_follow_testnet_flag() {
    let t = network_config(&None, &None, &None, true);
    assert!(matches!(t.network, Network::Testnet));
    assert_eq!(t.request_timeout_ms, None);
    assert!(matches!(network_config(&None, &None, &None, false).network, Network::Mainnet));
}

#[test]
fn empty_variables_count_as_unset() {
    assert!(matches!(network_config(&some(""), &some(""), &None, false).network, Network::Mainnet));
}

#[test]
fn bootstrap_variable_selects_custom_network() {
    let c = network_config(&some("127.0.0.1:6881, 10.0.0.1:6881"), &None, &some("1500"), true);
    assert_eq!(c.request_timeout_ms, Some(1500));
    match c.network {
        Network::Custom { bootstrap, relays } => {
            assert_eq!(bootstrap, vec!["127.0.0.1:6881", "10.0.0.1:6881"]);
            assert!(relays.is_empty());
        }
        other => panic!("unexpected {other:?}"),
    }
}

#[test]
fn relays_variable_selects_custom_network_and_bad_timeout_is_ignored() {
    let c = network_config(&None, &some("http://localhost:15411"), &some("soon"), false);
    assert_eq!(c.request_timeout_ms, None);
    match c.network {
        Network::Custom { bootstrap, relays } => {
            assert!(bootstrap.is_empty());
            assert_eq!(relays, vec!["http://localhost:15411"]);
        }
        other => panic!("unexpected {other:?}"),
    }
}

#[test]
fn blank_list_still_selects_custom_network() {
    assert!(matches!(
        network_config(&some(" , "), &None, &None, true).network,
        Network::Custom { .. }
    ));
}

#[test]
fn recovery_file_round_trip() {
    let file = new_recovery_file("demo-pass");
    assert!(file.bytes.starts_with(b"pubky.org/recovery\n"));
    let key = decrypt_recovery(&file.bytes, "demo-pass").expect("decrypt");
    assert_eq!(key.secret, file.secret);
    assert_eq!(key.public_key, file.public_key);
}

#[test]
fn recovery_file_for_given_secret() {
    let secret = [7u8; 32];
    let file = recovery_file_for(secret, "pass");
    assert_eq!(file.secret, secret);
    assert_eq!(file.public_key, public_key_for_secret(&secret));
    let key = decrypt_recovery(&file.bytes, "pass").expect("decrypt");
    assert_eq!(key.secret, secret);
}

#[test]
fn recovery_wrong_passphrase_fails() {
    let file = recovery_file_for([1u8; 32], "right");
    assert_eq!(decrypt_recovery(&file.bytes, "wrong").unwrap_err(), CliError::RecoveryDecryptFailed);
}

#[test]
fn recovery_framing_errors() {
    assert!(decrypt_recovery(b"no newline here", "p").is_err());
    assert!(decrypt_recovery(b"other.org/recovery\nxxxxxxxxxxxxxxxxxxxxxxxxxxxxxxxx", "p").is_err());
    assert!(decrypt_recovery(b"pubky.org/recovery\n", "p").is_err());
}

#[test]
fn decrypt_error_message() {
    assert_eq!(
        CliError::RecoveryDecryptFailed.message(),
        "Failed to decrypt recovery file with provided passphrase"
    );
}

#[test]
fn timeout_variable_alone_overrides_timeout() {
    let t = network_config(&None, &None, &some("1000"), true);
    assert!(matches!(t.network, Network::Testnet));
    assert_eq!(t.request_timeout_ms, Some(1000));
    let m = network_config(&some(""), &None, &some("+250"), false);
    assert!(matches!(m.network, Network::Mainnet));
    assert_eq!(m.request_timeout_ms, Some(250));
}

#[test]
fn recovery_passphrase_prompt_text() {
    assert_eq!(
        recovery_passphrase_prompt("./alice.recovery"),
        "Enter the recovery file passphrase for ./alice.recovery (input hidden): "
    );
}
