use pubky_cli::tools::{completion_report, recovery_prompt, recovery_report, Shell};
use pubky_cli::error::CliError;
use pubky_cli::keys::public_key_for_secret;
use pubky_cli::user::{
    data_line, deleted_line, list_report, list_request, loaded_recovery_line, published_line,
    signed_out_of_homeserver_line, Notice,
};

#[test]
fn recovery_report_names_file_passphrase_and_key() {
    let lines = recovery_report("/tmp/alice.recovery", "demo-pass", "pubkyabc");
    let text = lines.join("\n");
    assert!(text.contains("Recovery file written"));
    assert!(text.contains("demo-pass"));
    assert!(text.contains("User Pubky public key"));
    assert_eq!(lines[0], "Recovery file written to /tmp/alice.recovery");
    assert_eq!(lines[2], "User Pubky public key: pubkyabc");
}

#[test]
fn recovery_prompt_text() {
    assert_eq!(
        recovery_prompt("./a.recovery"),
        "Enter a passphrase to protect ./a.recovery (input hidden): "
    );
}

#[test]
fn shell_names() {
    let names: Vec<String> =
        [Shell::Bash, Shell::Elvish, Shell::Fish, Shell::PowerShell, Shell::Zsh].iter().map(|s| s.name()).collect();
    assert_eq!(names, vec!["bash", "elvish", "fish", "powershell", "zsh"]);
    assert_eq!(
        completion_report(Shell::Zsh, "/tmp/_pubky-cli"),
        "Completion script for zsh written to /tmp/_pubky-cli"
    );
}

#[test]
fn list_report_lines() {
    assert_eq!(list_report(&vec![]), vec!["No entries returned."]);
    let entries = vec!["pubky://a/pub/app/data.txt".to_string()];
    assert_eq!(list_report(&entries), entries);
}

fn z32() -> String {
    public_key_for_secret(&[9u8; 32])["pubky".len()..].to_string()
}

#[test]
fn list_request_accepts_pubky_urls() {
    let z = z32();
    let q = list_request(&format!("pubky://{z}/pub/app/"), true, Some(10), Some("c".to_string()), false)
        .unwrap();
    assert_eq!(q.resource, format!("pubky{z}/pub/app/"));
    assert!(q.reverse);
    assert_eq!(q.limit, Some(10));
    assert_eq!(q.cursor.as_deref(), Some("c"));
    assert!(!q.shallow);
    let p = list_request(&format!("pubky{z}/pub/app/"), false, None, None, true).unwrap();
    assert_eq!(p.resource, format!("pubky{z}/pub/app/"));
    assert!(p.shallow);
    assert_eq!(p.url, format!("pubky{z}/pub/app/"));
    assert!(!p.transport);
}

#[test]
fn list_request_accepts_homeserver_https_urls() {
    let z = z32();
    let url = format!("https://_pubky.{z}/pub/app/");
    let q = list_request(&url, false, None, None, false).unwrap();
    assert_eq!(q.resource, format!("pubky{z}/pub/app/"));
    assert_eq!(q.url, url);
    assert!(q.transport);
    let same = list_request(&format!("pubky://{z}/pub/app/"), false, None, None, false).unwrap();
    assert_eq!(same.resource, q.resource);
}

#[test]
fn list_request_rejects_other_urls() {
    let err = list_request("https://example.org/pub/", false, None, None, false).unwrap_err();
    assert_eq!(err, CliError::InvalidListUrl);
    assert_eq!(
        err.message(),
        "List URL must be pubky://<user>/<path> or pubky<user>/<path>"
    );
    assert!(list_request("not a url", false, None, None, false).is_err());
}

#[test]
fn user_command_lines() {
    assert_eq!(loaded_recovery_line("pubkyk"), "Loaded recovery file for Pubky pubkyk");
    assert_eq!(signed_out_of_homeserver_line("pubkyk"), "Signed out of homeserver for pubkyk");
    assert_eq!(published_line("/pub/a"), "Data published successfully to /pub/a");
    assert_eq!(deleted_line("/pub/a"), "Data deleted successfully at /pub/a");
    assert_eq!(data_line("/pub/a", "hi"), "Data at /pub/a: hi");
    assert_eq!(Notice::SignupSuccessful.text(), "Signup successful. Session details:");
    assert_eq!(Notice::SessionClosed.text(), "Session closed.");
    assert_eq!(Notice::SignedOut.text(), "Signed out successfully.");
}
