use pubky_cli::admin::{
    admin_call, admin_url_candidates, delete_entry, disable_user, enable_user, entry_request,
    info_report, relative_admin_path, user_request, AdminHttpClient, AdminInfo, Command,
    ConnectionArgs, HttpMethod, StorageCommand, UserCommand,
};
use pubky_cli::error::CliError;
use pubky_cli::keys::{parse_public_key, public_key_for_secret};

fn key() -> String {
    public_key_for_secret(&[3u8; 32])
}

fn connection() -> ConnectionArgs {
    ConnectionArgs { admin_url: "http://127.0.0.1:6288".to_string(), password: None }
}

#[test]
fn public_keys_read_back_as_themselves() {
    let k = key();
    assert!(k.starts_with("pubky"));
    assert_eq!(k.len(), 57);
    assert_eq!(parse_public_key(&k).unwrap(), k);
    assert_eq!(parse_public_key(&k["pubky".len()..]).unwrap(), k);
}

#[test]
fn invalid_public_key_is_rejected() {
    assert_eq!(parse_public_key("not-a-key").unwrap_err(), CliError::InvalidPublicKey);
}

#[test]
fn disable_and_enable_requests() {
    let k = key();
    let d = disable_user(&k).unwrap();
    assert_eq!(d.method, HttpMethod::Post);
    assert_eq!(d.path, format!("users/{k}/disable"));
    assert_eq!(d.report, Some(format!("Disabled user {k}")));
    let e = enable_user(&k).unwrap();
    assert_eq!(e.path, format!("users/{k}/enable"));
    assert_eq!(e.report, Some(format!("Enabled user {k}")));
    assert_eq!(disable_user("bogus").unwrap_err(), CliError::InvalidPublicKey);
}

#[test]
fn delete_entry_request() {
    let k = key();
    let c = delete_entry(&k, "/pub/app/hello.txt").unwrap();
    assert_eq!(c.method, HttpMethod::Delete);
    assert_eq!(c.path, format!("webdav/{k}/pub/app/hello.txt"));
    assert_eq!(c.report, Some(format!("Deleted entry {k}/pub/app/hello.txt")));
}

#[test]
fn delete_entry_adds_missing_slash() {
    let k = key();
    let with = delete_entry(&k, "/pub/a.txt").unwrap();
    let without = delete_entry(&k, "pub/a.txt").unwrap();
    assert_eq!(with.path, without.path);
    assert_eq!(with.report, without.report);
}

#[test]
fn delete_entry_outside_pub_is_refused() {
    let k = key();
    assert_eq!(delete_entry(&k, "/private/x").unwrap_err(), CliError::EntryPathNotPublic);
    assert_eq!(delete_entry(&k, "/pub").unwrap_err(), CliError::EntryPathNotPublic);
    assert_eq!(delete_entry(&k, "").unwrap_err(), CliError::EntryPathNotPublic);
    assert_eq!(
        CliError::EntryPathNotPublic.message(),
        "entry path must start with /pub/"
    );
}

#[test]
fn delete_entry_checks_key_first() {
    assert_eq!(delete_entry("bogus", "/private/x").unwrap_err(), CliError::InvalidPublicKey);
}

#[test]
fn admin_call_dispatch() {
    let info = admin_call(&Command::Info { connection: connection() }).unwrap();
    assert_eq!((info.method, info.path.as_str(), info.report), (HttpMethod::Get, "info", None));
    let token = admin_call(&Command::GenerateToken { connection: connection() }).unwrap();
    assert_eq!(token.path, "generate_signup_token");
    let k = key();
    let user = admin_call(&Command::User {
        connection: connection(),
        action: UserCommand::Disable { pubky: k.clone() },
    })
    .unwrap();
    assert_eq!(user.path, format!("users/{k}/disable"));
    let storage = admin_call(&Command::Storage {
        connection: connection(),
        action: StorageCommand::Delete { pubky: k.clone(), path: "pub/x".to_string() },
    })
    .unwrap();
    assert_eq!(storage.path, format!("webdav/{k}/pub/x"));
}

#[test]
fn admin_url_without_scheme_gets_http() {
    let c = AdminHttpClient::new("127.0.0.1:6288", "admin".to_string()).unwrap();
    assert_eq!(c.base_url, "http://127.0.0.1:6288");
    assert_eq!(c.password, "admin");
    let d = AdminHttpClient::new("https://example.org/admin/", "p".to_string()).unwrap();
    assert_eq!(d.base_url, "https://example.org/admin/");
}

#[test]
fn admin_url_that_never_parses_is_refused() {
    assert_eq!(
        AdminHttpClient::new("", "p".to_string()).unwrap_err(),
        CliError::InvalidAdminUrl
    );
    assert_eq!(CliError::InvalidAdminUrl.message(), "Failed to parse admin URL");
}

#[test]
fn endpoints_ignore_leading_slashes() {
    let c = AdminHttpClient::new("http://127.0.0.1:6288", "p".to_string()).unwrap();
    assert_eq!(c.endpoint("info").unwrap(), "http://127.0.0.1:6288/info");
    assert_eq!(c.endpoint("//info").unwrap(), "http://127.0.0.1:6288/info");
    let d = AdminHttpClient::new("https://example.org/admin/", "p".to_string()).unwrap();
    assert_eq!(d.endpoint("/users/x/disable").unwrap(), "https://example.org/admin/users/x/disable");
}

#[test]
fn info_report_lines() {
    let info = AdminInfo {
        num_users: 0,
        num_disabled_users: 0,
        num_signup_codes: 0,
        num_unused_signup_codes: 12,
    };
    let lines = info_report(&info, "0.25");
    assert_eq!(
        lines,
        vec![
            "Users: 0",
            "Disabled users: 0",
            "Disk usage (MB): 0.25",
            "Signup codes: 0",
            "Unused signup codes: 12",
        ]
    );
}

#[test]
fn connection_of_command() {
    let c = Command::Info { connection: connection() };
    assert_eq!(c.connection().admin_url, "http://127.0.0.1:6288");
}

#[test]
fn user_request_for_key() {
    let c = user_request("pubkyxyz", false);
    assert_eq!(c.method, HttpMethod::Post);
    assert_eq!(c.path, "users/pubkyxyz/disable");
    assert_eq!(c.report.as_deref(), Some("Disabled user pubkyxyz"));
    let e = user_request("pubkyxyz", true);
    assert_eq!(e.path, "users/pubkyxyz/enable");
    assert_eq!(e.report.as_deref(), Some("Enabled user pubkyxyz"));
}

#[test]
fn entry_request_for_key() {
    let c = entry_request("pubkyxyz", "pub/app/x.txt").unwrap();
    assert_eq!(c.method, HttpMethod::Delete);
    assert_eq!(c.path, "webdav/pubkyxyz/pub/app/x.txt");
    assert_eq!(c.report.as_deref(), Some("Deleted entry pubkyxyz/pub/app/x.txt"));
    assert_eq!(entry_request("pubkyxyz", "//pub/x").unwrap_err(), CliError::EntryPathNotPublic);
    assert_eq!(entry_request("pubkyxyz", "/pub/").unwrap().path, "webdav/pubkyxyz/pub/");
}

#[test]
fn admin_url_candidate_order() {
    assert_eq!(admin_url_candidates("localhost:6288"), vec!["localhost:6288", "http://localhost:6288"]);
}

#[test]
fn relative_paths_lose_leading_slashes() {
    assert_eq!(relative_admin_path("///a/b/"), "a/b/");
    assert_eq!(relative_admin_path("info"), "info");
    assert_eq!(relative_admin_path(""), "");
}
