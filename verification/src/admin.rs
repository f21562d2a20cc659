//! The admin commands: the connection to the admin API, the request that
//! each command makes, and the report of the server's statistics.

use vstd::prelude::*;
use crate::error::CliError;
use crate::keys::{parse_public_key, parsed_public_key};
use crate::text::{
    chars_of, concat2, decimal, format_u64, lemma_parse_u64_of_format_u64, parse_u64_spec, push_str,
    string_from_chars,
};
use crate::util::views;

verus! {

/// Where the admin API listens and the password that it asks for.
#[derive(Debug, Clone)]
pub struct ConnectionArgs {
    /// Base URL of the admin server (e.g. http://127.0.0.1:6288).
    pub admin_url: String,
    /// Admin password; where absent, it is asked for.
    pub password: Option<String>,
}

/// The admin commands.
#[derive(Debug, Clone)]
#[allow(inconsistent_fields)]
pub enum Command {
    /// Fetch summary information from the admin API.
    Info { connection: ConnectionArgs },
    /// Generate a new signup token via the admin API.
    GenerateToken { connection: ConnectionArgs },
    /// Manage users (enable/disable).
    User { connection: ConnectionArgs, action: UserCommand },
    /// Manage stored resources (WebDAV entries).
    Storage { connection: ConnectionArgs, action: StorageCommand },
}

/// What to do to a user.
#[derive(Debug, Clone)]
pub enum UserCommand {
    /// Disable a user by public key.
    Disable { pubky: String },
    /// Enable a user by public key.
    Enable { pubky: String },
}

/// What to do to stored resources.
#[derive(Debug, Clone)]
pub enum StorageCommand {
    /// Delete a WebDAV entry; the path must start with /pub/.
    Delete { pubky: String, path: String },
}

impl Command {
    /// The connection that the command uses.
    pub fn connection(&self) -> (c: &ConnectionArgs)
        ensures
            c == match self {
                Command::Info { connection } => connection,
                Command::GenerateToken { connection } => connection,
                Command::User { connection, .. } => connection,
                Command::Storage { connection, .. } => connection,
            },
    {
        match self {
            Command::Info { connection } => connection,
            Command::GenerateToken { connection } => connection,
            Command::User { connection, .. } => connection,
            Command::Storage { connection, .. } => connection,
        }
    }
}

/// Whether `url::Url::parse` accepts `input` as an absolute URL.
pub uninterp spec fn url_accepts(input: Seq<char>) -> bool;

/// The serialization of the URL that `url::Url::parse(base)` followed by
/// `Url::join(input)` gives, or `None` where either call fails.
pub uninterp spec fn joined_url(base: Seq<char>, input: Seq<char>) -> Option<Seq<char>>;

/// Calls `url::Url::parse` (as re-exported by reqwest) and tells whether it
/// succeeded.
///
/// Trusted: the result is the named `url_accepts(input)`.
#[verifier::external_body]
fn url_parses(input: &str) -> (b: bool)
    ensures
        b == url_accepts(input@),
{
    match reqwest::Url::parse(input) {
        Ok(_) => true,
        Err(_) => false,
    }
}

/// Parses `base` with `url::Url::parse` and resolves `input` against it with
/// `Url::join`.
///
/// Trusted: the result is the named `joined_url(base, input)`; it is a URL
/// only where `base` parses. The base given is the text that the admin URL
/// was accepted from, so parsing it here yields the URL that the client
/// holds.
#[verifier::external_body]
fn url_join(base: &str, input: &str) -> (r: Option<String>)
    ensures
        match r {
            Some(u) => joined_url(base@, input@) == Some(u@) && url_accepts(base@),
            None => joined_url(base@, input@) is None,
        },
{
    match reqwest::Url::parse(base) {
        Ok(parsed) => match parsed.join(input) {
            Ok(joined) => Some(joined.to_string()),
            Err(_) => None,
        },
        Err(_) => None,
    }
}

/// The text that the admin URL is parsed from: the URL as given where it
/// parses, else the same text after `http://`.
pub open spec fn admin_base(admin_url: Seq<char>) -> Option<Seq<char>> {
    if url_accepts(admin_url) {
        Some(admin_url)
    } else if url_accepts("http://"@ + admin_url) {
        Some("http://"@ + admin_url)
    } else {
        None
    }
}

/// `s` without its leading slashes.
pub open spec fn trim_leading_slashes(s: Seq<char>) -> Seq<char>
    decreases s.len(),
{
    if s.len() > 0 && s[0] == '/' {
        trim_leading_slashes(s.drop_first())
    } else {
        s
    }
}

/// The URL of the admin API path `path`, relative to the admin URL text
/// `base`: leading slashes are dropped so that the path stays below the base.
pub open spec fn admin_endpoint(base: Seq<char>, path: Seq<char>) -> Option<Seq<char>> {
    joined_url(base, trim_leading_slashes(path))
}

/// A client of the admin API: the admin URL that parsed and the password.
#[derive(Debug, Clone)]
pub struct AdminHttpClient {
    /// The text that the admin URL was parsed from.
    pub base_url: String,
    /// The password sent with every request.
    pub password: String,
}

/// The texts tried, in order, as the admin URL: the URL as given, then the
/// same text after `http://`.
pub open spec fn spec_admin_url_candidates(admin_url: Seq<char>) -> Seq<Seq<char>> {
    seq![admin_url, "http://"@ + admin_url]
}

/// The texts tried, in order, as the admin URL.
pub fn admin_url_candidates(admin_url: &str) -> (c: Vec<String>)
    ensures
        views(c@) == spec_admin_url_candidates(admin_url@),
{
    let mut v: Vec<char> = Vec::new();
    push_str(&mut v, "http://");
    push_str(&mut v, admin_url);
    let mut c: Vec<String> = Vec::new();
    c.push(admin_url.to_owned());
    c.push(string_from_chars(v.as_slice()));
    assert(views(c@) =~= spec_admin_url_candidates(admin_url@));
    c
}

/// An admin API path with its leading slashes removed, so that it resolves
/// below the admin URL.
pub fn relative_admin_path(path: &str) -> (r: String)
    ensures
        r@ == trim_leading_slashes(path@),
{
    let v = chars_of(path);
    let n = v.len();
    let mut i: usize = 0;
    assert(v@.subrange(0, n as int) =~= v@);
    while i < n && v[i] == '/'
        invariant
            i <= n == v@.len(),
            trim_leading_slashes(v@) == trim_leading_slashes(v@.subrange(i as int, n as int)),
        decreases n - i,
    {
        assert(v@.subrange(i as int, n as int).drop_first() =~= v@.subrange(i + 1, n as int));
        i = i + 1;
    }
    string_from_chars(&v.as_slice()[i..n])
}

impl AdminHttpClient {
    /// Reads the admin URL, accepting it also without its `http://` scheme:
    /// the first candidate text that parses is kept.
    pub fn new(admin_url: &str, password: String) -> (r: Result<AdminHttpClient, CliError>)
        ensures
            match r {
                Ok(c) => admin_base(admin_url@) == Some(c.base_url@) && c.password == password,
                Err(e) => admin_base(admin_url@) is None && e == CliError::InvalidAdminUrl,
            },
    {
        let candidates = admin_url_candidates(admin_url);
        proof {
            assert(candidates@.len() == views(candidates@).len());
            assert(candidates@[0]@ == views(candidates@)[0]);
            assert(candidates@[1]@ == views(candidates@)[1]);
        }
        if url_parses(candidates[0].as_str()) {
            Ok(AdminHttpClient { base_url: candidates[0].clone(), password })
        } else if url_parses(candidates[1].as_str()) {
            Ok(AdminHttpClient { base_url: candidates[1].clone(), password })
        } else {
            Err(CliError::InvalidAdminUrl)
        }
    }

    /// The URL of the admin API path `path`.
    pub fn endpoint(&self, path: &str) -> (r: Result<String, CliError>)
        ensures
            match r {
                Ok(u) => admin_endpoint(self.base_url@, path@) == Some(u@),
                Err(e) => admin_endpoint(self.base_url@, path@) is None && e
                    == CliError::InvalidEndpoint,
            },
    {
        let relative = relative_admin_path(path);
        match url_join(self.base_url.as_str(), relative.as_str()) {
            Some(u) => Ok(u),
            None => Err(CliError::InvalidEndpoint),
        }
    }
}

/// Leading slashes do not change which admin API URL a path names.
pub proof fn lemma_endpoint_ignores_leading_slash(base: Seq<char>, path: Seq<char>)
    ensures
        admin_endpoint(base, seq!['/'] + path) == admin_endpoint(base, path),
{
    assert((seq!['/'] + path).drop_first() =~= path);
}

/// The HTTP methods that the admin API is called with.
#[derive(Debug, Clone, Copy, PartialEq, Eq, Structural)]
pub enum HttpMethod {
    Get,
    Post,
    Delete,
}

/// A request to the admin API: its method, its path relative to the admin
/// URL, and the line to print once it has succeeded, where the command
/// prints a fixed one.
#[derive(Debug, Clone)]
pub struct AdminCall {
    pub method: HttpMethod,
    pub path: String,
    pub report: Option<String>,
}

/// What an admin request is, as plain values.
pub type CallView = (HttpMethod, Seq<char>, Option<Seq<char>>);

/// An admin request as plain values.
pub open spec fn call_view(c: AdminCall) -> CallView {
    (
        c.method,
        c.path@,
        match c.report {
            Some(s) => Some(s@),
            None => None,
        },
    )
}

/// The outcome of planning an admin request, as plain values.
pub open spec fn call_result_view(r: Result<AdminCall, CliError>) -> Result<CallView, CliError> {
    match r {
        Ok(c) => Ok(call_view(c)),
        Err(e) => Err(e),
    }
}

/// The request that disables (`enable` false) or enables the user whose key
/// identifier is `key`.
pub open spec fn spec_user_request(key: Seq<char>, enable: bool) -> CallView {
    if enable {
        (HttpMethod::Post, "users/"@ + key + "/enable"@, Some("Enabled user "@ + key))
    } else {
        (HttpMethod::Post, "users/"@ + key + "/disable"@, Some("Disabled user "@ + key))
    }
}

/// The request that disables (`enable` false) or enables a user given by
/// the text of a public key.
pub open spec fn spec_user_call(pubky: Seq<char>, enable: bool) -> Result<CallView, CliError> {
    match parsed_public_key(pubky) {
        None => Err(CliError::InvalidPublicKey),
        Some(key) => Ok(spec_user_request(key, enable)),
    }
}

/// An entry path with a leading slash: the path itself where it has one,
/// else the path after a slash.
pub open spec fn normalize_entry_path(path: Seq<char>) -> Seq<char> {
    if path.len() > 0 && path[0] == '/' {
        path
    } else {
        seq!['/'] + path
    }
}

/// Whether a normalized entry path lies under `/pub/`.
pub open spec fn is_public_entry_path(path: Seq<char>) -> bool {
    "/pub/"@.is_prefix_of(path)
}

/// The request that deletes the entry at `path` of the user whose key
/// identifier is `key`.
pub open spec fn spec_entry_request(key: Seq<char>, path: Seq<char>) -> Result<CallView, CliError> {
    let normalized = normalize_entry_path(path);
    if is_public_entry_path(normalized) {
        Ok(
            (
                HttpMethod::Delete,
                "webdav/"@ + key + normalized,
                Some("Deleted entry "@ + key + normalized),
            ),
        )
    } else {
        Err(CliError::EntryPathNotPublic)
    }
}

/// The request that deletes a stored entry of a user given by the text of a
/// public key. The key is read first, then the path.
pub open spec fn spec_delete_call(pubky: Seq<char>, path: Seq<char>) -> Result<CallView, CliError> {
    match parsed_public_key(pubky) {
        None => Err(CliError::InvalidPublicKey),
        Some(key) => spec_entry_request(key, path),
    }
}

/// A normalized entry path starts with a slash, and normalizing it again
/// changes nothing.
pub proof fn lemma_normalize_entry_path(path: Seq<char>)
    ensures
        normalize_entry_path(path).len() > 0,
        normalize_entry_path(path)[0] == '/',
        normalize_entry_path(normalize_entry_path(path)) == normalize_entry_path(path),
{
}

/// The leading slash of an entry path may be left out: deleting `p` makes
/// the same request as deleting `/p`.
pub proof fn lemma_delete_leading_slash_optional(pubky: Seq<char>, path: Seq<char>)
    requires
        path.len() == 0 || path[0] != '/',
    ensures
        spec_delete_call(pubky, seq!['/'] + path) == spec_delete_call(pubky, path),
        spec_entry_request(pubky, seq!['/'] + path) == spec_entry_request(pubky, path),
{
    assert(normalize_entry_path(seq!['/'] + path) == normalize_entry_path(path));
}

/// A delete request never leaves the user's public data: its path is the
/// user's WebDAV root followed by `/pub/`.
pub proof fn lemma_delete_stays_under_pub(pubky: Seq<char>, path: Seq<char>)
    requires
        spec_delete_call(pubky, path) is Ok,
    ensures
        parsed_public_key(pubky) is Some,
        ("webdav/"@ + parsed_public_key(pubky)->0 + "/pub/"@).is_prefix_of(
            spec_delete_call(pubky, path)->Ok_0.1,
        ),
{
    let key = parsed_public_key(pubky)->0;
    let n = normalize_entry_path(path);
    let full = "webdav/"@ + key + n;
    let prefix = "webdav/"@ + key + "/pub/"@;
    let pl = "/pub/"@.len() as int;
    assert(n.subrange(0, pl) == "/pub/"@);
    assert(full.subrange(0, prefix.len() as int) =~= prefix) by {
        assert forall|i: int| 0 <= i < prefix.len() implies full[i] == prefix[i] by {
            let w = ("webdav/"@ + key).len();
            if i >= w {
                assert(full[i] == n[i - w]);
                assert(prefix[i] == "/pub/"@[i - w]);
                assert(n.subrange(0, pl)[i - w] == n[i - w]);
            }
        }
    }
}

/// The request that an admin command makes.
pub open spec fn spec_admin_call(command: Command) -> Result<CallView, CliError> {
    match command {
        Command::Info { .. } => Ok((HttpMethod::Get, "info"@, None)),
        Command::GenerateToken { .. } => Ok((HttpMethod::Get, "generate_signup_token"@, None)),
        Command::User { action, .. } => match action {
            UserCommand::Disable { pubky } => spec_user_call(pubky@, false),
            UserCommand::Enable { pubky } => spec_user_call(pubky@, true),
        },
        Command::Storage { action, .. } => match action {
            StorageCommand::Delete { pubky, path } => spec_delete_call(pubky@, path@),
        },
    }
}

/// The request that disables (`enable` false) or enables the user whose key
/// identifier is `key`.
pub fn user_request(key: &str, enable: bool) -> (c: AdminCall)
    ensures
        call_view(c) == spec_user_request(key@, enable),
{
    let verb = if enable { "/enable" } else { "/disable" };
    let done = if enable { "Enabled user " } else { "Disabled user " };
    let mut path: Vec<char> = Vec::new();
    push_str(&mut path, "users/");
    push_str(&mut path, key);
    push_str(&mut path, verb);
    let mut report: Vec<char> = Vec::new();
    push_str(&mut report, done);
    push_str(&mut report, key);
    AdminCall {
        method: HttpMethod::Post,
        path: string_from_chars(path.as_slice()),
        report: Some(string_from_chars(report.as_slice())),
    }
}

/// The request that disables a user.
pub fn disable_user(pubky: &str) -> (r: Result<AdminCall, CliError>)
    ensures
        call_result_view(r) == spec_user_call(pubky@, false),
{
    match parse_public_key(pubky) {
        Ok(key) => Ok(user_request(key.as_str(), false)),
        Err(e) => Err(e),
    }
}

/// The request that enables a user.
pub fn enable_user(pubky: &str) -> (r: Result<AdminCall, CliError>)
    ensures
        call_result_view(r) == spec_user_call(pubky@, true),
{
    match parse_public_key(pubky) {
        Ok(key) => Ok(user_request(key.as_str(), true)),
        Err(e) => Err(e),
    }
}

/// The request that deletes the entry at `path` of the user whose key
/// identifier is `key`: the path, given a leading slash where it lacks one,
/// must lie under `/pub/`.
pub fn entry_request(key: &str, path: &str) -> (r: Result<AdminCall, CliError>)
    ensures
        call_result_view(r) == spec_entry_request(key@, path@),
{
    let p = chars_of(path);
    let mut normalized: Vec<char> = Vec::new();
    if !(p.len() > 0 && p[0] == '/') {
        normalized.push('/');
    }
    push_str(&mut normalized, path);
    assert(normalized@ =~= normalize_entry_path(path@));
    let prefix = chars_of("/pub/");
    let mut is_public = normalized.len() >= prefix.len();
    let mut i: usize = 0;
    while is_public && i < prefix.len()
        invariant
            i <= prefix@.len(),
            is_public ==> normalized@.len() >= prefix@.len(),
            is_public ==> forall|k: int| 0 <= k < i ==> normalized@[k] == prefix@[k],
            !is_public ==> !prefix@.is_prefix_of(normalized@),
        decreases prefix@.len() - i,
    {
        if normalized[i] != prefix[i] {
            is_public = false;
        }
        i = i + 1;
    }
    if is_public {
        assert(prefix@.is_prefix_of(normalized@)) by {
            assert(normalized@.subrange(0, prefix@.len() as int) =~= prefix@);
        }
    }
    if !is_public {
        return Err(CliError::EntryPathNotPublic);
    }
    let mut endpoint: Vec<char> = Vec::new();
    push_str(&mut endpoint, "webdav/");
    push_str(&mut endpoint, key);
    endpoint.extend_from_slice(normalized.as_slice());
    let mut report: Vec<char> = Vec::new();
    push_str(&mut report, "Deleted entry ");
    push_str(&mut report, key);
    report.extend_from_slice(normalized.as_slice());
    assert(endpoint@ =~= "webdav/"@ + key@ + normalized@);
    assert(report@ =~= "Deleted entry "@ + key@ + normalized@);
    Ok(
        AdminCall {
            method: HttpMethod::Delete,
            path: string_from_chars(endpoint.as_slice()),
            report: Some(string_from_chars(report.as_slice())),
        },
    )
}

/// The request that deletes a stored entry: the key must parse, then the
/// path must lie under `/pub/`.
pub fn delete_entry(pubky: &str, path: &str) -> (r: Result<AdminCall, CliError>)
    ensures
        call_result_view(r) == spec_delete_call(pubky@, path@),
{
    match parse_public_key(pubky) {
        Ok(key) => entry_request(key.as_str(), path),
        Err(e) => Err(e),
    }
}

/// The request that an admin command makes, as `run` dispatches it.
pub fn admin_call(command: &Command) -> (r: Result<AdminCall, CliError>)
    ensures
        call_result_view(r) == spec_admin_call(*command),
{
    match command {
        Command::Info { .. } => Ok(
            AdminCall { method: HttpMethod::Get, path: "info".to_owned(), report: None },
        ),
        Command::GenerateToken { .. } => Ok(
            AdminCall {
                method: HttpMethod::Get,
                path: "generate_signup_token".to_owned(),
                report: None,
            },
        ),
        Command::User { action, .. } => match action {
            UserCommand::Disable { pubky } => disable_user(pubky.as_str()),
            UserCommand::Enable { pubky } => enable_user(pubky.as_str()),
        },
        Command::Storage { action, .. } => match action {
            StorageCommand::Delete { pubky, path } => delete_entry(pubky.as_str(), path.as_str()),
        },
    }
}

/// The counters of the admin API's `info` response. The disk usage, a
/// floating-point number, is handed to the report as the text to print.
#[derive(Debug, Clone, Copy)]
pub struct AdminInfo {
    pub num_users: u64,
    pub num_disabled_users: u64,
    pub num_signup_codes: u64,
    pub num_unused_signup_codes: u64,
}

/// The lines that `admin info` prints, the disk usage given as its text.
pub open spec fn spec_info_report(info: AdminInfo, disk_usage_mb: Seq<char>) -> Seq<Seq<char>> {
    seq![
        "Users: "@ + decimal(info.num_users as nat),
        "Disabled users: "@ + decimal(info.num_disabled_users as nat),
        "Disk usage (MB): "@ + disk_usage_mb,
        "Signup codes: "@ + decimal(info.num_signup_codes as nat),
        "Unused signup codes: "@ + decimal(info.num_unused_signup_codes as nat),
    ]
}

/// `label` followed by the decimal representation of `n`.
fn labeled_number(label: &str, n: u64) -> (s: String)
    ensures
        s@ == label@ + decimal(n as nat),
{
    let digits = format_u64(n);
    concat2(label, digits.as_str())
}

/// The lines that `admin info` prints.
pub fn info_report(info: &AdminInfo, disk_usage_mb: &str) -> (lines: Vec<String>)
    ensures
        views(lines@) == spec_info_report(*info, disk_usage_mb@),
{
    let mut lines: Vec<String> = Vec::new();
    lines.push(labeled_number("Users: ", info.num_users));
    lines.push(labeled_number("Disabled users: ", info.num_disabled_users));
    lines.push(concat2("Disk usage (MB): ", disk_usage_mb));
    lines.push(labeled_number("Signup codes: ", info.num_signup_codes));
    lines.push(labeled_number("Unused signup codes: ", info.num_unused_signup_codes));
    assert(views(lines@) =~= spec_info_report(*info, disk_usage_mb@));
    lines
}

/// A line of a report that starts with `label` and whose remainder reads as
/// the number `n`.
pub open spec fn reads_as(line: Seq<char>, label: Seq<char>, n: u64) -> bool {
    &&& label.is_prefix_of(line)
    &&& parse_u64_spec(line.skip(label.len() as int)) == Some(n)
}

/// `label` followed by the decimal of `n` starts with `label` and its
/// remainder reads back as `n`.
proof fn lemma_labeled_reads_as(label: Seq<char>, n: u64)
    ensures
        reads_as(label + decimal(n as nat), label, n),
{
    let line = label + decimal(n as nat);
    assert(line.subrange(0, label.len() as int) =~= label);
    assert(line.skip(label.len() as int) =~= decimal(n as nat));
    lemma_parse_u64_of_format_u64(n);
}

/// Each line of the `admin info` report carries the counter that its label
/// names: reading the number after "Users: " gives `num_users`, after
/// "Disabled users: " gives `num_disabled_users`, and so on, in that order;
/// the disk usage line shows the text given.
pub proof fn lemma_info_report_counters(info: AdminInfo, disk_usage_mb: Seq<char>)
    ensures
        spec_info_report(info, disk_usage_mb).len() == 5,
        reads_as(spec_info_report(info, disk_usage_mb)[0], "Users: "@, info.num_users),
        reads_as(
            spec_info_report(info, disk_usage_mb)[1],
            "Disabled users: "@,
            info.num_disabled_users,
        ),
        spec_info_report(info, disk_usage_mb)[2] == "Disk usage (MB): "@ + disk_usage_mb,
        reads_as(spec_info_report(info, disk_usage_mb)[3], "Signup codes: "@, info.num_signup_codes),
        reads_as(
            spec_info_report(info, disk_usage_mb)[4],
            "Unused signup codes: "@,
            info.num_unused_signup_codes,
        ),
{
    lemma_labeled_reads_as("Users: "@, info.num_users);
    lemma_labeled_reads_as("Disabled users: "@, info.num_disabled_users);
    lemma_labeled_reads_as("Signup codes: "@, info.num_signup_codes);
    lemma_labeled_reads_as("Unused signup codes: "@, info.num_unused_signup_codes);
}

/// `admin user enable` re-enables a user and `admin user disable` disables
/// one: for a key that the SDK accepts, enable is a POST to
/// `users/<key>/enable` reported as "Enabled user <key>", disable a POST to
/// `users/<key>/disable` reported as "Disabled user <key>", and the two
/// requests differ. A key that the SDK rejects makes neither request.
pub proof fn lemma_enable_disable_requests(connection: ConnectionArgs, pubky: String)
    ensures
        ({
            let enable = spec_admin_call(
                Command::User { connection, action: UserCommand::Enable { pubky } },
            );
            let disable = spec_admin_call(
                Command::User { connection, action: UserCommand::Disable { pubky } },
            );
            match parsed_public_key(pubky@) {
                Some(key) => {
                    &&& enable == Ok::<CallView, CliError>(
                        (HttpMethod::Post, "users/"@ + key + "/enable"@, Some("Enabled user "@ + key)),
                    )
                    &&& disable == Ok::<CallView, CliError>(
                        (
                            HttpMethod::Post,
                            "users/"@ + key + "/disable"@,
                            Some("Disabled user "@ + key),
                        ),
                    )
                    &&& enable != disable
                },
                None => enable == Err::<CallView, CliError>(CliError::InvalidPublicKey) && disable
                    == enable,
            }
        }),
{
    if let Some(key) = parsed_public_key(pubky@) {
        reveal_strlit("/enable");
        reveal_strlit("/disable");
        let e = "users/"@ + key + "/enable"@;
        let d = "users/"@ + key + "/disable"@;
        assert(e.len() != d.len());
    }
}

} // verus!
