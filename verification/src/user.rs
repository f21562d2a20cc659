//! The user commands, and what `user list` prints.

use vstd::prelude::*;
use std::str::FromStr;
use crate::error::CliError;
use crate::text::{concat2, concat3};
use crate::util::views;

verus! {

/// The user commands. Paths are given as the text the user typed.
#[derive(Debug, Clone)]
#[allow(inconsistent_fields)]
pub enum Command {
    /// Signup a user on a homeserver using a recovery file.
    Signup {
        /// Homeserver Pkarr domain (e.g. `pubky.<public-key>` or bare public key).
        homeserver: String,
        recovery_file: String,
        signup_code: Option<String>,
        testnet: bool,
    },
    /// Sign in to a homeserver using a recovery file.
    Signin { recovery_file: String, testnet: bool, sync_publish: bool },
    /// Display the session information for a user.
    Session { recovery_file: String, testnet: bool },
    /// Sign out of the homeserver for a given Pubky.
    Signout { recovery_file: String, testnet: bool },
    /// List storage entries at a Pubky URL.
    List {
        url: String,
        reverse: bool,
        limit: Option<u16>,
        cursor: Option<String>,
        shallow: bool,
        testnet: bool,
    },
    /// Send a Pubky Auth token to a third-party app.
    AuthToken { recovery_file: String, pubkyauth_url: String, testnet: bool },
    /// Publish data to a Pubky URL from a file.
    Publish { data_path: String, file: String, recovery_file: String, testnet: bool },
    /// Delete data at a Pubky URL.
    Delete { data_path: String, recovery_file: String, testnet: bool },
    /// Get data at a Pubky URL.
    Get { data_path: String, recovery_file: String, testnet: bool },
}

/// The lines that `user list` prints for the URLs of the entries listed.
pub open spec fn spec_list_report(entries: Seq<Seq<char>>) -> Seq<Seq<char>> {
    if entries.len() == 0 {
        seq!["No entries returned."@]
    } else {
        entries
    }
}

/// The lines that `user list` prints: one per entry, or a notice where the
/// listing is empty.
pub fn list_report(entries: &Vec<String>) -> (lines: Vec<String>)
    ensures
        views(lines@) == spec_list_report(views(entries@)),
{
    if entries.len() == 0 {
        let mut lines: Vec<String> = Vec::new();
        lines.push("No entries returned.".to_owned());
        assert(views(lines@) =~= seq!["No entries returned."@]);
        lines
    } else {
        let mut lines: Vec<String> = Vec::new();
        for i in 0..entries.len()
            invariant
                views(lines@) == views(entries@.take(i as int)),
        {
            let ghost before = lines@;
            let entry = entries[i].clone();
            assert(entry@ == entries@[i as int]@);
            lines.push(entry);
            assert(views(lines@) =~= views(before).push(entry@));
            assert(views(entries@.take(i + 1)) =~= views(entries@.take(i as int)).push(
                entries@[i as int]@,
            ));
        }
        assert(entries@.take(entries@.len() as int) =~= entries@);
        lines
    }
}

/// The identifier (`pubky<owner>/<path>`) of the resource that
/// `pubky::PubkyResource::from_str` reads from `url`, or `None` where it
/// rejects `url`.
pub uninterp spec fn parsed_resource(url: Seq<char>) -> Option<Seq<char>>;

/// Calls `pubky::PubkyResource::from_str` and writes the resource with
/// `Display`.
///
/// Trusted: the identifier is the named `parsed_resource(url)`.
#[verifier::external_body]
fn sdk_parse_resource(url: &str) -> (r: Option<String>)
    ensures
        match r {
            Some(s) => parsed_resource(url@) == Some(s@),
            None => parsed_resource(url@) is None,
        },
{
    match pubky::PubkyResource::from_str(url) {
        Ok(resource) => Some(resource.to_string()),
        Err(_) => None,
    }
}

/// The identifier of the resource that `pubky::PubkyResource::from_transport_url`
/// reads from the URL that `url::Url::parse(url)` gives, for homeserver
/// transport URLs such as `https://_pubky.<owner>/<path>`; `None` where
/// either call fails.
pub uninterp spec fn transport_resource(url: Seq<char>) -> Option<Seq<char>>;

/// Parses `url` with `url::Url::parse` (as re-exported by reqwest) and reads
/// it with `pubky::PubkyResource::from_transport_url`, writing the resource
/// with `Display`.
///
/// Trusted: the identifier is the named `transport_resource(url)`.
#[verifier::external_body]
fn sdk_transport_resource(url: &str) -> (r: Option<String>)
    ensures
        match r {
            Some(s) => transport_resource(url@) == Some(s@),
            None => transport_resource(url@) is None,
        },
{
    match reqwest::Url::parse(url) {
        Ok(parsed) => match pubky::PubkyResource::from_transport_url(&parsed) {
            Ok(resource) => Some(resource.to_string()),
            Err(_) => None,
        },
        Err(_) => None,
    }
}

/// The resource that a URL to list names: a Pubky URL (`pubky://<user>/<path>`
/// or `pubky<user>/<path>`), else a homeserver HTTPS URL.
pub open spec fn spec_list_resource(url: Seq<char>) -> Option<Seq<char>> {
    match parsed_resource(url) {
        Some(r) => Some(r),
        None => transport_resource(url),
    }
}

/// A directory listing to request: the URL as given, the form in which it
/// names its resource (`transport` where it is a homeserver HTTPS URL rather
/// than a Pubky URL), the identifier of that resource, and the listing
/// options. The SDK resource is rebuilt from `url` by the same SDK call that
/// `transport` names, which reads the same text the same way.
#[derive(Debug, Clone)]
pub struct ListRequest {
    pub url: String,
    pub transport: bool,
    pub resource: String,
    pub reverse: bool,
    pub limit: Option<u16>,
    pub cursor: Option<String>,
    pub shallow: bool,
}

/// The listing that `user list` requests: the URL must name a resource, as
/// a Pubky URL or else as a homeserver HTTPS URL, and the options are passed
/// on unchanged.
pub fn list_request(
    url: &str,
    reverse: bool,
    limit: Option<u16>,
    cursor: Option<String>,
    shallow: bool,
) -> (r: Result<ListRequest, CliError>)
    ensures
        match r {
            Ok(q) => {
                &&& q.url@ == url@
                &&& q.transport == (parsed_resource(url@) is None)
                &&& spec_list_resource(url@) == Some(q.resource@)
                &&& q.reverse == reverse
                &&& q.limit == limit
                &&& q.cursor == cursor
                &&& q.shallow == shallow
            },
            Err(e) => spec_list_resource(url@) is None && e == CliError::InvalidListUrl,
        },
{
    let (found, transport) = match sdk_parse_resource(url) {
        Some(p) => (Some(p), false),
        None => (sdk_transport_resource(url), true),
    };
    match found {
        Some(resource) => Ok(
            ListRequest {
                url: url.to_owned(),
                transport,
                resource,
                reverse,
                limit,
                cursor,
                shallow,
            },
        ),
        None => Err(CliError::InvalidListUrl),
    }
}

/// The fixed lines that the user commands print.
#[derive(Debug, Clone, Copy, PartialEq, Eq, Structural)]
pub enum Notice {
    SignupSuccessful,
    SigninSuccessful,
    SignedIn,
    SessionInformation,
    SessionClosed,
    SignedOut,
    AuthTokenSent,
}

/// The text of a fixed line.
pub open spec fn spec_notice_text(n: Notice) -> Seq<char> {
    match n {
        Notice::SignupSuccessful => "Signup successful. Session details:"@,
        Notice::SigninSuccessful => "Signin successful. Session details:"@,
        Notice::SignedIn => "Signed in successfully. Session details:"@,
        Notice::SessionInformation => "Session information:"@,
        Notice::SessionClosed => "Session closed."@,
        Notice::SignedOut => "Signed out successfully."@,
        Notice::AuthTokenSent => "Auth token sent successfully."@,
    }
}

impl Notice {
    /// The text of the line.
    pub fn text(&self) -> (t: String)
        ensures
            t@ == spec_notice_text(*self),
    {
        match self {
            Notice::SignupSuccessful => "Signup successful. Session details:".to_owned(),
            Notice::SigninSuccessful => "Signin successful. Session details:".to_owned(),
            Notice::SignedIn => "Signed in successfully. Session details:".to_owned(),
            Notice::SessionInformation => "Session information:".to_owned(),
            Notice::SessionClosed => "Session closed.".to_owned(),
            Notice::SignedOut => "Signed out successfully.".to_owned(),
            Notice::AuthTokenSent => "Auth token sent successfully.".to_owned(),
        }
    }
}

/// The line printed once a recovery file is read.
pub fn loaded_recovery_line(public_key: &str) -> (s: String)
    ensures
        s@ == "Loaded recovery file for Pubky "@ + public_key@,
{
    concat2("Loaded recovery file for Pubky ", public_key)
}

/// The line that `user signout` prints.
pub fn signed_out_of_homeserver_line(public_key: &str) -> (s: String)
    ensures
        s@ == "Signed out of homeserver for "@ + public_key@,
{
    concat2("Signed out of homeserver for ", public_key)
}

/// The line that `user publish` prints once the data is stored.
pub fn published_line(data_path: &str) -> (s: String)
    ensures
        s@ == "Data published successfully to "@ + data_path@,
{
    concat2("Data published successfully to ", data_path)
}

/// The line that `user delete` prints once the data is removed.
pub fn deleted_line(data_path: &str) -> (s: String)
    ensures
        s@ == "Data deleted successfully at "@ + data_path@,
{
    concat2("Data deleted successfully at ", data_path)
}

/// The line that `user get` prints with the data read.
pub fn data_line(data_path: &str, data: &str) -> (s: String)
    ensures
        s@ == "Data at "@ + data_path@ + ": "@ + data@,
{
    let head = concat3("Data at ", data_path, ": ");
    concat2(head.as_str(), data)
}

/// `user list` prints one line per entry, the entries themselves in the
/// order listed; an empty listing prints the single notice
/// "No entries returned.".
pub proof fn lemma_list_report_lines(entries: Seq<Seq<char>>)
    ensures
        entries.len() == 0 ==> spec_list_report(entries) == seq!["No entries returned."@],
        entries.len() > 0 ==> spec_list_report(entries).len() == entries.len(),
        entries.len() > 0 ==> forall|i: int|
            0 <= i < entries.len() ==> #[trigger] spec_list_report(entries)[i] == entries[i],
{
}

/// Each notice prints the fixed line that belongs to it, and no two
/// notices print the same line.
pub proof fn lemma_notice_texts()
    ensures
        spec_notice_text(Notice::SignupSuccessful) == "Signup successful. Session details:"@,
        spec_notice_text(Notice::SigninSuccessful) == "Signin successful. Session details:"@,
        spec_notice_text(Notice::SignedIn) == "Signed in successfully. Session details:"@,
        spec_notice_text(Notice::SessionInformation) == "Session information:"@,
        spec_notice_text(Notice::SessionClosed) == "Session closed."@,
        spec_notice_text(Notice::SignedOut) == "Signed out successfully."@,
        spec_notice_text(Notice::AuthTokenSent) == "Auth token sent successfully."@,
        forall|a: Notice, b: Notice| a != b ==> spec_notice_text(a) != spec_notice_text(b),
{
    reveal_strlit("Signup successful. Session details:");
    reveal_strlit("Signin successful. Session details:");
    reveal_strlit("Signed in successfully. Session details:");
    reveal_strlit("Session information:");
    reveal_strlit("Session closed.");
    reveal_strlit("Signed out successfully.");
    reveal_strlit("Auth token sent successfully.");
    assert forall|a: Notice, b: Notice| a != b implies spec_notice_text(a) != spec_notice_text(b) by {
        let ta = spec_notice_text(a);
        let tb = spec_notice_text(b);
        if ta.len() == tb.len() {
            assert(ta[1] != tb[1] || ta[4] != tb[4] || ta[8] != tb[8] || ta[10] != tb[10]);
        }
    }
}

} // verus!
