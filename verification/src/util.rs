//! Network configuration read from the environment, and recovery files.

use vstd::prelude::*;
use vstd::string::StringSliceAdditionalSpecFns;
use crate::error::CliError;
use crate::keys::{public_key_for_secret, public_key_of_secret};
use crate::text::{
    chars_of, join_with, lemma_split_on_concat, lemma_split_on_join, lemma_split_on_nonempty, lemma_split_on_pieces,
    lemma_trim, parse_u64, parse_u64_spec, split_on, concat3,
    string_from_chars, trim, trim_bounds,
};

verus! {

/// The views of a list of strings.
pub open spec fn views(v: Seq<String>) -> Seq<Seq<char>> {
    v.map_values(|s: String| s@)
}

/// The fields of a comma-separated list: each piece between commas, with
/// surrounding white space removed, empty pieces left out.
pub open spec fn csv_fields(raw: Seq<char>) -> Seq<Seq<char>> {
    split_on(raw, ',').map_values(|p: Seq<char>| trim(p)).filter(|p: Seq<char>| p.len() > 0)
}

/// Every field of a comma-separated list is non-empty, holds no comma, and
/// has no white space at either end: trimming it changes nothing.
pub proof fn lemma_csv_fields_clean(raw: Seq<char>)
    ensures
        forall|i: int|
            0 <= i < csv_fields(raw).len() ==> {
                let f = #[trigger] csv_fields(raw)[i];
                &&& f.len() > 0
                &&& !f.contains(',')
                &&& trim(f) == f
            },
{
    let pieces = split_on(raw, ',');
    let trimmed = |p: Seq<char>| trim(p);
    let nonempty = |p: Seq<char>| p.len() > 0;
    let m = pieces.map_values(trimmed);
    lemma_split_on_pieces(raw, ',');
    assert forall|i: int| 0 <= i < csv_fields(raw).len() implies {
        let f = #[trigger] csv_fields(raw)[i];
        &&& f.len() > 0
        &&& !f.contains(',')
        &&& trim(f) == f
    } by {
        let f = csv_fields(raw)[i];
        m.lemma_filter_pred(nonempty, i);
        assert(m.filter(nonempty).contains(f));
        m.lemma_filter_contains_rev(nonempty, f);
        let j = choose|j: int| 0 <= j < m.len() && m[j] == f;
        let p = pieces[j];
        assert(!p.contains(','));
        lemma_trim(p);
        let (a, b) = choose|a: int, b: int| 0 <= a <= b <= p.len() && trim(p) == p.subrange(a, b);
        assert forall|k: int| 0 <= k < f.len() implies f[k] != ',' by {
            assert(f[k] == p[a + k]);
        }
    }
}

/// A filter that every element passes keeps the whole sequence.
proof fn lemma_filter_keeps_all<A>(s: Seq<A>, pred: spec_fn(A) -> bool)
    requires
        forall|i: int| 0 <= i < s.len() ==> pred(#[trigger] s[i]),
    ensures
        s.filter(pred) == s,
    decreases s.len(),
{
    reveal(Seq::filter);
    if s.len() > 0 {
        let init = s.drop_last();
        assert forall|i: int| 0 <= i < init.len() implies pred(#[trigger] init[i]) by {
            assert(init[i] == s[i]);
        }
        lemma_filter_keeps_all(init, pred);
        assert(pred(s[s.len() - 1]));
        assert(init.push(s.last()) =~= s);
    }
}

/// Writing the fields of a list back with commas between them and reading
/// that again gives the same fields.
pub proof fn lemma_csv_fields_of_joined_fields(raw: Seq<char>)
    ensures
        csv_fields(join_with(csv_fields(raw), ',')) == csv_fields(raw),
{
    let f = csv_fields(raw);
    let trimmed = |p: Seq<char>| trim(p);
    let nonempty = |p: Seq<char>| p.len() > 0;
    lemma_csv_fields_clean(raw);
    if f.len() == 0 {
        let j = join_with(f, ',');
        assert(j == Seq::<char>::empty());
        assert(split_on(j, ',') == seq![Seq::<char>::empty()]);
        let m = split_on(j, ',').map_values(trimmed);
        assert(trim(Seq::<char>::empty()) =~= Seq::<char>::empty());
        assert(m =~= seq![Seq::<char>::empty()]);
        reveal_with_fuel(Seq::filter, 2);
        assert(m.drop_last() =~= Seq::<Seq<char>>::empty());
        assert(m.filter(nonempty) =~= Seq::<Seq<char>>::empty());
    } else {
        assert forall|i: int| 0 <= i < f.len() implies !(#[trigger] f[i]).contains(',') by {}
        lemma_split_on_join(f, ',');
        let m = f.map_values(trimmed);
        assert(m =~= f);
        lemma_filter_keeps_all(f, nonempty);
    }
}

/// The fields of two lists joined by a comma are the fields of the first
/// followed by the fields of the second.
pub proof fn lemma_csv_fields_concat(a: Seq<char>, b: Seq<char>)
    ensures
        csv_fields(a + seq![','] + b) == csv_fields(a) + csv_fields(b),
{
    let trimmed = |p: Seq<char>| trim(p);
    let nonempty = |p: Seq<char>| p.len() > 0;
    assert(a + seq![','] + b =~= a.push(',') + b);
    lemma_split_on_concat(a, b, ',');
    let pa = split_on(a, ',');
    let pb = split_on(b, ',');
    assert((pa + pb).map_values(trimmed) =~= pa.map_values(trimmed) + pb.map_values(trimmed));
    Seq::filter_distributes_over_add(pa.map_values(trimmed), pb.map_values(trimmed), nonempty);
}

/// Splits a comma-separated list into its trimmed, non-empty fields.
pub fn parse_csv(raw: &str) -> (fields: Vec<String>)
    ensures
        views(fields@) == csv_fields(raw@),
{
    let v = chars_of(raw);
    let n = v.len();
    let ghost nonempty = |p: Seq<char>| p.len() > 0;
    let ghost trimmed = |p: Seq<char>| trim(p);
    let mut fields: Vec<String> = Vec::new();
    let mut start: usize = 0;
    let mut i: usize = 0;
    proof {
        assert(v@.take(0) =~= Seq::<char>::empty());
        reveal(Seq::filter);
        assert(split_on(v@.take(0), ',').drop_last().map_values(trimmed) =~= Seq::empty());
        assert(views(fields@) =~= Seq::empty());
    }
    while i < n
        invariant
            n == v@.len(),
            start <= i <= n,
            split_on(v@.take(i as int), ',').last() == v@.subrange(start as int, i as int),
            views(fields@) == split_on(v@.take(i as int), ',').drop_last().map_values(
                trimmed,
            ).filter(nonempty),
            nonempty == (|p: Seq<char>| p.len() > 0),
            trimmed == (|p: Seq<char>| trim(p)),
        decreases n - i,
    {
        let ghost pieces = split_on(v@.take(i as int), ',');
        proof {
            lemma_split_on_nonempty(v@.take(i as int), ',');
            assert(v@.take(i + 1).drop_last() =~= v@.take(i as int));
        }
        if v[i] == ',' {
            let (a, b) = trim_bounds(&v, start, i);
            let ghost before = views(fields@);
            if a < b {
                let field = string_from_chars(&v.as_slice()[a..b]);
                fields.push(field);
                assert(views(fields@) =~= before.push(field@));
            } else {
                assert(views(fields@) =~= before);
            }
            proof {
                let next = split_on(v@.take(i + 1), ',');
                assert(next == pieces.push(Seq::empty()));
                assert(next.drop_last() =~= pieces);
                assert(pieces =~= pieces.drop_last().push(pieces.last()));
                assert(pieces.map_values(trimmed) =~= pieces.drop_last().map_values(
                    trimmed,
                ).push(trim(pieces.last())));
                pieces.drop_last().map_values(trimmed).lemma_filter_push(
                    trim(pieces.last()),
                    nonempty,
                );
                assert(v@.subrange(i + 1, i + 1) =~= Seq::<char>::empty());
            }
            start = i + 1;
        } else {
            proof {
                let next = split_on(v@.take(i + 1), ',');
                assert(next.drop_last() =~= pieces.drop_last());
                assert(next.last() =~= v@.subrange(start as int, i + 1));
            }
        }
        i = i + 1;
    }
    proof {
        let pieces = split_on(v@.take(n as int), ',');
        lemma_split_on_nonempty(v@.take(n as int), ',');
        assert(v@.take(n as int) =~= v@);
        assert(pieces =~= pieces.drop_last().push(pieces.last()));
        assert(pieces.map_values(trimmed) =~= pieces.drop_last().map_values(trimmed).push(
            trim(pieces.last()),
        ));
        pieces.drop_last().map_values(trimmed).lemma_filter_push(trim(pieces.last()), nonempty);
    }
    let (a, b) = trim_bounds(&v, start, n);
    let ghost before = views(fields@);
    if a < b {
        let field = string_from_chars(&v.as_slice()[a..b]);
        fields.push(field);
        assert(views(fields@) =~= before.push(field@));
    }
    fields
}

/// The value of an environment variable as the network configuration reads
/// it: an empty value counts as unset.
pub open spec fn present(raw: Option<String>) -> Option<Seq<char>> {
    match raw {
        Some(s) => if s@.len() > 0 {
            Some(s@)
        } else {
            None
        },
        None => None,
    }
}

/// The fields of a list variable; an unset one has none.
pub open spec fn list_fields(raw: Option<Seq<char>>) -> Seq<Seq<char>> {
    match raw {
        Some(s) => csv_fields(s),
        None => Seq::empty(),
    }
}

/// The request timeout that the timeout variable sets, if it holds a `u64`.
pub open spec fn timeout_of(raw: Option<String>) -> Option<u64> {
    match raw {
        Some(s) => parse_u64_spec(s@),
        None => None,
    }
}

/// Which Pubky network to reach.
#[derive(Debug, Clone)]
pub enum Network {
    /// Pkarr configured from the environment: the default network is left
    /// out, and the bootstrap nodes and relays are the ones listed (no relays
    /// at all where none is listed).
    Custom { bootstrap: Vec<String>, relays: Vec<String> },
    /// The local test network.
    Testnet,
    /// The public network.
    Mainnet,
}

/// How to reach the Pubky network: which network, and the request timeout
/// in milliseconds where the environment overrides it.
#[derive(Debug, Clone)]
pub struct NetworkConfig {
    pub network: Network,
    pub request_timeout_ms: Option<u64>,
}

/// Decides how to reach the network from the values of the bootstrap, relay
/// and timeout variables and the `--testnet` flag: either list variable, set
/// and non-empty, selects the configuration from the environment; otherwise
/// the flag chooses between the test network and the public one. A timeout
/// variable that holds a `u64` overrides the request timeout whichever
/// network is chosen.
pub fn network_config(
    bootstrap_raw: &Option<String>,
    relays_raw: &Option<String>,
    timeout_raw: &Option<String>,
    testnet: bool,
) -> (c: NetworkConfig)
    ensures
        c.request_timeout_ms == timeout_of(*timeout_raw),
        match c.network {
            Network::Custom { bootstrap, relays } => {
                &&& (present(*bootstrap_raw) is Some || present(*relays_raw) is Some)
                &&& views(bootstrap@) == list_fields(present(*bootstrap_raw))
                &&& views(relays@) == list_fields(present(*relays_raw))
            },
            Network::Testnet => present(*bootstrap_raw) is None && present(*relays_raw) is None
                && testnet,
            Network::Mainnet => present(*bootstrap_raw) is None && present(*relays_raw) is None
                && !testnet,
        },
{
    let bootstrap = list_variable(bootstrap_raw);
    let relays = list_variable(relays_raw);
    let network = match (bootstrap, relays) {
        (None, None) => if testnet {
            Network::Testnet
        } else {
            Network::Mainnet
        },
        (b, r) => {
            let bootstrap = match b {
                Some(fields) => fields,
                None => Vec::new(),
            };
            let relays = match r {
                Some(fields) => fields,
                None => Vec::new(),
            };
            assert(views(Seq::<String>::empty()) =~= Seq::empty());
            Network::Custom { bootstrap, relays }
        },
    };
    let request_timeout_ms = match timeout_raw {
        Some(t) => parse_u64(t.as_str()),
        None => None,
    };
    NetworkConfig { network, request_timeout_ms }
}

/// The fields of a list variable, or `None` where it is unset or empty.
fn list_variable(raw: &Option<String>) -> (r: Option<Vec<String>>)
    ensures
        match r {
            Some(fields) => present(*raw) is Some && views(fields@) == list_fields(present(*raw)),
            None => present(*raw) is None,
        },
{
    match raw {
        Some(s) => if !s.as_str().is_empty() {
            Some(parse_csv(s.as_str()))
        } else {
            None
        },
        None => None,
    }
}

/// The secret key that `pubky::recovery_file::decrypt_recovery_file`
/// recovers from the bytes `file` with `passphrase`, or `None` where it fails.
pub uninterp spec fn recovered_secret(file: Seq<u8>, passphrase: Seq<char>) -> Option<Seq<u8>>;

/// The bytes of an ASCII text.
pub open spec fn ascii_bytes(s: Seq<char>) -> Seq<u8> {
    s.map_values(|c: char| c as u8)
}

/// The length of the first line of `file`: the index of its first newline
/// byte, or its length where it has none.
pub open spec fn first_line_len(file: Seq<u8>) -> nat
    decreases file.len(),
{
    if file.len() == 0 || file[0] == 10 {
        0
    } else {
        1 + first_line_len(file.drop_first())
    }
}

/// Whether the first line of `file` names a recovery-file format that the
/// SDK reads.
pub open spec fn has_recovery_spec_line(file: Seq<u8>) -> bool {
    let line = file.take(first_line_len(file) as int);
    ascii_bytes("pubky.org/recovery"@).is_prefix_of(line) || ascii_bytes(
        "pkarr.org/recovery"@,
    ).is_prefix_of(line)
}

/// Whether `passphrase` is short enough for the key derivation of recovery
/// files: Argon2 takes passwords of at most `0xffff_ffff` bytes, and the SDK
/// panics on longer ones.
pub open spec fn passphrase_fits(passphrase: &str) -> bool {
    passphrase.spec_bytes().len() <= 0xffff_ffff
}

/// Calls `pubky::recovery_file::decrypt_recovery_file` and takes the secret
/// of the key pair it gives.
///
/// Trusted: the result is the named `recovered_secret(file, passphrase)`.
/// As the SDK's source shows, it fails where the file has no newline byte,
/// where its first line does not start with `pubky.org/recovery` or
/// `pkarr.org/recovery`, and where nothing follows the first newline.
#[verifier::external_body]
fn sdk_decrypt_recovery_file(file: &[u8], passphrase: &str) -> (r: Option<[u8; 32]>)
    requires
        passphrase_fits(passphrase),
    ensures
        match r {
            Some(secret) => recovered_secret(file@, passphrase@) == Some(secret@),
            None => recovered_secret(file@, passphrase@) is None,
        },
        first_line_len(file@) == file@.len() ==> r is None,
        !has_recovery_spec_line(file@) ==> r is None,
        first_line_len(file@) + 1 == file@.len() ==> r is None,
{
    match pubky::recovery_file::decrypt_recovery_file(file, passphrase) {
        Ok(keypair) => Some(keypair.secret()),
        Err(_) => None,
    }
}

/// Calls `pubky::recovery_file::create_recovery_file` for the key pair with
/// the given secret.
///
/// Trusted: the bytes start with the spec line `pubky.org/recovery` and a
/// newline, and decrypting them with the same passphrase gives the secret
/// back (the SDK's own test exercises this round trip). The bytes themselves
/// are not named: the encryption draws a random nonce.
#[verifier::external_body]
fn sdk_create_recovery_file(secret: &[u8; 32], passphrase: &str) -> (file: Vec<u8>)
    requires
        passphrase_fits(passphrase),
    ensures
        recovered_secret(file@, passphrase@) == Some(secret@),
        ascii_bytes("pubky.org/recovery\n"@).is_prefix_of(file@),
{
    pubky::recovery_file::create_recovery_file(&pubky::Keypair::from_secret(secret), passphrase)
}

/// Calls `pubky::Keypair::random` and takes the secret of the new key pair.
///
/// Trusted: nothing is stated of the secret but its length, which its type
/// gives; it is random.
#[verifier::external_body]
fn sdk_random_secret() -> (secret: [u8; 32]) {
    pubky::Keypair::random().secret()
}

/// A key pair read from a recovery file: its secret and its public key's
/// `pubky<z32>` identifier.
#[derive(Debug, Clone)]
pub struct RecoveredKey {
    pub secret: [u8; 32],
    pub public_key: String,
}

/// What reading a recovery file gives, as plain values: the secret and the
/// public key's identifier.
pub open spec fn spec_decrypt_recovery(file: Seq<u8>, passphrase: Seq<char>) -> Result<
    (Seq<u8>, Seq<char>),
    CliError,
> {
    match recovered_secret(file, passphrase) {
        Some(secret) => Ok((secret, public_key_of_secret(secret))),
        None => Err(CliError::RecoveryDecryptFailed),
    }
}

/// Decrypts the bytes of a recovery file with `passphrase`.
pub fn decrypt_recovery(file: &[u8], passphrase: &str) -> (r: Result<RecoveredKey, CliError>)
    requires
        passphrase_fits(passphrase),
    ensures
        match r {
            Ok(k) => spec_decrypt_recovery(file@, passphrase@) == Ok::<_, CliError>((k.secret@, k.public_key@)),
            Err(e) => spec_decrypt_recovery(file@, passphrase@) == Err::<(Seq<u8>, Seq<char>), _>(e),
        },
{
    match sdk_decrypt_recovery_file(file, passphrase) {
        Some(secret) => {
            let public_key = public_key_for_secret(&secret);
            Ok(RecoveredKey { secret, public_key })
        },
        None => Err(CliError::RecoveryDecryptFailed),
    }
}

/// A new recovery file: its bytes, the secret it protects and the public
/// key's identifier.
#[derive(Debug, Clone)]
pub struct RecoveryFile {
    pub bytes: Vec<u8>,
    pub secret: [u8; 32],
    pub public_key: String,
}

/// The recovery file that protects `secret` with `passphrase`. Decrypting
/// its bytes with the same passphrase gives back the same secret and public
/// key.
pub fn recovery_file_for(secret: [u8; 32], passphrase: &str) -> (f: RecoveryFile)
    requires
        passphrase_fits(passphrase),
    ensures
        f.secret == secret,
        f.public_key@ == public_key_of_secret(secret@),
        spec_decrypt_recovery(f.bytes@, passphrase@) == Ok::<_, CliError>((secret@, f.public_key@)),
{
    let bytes = sdk_create_recovery_file(&secret, passphrase);
    let public_key = public_key_for_secret(&secret);
    RecoveryFile { bytes, secret, public_key }
}

/// A recovery file for a new random key pair, protected with `passphrase`.
pub fn new_recovery_file(passphrase: &str) -> (f: RecoveryFile)
    requires
        passphrase_fits(passphrase),
    ensures
        f.public_key@ == public_key_of_secret(f.secret@),
        spec_decrypt_recovery(f.bytes@, passphrase@) == Ok::<_, CliError>((f.secret@, f.public_key@)),
{
    let secret = sdk_random_secret();
    recovery_file_for(secret, passphrase)
}

/// The prompt for the passphrase of the recovery file at `path`.
pub fn recovery_passphrase_prompt(path: &str) -> (p: String)
    ensures
        p@ == "Enter the recovery file passphrase for "@ + path@ + " (input hidden): "@,
{
    concat3("Enter the recovery file passphrase for ", path, " (input hidden): ")
}

} // verus!
