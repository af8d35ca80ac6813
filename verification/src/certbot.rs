//! Decisions around one certificate request: which names it covers, where
//! the ACME account and the issued files are kept, when a certificate is
//! renewed, and what the client reports on the way.
use vstd::prelude::*;
use crate::config::Certpath;
use crate::text::{
    decimal, decimal_string, split_char, join, split_on_char, occurs_at, absent_before,
    split_once, lemma_split_char_join, lemma_split_char_nonempty,
};

verus! {

broadcast use vstd::string::group_string_axioms;

/// A certificate with more whole days of validity left than this is not renewed.
pub const RENEWAL_THRESHOLD_DAYS: i64 = 30;

/// The primary name of a space-separated list of names: the text before the
/// first space.
pub open spec fn primary_name(names: Seq<char>) -> Seq<char> {
    split_char(names, ' ')[0]
}

/// The alternative names: the pieces after the first space, empty pieces
/// included.
pub open spec fn alternative_names(names: Seq<char>) -> Seq<Seq<char>> {
    split_char(names, ' ').drop_first()
}

/// Splits the configured list of names at every space into the primary
/// name and the alternative names of the certificate.
pub fn split_names(names: &str) -> (r: (String, Vec<String>))
    ensures
        r.0@ == primary_name(names@),
        r.1@.map_values(|p: String| p@) == alternative_names(names@),
{
    let mut pieces = split_on_char(names, ' ');
    proof {
        lemma_split_char_nonempty(names@, ' ');
    }
    let ghost all = pieces@.map_values(|p: String| p@);
    let primary = pieces.remove(0);
    assert(pieces@.map_values(|p: String| p@) =~= all.drop_first());
    (primary, pieces)
}

/// The primary name followed by the alternative names, joined with single
/// spaces, is the configured list of names; no name holds a space.
pub proof fn lemma_names_roundtrip(names: Seq<char>)
    ensures
        join(seq![primary_name(names)] + alternative_names(names), seq![' ']) == names,
        !primary_name(names).contains(' '),
        forall|i: int|
            0 <= i < alternative_names(names).len() ==> !(#[trigger] alternative_names(
                names,
            )[i]).contains(' '),
{
    lemma_split_char_join(names, ' ');
    lemma_split_char_nonempty(names, ' ');
    let pieces = split_char(names, ' ');
    assert(seq![primary_name(names)] + alternative_names(names) =~= pieces);
    assert forall|i: int| 0 <= i < alternative_names(names).len() implies !(#[trigger] alternative_names(
        names,
    )[i]).contains(' ') by {
        assert(alternative_names(names)[i] == pieces[i + 1]);
    }
}

/// Where the ACME account and its keys are kept below the certificate
/// directory.
pub open spec fn account_dir_spec(certpath: Seq<char>) -> Seq<char> {
    certpath + "/accounts/acme-v01.api.letsencrypt.org/directory"@
}

/// The directory in which the ACME account and its keys are kept.
pub fn account_dir(certpath: &Certpath) -> (r: String)
    ensures
        r@ == account_dir_spec(certpath.0@),
{
    let mut s = certpath.0.clone();
    s.append("/accounts/acme-v01.api.letsencrypt.org/directory");
    s
}

/// Whether a certificate is requested, given the whole days of validity
/// left of the one already held, if any.
pub open spec fn needs_renewal_spec(valid_days_left: Option<i64>) -> bool {
    match valid_days_left {
        Some(days) => days <= RENEWAL_THRESHOLD_DAYS,
        None => true,
    }
}

/// Decides whether a certificate is requested: always where none is held,
/// else only where it has at most thirty whole days of validity left.
pub fn needs_renewal(valid_days_left: Option<i64>) -> (r: bool)
    ensures
        r == needs_renewal_spec(valid_days_left),
{
    match valid_days_left {
        Some(days) => days <= RENEWAL_THRESHOLD_DAYS,
        None => true,
    }
}

/// A held certificate is renewed exactly when it has at most thirty whole
/// days of validity left, and a certificate is requested where none is
/// held; a certificate renewed with some days left would also be renewed
/// with fewer.
pub proof fn lemma_renewal_at_thirty_days(days: i64, fewer: i64)
    ensures
        needs_renewal_spec(Some(days)) <==> days <= 30,
        days > 30 ==> !needs_renewal_spec(Some(days)),
        needs_renewal_spec(None::<i64>),
        fewer <= days && needs_renewal_spec(Some(days)) ==> needs_renewal_spec(Some(fewer)),
{
}

/// The report that a held certificate is kept.
pub fn up_to_date_message(primary: &str) -> (r: String)
    ensures
        r@ == "Certificate \""@ + primary@ + "\" does not need to be renewed."@,
{
    let mut s = String::from_str("Certificate \"");
    s.append(primary);
    s.append("\" does not need to be renewed.");
    s
}

/// The report that a certificate was issued and stored.
pub fn renewed_message(primary: &str) -> (r: String)
    ensures
        r@ == "Certificate \""@ + primary@ + "\" has been successfully renewed."@,
{
    let mut s = String::from_str("Certificate \"");
    s.append(primary);
    s.append("\" has been successfully renewed.");
    s
}

/// The report that requesting the certificate for `names` failed.
pub fn request_failed_message(names: &str, detail: &str) -> (r: String)
    ensures
        r@ == "An error occured while getting certificate for \""@ + names@ + "\": "@ + detail@,
{
    let mut s = String::from_str("An error occured while getting certificate for \"");
    s.append(names);
    s.append("\": ");
    s.append(detail);
    s
}

/// The kinds of error an ACME call can end with.
#[derive(Debug, Clone, Copy, PartialEq, Eq, Structural)]
pub enum AcmeErrorKind {
    ApiProblem,
    Base64Decode,
    Call,
    Io,
    Json,
    Other,
}

/// How the report of a failed validation names the kind of error.
pub open spec fn error_phrase(kind: AcmeErrorKind) -> Seq<char> {
    match kind {
        AcmeErrorKind::ApiProblem => "An api"@,
        AcmeErrorKind::Base64Decode => "A base64"@,
        AcmeErrorKind::Call => "A call"@,
        AcmeErrorKind::Io => "An I/O"@,
        AcmeErrorKind::Json => "A json"@,
        AcmeErrorKind::Other => "An undefined"@,
    }
}

fn error_phrase_str(kind: AcmeErrorKind) -> (r: &'static str)
    ensures
        r@ == error_phrase(kind),
{
    match kind {
        AcmeErrorKind::ApiProblem => "An api",
        AcmeErrorKind::Base64Decode => "A base64",
        AcmeErrorKind::Call => "A call",
        AcmeErrorKind::Io => "An I/O",
        AcmeErrorKind::Json => "A json",
        AcmeErrorKind::Other => "An undefined",
    }
}

/// The report of a failed DNS challenge validation.
pub open spec fn retry_report_spec(
    kind: AcmeErrorKind,
    names: Seq<char>,
    retries_left: nat,
    detail: Seq<char>,
) -> Seq<char> {
    error_phrase(kind) + " error occured while trying to validate dns challenge for \""@ + names
        + "\" (retrying "@ + decimal(retries_left) + " times): "@ + detail
}

/// Reports a failed validation of a DNS challenge for `names`, with the
/// number of attempts left and the error's own text.
pub fn retry_report(kind: AcmeErrorKind, names: &str, retries_left: u32, detail: &str) -> (r: String)
    ensures
        r@ == retry_report_spec(kind, names@, retries_left as nat, detail@),
{
    let mut s = String::from_str(error_phrase_str(kind));
    s.append(" error occured while trying to validate dns challenge for \"");
    s.append(names);
    s.append("\" (retrying ");
    let count = decimal_string(retries_left);
    s.append(count.as_str());
    s.append(" times): ");
    s.append(detail);
    s
}

/// The separator between the certificates of a PEM chain.
pub open spec fn block_break() -> Seq<char> {
    "\n\n"@
}

/// `leaf` and `chain` are the parts of `fullchain` before and after its
/// first blank line; without a blank line, `leaf` is all of it and `chain`
/// is empty.
pub open spec fn chain_split(fullchain: Seq<char>, leaf: Seq<char>, chain: Seq<char>) -> bool {
    ||| (absent_before(fullchain, block_break(), fullchain.len() as int) && leaf == fullchain
        && chain == Seq::<char>::empty())
    ||| {
        &&& occurs_at(fullchain, block_break(), leaf.len() as int)
        &&& absent_before(fullchain, block_break(), leaf.len() as int)
        &&& leaf == fullchain.subrange(0, leaf.len() as int)
        &&& chain == fullchain.subrange(leaf.len() as int + 2, fullchain.len() as int)
    }
}

/// Splits a full chain into the leaf certificate and the rest of the chain.
pub fn split_fullchain(fullchain: &str) -> (r: (String, String))
    ensures
        chain_split(fullchain@, r.0@, r.1@),
{
    proof {
        reveal_strlit("\n\n");
    }
    match split_once(fullchain, "\n\n") {
        Some((leaf, chain)) => (leaf, chain),
        None => (fullchain.to_owned(), String::new()),
    }
}

/// A full chain is its leaf certificate, a blank line and the rest of the
/// chain, where it has a blank line; and the split is determined by the
/// full chain.
pub proof fn lemma_chain_split_rebuilds(
    fullchain: Seq<char>,
    leaf: Seq<char>,
    chain: Seq<char>,
    leaf2: Seq<char>,
    chain2: Seq<char>,
)
    requires
        chain_split(fullchain, leaf, chain),
        chain_split(fullchain, leaf2, chain2),
    ensures
        leaf == leaf2,
        chain == chain2,
        !absent_before(fullchain, block_break(), fullchain.len() as int) ==> fullchain == leaf
            + block_break() + chain,
{
    reveal_strlit("\n\n");
    let k = leaf.len() as int;
    let k2 = leaf2.len() as int;
    if !absent_before(fullchain, block_break(), fullchain.len() as int) {
        assert(occurs_at(fullchain, block_break(), k));
        assert(occurs_at(fullchain, block_break(), k2));
        if k < k2 {
            assert(!occurs_at(fullchain, block_break(), k));
        }
        if k2 < k {
            assert(!occurs_at(fullchain, block_break(), k2));
        }
        assert(fullchain.subrange(k, k + 2) == block_break());
        assert(fullchain =~= leaf + block_break() + chain);
    } else {
        assert(!occurs_at(fullchain, block_break(), k)) by {
            if 0 <= k < fullchain.len() {
                assert(!occurs_at(fullchain, block_break(), k));
            }
        }
        assert(!occurs_at(fullchain, block_break(), k2)) by {
            if 0 <= k2 < fullchain.len() {
                assert(!occurs_at(fullchain, block_break(), k2));
            }
        }
    }
}

/// Where a full chain has a blank line, it is the leaf, a blank line and
/// the rest of the chain, and the leaf holds no blank line; without one,
/// the leaf is all of it and the rest is empty.
pub proof fn lemma_fullchain_parts(fullchain: Seq<char>, leaf: Seq<char>, chain: Seq<char>)
    requires
        chain_split(fullchain, leaf, chain),
    ensures
        (exists|i: int| 0 <= i && i + 2 <= fullchain.len() && #[trigger] fullchain.subrange(i, i + 2)
            == "\n\n"@) ==> fullchain == leaf + "\n\n"@ + chain,
        forall|i: int|
            0 <= i && i + 2 <= leaf.len() ==> #[trigger] leaf.subrange(i, i + 2) != "\n\n"@,
        (forall|i: int|
            0 <= i && i + 2 <= fullchain.len() ==> #[trigger] fullchain.subrange(i, i + 2)
                != "\n\n"@) ==> leaf == fullchain && chain.len() == 0,
{
    reveal_strlit("\n\n");
    lemma_chain_split_rebuilds(fullchain, leaf, chain, leaf, chain);
    if exists|i: int| 0 <= i && i + 2 <= fullchain.len() && #[trigger] fullchain.subrange(i, i + 2)
        == "\n\n"@ {
        let i = choose|i: int| 0 <= i && i + 2 <= fullchain.len() && #[trigger] fullchain.subrange(
            i,
            i + 2,
        ) == "\n\n"@;
        assert(occurs_at(fullchain, block_break(), i));
        assert(!absent_before(fullchain, block_break(), fullchain.len() as int));
    }
    assert forall|i: int| 0 <= i && i + 2 <= leaf.len() implies #[trigger] leaf.subrange(i, i + 2)
        != "\n\n"@ by {
        assert(leaf == fullchain.subrange(0, leaf.len() as int));
        assert(leaf.subrange(i, i + 2) =~= fullchain.subrange(i, i + 2));
        assert(!occurs_at(fullchain, block_break(), i));
    }
    if forall|i: int| 0 <= i && i + 2 <= fullchain.len() ==> #[trigger] fullchain.subrange(i, i + 2)
        != "\n\n"@ {
        if occurs_at(fullchain, block_break(), leaf.len() as int) {
            assert(fullchain.subrange(leaf.len() as int, leaf.len() as int + 2) == "\n\n"@);
        }
    }
}

/// Certificates are kept below the certificate directory: the ACME account
/// of the production directory under
/// `accounts/acme-v01.api.letsencrypt.org/directory`, the current files of a
/// certificate under `live/<primary name>`.
pub proof fn lemma_storage_layout(certpath: Seq<char>, primary: Seq<char>)
    ensures
        account_dir_spec(certpath) == certpath + "/accounts/acme-v01.api.letsencrypt.org/directory"@,
        live_dir_spec(certpath, primary) == certpath + "/live/"@ + primary,
{
}

/// A file to write below the live directory of a certificate.
#[derive(Debug, Clone, PartialEq, Eq)]
pub struct LiveFile {
    pub path: String,
    pub contents: String,
}

/// The directory that holds the current files of a certificate.
pub open spec fn live_dir_spec(certpath: Seq<char>, primary: Seq<char>) -> Seq<char> {
    certpath + "/live/"@ + primary
}

/// The directory that holds the current files of the certificate whose
/// primary name is `primary`.
pub fn live_dir(certpath: &str, primary: &str) -> (r: String)
    ensures
        r@ == live_dir_spec(certpath@, primary@),
{
    let mut s = String::from_str(certpath);
    s.append("/live/");
    s.append(primary);
    s
}

fn live_file(dir: &String, name: &str, contents: String) -> (r: LiveFile)
    ensures
        r.path@ == dir@ + name@,
        r.contents@ == contents@,
{
    let mut path = dir.clone();
    path.append(name);
    LiveFile { path, contents }
}

/// The files that store an issued certificate: the full chain, the private
/// key, the leaf certificate and the rest of the chain, in the order they
/// are written.
pub fn live_files(certpath: &str, primary: &str, fullchain: &str, private_key: &str) -> (r: Vec<LiveFile>)
    ensures
        r@.len() == 4,
        r@[0].path@ == live_dir_spec(certpath@, primary@) + "/fullchain.pem"@,
        r@[0].contents@ == fullchain@,
        r@[1].path@ == live_dir_spec(certpath@, primary@) + "/privkey.pem"@,
        r@[1].contents@ == private_key@,
        r@[2].path@ == live_dir_spec(certpath@, primary@) + "/cert.pem"@,
        r@[3].path@ == live_dir_spec(certpath@, primary@) + "/chain.pem"@,
        chain_split(fullchain@, r@[2].contents@, r@[3].contents@),
{
    let dir = live_dir(certpath, primary);
    let (leaf, chain) = split_fullchain(fullchain);
    let mut files: Vec<LiveFile> = Vec::new();
    files.push(live_file(&dir, "/fullchain.pem", fullchain.to_owned()));
    files.push(live_file(&dir, "/privkey.pem", private_key.to_owned()));
    files.push(live_file(&dir, "/cert.pem", leaf));
    files.push(live_file(&dir, "/chain.pem", chain));
    files
}

} // verus!
