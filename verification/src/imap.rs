//! Finding the login protection code in the mail inbox.
//!
//! Alfahosting mails a six-digit code when a login comes from a new device.
//! The caller fetches messages from the inbox, newest first, and hands them
//! to [`InboxScan`], which decides which message to fetch next and picks the
//! code out of the first matching mail.
use vstd::prelude::*;
use vstd::utf8::{valid_utf8, decode_utf8, encode_utf8};

verus! {

broadcast use vstd::string::group_string_axioms;

/// What the regex crate yields for the capture group named `group` of
/// `pattern` in `text`: `None` where the pattern does not compile,
/// `Some(None)` where nothing matches (or the group takes no part in the
/// leftmost match), else the text of the group in the leftmost match.
pub uninterp spec fn regex_capture(pattern: Seq<char>, group: Seq<char>, text: Seq<char>) -> Option<
    Option<Seq<char>>,
>;

/// Compiles `pattern` with `regex::Regex::new` and, on success, takes the
/// group named `group` of the leftmost match in `text` with
/// `Regex::captures` and `Captures::name`. The result is named by
/// `regex_capture`; the one fact stated beside the name is that a captured
/// group is a piece of `text` (the crate's `Match::as_str` is the matched
/// part of the haystack). Which piece, and whether there is one, is left to
/// the name.
#[verifier::external_body]
fn capture_group(pattern: &str, group: &str, text: &str) -> (r: Option<Option<String>>)
    ensures
        match r {
            None => regex_capture(pattern@, group@, text@) is None,
            Some(None) => regex_capture(pattern@, group@, text@) == Some(None::<Seq<char>>),
            Some(Some(c)) => {
                &&& regex_capture(pattern@, group@, text@) == Some(Some(c@))
                &&& exists|i: int|
                    0 <= i && i + c@.len() <= text@.len() && #[trigger] text@.subrange(
                        i,
                        i + c@.len(),
                    ) == c@
            },
        },
{
    let re = match regex::Regex::new(pattern) {
        Ok(re) => re,
        Err(_) => return None,
    };
    let caps = match re.captures(text) {
        Some(caps) => caps,
        None => return Some(None),
    };
    match caps.name(group) {
        Some(found) => Some(Some(found.as_str().to_string())),
        None => Some(None),
    }
}

/// Calls `std::str::from_utf8`, which succeeds exactly on valid UTF-8 and
/// then yields the text those bytes encode.
#[verifier::external_body]
fn str_from_utf8(bytes: &[u8]) -> (r: Option<&str>)
    ensures
        r is Some <==> valid_utf8(bytes@),
        r matches Some(s) ==> s@ == decode_utf8(bytes@),
{
    std::str::from_utf8(bytes).ok()
}

/// The subject of the mail that carries a login code, as it arrives in the
/// envelope (RFC 2047 encoded).
pub open spec fn login_subject() -> Seq<u8> {
    encode_utf8("=?UTF-8?Q?Alfahosting_-_Anmeldung_von_einem_neuen_Ger=C3=A4t?="@)
}

/// The pattern of the code in the mail body: six digits between two pairs
/// of white space characters, the digits captured as `code`.
pub open spec fn login_code_pattern() -> Seq<char> {
    "\\s{2}(?P<code>\\d{6})\\s{2}"@
}

/// The name of the captured group that holds the code.
pub open spec fn code_group() -> Seq<char> {
    "code"@
}

/// Why a message could not be searched for a code.
#[derive(Debug, Clone, Copy, PartialEq, Eq, Structural)]
pub enum MessageError {
    /// The message came without envelope or without subject.
    MissingSubject,
    /// The login mail came without body text.
    MissingBody,
    /// The body of the login mail is not UTF-8.
    NotUtf8,
    /// The code pattern was refused by the regex engine.
    PatternRejected,
    /// The body of the login mail holds no code.
    NoCode,
}

/// A message as fetched from the inbox: the subject from its envelope and
/// its body text, where the server sent them.
#[derive(Debug, Clone, PartialEq, Eq)]
pub struct FetchedMessage {
    pub subject: Option<Vec<u8>>,
    pub text: Option<Vec<u8>>,
}

/// The bytes held, if any.
pub open spec fn opt_bytes(o: Option<Vec<u8>>) -> Option<Seq<u8>> {
    match o {
        Some(v) => Some(v@),
        None => None,
    }
}

/// What a message yields: no code where it is not the login mail, the
/// code where it is, or why it could not be read.
pub open spec fn message_outcome(subject: Option<Seq<u8>>, text: Option<Seq<u8>>) -> Result<
    Option<Seq<char>>,
    MessageError,
> {
    match subject {
        None => Err(MessageError::MissingSubject),
        Some(s) => if s != login_subject() {
            Ok(None)
        } else {
            match text {
                None => Err(MessageError::MissingBody),
                Some(t) => if !valid_utf8(t) {
                    Err(MessageError::NotUtf8)
                } else {
                    capture_outcome(regex_capture(login_code_pattern(), code_group(), decode_utf8(t)))
                },
            }
        },
    }
}

fn bytes_equal(a: &[u8], b: &[u8]) -> (r: bool)
    ensures
        r == (a@ == b@),
{
    if a.len() != b.len() {
        return false;
    }
    let n = a.len();
    let mut i: usize = 0;
    while i < n
        invariant
            n == a@.len(),
            n == b@.len(),
            i <= n,
            forall|j: int| 0 <= j < i ==> a@[j] == b@[j],
        decreases n - i,
    {
        if a[i] != b[i] {
            return false;
        }
        i = i + 1;
    }
    assert(a@ =~= b@);
    true
}

/// Whether a subject is that of the login mail.
pub fn is_login_subject(subject: &[u8]) -> (r: bool)
    ensures
        r == (subject@ == login_subject()),
{
    let expected = "=?UTF-8?Q?Alfahosting_-_Anmeldung_von_einem_neuen_Ger=C3=A4t?=".as_bytes();
    bytes_equal(subject, expected)
}

/// The view of a capture result.
pub open spec fn capture_view(capture: Option<Option<String>>) -> Option<Option<Seq<char>>> {
    match capture {
        None => None,
        Some(None) => Some(None),
        Some(Some(c)) => Some(Some(c@)),
    }
}

/// What the login mail yields, given what the code pattern captured in its
/// body: the code, or that the pattern was refused or matched nothing.
pub open spec fn capture_outcome(capture: Option<Option<Seq<char>>>) -> Result<
    Option<Seq<char>>,
    MessageError,
> {
    match capture {
        None => Err(MessageError::PatternRejected),
        Some(None) => Err(MessageError::NoCode),
        Some(Some(c)) => Ok(Some(c)),
    }
}

/// Turns what the code pattern captured in the body of the login mail into
/// the code, or into the reason there is none.
pub fn code_from_capture(capture: Option<Option<String>>) -> (r: Result<Option<String>, MessageError>)
    ensures
        match (r, capture_outcome(capture_view(capture))) {
            (Ok(Some(c)), Ok(Some(code))) => c@ == code,
            (Ok(None), Ok(None)) => true,
            (Err(e), Err(f)) => e == f,
            _ => false,
        },
{
    match capture {
        None => Err(MessageError::PatternRejected),
        Some(None) => Err(MessageError::NoCode),
        Some(Some(code)) => Ok(Some(code)),
    }
}

/// Searches one fetched message for the login code, saying which part of
/// it was missing or unreadable where the message is the login mail.
pub fn try_login_code(message: &FetchedMessage) -> (r: Result<Option<String>, MessageError>)
    ensures
        match (r, message_outcome(opt_bytes(message.subject), opt_bytes(message.text))) {
            (Ok(Some(c)), Ok(Some(code))) => c@ == code,
            (Ok(None), Ok(None)) => true,
            (Err(e), Err(f)) => e == f,
            _ => false,
        },
{
    let subject = match &message.subject {
        Some(s) => s.as_slice(),
        None => {
            return Err(MessageError::MissingSubject);
        },
    };
    if !is_login_subject(subject) {
        return Ok(None);
    }
    let text = match &message.text {
        Some(t) => t.as_slice(),
        None => {
            return Err(MessageError::MissingBody);
        },
    };
    let body = match str_from_utf8(text) {
        Some(b) => b,
        None => {
            return Err(MessageError::NotUtf8);
        },
    };
    let capture = capture_group("\\s{2}(?P<code>\\d{6})\\s{2}", "code", body);
    code_from_capture(capture)
}


/// What the messages of one fetch yield: the outcome of the first message
/// that is the login mail or cannot be read, or no code where there is none.
pub open spec fn scan_outcome(messages: Seq<FetchedMessage>) -> Result<Option<Seq<char>>, MessageError>
    decreases messages.len(),
{
    if messages.len() == 0 {
        Ok(None)
    } else {
        match message_outcome(opt_bytes(messages[0].subject), opt_bytes(messages[0].text)) {
            Ok(None) => scan_outcome(messages.drop_first()),
            other => other,
        }
    }
}

/// How many messages below the newest one the inbox is searched.
pub const SCAN_DEPTH: u32 = 20;

/// The code used when the inbox holds no login mail.
pub open spec fn fallback_code() -> Seq<char> {
    "test"@
}

/// The code the client goes on with when no login mail was found.
pub fn fallback_login_code() -> (r: String)
    ensures
        r@ == fallback_code(),
{
    String::from_str("test")
}

/// What the caller does next while searching the inbox.
#[derive(Debug, Clone, PartialEq, Eq)]
pub enum ScanAction {
    /// Fetch the envelope and text of the message with this sequence number.
    Fetch(u32),
    /// The login code was found.
    Found(String),
    /// The search went as deep as it goes without finding a code: log out
    /// and go on with the fallback code.
    Exhausted,
    /// The next message to search would lie below the first one of the
    /// inbox.
    OutOfMessages,
}

/// The search for the login code, newest message first.
pub struct InboxScan {
    newest: u32,
    scanned: u32,
}

impl InboxScan {
    #[verifier::type_invariant]
    spec fn inv(self) -> bool {
        self.scanned <= SCAN_DEPTH
    }

    /// The sequence number of the newest message.
    pub closed spec fn newest(self) -> int {
        self.newest as int
    }

    /// How many fetches have been searched without finding a code.
    pub closed spec fn scanned(self) -> int {
        self.scanned as int
    }

    /// The sequence number of the newest message; every scan state has one
    /// that fits a `u32`.
    pub fn newest_message(&self) -> (r: u32)
        ensures
            r == self.newest(),
            0 <= self.newest() <= u32::MAX,
    {
        self.newest
    }

    /// How many fetches have been searched without finding a code; in every
    /// scan state at most `SCAN_DEPTH`.
    pub fn scanned_so_far(&self) -> (r: u32)
        ensures
            r == self.scanned(),
            0 <= self.scanned() <= SCAN_DEPTH,
    {
        proof {
            use_type_invariant(self);
        }
        self.scanned
    }

    /// Starts the search at the newest message, `newest` being the number
    /// of messages in the inbox.
    pub fn new(newest: u32) -> (r: (Self, ScanAction))
        ensures
            r.0.newest() == newest,
            r.0.scanned() == 0,
            0 <= r.0.newest() <= u32::MAX,
            r.1 == ScanAction::Fetch(newest),
    {
        (InboxScan { newest, scanned: 0 }, ScanAction::Fetch(newest))
    }

    /// Reports the messages of the last fetch. The first of them that is
    /// the login mail ends the search with its code, or with the reason it
    /// could not be read; where none is, the next older message is fetched,
    /// until the search has gone `SCAN_DEPTH` messages deep.
    pub fn messages_fetched(&mut self, messages: &Vec<FetchedMessage>) -> (r: Result<ScanAction, MessageError>)
        ensures
            final(self).newest() == old(self).newest(),
            0 <= final(self).newest() <= u32::MAX,
            0 <= final(self).scanned() <= SCAN_DEPTH,
            match scan_outcome(messages@) {
                Err(e) => r == Err::<ScanAction, MessageError>(e) && final(self).scanned() == old(
                    self,
                ).scanned(),
                Ok(Some(code)) => (r matches Ok(ScanAction::Found(c)) && c@ == code)
                    && final(self).scanned() == old(self).scanned(),
                Ok(None) => {
                    &&& final(self).scanned() == if old(self).scanned() < SCAN_DEPTH {
                        old(self).scanned() + 1
                    } else {
                        old(self).scanned()
                    }
                    &&& final(self).scanned() == SCAN_DEPTH ==> r == Ok::<ScanAction, MessageError>(
                        ScanAction::Exhausted,
                    )
                    &&& (final(self).scanned() < SCAN_DEPTH && final(self).scanned() > old(
                        self,
                    ).newest()) ==> r == Ok::<ScanAction, MessageError>(ScanAction::OutOfMessages)
                    &&& (final(self).scanned() < SCAN_DEPTH && final(self).scanned() <= old(
                        self,
                    ).newest()) ==> r == Ok::<ScanAction, MessageError>(
                        ScanAction::Fetch((old(self).newest() - final(self).scanned()) as u32),
                    )
                },
            },
    {
        proof {
            use_type_invariant(&*self);
        }
        let n = messages.len();
        let mut i: usize = 0;
        assert(messages@.skip(0) =~= messages@);
        while i < n
            invariant
                n == messages@.len(),
                i <= n,
                self.scanned <= SCAN_DEPTH,
                scan_outcome(messages@) == scan_outcome(messages@.skip(i as int)),
            decreases n - i,
        {
            assert(messages@.skip(i as int)[0] == messages@[i as int]);
            assert(messages@.skip(i as int).drop_first() =~= messages@.skip(i + 1));
            match try_login_code(&messages[i]) {
                Err(e) => {
                    return Err(e);
                },
                Ok(Some(code)) => {
                    return Ok(ScanAction::Found(code));
                },
                Ok(None) => {},
            }
            i = i + 1;
        }
        assert(messages@.skip(n as int) =~= Seq::<FetchedMessage>::empty());
        if self.scanned < SCAN_DEPTH {
            self.scanned = self.scanned + 1;
        }
        if self.scanned == SCAN_DEPTH {
            Ok(ScanAction::Exhausted)
        } else if self.scanned > self.newest {
            Ok(ScanAction::OutOfMessages)
        } else {
            Ok(ScanAction::Fetch(self.newest - self.scanned))
        }
    }
}

/// A failure talking to the mail server, with its message.
#[derive(Debug, Clone, PartialEq, Eq)]
pub struct ImapError(pub String);

impl ImapError {
    /// The message of the failure.
    pub fn description(&self) -> (r: &str)
        ensures
            r@ == self.0@,
    {
        self.0.as_str()
    }
}

} // verus!
