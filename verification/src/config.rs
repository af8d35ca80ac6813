use vstd::prelude::*;

verus! {

/// Directory under which certificates and ACME accounts are stored.
#[derive(Debug, Clone, PartialEq, Eq)]
pub struct Certpath(pub String);

/// The certificate directory used when the configuration names none.
pub open spec fn default_certpath() -> Seq<char> {
    "/etc/letsencrypt"@
}

impl Default for Certpath {
    fn default() -> (r: Self)
        ensures
            r.0@ == default_certpath(),
    {
        Certpath(String::from_str("/etc/letsencrypt"))
    }
}

/// Credentials of the Alfahosting customer account and the contract whose
/// DNS settings are edited.
#[derive(Debug, Clone, PartialEq, Eq)]
pub struct AlfahostingConfig {
    pub username: String,
    pub password: String,
    pub ipid: String,
}

/// The mailbox that receives the login protection code.
#[derive(Debug, Clone, PartialEq, Eq)]
pub struct ImapConfig {
    pub domain: String,
    pub port: u16,
    pub username: String,
    pub password: String,
}

/// ACME directory and the account e-mail used with it.
#[derive(Debug, Clone, PartialEq, Eq)]
pub struct AcmeConfig {
    pub directory_url: DirectoryUrl,
    pub account: String,
}

/// URL of an ACME directory.
#[derive(Debug, Clone, PartialEq, Eq)]
pub struct DirectoryUrl(pub String);

/// The ACME directory used when the configuration names none.
pub open spec fn default_directory_url() -> Seq<char> {
    "https://acme-v02.api.letsencrypt.org/directory"@
}

impl Default for DirectoryUrl {
    fn default() -> (r: Self)
        ensures
            r.0@ == default_directory_url(),
    {
        DirectoryUrl(String::from_str("https://acme-v02.api.letsencrypt.org/directory"))
    }
}


/// The kind of a configured value that is not a string.
#[derive(Debug, Clone, Copy, PartialEq, Eq, Structural)]
pub enum ValueKind {
    Array,
    Boolean,
    Datetime,
    Float,
    Integer,
    Table,
}

/// The value configured for a list of domain names: the Alfahosting id of
/// the domain, or a value of another kind with its TOML text.
#[derive(Debug, Clone, PartialEq, Eq)]
pub enum DomainValue {
    Text(String),
    Other(ValueKind, String),
}

/// One entry of the `[domains]` table: a space-separated list of names and
/// the value configured for it.
#[derive(Debug, Clone, PartialEq, Eq)]
pub struct DomainEntry {
    pub names: String,
    pub value: DomainValue,
}

/// The whole configuration of the client.
#[derive(Debug, Clone, PartialEq, Eq)]
pub struct Configuration {
    pub certpath: Certpath,
    pub alfahosting: AlfahostingConfig,
    pub imap: ImapConfig,
    pub acme: AcmeConfig,
    pub domains: Option<Vec<DomainEntry>>,
}

fn owned(s: &str) -> (r: String)
    ensures
        r@ == s@,
{
    String::from_str(s)
}

/// A complete example configuration, with one domain.
pub fn sample_configuration() -> (c: Configuration)
    ensures
        c.certpath.0@ == "."@,
        c.alfahosting.username@ == "testuser"@,
        c.alfahosting.password@ == "testpass"@,
        c.alfahosting.ipid@ == "123456"@,
        c.imap.domain@ == "imap.example.com"@,
        c.imap.port == 993,
        c.imap.username@ == "username"@,
        c.imap.password@ == "password"@,
        c.acme.directory_url.0@ == "https://acme-staging-v02.api.letsencrypt.org/directory"@,
        c.acme.account@ == "user@example.com"@,
        c.domains is Some,
        c.domains->0@.len() == 1,
        c.domains->0@[0].names@ == "example.com"@,
        c.domains->0@[0].value matches DomainValue::Text(id) && id@ == "123456"@,
{
    let mut domains: Vec<DomainEntry> = Vec::new();
    domains.push(DomainEntry { names: owned("example.com"), value: DomainValue::Text(owned("123456")) });
    Configuration {
        certpath: Certpath(owned(".")),
        alfahosting: AlfahostingConfig {
            username: owned("testuser"),
            password: owned("testpass"),
            ipid: owned("123456"),
        },
        imap: ImapConfig {
            domain: owned("imap.example.com"),
            port: 993,
            username: owned("username"),
            password: owned("password"),
        },
        acme: AcmeConfig {
            directory_url: DirectoryUrl(
                owned("https://acme-staging-v02.api.letsencrypt.org/directory"),
            ),
            account: owned("user@example.com"),
        },
        domains: Some(domains),
    }
}

} // verus!
