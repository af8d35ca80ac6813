//! What the client does for each entry of the `[domains]` table.
use vstd::prelude::*;
use crate::config::{DomainEntry, DomainValue};

verus! {

broadcast use vstd::string::group_string_axioms;

/// Milliseconds to wait between two entries of the `[domains]` table.
pub const DOMAIN_PAUSE_MS: u64 = 30000;

/// Milliseconds to wait after publishing a DNS proof before validating it.
pub const PROPAGATION_WAIT_MS: u64 = 5000;

/// Least milliseconds to wait for the mailed login code to arrive.
pub const CODE_WAIT_BASE_MS: u64 = 15000;

/// Random share of the wait for the mailed login code, in milliseconds.
pub const CODE_WAIT_SPREAD_MS: u64 = 15000;

/// The work for one entry of the `[domains]` table.
#[derive(Debug, Clone, PartialEq, Eq)]
pub enum DomainTask {
    /// Request a certificate for the names, editing the zone of the
    /// domain with this Alfahosting id.
    Request { names: String, alfahosting_id: String },
    /// Skip the entry, reporting the message.
    Reject { message: String },
}

/// The report for an entry whose value is not a string.
pub open spec fn invalid_type_message(names: Seq<char>) -> Seq<char> {
    "Invalid type for domains \""@ + names + "\". Must be a string."@
}

/// The work an entry asks for: a request where its value is a string, else
/// a report that the value has the wrong type.
pub open spec fn task_for(names: Seq<char>, value: DomainValue, task: DomainTask) -> bool {
    match value {
        DomainValue::Text(id) => task matches DomainTask::Request { names: n, alfahosting_id: a }
            && n@ == names && a@ == id@,
        DomainValue::Other(_, _) => task matches DomainTask::Reject { message: m } && m@
            == invalid_type_message(names),
    }
}

/// The work for one entry.
pub fn plan_domain(entry: &DomainEntry) -> (r: DomainTask)
    ensures
        task_for(entry.names@, entry.value, r),
{
    match &entry.value {
        DomainValue::Text(id) => DomainTask::Request { names: entry.names.clone(), alfahosting_id: id.clone() },
        DomainValue::Other(_, _) => {
            let mut message = String::from_str("Invalid type for domains \"");
            message.append(entry.names.as_str());
            message.append("\". Must be a string.");
            DomainTask::Reject { message }
        },
    }
}

/// The work for every entry, in the order of the entries.
pub fn plan_domains(entries: &Vec<DomainEntry>) -> (r: Vec<DomainTask>)
    ensures
        r@.len() == entries@.len(),
        forall|i: int|
            0 <= i < entries@.len() ==> task_for(
                entries@[i].names@,
                entries@[i].value,
                #[trigger] r@[i],
            ),
{
    let mut tasks: Vec<DomainTask> = Vec::new();
    let n = entries.len();
    for i in 0..n
        invariant
            n == entries@.len(),
            tasks@.len() == i,
            forall|j: int|
                0 <= j < i ==> task_for(entries@[j].names@, entries@[j].value, #[trigger] tasks@[j]),
    {
        tasks.push(plan_domain(&entries[i]));
    }
    tasks
}

/// How the browser is started.
#[derive(Debug, Clone, Copy, PartialEq, Eq)]
pub struct BrowserSettings {
    pub idle_timeout_ms: u64,
    pub headless: bool,
    pub sandbox: bool,
    pub port: u16,
}

/// A headless browser without sandbox on port 8467 that closes after five
/// idle minutes.
pub fn browser_settings() -> (r: BrowserSettings)
    ensures
        r.idle_timeout_ms == 300000,
        r.headless,
        !r.sandbox,
        r.port == 8467,
{
    BrowserSettings { idle_timeout_ms: 300000, headless: true, sandbox: false, port: 8467 }
}

} // verus!
