use certbot_alfahosting::config::{DomainEntry, DomainValue, ValueKind};
use certbot_alfahosting::domains::{browser_settings, plan_domain, plan_domains, DomainTask};

#[test]
fn string_values_request_certificates() {
    let entry = DomainEntry {
        names: "*.example.com example.com".to_string(),
        value: DomainValue::Text("000000".to_string()),
    };
    assert_eq!(
        plan_domain(&entry),
        DomainTask::Request {
            names: "*.example.com example.com".to_string(),
            alfahosting_id: "000000".to_string(),
        }
    );
}

#[test]
fn other_values_are_rejected_in_order() {
    let entries = vec![
        DomainEntry { names: "a.de".to_string(), value: DomainValue::Other(ValueKind::Integer, "5".to_string()) },
        DomainEntry { names: "b.de".to_string(), value: DomainValue::Text("7".to_string()) },
        DomainEntry { names: "c.de".to_string(), value: DomainValue::Other(ValueKind::Table, "{}".to_string()) },
    ];
    let tasks = plan_domains(&entries);
    assert_eq!(
        tasks,
        vec![
            DomainTask::Reject { message: "Invalid type for domains \"a.de\". Must be a string.".to_string() },
            DomainTask::Request { names: "b.de".to_string(), alfahosting_id: "7".to_string() },
            DomainTask::Reject { message: "Invalid type for domains \"c.de\". Must be a string.".to_string() },
        ]
    );
    assert!(plan_domains(&Vec::new()).is_empty());
}

#[test]
fn browser_is_headless_without_sandbox() {
    let s = browser_settings();
    assert_eq!(s.idle_timeout_ms, 300_000);
    assert!(s.headless);
    assert!(!s.sandbox);
    assert_eq!(s.port, 8467);
}
