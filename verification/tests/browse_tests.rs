use certbot_alfahosting::browse::{
    attribute_value, close_domain_script, create_acme_script, delete_entry_script,
    delete_prelude_script, dns_script, entries_selector, jitter, last_entry_id,
    login_error_selector, login_protection_selector, open_domain_script, overwrite_popups_script,
    pick_delay, save_script, signin_script, solve_login_protection_script, txt_record_line,
    BrowserStep,
};
use std::collections::HashSet;

fn s(x: &str) -> String {
    x.to_string()
}

/// Every step that acts on an element follows a step that located it.
fn assert_well_bound(steps: &[BrowserStep]) {
    let mut found: HashSet<String> = HashSet::new();
    for step in steps {
        match step {
            BrowserStep::Find(sel) => {
                found.insert(sel.clone());
            }
            BrowserStep::Click(sel)
            | BrowserStep::TypeInto(sel, _)
            | BrowserStep::ScrollIntoView(sel)
            | BrowserStep::CallJs(sel, _) => assert!(found.contains(sel), "{} used before found", sel),
            _ => {}
        }
    }
}

#[test]
fn signin_script_steps() {
    let steps = signin_script("alfauser", "alfapassword");
    assert_eq!(steps.len(), 17);
    assert_eq!(steps[0], BrowserStep::Navigate(s("https://alfahosting.de/kunden-login/")));
    assert_eq!(steps[4], BrowserStep::Pause(5000, 3000));
    assert_eq!(steps[12], BrowserStep::TypeInto(s("#username"), s("alfauser")));
    assert_eq!(steps[13], BrowserStep::TypeInto(s("#password"), s("alfapassword")));
    assert_eq!(
        steps[16],
        BrowserStep::FailIfPresent(
            s("#login.errorSection"),
            s("The provided username or password was not correct.")
        )
    );
    assert_well_bound(&steps);
}

#[test]
fn protection_script_types_the_code() {
    let steps = solve_login_protection_script("123456");
    assert_eq!(steps.len(), 10);
    assert_eq!(steps[6], BrowserStep::TypeInto(s("#loginProtectionForm #code"), s("123456")));
    assert_eq!(
        steps[9],
        BrowserStep::FailIfPresent(s("#login.errorSection"), s("The provided code was incorrect."))
    );
    assert_eq!(login_protection_selector(), "#loginProtectionForm");
    assert_eq!(login_error_selector(), "#login.errorSection");
    assert_well_bound(&steps);
}

#[test]
fn dns_script_opens_the_contract() {
    let steps = dns_script("000000");
    assert_eq!(
        steps[0],
        BrowserStep::Navigate(s(
            "https://secure.alfahosting.de/kunden/index.php/Kundencenter:Tarife?ipid=000000"
        ))
    );
    assert_eq!(steps.len(), 8);
    assert_well_bound(&steps);
}

#[test]
fn domain_scripts() {
    let open = open_domain_script("42");
    assert_eq!(open[0], BrowserStep::Find(s("#hdr42")));
    assert_eq!(open.len(), 8);
    assert_well_bound(&open);
    let close = close_domain_script("42");
    assert_eq!(
        close,
        vec![BrowserStep::Find(s("#hdr42")), BrowserStep::Click(s("#hdr42")), BrowserStep::Pause(500, 500)]
    );
    let popups = overwrite_popups_script();
    assert_eq!(popups.len(), 4);
    assert_eq!(popups[3], BrowserStep::Pause(500, 176));
    let save = save_script("42");
    assert_eq!(
        save[1],
        BrowserStep::CallJs(s("body"), s("function () {document.fire('dns:save_records',42);return false;}"))
    );
}

#[test]
fn create_script_adds_the_txt_record_then_saves_and_closes() {
    assert_eq!(
        txt_record_line("example.com", "proof"),
        "_acme-challenge.example.com. IN TXT \"proof\""
    );
    let steps = create_acme_script("42", "example.com", "abc");
    assert_eq!(steps.len(), 1 + 8 + 6 + 4 + 3 + 3);
    assert_eq!(steps[0], BrowserStep::Find(s("body")));
    assert_eq!(
        steps[9],
        BrowserStep::CallJs(s("body"), s("function () {document.fire('dns:add_zonelist', 42);return false;}"))
    );
    assert_eq!(
        steps[12],
        BrowserStep::TypeInto(s("#zonelist_pattern"), s("_acme-challenge.example.com. IN TXT \"abc\""))
    );
    let n = steps.len();
    assert_eq!(&steps[n - 6..n - 3], &save_script("42")[..]);
    assert_eq!(&steps[n - 3..], &close_domain_script("42")[..]);
    assert_well_bound(&steps);
}

#[test]
fn delete_scripts() {
    let prelude = delete_prelude_script("7");
    assert_eq!(prelude.len(), 12);
    assert_well_bound(&prelude);
    assert_eq!(entries_selector("7"), "#dns_entries_7 .dns_entry");
    let steps = delete_entry_script("7", "entry_3");
    assert_eq!(steps[0], BrowserStep::Find(s("#entry_3 .dns_entry_action")));
    assert_eq!(steps[1], BrowserStep::Click(s("#entry_3 .dns_entry_action")));
    assert_eq!(steps.len(), 8);
    assert_well_bound(&steps);
}

#[test]
fn attributes_are_looked_up_by_name() {
    let attrs = vec![s("class"), s("dns_entry"), s("id"), s("entry_9")];
    assert_eq!(attribute_value(&attrs, &s("id")), Some(s("entry_9")));
    assert_eq!(attribute_value(&attrs, &s("class")), Some(s("dns_entry")));
    assert_eq!(attribute_value(&attrs, &s("dns_entry")), None);
    assert_eq!(attribute_value(&vec![s("id")], &s("id")), None);
}

#[test]
fn last_entry_with_an_id_wins() {
    let entries = vec![
        Some(vec![s("id"), s("e1")]),
        Some(vec![s("id"), s("e2")]),
        None,
        Some(vec![s("class"), s("x")]),
    ];
    assert_eq!(last_entry_id(&entries), "e2");
    assert_eq!(last_entry_id(&vec![]), "");
    assert_eq!(last_entry_id(&vec![None]), "");
}

#[test]
fn delays_stay_in_range() {
    assert_eq!(pick_delay(500, 0), 500);
    for _ in 0..200 {
        let d = pick_delay(5000, 3000);
        assert!((5000..8000).contains(&d));
    }
    assert_eq!(jitter(12345, 1000), 345);
    assert_eq!(jitter(7, 8), 7);
}
