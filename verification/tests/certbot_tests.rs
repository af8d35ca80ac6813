use certbot_alfahosting::certbot::{
    account_dir, live_dir, live_files, needs_renewal, renewed_message, request_failed_message,
    retry_report, split_fullchain, split_names, up_to_date_message, AcmeErrorKind,
};
use certbot_alfahosting::config::Certpath;

#[test]
fn names_split_into_primary_and_alternatives() {
    let (primary, alt) = split_names("*.example.com example.com www.example.com");
    assert_eq!(primary, "*.example.com");
    assert_eq!(alt, vec!["example.com".to_string(), "www.example.com".to_string()]);
}

#[test]
fn single_name_has_no_alternatives() {
    let (primary, alt) = split_names("example.com");
    assert_eq!(primary, "example.com");
    assert!(alt.is_empty());
}

#[test]
fn empty_pieces_are_kept_like_str_split() {
    let (primary, alt) = split_names(" a  b ");
    assert_eq!(primary, "");
    assert_eq!(alt, vec!["a", "", "b", ""]);
    let (primary, alt) = split_names("");
    assert_eq!(primary, "");
    assert!(alt.is_empty());
}

#[test]
fn names_roundtrip_through_split_and_join() {
    for names in ["a b c", "x", "", " lead", "trail ", "a  b", "äö ü"] {
        let (primary, alt) = split_names(names);
        let mut all = vec![primary];
        all.extend(alt);
        assert_eq!(all.join(" "), names);
        let expected: Vec<String> = names.split(' ').map(|s| s.to_string()).collect();
        assert_eq!(all, expected);
    }
}

#[test]
fn account_directory_is_below_certpath() {
    let dir = account_dir(&Certpath("/etc/letsencrypt".to_string()));
    assert_eq!(dir, "/etc/letsencrypt/accounts/acme-v01.api.letsencrypt.org/directory");
}

#[test]
fn renewal_threshold_is_thirty_days() {
    assert!(needs_renewal(None));
    assert!(needs_renewal(Some(30)));
    assert!(needs_renewal(Some(-2)));
    assert!(!needs_renewal(Some(31)));
    assert!(!needs_renewal(Some(89)));
}

#[test]
fn messages_name_the_certificate() {
    assert_eq!(up_to_date_message("example.com"), "Certificate \"example.com\" does not need to be renewed.");
    assert_eq!(renewed_message("example.com"), "Certificate \"example.com\" has been successfully renewed.");
    assert_eq!(
        request_failed_message("a.de b.de", "boom"),
        "An error occured while getting certificate for \"a.de b.de\": boom"
    );
}

#[test]
fn retry_reports_name_the_error_kind_and_count() {
    assert_eq!(
        retry_report(AcmeErrorKind::ApiProblem, "a.de", 4, "bad"),
        "An api error occured while trying to validate dns challenge for \"a.de\" (retrying 4 times): bad"
    );
    assert_eq!(
        retry_report(AcmeErrorKind::Base64Decode, "a.de", 0, "x"),
        "A base64 error occured while trying to validate dns challenge for \"a.de\" (retrying 0 times): x"
    );
    assert!(retry_report(AcmeErrorKind::Call, "n", 1, "").starts_with("A call error"));
    assert!(retry_report(AcmeErrorKind::Io, "n", 1, "").starts_with("An I/O error"));
    assert!(retry_report(AcmeErrorKind::Json, "n", 1, "").starts_with("A json error"));
    assert!(retry_report(AcmeErrorKind::Other, "n", 123456, "").contains("(retrying 123456 times)"));
    assert!(retry_report(AcmeErrorKind::Other, "n", 1, "").starts_with("An undefined error"));
}

#[test]
fn fullchain_splits_at_first_blank_line() {
    let (leaf, chain) = split_fullchain("LEAF\n\nINTER\n\nROOT\n");
    assert_eq!(leaf, "LEAF");
    assert_eq!(chain, "INTER\n\nROOT\n");
    assert_eq!(format!("{}\n\n{}", leaf, chain), "LEAF\n\nINTER\n\nROOT\n");
}

#[test]
fn fullchain_without_blank_line_is_all_leaf() {
    let (leaf, chain) = split_fullchain("ONLY\nONE\n");
    assert_eq!(leaf, "ONLY\nONE\n");
    assert_eq!(chain, "");
}

#[test]
fn fullchain_split_matches_str_split() {
    for pem in ["a\n\n\nb", "\n\nx", "x\n\n", "", "a\n\nb\n\nc", "é\n\nü"] {
        let (leaf, chain) = split_fullchain(pem);
        let parts: Vec<&str> = pem.split("\n\n").collect();
        let (first, rest) = parts.split_first().unwrap();
        assert_eq!(leaf, *first);
        assert_eq!(chain, rest.join("\n\n"));
    }
}

#[test]
fn live_files_are_written_below_the_live_directory() {
    assert_eq!(live_dir("/etc/le", "*.a.de"), "/etc/le/live/*.a.de");
    let files = live_files("/etc/le", "a.de", "CERT\n\nCHAIN", "KEY");
    let paths: Vec<&str> = files.iter().map(|f| f.path.as_str()).collect();
    assert_eq!(
        paths,
        vec![
            "/etc/le/live/a.de/fullchain.pem",
            "/etc/le/live/a.de/privkey.pem",
            "/etc/le/live/a.de/cert.pem",
            "/etc/le/live/a.de/chain.pem",
        ]
    );
    let contents: Vec<&str> = files.iter().map(|f| f.contents.as_str()).collect();
    assert_eq!(contents, vec!["CERT\n\nCHAIN", "KEY", "CERT", "CHAIN"]);
}
