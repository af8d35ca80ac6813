use certbot_alfahosting::config::{
    sample_configuration, AcmeConfig, AlfahostingConfig, Certpath, DirectoryUrl, DomainValue,
    ImapConfig,
};

#[test]
fn default_certpath() {
    assert_eq!(Certpath::default(), Certpath("/etc/letsencrypt".to_string()));
}

#[test]
fn default_directory_url_is_production() {
    assert_eq!(
        DirectoryUrl::default().0,
        "https://acme-v02.api.letsencrypt.org/directory"
    );
}

#[test]
fn sample_configuration_values() {
    let c = sample_configuration();
    assert_eq!(c.certpath, Certpath(".".to_string()));
    assert_eq!(
        c.alfahosting,
        AlfahostingConfig {
            username: "testuser".to_string(),
            password: "testpass".to_string(),
            ipid: "123456".to_string(),
        }
    );
    assert_eq!(
        c.imap,
        ImapConfig {
            domain: "imap.example.com".to_string(),
            port: 993,
            username: "username".to_string(),
            password: "password".to_string(),
        }
    );
    assert_eq!(
        c.acme,
        AcmeConfig {
            directory_url: DirectoryUrl("https://acme-staging-v02.api.letsencrypt.org/directory".to_string()),
            account: "user@example.com".to_string(),
        }
    );
    let domains = c.domains.unwrap();
    assert_eq!(domains.len(), 1);
    assert_eq!(domains[0].names, "example.com");
    assert_eq!(domains[0].value, DomainValue::Text("123456".to_string()));
}
