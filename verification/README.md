# certbot_alfahosting

An ACME (Let's Encrypt) client that proves control of domains hosted at
Alfahosting with DNS-01 challenges, by editing the DNS zone through the
provider's customer web interface in a headless browser.

## Layout

- `src/` — the verified library (Verus):
  - `config.rs` — the configuration types and their defaults;
  - `challenge.rs` — the challenge driver: which authorization is proved
    next, the retry policy (five attempts per authorization), when the order
    is refreshed, finalized or given up;
  - `certbot.rs` — names of a certificate, account and certificate paths,
    the renewal decision, the split of a PEM full chain, the reports;
  - `browse.rs` — the browser scripts for login, login protection, DNS
    settings, adding and removing the challenge TXT record;
  - `imap.rs` — the search of the inbox for the mailed login code;
  - `domains.rs` — what is done for each configured domain entry;
  - `text.rs` — verified string helpers.
- `app/` — the program: reads the configuration file, drives Chrome, talks
  to the ACME directory and the IMAP server, writes certificate files.
- `tests/` — tests of the library.

## Configuration

The program reads `/etc/certbot-alfahosting/config.toml`. Left out,
`certpath` is `/etc/letsencrypt` and `directory_url` is
`https://acme-v02.api.letsencrypt.org/directory`:

```toml
[alfahosting]
username = "alfauser"
password = "alfapassword"
ipid = "000000"

[imap]
domain = "imap.example.com"
port = 993
username = "user@example.com"
password = "password"

[acme]
account = "user@example.com"

[domains]
"*.example.com example.com" = "000000"
```
