# sslboard_desktop

The core of a desktop tool that issues, stores and exports TLS certificates
through ACME DNS-01 challenges, written in Verus: every function under `src/` is verified, and each
public function states in its `ensures` what it returns or changes.

- `src/` – the verified library: domain normalization, DNS-01 record names and
  propagation readings, provider resolution by domain suffix, DNS provider
  adapters' decisions, secret sealing and the master-key vault, issuance
  planning and the pending issuance sessions with the steps that complete an
  order, private key generation and CSR building, CSR reading and names,
  certificate records and their database rows, export rules, the checks of
  provider credentials, and the migration of legacy zone mappings. Calls into
  outside crates (idna, pem, aes-gcm, base64, serde_json, chrono, sha2,
  x509-parser, rcgen, and instant-acme's key generation) sit behind small
  trusted wrappers whose doc comments say what they claim.
- `tests/` – tests on concrete values, run against the real outside crates.
- `app/` – the unverified shell: SQLite storage, the OS keyring, DNS-over-HTTPS
  queries, the provider HTTP APIs, and the ACME flows (instant-acme) driven
  by the library's decisions.
