pub mod dns;
pub mod dns_config;
pub mod domain;
pub mod providers;
pub mod secrets;
pub mod text;
pub mod types;
pub mod commands;
pub mod issuance;
pub mod provider_commands;
pub mod export;
pub mod issuer;
pub mod storage;
pub mod migration;
pub mod csr;
pub mod records;
pub mod flow;
pub mod keygen;
