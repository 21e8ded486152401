use dina::cli_config::{CliConfig, ConfigError, OutputFormat};

fn config() -> CliConfig {
    CliConfig {
        rpc_url: "http://localhost:8545".to_string(),
        rest_url: "http://localhost:8080".to_string(),
        default_wallet: None,
        chain_id: "dina-testnet-1".to_string(),
        output_format: OutputFormat::Pretty,
        wallet_dir: ".dina/wallets".to_string(),
    }
}

#[test]
fn test_set_urls_and_chain() {
    let mut c = config();
    assert_eq!(c.set_value("rpc-url", "http://node:1"), Ok(()));
    assert_eq!(c.rpc_url, "http://node:1");
    assert_eq!(c.set_value("rest_url", "http://node:2"), Ok(()));
    assert_eq!(c.rest_url, "http://node:2");
    assert_eq!(c.set_value("chain-id", "dina-mainnet"), Ok(()));
    assert_eq!(c.chain_id, "dina-mainnet");
    assert_eq!(c.set_value("wallet_dir", "/tmp/w"), Ok(()));
    assert_eq!(c.wallet_dir, "/tmp/w");
}

#[test]
fn test_set_format_any_case() {
    let mut c = config();
    assert_eq!(c.set_value("format", "JSON"), Ok(()));
    assert_eq!(c.output_format, OutputFormat::Json);
    assert_eq!(c.set_value("output-format", "Table"), Ok(()));
    assert_eq!(c.output_format, OutputFormat::Table);
    let err = c.set_value("output_format", "xml").unwrap_err();
    assert_eq!(err, ConfigError::InvalidFormat("xml".to_string()));
    assert_eq!(err.message(), "invalid output format 'xml', expected: pretty, json, table");
    assert_eq!(c.output_format, OutputFormat::Table);
}

#[test]
fn test_default_wallet_set_and_clear() {
    let mut c = config();
    assert_eq!(c.set_value("default-wallet", "alice"), Ok(()));
    assert_eq!(c.default_wallet, Some("alice".to_string()));
    assert_eq!(c.set_value("default_wallet", "none"), Ok(()));
    assert_eq!(c.default_wallet, None);
    c.set_value("default-wallet", "bob").unwrap();
    c.set_value("default-wallet", "").unwrap();
    assert_eq!(c.default_wallet, None);
}

#[test]
fn test_unknown_key() {
    let mut c = config();
    let err = c.set_value("colour", "red").unwrap_err();
    assert_eq!(err, ConfigError::UnknownKey("colour".to_string()));
    assert_eq!(
        err.message(),
        "unknown config key 'colour'. Valid keys: rpc-url, rest-url, chain-id, format, default-wallet, wallet-dir"
    );
    assert_eq!(c.rpc_url, "http://localhost:8545");
}

#[test]
fn test_effective_format() {
    let c = config();
    assert_eq!(c.effective_format(true), OutputFormat::Json);
    assert_eq!(c.effective_format(false), OutputFormat::Pretty);
}

#[test]
fn test_format_names() {
    assert_eq!(OutputFormat::Pretty.to_string(), "pretty");
    assert_eq!(OutputFormat::Table.to_string(), "table");
    assert_eq!("PrEtTy".parse::<OutputFormat>(), Ok(OutputFormat::Pretty));
    assert_eq!(OutputFormat::parse_name("json"), Ok(OutputFormat::Json));
    assert!(OutputFormat::parse_name("jsonx").is_err());
}
