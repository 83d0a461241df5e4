use storage_node::config::{AppConfig, Environment};

fn missing() -> Result<String, String> {
    Err("environment variable not found".to_string())
}

fn set(text: &str) -> Result<String, String> {
    Ok(text.to_string())
}

fn least() -> Environment {
    Environment {
        rpc_url: set("http://chain"),
        rpc_url_ws: missing(),
        contract_address: set("0x087cdab97d38a3bfFcDee170739E8C11Af651569"),
        private_key: set("secret"),
        storage_root: missing(),
        session_timeout_seconds: missing(),
        http_addr: missing(),
    }
}

#[test]
fn defaults_fill_the_gaps() {
    let config = AppConfig::from_env(least()).unwrap();
    assert_eq!(config.rpc_url, "http://chain");
    assert_eq!(config.rpc_url_ws, "http://chain");
    assert_eq!(
        hex::encode(config.registry_address),
        "087cdab97d38a3bffcdee170739e8c11af651569"
    );
    assert_eq!(config.private_key, "secret");
    assert_eq!(config.storage_root, "./storage");
    assert_eq!(config.session_timeout_seconds, 900);
    assert_eq!(config.wt_addr, "0.0.0.0:8081");
}

#[test]
fn given_values_are_taken() {
    let mut env = least();
    env.rpc_url_ws = set("ws://chain");
    env.storage_root = set("/data");
    env.session_timeout_seconds = set("60");
    env.http_addr = set("127.0.0.1:1");
    let config = AppConfig::from_env(env).unwrap();
    assert_eq!(config.rpc_url_ws, "ws://chain");
    assert_eq!(config.storage_root, "/data");
    assert_eq!(config.session_timeout_seconds, 60);
    assert_eq!(config.wt_addr, "127.0.0.1:1");
}

#[test]
fn first_fault_is_reported() {
    let why = "environment variable not found";
    let mut env = least();
    env.rpc_url = missing();
    env.private_key = Err("later".to_string());
    assert_eq!(AppConfig::from_env(env).unwrap_err(), why);
    let mut env = least();
    env.contract_address = missing();
    assert_eq!(AppConfig::from_env(env).unwrap_err(), why);
    let mut env = least();
    env.private_key = missing();
    env.session_timeout_seconds = set("x");
    assert_eq!(AppConfig::from_env(env).unwrap_err(), why);
}

#[test]
fn addresses_and_timeouts_must_be_readable() {
    let mut env = least();
    env.contract_address = set("0x12");
    let direct = "0x12".parse::<alloy::primitives::Address>().unwrap_err().to_string();
    assert_eq!(AppConfig::from_env(env).unwrap_err(), direct);
    for text in ["", "x", "-1", "99999999999999999999"] {
        let mut env = least();
        env.session_timeout_seconds = set(text);
        let direct = text.parse::<u64>().unwrap_err().to_string();
        assert_eq!(AppConfig::from_env(env).unwrap_err(), direct);
    }
}

#[test]
fn addresses_may_lack_their_prefix() {
    for text in [
        "087cdab97d38a3bffcdee170739e8c11af651569",
        "0X087CDAB97D38A3BFFCDEE170739E8C11AF651569",
    ] {
        let mut env = least();
        env.contract_address = set(text);
        let config = AppConfig::from_env(env).unwrap();
        assert_eq!(config.registry_address[0], 0x08);
        assert_eq!(config.registry_address[19], 0x69);
    }
}
