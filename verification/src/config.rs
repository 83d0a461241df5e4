//! The node's settings, read from its environment.

use crate::crypto::{address_digits, address_error, hex_bytes, is_address, parse_address, Address};
use crate::text::{
    decimal, law_decimal_round_trip, number_error, number_error_text, number_value, parse_number,
};
use vstd::prelude::*;
use vstd::string::*;

verus! {

/// How many confirmations and how many finished uploads may wait in a queue.
pub const QUEUE_CAPACITY: usize = 1_000;

/// How many chunk requests are worked on at the same time.
pub const TASK_LIMIT: usize = 3_000;

/// What the environment says: each variable, or why it has no value.
#[derive(Debug)]
pub struct Environment {
    pub rpc_url: Result<String, String>,
    pub rpc_url_ws: Result<String, String>,
    pub contract_address: Result<String, String>,
    pub private_key: Result<String, String>,
    pub storage_root: Result<String, String>,
    pub session_timeout_seconds: Result<String, String>,
    pub http_addr: Result<String, String>,
}

/// The node's settings.
#[derive(Debug)]
pub struct AppConfig {
    /// Where calls to the chain go.
    pub rpc_url: String,
    /// Where subscriptions to the chain would go.
    pub rpc_url_ws: String,
    pub registry_address: Address,
    pub private_key: String,
    pub storage_root: String,
    pub session_timeout_seconds: u64,
    /// Where the WebTransport server listens.
    pub wt_addr: String,
}

/// A variable's value, or the given one.
pub open spec fn value_or(value: Result<String, String>, default: Seq<char>) -> Seq<char> {
    match value {
        Ok(text) => text@,
        Err(_) => default,
    }
}

/// Why the settings cannot be read, if so. The chain's URL, the registry's address
/// and the private key have no default, and the first that is wrong is reported.
pub open spec fn config_error(env: Environment) -> Option<Seq<char>> {
    match env.rpc_url {
        Err(e) => Some(e@),
        Ok(_) => match env.contract_address {
            Err(e) => Some(e@),
            Ok(address) => if !is_address(address@) {
                Some(address_error(address@))
            } else {
                match env.private_key {
                    Err(e) => Some(e@),
                    Ok(_) => match number_value(value_or(env.session_timeout_seconds, "900"@), 10) {
                        Err(e) => Some(number_error(e)),
                        Ok(_) => None,
                    },
                }
            },
        },
    }
}

/// Whether settings are those that the environment gives.
pub open spec fn config_of(env: Environment, config: AppConfig) -> bool {
    &&& env.rpc_url matches Ok(rpc_url)
    &&& config.rpc_url@ == rpc_url@
    &&& config.rpc_url_ws@ == value_or(env.rpc_url_ws, rpc_url@)
    &&& env.contract_address matches Ok(address)
    &&& config.registry_address@ == hex_bytes(address_digits(address@))
    &&& env.private_key matches Ok(private_key)
    &&& config.private_key@ == private_key@
    &&& config.storage_root@ == value_or(env.storage_root, "./storage"@)
    &&& number_value(value_or(env.session_timeout_seconds, "900"@), 10) == Ok::<
        nat,
        crate::text::NumberError,
    >(config.session_timeout_seconds as nat)
    &&& config.wt_addr@ == value_or(env.http_addr, "0.0.0.0:8081"@)
}

fn or_default(value: Result<String, String>, default: &str) -> (text: String)
    ensures
        text@ == value_or(value, default@),
{
    match value {
        Ok(text) => text,
        Err(_) => default.to_owned(),
    }
}

impl AppConfig {
    /// Reads the settings from what the environment says.
    pub fn from_env(env: Environment) -> (r: Result<AppConfig, String>)
        ensures
            match r {
                Ok(config) => config_error(env) is None && config_of(env, config),
                Err(e) => config_error(env) == Some(e@),
            },
    {
        let rpc_url = match env.rpc_url {
            Ok(text) => text,
            Err(e) => {
                return Err(e);
            },
        };
        let rpc_url_ws = or_default(env.rpc_url_ws, rpc_url.as_str());
        let registry_address = match env.contract_address {
            Ok(text) => match parse_address(text.as_str()) {
                Ok(address) => address,
                Err(e) => {
                    return Err(e);
                },
            },
            Err(e) => {
                return Err(e);
            },
        };
        let private_key = match env.private_key {
            Ok(text) => text,
            Err(e) => {
                return Err(e);
            },
        };
        let storage_root = or_default(env.storage_root, "./storage");
        let timeout = or_default(env.session_timeout_seconds, "900");
        let session_timeout_seconds: u64 = match parse_number(timeout.as_str(), 10) {
            Ok(n) => n,
            Err(e) => {
                return Err(number_error_text(e));
            },
        };
        let wt_addr = or_default(env.http_addr, "0.0.0.0:8081");
        Ok(
            AppConfig {
                rpc_url,
                rpc_url_ws,
                registry_address,
                private_key,
                storage_root,
                session_timeout_seconds,
                wt_addr,
            },
        )
    }
}

/// The settings hold what the environment says, each variable in its own place, and
/// what it leaves open has its default: calls and subscriptions go to the same place,
/// files to `./storage`, a session lasts nine hundred seconds, and the node listens on
/// port 8081.
pub proof fn law_settings_are_what_was_said(env: Environment, config: AppConfig)
    requires
        config_of(env, config),
    ensures
        env.rpc_url matches Ok(url) && config.rpc_url@ == url@,
        env.rpc_url_ws matches Ok(url) ==> config.rpc_url_ws@ == url@,
        env.rpc_url_ws is Err ==> config.rpc_url_ws@ == config.rpc_url@,
        env.contract_address matches Ok(text) && config.registry_address@ == hex_bytes(
            address_digits(text@),
        ),
        env.private_key matches Ok(key) && config.private_key@ == key@,
        env.storage_root matches Ok(root) ==> config.storage_root@ == root@,
        env.storage_root is Err ==> config.storage_root@ == "./storage"@,
        env.session_timeout_seconds matches Ok(text) ==> number_value(text@, 10) == Ok::<
            nat,
            crate::text::NumberError,
        >(config.session_timeout_seconds as nat),
        env.session_timeout_seconds is Err ==> config.session_timeout_seconds == 900,
        env.http_addr matches Ok(text) ==> config.wt_addr@ == text@,
        env.http_addr is Err ==> config.wt_addr@ == "0.0.0.0:8081"@,
{
    reveal_strlit("900");
    reveal_with_fuel(decimal, 4);
    assert(decimal(900) =~= seq!['9', '0', '0']);
    assert("900"@ =~= decimal(900));
    law_decimal_round_trip(900);
}

/// Settings are read exactly where the chain's URL, the registry's address and the
/// private key are there, the address is one, and the timeout, where it is there, is a
/// number.
pub proof fn law_settings_are_read_when_whole(env: Environment)
    ensures
        config_error(env) is None <==> env.rpc_url is Ok && (env.contract_address matches Ok(text)
            && is_address(text@)) && env.private_key is Ok && (
        env.session_timeout_seconds matches Ok(text) ==> number_value(text@, 10) is Ok),
{
    reveal_strlit("900");
    reveal_with_fuel(decimal, 4);
    assert(decimal(900) =~= seq!['9', '0', '0']);
    assert("900"@ =~= decimal(900));
    law_decimal_round_trip(900);
}

/// Of several faults the first is told, in the order of URL, address, key and timeout.
pub proof fn law_first_fault_is_told(env: Environment)
    ensures
        env.rpc_url matches Err(e) ==> config_error(env) == Some(e@),
        env.rpc_url is Ok ==> (env.contract_address matches Err(e) ==> config_error(env) == Some(
            e@,
        )),
        env.rpc_url is Ok ==> (env.contract_address matches Ok(text) ==> (!is_address(text@)
            ==> config_error(env) == Some(address_error(text@)))),
        env.rpc_url is Ok && (env.contract_address matches Ok(text) && is_address(text@)) ==> (
        env.private_key matches Err(e) ==> config_error(env) == Some(e@)),
        env.rpc_url is Ok && (env.contract_address matches Ok(text) && is_address(text@))
            && env.private_key is Ok ==> (env.session_timeout_seconds matches Ok(text) ==> (
        number_value(text@, 10) matches Err(e) ==> config_error(env) == Some(number_error(e)))),
{
}

/// A thousand confirmations and uploads may wait, and three thousand chunk requests are
/// worked on.
pub proof fn law_queues_and_tasks_are_bounded()
    ensures
        QUEUE_CAPACITY == 1_000,
        TASK_LIMIT == 3_000,
{
}

} // verus!
