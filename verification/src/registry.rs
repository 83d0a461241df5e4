//! Which contracts the node listens to.

use crate::cache::{lookup, Caches, CachesView, ContractMap};
use crate::crypto::{address_digits, address_error, hex_bytes, is_address, parse_address, Address};
use vstd::prelude::*;

verus! {

/// What `url::Url::parse` finds wrong with a text, in the words of its error;
/// `None` where it reads the text as an absolute URL.
pub uninterp spec fn url_fault(text: Seq<char>) -> Option<Seq<char>>;

/// Whether a text is an absolute URL.
pub open spec fn is_url(text: Seq<char>) -> bool {
    url_fault(text) is None
}

/// The text of an error, if there is one.
pub open spec fn fault_of(r: Result<(), String>) -> Option<Seq<char>> {
    match r {
        Ok(_) => None,
        Err(e) => Some(e@),
    }
}

/// `url::Url::parse`: succeeds where a text is an absolute URL, and else gives the
/// text of its error; both are named `url_fault`.
#[verifier::external_body]
fn parse_url(text: &str) -> (r: Result<(), String>)
    ensures
        fault_of(r) == url_fault(text@),
{
    match url::Url::parse(text) {
        Ok(_) => Ok(()),
        Err(e) => Err(e.to_string()),
    }
}

/// Sees whether a contract can be reached: there must be a URL to reach it at.
pub fn open_contract(rpc_url: &str) -> (r: Result<(), String>)
    ensures
        r is Ok <==> is_url(rpc_url@),
        fault_of(r) == url_fault(rpc_url@),
{
    parse_url(rpc_url)
}

/// Reads the address of a contract.
pub fn read_contract(text: &str) -> (r: Result<Address, String>)
    ensures
        match r {
            Ok(address) => is_address(text@) && address@ == hex_bytes(address_digits(text@)),
            Err(e) => !is_address(text@) && e@ == address_error(text@),
        },
{
    parse_address(text)
}

/// What is known of a contract without asking the registry: what was noted of it,
/// or that it is not valid where there is no URL to ask at.
pub open spec fn known_validity(noted: Option<bool>, url_ok: bool) -> Option<bool> {
    match noted {
        Some(valid) => Some(valid),
        None => if url_ok {
            None
        } else {
            Some(false)
        },
    }
}

/// Decides what is known of a contract without asking the registry.
pub fn decide_validity(noted: Option<bool>, url_ok: bool) -> (r: Option<bool>)
    ensures
        r == known_validity(noted, url_ok),
{
    match noted {
        Some(valid) => Some(valid),
        None => {
            if url_ok {
                None
            } else {
                Some(false)
            }
        },
    }
}

/// Whether a contract is valid, or `None` where the registry has to be asked.
pub fn is_valid_contract(caches: &Caches, rpc_url: &str, contract_address: &Address) -> (r: Option<
    bool,
>)
    ensures
        r == known_validity(lookup(caches@.contracts, contract_address@), is_url(rpc_url@)),
{
    decide_validity(caches.contract(contract_address), parse_url(rpc_url).is_ok())
}

/// The known contracts after the registry answered: only a valid one is noted.
pub open spec fn after_reply(
    contracts: ContractMap,
    address: Seq<u8>,
    reply: Option<bool>,
) -> ContractMap {
    if reply == Some(true) {
        contracts.insert(address, true)
    } else {
        contracts
    }
}

/// Whether the registry's answer, if it gave one, is that a contract is valid.
pub open spec fn calls_valid(reply: Option<bool>) -> bool {
    reply == Some(true)
}

/// A contract counts as valid exactly where it is then noted as valid, so that it is
/// called so the next time too; without an answer it does not.
pub proof fn law_valid_is_what_is_noted(
    contracts: ContractMap,
    address: Seq<u8>,
    reply: Option<bool>,
    url_ok: bool,
)
    requires
        !contracts.contains_key(address),
    ensures
        calls_valid(reply) <==> known_validity(
            lookup(after_reply(contracts, address, reply), address),
            url_ok,
        ) == Some(true),
        !calls_valid(None) && !calls_valid(Some(false)) && calls_valid(Some(true)),
{
}

/// Takes the registry's answer on a contract, if it gave one.
pub fn note_reply(caches: &mut Caches, contract_address: &Address, reply: Option<bool>) -> (valid:
    bool)
    ensures
        valid == (reply == Some(true)),
        valid == calls_valid(reply),
        final(caches)@ == (CachesView {
            contracts: after_reply(old(caches)@.contracts, contract_address@, reply),
            ..old(caches)@
        }),
{
    match reply {
        Some(true) => {
            caches.put_contract(*contract_address, true);
            true
        },
        _ => false,
    }
}

/// Once the registry has called a contract valid, it is not asked again; a
/// contract that it did not call valid is asked about every time.
pub proof fn law_valid_contract_is_remembered(
    contracts: ContractMap,
    address: Seq<u8>,
    reply: Option<bool>,
    url_ok: bool,
)
    requires
        lookup(contracts, address) is None,
    ensures
        known_validity(lookup(after_reply(contracts, address, reply), address), url_ok) == if reply
            == Some(true) {
            Some(true)
        } else {
            known_validity(None, url_ok)
        },
{
}

/// What was noted of a contract stands, whatever the URL; of one that nothing was noted
/// of, no more is known than that it is not valid where there is no URL to ask at.
pub proof fn law_what_was_noted_stands(contracts: ContractMap, address: Seq<u8>, url_ok: bool)
    ensures
        contracts.contains_key(address) ==> known_validity(lookup(contracts, address), url_ok)
            == Some(contracts[address]),
        !contracts.contains_key(address) && url_ok ==> known_validity(
            lookup(contracts, address),
            url_ok,
        ) is None,
        !contracts.contains_key(address) && !url_ok ==> known_validity(
            lookup(contracts, address),
            url_ok,
        ) == Some(false),
{
}

/// An answer on one contract changes nothing that is known of another, and only an
/// answer that a contract is valid is noted at all.
pub proof fn law_reply_concerns_one_contract(
    contracts: ContractMap,
    address: Seq<u8>,
    reply: Option<bool>,
    other: Seq<u8>,
)
    ensures
        other != address ==> lookup(after_reply(contracts, address, reply), other) == lookup(
            contracts,
            other,
        ),
        reply == Some(true) ==> lookup(after_reply(contracts, address, reply), address) == Some(
            true,
        ),
        reply != Some(true) ==> after_reply(contracts, address, reply) == contracts,
{
}

/// A contract can be reached exactly where nothing is wrong with the URL, and else it is
/// said what is.
pub proof fn law_faultless_urls_are_urls(text: Seq<char>, r: Result<(), String>)
    requires
        fault_of(r) == url_fault(text),
    ensures
        is_url(text) <==> r is Ok,
        r matches Err(e) ==> url_fault(text) == Some(e@),
{
}

} // verus!
