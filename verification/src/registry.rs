//! Pure lookup tables from a destination-chain key to chain id, RPC
//! endpoint, gas policy, signing-key configuration and event-source
//! configuration.  Unknown keys resolve to a documented default rather
//! than failing.

use vstd::prelude::*;
use vstd::string::StringExecFns;
use crate::strutil::str_eq;

verus! {

/// Gas limit of the flat, chain-agnostic fee tier.
pub const FLAT_GAS_LIMIT: u128 = 1_500_000;
/// Max fee per gas of the flat, chain-agnostic fee tier.
pub const FLAT_MAX_FEE_PER_GAS: u128 = 200_000_000_000;
/// Max priority fee per gas of the flat, chain-agnostic fee tier.
pub const FLAT_MAX_PRIORITY_FEE_PER_GAS: u128 = 50_000_000_000;

/// Everything the pipeline needs to know about a destination chain.
pub struct ChainProfile {
    /// Numeric chain id placed into the transaction encoding.
    pub chain_id: u64,
    /// RPC endpoint transactions are sent to.
    pub rpc_url: String,
    /// Default gas limit for a native transfer.
    pub gas_limit: u128,
    /// Default max fee per unit gas.
    pub max_fee_per_gas: u128,
    /// Default max priority fee per unit gas.
    pub max_priority_fee_per_gas: u128,
}

/// Numeric chain id for a destination-chain key; unknown keys default
/// to the first known chain.
pub open spec fn spec_chain_id(key: Seq<char>) -> u64 {
    if key == "17000"@ {
        17000u64
    } else if key == "8453"@ {
        8453u64
    } else {
        17000u64
    }
}

/// RPC endpoint for a destination-chain key; unknown keys default to
/// the first known chain's endpoint.
pub open spec fn spec_rpc_url(key: Seq<char>) -> Seq<char> {
    if key == "8453"@ {
        "https://base.drpc.org"@
    } else {
        "https://ethereum-holesky-rpc.publicnode.com"@
    }
}

/// Gas policy (limit, max fee, max priority fee) for a destination-chain
/// key; unknown keys get the conservative default tier.
pub open spec fn spec_fees(key: Seq<char>) -> (u128, u128, u128) {
    if key == "17000"@ {
        (21_000u128, 20_000_000_000u128, 2_000_000_000u128)
    } else if key == "8453"@ {
        (21_000u128, 1_000_000_000u128, 1_000_000_000u128)
    } else {
        (21_000u128, 20_000_000_000u128, 2_000_000_000u128)
    }
}

/// RPC configuration (numeric chain id, endpoint) for a destination
/// chain key.  Pure lookup: identical keys always yield identical
/// results, and unknown keys yield the documented default.
pub fn get_rpc_config(dest_chain: &str) -> (r: (u64, String))
    ensures
        r.0 == spec_chain_id(dest_chain@),
        r.1@ == spec_rpc_url(dest_chain@),
{
    proof {
        reveal_strlit("17000");
        reveal_strlit("8453");
        reveal_strlit("https://ethereum-holesky-rpc.publicnode.com");
        reveal_strlit("https://base.drpc.org");
        assert("17000"@.len() == 5);
        assert("8453"@.len() == 4);
    }
    if str_eq(dest_chain, "17000") {
        (17000, String::from_str("https://ethereum-holesky-rpc.publicnode.com"))
    } else if str_eq(dest_chain, "8453") {
        (8453, String::from_str("https://base.drpc.org"))
    } else {
        (17000, String::from_str("https://ethereum-holesky-rpc.publicnode.com"))
    }
}

/// Flat gas estimate used by the canister-wide send path.
pub fn estimate_transaction_fees() -> (r: (u128, u128, u128))
    ensures
        r == (FLAT_GAS_LIMIT, FLAT_MAX_FEE_PER_GAS, FLAT_MAX_PRIORITY_FEE_PER_GAS),
{
    (FLAT_GAS_LIMIT, FLAT_MAX_FEE_PER_GAS, FLAT_MAX_PRIORITY_FEE_PER_GAS)
}

/// Chain-aware gas estimate: a per-chain tier with a conservative
/// default for unknown keys.
pub fn estimate_transaction_fees_for_chain(dest_chain: &str) -> (r: (u128, u128, u128))
    ensures
        r == spec_fees(dest_chain@),
{
    proof {
        reveal_strlit("17000");
        reveal_strlit("8453");
    }
    if str_eq(dest_chain, "17000") {
        (21_000, 20_000_000_000, 2_000_000_000)
    } else if str_eq(dest_chain, "8453") {
        (21_000, 1_000_000_000, 1_000_000_000)
    } else {
        (21_000, 20_000_000_000, 2_000_000_000)
    }
}

/// Full profile for a destination chain: chain id, endpoint and gas
/// policy in one value.
pub fn resolve_profile(dest_chain: &str) -> (p: ChainProfile)
    ensures
        p.chain_id == spec_chain_id(dest_chain@),
        p.rpc_url@ == spec_rpc_url(dest_chain@),
        (p.gas_limit, p.max_fee_per_gas, p.max_priority_fee_per_gas) == spec_fees(dest_chain@),
{
    let (chain_id, rpc_url) = get_rpc_config(dest_chain);
    let (gas_limit, max_fee_per_gas, max_priority_fee_per_gas) =
        estimate_transaction_fees_for_chain(dest_chain);
    ChainProfile { chain_id, rpc_url, gas_limit, max_fee_per_gas, max_priority_fee_per_gas }
}

/// Identical keys resolve to identical profiles, and a key outside the
/// table resolves to the documented default, never to an error.
pub proof fn lemma_resolve_pure(k1: Seq<char>, k2: Seq<char>)
    ensures
        k1 == k2 ==> spec_chain_id(k1) == spec_chain_id(k2) && spec_rpc_url(k1) == spec_rpc_url(
            k2,
        ) && spec_fees(k1) == spec_fees(k2),
        k1 != "17000"@ && k1 != "8453"@ ==> spec_chain_id(k1) == 17000 && spec_rpc_url(k1)
            == "https://ethereum-holesky-rpc.publicnode.com"@ && spec_fees(k1) == (
        21_000u128,
        20_000_000_000u128,
        2_000_000_000u128,
        ),
{
}

/// Account address and signing-key name for the configured network.
pub fn get_network_config() -> (r: (&'static str, &'static str))
    ensures
        r.0@ == "0x4f159ACaC4105822E3201674FD2323320Bb9dd38"@,
        r.1@ == "test_key_1"@,
{
    ("0x4f159ACaC4105822E3201674FD2323320Bb9dd38", "test_key_1")
}

/// Event-source contract id for a destination-chain key; unknown keys
/// default to the test-network contract.
pub open spec fn spec_stellar_contract(key: Seq<char>) -> Seq<char> {
    if key == "8453"@ {
        "CDMHKRFQPMCBZFY225BNLNXA6YRTOCDD2VDC2AXC4YP3XCYMLYZAHWDS"@
    } else {
        "CDTA5IYGUGRI4PAGXJL7TPBEIC3EZY6V23ILF5EDVXFVLCGGMVOK4CRL"@
    }
}

/// Event-source RPC endpoint for a destination-chain key; unknown keys
/// default to the test-network endpoint.
pub open spec fn spec_stellar_rpc(key: Seq<char>) -> Seq<char> {
    if key == "8453"@ {
        "https://soroban-mainnet.stellar.org"@
    } else {
        "https://soroban-testnet.stellar.org"@
    }
}

/// Event-source configuration (contract id, endpoint) for a destination
/// chain key.
pub fn get_stellar_config(destination_chain: &str) -> (r: (&'static str, &'static str))
    ensures
        r.0@ == spec_stellar_contract(destination_chain@),
        r.1@ == spec_stellar_rpc(destination_chain@),
{
    proof {
        reveal_strlit("17000");
        reveal_strlit("8453");
        reveal_strlit("CDTA5IYGUGRI4PAGXJL7TPBEIC3EZY6V23ILF5EDVXFVLCGGMVOK4CRL");
        reveal_strlit("CDMHKRFQPMCBZFY225BNLNXA6YRTOCDD2VDC2AXC4YP3XCYMLYZAHWDS");
        reveal_strlit("https://soroban-testnet.stellar.org");
        reveal_strlit("https://soroban-mainnet.stellar.org");
        assert("17000"@.len() == 5);
        assert("8453"@.len() == 4);
    }
    if str_eq(destination_chain, "17000") {
        ("CDTA5IYGUGRI4PAGXJL7TPBEIC3EZY6V23ILF5EDVXFVLCGGMVOK4CRL", "https://soroban-testnet.stellar.org")
    } else if str_eq(destination_chain, "8453") {
        ("CDMHKRFQPMCBZFY225BNLNXA6YRTOCDD2VDC2AXC4YP3XCYMLYZAHWDS", "https://soroban-mainnet.stellar.org")
    } else {
        ("CDTA5IYGUGRI4PAGXJL7TPBEIC3EZY6V23ILF5EDVXFVLCGGMVOK4CRL", "https://soroban-testnet.stellar.org")
    }
}

} // verus!
