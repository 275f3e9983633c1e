use kosh_bridge::registry::estimate_transaction_fees;
use kosh_bridge::registry::estimate_transaction_fees_for_chain;
use kosh_bridge::registry::get_network_config;
use kosh_bridge::registry::get_rpc_config;
use kosh_bridge::registry::get_stellar_config;
use kosh_bridge::registry::resolve_profile;

#[test]
fn rpc_config_known_chains() {
    let (id, url) = get_rpc_config("17000");
    assert_eq!(id, 17000);
    assert_eq!(url, "https://ethereum-holesky-rpc.publicnode.com");
    let (id, url) = get_rpc_config("8453");
    assert_eq!(id, 8453);
    assert_eq!(url, "https://base.drpc.org");
}

#[test]
fn rpc_config_unknown_chain_defaults() {
    let (id, url) = get_rpc_config("999");
    assert_eq!(id, 17000);
    assert_eq!(url, "https://ethereum-holesky-rpc.publicnode.com");
    let (id2, url2) = get_rpc_config("");
    assert_eq!(id2, 17000);
    assert_eq!(url2, "https://ethereum-holesky-rpc.publicnode.com");
}

#[test]
fn rpc_config_is_pure() {
    let a = get_rpc_config("8453");
    let b = get_rpc_config("8453");
    assert_eq!(a.0, b.0);
    assert_eq!(a.1, b.1);
}

#[test]
fn fees_flat_tier() {
    assert_eq!(estimate_transaction_fees(), (1_500_000, 200_000_000_000, 50_000_000_000));
}

#[test]
fn fees_per_chain() {
    assert_eq!(
        estimate_transaction_fees_for_chain("17000"),
        (21_000, 20_000_000_000, 2_000_000_000)
    );
    assert_eq!(
        estimate_transaction_fees_for_chain("8453"),
        (21_000, 1_000_000_000, 1_000_000_000)
    );
    assert_eq!(
        estimate_transaction_fees_for_chain("unknown"),
        (21_000, 20_000_000_000, 2_000_000_000)
    );
}

#[test]
fn network_config_mainnet() {
    let (addr, key) = get_network_config();
    assert_eq!(addr, "0x4f159ACaC4105822E3201674FD2323320Bb9dd38");
    assert_eq!(key, "test_key_1");
}

#[test]
fn stellar_config_per_chain() {
    let (c, u) = get_stellar_config("17000");
    assert_eq!(c, "CDTA5IYGUGRI4PAGXJL7TPBEIC3EZY6V23ILF5EDVXFVLCGGMVOK4CRL");
    assert_eq!(u, "https://soroban-testnet.stellar.org");
    let (c, u) = get_stellar_config("8453");
    assert_eq!(c, "CDMHKRFQPMCBZFY225BNLNXA6YRTOCDD2VDC2AXC4YP3XCYMLYZAHWDS");
    assert_eq!(u, "https://soroban-mainnet.stellar.org");
    let (c, u) = get_stellar_config("other");
    assert_eq!(c, "CDTA5IYGUGRI4PAGXJL7TPBEIC3EZY6V23ILF5EDVXFVLCGGMVOK4CRL");
    assert_eq!(u, "https://soroban-testnet.stellar.org");
}

#[test]
fn profile_combines_rpc_and_fees() {
    let p = resolve_profile("8453");
    assert_eq!(p.chain_id, 8453);
    assert_eq!(p.rpc_url, "https://base.drpc.org");
    assert_eq!(p.gas_limit, 21_000);
    assert_eq!(p.max_fee_per_gas, 1_000_000_000);
    assert_eq!(p.max_priority_fee_per_gas, 1_000_000_000);
}
