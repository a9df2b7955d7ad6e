use melminter::chain::NetID;
use melminter::cmdopts::CmdOpts;

fn opts(network: NetID, threads: Option<usize>) -> CmdOpts {
    CmdOpts { state: ".melminter/".to_string(), payout: [5u8; 32], network, threads }
}

#[test]
fn threads_default_to_the_physical_cpus() {
    let config = opts(NetID::Mainnet, None).worker_config(6);
    assert_eq!(config.threads, 6);
    assert_eq!(config.payout, [5u8; 32]);
    assert_eq!(config.name, "");
    assert!(!config.testnet);
}

#[test]
fn threads_can_be_forced() {
    assert_eq!(opts(NetID::Mainnet, Some(2)).worker_config(6).threads, 2);
    assert_eq!(opts(NetID::Mainnet, Some(0)).worker_config(6).threads, 0);
}

#[test]
fn only_the_testnet_is_the_testnet() {
    assert!(opts(NetID::Testnet, None).worker_config(1).testnet);
    assert!(!opts(NetID::Custom02, None).worker_config(1).testnet);
}
