//! Config files and the wallet settings they bring.

use std::path::PathBuf;
use std::str::FromStr;

use bitcoin::{Address, ScriptBuf};
use florestad::config::{
    config_file_path, load_config_file, load_config_file_from, Config, ConfigFile, ConfigRead, Network,
    Wallet,
};
use florestad::error::{FlorestadError, ReadError};
use florestad::wallet::WalletConfig;

/// Settings with no wallet settings at all, on the given network.
fn config(network: Network) -> Config {
    Config::new(network, PathBuf::from("/tmp/floresta-config-tests"))
}

/// A [ConfigFile] with the given wallet settings, `None` meaning "key absent from the file".
fn config_file(
    descriptors: Option<&[&str]>,
    xpubs: Option<&[&str]>,
    addresses: Option<&[&str]>,
) -> ConfigFile {
    let owned = |v: Option<&[&str]>| {
        v.map(|items| items.iter().map(|s| s.to_string()).collect::<Vec<_>>())
    };

    ConfigFile {
        wallet: Wallet {
            descriptors: owned(descriptors),
            xpubs: owned(xpubs),
            addresses: owned(addresses),
        },
    }
}

/// Parses the contents of a config file.
fn parse(contents: &str) -> ConfigRead {
    match toml::from_str::<toml::Table>(contents) {
        Ok(table) => {
            let list = |key: &str| {
                table.get("wallet").and_then(|wallet| wallet.get(key)).map(|items| {
                    items
                        .as_array()
                        .expect("a list")
                        .iter()
                        .map(|item| item.as_str().expect("a string").to_owned())
                        .collect::<Vec<String>>()
                })
            };
            ConfigRead::Parsed(ConfigFile {
                wallet: Wallet {
                    xpubs: list("xpubs"),
                    descriptors: list("descriptors"),
                    addresses: list("addresses"),
                },
            })
        }
        Err(e) => ConfigRead::Malformed(e.to_string()),
    }
}

fn not_found() -> ConfigRead {
    ConfigRead::Unreadable(ReadError {
        not_found: true,
        message: "No such file or directory".to_owned(),
    })
}

#[test]
fn resolve_without_any_wallet_settings_is_empty() {
    let resolved =
        WalletConfig::resolve(&config(Network::Bitcoin), &ConfigFile::default(), None).unwrap();

    assert!(resolved.descriptors.is_empty());
    assert!(resolved.xpubs.is_empty());
    assert!(resolved.addresses.is_empty());
}

#[test]
fn resolve_concatenates_descriptors_with_config_first() {
    let mut config = config(Network::Bitcoin);
    config.wallet_descriptor = Some(vec!["from_config".into()]);
    let file = config_file(Some(&["from_file"]), None, None);

    let resolved = WalletConfig::resolve(&config, &file, None).unwrap();

    assert_eq!(resolved.descriptors, vec!["from_config", "from_file"]);
}

#[test]
fn resolve_concatenates_xpubs_with_the_env_last() {
    let mut config = config(Network::Bitcoin);
    config.wallet_xpub = Some(vec!["from_config".into()]);
    let file = config_file(None, Some(&["from_file"]), None);

    let resolved = WalletConfig::resolve(&config, &file, Some("from_env".into())).unwrap();

    assert_eq!(resolved.xpubs, vec!["from_config", "from_file", "from_env"]);
}

#[test]
fn resolve_parses_addresses_into_script_pubkeys() {
    let address = "1BvBMSEYstWetqTFn5Au4m4GFg7xJaNVN2";
    let file = config_file(None, None, Some(&[address]));

    let resolved = WalletConfig::resolve(&config(Network::Bitcoin), &file, None).unwrap();

    let expected = Address::from_str(address)
        .unwrap()
        .require_network(bitcoin::Network::Bitcoin)
        .unwrap()
        .script_pubkey();
    assert_eq!(resolved.addresses, vec![expected]);
}

#[test]
fn resolve_fails_on_an_unparseable_address() {
    let file = config_file(None, None, Some(&["not an address"]));

    let resolved = WalletConfig::resolve(&config(Network::Bitcoin), &file, None);

    assert!(matches!(
        resolved,
        Err(FlorestadError::InvalidWalletAddress(addr, _)) if addr == "not an address"
    ));
}

#[test]
fn resolve_fails_on_an_address_from_another_network() {
    // A mainnet address, given to a node running on signet
    let address = "1BvBMSEYstWetqTFn5Au4m4GFg7xJaNVN2";
    let file = config_file(None, None, Some(&[address]));

    let resolved = WalletConfig::resolve(&config(Network::Signet), &file, None);

    let err = resolved
        .err()
        .expect("a mainnet address is not valid on signet");
    assert!(matches!(err, FlorestadError::InvalidWalletAddress(ref addr, _) if addr == address));

    // Refusing to boot over this is only defensible if the message says what to fix, so
    // pin both halves of it.
    let message = err.message();
    assert!(message.contains(address), "{message}");
    assert!(message.contains("signet"), "{message}");
    assert_eq!(
        message,
        "invalid wallet address 1BvBMSEYstWetqTFn5Au4m4GFg7xJaNVN2: validation error: \
         address 1BvBMSEYstWetqTFn5Au4m4GFg7xJaNVN2 is not valid on signet"
    );
}

#[test]
fn load_without_a_config_file_falls_back_to_defaults() {
    let config = config(Network::Bitcoin);

    let file = load_config_file(&config, not_found())
        .expect("a missing default config file is not fatal");

    assert!(file.wallet.xpubs.is_none());
    assert!(file.wallet.descriptors.is_none());
    assert!(file.wallet.addresses.is_none());
}

#[test]
fn load_treats_a_config_file_without_wallet_settings_as_defaults() {
    // An empty file, a file that is all comments, and a file with an empty `[wallet]` table
    // are all configs that ask for no wallet, not malformed ones.
    for contents in ["", "# nothing to see here\n", "[wallet]\n"] {
        let config = config(Network::Bitcoin);

        let file = load_config_file(&config, parse(contents))
            .unwrap_or_else(|e| panic!("{contents:?} should not be fatal, got: {}", e.message()));

        assert!(file.wallet.xpubs.is_none());
        assert!(file.wallet.descriptors.is_none());
        assert!(file.wallet.addresses.is_none());
    }
}

#[test]
fn load_reads_the_config_file_from_the_data_dir() {
    let config = config(Network::Bitcoin);
    assert_eq!(
        config_file_path(&config),
        PathBuf::from("/tmp/floresta-config-tests").join("config.toml")
    );

    let read = parse("[wallet]\nxpubs = [\"from_file\"]\n");
    let file = load_config_file(&config, read).unwrap();

    assert_eq!(file.wallet.xpubs, Some(vec!["from_file".to_string()]));
}

#[test]
fn load_fails_when_an_explicitly_passed_config_file_is_missing() {
    let mut config = config(Network::Bitcoin);
    config.config_file = Some(PathBuf::from("/tmp/floresta-config-tests/does-not-exist.toml"));

    let loaded = load_config_file(&config, not_found());

    assert!(matches!(
        loaded,
        Err(FlorestadError::CouldNotReadConfigFile(..))
    ));
    let Err(FlorestadError::CouldNotReadConfigFile(path, error)) = loaded else {
        panic!("the file cannot be read");
    };
    assert_eq!(
        path,
        PathBuf::from("/tmp/floresta-config-tests/does-not-exist.toml")
    );
    assert!(error.not_found);
}

#[test]
fn load_fails_on_a_malformed_config_file() {
    let config = config(Network::Bitcoin);

    let loaded = load_config_file(&config, parse("this is not toml [[["));

    assert!(matches!(
        loaded,
        Err(FlorestadError::CouldNotParseConfigFile(..))
    ));
}

#[test]
fn load_fails_on_a_default_config_file_that_cannot_be_read() {
    let config = config(Network::Bitcoin);
    let read = ConfigRead::Unreadable(ReadError {
        not_found: false,
        message: "permission denied".to_owned(),
    });

    let error = load_config_file(&config, read).err().expect("fatal");

    assert!(matches!(error, FlorestadError::CouldNotReadConfigFile(..)));
    assert_eq!(
        error.message(),
        "could not read the config file: permission denied"
    );
}

#[test]
fn malformed_files_are_reported_with_the_reason() {
    let path = PathBuf::from("/x/config.toml");
    let error = ConfigFile::from_file(path.clone(), ConfigRead::Malformed("line 1".to_owned()))
        .err()
        .expect("malformed");
    assert_eq!(error.message(), "could not parse the config file: line 1");
    assert!(matches!(
        error,
        FlorestadError::CouldNotParseConfigFile(p, _) if p == path
    ));
}

#[test]
fn resolve_names_the_first_address_that_is_refused() {
    let good = "1BvBMSEYstWetqTFn5Au4m4GFg7xJaNVN2";
    let file = config_file(None, None, Some(&[good, "first bad", good, "second bad"]));

    let error = WalletConfig::resolve(&config(Network::Bitcoin), &file, None)
        .err()
        .expect("two addresses are no addresses");

    assert!(matches!(
        error,
        FlorestadError::InvalidWalletAddress(addr, _) if addr == "first bad"
    ));
}

#[test]
fn resolve_keeps_every_list_in_order() {
    let addresses = [
        "1BvBMSEYstWetqTFn5Au4m4GFg7xJaNVN2",
        "bc1qar0srrr7xfkvy5l643lydnw9re59gtzzwf5mdq",
    ];
    let mut config = config(Network::Bitcoin);
    config.wallet_descriptor = Some(vec!["a".into(), "b".into()]);
    config.wallet_xpub = Some(vec!["c".into()]);
    let file = config_file(Some(&["d", "a"]), Some(&[]), Some(&addresses));

    let resolved = WalletConfig::resolve(&config, &file, Some("e".into())).unwrap();

    assert_eq!(resolved.descriptors, vec!["a", "b", "d", "a"]);
    assert_eq!(resolved.xpubs, vec!["c", "e"]);
    let scripts: Vec<ScriptBuf> = addresses
        .iter()
        .map(|a| Address::from_str(a).unwrap().assume_checked().script_pubkey())
        .collect();
    assert_eq!(resolved.addresses, scripts);
}

#[test]
fn merge_takes_the_scripts_it_is_given() {
    let script = ScriptBuf::from_bytes(vec![0x51]);
    let refused = Address::from_str("nonsense").err().expect("no address");
    let file = config_file(None, None, Some(&["x", "y"]));

    let merged = WalletConfig::merge(
        &config(Network::Regtest),
        &file,
        None,
        vec![Ok(script.clone()), Ok(script.clone())],
    )
    .unwrap();
    assert_eq!(merged.addresses, vec![script.clone(), script.clone()]);

    let merged = WalletConfig::merge(
        &config(Network::Regtest),
        &file,
        None,
        vec![Ok(script), Err(refused.clone())],
    );
    assert!(matches!(
        merged,
        Err(FlorestadError::InvalidWalletAddress(addr, e)) if addr == "y" && e == refused
    ));
}

#[test]
fn errors_name_the_path_that_was_read() {
    let default_path = PathBuf::from("/tmp/floresta-config-tests/config.toml");
    let given = PathBuf::from("/etc/floresta.toml");
    let mut config = config(Network::Bitcoin);

    assert_eq!(config_file_path(&config), default_path);
    let loaded = load_config_file(&config, parse("[[["));
    assert!(matches!(
        loaded,
        Err(FlorestadError::CouldNotParseConfigFile(path, _)) if path == default_path
    ));

    config.config_file = Some(given.clone());
    assert_eq!(config_file_path(&config), given);
    let loaded = load_config_file(&config, parse("[[["));
    assert!(matches!(
        loaded,
        Err(FlorestadError::CouldNotParseConfigFile(path, _)) if path == given
    ));
}

#[test]
fn the_default_path_counts_only_if_none_was_given() {
    let default_path = PathBuf::from("/elsewhere/config.toml");
    let given = PathBuf::from("/etc/floresta.toml");
    let mut config = config(Network::Bitcoin);

    let loaded = load_config_file_from(&config, default_path.clone(), not_found()).unwrap();
    assert!(loaded.wallet.xpubs.is_none());
    let loaded = load_config_file_from(&config, default_path.clone(), parse("[[["));
    assert!(matches!(
        loaded,
        Err(FlorestadError::CouldNotParseConfigFile(path, _)) if path == default_path
    ));

    config.config_file = Some(given.clone());
    let loaded = load_config_file_from(&config, default_path, not_found());
    assert!(matches!(
        loaded,
        Err(FlorestadError::CouldNotReadConfigFile(path, error)) if path == given && error.not_found
    ));
}

#[test]
fn every_network_is_refused_by_its_name() {
    let mainnet = "1BvBMSEYstWetqTFn5Au4m4GFg7xJaNVN2";
    let testnet = "tb1qw508d6qejxtdg4y5r3zarvary0c5xw7kxpjzsx";
    let cases = [
        (Network::Bitcoin, bitcoin::Network::Bitcoin, testnet, "bitcoin"),
        (Network::Testnet, bitcoin::Network::Testnet, mainnet, "testnet"),
        (Network::Testnet4, bitcoin::Network::Testnet4, mainnet, "testnet4"),
        (Network::Signet, bitcoin::Network::Signet, mainnet, "signet"),
        (Network::Regtest, bitcoin::Network::Regtest, mainnet, "regtest"),
    ];
    for (network, same, foreign, name) in cases {
        assert_eq!(same.to_string(), name);
        let file = config_file(None, None, Some(&[foreign]));
        let error = WalletConfig::resolve(&config(network), &file, None)
            .err()
            .expect("an address of another network");
        assert_eq!(
            error.message(),
            format!(
                "invalid wallet address {foreign}: validation error: \
                 address {foreign} is not valid on {name}"
            )
        );
    }
}
