//! The node's settings, and the config file they can come from.

use crate::error::{FlorestadError, ReadError};
use std::path::PathBuf;
use vstd::prelude::*;

verus! {

/// A path in the file system.
#[verifier::external_type_specification]
#[verifier::external_body]
pub struct ExPathBuf(PathBuf);

/// The path of `name` in the directory `dir`.
pub uninterp spec fn joined_path(dir: PathBuf, name: Seq<char>) -> PathBuf;

/// `Path::join`: the path of the directory with the name behind it, which depends on nothing but
/// the two. How the path is written down, and what a name does that is itself a path, is left
/// unsaid.
#[verifier::external_body]
fn join(dir: &PathBuf, name: &str) -> (path: PathBuf)
    ensures
        path == joined_path(*dir, name@),
{
    dir.join(name)
}

/// `PathBuf::clone`: the same path.
pub assume_specification[ <PathBuf as Clone>::clone ](path: &PathBuf) -> (copy: PathBuf)
    ensures
        copy == *path,
;

/// A Bitcoin network.
#[derive(Debug, Clone, Copy, PartialEq, Eq, Structural)]
pub enum Network {
    /// Mainnet.
    Bitcoin,
    Testnet,
    Testnet4,
    Signet,
    Regtest,
}

impl Network {
    /// What the network is called.
    pub open spec fn name(self) -> Seq<char> {
        match self {
            Network::Bitcoin => "bitcoin"@,
            Network::Testnet => "testnet"@,
            Network::Testnet4 => "testnet4"@,
            Network::Signet => "signet"@,
            Network::Regtest => "regtest"@,
        }
    }
}

/// The name of the config file in the data directory.
pub const CONFIG_FILE_NAME: &'static str = "config.toml";

/// The settings given to the node, from its command line, that wallets and config files need.
pub struct Config {
    /// The network the node runs on.
    pub network: Network,
    /// Where the node keeps its data.
    pub datadir: PathBuf,
    /// Where the config file is. Lists in it are added behind the ones given here.
    pub config_file: Option<PathBuf>,
    /// Extended public keys to add to the wallet.
    pub wallet_xpub: Option<Vec<String>>,
    /// Output descriptors to add to the wallet.
    pub wallet_descriptor: Option<Vec<String>>,
}

impl Config {
    /// Settings that name nothing but a network and a data directory.
    pub fn new(network: Network, datadir: PathBuf) -> (config: Config)
        ensures
            config.network == network,
            config.datadir == datadir,
            config.config_file is None,
            config.wallet_xpub is None,
            config.wallet_descriptor is None,
    {
        Config { network, datadir, config_file: None, wallet_xpub: None, wallet_descriptor: None }
    }
}

/// The wallet settings in a config file.
#[derive(Debug)]
pub struct Wallet {
    pub xpubs: Option<Vec<String>>,
    pub descriptors: Option<Vec<String>>,
    pub addresses: Option<Vec<String>>,
}

impl Wallet {
    /// No wallet settings at all.
    pub open spec fn is_empty(self) -> bool {
        self.xpubs is None && self.descriptors is None && self.addresses is None
    }
}

impl Default for Wallet {
    fn default() -> (wallet: Wallet)
        ensures
            wallet.is_empty(),
    {
        Wallet { xpubs: None, descriptors: None, addresses: None }
    }
}

/// What a config file holds.
#[derive(Debug)]
pub struct ConfigFile {
    /// Wallet settings. Absent from the file means the same as an empty table: no wallet
    /// settings. An empty file is a config that asks for nothing, not a malformed one.
    pub wallet: Wallet,
}

impl Default for ConfigFile {
    fn default() -> (file: ConfigFile)
        ensures
            file.wallet.is_empty(),
    {
        ConfigFile { wallet: Wallet::default() }
    }
}

/// What came of reading a config file and parsing its contents.
#[derive(Debug)]
pub enum ConfigRead {
    /// The file could not be read.
    Unreadable(ReadError),
    /// The contents are not a config, for this reason.
    Malformed(String),
    Parsed(ConfigFile),
}

impl ConfigFile {
    /// The config file at `path`, or why there is none.
    pub fn from_file(path: PathBuf, read: ConfigRead) -> (file: Result<ConfigFile, FlorestadError>)
        ensures
            file == match read {
                ConfigRead::Parsed(file) => Ok::<_, FlorestadError>(file),
                ConfigRead::Unreadable(error) => Err(
                    FlorestadError::CouldNotReadConfigFile(path, error),
                ),
                ConfigRead::Malformed(reason) => Err(
                    FlorestadError::CouldNotParseConfigFile(path, reason),
                ),
            },
    {
        match read {
            ConfigRead::Parsed(file) => Ok(file),
            ConfigRead::Unreadable(error) => Err(
                FlorestadError::CouldNotReadConfigFile(path, error),
            ),
            ConfigRead::Malformed(reason) => Err(
                FlorestadError::CouldNotParseConfigFile(path, reason),
            ),
        }
    }
}

/// The path that the config file is looked for at, if `default_path` is the one in the data
/// directory.
pub open spec fn path_of(config: Config, default_path: PathBuf) -> PathBuf {
    match config.config_file {
        Some(given) => given,
        None => default_path,
    }
}

/// The path of the config file in the data directory.
pub open spec fn default_path_of(config: Config) -> PathBuf {
    joined_path(config.datadir, CONFIG_FILE_NAME@)
}

/// Where to look for the config file: at the path that was given, otherwise in the data directory
/// under [`CONFIG_FILE_NAME`].
pub fn config_file_path(config: &Config) -> (path: PathBuf)
    ensures
        path == path_of(*config, default_path_of(*config)),
{
    match &config.config_file {
        Some(given) => given.clone(),
        None => join(&config.datadir, CONFIG_FILE_NAME),
    }
}

/// Whether a config file that could not be read may be passed over: only one that is not there,
/// and that nobody named.
pub open spec fn may_be_missing(config: Config, error: ReadError) -> bool {
    config.config_file is None && error.not_found
}

/// Whether `loaded` is right for the settings, after the file at `path` was read.
pub open spec fn is_loaded(
    loaded: Result<ConfigFile, FlorestadError>,
    config: Config,
    path: PathBuf,
    read: ConfigRead,
) -> bool {
    match read {
        ConfigRead::Parsed(file) => loaded == Ok::<_, FlorestadError>(file),
        ConfigRead::Unreadable(error) => if may_be_missing(config, error) {
            loaded is Ok && loaded->Ok_0.wallet.is_empty()
        } else {
            loaded == Err::<ConfigFile, _>(FlorestadError::CouldNotReadConfigFile(path, error))
        },
        ConfigRead::Malformed(reason) => loaded == Err::<ConfigFile, _>(
            FlorestadError::CouldNotParseConfigFile(path, reason),
        ),
    }
}

/// Loads the config, from what came of reading the file at [`config_file_path`].
///
/// Running without a config file is supported: if none was named and there is nothing at the
/// default path, the defaults are returned. Anything else is fatal. If there is a config file, or
/// the user named one, it is either honoured or refused: booting with a half-understood config
/// would silently give the node a different wallet than the operator asked for.
pub fn load_config_file(config: &Config, read: ConfigRead) -> (loaded: Result<
    ConfigFile,
    FlorestadError,
>)
    ensures
        is_loaded(loaded, *config, path_of(*config, default_path_of(*config)), read),
{
    load_config_file_from(config, join(&config.datadir, CONFIG_FILE_NAME), read)
}

/// Counterpart of [`load_config_file`], taking the path in the data directory as an argument.
pub fn load_config_file_from(config: &Config, default_path: PathBuf, read: ConfigRead) -> (loaded:
    Result<ConfigFile, FlorestadError>)
    ensures
        is_loaded(loaded, *config, path_of(*config, default_path), read),
{
    let explicit = config.config_file.is_some();
    let path = match &config.config_file {
        Some(given) => given.clone(),
        None => default_path,
    };
    match ConfigFile::from_file(path, read) {
        Ok(file) => Ok(file),
        // Only the default path is allowed to be missing. A path that was given is an
        // instruction, and quietly ignoring a typo in it would start a node watching nothing.
        Err(FlorestadError::CouldNotReadConfigFile(path, error)) => if !explicit
            && error.not_found {
            Ok(ConfigFile::default())
        } else {
            Err(FlorestadError::CouldNotReadConfigFile(path, error))
        },
        Err(error) => Err(error),
    }
}

/// Networks go by the names that `bitcoin` has for them, which are all different.
pub proof fn networks_have_their_own_names(network: Network, other: Network)
    ensures
        network is Bitcoin ==> network.name() == "bitcoin"@,
        network is Testnet ==> network.name() == "testnet"@,
        network is Testnet4 ==> network.name() == "testnet4"@,
        network is Signet ==> network.name() == "signet"@,
        network is Regtest ==> network.name() == "regtest"@,
        network.name() == other.name() ==> network == other,
{
    reveal_strlit("bitcoin");
    reveal_strlit("testnet");
    reveal_strlit("testnet4");
    reveal_strlit("signet");
    reveal_strlit("regtest");
    assert("bitcoin"@[0] == 'b' && "testnet"@[0] == 't' && "regtest"@[0] == 'r');
    assert("testnet"@.len() == 7 && "testnet4"@.len() == 8 && "signet"@.len() == 6);
    assert("bitcoin"@.len() == 7 && "regtest"@.len() == 7);
}

/// A path that was given is where the config file is looked for, wherever the data is kept; without
/// one it is `config.toml` in the data directory.
pub proof fn given_paths_come_first(config: &Config, path: PathBuf)
    requires
        call_ensures(config_file_path, (config,), path),
    ensures
        config.config_file matches Some(given) ==> path == given,
        config.config_file is None ==> path == joined_path(config.datadir, "config.toml"@),
{
}

/// A config file that was read and parsed is what is loaded, wherever its path came from.
pub proof fn parsed_files_are_honoured(
    config: &Config,
    file: ConfigFile,
    default_path: PathBuf,
    loaded: Result<ConfigFile, FlorestadError>,
    loaded_from: Result<ConfigFile, FlorestadError>,
)
    requires
        call_ensures(load_config_file, (config, ConfigRead::Parsed(file)), loaded),
        call_ensures(
            load_config_file_from,
            (config, default_path, ConfigRead::Parsed(file)),
            loaded_from,
        ),
    ensures
        loaded == Ok::<_, FlorestadError>(file),
        loaded_from == Ok::<_, FlorestadError>(file),
{
}

/// The defaults are loaded in one case only: no path was given, and there is nothing at the default
/// one. They hold no wallet settings.
pub proof fn defaults_stand_in_for_a_missing_file_only(
    config: &Config,
    read: ConfigRead,
    default_path: PathBuf,
    loaded: Result<ConfigFile, FlorestadError>,
    loaded_from: Result<ConfigFile, FlorestadError>,
)
    requires
        read !is Parsed,
        call_ensures(load_config_file, (config, read), loaded),
        call_ensures(load_config_file_from, (config, default_path, read), loaded_from),
    ensures
        loaded is Ok <==> config.config_file is None && (read matches ConfigRead::Unreadable(error)
            && error.not_found),
        loaded_from is Ok <==> loaded is Ok,
        loaded matches Ok(file) ==> file.wallet.xpubs is None && file.wallet.descriptors is None
            && file.wallet.addresses is None,
        loaded_from matches Ok(file) ==> file.wallet.xpubs is None
            && file.wallet.descriptors is None && file.wallet.addresses is None,
{
}

/// A config file that is refused is refused for what is wrong with it, under the path it was looked
/// for at.
pub proof fn refusals_say_what_is_wrong(
    config: &Config,
    read: ConfigRead,
    default_path: PathBuf,
    path: PathBuf,
    loaded: Result<ConfigFile, FlorestadError>,
    loaded_from: Result<ConfigFile, FlorestadError>,
)
    requires
        call_ensures(config_file_path, (config,), path),
        call_ensures(load_config_file, (config, read), loaded),
        call_ensures(load_config_file_from, (config, default_path, read), loaded_from),
    ensures
        loaded matches Err(error) ==> match read {
            ConfigRead::Parsed(_) => false,
            ConfigRead::Unreadable(reason) => error == FlorestadError::CouldNotReadConfigFile(
                path,
                reason,
            ),
            ConfigRead::Malformed(reason) => error == FlorestadError::CouldNotParseConfigFile(
                path,
                reason,
            ),
        },
        loaded_from matches Err(error) ==> {
            let looked_at = match config.config_file {
                Some(given) => given,
                None => default_path,
            };
            match read {
                ConfigRead::Parsed(_) => false,
                ConfigRead::Unreadable(reason) => error == FlorestadError::CouldNotReadConfigFile(
                    looked_at,
                    reason,
                ),
                ConfigRead::Malformed(reason) => error == FlorestadError::CouldNotParseConfigFile(
                    looked_at,
                    reason,
                ),
            }
        },
{
}

/// A file is there exactly if it was read and parsed; otherwise the error has its path and the
/// reason.
pub proof fn files_are_what_was_parsed(
    path: PathBuf,
    read: ConfigRead,
    file: Result<ConfigFile, FlorestadError>,
)
    requires
        call_ensures(ConfigFile::from_file, (path, read), file),
    ensures
        read matches ConfigRead::Parsed(parsed) ==> file matches Ok(same) && same == parsed,
        read matches ConfigRead::Unreadable(reason) ==> (file matches Err(
            FlorestadError::CouldNotReadConfigFile(at, why),
        ) && at == path && why == reason),
        read matches ConfigRead::Malformed(reason) ==> (file matches Err(
            FlorestadError::CouldNotParseConfigFile(at, why),
        ) && at == path && why == reason),
{
}

/// New settings name a network and a data directory, and nothing else.
pub proof fn new_settings_name_nothing_else(network: Network, datadir: PathBuf, config: Config)
    requires
        call_ensures(Config::new, (network, datadir), config),
    ensures
        config.network == network,
        config.datadir == datadir,
        config.config_file is None,
        config.wallet_xpub is None && config.wallet_descriptor is None,
{
}

/// The defaults ask for nothing.
pub proof fn defaults_ask_for_nothing(wallet: Wallet, file: ConfigFile)
    requires
        call_ensures(Wallet::default, (), wallet),
        call_ensures(ConfigFile::default, (), file),
    ensures
        wallet.xpubs is None && wallet.descriptors is None && wallet.addresses is None,
        file.wallet.xpubs is None && file.wallet.descriptors is None
            && file.wallet.addresses is None,
{
}

}
