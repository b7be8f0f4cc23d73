//! The wallet inputs of a boot, from everywhere they come from.

use crate::config::{Config, ConfigFile, Network};
use crate::error::FlorestadError;
use crate::text::optional_string;
use bitcoin::address::ParseError;
use bitcoin::{Address, ScriptBuf};
use std::error::Error;
use std::str::FromStr;
use vstd::prelude::*;

verus! {

/// A Bitcoin script.
#[verifier::external_type_specification]
#[verifier::external_body]
pub struct ExScriptBuf(ScriptBuf);

/// Why an address is refused.
#[verifier::external_type_specification]
#[verifier::external_body]
pub struct ExParseError(ParseError);

/// Why `bitcoin` does not parse a text as an address; `None` if it does.
pub uninterp spec fn address_parse_error(address: Seq<char>) -> Option<ParseError>;

/// Why `bitcoin` refuses an address that it parsed on a network; `None` if it is valid there.
pub uninterp spec fn address_network_error(address: Seq<char>, network: Network) -> Option<
    ParseError,
>;

/// The script that `bitcoin` makes for an address that it parsed.
pub uninterp spec fn script_of_address(address: Seq<char>) -> ScriptBuf;

/// How a message about an address that belongs to another network ends.
pub open spec fn wrong_network_text(network: Network) -> Seq<char> {
    " is not valid on "@ + network.name()
}

/// Whether an address parses and is valid on a network.
pub open spec fn address_is_valid(address: Seq<char>, network: Network) -> bool {
    address_parse_error(address) is None && address_network_error(address, network) is None
}

/// The script that an address on a network stands for, or why the address is refused there.
pub open spec fn address_script(address: Seq<char>, network: Network) -> Result<
    ScriptBuf,
    ParseError,
> {
    match (address_parse_error(address), address_network_error(address, network)) {
        (Some(error), _) => Err(error),
        (None, Some(error)) => Err(error),
        (None, None) => Ok(script_of_address(address)),
    }
}

/// What `bitcoin` says about a refused address.
pub uninterp spec fn parse_error_text(error: ParseError) -> Seq<char>;

/// What `bitcoin` says about the error beneath, if there is one.
pub uninterp spec fn parse_error_source(error: ParseError) -> Option<Seq<char>>;

/// All that `bitcoin` says about a refused address.
pub open spec fn address_error_text(error: ParseError) -> Seq<char> {
    match parse_error_source(error) {
        Some(source) => parse_error_text(error) + ": "@ + source,
        None => parse_error_text(error),
    }
}

/// `bitcoin::Address::from_str`, then `require_network` on the address and `script_pubkey` on the
/// checked address. The first depends on the text alone, the second on the text and the network,
/// the third on the text alone. What lies beneath an error of `require_network` says at its end
/// that the address is not valid on the network, by the name that `Display` of `bitcoin::Network`
/// gives it.
#[verifier::external_body]
fn script_for(address: &str, network: Network) -> (script: Result<ScriptBuf, ParseError>)
    ensures
        (address_parse_error(address@) matches Some(error) ==> script == Err::<ScriptBuf, _>(error)),
        (address_parse_error(address@) is None ==> match address_network_error(address@, network) {
            Some(error) => script == Err::<ScriptBuf, _>(error),
            None => script == Ok::<_, ParseError>(script_of_address(address@)),
        }),
        address_parse_error(address@) is None && script is Err ==> (parse_error_source(
            script->Err_0,
        ) matches Some(source) && wrong_network_text(network).is_suffix_of(source)),
{
    let required = match network {
        Network::Bitcoin => bitcoin::Network::Bitcoin,
        Network::Testnet => bitcoin::Network::Testnet,
        Network::Testnet4 => bitcoin::Network::Testnet4,
        Network::Signet => bitcoin::Network::Signet,
        Network::Regtest => bitcoin::Network::Regtest,
    };
    let checked = Address::from_str(address)?.require_network(required)?;
    Ok(checked.script_pubkey())
}

/// `Display` of `bitcoin::address::ParseError`, which depends on nothing but the error.
#[verifier::external_body]
pub(crate) fn error_text(error: &ParseError) -> (text: String)
    ensures
        text@ == parse_error_text(*error),
{
    error.to_string()
}

/// `Error::source` of `bitcoin::address::ParseError`, as its `Display` text, which depends on
/// nothing but the error.
#[verifier::external_body]
pub(crate) fn error_source_text(error: &ParseError) -> (text: Option<String>)
    ensures
        optional_string(text) == parse_error_source(*error),
{
    error.source().map(ToString::to_string)
}

/// The items of a list that may be absent.
pub open spec fn listed(list: Option<Vec<String>>) -> Seq<String> {
    match list {
        Some(items) => items@,
        None => Seq::empty(),
    }
}

/// All output descriptors: those of the command line, then those of the file.
pub open spec fn all_descriptors(config: Config, file: ConfigFile) -> Seq<String> {
    listed(config.wallet_descriptor) + listed(file.wallet.descriptors)
}

/// All extended public keys: those of the command line, those of the file, that of the
/// environment.
pub open spec fn all_xpubs(config: Config, file: ConfigFile, env_xpub: Option<String>) -> Seq<
    String,
> {
    listed(config.wallet_xpub) + listed(file.wallet.xpubs) + match env_xpub {
        Some(xpub) => seq![xpub],
        None => Seq::empty(),
    }
}

/// What the addresses of a file stand for on a network, one by one.
pub open spec fn all_scripts(addresses: Seq<String>, network: Network) -> Seq<
    Result<ScriptBuf, ParseError>,
> {
    addresses.map_values(|address: String| address_script(address@, network))
}

/// The wallet inputs for this boot, resolved from every source they are taken from.
pub struct WalletConfig {
    /// Output descriptors to add to the wallet. Validated by the wallet itself.
    pub descriptors: Vec<String>,
    /// SLIP-132 extended public keys to add to the wallet. Validated by the wallet itself.
    pub xpubs: Vec<String>,
    /// Addresses to watch, already parsed and checked against our network.
    pub addresses: Vec<ScriptBuf>,
}

/// Whether `resolved` is right for the settings: everything merged if every script was found,
/// otherwise the first address that has none, with the reason.
pub open spec fn is_resolved(
    resolved: Result<WalletConfig, FlorestadError>,
    config: Config,
    file: ConfigFile,
    env_xpub: Option<String>,
    scripts: Seq<Result<ScriptBuf, ParseError>>,
) -> bool {
    match resolved {
        Ok(wallet) => {
            &&& wallet.descriptors@ == all_descriptors(config, file)
            &&& wallet.xpubs@ == all_xpubs(config, file, env_xpub)
            &&& scripts == wallet.addresses@.map_values(
                |script: ScriptBuf| Ok::<ScriptBuf, ParseError>(script),
            )
        },
        Err(error) => exists|at: int|
            {
                &&& 0 <= at < scripts.len()
                &&& forall|before: int| 0 <= before < at ==> (#[trigger] scripts[before]) is Ok
                &&& #[trigger] scripts[at] is Err
                &&& error == FlorestadError::InvalidWalletAddress(
                    listed(file.wallet.addresses)[at],
                    scripts[at]->Err_0,
                )
            },
    }
}

/// Whether an error about an address that belongs to another network says so at its end, and names
/// the network that the node runs on.
pub open spec fn refuses_by_name(error: FlorestadError, network: Network) -> bool {
    match error {
        FlorestadError::InvalidWalletAddress(address, _) => address_parse_error(address@) is None
            ==> wrong_network_text(network).is_suffix_of(error.text()),
        _ => true,
    }
}

/// The message about an address ends in what lies beneath the error.
proof fn lemma_refuses_by_name(address: String, error: ParseError, network: Network)
    requires
        address_parse_error(address@) is None ==> (parse_error_source(error) matches Some(source)
            && wrong_network_text(network).is_suffix_of(source)),
    ensures
        refuses_by_name(FlorestadError::InvalidWalletAddress(address, error), network),
{
    if address_parse_error(address@) is None {
        let source = parse_error_source(error)->0;
        let text = FlorestadError::InvalidWalletAddress(address, error).text();
        let name = wrong_network_text(network);
        assert(text.subrange(text.len() - source.len(), text.len() as int) =~= source);
        assert(text.subrange(text.len() - name.len(), text.len() as int) =~= source.subrange(
            source.len() - name.len(),
            source.len() as int,
        ));
    }
}

/// Appends copies of the items of a list.
fn extend(items: &mut Vec<String>, list: &Option<Vec<String>>)
    ensures
        final(items)@ == old(items)@ + listed(*list),
{
    let ghost before = items@;
    if let Some(more) = list {
        let mut at: usize = 0;
        assert(before + more@.take(0) =~= before);
        while at < more.len()
            invariant
                at <= more@.len(),
                items@ == before + more@.take(at as int),
            decreases more@.len() - at,
        {
            items.push(more[at].clone());
            at = at + 1;
            assert(before + more@.take(at as int) =~= (before + more@.take(at - 1)).push(
                more@[at - 1],
            ));
        }
        assert(more@.take(at as int) =~= more@);
    } else {
        assert(before + listed(*list) =~= before);
    }
}

impl WalletConfig {
    /// Merges the wallet settings from the command line, the config file and the environment.
    ///
    /// Lists are concatenated, with the command line coming first. `env_xpub` is the
    /// `WALLET_XPUB` environment variable.
    ///
    /// Fails if an address can't be parsed, or isn't valid for `config.network`.
    pub fn resolve(config: &Config, file: &ConfigFile, env_xpub: Option<String>) -> (resolved:
        Result<WalletConfig, FlorestadError>)
        ensures
            is_resolved(
                resolved,
                *config,
                *file,
                env_xpub,
                all_scripts(listed(file.wallet.addresses), config.network),
            ),
            resolved matches Err(error) ==> refuses_by_name(error, config.network),
    {
        let mut scripts: Vec<Result<ScriptBuf, ParseError>> = Vec::new();
        let ghost addresses = listed(file.wallet.addresses);
        if let Some(list) = &file.wallet.addresses {
            let mut at: usize = 0;
            while at < list.len()
                invariant
                    at <= list@.len(),
                    list@ == addresses,
                    scripts@ == all_scripts(addresses.take(at as int), config.network),
                    forall|i: int|
                        #![trigger scripts@[i]]
                        0 <= i < at && scripts@[i] is Err ==> refuses_by_name(
                            FlorestadError::InvalidWalletAddress(
                                addresses[i],
                                scripts@[i]->Err_0,
                            ),
                            config.network,
                        ),
                decreases list@.len() - at,
            {
                let script = script_for(list[at].as_str(), config.network);
                if let Err(error) = &script {
                    proof {
                        lemma_refuses_by_name(addresses[at as int], *error, config.network);
                    }
                }
                scripts.push(script);
                at = at + 1;
                assert(all_scripts(addresses.take(at as int), config.network) =~= all_scripts(
                    addresses.take(at - 1),
                    config.network,
                ).push(address_script(addresses[at - 1]@, config.network)));
            }
            assert(addresses.take(at as int) =~= addresses);
        }
        assert(scripts@ =~= all_scripts(addresses, config.network));
        WalletConfig::merge(config, file, env_xpub, scripts)
    }

    /// Merges the wallet settings, given for each address of the file the script it stands for,
    /// or why it is refused.
    pub fn merge(
        config: &Config,
        file: &ConfigFile,
        env_xpub: Option<String>,
        scripts: Vec<Result<ScriptBuf, ParseError>>,
    ) -> (resolved: Result<WalletConfig, FlorestadError>)
        requires
            scripts@.len() == listed(file.wallet.addresses).len(),
        ensures
            is_resolved(resolved, *config, *file, env_xpub, scripts@),
    {
        let mut descriptors: Vec<String> = Vec::new();
        extend(&mut descriptors, &config.wallet_descriptor);
        extend(&mut descriptors, &file.wallet.descriptors);
        assert(descriptors@ =~= all_descriptors(*config, *file));

        let mut xpubs: Vec<String> = Vec::new();
        extend(&mut xpubs, &config.wallet_xpub);
        extend(&mut xpubs, &file.wallet.xpubs);
        let ghost env = env_xpub;
        if let Some(xpub) = env_xpub {
            xpubs.push(xpub);
        }
        assert(xpubs@ =~= all_xpubs(*config, *file, env));

        let ghost all = scripts@;
        let count: usize = scripts.len();
        let ghost found = |script: ScriptBuf| Ok::<ScriptBuf, ParseError>(script);
        let mut addresses: Vec<ScriptBuf> = Vec::new();
        let mut at: usize = 0;
        for script in it: scripts
            invariant
                it.seq() == all,
                at == it.index(),
                all.len() == count,
                all.len() == listed(file.wallet.addresses).len(),
                found == (|script: ScriptBuf| Ok::<ScriptBuf, ParseError>(script)),
                addresses@.map_values(found) == all.take(at as int),
        {
            assert(script == all[at as int]);
            match script {
                Ok(script) => {
                    let ghost before = addresses@;
                    addresses.push(script);
                    assert(addresses@.map_values(found) =~= before.map_values(found).push(
                        all[at as int],
                    ));
                    assert(all.take(at + 1) =~= all.take(at as int).push(all[at as int]));
                    at = at + 1;
                },
                Err(error) => {
                    let address = match &file.wallet.addresses {
                        Some(list) => list[at].clone(),
                        None => String::new(),
                    };
                    let ghost earlier = addresses@.map_values(found);
                    assert forall|before: int| 0 <= before < at implies (
                    #[trigger] all[before]) is Ok by {
                        assert(earlier.len() == at);
                        assert(earlier[before] == all.take(at as int)[before]);
                        assert(earlier[before] == found(addresses@[before]));
                    }
                    return Err(FlorestadError::InvalidWalletAddress(address, error));
                },
            }
        }
        assert(all.take(at as int) =~= all);
        Ok(WalletConfig { descriptors, xpubs, addresses })
    }
}

/// A wallet is resolved exactly if every address of the file parses and is valid on the node's
/// network: one that is not refuses them all.
pub proof fn wallets_resolve_all_or_nothing(
    resolved: Result<WalletConfig, FlorestadError>,
    config: Config,
    file: ConfigFile,
    env_xpub: Option<String>,
)
    requires
        is_resolved(
            resolved,
            config,
            file,
            env_xpub,
            all_scripts(listed(file.wallet.addresses), config.network),
        ),
    ensures
        resolved is Ok <==> (forall|i: int|
            #![trigger listed(file.wallet.addresses)[i]]
            0 <= i < listed(file.wallet.addresses).len() ==> address_is_valid(
                listed(file.wallet.addresses)[i]@,
                config.network,
            )),
{
    let addresses = listed(file.wallet.addresses);
    let scripts = all_scripts(addresses, config.network);
    match resolved {
        Ok(wallet) => {
            let found = |script: ScriptBuf| Ok::<ScriptBuf, ParseError>(script);
            assert forall|i: int|
                #![trigger addresses[i]]
                0 <= i < addresses.len() implies address_is_valid(
                addresses[i]@,
                config.network,
            ) by {
                assert(scripts[i] == address_script(addresses[i]@, config.network));
                assert(wallet.addresses@.map_values(found)[i] == found(wallet.addresses@[i]));
            }
        },
        Err(_) => {
            let at = choose|at: int| 0 <= at < scripts.len() && #[trigger] scripts[at] is Err;
            assert(scripts[at] == address_script(addresses[at]@, config.network));
            assert(!address_is_valid(addresses[at]@, config.network));
        },
    }
}

/// A config file without wallet settings changes nothing: the wallet is what the command line and
/// the environment ask for, and it always resolves.
pub proof fn empty_files_ask_for_nothing(
    resolved: Result<WalletConfig, FlorestadError>,
    config: Config,
    file: ConfigFile,
    env_xpub: Option<String>,
)
    requires
        file.wallet.is_empty(),
        is_resolved(
            resolved,
            config,
            file,
            env_xpub,
            all_scripts(listed(file.wallet.addresses), config.network),
        ),
    ensures
        resolved is Ok,
        resolved->Ok_0.descriptors@ == listed(config.wallet_descriptor),
        resolved->Ok_0.xpubs@ == listed(config.wallet_xpub) + match env_xpub {
            Some(xpub) => seq![xpub],
            None => Seq::empty(),
        },
        resolved->Ok_0.addresses@.len() == 0,
{
    let scripts = all_scripts(listed(file.wallet.addresses), config.network);
    assert(scripts.len() == 0);
    let wallet = resolved->Ok_0;
    let found = |script: ScriptBuf| Ok::<ScriptBuf, ParseError>(script);
    assert(wallet.addresses@.map_values(found).len() == wallet.addresses@.len());
    assert(wallet.descriptors@ =~= listed(config.wallet_descriptor));
}

/// What is listed is what the list holds, and nothing if there is no list.
pub proof fn lists_may_be_absent(list: Vec<String>)
    ensures
        listed(Some(list)) == list@,
        listed(None).len() == 0,
{
}

/// How the lists of a resolved wallet fall apart into those they come from.
proof fn lemma_lists(
    config: Config,
    file: ConfigFile,
    env_xpub: Option<String>,
    wallet: WalletConfig,
    given: Seq<String>,
    filed: Seq<String>,
    given_xpubs: Seq<String>,
    filed_xpubs: Seq<String>,
)
    requires
        wallet.descriptors@ == all_descriptors(config, file),
        wallet.xpubs@ == all_xpubs(config, file, env_xpub),
        config.wallet_descriptor matches Some(list) ==> given == list@,
        config.wallet_descriptor is None ==> given.len() == 0,
        file.wallet.descriptors matches Some(list) ==> filed == list@,
        file.wallet.descriptors is None ==> filed.len() == 0,
        config.wallet_xpub matches Some(list) ==> given_xpubs == list@,
        config.wallet_xpub is None ==> given_xpubs.len() == 0,
        file.wallet.xpubs matches Some(list) ==> filed_xpubs == list@,
        file.wallet.xpubs is None ==> filed_xpubs.len() == 0,
    ensures
        wallet.descriptors@.len() == given.len() + filed.len(),
        wallet.descriptors@.take(given.len() as int) == given,
        wallet.descriptors@.skip(given.len() as int) == filed,
        given_xpubs.len() + filed_xpubs.len() <= wallet.xpubs@.len(),
        wallet.xpubs@.take(given_xpubs.len() as int) == given_xpubs,
        wallet.xpubs@.subrange(
            given_xpubs.len() as int,
            (given_xpubs.len() + filed_xpubs.len()) as int,
        ) == filed_xpubs,
        env_xpub matches Some(xpub) ==> wallet.xpubs@.skip(
            (given_xpubs.len() + filed_xpubs.len()) as int,
        ) == seq![xpub],
        env_xpub is None ==> wallet.xpubs@.len() == given_xpubs.len() + filed_xpubs.len(),
{
    assert(given =~= listed(config.wallet_descriptor));
    assert(filed =~= listed(file.wallet.descriptors));
    assert(given_xpubs =~= listed(config.wallet_xpub));
    assert(filed_xpubs =~= listed(file.wallet.xpubs));
    let xpubs = wallet.xpubs@;
    let len = (given_xpubs.len() + filed_xpubs.len()) as int;
    assert(wallet.descriptors@.take(given.len() as int) =~= given);
    assert(wallet.descriptors@.skip(given.len() as int) =~= filed);
    assert(xpubs.take(given_xpubs.len() as int) =~= given_xpubs);
    assert(xpubs.subrange(given_xpubs.len() as int, len) =~= filed_xpubs);
    if let Some(xpub) = env_xpub {
        assert(xpubs.skip(len) =~= seq![xpub]);
    }
}

/// A resolved wallet has every descriptor of the command line and behind them every one of the file,
/// in order and nothing else, whichever of the two lists there are. The same goes for extended
/// public keys, with that of the environment behind them.
pub proof fn resolved_lists_are_all_lists_in_order(
    config: &Config,
    file: &ConfigFile,
    env_xpub: Option<String>,
    wallet: WalletConfig,
    given: Seq<String>,
    filed: Seq<String>,
    given_xpubs: Seq<String>,
    filed_xpubs: Seq<String>,
)
    requires
        call_ensures(WalletConfig::resolve, (config, file, env_xpub), Ok(wallet)),
        config.wallet_descriptor matches Some(list) ==> given == list@,
        config.wallet_descriptor is None ==> given.len() == 0,
        file.wallet.descriptors matches Some(list) ==> filed == list@,
        file.wallet.descriptors is None ==> filed.len() == 0,
        config.wallet_xpub matches Some(list) ==> given_xpubs == list@,
        config.wallet_xpub is None ==> given_xpubs.len() == 0,
        file.wallet.xpubs matches Some(list) ==> filed_xpubs == list@,
        file.wallet.xpubs is None ==> filed_xpubs.len() == 0,
    ensures
        wallet.descriptors@.len() == given.len() + filed.len(),
        wallet.descriptors@.take(given.len() as int) == given,
        wallet.descriptors@.skip(given.len() as int) == filed,
        given_xpubs.len() + filed_xpubs.len() <= wallet.xpubs@.len(),
        wallet.xpubs@.take(given_xpubs.len() as int) == given_xpubs,
        wallet.xpubs@.subrange(
            given_xpubs.len() as int,
            (given_xpubs.len() + filed_xpubs.len()) as int,
        ) == filed_xpubs,
        env_xpub matches Some(xpub) ==> wallet.xpubs@.skip(
            (given_xpubs.len() + filed_xpubs.len()) as int,
        ) == seq![xpub],
        env_xpub is None ==> wallet.xpubs@.len() == given_xpubs.len() + filed_xpubs.len(),
{
    lemma_lists(
        *config,
        *file,
        env_xpub,
        wallet,
        given,
        filed,
        given_xpubs,
        filed_xpubs,
    );
}

/// Merging puts the lists together in the same order, whatever became of the addresses.
pub proof fn merged_lists_are_all_lists_in_order(
    config: &Config,
    file: &ConfigFile,
    env_xpub: Option<String>,
    scripts: Vec<Result<ScriptBuf, ParseError>>,
    wallet: WalletConfig,
    given: Seq<String>,
    filed: Seq<String>,
    given_xpubs: Seq<String>,
    filed_xpubs: Seq<String>,
)
    requires
        call_ensures(WalletConfig::merge, (config, file, env_xpub, scripts), Ok(wallet)),
        config.wallet_descriptor matches Some(list) ==> given == list@,
        config.wallet_descriptor is None ==> given.len() == 0,
        file.wallet.descriptors matches Some(list) ==> filed == list@,
        file.wallet.descriptors is None ==> filed.len() == 0,
        config.wallet_xpub matches Some(list) ==> given_xpubs == list@,
        config.wallet_xpub is None ==> given_xpubs.len() == 0,
        file.wallet.xpubs matches Some(list) ==> filed_xpubs == list@,
        file.wallet.xpubs is None ==> filed_xpubs.len() == 0,
    ensures
        wallet.descriptors@.len() == given.len() + filed.len(),
        wallet.descriptors@.take(given.len() as int) == given,
        wallet.descriptors@.skip(given.len() as int) == filed,
        given_xpubs.len() + filed_xpubs.len() <= wallet.xpubs@.len(),
        wallet.xpubs@.take(given_xpubs.len() as int) == given_xpubs,
        wallet.xpubs@.subrange(
            given_xpubs.len() as int,
            (given_xpubs.len() + filed_xpubs.len()) as int,
        ) == filed_xpubs,
        env_xpub matches Some(xpub) ==> wallet.xpubs@.skip(
            (given_xpubs.len() + filed_xpubs.len()) as int,
        ) == seq![xpub],
        env_xpub is None ==> wallet.xpubs@.len() == given_xpubs.len() + filed_xpubs.len(),
{
    lemma_lists(
        *config,
        *file,
        env_xpub,
        wallet,
        given,
        filed,
        given_xpubs,
        filed_xpubs,
    );
}

/// The addresses of a resolved wallet are the scripts of the file's addresses, one for each and in
/// order, and every one of these addresses parses and belongs to the node's network.
pub proof fn resolved_addresses_are_those_of_the_file(
    config: &Config,
    file: &ConfigFile,
    env_xpub: Option<String>,
    wallet: WalletConfig,
)
    requires
        call_ensures(WalletConfig::resolve, (config, file, env_xpub), Ok(wallet)),
    ensures
        file.wallet.addresses is None ==> wallet.addresses@.len() == 0,
        file.wallet.addresses matches Some(list) ==> {
            &&& wallet.addresses@.len() == list@.len()
            &&& forall|i: int|
                0 <= i < list@.len() ==> {
                    &&& (#[trigger] wallet.addresses@[i]) == script_of_address(list@[i]@)
                    &&& address_parse_error(list@[i]@) is None
                    &&& address_network_error(list@[i]@, config.network) is None
                }
        },
{
    let addresses = listed(file.wallet.addresses);
    let scripts = all_scripts(addresses, config.network);
    let found = |script: ScriptBuf| Ok::<ScriptBuf, ParseError>(script);
    assert(scripts == wallet.addresses@.map_values(found));
    assert(wallet.addresses@.len() == addresses.len());
    assert forall|i: int|
        #![trigger addresses[i]]
        #![trigger wallet.addresses@[i]]
        0 <= i < addresses.len() implies {
        &&& wallet.addresses@[i] == script_of_address(addresses[i]@)
        &&& address_parse_error(addresses[i]@) is None
        &&& address_network_error(addresses[i]@, config.network) is None
    } by {
        assert(scripts[i] == address_script(addresses[i]@, config.network));
        assert(wallet.addresses@.map_values(found)[i] == found(wallet.addresses@[i]));
    }
}

/// A wallet that is refused is refused for the first address of the file that does not parse, or
/// that belongs to another network, and for the reason that `bitcoin` has. This gives its place.
pub proof fn refused_wallets_name_the_first_bad_address(
    config: &Config,
    file: &ConfigFile,
    env_xpub: Option<String>,
    error: FlorestadError,
) -> (at: int)
    requires
        call_ensures(WalletConfig::resolve, (config, file, env_xpub), Err(error)),
    ensures
        file.wallet.addresses is Some,
        0 <= at < file.wallet.addresses->0@.len(),
        ({
            let addresses = file.wallet.addresses->0@;
            &&& forall|before: int|
                0 <= before < at ==> address_parse_error((#[trigger] addresses[before])@) is None
                    && address_network_error(addresses[before]@, config.network) is None
            &&& error matches FlorestadError::InvalidWalletAddress(address, reason)
            &&& address == addresses[at]
            &&& match address_parse_error(addresses[at]@) {
                Some(parse_error) => reason == parse_error,
                None => address_network_error(addresses[at]@, config.network) == Some(reason),
            }
        }),
{
    let addresses = listed(file.wallet.addresses);
    let scripts = all_scripts(addresses, config.network);
    let at = choose|at: int|
        {
            &&& 0 <= at < scripts.len()
            &&& forall|before: int| 0 <= before < at ==> (#[trigger] scripts[before]) is Ok
            &&& #[trigger] scripts[at] is Err
            &&& error == FlorestadError::InvalidWalletAddress(addresses[at], scripts[at]->Err_0)
        };
    assert(scripts[at] == address_script(addresses[at]@, config.network));
    assert forall|before: int| 0 <= before < at implies address_parse_error(
        (#[trigger] addresses[before])@,
    ) is None && address_network_error(addresses[before]@, config.network) is None by {
        assert(scripts[before] == address_script(addresses[before]@, config.network));
    }
    at
}

/// An address that parses but belongs to another network is refused by name: the message has the
/// address, and ends in the network that the node runs on.
pub proof fn foreign_addresses_are_refused_by_name(
    config: &Config,
    file: &ConfigFile,
    env_xpub: Option<String>,
    address: String,
    reason: ParseError,
    message: String,
)
    requires
        address_parse_error(address@) is None,
        call_ensures(
            WalletConfig::resolve,
            (config, file, env_xpub),
            Err(FlorestadError::InvalidWalletAddress(address, reason)),
        ),
        call_ensures(
            FlorestadError::message,
            (&FlorestadError::InvalidWalletAddress(address, reason),),
            message,
        ),
    ensures
        ("invalid wallet address "@ + address@ + ": "@).is_prefix_of(message@),
        (" is not valid on "@ + config.network.name()).is_suffix_of(message@),
{
    let start = "invalid wallet address "@ + address@ + ": "@;
    assert(message@.subrange(0, start.len() as int) =~= start);
}

/// Merging takes the scripts it is given, if there is one for each address.
pub proof fn merged_addresses_are_the_scripts_given(
    config: &Config,
    file: &ConfigFile,
    env_xpub: Option<String>,
    scripts: Vec<Result<ScriptBuf, ParseError>>,
    merged: Result<WalletConfig, FlorestadError>,
)
    requires
        call_ensures(WalletConfig::merge, (config, file, env_xpub, scripts), merged),
    ensures
        merged is Ok <==> (forall|i: int|
            0 <= i < scripts@.len() ==> (#[trigger] scripts@[i]) is Ok),
        merged matches Ok(wallet) ==> {
            &&& wallet.addresses@.len() == scripts@.len()
            &&& forall|i: int|
                0 <= i < scripts@.len() ==> scripts@[i] == Ok::<ScriptBuf, ParseError>(
                    #[trigger] wallet.addresses@[i],
                )
        },
{
    if let Ok(wallet) = merged {
        let found = |script: ScriptBuf| Ok::<ScriptBuf, ParseError>(script);
        let all = wallet.addresses@.map_values(found);
        assert(scripts@ == all);
        assert forall|i: int| 0 <= i < scripts@.len() implies scripts@[i] == Ok::<
            ScriptBuf,
            ParseError,
        >(#[trigger] wallet.addresses@[i]) by {
            assert(all[i] == found(wallet.addresses@[i]));
        }
        assert forall|i: int| 0 <= i < scripts@.len() implies (#[trigger] scripts@[i]) is Ok by {
            assert(all[i] == found(wallet.addresses@[i]));
        }
    }
}

/// Merging refuses the first address that has no script, for the reason given. This gives its
/// place.
pub proof fn merging_refuses_the_first_address_without_a_script(
    config: &Config,
    file: &ConfigFile,
    env_xpub: Option<String>,
    scripts: Vec<Result<ScriptBuf, ParseError>>,
    error: FlorestadError,
) -> (at: int)
    requires
        file.wallet.addresses matches Some(list) && list@.len() == scripts@.len(),
        call_ensures(WalletConfig::merge, (config, file, env_xpub, scripts), Err(error)),
    ensures
        0 <= at < scripts@.len(),
        forall|before: int| 0 <= before < at ==> (#[trigger] scripts@[before]) is Ok,
        scripts@[at] is Err,
        error == FlorestadError::InvalidWalletAddress(
            file.wallet.addresses->0@[at],
            scripts@[at]->Err_0,
        ),
{
    choose|at: int|
        {
            &&& 0 <= at < scripts@.len()
            &&& forall|before: int| 0 <= before < at ==> (#[trigger] scripts@[before]) is Ok
            &&& #[trigger] scripts@[at] is Err
            &&& error == FlorestadError::InvalidWalletAddress(
                listed(file.wallet.addresses)[at],
                scripts@[at]->Err_0,
            )
        }
}

}
