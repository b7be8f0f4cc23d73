//! What can keep the node from booting.

use crate::wallet::{
    address_error_text, error_source_text, error_text, parse_error_source, parse_error_text,
};
use bitcoin::address::ParseError;
use std::path::PathBuf;
use vstd::prelude::*;

verus! {

/// Why a file could not be read.
#[derive(Debug)]
pub struct ReadError {
    /// Whether that is because there is no such file.
    pub not_found: bool,
    pub message: String,
}

/// What can keep the node from booting.
#[derive(Debug)]
pub enum FlorestadError {
    CouldNotReadConfigFile(PathBuf, ReadError),
    /// The config file is not a config, for the reason given.
    CouldNotParseConfigFile(PathBuf, String),
    /// An address that cannot be watched: it is no address, or one of another network.
    InvalidWalletAddress(String, ParseError),
}

impl FlorestadError {
    /// What the error says.
    pub open spec fn text(self) -> Seq<char> {
        match self {
            FlorestadError::CouldNotReadConfigFile(_, error) => "could not read the config file: "@
                + error.message@,
            FlorestadError::CouldNotParseConfigFile(_, reason) =>
                "could not parse the config file: "@ + reason@,
            FlorestadError::InvalidWalletAddress(address, error) => "invalid wallet address "@
                + address@ + ": "@ + address_error_text(error),
        }
    }

    /// The message for the operator.
    pub fn message(&self) -> (message: String)
        ensures
            message@ == self.text(),
    {
        match self {
            FlorestadError::CouldNotReadConfigFile(_, error) => {
                let mut message = "could not read the config file: ".to_owned();
                message.append(error.message.as_str());
                message
            },
            FlorestadError::CouldNotParseConfigFile(_, reason) => {
                let mut message = "could not parse the config file: ".to_owned();
                message.append(reason.as_str());
                message
            },
            FlorestadError::InvalidWalletAddress(address, error) => {
                let mut message = "invalid wallet address ".to_owned();
                message.append(address.as_str());
                message.append(": ");
                message.append(error_text(error).as_str());
                match error_source_text(error) {
                    Some(source) => {
                        message.append(": ");
                        message.append(source.as_str());
                    },
                    None => {},
                }
                assert(message@ =~= self.text());
                message
            },
        }
    }
}

/// The message about an invalid address quotes the address.
pub proof fn message_quotes_the_address(address: String, error: ParseError)
    ensures
        exists|at: int|
            #![trigger FlorestadError::InvalidWalletAddress(address, error).text().skip(at)]
            0 <= at <= FlorestadError::InvalidWalletAddress(address, error).text().len()
                && address@.is_prefix_of(
                FlorestadError::InvalidWalletAddress(address, error).text().skip(at),
            ),
{
    let text = FlorestadError::InvalidWalletAddress(address, error).text();
    let at = "invalid wallet address "@.len() as int;
    assert(text.skip(at).subrange(0, address@.len() as int) =~= address@);
}

/// Every message says what could not be done, and ends in the reason.
pub proof fn messages_end_in_the_reason(error: &FlorestadError, message: String)
    requires
        call_ensures(FlorestadError::message, (error,), message),
    ensures
        *error matches FlorestadError::CouldNotReadConfigFile(_, reason) ==> message@
            == "could not read the config file: "@ + reason.message@,
        *error matches FlorestadError::CouldNotParseConfigFile(_, reason) ==> message@
            == "could not parse the config file: "@ + reason@,
        *error matches FlorestadError::InvalidWalletAddress(address, reason) ==> (
            match parse_error_source(reason) {
                Some(source) => message@ == "invalid wallet address "@ + address@ + ": "@
                    + parse_error_text(reason) + ": "@ + source,
                None => message@ == "invalid wallet address "@ + address@ + ": "@
                    + parse_error_text(reason),
            }),
{
    if let FlorestadError::InvalidWalletAddress(address, reason) = *error {
        if let Some(source) = parse_error_source(reason) {
            assert(message@ =~= "invalid wallet address "@ + address@ + ": "@ + parse_error_text(
                reason,
            ) + ": "@ + source);
        }
    }
}

}
