//! Configuration of a connection attempt, and what it parses to.

use crate::felt_text::{felt_text_fits, felt_text_in_range};
use starknet::providers::Url;
use std::str::FromStr;
use vstd::prelude::*;

verus! {

/// What a connection attempt is started with, as text.
pub struct DefaultStarknetConfig {
    /// URL of the RPC endpoint.
    pub rpc_url: String,
    /// Address of the account: a felt, in hex with `0x` in front or in decimal.
    pub account_address: String,
    /// Private key of the account: a felt, written as the address is.
    pub private_key: String,
}

impl Clone for DefaultStarknetConfig {
    fn clone(&self) -> (copy: Self)
        ensures
            copy == *self,
    {
        DefaultStarknetConfig {
            rpc_url: self.rpc_url.clone(),
            account_address: self.account_address.clone(),
            private_key: self.private_key.clone(),
        }
    }
}

/// Which field of a configuration does not parse.
#[derive(Clone, Copy, Debug, PartialEq, Eq)]
pub enum ConfigError {
    /// The endpoint is no absolute URL.
    InvalidRpcUrl,
    /// The account address is no felt.
    InvalidAccountAddress,
    /// The private key is no felt.
    InvalidPrivateKey,
}

/// A configuration whose three fields parsed.
pub struct ConnectRequest {
    /// The endpoint, in the normal form that the URL parser gives it.
    pub rpc_url: String,
    /// The account address: the 32 bytes of the felt, most significant first.
    pub account_address: [u8; 32],
    /// The private key: the 32 bytes of the felt, most significant first.
    pub private_key: [u8; 32],
}

/// The normal form of the URL that `url::Url::parse` reads from `text`; `None`
/// where it returns an error.
pub uninterp spec fn url_from_str(text: Seq<char>) -> Option<Seq<char>>;

/// The felt that `Felt::from_str` reads from `text`, as its 32 bytes, most
/// significant first; `None` where it returns an error.
pub uninterp spec fn felt_from_str(text: Seq<char>) -> Option<Seq<u8>>;

/// What `text` is read as where a felt is expected: what `Felt::from_str` reads
/// from it, and nothing where it is decimal text for 2^256 or more, which the
/// parser cannot hold.
pub open spec fn felt_of_text(text: Seq<char>) -> Option<Seq<u8>> {
    if felt_text_in_range(text) {
        felt_from_str(text)
    } else {
        None
    }
}

/// Calls `url::Url::parse` on `text` and hands back the serialization of the
/// URL, or `None` for an error. Assumed: the result depends on the text alone.
#[verifier::external_body]
fn parse_url(text: &str) -> (url: Option<String>)
    ensures
        url matches Some(u) ==> url_from_str(text@) == Some(u@),
        url is None ==> url_from_str(text@) is None,
{
    match Url::parse(text) {
        Ok(url) => Some(String::from(url)),
        Err(_) => None,
    }
}

/// Calls `Felt::from_str` on `text` and hands back the bytes of the felt, from
/// `Felt::to_bytes_be`, or `None` for an error. Assumed: the result depends on
/// the text alone. Decimal text whose leading digits stand for 2^256 or more is
/// kept away: adding a digit, the parser overflows its 256 bits on it.
#[verifier::external_body]
fn parse_felt(text: &str) -> (bytes: Option<[u8; 32]>)
    requires
        felt_text_in_range(text@),
    ensures
        bytes matches Some(b) ==> felt_from_str(text@) == Some(b@),
        bytes is None ==> felt_from_str(text@) is None,
{
    match starknet::core::types::Felt::from_str(text) {
        Ok(felt) => Some(felt.to_bytes_be()),
        Err(_) => None,
    }
}

/// Reads `text` as a felt: `None` where it is no felt, or decimal text for 2^256
/// or more.
pub fn felt_bytes(text: &str) -> (bytes: Option<[u8; 32]>)
    ensures
        bytes matches Some(b) ==> felt_of_text(text@) == Some(b@),
        bytes is None ==> felt_of_text(text@) is None,
{
    if felt_text_fits(text) {
        parse_felt(text)
    } else {
        None
    }
}

/// The request made of three parsed fields, or the error of the first field
/// that did not parse: the endpoint before the address, the address before the
/// key.
pub open spec fn request_of(
    rpc_url: Option<String>,
    account_address: Option<[u8; 32]>,
    private_key: Option<[u8; 32]>,
) -> Result<ConnectRequest, ConfigError> {
    match (rpc_url, account_address, private_key) {
        (None, _, _) => Err(ConfigError::InvalidRpcUrl),
        (Some(_), None, _) => Err(ConfigError::InvalidAccountAddress),
        (Some(_), Some(_), None) => Err(ConfigError::InvalidPrivateKey),
        (Some(rpc_url), Some(account_address), Some(private_key)) => Ok(
            ConnectRequest { rpc_url, account_address, private_key },
        ),
    }
}

/// Puts three parsed fields together; see [`request_of`].
pub fn connect_request(
    rpc_url: Option<String>,
    account_address: Option<[u8; 32]>,
    private_key: Option<[u8; 32]>,
) -> (request: Result<ConnectRequest, ConfigError>)
    ensures
        request == request_of(rpc_url, account_address, private_key),
{
    match rpc_url {
        None => Err(ConfigError::InvalidRpcUrl),
        Some(rpc_url) => match account_address {
            None => Err(ConfigError::InvalidAccountAddress),
            Some(account_address) => match private_key {
                None => Err(ConfigError::InvalidPrivateKey),
                Some(private_key) => Ok(ConnectRequest { rpc_url, account_address, private_key }),
            },
        },
    }
}

impl DefaultStarknetConfig {
    /// Which error parsing reports for this configuration, if any.
    pub open spec fn parse_error(&self) -> Option<ConfigError> {
        if url_from_str(self.rpc_url@) is None {
            Some(ConfigError::InvalidRpcUrl)
        } else if felt_of_text(self.account_address@) is None {
            Some(ConfigError::InvalidAccountAddress)
        } else if felt_of_text(self.private_key@) is None {
            Some(ConfigError::InvalidPrivateKey)
        } else {
            None
        }
    }

    /// Parses the three fields. The error names the first field that does not
    /// parse; on success the request holds what the three texts stand for.
    pub fn parse(&self) -> (request: Result<ConnectRequest, ConfigError>)
        ensures
            match request {
                Ok(r) => {
                    &&& self.parse_error() is None
                    &&& url_from_str(self.rpc_url@) == Some(r.rpc_url@)
                    &&& felt_of_text(self.account_address@) == Some(r.account_address@)
                    &&& felt_of_text(self.private_key@) == Some(r.private_key@)
                },
                Err(e) => self.parse_error() == Some(e),
            },
    {
        let rpc_url = parse_url(self.rpc_url.as_str());
        let account_address = felt_bytes(self.account_address.as_str());
        let private_key = felt_bytes(self.private_key.as_str());
        connect_request(rpc_url, account_address, private_key)
    }
}

} // verus!
