//! Client settings as they appear in a configuration file, and their
//! conversion into the runtime client configuration and retry policy.

use vstd::prelude::*;

use crate::client::{duration_from_millis, milliseconds, nanos, seconds, ClientConfig, RetryPolicy};
use crate::helpers::{Endian, WordOrder};
use vstd::string::StringExecFns;

verus! {

/// Errors that can occur while loading configuration files.
#[derive(Debug)]
pub enum ConfigError {
    /// The configuration file could not be parsed.
    Parse(String),
    /// A configuration value is invalid or unsupported.
    InvalidValue(String),
}

/// Client configuration as it appears in a configuration file.
#[derive(Debug)]
pub struct ClientConfigFile {
    /// Response timeout in milliseconds.
    pub timeout_ms: u64,
    /// Optional retry policy.
    pub retry_policy: Option<RetryPolicyFile>,
    /// Byte order used by typed register helpers: `big` or `little`.
    pub endian: Option<String>,
    /// Word order used by multi-register typed helpers: `msf` or `lsf`.
    pub word_order: Option<String>,
}

impl Default for ClientConfigFile {
    /// A 5000 ms timeout and nothing else set.
    fn default() -> (r: Self)
        ensures
            r.timeout_ms == 5000,
            r.retry_policy is None,
            r.endian is None,
            r.word_order is None,
    {
        Self { timeout_ms: 5000, retry_policy: None, endian: None, word_order: None }
    }
}

/// Retry policy configuration as it appears in a configuration file.
#[derive(Debug, Clone, Copy, PartialEq, Eq, Structural)]
pub struct RetryPolicyFile {
    /// Maximum number of retry attempts before giving up.
    pub max_retries: u32,
    /// Initial delay before the first retry, in milliseconds.
    pub initial_backoff_ms: u64,
    /// Maximum delay between retries, in milliseconds.
    pub max_backoff_ms: u64,
}

impl Default for RetryPolicyFile {
    /// Three retries, 100 ms initial and 5000 ms maximum backoff.
    fn default() -> (r: Self)
        ensures
            r == (RetryPolicyFile { max_retries: 3, initial_backoff_ms: 100, max_backoff_ms: 5000 }),
    {
        Self { max_retries: 3, initial_backoff_ms: 100, max_backoff_ms: 5000 }
    }
}

/// The byte order a configuration value names: none or `big` is big-endian,
/// `little` little-endian, anything else no byte order.
pub open spec fn spec_parse_endian(value: Option<Seq<char>>) -> Option<Endian> {
    match value {
        None => Some(Endian::Big),
        Some(s) => if s == "big"@ {
            Some(Endian::Big)
        } else if s == "little"@ {
            Some(Endian::Little)
        } else {
            None
        },
    }
}

/// The word order a configuration value names: none or `msf` is most
/// significant first, `lsf` least significant first, anything else none.
pub open spec fn spec_parse_word_order(value: Option<Seq<char>>) -> Option<WordOrder> {
    match value {
        None => Some(WordOrder::MostSignificantFirst),
        Some(s) => if s == "msf"@ {
            Some(WordOrder::MostSignificantFirst)
        } else if s == "lsf"@ {
            Some(WordOrder::LeastSignificantFirst)
        } else {
            None
        },
    }
}

/// An optional string taken by its view.
pub open spec fn view_text(value: Option<String>) -> Option<Seq<char>> {
    match value {
        Some(s) => Some(s@),
        None => None,
    }
}

/// The message for a byte order `other` that is neither `big` nor `little`.
pub open spec fn endian_message(other: Seq<char>) -> Seq<char> {
    "endian must be 'big' or 'little', got '"@ + other + "'"@
}

/// The message for a word order `other` that is neither `msf` nor `lsf`.
pub open spec fn word_order_message(other: Seq<char>) -> Seq<char> {
    "word_order must be 'msf' or 'lsf', got '"@ + other + "'"@
}

/// The message for a byte order that is neither `big` nor `little`.
fn invalid_endian_message(other: &String) -> (r: String)
    ensures
        r@ == endian_message(other@),
{
    let mut msg = String::from_str("endian must be 'big' or 'little', got '");
    msg.append(other.as_str());
    msg.append("'");
    msg
}

/// The message for a word order that is neither `msf` nor `lsf`.
fn invalid_word_order_message(other: &String) -> (r: String)
    ensures
        r@ == word_order_message(other@),
{
    let mut msg = String::from_str("word_order must be 'msf' or 'lsf', got '");
    msg.append(other.as_str());
    msg.append("'");
    msg
}

/// Parse a byte-order setting.
fn parse_endian(value: &Option<String>) -> (r: Result<Endian, ConfigError>)
    ensures
        match r {
            Ok(e) => spec_parse_endian(view_text(*value)) == Some(e),
            Err(e) => spec_parse_endian(view_text(*value)) is None && (e matches ConfigError::InvalidValue(m)
                && m@ == endian_message(value->Some_0@)),
        },
{
    match value {
        None => Ok(Endian::Big),
        Some(s) => {
            let big = "big".to_owned();
            let little = "little".to_owned();
            if *s == big {
                Ok(Endian::Big)
            } else if *s == little {
                Ok(Endian::Little)
            } else {
                Err(ConfigError::InvalidValue(invalid_endian_message(s)))
            }
        },
    }
}

/// Parse a word-order setting.
fn parse_word_order(value: &Option<String>) -> (r: Result<WordOrder, ConfigError>)
    ensures
        match r {
            Ok(w) => spec_parse_word_order(view_text(*value)) == Some(w),
            Err(e) => spec_parse_word_order(view_text(*value)) is None && (e matches ConfigError::InvalidValue(m)
                && m@ == word_order_message(value->Some_0@)),
        },
{
    match value {
        None => Ok(WordOrder::MostSignificantFirst),
        Some(s) => {
            let msf = "msf".to_owned();
            let lsf = "lsf".to_owned();
            if *s == msf {
                Ok(WordOrder::MostSignificantFirst)
            } else if *s == lsf {
                Ok(WordOrder::LeastSignificantFirst)
            } else {
                Err(ConfigError::InvalidValue(invalid_word_order_message(s)))
            }
        },
    }
}

impl ClientConfigFile {
    /// Convert this file configuration into the runtime client config and retry
    /// policy.
    pub fn into_parts(self) -> (r: Result<(ClientConfig, RetryPolicy), ConfigError>)
        ensures
            r is Ok <==> spec_parse_endian(view_text(self.endian)) is Some && spec_parse_word_order(
                view_text(self.word_order),
            ) is Some,
            r is Err ==> (r->Err_0 matches ConfigError::InvalidValue(m) && m@ == (if spec_parse_endian(
                view_text(self.endian),
            ) is None {
                endian_message(self.endian->Some_0@)
            } else {
                word_order_message(self.word_order->Some_0@)
            })),
            r matches Ok((config, policy)) ==> {
                &&& Some(config.endian) == spec_parse_endian(view_text(self.endian))
                &&& Some(config.word_order) == spec_parse_word_order(view_text(self.word_order))
                &&& config.timeout == milliseconds(self.timeout_ms)
                &&& nanos(config.timeout) == self.timeout_ms * 1_000_000
                &&& config.idle_timeout is None
                &&& policy.max_retries == (match self.retry_policy {
                    Some(p) => p.max_retries,
                    None => 3,
                })
                &&& policy.initial_backoff == (match self.retry_policy {
                    Some(p) => milliseconds(p.initial_backoff_ms),
                    None => milliseconds(100),
                })
                &&& policy.max_backoff == (match self.retry_policy {
                    Some(p) => milliseconds(p.max_backoff_ms),
                    None => seconds(5),
                })
                &&& nanos(policy.initial_backoff) == (match self.retry_policy {
                    Some(p) => p.initial_backoff_ms * 1_000_000,
                    None => 100_000_000,
                })
                &&& nanos(policy.max_backoff) == (match self.retry_policy {
                    Some(p) => p.max_backoff_ms * 1_000_000,
                    None => 5_000_000_000,
                })
            },
    {
        let timeout = duration_from_millis(self.timeout_ms);
        let retry = match self.retry_policy {
            Some(policy) => RetryPolicy {
                max_retries: policy.max_retries,
                initial_backoff: duration_from_millis(policy.initial_backoff_ms),
                max_backoff: duration_from_millis(policy.max_backoff_ms),
            },
            None => RetryPolicy::default(),
        };
        let endian = match parse_endian(&self.endian) {
            Ok(e) => e,
            Err(e) => return Err(e),
        };
        let word_order = match parse_word_order(&self.word_order) {
            Ok(w) => w,
            Err(e) => return Err(e),
        };
        let config = ClientConfig { timeout, idle_timeout: None, endian, word_order };
        Ok((config, retry))
    }
}

} // verus!
