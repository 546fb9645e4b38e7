//! Configuration of the Kafka producer.
use vstd::prelude::*;

use rdkafka::config::ClientConfig;

use crate::r_value::{r_str, RInput};

verus! {

#[verifier::external_type_specification]
#[verifier::external_body]
pub struct ExClientConfig(ClientConfig);

/// The configuration entries that a librdkafka client configuration holds.
pub uninterp spec fn client_config_entries(c: ClientConfig) -> Map<Seq<char>, Seq<char>>;

/// Calls `ClientConfig::new` of `rdkafka`. The contract claims that the new
/// configuration holds no entry, as its source shows (an empty map).
#[verifier::external_body]
fn new_client_config() -> (fresh: ClientConfig)
    ensures
        client_config_entries(fresh).dom() == Set::<Seq<char>>::empty(),
{
    ClientConfig::new()
}

/// Calls `ClientConfig::set` of `rdkafka`. The contract claims that the entry
/// for `key` becomes `value` and that the others stay, as its source shows
/// (an insert into its map).
#[verifier::external_body]
fn set_client_config_entry(c: &mut ClientConfig, key: &str, value: &str)
    ensures
        client_config_entries(*final(c)) == client_config_entries(*old(c)).insert(key@, value@),
{
    c.set(key, value);
}

/// Why a configuration list cannot configure a producer.
#[derive(Debug, PartialEq, Eq, Structural)]
pub enum KafkaConfigError {
    /// A value of the list is not a string scalar.
    ValueNotString,
}

impl KafkaConfigError {
    /// The text of this error.
    pub fn message(&self) -> (m: String)
        ensures
            m@ == "Config values must be strings"@,
    {
        String::from_str("Config values must be strings")
    }
}

/// The configuration that the first `n` elements of a list give: each name
/// bound to the string of its element, a later name replacing an earlier one.
pub open spec fn config_entries(es: Seq<(String, RInput)>, n: int) -> Map<Seq<char>, Seq<char>>
    decreases n,
{
    if n <= 0 {
        Map::empty()
    } else {
        config_entries(es, n - 1).insert(es[n - 1].0@, r_str(es[n - 1].1)->Some_0)
    }
}

/// The librdkafka configuration that a named list of strings gives, each
/// name a configuration key; an error where a value is not a string scalar.
pub fn producer_config(config: &Vec<(String, RInput)>) -> (r: Result<ClientConfig, KafkaConfigError>)
    ensures
        r is Ok <==> forall|k: int| 0 <= k < config@.len() ==> #[trigger] r_str(config@[k].1) is Some,
        r matches Ok(c) ==> client_config_entries(c) == config_entries(config@, config@.len() as int),
{
    let mut c = new_client_config();
    let mut i: usize = 0;
    while i < config.len()
        invariant
            i <= config@.len(),
            forall|k: int| 0 <= k < i ==> #[trigger] r_str(config@[k].1) is Some,
            client_config_entries(c) == config_entries(config@, i as int),
        decreases config.len() - i,
    {
        match config[i].1.as_str() {
            Some(v) => {
                set_client_config_entry(&mut c, config[i].0.as_str(), v.as_str());
            },
            None => {
                return Err(KafkaConfigError::ValueNotString);
            },
        }
        i += 1;
    }
    Ok(c)
}

/// The flush timeout in milliseconds for the timeout `timeout_ms` that R
/// gives: its bits sign-extended to 64, so a negative timeout waits
/// (practically) forever.
pub fn flush_timeout_millis(timeout_ms: i32) -> (r: u64)
    ensures
        r as int == (if timeout_ms >= 0 { timeout_ms as int } else { timeout_ms + 0x1_0000_0000_0000_0000 }),
{
    if timeout_ms >= 0 {
        timeout_ms as u64
    } else {
        (0xffff_ffff_ffff_ffffu64 - ((-1 - timeout_ms) as u64))
    }
}

} // verus!
