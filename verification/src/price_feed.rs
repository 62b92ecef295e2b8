//! The price feed: it asks BandChain's oracle over IBC for the rates of its
//! symbols, no more often than its update interval, and records the rates
//! that come back.
use crate::lockdrop::types::Coin;
use crate::numeric::be_value;
use crate::vesting::admin::views;
use cw_band::IBC_APP_VERSION;
use obi::{OBIDecode, OBIEncode};
use vstd::prelude::*;

verus! {

/// The update interval, in seconds, where none is configured.
pub const DEFAULT_MAX_UPDATE_INTERVAL: u64 = 120;

/// The bytes `obi` encodes a list of strings as.
pub uninterp spec fn obi_encoding_of_strings(symbols: Seq<Seq<char>>) -> Seq<u8>;

/// `OBIEncode::try_to_vec` on a list of strings: the list's OBI encoding
/// (its length, then each string's length and bytes). It writes into a
/// vector, which never refuses a write, so it always succeeds.
#[verifier::external_body]
fn obi_encode_strings(symbols: &Vec<String>) -> (r: Option<Vec<u8>>)
    ensures
        r is Some,
        r matches Some(b) ==> b@ == obi_encoding_of_strings(views(symbols@)),
{
    match symbols.try_to_vec() {
        Ok(b) => Some(b),
        Err(_) => None,
    }
}

/// `OBIEncode::try_to_vec` on a `u64`: its eight big-endian bytes. It
/// writes into a vector, which never refuses a write, so it always succeeds.
#[verifier::external_body]
fn obi_encode_u64(x: u64) -> (r: Option<Vec<u8>>)
    ensures
        r is Some,
        r matches Some(b) ==> b@.len() == 8 && be_value(b@) == x,
{
    match x.try_to_vec() {
        Ok(b) => Some(b),
        Err(_) => None,
    }
}

/// The big-endian value of four bytes from `start`: a length in OBI.
pub open spec fn obi_len_at(b: Seq<u8>, start: int) -> nat {
    be_value(b.subrange(start, start + 4))
}

/// `OBIDecode::decode` of a list of `u64`s from the front of `bytes`: a
/// big-endian `u32` count, then that many big-endian `u64`s; an error where
/// the bytes end early. Bytes past the list are left unread.
#[verifier::external_body]
fn obi_decode_u64s(bytes: &Vec<u8>) -> (r: Option<Vec<u64>>)
    ensures
        r is Some <==> (bytes@.len() >= 4 && bytes@.len() >= 4 + 8 * obi_len_at(bytes@, 0)),
        r matches Some(v) ==> v@.len() == obi_len_at(bytes@, 0) && forall|i: int|
            0 <= i < v@.len() ==> #[trigger] v@[i] == be_value(bytes@.subrange(4 + 8 * i, 12 + 8 * i)),
{
    let mut buf: &[u8] = bytes.as_slice();
    match <Vec<u64> as OBIDecode>::decode(&mut buf) {
        Ok(v) => Some(v),
        Err(_) => None,
    }
}

/// `cw_band::IBC_APP_VERSION`: the IBC application version of BandChain's
/// oracle, "bandchain-1".
#[verifier::external_body]
fn ibc_app_version() -> (r: String)
    ensures
        r@ == "bandchain-1"@,
{
    IBC_APP_VERSION.to_string()
}

/// The call data of an oracle request: the symbols and the multiplier.
#[derive(Debug)]
pub struct Input {
    pub symbols: Vec<String>,
    pub multiplier: u64,
}

/// The price feed's errors.
#[derive(Clone, Debug, PartialEq, Eq)]
pub enum PriceFeedError {
    /// A request came before the update interval passed
    TooEarly,
    /// The oracle did not resolve the request, or its result did not decode
    RequestNotSuccess,
    /// The IBC version given is not BandChain's
    InvalidIbcVersion(String),
    OnlyUnorderedChannel,
    /// The call data could not be encoded
    EncodingFailed,
}

impl Input {
    /// The OBI encoding of the call data: the symbols, then the multiplier.
    pub fn try_to_vec(&self) -> (r: Result<Vec<u8>, PriceFeedError>)
        ensures
            r matches Ok(b) && b@.len() >= 8 && b@.subrange(0, b@.len() - 8)
                == obi_encoding_of_strings(views(self.symbols@)) && be_value(
                b@.subrange(b@.len() - 8, b@.len() as int),
            ) == self.multiplier,
    {
        let mut out = match obi_encode_strings(&self.symbols) {
            Some(b) => b,
            None => {
                return Err(PriceFeedError::EncodingFailed);
            },
        };
        let mut tail = match obi_encode_u64(self.multiplier) {
            Some(b) => b,
            None => {
                return Err(PriceFeedError::EncodingFailed);
            },
        };
        let ghost head = out@;
        let ghost last = tail@;
        out.append(&mut tail);
        proof {
            assert(out@.subrange(0, out@.len() - 8) =~= head);
            assert(out@.subrange(out@.len() - 8, out@.len() as int) =~= last);
        }
        Ok(out)
    }
}

/// The price feed's parameters.
#[derive(Clone, Debug)]
pub struct PriceFeedConfig {
    pub client_id: String,
    pub oracle_script_id: u64,
    pub ask_count: u64,
    pub min_count: u64,
    pub fee_limit: Vec<Coin>,
    pub prepare_gas: u64,
    pub execute_gas: u64,
    pub multiplier: u64,
    pub symbols: Vec<String>,
    pub max_update_interval: u64,
    pub owner: String,
}

/// The parameters a price feed is created with.
#[derive(Clone, Debug)]
pub struct PriceFeedInstantiateMsg {
    pub client_id: String,
    pub oracle_script_id: u64,
    pub ask_count: u64,
    pub min_count: u64,
    pub fee_limit: Vec<Coin>,
    pub prepare_gas: u64,
    pub execute_gas: u64,
    pub multiplier: u64,
    pub symbols: Vec<String>,
    pub owner: Option<String>,
    pub max_update_interval: Option<u64>,
}

/// Creates the price feed: the owner is the one given, else the creator; the
/// update interval two minutes unless given.
pub fn instantiate(sender: String, msg: PriceFeedInstantiateMsg) -> (r: PriceFeedConfig)
    ensures
        r.owner == (match msg.owner {
            Some(o) => o,
            None => sender,
        }),
        r.max_update_interval == (match msg.max_update_interval {
            Some(i) => i,
            None => DEFAULT_MAX_UPDATE_INTERVAL,
        }),
        r.client_id == msg.client_id,
        r.oracle_script_id == msg.oracle_script_id,
        r.ask_count == msg.ask_count,
        r.min_count == msg.min_count,
        r.fee_limit@ == msg.fee_limit@,
        r.prepare_gas == msg.prepare_gas,
        r.execute_gas == msg.execute_gas,
        r.multiplier == msg.multiplier,
        r.symbols@ == msg.symbols@,
{
    let owner = match msg.owner {
        Some(o) => o,
        None => sender,
    };
    let max_update_interval = match msg.max_update_interval {
        Some(i) => i,
        None => DEFAULT_MAX_UPDATE_INTERVAL,
    };
    PriceFeedConfig {
        client_id: msg.client_id,
        oracle_script_id: msg.oracle_script_id,
        ask_count: msg.ask_count,
        min_count: msg.min_count,
        fee_limit: msg.fee_limit,
        prepare_gas: msg.prepare_gas,
        execute_gas: msg.execute_gas,
        multiplier: msg.multiplier,
        symbols: msg.symbols,
        max_update_interval,
        owner,
    }
}

/// Whether a request at `now` comes after the update interval passed since
/// the last one (none counting as time zero).
pub open spec fn request_allowed(config: PriceFeedConfig, now: u64, last_update: Option<u64>) -> bool {
    now - (match last_update {
        Some(t) => t,
        None => 0u64,
    }) >= config.max_update_interval
}

/// Asks the oracle for the rates, once the update interval passed since the
/// last request (none counting as time zero). Returns the request's call
/// data and the new time of the last request.
pub fn try_request(config: &PriceFeedConfig, now: u64, last_update: Option<u64>) -> (r: Result<
    (Vec<u8>, u64),
    PriceFeedError,
>)
    requires
        now >= (match last_update {
            Some(t) => t,
            None => 0u64,
        }),
    ensures
        ({
            let last = match last_update {
                Some(t) => t,
                None => 0u64,
            };
            &&& !request_allowed(*config, now, last_update) ==> r == Err::<(Vec<u8>, u64), PriceFeedError>(
                PriceFeedError::TooEarly,
            )
            &&& request_allowed(*config, now, last_update) ==> (r matches Ok((data, t)) && {
                &&& t == now
                &&& data@.len() >= 8
                &&& data@.subrange(0, data@.len() - 8) == obi_encoding_of_strings(views(config.symbols@))
                &&& be_value(data@.subrange(data@.len() - 8, data@.len() as int)) == config.multiplier
            })
        }),
{
    let last = match last_update {
        Some(t) => t,
        None => 0,
    };
    if now - last < config.max_update_interval {
        return Err(PriceFeedError::TooEarly);
    }
    let input = Input { symbols: copy_strings(&config.symbols), multiplier: config.multiplier };
    match input.try_to_vec() {
        Ok(data) => Ok((data, now)),
        Err(e) => Err(e),
    }
}

/// Requests are rate limited: after a request at `t`, every request before
/// the update interval passed is refused, and one at or after it is not.
pub proof fn law_requests_rate_limited(config: PriceFeedConfig, t: u64, later: u64)
    requires
        t <= later,
    ensures
        later - t < config.max_update_interval <==> !request_allowed(config, later, Some(t)),
{
}

/// A copy of a list of strings.
pub fn copy_strings(v: &Vec<String>) -> (r: Vec<String>)
    ensures
        r@ == v@,
{
    let mut r: Vec<String> = Vec::new();
    let mut i: usize = 0;
    while i < v.len()
        invariant
            i <= v@.len(),
            r@ == v@.take(i as int),
        decreases v@.len() - i,
    {
        r.push(v[i].clone());
        proof {
            assert(v@.take(i + 1) =~= v@.take(i as int).push(v@[i as int]));
        }
        i = i + 1;
    }
    proof {
        assert(v@.take(i as int) =~= v@);
    }
    r
}

/// Changes to the price feed's parameters; the update interval is not
/// among those applied.
#[derive(Clone, Debug)]
pub struct UpdateConfigMsg {
    pub client_id: Option<String>,
    pub oracle_script_id: Option<u64>,
    pub ask_count: Option<u64>,
    pub min_count: Option<u64>,
    pub fee_limit: Option<Vec<Coin>>,
    pub prepare_gas: Option<u64>,
    pub execute_gas: Option<u64>,
    pub multiplier: Option<u64>,
    pub symbols: Option<Vec<String>>,
    pub max_update_interval: Option<u64>,
}

/// Applies the parameters given; the others, the owner and the update
/// interval stay.
pub fn try_update_config(config: PriceFeedConfig, new_config: UpdateConfigMsg) -> (r: PriceFeedConfig)
    ensures
        r.client_id == (match new_config.client_id {
            Some(v) => v,
            None => config.client_id,
        }),
        r.oracle_script_id == (match new_config.oracle_script_id {
            Some(v) => v,
            None => config.oracle_script_id,
        }),
        r.ask_count == (match new_config.ask_count {
            Some(v) => v,
            None => config.ask_count,
        }),
        r.min_count == (match new_config.min_count {
            Some(v) => v,
            None => config.min_count,
        }),
        r.fee_limit@ == (match new_config.fee_limit {
            Some(v) => v@,
            None => config.fee_limit@,
        }),
        r.prepare_gas == (match new_config.prepare_gas {
            Some(v) => v,
            None => config.prepare_gas,
        }),
        r.execute_gas == (match new_config.execute_gas {
            Some(v) => v,
            None => config.execute_gas,
        }),
        r.multiplier == (match new_config.multiplier {
            Some(v) => v,
            None => config.multiplier,
        }),
        r.symbols@ == (match new_config.symbols {
            Some(v) => v@,
            None => config.symbols@,
        }),
        r.max_update_interval == config.max_update_interval,
        r.owner == config.owner,
{
    let mut config = config;
    if let Some(v) = new_config.client_id {
        config.client_id = v;
    }
    if let Some(v) = new_config.oracle_script_id {
        config.oracle_script_id = v;
    }
    if let Some(v) = new_config.ask_count {
        config.ask_count = v;
    }
    if let Some(v) = new_config.min_count {
        config.min_count = v;
    }
    if let Some(v) = new_config.fee_limit {
        config.fee_limit = v;
    }
    if let Some(v) = new_config.prepare_gas {
        config.prepare_gas = v;
    }
    if let Some(v) = new_config.execute_gas {
        config.execute_gas = v;
    }
    if let Some(v) = new_config.multiplier {
        config.multiplier = v;
    }
    if let Some(v) = new_config.symbols {
        config.symbols = v;
    }
    config
}

/// Hands the price feed to a new owner.
pub fn try_update_owner(config: PriceFeedConfig, new_owner: String) -> (r: PriceFeedConfig)
    ensures
        r == (PriceFeedConfig { owner: new_owner, ..config }),
{
    let mut config = config;
    config.owner = new_owner;
    config
}

/// The IBC channel must use BandChain's version on both ends and be
/// unordered.
pub fn enforce_order_and_version(
    channel_version: &String,
    counterparty_version: Option<String>,
    unordered: bool,
) -> (r: Result<(), PriceFeedError>)
    ensures
        channel_version@ != "bandchain-1"@ ==> r == Err::<(), PriceFeedError>(
            PriceFeedError::InvalidIbcVersion(*channel_version),
        ),
        (channel_version@ == "bandchain-1"@ && counterparty_version is Some
            && counterparty_version.unwrap()@ != "bandchain-1"@) ==> r == Err::<(), PriceFeedError>(
            PriceFeedError::InvalidIbcVersion(counterparty_version.unwrap()),
        ),
        (channel_version@ == "bandchain-1"@ && (counterparty_version is None
            || counterparty_version.unwrap()@ == "bandchain-1"@) && !unordered) ==> r == Err::<
            (),
            PriceFeedError,
        >(PriceFeedError::OnlyUnorderedChannel),
        r is Ok <==> (channel_version@ == "bandchain-1"@ && (counterparty_version is None
            || counterparty_version.unwrap()@ == "bandchain-1"@) && unordered),
{
    let version = ibc_app_version();
    if !channel_version.eq(&version) {
        return Err(PriceFeedError::InvalidIbcVersion(channel_version.clone()));
    }
    if let Some(v) = counterparty_version {
        if !v.eq(&version) {
            return Err(PriceFeedError::InvalidIbcVersion(v));
        }
    }
    if !unordered {
        return Err(PriceFeedError::OnlyUnorderedChannel);
    }
    Ok(())
}

/// A rate the oracle reported.
#[derive(Clone, Copy, Debug, PartialEq, Eq, Structural)]
pub struct PriceFeedRate {
    /// Rate of an asset relative to USD
    pub rate: u64,
    /// The resolve time of the request
    pub resolve_time: u64,
    /// The request the rate was derived from
    pub request_id: u64,
}

impl PriceFeedRate {
    pub fn new(rate: u64, resolve_time: u64, request_id: u64) -> (r: PriceFeedRate)
        ensures
            r == (PriceFeedRate { rate, resolve_time, request_id }),
    {
        PriceFeedRate { rate, resolve_time, request_id }
    }
}

/// A pair rate of the reference data.
#[derive(Clone, Copy, Debug)]
pub struct ReferenceData {
    /// Pair rate, e.g. of BTC/USD
    pub rate: crate::numeric::U256,
    /// Unix time when the base asset was last updated
    pub last_updated_base: u64,
    /// Unix time when the quote asset was last updated
    pub last_updated_quote: u64,
}

impl ReferenceData {
    pub fn new(rate: crate::numeric::U256, last_updated_base: u64, last_updated_quote: u64) -> (r:
        ReferenceData)
        ensures
            r.rate == rate,
            r.last_updated_base == last_updated_base,
            r.last_updated_quote == last_updated_quote,
    {
        ReferenceData { rate, last_updated_base, last_updated_quote }
    }
}

/// Whether the oracle's result decodes to rates: an OBI list of `u64`s.
pub open spec fn decodes(result: Seq<u8>) -> bool {
    result.len() >= 4 && result.len() >= 4 + 8 * obi_len_at(result, 0)
}

/// Records the rates of an oracle response received at `now`: where the
/// request resolved and its result decodes to rates, each symbol in order
/// gets its rate, stamped with the time and the request. Returns the
/// symbols with their rates.
pub fn do_ibc_packet_receive(
    symbols: &Vec<String>,
    resolved: bool,
    result: &Vec<u8>,
    request_id: u64,
    now: u64,
) -> (r: Result<Vec<(String, PriceFeedRate)>, PriceFeedError>)
    requires
        (resolved && decodes(result@)) ==> obi_len_at(result@, 0) <= symbols@.len(),
    ensures
        !resolved ==> r == Err::<Vec<(String, PriceFeedRate)>, PriceFeedError>(
            PriceFeedError::RequestNotSuccess,
        ),
        (resolved && !decodes(result@)) ==> r == Err::<Vec<(String, PriceFeedRate)>, PriceFeedError>(
            PriceFeedError::RequestNotSuccess,
        ),
        (resolved && decodes(result@)) ==> (r matches Ok(saved) && saved@.len() == obi_len_at(
            result@,
            0,
        ) && forall|i: int|
            0 <= i < saved@.len() ==> #[trigger] saved@[i] == (
                symbols@[i],
                PriceFeedRate {
                    rate: be_value(result@.subrange(4 + 8 * i, 12 + 8 * i)) as u64,
                    resolve_time: now,
                    request_id,
                },
            )),
{
    if !resolved {
        return Err(PriceFeedError::RequestNotSuccess);
    }
    let rates = match obi_decode_u64s(result) {
        Some(v) => v,
        None => {
            return Err(PriceFeedError::RequestNotSuccess);
        },
    };
    let mut saved: Vec<(String, PriceFeedRate)> = Vec::new();
    let mut i: usize = 0;
    while i < rates.len()
        invariant
            i <= rates@.len(),
            rates@.len() <= symbols@.len(),
            saved@.len() == i,
            forall|j: int|
                0 <= j < i ==> #[trigger] saved@[j] == (
                    symbols@[j],
                    PriceFeedRate { rate: rates@[j], resolve_time: now, request_id },
                ),
        decreases rates@.len() - i,
    {
        saved.push((symbols[i].clone(), PriceFeedRate::new(rates[i], now, request_id)));
        i = i + 1;
    }
    proof {
        assert forall|j: int| 0 <= j < saved@.len() implies #[trigger] saved@[j] == (
            symbols@[j],
            PriceFeedRate {
                rate: be_value(result@.subrange(4 + 8 * j, 12 + 8 * j)) as u64,
                resolve_time: now,
                request_id,
            },
        ) by {
            assert(rates@[j] == be_value(result@.subrange(4 + 8 * j, 12 + 8 * j)));
        }
    }
    Ok(saved)
}

} // verus!
