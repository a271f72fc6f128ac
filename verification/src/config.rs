use vstd::prelude::*;

verus! {

/// Whether orders are only simulated or really sent.
#[derive(Debug, Clone, Copy, PartialEq, Eq, Structural)]
pub enum ExecutionMode {
    DryRun,
    Live,
}

/// How the bot runs.
#[derive(Debug, Clone)]
pub struct ExecutionConfig {
    pub mode: ExecutionMode,
    pub episode_secs: u64,
    pub max_active_markets: usize,
}

/// Episode length used when the configuration names none.
pub fn default_episode_secs() -> (s: u64)
    ensures
        s == 300,
{
    300
}

/// Number of markets traded at once when the configuration names none.
pub fn default_max_active_markets() -> (n: usize)
    ensures
        n == 5,
{
    5
}

/// All market data feeds.
#[derive(Debug, Clone)]
pub struct FeedConfig {
    pub chainlink: ChainlinkConfig,
    pub binance_spot: ExchangeWsConfig,
    pub binance_futures: ExchangeWsConfig,
    pub bybit: ExchangeWsConfig,
}

/// Chainlink Data Streams endpoint and credentials.
#[derive(Debug, Clone)]
pub struct ChainlinkConfig {
    pub ws_url: String,
    pub api_key: String,
    pub hmac_secret: String,
    pub feeds: Vec<String>,
}

/// An exchange trade stream.
#[derive(Debug, Clone)]
pub struct ExchangeWsConfig {
    pub ws_url: String,
    pub symbols: Vec<String>,
}

/// Polymarket endpoints and credentials.
#[derive(Debug, Clone)]
pub struct PolymarketConfig {
    pub ws_url: String,
    pub rest_url: String,
    pub gamma_url: String,
    pub private_key: String,
    pub api_key: String,
    pub api_secret: String,
    pub passphrase: String,
}

/// Live trading cannot run without a key to sign orders with.
pub open spec fn live_key_missing(mode: ExecutionMode, private_key: Seq<char>) -> bool {
    mode == ExecutionMode::Live && private_key.len() == 0
}

/// The first check of a configuration: live mode needs a non-empty
/// private key. The error carries the message shown to the user.
pub fn validate_live_key(mode: ExecutionMode, private_key: &String) -> (r: Result<(), String>)
    ensures
        r is Err <==> live_key_missing(mode, private_key@),
        r matches Err(msg) ==> msg@ == "Live mode requires a non-empty private_key"@,
{
    if mode == ExecutionMode::Live && private_key.as_str().is_empty() {
        return Err(String::from_str("Live mode requires a non-empty private_key"));
    }
    Ok(())
}

} // verus!
