use vstd::prelude::*;
use vstd::string::StrSliceExecFns;

use crate::config::ExchangeWsConfig;
use crate::crypto::{default_str_hash, hash_str};
use crate::json::{
    count_of, flag_of, get_count, get_flag, get_member, get_text, json_string_list, member_of,
    string_views, text_of, to_json_string_list, Json,
};
use crate::signal::Exchange;

verus! {

/// The lower-case form of a string, as `str::to_lowercase` computes it.
pub uninterp spec fn lowercase(s: Seq<char>) -> Seq<char>;

/// Lower-cases a string.
///
/// Trusted: calls `str::to_lowercase`, whose result depends on the string
/// alone (Unicode case mapping, no locale).
#[verifier::external_body]
fn to_lowercase(s: &str) -> (r: String)
    ensures
        r@ == lowercase(s@),
{
    s.to_lowercase()
}

/// Binance stream name of a symbol: the lower-cased symbol and `@trade`.
pub open spec fn binance_stream(symbol: Seq<char>) -> Seq<char> {
    lowercase(symbol) + "@trade"@
}

/// Bybit topic of a symbol: `publicTrade.` and the symbol.
pub open spec fn bybit_topic(symbol: Seq<char>) -> Seq<char> {
    "publicTrade."@ + symbol
}

/// The subscription message an exchange expects for `symbols`.
pub open spec fn exchange_subscribe_text(exchange: Exchange, symbols: Seq<Seq<char>>) -> Seq<char> {
    match exchange {
        Exchange::Bybit => "{\"args\":"@ + json_string_list(symbols.map_values(|s: Seq<char>| bybit_topic(s)))
            + ",\"op\":\"subscribe\"}"@,
        _ => "{\"id\":1,\"method\":\"SUBSCRIBE\",\"params\":"@ + json_string_list(
            symbols.map_values(|s: Seq<char>| binance_stream(s)),
        ) + "}"@,
    }
}

/// Identifier of a trading symbol.
pub fn hash_symbol(symbol: &str) -> (h: u64)
    ensures
        h == default_str_hash(symbol@),
{
    hash_str(symbol)
}

/// Websocket client of one exchange's trade stream.
pub struct ExchangeWsClient {
    exchange: Exchange,
    ws_url: String,
    symbols: Vec<String>,
}

impl ExchangeWsClient {
    pub closed spec fn exchange(&self) -> Exchange {
        self.exchange
    }

    pub closed spec fn ws_url(&self) -> Seq<char> {
        self.ws_url@
    }

    pub closed spec fn symbols(&self) -> Seq<Seq<char>> {
        string_views(self.symbols@)
    }

    pub fn new(exchange: Exchange, config: &ExchangeWsConfig) -> (c: Self)
        ensures
            c.exchange() == exchange,
            c.ws_url() == config.ws_url@,
            c.symbols() == string_views(config.symbols@),
    {
        ExchangeWsClient {
            exchange,
            ws_url: config.ws_url.clone(),
            symbols: config.symbols.clone(),
        }
    }

    /// The exchange this client streams from.
    pub fn exchange_kind(&self) -> (e: Exchange)
        ensures
            e == self.exchange(),
    {
        self.exchange
    }

    /// The symbols this client subscribes to.
    pub fn symbol_list(&self) -> (s: &Vec<String>)
        ensures
            string_views(s@) == self.symbols(),
    {
        &self.symbols
    }

    /// The endpoint to connect to.
    pub fn ws_url_str(&self) -> (u: &str)
        ensures
            u@ == self.ws_url(),
    {
        self.ws_url.as_str()
    }

    /// The subscription message in this exchange's protocol.
    pub fn subscribe_msg(&self) -> (msg: String)
        ensures
            msg@ == exchange_subscribe_text(self.exchange(), self.symbols()),
    {
        let mut names: Vec<String> = Vec::new();
        let mut i: usize = 0;
        let ghost syms = self.symbols();
        while i < self.symbols.len()
            invariant
                i <= self.symbols@.len(),
                syms == string_views(self.symbols@),
                names@.len() == i,
                forall|j: int|
                    0 <= j < i ==> (#[trigger] names@[j])@ == (if self.exchange == Exchange::Bybit {
                        bybit_topic(syms[j])
                    } else {
                        binance_stream(syms[j])
                    }),
            decreases self.symbols@.len() - i,
        {
            let sym = self.symbols[i].as_str();
            let name = if self.exchange == Exchange::Bybit {
                let mut t = String::from_str("publicTrade.");
                t.append(sym);
                t
            } else {
                let mut t = to_lowercase(sym);
                t.append("@trade");
                t
            };
            names.push(name);
            i = i + 1;
        }
        let list = to_json_string_list(&names);
        let mut msg;
        if self.exchange == Exchange::Bybit {
            msg = String::from_str("{\"args\":");
            msg.append(list.as_str());
            msg.append(",\"op\":\"subscribe\"}");
        } else {
            msg = String::from_str("{\"id\":1,\"method\":\"SUBSCRIBE\",\"params\":");
            msg.append(list.as_str());
            msg.append("}");
        }
        proof {
            if self.exchange == Exchange::Bybit {
                assert(string_views(names@) =~= syms.map_values(|s: Seq<char>| bybit_topic(s)));
            } else {
                assert(string_views(names@) =~= syms.map_values(|s: Seq<char>| binance_stream(s)));
            }
        }
        msg
    }
}

/// Whether `s` begins with `prefix`, compared character by character.
pub fn starts_with(s: &str, prefix: &str) -> (b: bool)
    ensures
        b == prefix@.is_prefix_of(s@),
{
    let n = prefix.unicode_len();
    let m = s.unicode_len();
    if n > m {
        return false;
    }
    let mut i: usize = 0;
    while i < n
        invariant
            n == prefix@.len(),
            m == s@.len(),
            n <= m,
            i <= n,
            forall|j: int| 0 <= j < i ==> prefix@[j] == s@[j],
        decreases n - i,
    {
        if prefix.get_char(i) != s.get_char(i) {
            assert(prefix@[i as int] != s@.subrange(0, n as int)[i as int]);
            return false;
        }
        i = i + 1;
    }
    assert(prefix@ =~= s@.subrange(0, n as int));
    true
}

/// The fields of one trade as the exchange sends them: the price and the
/// quantity stay decimal text.
pub struct TradeFields {
    pub symbol: String,
    pub price: String,
    pub qty: String,
    /// The taker bought.
    pub is_buy: bool,
    /// Exchange time of the trade, in microseconds.
    pub exchange_ts_us: u64,
}

/// The fields of a trade as plain values.
pub struct TradeView {
    pub symbol: Seq<char>,
    pub price: Seq<char>,
    pub qty: Seq<char>,
    pub is_buy: bool,
    pub exchange_ts_us: u64,
}

impl View for TradeFields {
    type V = TradeView;

    open spec fn view(&self) -> TradeView {
        TradeView {
            symbol: self.symbol@,
            price: self.price@,
            qty: self.qty@,
            is_buy: self.is_buy,
            exchange_ts_us: self.exchange_ts_us,
        }
    }
}

/// Milliseconds as microseconds, when that fits a `u64`.
pub open spec fn ms_to_us(ms: u64) -> Option<u64> {
    if ms * 1000 <= u64::MAX {
        Some((ms * 1000) as u64)
    } else {
        None
    }
}

/// A Binance trade message: event type `e` is `trade`; symbol `s`, price
/// `p` and quantity `q` are strings; `m` (the buyer is the maker) is a
/// boolean, so the taker bought when it is false; `T` is the trade time in
/// milliseconds. Anything else, or a time too large for microseconds, is
/// not a trade.
pub open spec fn binance_trade(v: Json) -> Option<TradeView> {
    let e = text_of(v, "e"@);
    let s = text_of(v, "s"@);
    let p = text_of(v, "p"@);
    let q = text_of(v, "q"@);
    let m = flag_of(v, "m"@);
    let t = count_of(v, "T"@);
    if e == Some("trade"@) && s is Some && p is Some && q is Some && m is Some && t is Some
        && ms_to_us(t->0) is Some {
        Some(
            TradeView {
                symbol: s->0,
                price: p->0,
                qty: q->0,
                is_buy: !m->0,
                exchange_ts_us: ms_to_us(t->0)->0,
            },
        )
    } else {
        None
    }
}

/// One Bybit trade record: symbol `s`, price `p`, volume `v` and side `S`
/// are strings, the taker bought when `S` is `Buy`; `T` is the trade time
/// in milliseconds.
pub open spec fn bybit_record(r: Json) -> Option<TradeView> {
    let s = text_of(r, "s"@);
    let p = text_of(r, "p"@);
    let q = text_of(r, "v"@);
    let side = text_of(r, "S"@);
    let t = count_of(r, "T"@);
    if s is Some && p is Some && q is Some && side is Some && t is Some && ms_to_us(t->0) is Some {
        Some(
            TradeView {
                symbol: s->0,
                price: p->0,
                qty: q->0,
                is_buy: side->0 == "Buy"@,
                exchange_ts_us: ms_to_us(t->0)->0,
            },
        )
    } else {
        None
    }
}

/// A Bybit trade message: its `topic` starts with `publicTrade.` and its
/// `data` is a non-empty array; the trade is the last record of the batch.
pub open spec fn bybit_trade(v: Json) -> Option<TradeView> {
    match (text_of(v, "topic"@), member_of(v, "data"@)) {
        (Some(topic), Some(Json::Array(records))) => {
            if "publicTrade."@.is_prefix_of(topic) && records@.len() > 0 {
                bybit_record(records@.last())
            } else {
                None
            }
        },
        _ => None,
    }
}

/// The trade a message of `exchange` carries.
pub open spec fn exchange_trade(exchange: Exchange, v: Json) -> Option<TradeView> {
    match exchange {
        Exchange::Bybit => bybit_trade(v),
        _ => binance_trade(v),
    }
}

fn ms_to_us_exec(ms: u64) -> (r: Option<u64>)
    ensures
        r == ms_to_us(ms),
{
    ms.checked_mul(1000)
}

/// The trade of a Binance message, if it is one.
pub fn binance_trade_fields(v: &Json) -> (r: Option<TradeFields>)
    ensures
        match r {
            Some(f) => binance_trade(*v) == Some(f@),
            None => binance_trade(*v) is None,
        },
{
    let e = match get_text(v, "e") {
        Some(e) => e,
        None => return None,
    };
    let trade = String::from_str("trade");
    if !(e == trade) {
        return None;
    }
    let symbol = match get_text(v, "s") {
        Some(x) => x,
        None => return None,
    };
    let price = match get_text(v, "p") {
        Some(x) => x,
        None => return None,
    };
    let qty = match get_text(v, "q") {
        Some(x) => x,
        None => return None,
    };
    let buyer_is_maker = match get_flag(v, "m") {
        Some(x) => x,
        None => return None,
    };
    let ts = match get_count(v, "T") {
        Some(x) => x,
        None => return None,
    };
    let exchange_ts_us = match ms_to_us_exec(ts) {
        Some(x) => x,
        None => return None,
    };
    Some(TradeFields { symbol, price, qty, is_buy: !buyer_is_maker, exchange_ts_us })
}

fn bybit_record_fields(r: &Json) -> (t: Option<TradeFields>)
    ensures
        match t {
            Some(f) => bybit_record(*r) == Some(f@),
            None => bybit_record(*r) is None,
        },
{
    let symbol = match get_text(r, "s") {
        Some(x) => x,
        None => return None,
    };
    let price = match get_text(r, "p") {
        Some(x) => x,
        None => return None,
    };
    let qty = match get_text(r, "v") {
        Some(x) => x,
        None => return None,
    };
    let side = match get_text(r, "S") {
        Some(x) => x,
        None => return None,
    };
    let ts = match get_count(r, "T") {
        Some(x) => x,
        None => return None,
    };
    let exchange_ts_us = match ms_to_us_exec(ts) {
        Some(x) => x,
        None => return None,
    };
    let buy = String::from_str("Buy");
    let is_buy = side == buy;
    Some(TradeFields { symbol, price, qty, is_buy, exchange_ts_us })
}

/// The trade of a Bybit message, if it is one.
pub fn bybit_trade_fields(v: &Json) -> (r: Option<TradeFields>)
    ensures
        match r {
            Some(f) => bybit_trade(*v) == Some(f@),
            None => bybit_trade(*v) is None,
        },
{
    let topic = match get_text(v, "topic") {
        Some(x) => x,
        None => return None,
    };
    if !starts_with(topic.as_str(), "publicTrade.") {
        return None;
    }
    let data = match get_member(v, "data") {
        Some(x) => x,
        None => return None,
    };
    match data {
        Json::Array(records) => {
            if records.len() == 0 {
                return None;
            }
            bybit_record_fields(&records[records.len() - 1])
        },
        _ => None,
    }
}

/// The trade a message of `exchange` carries, if it is one.
pub fn trade_fields(exchange: Exchange, v: &Json) -> (r: Option<TradeFields>)
    ensures
        match r {
            Some(f) => exchange_trade(exchange, *v) == Some(f@),
            None => exchange_trade(exchange, *v) is None,
        },
{
    match exchange {
        Exchange::Bybit => bybit_trade_fields(v),
        _ => binance_trade_fields(v),
    }
}

} // verus!
