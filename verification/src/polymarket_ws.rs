use vstd::prelude::*;

use crate::config::PolymarketConfig;
use crate::json::{
    get_member, get_text, json_string_list, member_of, string_views, text_of, to_json_string_list,
    Json,
};

verus! {

/// The message that subscribes to the book channel of `asset_ids`.
pub open spec fn book_subscribe_text(asset_ids: Seq<Seq<char>>) -> Seq<char> {
    "{\"assets_ids\":"@ + json_string_list(asset_ids) + ",\"channel\":\"book\",\"type\":\"subscribe\"}"@
}

/// Websocket client of Polymarket's order book channel.
pub struct PolymarketWsClient {
    ws_url: String,
}

impl PolymarketWsClient {
    pub closed spec fn ws_url(&self) -> Seq<char> {
        self.ws_url@
    }

    pub fn new(config: &PolymarketConfig) -> (c: Self)
        ensures
            c.ws_url() == config.ws_url@,
    {
        PolymarketWsClient { ws_url: config.ws_url.clone() }
    }

    /// The endpoint to connect to.
    pub fn ws_url_str(&self) -> (u: &str)
        ensures
            u@ == self.ws_url(),
    {
        self.ws_url.as_str()
    }

    /// The subscription message for the book channels of `asset_ids`.
    pub fn subscribe_message(asset_ids: &Vec<String>) -> (msg: String)
        ensures
            msg@ == book_subscribe_text(string_views(asset_ids@)),
    {
        let mut msg = String::from_str("{\"assets_ids\":");
        let list = to_json_string_list(asset_ids);
        msg.append(list.as_str());
        msg.append(",\"channel\":\"book\",\"type\":\"subscribe\"}");
        msg
    }
}

/// A price level as text: price and size.
pub open spec fn level_of(level: Json) -> Option<(Seq<char>, Seq<char>)> {
    match (text_of(level, "price"@), text_of(level, "size"@)) {
        (Some(p), Some(s)) => Some((p, s)),
        _ => None,
    }
}

/// The price levels of a side of the book: an array whose every element
/// has a string `price` and a string `size`.
pub open spec fn levels_of(v: Option<Json>) -> Option<Seq<(Seq<char>, Seq<char>)>> {
    match v {
        Some(Json::Array(items)) => {
            if forall|i: int| 0 <= i < items@.len() ==> (#[trigger] level_of(items@[i])) is Some {
                Some(Seq::new(items@.len() as nat, |i: int| level_of(items@[i])->0))
            } else {
                None
            }
        },
        _ => None,
    }
}

/// The views of price levels.
pub open spec fn level_views(levels: Seq<(String, String)>) -> Seq<(Seq<char>, Seq<char>)> {
    levels.map_values(|l: (String, String)| (l.0@, l.1@))
}

/// The fields of an order book update; prices and sizes stay decimal text.
pub struct BookFields {
    pub asset_id: String,
    pub market_id: String,
    pub bids: Vec<(String, String)>,
    pub asks: Vec<(String, String)>,
}

/// The fields of a book update as plain values.
pub struct BookView {
    pub asset_id: Seq<char>,
    pub market_id: Seq<char>,
    pub bids: Seq<(Seq<char>, Seq<char>)>,
    pub asks: Seq<(Seq<char>, Seq<char>)>,
}

impl View for BookFields {
    type V = BookView;

    open spec fn view(&self) -> BookView {
        BookView {
            asset_id: self.asset_id@,
            market_id: self.market_id@,
            bids: level_views(self.bids@),
            asks: level_views(self.asks@),
        }
    }
}

/// A book update: `event_type` is `book` or `price_change`, `asset_id` is
/// a string, and `market` has `bids` and `asks` levels. The market is
/// `condition_id` when that is a string, and empty otherwise.
pub open spec fn book_update(v: Json) -> Option<BookView> {
    let event = text_of(v, "event_type"@);
    let market = member_of(v, "market"@);
    let asset = text_of(v, "asset_id"@);
    if event is Some && (event->0 == "book"@ || event->0 == "price_change"@) && market is Some
        && asset is Some && levels_of(member_of(market->0, "bids"@)) is Some && levels_of(
        member_of(market->0, "asks"@),
    ) is Some {
        Some(
            BookView {
                asset_id: asset->0,
                market_id: match text_of(v, "condition_id"@) {
                    Some(c) => c,
                    None => Seq::empty(),
                },
                bids: levels_of(member_of(market->0, "bids"@))->0,
                asks: levels_of(member_of(market->0, "asks"@))->0,
            },
        )
    } else {
        None
    }
}

/// `levels` lists the levels of the array `side` in message order: entry
/// `i` is the `price` and `size` texts of element `i`.
pub open spec fn in_message_order(side: Option<Json>, levels: Seq<(Seq<char>, Seq<char>)>) -> bool {
    match side {
        Some(Json::Array(items)) => {
            &&& levels.len() == items@.len()
            &&& forall|i: int|
                0 <= i < items@.len() ==> text_of(items@[i], "price"@) == Some(
                    (#[trigger] levels[i]).0,
                ) && text_of(items@[i], "size"@) == Some(levels[i].1)
        },
        _ => false,
    }
}

/// A parsed book update keeps both sides in message order: ask `i` is
/// element `i` of `market.asks`, bid `i` is element `i` of `market.bids`;
/// none is dropped, added or moved.
pub proof fn law_book_levels_in_message_order(v: Json)
    ensures
        book_update(v) is Some ==> {
            let market = member_of(v, "market"@)->0;
            let b = book_update(v)->0;
            &&& in_message_order(member_of(market, "asks"@), b.asks)
            &&& in_message_order(member_of(market, "bids"@), b.bids)
        },
{
    if book_update(v) is Some {
        let market = member_of(v, "market"@)->0;
        lemma_levels_in_order(member_of(market, "asks"@));
        lemma_levels_in_order(member_of(market, "bids"@));
    }
}

proof fn lemma_levels_in_order(side: Option<Json>)
    ensures
        levels_of(side) is Some ==> in_message_order(side, levels_of(side)->0),
{
    if levels_of(side) is Some {
        match side {
            Some(Json::Array(items)) => {
                let l = levels_of(side)->0;
                assert forall|i: int| 0 <= i < items@.len() implies text_of(items@[i], "price"@)
                    == Some((#[trigger] l[i]).0) && text_of(items@[i], "size"@) == Some(l[i].1) by {
                    assert(level_of(items@[i]) is Some);
                }
            },
            _ => {},
        }
    }
}

/// The price levels of `v`, if it is a well-formed side of the book.
pub fn levels_fields(v: Option<&Json>) -> (r: Option<Vec<(String, String)>>)
    ensures
        match r {
            Some(l) => levels_of(
                match v {
                    Some(j) => Some(*j),
                    None => None,
                },
            ) == Some(level_views(l@)),
            None => levels_of(
                match v {
                    Some(j) => Some(*j),
                    None => None,
                },
            ) is None,
        },
{
    let items = match v {
        Some(j) => match j {
            Json::Array(items) => items,
            _ => return None,
        },
        None => return None,
    };
    let mut out: Vec<(String, String)> = Vec::new();
    let mut i: usize = 0;
    while i < items.len()
        invariant
            i <= items@.len(),
            v == Some(&Json::Array(*items)),
            out@.len() == i,
            forall|j: int| 0 <= j < i ==> (#[trigger] level_of(items@[j])) is Some,
            forall|j: int| 0 <= j < i ==> level_of(items@[j]) == Some(((#[trigger] out@[j]).0@, out@[j].1@)),
        decreases items@.len() - i,
    {
        let level = &items[i];
        let price = match get_text(level, "price") {
            Some(x) => x,
            None => {
                assert(level_of(items@[i as int]) is None);
                return None;
            },
        };
        let size = match get_text(level, "size") {
            Some(x) => x,
            None => {
                assert(level_of(items@[i as int]) is None);
                return None;
            },
        };
        out.push((price, size));
        i = i + 1;
    }
    proof {
        let lv = Seq::new(items@.len() as nat, |j: int| level_of(items@[j])->0);
        assert(level_views(out@) =~= lv);
    }
    Some(out)
}

/// The fields of a book update, if the message is one.
pub fn book_update_fields(v: &Json) -> (r: Option<BookFields>)
    ensures
        match r {
            Some(f) => book_update(*v) == Some(f@),
            None => book_update(*v) is None,
        },
        r matches Some(f) ==> in_message_order(
            member_of(member_of(*v, "market"@)->0, "asks"@),
            level_views(f.asks@),
        ) && in_message_order(member_of(member_of(*v, "market"@)->0, "bids"@), level_views(f.bids@)),
{
    proof {
        law_book_levels_in_message_order(*v);
    }
    let event = match get_text(v, "event_type") {
        Some(x) => x,
        None => return None,
    };
    let book = String::from_str("book");
    let price_change = String::from_str("price_change");
    if !(event == book) && !(event == price_change) {
        return None;
    }
    let market = match get_member(v, "market") {
        Some(x) => x,
        None => return None,
    };
    let asset_id = match get_text(v, "asset_id") {
        Some(x) => x,
        None => return None,
    };
    let bids = match levels_fields(get_member(market, "bids")) {
        Some(x) => x,
        None => return None,
    };
    let asks = match levels_fields(get_member(market, "asks")) {
        Some(x) => x,
        None => return None,
    };
    let market_id = match get_text(v, "condition_id") {
        Some(c) => c,
        None => String::new(),
    };
    Some(BookFields { asset_id, market_id, bids, asks })
}

/// `i` is the last position of `token` in `tokens`.
pub open spec fn is_last_index_of(tokens: Seq<Seq<char>>, token: Seq<char>, i: int) -> bool {
    &&& 0 <= i < tokens.len()
    &&& tokens[i] == token
    &&& forall|j: int| i < j < tokens.len() ==> tokens[j] != token
}

/// The subscription a book update for `token` goes to: the last one
/// subscribed with that token, or `None` when no subscription has it.
pub fn subscription_index(tokens: &Vec<String>, token: &String) -> (r: Option<usize>)
    ensures
        match r {
            Some(i) => is_last_index_of(string_views(tokens@), token@, i as int),
            None => forall|j: int| 0 <= j < tokens@.len() ==> (#[trigger] tokens@[j])@ != token@,
        },
{
    let mut i: usize = tokens.len();
    while i > 0
        invariant
            i <= tokens@.len(),
            forall|j: int| i <= j < tokens@.len() ==> (#[trigger] tokens@[j])@ != token@,
        decreases i,
    {
        i = i - 1;
        if tokens[i] == *token {
            return Some(i);
        }
    }
    None
}

} // verus!
