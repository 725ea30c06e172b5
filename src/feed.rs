use vstd::prelude::*;
use crate::counter::RunningCounter;
use crate::json::{at_index, at_key, deref_opt, index_of, json_of, key_of, parse_json, Json};
use crate::price::{parse_price, price_units};

verus! {

/// The price feeds, each with its own frame shape.
#[derive(Clone, Copy, Debug, PartialEq, Eq, Structural)]
pub enum Feed {
    /// `events[0].price`, a string.
    Gemini,
    /// `data[0].price`, a number.
    Bybit,
    /// `p`, a string.
    Binance,
    /// `[1].p[0]`, a string.
    Kraken,
    /// `[1][6]`, a number.
    Bitfinex,
}

/// What one frame gave.
#[derive(Clone, Copy, Debug, PartialEq, Eq, Structural)]
pub enum Extracted {
    /// A price, in units.
    Price(u64),
    /// The frame is not a price frame (an acknowledgement, a heartbeat, an error).
    NoPrice,
    /// The frame has the feed's shape but its price cannot be read.
    Malformed,
}

/// Whether the feed writes its price as a JSON string (else as a number).
pub open spec fn quoted(f: Feed) -> bool {
    match f {
        Feed::Bybit | Feed::Bitfinex => false,
        _ => true,
    }
}

/// The value at the feed's price path in `j`, if there is one.
pub open spec fn price_node(f: Feed, j: Json) -> Option<Json> {
    let r = Some(j);
    match f {
        Feed::Gemini => at_key(at_index(at_key(r, "events"@), 0), "price"@),
        Feed::Bybit => at_key(at_index(at_key(r, "data"@), 0), "price"@),
        Feed::Binance => at_key(r, "p"@),
        Feed::Kraken => at_index(at_key(at_index(r, 1), "p"@), 0),
        Feed::Bitfinex => at_index(at_index(r, 1), 6),
    }
}

/// What the feed `f` reads from the document `j`.
pub open spec fn reading(f: Feed, j: Json) -> Extracted {
    match price_node(f, j) {
        None => Extracted::NoPrice,
        Some(node) => {
            let text = match node {
                Json::Str(s) => if quoted(f) {
                    Some(s@)
                } else {
                    None
                },
                Json::Number(n) => if quoted(f) {
                    None
                } else {
                    Some(n@)
                },
                _ => None,
            };
            match text {
                Some(t) => match price_units(t) {
                    Some(v) => Extracted::Price(v as u64),
                    None => Extracted::Malformed,
                },
                None => Extracted::Malformed,
            }
        },
    }
}

/// What the feed `f` reads from the text frame `text`; a frame that is not
/// JSON is no price frame.
pub open spec fn frame_reading(f: Feed, text: Seq<char>) -> Extracted {
    match json_of(text) {
        Some(j) => reading(f, j),
        None => Extracted::NoPrice,
    }
}

fn price_node_of<'a>(f: Feed, j: &'a Json) -> (r: Option<&'a Json>)
    ensures
        deref_opt(r) == price_node(f, *j),
{
    let r = Some(j);
    match f {
        Feed::Gemini => key_of(index_of(key_of(r, "events"), 0), "price"),
        Feed::Bybit => key_of(index_of(key_of(r, "data"), 0), "price"),
        Feed::Binance => key_of(r, "p"),
        Feed::Kraken => index_of(key_of(index_of(r, 1), "p"), 0),
        Feed::Bitfinex => index_of(index_of(r, 1), 6),
    }
}

/// Reads the feed's price out of a parsed frame.
pub fn extract_price(f: Feed, j: &Json) -> (r: Extracted)
    ensures
        r == reading(f, *j),
{
    let node = price_node_of(f, j);
    let text: Option<&String> = match node {
        None => {
            return Extracted::NoPrice;
        },
        Some(Json::Str(s)) => if f != Feed::Bybit && f != Feed::Bitfinex {
            Some(s)
        } else {
            None
        },
        Some(Json::Number(n)) => if f == Feed::Bybit || f == Feed::Bitfinex {
            Some(n)
        } else {
            None
        },
        Some(_) => None,
    };
    match text {
        Some(t) => match parse_price(t.as_str()) {
            Some(v) => Extracted::Price(v),
            None => Extracted::Malformed,
        },
        None => Extracted::Malformed,
    }
}

/// Reads the feed's price out of a text frame.
pub fn read_frame(f: Feed, text: &str) -> (r: Extracted)
    ensures
        r == frame_reading(f, text@),
{
    match parse_json(text) {
        Some(j) => extract_price(f, &j),
        None => Extracted::NoPrice,
    }
}

/// Reads one text frame of the feed `f` into the session's counter: a price
/// is recorded with its frame, anything else leaves the counter as it was.
pub fn record_frame(counter: &mut RunningCounter, f: Feed, text: String) -> (r: Extracted)
    requires
        old(counter).wf(),
    ensures
        r == frame_reading(f, text@),
        final(counter).wf(),
        match r {
            Extracted::Price(v) => final(counter).prices() == old(counter).prices().push(v)
                && final(counter).frames() == old(counter).frames().push(text@),
            _ => final(counter).prices() == old(counter).prices() && final(counter).frames()
                == old(counter).frames(),
        },
{
    let r = read_frame(f, text.as_str());
    if let Extracted::Price(v) = r {
        counter.add_price(v, text);
    }
    r
}

} // verus!
