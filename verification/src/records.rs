//! The typed wire records and their decoders.
//!
//! Orders travel as 12-element positional arrays whose first element is a
//! type tag (1 = bid, 2 = ask); transactions as 4-element arrays; the order
//! book as an object of `[price, volume]` pair arrays; the profile as an
//! object of named fields.  Each decoder's contract pins the result to a
//! spec-level decode of the same [`Json`] value.

use vstd::prelude::*;

verus! {

use crate::decimal::Decimal;
use crate::json::{
    as_int, as_num, as_opt_string, as_string, obj_get, spec_int, spec_num, spec_obj_get,
    spec_opt_string, spec_string, DecodeError, Json,
};
use vstd::string::*;

/// The wire discriminator for bids.
pub const BID_DISCRIMINATOR: i64 = 1;

/// The wire discriminator for asks.
pub const ASK_DISCRIMINATOR: i64 = 2;

/// A buy order.
#[derive(Debug, PartialEq)]
pub struct Bid {
    pub id: i64,
    pub creation: i64,
    pub orderbook: i64,
    pub amount_to_spend: Decimal,
    pub remaining_amount: Decimal,
    pub price: Decimal,
    pub status: i64,
    pub cancelation_reason: i64,
    pub produced_amount: Decimal,
    pub issuer: Option<String>,
    pub fees_paid: Decimal,
}

/// A sell order.
#[derive(Debug, PartialEq)]
pub struct Ask {
    pub id: i64,
    pub creation: i64,
    pub orderbook: i64,
    pub amount_to_spend: Decimal,
    pub remaining_amount: Decimal,
    pub price: Decimal,
    pub status: i64,
    pub cancelation_reason: i64,
    pub produced_amount: Decimal,
    pub issuer: Option<String>,
    pub fees_paid: Decimal,
}

/// Either kind of order, as found in mixed order lists.
#[derive(Debug, PartialEq)]
pub enum Order {
    Bid(Bid),
    Ask(Ask),
}

/// The 12 positional fields of an order's wire array, discriminator
/// included.
#[derive(Debug, PartialEq)]
pub struct OrderTuple {
    pub discriminator: i64,
    pub id: i64,
    pub creation: i64,
    pub orderbook: i64,
    pub amount_to_spend: Decimal,
    pub remaining_amount: Decimal,
    pub price: Decimal,
    pub status: i64,
    pub cancelation_reason: i64,
    pub produced_amount: Decimal,
    pub issuer: Option<String>,
    pub fees_paid: Decimal,
}

/// One market trade.
#[derive(Debug, PartialEq)]
pub struct Transaction {
    pub timestamp: i64,
    pub id: i64,
    /// The price that was paid per unit of the base asset.
    pub price: Decimal,
    /// The base-asset amount sold.
    pub amount: Decimal,
}

/// Price levels for both sides of the market, in wire order.
#[derive(Debug, PartialEq)]
pub struct OrderBook {
    pub bids: Vec<(Decimal, Decimal)>,
    pub asks: Vec<(Decimal, Decimal)>,
}

/// Account balances and deposit addresses.
#[derive(Debug, PartialEq)]
pub struct Profile {
    pub usd_balance: Decimal,
    pub usd_reserved: Decimal,
    pub usd_available: Decimal,
    pub btc_balance: Decimal,
    pub btc_reserved: Decimal,
    pub btc_available: Decimal,
    pub fee: Decimal,
    pub btc_deposit_address: String,
    pub more_mt_deposit_code: String,
}

/// Decode of the full 12-element order array, position by position.
pub open spec fn spec_order_tuple(v: Json) -> Result<OrderTuple, DecodeError> {
    match v {
        Json::Arr(es) => {
            if es@.len() != 12 {
                Err(DecodeError::WrongLength)
            } else if spec_int(es@[0]) is Err {
                Err(spec_int(es@[0])->Err_0)
            } else if spec_int(es@[1]) is Err {
                Err(spec_int(es@[1])->Err_0)
            } else if spec_int(es@[2]) is Err {
                Err(spec_int(es@[2])->Err_0)
            } else if spec_int(es@[3]) is Err {
                Err(spec_int(es@[3])->Err_0)
            } else if spec_num(es@[4]) is Err {
                Err(spec_num(es@[4])->Err_0)
            } else if spec_num(es@[5]) is Err {
                Err(spec_num(es@[5])->Err_0)
            } else if spec_num(es@[6]) is Err {
                Err(spec_num(es@[6])->Err_0)
            } else if spec_int(es@[7]) is Err {
                Err(spec_int(es@[7])->Err_0)
            } else if spec_int(es@[8]) is Err {
                Err(spec_int(es@[8])->Err_0)
            } else if spec_num(es@[9]) is Err {
                Err(spec_num(es@[9])->Err_0)
            } else if spec_opt_string(es@[10]) is Err {
                Err(spec_opt_string(es@[10])->Err_0)
            } else if spec_num(es@[11]) is Err {
                Err(spec_num(es@[11])->Err_0)
            } else {
                Ok(
                    OrderTuple {
                        discriminator: spec_int(es@[0])->Ok_0,
                        id: spec_int(es@[1])->Ok_0,
                        creation: spec_int(es@[2])->Ok_0,
                        orderbook: spec_int(es@[3])->Ok_0,
                        amount_to_spend: spec_num(es@[4])->Ok_0,
                        remaining_amount: spec_num(es@[5])->Ok_0,
                        price: spec_num(es@[6])->Ok_0,
                        status: spec_int(es@[7])->Ok_0,
                        cancelation_reason: spec_int(es@[8])->Ok_0,
                        produced_amount: spec_num(es@[9])->Ok_0,
                        issuer: spec_opt_string(es@[10])->Ok_0,
                        fees_paid: spec_num(es@[11])->Ok_0,
                    },
                )
            }
        },
        _ => Err(DecodeError::ExpectedArray),
    }
}

/// Decode of an order array whose discriminator must equal `want`.
pub open spec fn spec_typed_tuple(v: Json, want: i64) -> Result<OrderTuple, DecodeError> {
    match spec_order_tuple(v) {
        Ok(t) => if t.discriminator == want {
            Ok(t)
        } else {
            Err(DecodeError::UnexpectedDiscriminator)
        },
        Err(e) => Err(e),
    }
}

impl OrderTuple {
    /// Decodes the 12-element wire array of an order into its positional
    /// fields.
    pub fn deserialize(v: &Json) -> (r: Result<OrderTuple, DecodeError>)
        ensures
            r == spec_order_tuple(*v),
    {
        let es = match v {
            Json::Arr(es) => es,
            _ => {
                return Err(DecodeError::ExpectedArray);
            },
        };
        if es.len() != 12 {
            return Err(DecodeError::WrongLength);
        }
        let discriminator = match as_int(&es[0]) {
            Ok(x) => x,
            Err(e) => {
                return Err(e);
            },
        };
        let id = match as_int(&es[1]) {
            Ok(x) => x,
            Err(e) => {
                return Err(e);
            },
        };
        let creation = match as_int(&es[2]) {
            Ok(x) => x,
            Err(e) => {
                return Err(e);
            },
        };
        let orderbook = match as_int(&es[3]) {
            Ok(x) => x,
            Err(e) => {
                return Err(e);
            },
        };
        let amount_to_spend = match as_num(&es[4]) {
            Ok(x) => x,
            Err(e) => {
                return Err(e);
            },
        };
        let remaining_amount = match as_num(&es[5]) {
            Ok(x) => x,
            Err(e) => {
                return Err(e);
            },
        };
        let price = match as_num(&es[6]) {
            Ok(x) => x,
            Err(e) => {
                return Err(e);
            },
        };
        let status = match as_int(&es[7]) {
            Ok(x) => x,
            Err(e) => {
                return Err(e);
            },
        };
        let cancelation_reason = match as_int(&es[8]) {
            Ok(x) => x,
            Err(e) => {
                return Err(e);
            },
        };
        let produced_amount = match as_num(&es[9]) {
            Ok(x) => x,
            Err(e) => {
                return Err(e);
            },
        };
        let issuer = match as_opt_string(&es[10]) {
            Ok(x) => x,
            Err(e) => {
                return Err(e);
            },
        };
        let fees_paid = match as_num(&es[11]) {
            Ok(x) => x,
            Err(e) => {
                return Err(e);
            },
        };
        Ok(
            OrderTuple {
                discriminator,
                id,
                creation,
                orderbook,
                amount_to_spend,
                remaining_amount,
                price,
                status,
                cancelation_reason,
                produced_amount,
                issuer,
                fees_paid,
            },
        )
    }

    /// Decodes an order array and checks its discriminator against `want`.
    pub fn deserialize_typed(v: &Json, want: i64) -> (r: Result<OrderTuple, DecodeError>)
        ensures
            r == spec_typed_tuple(*v, want),
    {
        match OrderTuple::deserialize(v) {
            Ok(t) => {
                if t.discriminator == want {
                    Ok(t)
                } else {
                    Err(DecodeError::UnexpectedDiscriminator)
                }
            },
            Err(e) => Err(e),
        }
    }
}

impl Bid {
    /// The mechanical positional mapping from a decoded tuple.
    pub open spec fn spec_from_tuple(t: OrderTuple) -> Bid {
        Bid {
            id: t.id,
            creation: t.creation,
            orderbook: t.orderbook,
            amount_to_spend: t.amount_to_spend,
            remaining_amount: t.remaining_amount,
            price: t.price,
            status: t.status,
            cancelation_reason: t.cancelation_reason,
            produced_amount: t.produced_amount,
            issuer: t.issuer,
            fees_paid: t.fees_paid,
        }
    }

    /// Decode of a bid: the order array with discriminator 1.
    pub open spec fn spec_deserialize(v: Json) -> Result<Bid, DecodeError> {
        match spec_typed_tuple(v, BID_DISCRIMINATOR as i64) {
            Ok(t) => Ok(Bid::spec_from_tuple(t)),
            Err(e) => Err(e),
        }
    }

    /// Copies fields 1..11 of the decoded tuple into their named places.
    pub fn from_tuple(t: OrderTuple) -> (r: Bid)
        ensures
            r == Bid::spec_from_tuple(t),
    {
        Bid {
            id: t.id,
            creation: t.creation,
            orderbook: t.orderbook,
            amount_to_spend: t.amount_to_spend,
            remaining_amount: t.remaining_amount,
            price: t.price,
            status: t.status,
            cancelation_reason: t.cancelation_reason,
            produced_amount: t.produced_amount,
            issuer: t.issuer,
            fees_paid: t.fees_paid,
        }
    }

    /// Decodes a bid; a discriminator other than 1 is a decode error.
    pub fn deserialize(v: &Json) -> (r: Result<Bid, DecodeError>)
        ensures
            r == Bid::spec_deserialize(*v),
    {
        match OrderTuple::deserialize_typed(v, BID_DISCRIMINATOR) {
            Ok(t) => Ok(Bid::from_tuple(t)),
            Err(e) => Err(e),
        }
    }
}

impl Ask {
    /// The mechanical positional mapping from a decoded tuple.
    pub open spec fn spec_from_tuple(t: OrderTuple) -> Ask {
        Ask {
            id: t.id,
            creation: t.creation,
            orderbook: t.orderbook,
            amount_to_spend: t.amount_to_spend,
            remaining_amount: t.remaining_amount,
            price: t.price,
            status: t.status,
            cancelation_reason: t.cancelation_reason,
            produced_amount: t.produced_amount,
            issuer: t.issuer,
            fees_paid: t.fees_paid,
        }
    }

    /// Decode of an ask: the order array with discriminator 2.
    pub open spec fn spec_deserialize(v: Json) -> Result<Ask, DecodeError> {
        match spec_typed_tuple(v, ASK_DISCRIMINATOR as i64) {
            Ok(t) => Ok(Ask::spec_from_tuple(t)),
            Err(e) => Err(e),
        }
    }

    /// Copies fields 1..11 of the decoded tuple into their named places.
    pub fn from_tuple(t: OrderTuple) -> (r: Ask)
        ensures
            r == Ask::spec_from_tuple(t),
    {
        Ask {
            id: t.id,
            creation: t.creation,
            orderbook: t.orderbook,
            amount_to_spend: t.amount_to_spend,
            remaining_amount: t.remaining_amount,
            price: t.price,
            status: t.status,
            cancelation_reason: t.cancelation_reason,
            produced_amount: t.produced_amount,
            issuer: t.issuer,
            fees_paid: t.fees_paid,
        }
    }

    /// Decodes an ask; a discriminator other than 2 is a decode error.
    pub fn deserialize(v: &Json) -> (r: Result<Ask, DecodeError>)
        ensures
            r == Ask::spec_deserialize(*v),
    {
        match OrderTuple::deserialize_typed(v, ASK_DISCRIMINATOR) {
            Ok(t) => Ok(Ask::from_tuple(t)),
            Err(e) => Err(e),
        }
    }
}

impl Order {
    /// Decode of either order kind, dispatched on the discriminator.  An
    /// unrecognised tag is a decode error rather than silently falling back
    /// to one of the kinds.
    pub open spec fn spec_deserialize(v: Json) -> Result<Order, DecodeError> {
        match spec_order_tuple(v) {
            Ok(t) => if t.discriminator == BID_DISCRIMINATOR {
                Ok(Order::Bid(Bid::spec_from_tuple(t)))
            } else if t.discriminator == ASK_DISCRIMINATOR {
                Ok(Order::Ask(Ask::spec_from_tuple(t)))
            } else {
                Err(DecodeError::UnexpectedDiscriminator)
            },
            Err(e) => Err(e),
        }
    }

    /// Decodes the full tuple first, then selects the variant by the
    /// leading tag: 1 builds a bid, 2 an ask, anything else is rejected.
    pub fn deserialize(v: &Json) -> (r: Result<Order, DecodeError>)
        ensures
            r == Order::spec_deserialize(*v),
    {
        match OrderTuple::deserialize(v) {
            Ok(t) => {
                if t.discriminator == BID_DISCRIMINATOR {
                    Ok(Order::Bid(Bid::from_tuple(t)))
                } else if t.discriminator == ASK_DISCRIMINATOR {
                    Ok(Order::Ask(Ask::from_tuple(t)))
                } else {
                    Err(DecodeError::UnexpectedDiscriminator)
                }
            },
            Err(e) => Err(e),
        }
    }
}

/// The typed decoders and the generic dispatcher agree: an array decodes
/// as a `Bid` exactly when the generic decoder yields `Order::Bid` of the
/// same record, and likewise for `Ask`; so decoding a mixed list tags each
/// element by its own discriminator and nothing else.
pub proof fn lemma_dispatch_agrees(v: Json)
    ensures
        Bid::spec_deserialize(v) matches Ok(b) ==> Order::spec_deserialize(v) == Ok::<
            Order,
            DecodeError,
        >(Order::Bid(b)),
        Ask::spec_deserialize(v) matches Ok(a) ==> Order::spec_deserialize(v) == Ok::<
            Order,
            DecodeError,
        >(Order::Ask(a)),
        Order::spec_deserialize(v) matches Ok(o) ==> match o {
            Order::Bid(b) => Bid::spec_deserialize(v) == Ok::<Bid, DecodeError>(b),
            Order::Ask(a) => Ask::spec_deserialize(v) == Ok::<Ask, DecodeError>(a),
        },
{
}

impl Transaction {
    /// Decode of the 4-element `[timestamp, id, price, amount]` array.
    pub open spec fn spec_deserialize(v: Json) -> Result<Transaction, DecodeError> {
        match v {
            Json::Arr(es) => {
                if es@.len() != 4 {
                    Err(DecodeError::WrongLength)
                } else if spec_int(es@[0]) is Err {
                    Err(spec_int(es@[0])->Err_0)
                } else if spec_int(es@[1]) is Err {
                    Err(spec_int(es@[1])->Err_0)
                } else if spec_num(es@[2]) is Err {
                    Err(spec_num(es@[2])->Err_0)
                } else if spec_num(es@[3]) is Err {
                    Err(spec_num(es@[3])->Err_0)
                } else {
                    Ok(
                        Transaction {
                            timestamp: spec_int(es@[0])->Ok_0,
                            id: spec_int(es@[1])->Ok_0,
                            price: spec_num(es@[2])->Ok_0,
                            amount: spec_num(es@[3])->Ok_0,
                        },
                    )
                }
            },
            _ => Err(DecodeError::ExpectedArray),
        }
    }

    /// Decodes one market trade.
    pub fn deserialize(v: &Json) -> (r: Result<Transaction, DecodeError>)
        ensures
            r == Transaction::spec_deserialize(*v),
    {
        let es = match v {
            Json::Arr(es) => es,
            _ => {
                return Err(DecodeError::ExpectedArray);
            },
        };
        if es.len() != 4 {
            return Err(DecodeError::WrongLength);
        }
        let timestamp = match as_int(&es[0]) {
            Ok(x) => x,
            Err(e) => {
                return Err(e);
            },
        };
        let id = match as_int(&es[1]) {
            Ok(x) => x,
            Err(e) => {
                return Err(e);
            },
        };
        let price = match as_num(&es[2]) {
            Ok(x) => x,
            Err(e) => {
                return Err(e);
            },
        };
        let amount = match as_num(&es[3]) {
            Ok(x) => x,
            Err(e) => {
                return Err(e);
            },
        };
        Ok(Transaction { timestamp, id, price, amount })
    }
}

/// Folds a spec decoder over an array's elements, stopping at the first
/// error, in input order.
pub open spec fn spec_decode_seq<T>(
    es: Seq<Json>,
    f: spec_fn(Json) -> Result<T, DecodeError>,
) -> Result<Seq<T>, DecodeError>
    decreases es.len(),
{
    if es.len() == 0 {
        Ok(Seq::empty())
    } else {
        match spec_decode_seq(es.drop_last(), f) {
            Ok(s) => match f(es.last()) {
                Ok(t) => Ok(s.push(t)),
                Err(e) => Err(e),
            },
            Err(e) => Err(e),
        }
    }
}

/// Sequence decoding is element-wise and order-preserving: when an array
/// decodes, the result has one entry per wire element, and the entry at
/// each index is exactly the decode of the wire element at that index.
/// With `f` the pair, transaction or order decoder, this is the statement
/// that decoding reorders nothing and touches no value.
pub proof fn lemma_decode_seq_elementwise<T>(
    es: Seq<Json>,
    f: spec_fn(Json) -> Result<T, DecodeError>,
)
    requires
        spec_decode_seq(es, f) is Ok,
    ensures
        spec_decode_seq(es, f)->Ok_0.len() == es.len(),
        forall|i: int|
            0 <= i < es.len() ==> f(#[trigger] es[i]) is Ok && spec_decode_seq(es, f)->Ok_0[i] == f(
                es[i],
            )->Ok_0,
    decreases es.len(),
{
    if es.len() > 0 {
        lemma_decode_seq_elementwise(es.drop_last(), f);
        assert(forall|i: int| 0 <= i < es.len() - 1 ==> es.drop_last()[i] == es[i]);
    }
}

/// An element error inside an otherwise-good prefix decides the whole
/// sequence decode.
proof fn lemma_decode_seq_err<T>(
    es: Seq<Json>,
    f: spec_fn(Json) -> Result<T, DecodeError>,
    k: int,
)
    requires
        0 <= k < es.len(),
        spec_decode_seq(es.subrange(0, k), f) is Ok,
        f(es[k]) is Err,
    ensures
        spec_decode_seq(es, f) == Err::<Seq<T>, DecodeError>(f(es[k])->Err_0),
    decreases es.len(),
{
    if es.len() - 1 == k {
        assert(es.drop_last() =~= es.subrange(0, k));
    } else {
        let d = es.drop_last();
        assert(d.subrange(0, k) =~= es.subrange(0, k));
        assert(d[k] == es[k]);
        lemma_decode_seq_err(d, f, k);
    }
}

/// Decode of a `[price, volume]` pair array.
pub open spec fn spec_price_pair(v: Json) -> Result<(Decimal, Decimal), DecodeError> {
    match v {
        Json::Arr(es) => {
            if es@.len() != 2 {
                Err(DecodeError::WrongLength)
            } else if spec_num(es@[0]) is Err {
                Err(spec_num(es@[0])->Err_0)
            } else if spec_num(es@[1]) is Err {
                Err(spec_num(es@[1])->Err_0)
            } else {
                Ok((spec_num(es@[0])->Ok_0, spec_num(es@[1])->Ok_0))
            }
        },
        _ => Err(DecodeError::ExpectedArray),
    }
}

/// Decodes one `[price, volume]` pair.
fn price_pair(v: &Json) -> (r: Result<(Decimal, Decimal), DecodeError>)
    ensures
        r == spec_price_pair(*v),
{
    let es = match v {
        Json::Arr(es) => es,
        _ => {
            return Err(DecodeError::ExpectedArray);
        },
    };
    if es.len() != 2 {
        return Err(DecodeError::WrongLength);
    }
    let price = match as_num(&es[0]) {
        Ok(x) => x,
        Err(e) => {
            return Err(e);
        },
    };
    let volume = match as_num(&es[1]) {
        Ok(x) => x,
        Err(e) => {
            return Err(e);
        },
    };
    Ok((price, volume))
}

/// Decode of an array of `[price, volume]` pairs, in wire order.
pub open spec fn spec_price_pairs(v: Json) -> Result<Seq<(Decimal, Decimal)>, DecodeError> {
    match v {
        Json::Arr(es) => spec_decode_seq(es@, |e: Json| spec_price_pair(e)),
        _ => Err(DecodeError::ExpectedArray),
    }
}

/// Decodes one side of the order book, preserving wire order exactly.
fn price_pairs(v: &Json) -> (r: Result<Vec<(Decimal, Decimal)>, DecodeError>)
    ensures
        (r is Ok) == (spec_price_pairs(*v) is Ok),
        r matches Ok(ps) ==> ps@ == spec_price_pairs(*v)->Ok_0,
        r matches Err(e) ==> e == spec_price_pairs(*v)->Err_0,
{
    let ghost f = |e: Json| spec_price_pair(e);
    let es = match v {
        Json::Arr(es) => es,
        _ => {
            return Err(DecodeError::ExpectedArray);
        },
    };
    let mut out: Vec<(Decimal, Decimal)> = Vec::new();
    let mut i: usize = 0;
    proof {
        assert(es@.subrange(0, 0) =~= Seq::<Json>::empty());
    }
    while i < es.len()
        invariant
            i <= es@.len(),
            f == (|e: Json| spec_price_pair(e)),
            spec_price_pairs(*v) == spec_decode_seq(es@, f),
            spec_decode_seq(es@.subrange(0, i as int), f) == Ok::<
                Seq<(Decimal, Decimal)>,
                DecodeError,
            >(out@),
        decreases es@.len() - i,
    {
        let p = match price_pair(&es[i]) {
            Ok(p) => p,
            Err(e) => {
                proof {
                    lemma_decode_seq_err(es@, f, i as int);
                }
                return Err(e);
            },
        };
        out.push(p);
        i = i + 1;
        proof {
            let cur = es@.subrange(0, i as int);
            assert(cur.drop_last() =~= es@.subrange(0, i - 1));
            assert(cur.last() == es@[i - 1]);
        }
    }
    proof {
        assert(es@.subrange(0, es@.len() as int) =~= es@);
    }
    Ok(out)
}

impl OrderBook {
    /// Decode of the order-book object: the `bids` and `asks` fields, each
    /// an array of pairs, kept in wire order with exact decimal values.
    pub open spec fn spec_deserialize(v: Json) -> Result<
        (Seq<(Decimal, Decimal)>, Seq<(Decimal, Decimal)>),
        DecodeError,
    > {
        match v {
            Json::Obj(fs) => {
                match spec_obj_get(fs@, "bids"@) {
                    Some(bv) => match spec_price_pairs(bv) {
                        Ok(bids) => match spec_obj_get(fs@, "asks"@) {
                            Some(av) => match spec_price_pairs(av) {
                                Ok(asks) => Ok((bids, asks)),
                                Err(e) => Err(e),
                            },
                            None => Err(DecodeError::MissingField),
                        },
                        Err(e) => Err(e),
                    },
                    None => Err(DecodeError::MissingField),
                }
            },
            _ => Err(DecodeError::ExpectedObject),
        }
    }

    /// Decodes the order book, preserving the order and exact values of
    /// both price sequences.
    pub fn deserialize(v: &Json) -> (r: Result<OrderBook, DecodeError>)
        ensures
            (r is Ok) == (OrderBook::spec_deserialize(*v) is Ok),
            r matches Ok(ob) ==> OrderBook::spec_deserialize(*v) matches Ok(p) && ob.bids@ == p.0
                && ob.asks@ == p.1,
            r matches Err(e) ==> OrderBook::spec_deserialize(*v) matches Err(e2) && e == e2,
    {
        let fs = match v {
            Json::Obj(fs) => fs,
            _ => {
                return Err(DecodeError::ExpectedObject);
            },
        };
        let bv = match obj_get(fs, "bids") {
            Some(j) => j,
            None => {
                return Err(DecodeError::MissingField);
            },
        };
        let bids = match price_pairs(bv) {
            Ok(x) => x,
            Err(e) => {
                return Err(e);
            },
        };
        let av = match obj_get(fs, "asks") {
            Some(j) => j,
            None => {
                return Err(DecodeError::MissingField);
            },
        };
        let asks = match price_pairs(av) {
            Ok(x) => x,
            Err(e) => {
                return Err(e);
            },
        };
        Ok(OrderBook { bids, asks })
    }
}

/// Decode of an array of transactions, in wire order.
pub open spec fn spec_deserialize_transactions(v: Json) -> Result<Seq<Transaction>, DecodeError> {
    match v {
        Json::Arr(es) => spec_decode_seq(es@, |e: Json| Transaction::spec_deserialize(e)),
        _ => Err(DecodeError::ExpectedArray),
    }
}

/// Decodes the market's transaction list, in wire order.
pub fn deserialize_transactions(v: &Json) -> (r: Result<Vec<Transaction>, DecodeError>)
    ensures
        (r is Ok) == (spec_deserialize_transactions(*v) is Ok),
        r matches Ok(ts) ==> ts@ == spec_deserialize_transactions(*v)->Ok_0,
        r matches Err(e) ==> e == spec_deserialize_transactions(*v)->Err_0,
{
    let ghost f = |e: Json| Transaction::spec_deserialize(e);
    let es = match v {
        Json::Arr(es) => es,
        _ => {
            return Err(DecodeError::ExpectedArray);
        },
    };
    let mut out: Vec<Transaction> = Vec::new();
    let mut i: usize = 0;
    proof {
        assert(es@.subrange(0, 0) =~= Seq::<Json>::empty());
    }
    while i < es.len()
        invariant
            i <= es@.len(),
            f == (|e: Json| Transaction::spec_deserialize(e)),
            spec_deserialize_transactions(*v) == spec_decode_seq(es@, f),
            spec_decode_seq(es@.subrange(0, i as int), f) == Ok::<Seq<Transaction>, DecodeError>(
                out@,
            ),
        decreases es@.len() - i,
    {
        let t = match Transaction::deserialize(&es[i]) {
            Ok(t) => t,
            Err(e) => {
                proof {
                    lemma_decode_seq_err(es@, f, i as int);
                }
                return Err(e);
            },
        };
        out.push(t);
        i = i + 1;
        proof {
            let cur = es@.subrange(0, i as int);
            assert(cur.drop_last() =~= es@.subrange(0, i - 1));
            assert(cur.last() == es@[i - 1]);
        }
    }
    proof {
        assert(es@.subrange(0, es@.len() as int) =~= es@);
    }
    Ok(out)
}

/// Decode of a mixed array of orders, dispatched per element, in wire
/// order.
pub open spec fn spec_deserialize_orders(v: Json) -> Result<Seq<Order>, DecodeError> {
    match v {
        Json::Arr(es) => spec_decode_seq(es@, |e: Json| Order::spec_deserialize(e)),
        _ => Err(DecodeError::ExpectedArray),
    }
}

/// Decodes a mixed list of bids and asks, keeping input order.
pub fn deserialize_orders(v: &Json) -> (r: Result<Vec<Order>, DecodeError>)
    ensures
        (r is Ok) == (spec_deserialize_orders(*v) is Ok),
        r matches Ok(os) ==> os@ == spec_deserialize_orders(*v)->Ok_0,
        r matches Err(e) ==> e == spec_deserialize_orders(*v)->Err_0,
{
    let ghost f = |e: Json| Order::spec_deserialize(e);
    let es = match v {
        Json::Arr(es) => es,
        _ => {
            return Err(DecodeError::ExpectedArray);
        },
    };
    let mut out: Vec<Order> = Vec::new();
    let mut i: usize = 0;
    proof {
        assert(es@.subrange(0, 0) =~= Seq::<Json>::empty());
    }
    while i < es.len()
        invariant
            i <= es@.len(),
            f == (|e: Json| Order::spec_deserialize(e)),
            spec_deserialize_orders(*v) == spec_decode_seq(es@, f),
            spec_decode_seq(es@.subrange(0, i as int), f) == Ok::<Seq<Order>, DecodeError>(out@),
        decreases es@.len() - i,
    {
        let o = match Order::deserialize(&es[i]) {
            Ok(o) => o,
            Err(e) => {
                proof {
                    lemma_decode_seq_err(es@, f, i as int);
                }
                return Err(e);
            },
        };
        out.push(o);
        i = i + 1;
        proof {
            let cur = es@.subrange(0, i as int);
            assert(cur.drop_last() =~= es@.subrange(0, i - 1));
            assert(cur.last() == es@[i - 1]);
        }
    }
    proof {
        assert(es@.subrange(0, es@.len() as int) =~= es@);
    }
    Ok(out)
}

/// A named object field holding a number.
pub open spec fn spec_obj_num(fields: Seq<(String, Json)>, key: Seq<char>) -> Result<
    Decimal,
    DecodeError,
> {
    match spec_obj_get(fields, key) {
        Some(j) => spec_num(j),
        None => Err(DecodeError::MissingField),
    }
}

/// A named object field holding a string.
pub open spec fn spec_obj_string(fields: Seq<(String, Json)>, key: Seq<char>) -> Result<
    String,
    DecodeError,
> {
    match spec_obj_get(fields, key) {
        Some(j) => spec_string(j),
        None => Err(DecodeError::MissingField),
    }
}

/// Looks a numeric field up by name.
fn obj_num(fields: &Vec<(String, Json)>, key: &str) -> (r: Result<Decimal, DecodeError>)
    ensures
        r == spec_obj_num(fields@, key@),
{
    match obj_get(fields, key) {
        Some(j) => as_num(j),
        None => Err(DecodeError::MissingField),
    }
}

/// Looks a string field up by name.
fn obj_string(fields: &Vec<(String, Json)>, key: &str) -> (r: Result<String, DecodeError>)
    ensures
        r == spec_obj_string(fields@, key@),
{
    match obj_get(fields, key) {
        Some(j) => as_string(j),
        None => Err(DecodeError::MissingField),
    }
}

impl Profile {
    /// Decode of the profile object: seven numeric fields and two string
    /// fields, each looked up by name.
    pub open spec fn spec_deserialize(v: Json) -> Result<Profile, DecodeError> {
        match v {
            Json::Obj(fs) => {
                if spec_obj_num(fs@, "usd_balance"@) is Err {
                    Err(spec_obj_num(fs@, "usd_balance"@)->Err_0)
                } else if spec_obj_num(fs@, "usd_reserved"@) is Err {
                    Err(spec_obj_num(fs@, "usd_reserved"@)->Err_0)
                } else if spec_obj_num(fs@, "usd_available"@) is Err {
                    Err(spec_obj_num(fs@, "usd_available"@)->Err_0)
                } else if spec_obj_num(fs@, "btc_balance"@) is Err {
                    Err(spec_obj_num(fs@, "btc_balance"@)->Err_0)
                } else if spec_obj_num(fs@, "btc_reserved"@) is Err {
                    Err(spec_obj_num(fs@, "btc_reserved"@)->Err_0)
                } else if spec_obj_num(fs@, "btc_available"@) is Err {
                    Err(spec_obj_num(fs@, "btc_available"@)->Err_0)
                } else if spec_obj_num(fs@, "fee"@) is Err {
                    Err(spec_obj_num(fs@, "fee"@)->Err_0)
                } else if spec_obj_string(fs@, "btc_deposit_address"@) is Err {
                    Err(spec_obj_string(fs@, "btc_deposit_address"@)->Err_0)
                } else if spec_obj_string(fs@, "more_mt_deposit_code"@) is Err {
                    Err(spec_obj_string(fs@, "more_mt_deposit_code"@)->Err_0)
                } else {
                    Ok(
                        Profile {
                            usd_balance: spec_obj_num(fs@, "usd_balance"@)->Ok_0,
                            usd_reserved: spec_obj_num(fs@, "usd_reserved"@)->Ok_0,
                            usd_available: spec_obj_num(fs@, "usd_available"@)->Ok_0,
                            btc_balance: spec_obj_num(fs@, "btc_balance"@)->Ok_0,
                            btc_reserved: spec_obj_num(fs@, "btc_reserved"@)->Ok_0,
                            btc_available: spec_obj_num(fs@, "btc_available"@)->Ok_0,
                            fee: spec_obj_num(fs@, "fee"@)->Ok_0,
                            btc_deposit_address: spec_obj_string(fs@, "btc_deposit_address"@)->Ok_0,
                            more_mt_deposit_code: spec_obj_string(
                                fs@,
                                "more_mt_deposit_code"@,
                            )->Ok_0,
                        },
                    )
                }
            },
            _ => Err(DecodeError::ExpectedObject),
        }
    }

    /// Decodes the account profile.
    pub fn deserialize(v: &Json) -> (r: Result<Profile, DecodeError>)
        ensures
            r == Profile::spec_deserialize(*v),
    {
        let fs = match v {
            Json::Obj(fs) => fs,
            _ => {
                return Err(DecodeError::ExpectedObject);
            },
        };
        let usd_balance = match obj_num(fs, "usd_balance") {
            Ok(x) => x,
            Err(e) => {
                return Err(e);
            },
        };
        let usd_reserved = match obj_num(fs, "usd_reserved") {
            Ok(x) => x,
            Err(e) => {
                return Err(e);
            },
        };
        let usd_available = match obj_num(fs, "usd_available") {
            Ok(x) => x,
            Err(e) => {
                return Err(e);
            },
        };
        let btc_balance = match obj_num(fs, "btc_balance") {
            Ok(x) => x,
            Err(e) => {
                return Err(e);
            },
        };
        let btc_reserved = match obj_num(fs, "btc_reserved") {
            Ok(x) => x,
            Err(e) => {
                return Err(e);
            },
        };
        let btc_available = match obj_num(fs, "btc_available") {
            Ok(x) => x,
            Err(e) => {
                return Err(e);
            },
        };
        let fee = match obj_num(fs, "fee") {
            Ok(x) => x,
            Err(e) => {
                return Err(e);
            },
        };
        let btc_deposit_address = match obj_string(fs, "btc_deposit_address") {
            Ok(x) => x,
            Err(e) => {
                return Err(e);
            },
        };
        let more_mt_deposit_code = match obj_string(fs, "more_mt_deposit_code") {
            Ok(x) => x,
            Err(e) => {
                return Err(e);
            },
        };
        Ok(
            Profile {
                usd_balance,
                usd_reserved,
                usd_available,
                btc_balance,
                btc_reserved,
                btc_available,
                fee,
                btc_deposit_address,
                more_mt_deposit_code,
            },
        )
    }
}

} // verus!
