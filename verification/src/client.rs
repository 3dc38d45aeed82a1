//! The endpoint client: building requests and interpreting responses.
//!
//! The client is an immutable value holding an API key (empty string means
//! unauthenticated) and a base URL.  Every operation yields an
//! [`HttpRequest`] describing exactly the request to perform — method, full
//! URL, and parameters in order — and a matching `*_from_response` function
//! turns the status code and decoded JSON body of the reply into the typed
//! result: any non-2xx status becomes [`ApiError::Status`], and only a 2xx
//! body is ever decoded.

use vstd::prelude::*;

verus! {

use crate::decimal::{int_string, spec_decimal_str, Decimal};
use crate::json::{DecodeError, Json};
use crate::records::{
    deserialize_orders, deserialize_transactions, spec_deserialize_orders,
    spec_deserialize_transactions, Ask, Bid, Order, OrderBook, Profile, Transaction,
    ASK_DISCRIMINATOR, BID_DISCRIMINATOR,
};
use vstd::string::*;

/// The live exchange.
pub const PRODUCTION_URL_BASE: &'static str = "https://bitex.la";

/// The test exchange.
pub const SANDBOX_URL_BASE: &'static str = "https://sandbox.bitex.la";

/// The HTTP method of a request.
#[derive(Debug, Clone, Copy, PartialEq, Eq, Structural)]
pub enum Method {
    Get,
    Post,
}

/// A fully-built request: what the transport must perform.  Parameters go
/// in the query string for GET and in the form body for POST.
#[derive(Debug)]
pub struct HttpRequest {
    pub method: Method,
    pub url: String,
    pub params: Vec<(String, String)>,
}

/// Why an operation failed.
#[derive(Debug, PartialEq)]
pub enum ApiError {
    /// Network-level failure, surfaced unchanged from the transport.
    Transport(String),
    /// The server answered with a non-2xx status.
    Status(u16),
    /// The 2xx body could not be decoded as the requested type.
    Decode(DecodeError),
}

/// A 2xx status.
pub open spec fn spec_success(status: u16) -> bool {
    200 <= status < 300
}

/// Base URL, the fixed API prefix, then the endpoint.
pub open spec fn spec_url(base: Seq<char>, endpoint: Seq<char>) -> Seq<char> {
    base + "/api-v1/rest/"@ + endpoint
}

/// The client handle: an API key and a base URL, cheap to copy and safe to
/// share.
#[derive(Debug, Clone, Copy)]
pub struct Api<'a> {
    pub key: &'a str,
    pub url_base: &'a str,
}

impl<'a> Api<'a> {
    /// A client for the given base URL, with no API key set.
    pub fn new(url: &'a str) -> (r: Api<'a>)
        ensures
            r.key@ == Seq::<char>::empty(),
            r.url_base == url,
    {
        proof {
            reveal_strlit("");
            assert(""@ =~= Seq::<char>::empty());
        }
        Api { key: "", url_base: url }
    }

    /// A client for the production exchange.
    pub fn prod() -> (r: Api<'a>)
        ensures
            r.key@ == Seq::<char>::empty(),
            r.url_base@ == PRODUCTION_URL_BASE@,
    {
        proof {
            reveal_strlit("");
            assert(""@ =~= Seq::<char>::empty());
        }
        Api { key: "", url_base: PRODUCTION_URL_BASE }
    }

    /// A client for the sandbox exchange.
    pub fn sandbox() -> (r: Api<'a>)
        ensures
            r.key@ == Seq::<char>::empty(),
            r.url_base@ == SANDBOX_URL_BASE@,
    {
        proof {
            reveal_strlit("");
            assert(""@ =~= Seq::<char>::empty());
        }
        Api { key: "", url_base: SANDBOX_URL_BASE }
    }

    /// A copy of this client with the API key set; the original is left as
    /// it was.
    pub fn key(self, key: &'a str) -> (r: Api<'a>)
        ensures
            r.key == key,
            r.url_base == self.url_base,
    {
        Api { key, url_base: self.url_base }
    }

    /// The full URL for an endpoint: base, fixed prefix, endpoint.
    pub fn url(&self, endpoint: &str) -> (r: String)
        ensures
            r@ == spec_url(self.url_base@, endpoint@),
    {
        let mut out = String::from_str(self.url_base);
        out.append("/api-v1/rest/");
        out.append(endpoint);
        proof {
            assert(out@ =~= spec_url(self.url_base@, endpoint@));
        }
        out
    }

    /// Puts the `api_key` parameter in front of the given parameters.  The
    /// parameter is always present, even when the key is empty.
    pub fn add_key(&self, params: Vec<(String, String)>) -> (r: Vec<(String, String)>)
        ensures
            r@.len() == params@.len() + 1,
            r@[0].0@ == "api_key"@,
            r@[0].1@ == self.key@,
            forall|j: int| 1 <= j < r@.len() ==> r@[j] == params@[j - 1],
    {
        let mut with_key: Vec<(String, String)> = Vec::new();
        with_key.push((String::from_str("api_key"), String::from_str(self.key)));
        let mut rest = params;
        with_key.append(&mut rest);
        with_key
    }

    /// A GET request for the endpoint, with the parameters as given.
    pub fn get(&self, endpoint: &str, params: Vec<(String, String)>) -> (r: HttpRequest)
        ensures
            r.method == Method::Get,
            r.url@ == spec_url(self.url_base@, endpoint@),
            r.params == params,
    {
        HttpRequest { method: Method::Get, url: self.url(endpoint), params }
    }

    /// A POST request for the endpoint, with the parameters as given.
    pub fn post(&self, endpoint: &str, params: Vec<(String, String)>) -> (r: HttpRequest)
        ensures
            r.method == Method::Post,
            r.url@ == spec_url(self.url_base@, endpoint@),
            r.params == params,
    {
        HttpRequest { method: Method::Post, url: self.url(endpoint), params }
    }

    /// A GET request with the `api_key` parameter put first.  The parameter
    /// is sent even when no key was set (its value is then empty).
    pub fn private_get(&self, endpoint: &str, params: Vec<(String, String)>) -> (r: HttpRequest)
        ensures
            r.method == Method::Get,
            r.url@ == spec_url(self.url_base@, endpoint@),
            r.params@.len() == params@.len() + 1,
            r.params@[0].0@ == "api_key"@,
            r.params@[0].1@ == self.key@,
            forall|j: int| 1 <= j < r.params@.len() ==> r.params@[j] == params@[j - 1],
    {
        let p = self.add_key(params);
        self.get(endpoint, p)
    }

    /// A POST request with the `api_key` parameter put first.  The
    /// parameter is sent even when no key was set (its value is then
    /// empty).
    pub fn private_post(&self, endpoint: &str, params: Vec<(String, String)>) -> (r: HttpRequest)
        ensures
            r.method == Method::Post,
            r.url@ == spec_url(self.url_base@, endpoint@),
            r.params@.len() == params@.len() + 1,
            r.params@[0].0@ == "api_key"@,
            r.params@[0].1@ == self.key@,
            forall|j: int| 1 <= j < r.params@.len() ==> r.params@[j] == params@[j - 1],
    {
        let p = self.add_key(params);
        self.post(endpoint, p)
    }

    /// The public order-book request.
    pub fn orderbook(&self) -> (r: HttpRequest)
        ensures
            r.method == Method::Get,
            r.url@ == spec_url(self.url_base@, "btc_usd/market/order_book"@),
            r.params@ == Seq::<(String, String)>::empty(),
    {
        self.get("btc_usd/market/order_book", Vec::new())
    }

    /// The public recent-transactions request.
    pub fn transactions(&self) -> (r: HttpRequest)
        ensures
            r.method == Method::Get,
            r.url@ == spec_url(self.url_base@, "btc_usd/market/transactions"@),
            r.params@ == Seq::<(String, String)>::empty(),
    {
        self.get("btc_usd/market/transactions", Vec::new())
    }

    /// The authenticated profile request.
    pub fn profile(&self) -> (r: HttpRequest)
        ensures
            r.method == Method::Get,
            r.url@ == spec_url(self.url_base@, "private/profile"@),
            r.params@.len() == 1,
            r.params@[0].0@ == "api_key"@,
            r.params@[0].1@ == self.key@,
    {
        self.private_get("private/profile", Vec::new())
    }

    /// The authenticated order-list request.
    pub fn orders(&self) -> (r: HttpRequest)
        ensures
            r.method == Method::Get,
            r.url@ == spec_url(self.url_base@, "private/orders"@),
            r.params@.len() == 1,
            r.params@[0].0@ == "api_key"@,
            r.params@[0].1@ == self.key@,
    {
        self.private_get("private/orders", Vec::new())
    }

    /// The bid sub-resource of this client.
    pub fn bids(&self) -> (r: BidsApi<'a>)
        ensures
            r.api == *self,
    {
        BidsApi { api: *self }
    }

    /// The ask sub-resource of this client.
    pub fn asks(&self) -> (r: AsksApi<'a>)
        ensures
            r.api == *self,
    {
        AsksApi { api: *self }
    }
}

/// Which kind of order a sub-resource works on: its wire discriminator and
/// its path segment.
#[derive(Debug, Clone, Copy, PartialEq, Eq, Structural)]
pub enum OrderKind {
    Bid,
    Ask,
}

impl OrderKind {
    /// The leading wire tag for this kind.
    pub open spec fn spec_discriminator(self) -> i64 {
        match self {
            OrderKind::Bid => 1,
            OrderKind::Ask => 2,
        }
    }

    /// The URL path segment for this kind's collection.
    pub open spec fn spec_segment(self) -> Seq<char> {
        match self {
            OrderKind::Bid => "bids"@,
            OrderKind::Ask => "asks"@,
        }
    }

    pub fn discriminator(self) -> (r: i64)
        ensures
            r == self.spec_discriminator(),
    {
        match self {
            OrderKind::Bid => BID_DISCRIMINATOR,
            OrderKind::Ask => ASK_DISCRIMINATOR,
        }
    }

    pub fn segment(self) -> (r: &'static str)
        ensures
            r@ == self.spec_segment(),
    {
        match self {
            OrderKind::Bid => "bids",
            OrderKind::Ask => "asks",
        }
    }
}

/// Path of one order: `private/{segment}/{id}`.
pub open spec fn spec_show_endpoint(kind: OrderKind, id: i64) -> Seq<char> {
    "private/"@ + kind.spec_segment() + "/"@ + spec_decimal_str(id as int, 0)
}

/// Path of a kind's collection: `private/{segment}`.
pub open spec fn spec_collection_endpoint(kind: OrderKind) -> Seq<char> {
    "private/"@ + kind.spec_segment()
}

/// Path of one order's cancellation: `private/{segment}/{id}/cancel`.
pub open spec fn spec_cancel_endpoint(kind: OrderKind, id: i64) -> Seq<char> {
    "private/"@ + kind.spec_segment() + "/"@ + spec_decimal_str(id as int, 0) + "/cancel"@
}

/// GET one order by id, on the kind's own path.
fn order_show_request(api: &Api, kind: OrderKind, id: i64) -> (r: HttpRequest)
    ensures
        r.method == Method::Get,
        r.url@ == spec_url(api.url_base@, spec_show_endpoint(kind, id)),
        r.params@.len() == 1,
        r.params@[0].0@ == "api_key"@,
        r.params@[0].1@ == api.key@,
{
    let mut e = String::from_str("private/");
    e.append(kind.segment());
    e.append("/");
    let ids = int_string(id);
    e.append(ids.as_str());
    proof {
        assert(e@ =~= spec_show_endpoint(kind, id));
    }
    api.private_get(e.as_str(), Vec::new())
}

/// POST a new order with `amount` and `price`, on the kind's own
/// collection path.
fn order_create_request(api: &Api, kind: OrderKind, amount: Decimal, price: Decimal) -> (r:
    HttpRequest)
    ensures
        r.method == Method::Post,
        r.url@ == spec_url(api.url_base@, spec_collection_endpoint(kind)),
        r.params@.len() == 3,
        r.params@[0].0@ == "api_key"@,
        r.params@[0].1@ == api.key@,
        r.params@[1].0@ == "amount"@,
        r.params@[1].1@ == spec_decimal_str(amount.mantissa(), amount.scale()),
        r.params@[2].0@ == "price"@,
        r.params@[2].1@ == spec_decimal_str(price.mantissa(), price.scale()),
{
    let mut e = String::from_str("private/");
    e.append(kind.segment());
    proof {
        assert(e@ =~= spec_collection_endpoint(kind));
    }
    let mut params: Vec<(String, String)> = Vec::new();
    params.push((String::from_str("amount"), amount.to_string()));
    params.push((String::from_str("price"), price.to_string()));
    api.private_post(e.as_str(), params)
}

/// POST the cancellation of one order, on the kind's own path.
fn order_cancel_request(api: &Api, kind: OrderKind, id: i64) -> (r: HttpRequest)
    ensures
        r.method == Method::Post,
        r.url@ == spec_url(api.url_base@, spec_cancel_endpoint(kind, id)),
        r.params@.len() == 1,
        r.params@[0].0@ == "api_key"@,
        r.params@[0].1@ == api.key@,
{
    let mut e = String::from_str("private/");
    e.append(kind.segment());
    e.append("/");
    let ids = int_string(id);
    e.append(ids.as_str());
    e.append("/cancel");
    proof {
        assert(e@ =~= spec_cancel_endpoint(kind, id));
    }
    api.private_post(e.as_str(), Vec::new())
}

/// The bid sub-resource: show, create and cancel on `private/bids`.
#[derive(Debug, Clone, Copy)]
pub struct BidsApi<'a> {
    pub api: Api<'a>,
}

impl<'a> BidsApi<'a> {
    /// GET `private/bids/{id}`; the response decodes as a [`Bid`].
    pub fn show(&self, id: i64) -> (r: HttpRequest)
        ensures
            r.method == Method::Get,
            r.url@ == spec_url(self.api.url_base@, spec_show_endpoint(OrderKind::Bid, id)),
            r.params@.len() == 1,
            r.params@[0].0@ == "api_key"@,
            r.params@[0].1@ == self.api.key@,
    {
        order_show_request(&self.api, OrderKind::Bid, id)
    }

    /// POST `private/bids` with exactly `amount` and `price` as form
    /// parameters (after `api_key`); the response decodes as a [`Bid`].
    pub fn create(&self, amount: Decimal, price: Decimal) -> (r: HttpRequest)
        ensures
            r.method == Method::Post,
            r.url@ == spec_url(self.api.url_base@, spec_collection_endpoint(OrderKind::Bid)),
            r.params@.len() == 3,
            r.params@[0].0@ == "api_key"@,
            r.params@[0].1@ == self.api.key@,
            r.params@[1].0@ == "amount"@,
            r.params@[1].1@ == spec_decimal_str(amount.mantissa(), amount.scale()),
            r.params@[2].0@ == "price"@,
            r.params@[2].1@ == spec_decimal_str(price.mantissa(), price.scale()),
    {
        order_create_request(&self.api, OrderKind::Bid, amount, price)
    }

    /// POST `private/bids/{id}/cancel`; the response decodes as a [`Bid`].
    pub fn cancel(&self, id: i64) -> (r: HttpRequest)
        ensures
            r.method == Method::Post,
            r.url@ == spec_url(self.api.url_base@, spec_cancel_endpoint(OrderKind::Bid, id)),
            r.params@.len() == 1,
            r.params@[0].0@ == "api_key"@,
            r.params@[0].1@ == self.api.key@,
    {
        order_cancel_request(&self.api, OrderKind::Bid, id)
    }
}

/// The ask sub-resource: show, create and cancel on `private/asks`.
#[derive(Debug, Clone, Copy)]
pub struct AsksApi<'a> {
    pub api: Api<'a>,
}

impl<'a> AsksApi<'a> {
    /// GET `private/asks/{id}`; the response decodes as an [`Ask`].
    pub fn show(&self, id: i64) -> (r: HttpRequest)
        ensures
            r.method == Method::Get,
            r.url@ == spec_url(self.api.url_base@, spec_show_endpoint(OrderKind::Ask, id)),
            r.params@.len() == 1,
            r.params@[0].0@ == "api_key"@,
            r.params@[0].1@ == self.api.key@,
    {
        order_show_request(&self.api, OrderKind::Ask, id)
    }

    /// POST `private/asks` with exactly `amount` and `price` as form
    /// parameters (after `api_key`); the response decodes as an [`Ask`].
    /// The path is always the ask collection's own.
    pub fn create(&self, amount: Decimal, price: Decimal) -> (r: HttpRequest)
        ensures
            r.method == Method::Post,
            r.url@ == spec_url(self.api.url_base@, spec_collection_endpoint(OrderKind::Ask)),
            r.params@.len() == 3,
            r.params@[0].0@ == "api_key"@,
            r.params@[0].1@ == self.api.key@,
            r.params@[1].0@ == "amount"@,
            r.params@[1].1@ == spec_decimal_str(amount.mantissa(), amount.scale()),
            r.params@[2].0@ == "price"@,
            r.params@[2].1@ == spec_decimal_str(price.mantissa(), price.scale()),
    {
        order_create_request(&self.api, OrderKind::Ask, amount, price)
    }

    /// POST `private/asks/{id}/cancel`; the response decodes as an
    /// [`Ask`].
    pub fn cancel(&self, id: i64) -> (r: HttpRequest)
        ensures
            r.method == Method::Post,
            r.url@ == spec_url(self.api.url_base@, spec_cancel_endpoint(OrderKind::Ask, id)),
            r.params@.len() == 1,
            r.params@[0].0@ == "api_key"@,
            r.params@[0].1@ == self.api.key@,
    {
        order_cancel_request(&self.api, OrderKind::Ask, id)
    }
}

/// Interprets an order-book response: a non-2xx status is always a status
/// error, never a decoded value; a 2xx body decodes per
/// `OrderBook::spec_deserialize`.
pub fn orderbook_from_response(status: u16, body: &Json) -> (r: Result<OrderBook, ApiError>)
    ensures
        !spec_success(status) ==> (r matches Err(e) && e == ApiError::Status(status)),
        spec_success(status) ==> match OrderBook::spec_deserialize(*body) {
            Ok(p) => r matches Ok(ob) && ob.bids@ == p.0 && ob.asks@ == p.1,
            Err(de) => r matches Err(e) && e == ApiError::Decode(de),
        },
{
    if !(200 <= status && status < 300) {
        return Err(ApiError::Status(status));
    }
    match OrderBook::deserialize(body) {
        Ok(ob) => Ok(ob),
        Err(e) => Err(ApiError::Decode(e)),
    }
}

/// Interprets a transaction-list response; non-2xx is a status error.
pub fn transactions_from_response(status: u16, body: &Json) -> (r: Result<
    Vec<Transaction>,
    ApiError,
>)
    ensures
        !spec_success(status) ==> (r matches Err(e) && e == ApiError::Status(status)),
        spec_success(status) ==> match spec_deserialize_transactions(*body) {
            Ok(ts) => r matches Ok(v) && v@ == ts,
            Err(de) => r matches Err(e) && e == ApiError::Decode(de),
        },
{
    if !(200 <= status && status < 300) {
        return Err(ApiError::Status(status));
    }
    match deserialize_transactions(body) {
        Ok(ts) => Ok(ts),
        Err(e) => Err(ApiError::Decode(e)),
    }
}

/// Interprets a profile response; non-2xx is a status error.
pub fn profile_from_response(status: u16, body: &Json) -> (r: Result<Profile, ApiError>)
    ensures
        !spec_success(status) ==> (r matches Err(e) && e == ApiError::Status(status)),
        spec_success(status) ==> match Profile::spec_deserialize(*body) {
            Ok(p) => r matches Ok(q) && q == p,
            Err(de) => r matches Err(e) && e == ApiError::Decode(de),
        },
{
    if !(200 <= status && status < 300) {
        return Err(ApiError::Status(status));
    }
    match Profile::deserialize(body) {
        Ok(p) => Ok(p),
        Err(e) => Err(ApiError::Decode(e)),
    }
}

/// Interprets an order-list response; non-2xx is a status error.
pub fn orders_from_response(status: u16, body: &Json) -> (r: Result<Vec<Order>, ApiError>)
    ensures
        !spec_success(status) ==> (r matches Err(e) && e == ApiError::Status(status)),
        spec_success(status) ==> match spec_deserialize_orders(*body) {
            Ok(os) => r matches Ok(v) && v@ == os,
            Err(de) => r matches Err(e) && e == ApiError::Decode(de),
        },
{
    if !(200 <= status && status < 300) {
        return Err(ApiError::Status(status));
    }
    match deserialize_orders(body) {
        Ok(os) => Ok(os),
        Err(e) => Err(ApiError::Decode(e)),
    }
}

/// Interprets a single-bid response; non-2xx is a status error.
pub fn bid_from_response(status: u16, body: &Json) -> (r: Result<Bid, ApiError>)
    ensures
        !spec_success(status) ==> (r matches Err(e) && e == ApiError::Status(status)),
        spec_success(status) ==> match Bid::spec_deserialize(*body) {
            Ok(b) => r matches Ok(q) && q == b,
            Err(de) => r matches Err(e) && e == ApiError::Decode(de),
        },
{
    if !(200 <= status && status < 300) {
        return Err(ApiError::Status(status));
    }
    match Bid::deserialize(body) {
        Ok(b) => Ok(b),
        Err(e) => Err(ApiError::Decode(e)),
    }
}

/// Interprets a single-ask response; non-2xx is a status error.
pub fn ask_from_response(status: u16, body: &Json) -> (r: Result<Ask, ApiError>)
    ensures
        !spec_success(status) ==> (r matches Err(e) && e == ApiError::Status(status)),
        spec_success(status) ==> match Ask::spec_deserialize(*body) {
            Ok(a) => r matches Ok(q) && q == a,
            Err(de) => r matches Err(e) && e == ApiError::Decode(de),
        },
{
    if !(200 <= status && status < 300) {
        return Err(ApiError::Status(status));
    }
    match Ask::deserialize(body) {
        Ok(a) => Ok(a),
        Err(e) => Err(ApiError::Decode(e)),
    }
}

} // verus!
