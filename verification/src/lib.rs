//! Typed client library for the Bitex exchange REST API.

pub mod client;
pub mod decimal;
pub mod digits;
pub mod json;
pub mod records;

pub use client::{
    ask_from_response, bid_from_response, orderbook_from_response, orders_from_response,
    profile_from_response, transactions_from_response, Api, ApiError, AsksApi, BidsApi,
    HttpRequest, Method, OrderKind, PRODUCTION_URL_BASE, SANDBOX_URL_BASE,
};
pub use decimal::Decimal;
pub use json::{DecodeError, Json};
pub use records::{
    deserialize_orders, deserialize_transactions, Ask, Bid, Order, OrderBook, OrderTuple, Profile,
    Transaction,
};
