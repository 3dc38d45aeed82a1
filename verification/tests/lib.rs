use bitex::{
    ask_from_response, bid_from_response, orderbook_from_response, orders_from_response,
    profile_from_response, transactions_from_response, Api, Decimal, Json, Method, Order,
};

fn num(s: &str) -> Json {
    Json::Num(Decimal::parse(s).expect("numeric literal"))
}

fn pair(a: &str, b: &str) -> Json {
    Json::Arr(vec![num(a), num(b)])
}

fn field(name: &str, v: Json) -> (String, Json) {
    (name.to_string(), v)
}

/// A 12-element order array with the given discriminator and issuer.
fn order_array(disc: &str, id: &str, issuer: Json) -> Json {
    Json::Arr(vec![
        num(disc),
        num(id),
        num("946685400"),
        num("10"),
        num("100"),
        num("80"),
        num("1000"),
        num("1"),
        num("0"),
        num("20"),
        issuer,
        num("0.05"),
    ])
}

#[test]
fn gets_orderbook() {
    let api = Api::new("https://sandbox.bitex.la");
    let req = api.orderbook();
    assert_eq!(req.method, Method::Get);
    assert_eq!(
        req.url,
        "https://sandbox.bitex.la/api-v1/rest/btc_usd/market/order_book"
    );
    assert!(req.params.is_empty());

    let body = Json::Obj(vec![
        field("bids", Json::Arr(vec![pair("500.0", "1"), pair("490.0", "2")])),
        field("asks", Json::Arr(vec![pair("510.0", "1"), pair("520.0", "2")])),
    ]);
    let ob = orderbook_from_response(200, &body).expect("decodes");
    assert_eq!(ob.bids.len(), 2);
    assert_eq!(ob.asks.len(), 2);
    assert_eq!(ob.bids[0], (Decimal::new(500, 0), Decimal::new(1, 0)));
    assert_eq!(ob.bids[1], (Decimal::new(490, 0), Decimal::new(2, 0)));
    assert_eq!(ob.asks[0], (Decimal::new(510, 0), Decimal::new(1, 0)));
    assert_eq!(ob.asks[1], (Decimal::new(520, 0), Decimal::new(2, 0)));
}

#[test]
fn gets_transactions() {
    let api = Api::new("https://sandbox.bitex.la");
    let req = api.transactions();
    assert_eq!(req.method, Method::Get);
    assert_eq!(
        req.url,
        "https://sandbox.bitex.la/api-v1/rest/btc_usd/market/transactions"
    );
    assert!(req.params.is_empty());

    let body = Json::Arr(vec![
        Json::Arr(vec![num("946685400"), num("1"), num("500.0"), num("2")]),
        Json::Arr(vec![num("946685460"), num("2"), num("100"), num("0.011")]),
    ]);
    let ts = transactions_from_response(200, &body).expect("decodes");
    assert_eq!(ts.len(), 2);
    assert_eq!(ts[0].timestamp, 946685400);
    assert_eq!(ts[0].id, 1);
    assert_eq!(ts[0].price, Decimal::new(500, 0));
    assert_eq!(ts[0].amount, Decimal::new(2, 0));
    assert_eq!(ts[1].amount, Decimal::new(11, 3));
}

#[test]
fn gets_profile() {
    let api = Api::new("https://sandbox.bitex.la").key("bogus");
    let req = api.profile();
    assert_eq!(req.method, Method::Get);
    assert_eq!(req.url, "https://sandbox.bitex.la/api-v1/rest/private/profile");
    assert_eq!(
        req.params,
        vec![("api_key".to_string(), "bogus".to_string())]
    );

    let body = Json::Obj(vec![
        field("usd_balance", num("10000.00")),
        field("usd_reserved", num("2000.00")),
        field("usd_available", num("8000.00")),
        field("btc_balance", num("20.00000000")),
        field("btc_reserved", num("5.00000000")),
        field("btc_available", num("15.00000000")),
        field("fee", num("100.0")),
        field("btc_deposit_address", Json::Str("1ABCD".to_string())),
        field("more_mt_deposit_code", Json::Str("BITEX0000000".to_string())),
    ]);
    let p = profile_from_response(200, &body).expect("decodes");
    assert_eq!(p.usd_balance, Decimal::new(10000, 0));
    assert_eq!(p.usd_reserved, Decimal::new(2000, 0));
    assert_eq!(p.usd_available, Decimal::new(8000, 0));
    assert_eq!(p.btc_balance, Decimal::new(20, 0));
    assert_eq!(p.btc_reserved, Decimal::new(5, 0));
    assert_eq!(p.btc_available, Decimal::new(15, 0));
    assert_eq!(p.fee, Decimal::new(100, 0));
    assert_eq!(p.btc_deposit_address, "1ABCD");
    assert_eq!(p.more_mt_deposit_code, "BITEX0000000");
}

#[test]
fn gets_orders() {
    let api = Api::new("https://sandbox.bitex.la").key("bogus");
    let req = api.orders();
    assert_eq!(req.method, Method::Get);
    assert_eq!(req.url, "https://sandbox.bitex.la/api-v1/rest/private/orders");
    assert_eq!(
        req.params,
        vec![("api_key".to_string(), "bogus".to_string())]
    );

    let body = Json::Arr(vec![
        order_array("1", "12345678", Json::Str("ApiKey#1".to_string())),
        order_array("2", "12345679", Json::Str("ApiKey#2".to_string())),
    ]);
    let os = orders_from_response(200, &body).expect("decodes");
    assert_eq!(os.len(), 2);
    match &os[0] {
        Order::Bid(b) => {
            assert_eq!(b.id, 12345678);
            assert_eq!(b.creation, 946685400);
            assert_eq!(b.orderbook, 10);
            assert_eq!(b.issuer, Some("ApiKey#1".to_string()));
        }
        other => panic!("expected a bid, got {:?}", other),
    }
    match &os[1] {
        Order::Ask(a) => {
            assert_eq!(a.id, 12345679);
            assert_eq!(a.issuer, Some("ApiKey#2".to_string()));
        }
        other => panic!("expected an ask, got {:?}", other),
    }
}

#[test]
fn places_a_bid() {
    let api = Api::new("https://sandbox.bitex.la").key("bogus");
    let req = api.bids().create(Decimal::new(100, 0), Decimal::new(10, 0));
    assert_eq!(req.method, Method::Post);
    assert_eq!(req.url, "https://sandbox.bitex.la/api-v1/rest/private/bids");
    assert_eq!(
        req.params,
        vec![
            ("api_key".to_string(), "bogus".to_string()),
            ("amount".to_string(), "100".to_string()),
            ("price".to_string(), "10".to_string()),
        ]
    );

    let body = order_array("1", "12345678", Json::Str("ApiKey#1".to_string()));
    let b = bid_from_response(200, &body).expect("decodes");
    assert_eq!(b.id, 12345678);
    assert_eq!(b.creation, 946685400);
    assert_eq!(b.price, Decimal::new(1000, 0));
}

#[test]
fn finds_a_bid() {
    let api = Api::new("https://sandbox.bitex.la").key("bogus");
    let req = api.bids().show(1);
    assert_eq!(req.method, Method::Get);
    assert_eq!(req.url, "https://sandbox.bitex.la/api-v1/rest/private/bids/1");
    assert_eq!(
        req.params,
        vec![("api_key".to_string(), "bogus".to_string())]
    );

    let body = order_array("1", "12345678", Json::Str("ApiKey#1".to_string()));
    let b = bid_from_response(200, &body).expect("decodes");
    assert_eq!(b.id, 12345678);
}

#[test]
fn cancels_a_bid() {
    let api = Api::new("https://sandbox.bitex.la").key("bogus");
    let req = api.bids().cancel(1);
    assert_eq!(req.method, Method::Post);
    assert_eq!(
        req.url,
        "https://sandbox.bitex.la/api-v1/rest/private/bids/1/cancel"
    );
    assert_eq!(
        req.params,
        vec![("api_key".to_string(), "bogus".to_string())]
    );

    let body = order_array("1", "12345678", Json::Str("ApiKey#1".to_string()));
    let b = bid_from_response(200, &body).expect("decodes");
    assert_eq!(b.id, 12345678);
}

#[test]
fn places_a_ask() {
    let api = Api::new("https://sandbox.bitex.la").key("bogus");
    let req = api.asks().create(Decimal::new(100, 0), Decimal::new(10, 0));
    assert_eq!(req.method, Method::Post);
    assert_eq!(req.url, "https://sandbox.bitex.la/api-v1/rest/private/asks");
    assert_eq!(
        req.params,
        vec![
            ("api_key".to_string(), "bogus".to_string()),
            ("amount".to_string(), "100".to_string()),
            ("price".to_string(), "10".to_string()),
        ]
    );

    let body = order_array("2", "12345678", Json::Str("ApiKey#1".to_string()));
    let a = ask_from_response(200, &body).expect("decodes");
    assert_eq!(a.id, 12345678);
    assert_eq!(a.creation, 946685400);
}

#[test]
fn finds_an_ask() {
    let api = Api::new("https://sandbox.bitex.la").key("bogus");
    let req = api.asks().show(1);
    assert_eq!(req.method, Method::Get);
    assert_eq!(req.url, "https://sandbox.bitex.la/api-v1/rest/private/asks/1");
    assert_eq!(
        req.params,
        vec![("api_key".to_string(), "bogus".to_string())]
    );

    let body = order_array("2", "12345678", Json::Str("ApiKey#1".to_string()));
    let a = ask_from_response(200, &body).expect("decodes");
    assert_eq!(a.id, 12345678);
}

#[test]
fn cancels_an_ask() {
    let api = Api::new("https://sandbox.bitex.la").key("bogus");
    let req = api.asks().cancel(1);
    assert_eq!(req.method, Method::Post);
    assert_eq!(
        req.url,
        "https://sandbox.bitex.la/api-v1/rest/private/asks/1/cancel"
    );
    assert_eq!(
        req.params,
        vec![("api_key".to_string(), "bogus".to_string())]
    );

    let body = order_array("2", "12345678", Json::Str("ApiKey#1".to_string()));
    let a = ask_from_response(200, &body).expect("decodes");
    assert_eq!(a.id, 12345678);
}
