use bitex::{
    bid_from_response, orderbook_from_response, orders_from_response, Api, ApiError, Ask, Bid,
    Decimal, DecodeError, Json, Order, OrderBook, OrderKind, Profile, Transaction,
};

fn num(s: &str) -> Json {
    Json::Num(Decimal::parse(s).expect("numeric literal"))
}

/// A 12-element order array with the given discriminator.
fn order_array(disc: &str) -> Json {
    Json::Arr(vec![
        num(disc),
        num("7"),
        num("946685400"),
        num("10"),
        num("100"),
        num("80"),
        num("1000"),
        num("1"),
        num("0"),
        num("20"),
        Json::Str("ApiKey#1".to_string()),
        num("0.05"),
    ])
}

#[test]
fn decimal_round_trip_exact() {
    // Decoding 0.011 and scaling by 10^8 gives exactly 1_100_000.
    let d = Decimal::parse("0.011").expect("parses");
    assert_eq!(d.scaled(8), Some(1_100_000));
    assert_eq!(d.to_string(), "0.011");
    assert_eq!(d, Decimal::new(11, 3));
}

#[test]
fn decimal_parse_canonicalises() {
    assert_eq!(Decimal::parse("500.0").unwrap(), Decimal::new(500, 0));
    assert_eq!(Decimal::parse("500.0").unwrap().to_string(), "500");
    assert_eq!(Decimal::parse("0.0110500").unwrap().to_string(), "0.01105");
    assert_eq!(Decimal::parse("-1.50").unwrap(), Decimal::new(-15, 1));
    assert_eq!(Decimal::parse("-1.50").unwrap().to_string(), "-1.5");
    assert_eq!(Decimal::parse("0.000").unwrap(), Decimal::new(0, 0));
    assert_eq!(Decimal::parse("0.000").unwrap().to_string(), "0");
}

#[test]
fn decimal_parse_rejects_bad_text() {
    assert_eq!(Decimal::parse(""), None);
    assert_eq!(Decimal::parse("-"), None);
    assert_eq!(Decimal::parse("."), None);
    assert_eq!(Decimal::parse("5."), None);
    assert_eq!(Decimal::parse(".5"), None);
    assert_eq!(Decimal::parse("1e5"), None);
    assert_eq!(Decimal::parse("1.2.3"), None);
    assert_eq!(Decimal::parse("12a"), None);
    assert_eq!(Decimal::parse("--5"), None);
    // More digits than the 64-bit mantissa carries.
    assert_eq!(Decimal::parse("99999999999999999999"), None);
    // More than 18 fraction digits.
    assert_eq!(Decimal::parse("0.0000000000000000001"), None);
}

#[test]
fn decimal_scaled_edges() {
    let d = Decimal::parse("0.011").unwrap();
    // Scaling below the stored precision is refused.
    assert_eq!(d.scaled(2), None);
    assert_eq!(d.scaled(3), Some(11));
    // A huge target power overflows.
    assert_eq!(Decimal::new(5, 0).scaled(30), None);
    assert_eq!(Decimal::new(0, 0).scaled(30), Some(0));
    assert_eq!(Decimal::new(-15, 1).scaled(2), Some(-150));
}

#[test]
fn decimal_format_parse_round_trip() {
    // Formatting then parsing is the identity on canonical decimals.
    let texts = vec![
        "0",
        "5",
        "-5",
        "0.011",
        "500",
        "-1.5",
        "9223372036854775807",
        "0.000000000000000001",
        "123456.789",
    ];
    for s in texts {
        let d = Decimal::parse(s).expect("parses");
        assert_eq!(Decimal::parse(&d.to_string()), Some(d));
    }
}

#[test]
fn int_string_renders_sign() {
    assert_eq!(bitex::decimal::int_string(0), "0");
    assert_eq!(bitex::decimal::int_string(-12), "-12");
    assert_eq!(bitex::decimal::int_string(946685400), "946685400");
}

#[test]
fn bid_decodes_and_ask_rejects_it() {
    // The same 12-element array with discriminator 1: a bid, not an ask.
    let v = order_array("1");
    let b = Bid::deserialize(&v).expect("a bid decodes");
    assert_eq!(b.id, 7);
    assert_eq!(b.creation, 946685400);
    assert_eq!(b.orderbook, 10);
    assert_eq!(b.amount_to_spend, Decimal::new(100, 0));
    assert_eq!(b.remaining_amount, Decimal::new(80, 0));
    assert_eq!(b.price, Decimal::new(1000, 0));
    assert_eq!(b.status, 1);
    assert_eq!(b.cancelation_reason, 0);
    assert_eq!(b.produced_amount, Decimal::new(20, 0));
    assert_eq!(b.issuer, Some("ApiKey#1".to_string()));
    assert_eq!(b.fees_paid, Decimal::new(5, 2));
    assert_eq!(
        Ask::deserialize(&v),
        Err(DecodeError::UnexpectedDiscriminator)
    );
}

#[test]
fn decimal_positions_accept_string_literals() {
    // A decimal field may arrive as a JSON string; it parses exactly.
    let v = Json::Arr(vec![
        num("946685400"),
        num("1"),
        Json::Str("500.0".to_string()),
        Json::Str("0.011".to_string()),
    ]);
    let t = Transaction::deserialize(&v).expect("decodes");
    assert_eq!(t.price, Decimal::new(500, 0));
    assert_eq!(t.amount, Decimal::new(11, 3));
    // A string that is no decimal literal is still a type error.
    let bad = Json::Arr(vec![
        num("946685400"),
        num("1"),
        Json::Str("half".to_string()),
        num("1"),
    ]);
    assert_eq!(
        Transaction::deserialize(&bad),
        Err(DecodeError::ExpectedNumber)
    );
}

#[test]
fn mixed_orders_keep_input_order() {
    let v = Json::Arr(vec![order_array("1"), order_array("2")]);
    let os = bitex::deserialize_orders(&v).expect("decodes");
    assert_eq!(os.len(), 2);
    assert!(matches!(os[0], Order::Bid(_)));
    assert!(matches!(os[1], Order::Ask(_)));
}

#[test]
fn unknown_discriminator_is_an_error() {
    let v = Json::Arr(vec![order_array("3")]);
    assert_eq!(
        bitex::deserialize_orders(&v),
        Err(DecodeError::UnexpectedDiscriminator)
    );
}

#[test]
fn null_issuer_decodes_as_none() {
    let v = Json::Arr(vec![
        num("1"),
        num("7"),
        num("946685400"),
        num("10"),
        num("100"),
        num("80"),
        num("1000"),
        num("1"),
        num("0"),
        num("20"),
        Json::Null,
        num("0.05"),
    ]);
    let b = Bid::deserialize(&v).expect("decodes");
    assert_eq!(b.issuer, None);
}

#[test]
fn decode_error_variants() {
    // Not an array where one is needed.
    assert_eq!(
        Transaction::deserialize(&Json::Obj(vec![])),
        Err(DecodeError::ExpectedArray)
    );
    // Wrong arity.
    assert_eq!(
        Transaction::deserialize(&Json::Arr(vec![num("1"), num("2"), num("3")])),
        Err(DecodeError::WrongLength)
    );
    // A fractional number where an integer is expected.
    assert_eq!(
        Transaction::deserialize(&Json::Arr(vec![num("1.5"), num("2"), num("3"), num("4")])),
        Err(DecodeError::ExpectedInt)
    );
    // A string where a number is expected.
    assert_eq!(
        Transaction::deserialize(&Json::Arr(vec![
            num("1"),
            num("2"),
            Json::Str("x".to_string()),
            num("4"),
        ])),
        Err(DecodeError::ExpectedNumber)
    );
    // A number where the issuer string (or null) belongs.
    let es = vec![
        num("1"),
        num("7"),
        num("946685400"),
        num("10"),
        num("100"),
        num("80"),
        num("1000"),
        num("1"),
        num("0"),
        num("20"),
        num("9"),
        num("0.05"),
    ];
    assert_eq!(
        Bid::deserialize(&Json::Arr(es)),
        Err(DecodeError::ExpectedStringOrNull)
    );
    // Not an object where one is needed.
    assert_eq!(
        Profile::deserialize(&Json::Arr(vec![])),
        Err(DecodeError::ExpectedObject)
    );
    // A missing profile field.
    assert_eq!(
        Profile::deserialize(&Json::Obj(vec![(
            "usd_balance".to_string(),
            num("1"),
        )])),
        Err(DecodeError::MissingField)
    );
    // A numeric deposit address.
    let p = Json::Obj(vec![
        ("usd_balance".to_string(), num("1")),
        ("usd_reserved".to_string(), num("1")),
        ("usd_available".to_string(), num("0")),
        ("btc_balance".to_string(), num("1")),
        ("btc_reserved".to_string(), num("1")),
        ("btc_available".to_string(), num("0")),
        ("fee".to_string(), num("1")),
        ("btc_deposit_address".to_string(), num("5")),
        ("more_mt_deposit_code".to_string(), Json::Str("c".to_string())),
    ]);
    assert_eq!(Profile::deserialize(&p), Err(DecodeError::ExpectedString));
}

#[test]
fn orderbook_decode_needs_both_sides() {
    let body = Json::Obj(vec![(
        "bids".to_string(),
        Json::Arr(vec![]),
    )]);
    assert_eq!(
        OrderBook::deserialize(&body),
        Err(DecodeError::MissingField)
    );
}

#[test]
fn non_success_status_is_always_a_status_error() {
    // Even a perfectly decodable body is not decoded on a non-2xx status.
    let body = Json::Obj(vec![
        ("bids".to_string(), Json::Arr(vec![])),
        ("asks".to_string(), Json::Arr(vec![])),
    ]);
    assert_eq!(
        orderbook_from_response(404, &body),
        Err(ApiError::Status(404))
    );
    assert_eq!(
        orders_from_response(500, &Json::Arr(vec![])),
        Err(ApiError::Status(500))
    );
    assert_eq!(
        bid_from_response(301, &order_array("1")),
        Err(ApiError::Status(301))
    );
    // And a 2xx status with a bad body is a decode error.
    assert_eq!(
        bid_from_response(200, &Json::Null),
        Err(ApiError::Decode(DecodeError::ExpectedArray))
    );
}

#[test]
fn empty_key_still_sends_api_key_parameter() {
    // An authenticated call without a key set still carries an `api_key`
    // parameter, with an empty value.
    let api = Api::new("https://sandbox.bitex.la");
    let req = api.profile();
    assert_eq!(req.params, vec![("api_key".to_string(), "".to_string())]);
    let req2 = api.bids().cancel(4);
    assert_eq!(req2.params, vec![("api_key".to_string(), "".to_string())]);
}

#[test]
fn order_kinds_carry_tag_and_segment() {
    assert_eq!(OrderKind::Bid.discriminator(), 1);
    assert_eq!(OrderKind::Ask.discriminator(), 2);
    assert_eq!(OrderKind::Bid.segment(), "bids");
    assert_eq!(OrderKind::Ask.segment(), "asks");
}

#[test]
fn preset_base_urls_differ() {
    let p = Api::prod();
    let s = Api::sandbox();
    assert_eq!(p.url_base, "https://bitex.la");
    assert_eq!(s.url_base, "https://sandbox.bitex.la");
    assert_eq!(p.key, "");
    // The key builder leaves the base URL alone and the original untouched.
    let with_key = s.key("bogus");
    assert_eq!(with_key.url_base, "https://sandbox.bitex.la");
    assert_eq!(with_key.key, "bogus");
    assert_eq!(s.key, "");
}
