use bitget_types::de::{datetime_from_timestamp, datetime_from_timestamp_str, parse_from_str};
use bitget_types::scalar::{parse_decimal, parse_i64, parse_u32, parse_usize};
use bitget_types::{
    Candlestick, DataPush, Decimal, DecodeError, ErrorKind, Json, OrderBook, PushAction, Quote,
    Shape, SymbolType, Tick, Timestamp, Trade, TradeData, TradeSide,
};

fn tree(v: &serde_json::Value) -> Json {
    match v {
        serde_json::Value::Null => Json::Null,
        serde_json::Value::Bool(b) => Json::Bool(*b),
        serde_json::Value::Number(n) => Json::Number(n.to_string()),
        serde_json::Value::String(s) => Json::Str(s.clone()),
        serde_json::Value::Array(a) => Json::Array(a.iter().map(tree).collect()),
        serde_json::Value::Object(o) => {
            Json::Object(o.iter().map(|(k, v)| (k.clone(), tree(v))).collect())
        }
    }
}

fn parse(s: &str) -> Json {
    tree(&serde_json::from_str::<serde_json::Value>(s).unwrap())
}

fn float(d: Decimal) -> f64 {
    let v = d.mantissa as f64 / 10f64.powi(d.scale as i32);
    if d.negative {
        -v
    } else {
        v
    }
}

fn text(s: &str) -> Json {
    Json::Str(s.to_owned())
}

fn number(s: &str) -> Json {
    Json::Number(s.to_owned())
}

fn ts(n: i64) -> Timestamp {
    Timestamp { nanos: n }
}

#[test]
fn candlestick_test_deserialize_ws_push() {
    let s = r#"
        {
            "action": "snapshot",
            "arg": {
                "instType": "USDT-FUTURES",
                "channel": "candle1m",
                "instId": "BTCUSDT"
            },
            "data": [
                [
                    "1695685500000",
                    "27000",
                    "27000.5",
                    "27000",
                    "27000.5",
                    "0.057",
                    "1539.0155",
                    "1539.0155"
                ]
            ],
            "ts": 1695715462250
        }
    "#;
    let p = DataPush::<Candlestick>::decode(&parse(s)).unwrap();
    assert_eq!(p.action, PushAction::Snapshot);
    assert_eq!(p.arg.inst_type, "USDT-FUTURES");
    assert_eq!(p.arg.channel, "candle1m");
    assert_eq!(p.arg.inst_id, "BTCUSDT");
    assert_eq!(p.ts, ts(1695715462250));
    assert_eq!(p.data.len(), 1);
    let c = p.data[0];
    assert_eq!(c.start_time, ts(1695685500000));
    assert_eq!(float(c.open), 27000.0);
    assert_eq!(float(c.high), 27000.5);
    assert_eq!(float(c.low), 27000.0);
    assert_eq!(float(c.close), 27000.5);
    assert_eq!(float(c.volume_coin), 0.057);
    assert_eq!(float(c.volume_currency), 1539.0155);
}

#[test]
fn depth_test_deserialize_data_push() {
    let s = r#"
        {
            "action": "snapshot",
            "arg": {
                "instType": "USDT-FUTURES",
                "channel": "books5",
                "instId": "BTCUSDT"
            },
            "data": [
                {
                    "asks": [
                        ["27000.5", "8.760"],
                        ["27001.0", "0.400"]
                    ],
                    "bids": [
                        ["27000.0", "2.710"],
                        ["26999.5", "1.460"]
                    ],
                    "checksum": 0,
                    "ts": "1695716059516"
                }
            ],
            "ts": 1695716059516
        }
    "#;
    let p = DataPush::<OrderBook>::decode(&parse(s)).unwrap();
    assert_eq!(p.action, PushAction::Snapshot);
    assert_eq!(p.arg.inst_type, "USDT-FUTURES");
    assert_eq!(p.arg.channel, "books5");
    assert_eq!(p.arg.inst_id, "BTCUSDT");
    assert_eq!(p.ts, ts(1695716059516));
    assert_eq!(p.data.len(), 1);
    let b = &p.data[0];
    let levels = |q: &Vec<Quote>| q.iter().map(|q| (float(q.price), float(q.size))).collect::<Vec<_>>();
    assert_eq!(levels(&b.asks), vec![(27000.5, 8.760), (27001.0, 0.400)]);
    assert_eq!(levels(&b.bids), vec![(27000.0, 2.710), (26999.5, 1.460)]);
    assert_eq!(b.checksum, 0);
    assert_eq!(b.ts, ts(1695716059516));
}

#[test]
fn ticker_test_deserialize_ws_push() {
    let s = r#"
        {
          "action": "snapshot",
          "arg": {
            "instType": "USDT-FUTURES",
            "channel": "ticker",
            "instId": "BTCUSDT"
          },
          "data": [
            {
              "instId": "BTCUSDT",
              "lastPr": "27000.5",
              "bidPr": "27000",
              "askPr": "27000.5",
              "bidSz": "2.71",
              "askSz": "8.76",
              "open24h": "27000.5",
              "high24h": "30668.5",
              "low24h": "26999.0",
              "change24h": "-0.00002",
              "fundingRate": "0.000010",
              "nextFundingTime": "1695722400000",
              "markPrice": "27000.0",
              "indexPrice": "25702.4",
              "holdingAmount": "929.502",
              "baseVolume": "368.900",
              "quoteVolume": "10152429.961",
              "openUtc": "27000.5",
              "symbolType": 1,
              "symbol": "BTCUSDT",
              "deliveryPrice": "0",
              "ts": "1695715383021"
            }
          ],
          "ts": 1695715383039
        }
    "#;
    let p = DataPush::<Tick>::decode(&parse(s)).unwrap();
    assert_eq!(p.action, PushAction::Snapshot);
    assert_eq!(p.arg.inst_type, "USDT-FUTURES");
    assert_eq!(p.arg.channel, "ticker");
    assert_eq!(p.arg.inst_id, "BTCUSDT");
    assert_eq!(p.ts, ts(1695715383039));
    assert_eq!(p.data.len(), 1);
    let t = &p.data[0];
    assert_eq!(t.inst_id, "BTCUSDT");
    assert_eq!(float(t.last_price), 27000.5);
    assert_eq!(float(t.bid_price), 27000.0);
    assert_eq!(float(t.ask_price), 27000.5);
    assert_eq!(float(t.bid_size), 2.71);
    assert_eq!(float(t.ask_size), 8.76);
    assert_eq!(float(t.open_24h), 27000.5);
    assert_eq!(float(t.high_24h), 30668.5);
    assert_eq!(float(t.low_24h), 26999.0);
    assert_eq!(float(t.change_24h), -0.00002);
    assert_eq!(float(t.funding_rate), 0.000010);
    assert_eq!(t.next_funding_time, ts(1695722400000));
    assert_eq!(float(t.mark_price), 27000.0);
    assert_eq!(float(t.index_price), 25702.4);
    assert_eq!(float(t.holding_amount), 929.502);
    assert_eq!(float(t.base_volume), 368.900);
    assert_eq!(float(t.quote_volume), 10152429.961);
    assert_eq!(float(t.open_utc), 27000.5);
    assert_eq!(t.symbol_type, SymbolType::Perpetual);
    assert_eq!(t.symbol, "BTCUSDT");
    assert_eq!(float(t.delivery_price), 0.0);
    assert_eq!(t.timestamp, ts(1695715383021));
}

const TRADES: &str = r#"
    {
        "action": "snapshot",
        "arg": {
            "instType": "USDT-FUTURES",
            "channel": "trade",
            "instId": "BTCUSDT"
        },
        "data": [
            {
                "ts": "1695716760565",
                "price": "27000.5",
                "size": "0.001",
                "side": "buy",
                "tradeId": "1111111111"
            },
            {
                "ts": "1695716759514",
                "price": "27000.0",
                "size": "0.001",
                "side": "sell",
                "tradeId": "1111111111"
            }
        ],
        "ts": 1695716761589
    }
"#;

fn check_trades(data: &[Trade]) {
    assert_eq!(data.len(), 2);
    assert_eq!(data[0].ts, ts(1695716760565));
    assert_eq!(float(data[0].price), 27000.5);
    assert_eq!(float(data[0].size), 0.001);
    assert_eq!(data[0].side, TradeSide::Buy);
    assert_eq!(data[0].trade_id, 1111111111);
    assert_eq!(data[1].ts, ts(1695716759514));
    assert_eq!(float(data[1].price), 27000.0);
    assert_eq!(float(data[1].size), 0.001);
    assert_eq!(data[1].side, TradeSide::Sell);
    assert_eq!(data[1].trade_id, 1111111111);
}

#[test]
fn trade_test_deserialize_data_push() {
    let p = DataPush::<Trade>::decode(&parse(TRADES)).unwrap();
    assert_eq!(p.action, PushAction::Snapshot);
    assert_eq!(p.arg.inst_type, "USDT-FUTURES");
    assert_eq!(p.arg.channel, "trade");
    assert_eq!(p.arg.inst_id, "BTCUSDT");
    assert_eq!(p.ts, ts(1695716761589));
    check_trades(&p.data);
}

#[test]
fn test_deserialize() {
    let p = DataPush::<TradeData>::decode(&parse(TRADES)).unwrap();
    assert_eq!(p.action, PushAction::Snapshot);
    assert_eq!(p.arg.inst_type, "USDT-FUTURES");
    assert_eq!(p.arg.channel, "trade");
    assert_eq!(p.arg.inst_id, "BTCUSDT");
    assert_eq!(p.ts, ts(1695716761589));
    check_trades(&p.data);
}

#[test]
fn single_trade_push() {
    let s = r#"{"action":"snapshot","arg":{"instType":"USDT-FUTURES","channel":"trade","instId":"BTCUSDT"},"data":[{"ts":"1695716760565","price":"27000.5","size":"0.001","side":"buy","tradeId":"1111111111"}],"ts":1695716761589}"#;
    let p = DataPush::<Trade>::decode(&parse(s)).unwrap();
    assert_eq!(p.action, PushAction::Snapshot);
    assert_eq!(p.arg.channel, "trade");
    assert_eq!(p.data.len(), 1);
    assert_eq!(float(p.data[0].price), 27000.5);
    assert_eq!(float(p.data[0].size), 0.001);
    assert_eq!(p.data[0].side, TradeSide::Buy);
    assert_eq!(p.data[0].trade_id, 1111111111);
}

#[test]
fn one_bad_record_fails_the_push() {
    let s = r#"{"action":"update","arg":{"instType":"USDT-FUTURES","channel":"trade","instId":"BTCUSDT"},"data":[{"ts":"1","price":"1.5","size":"2","side":"buy","tradeId":"7"},{"ts":"2","price":"abc","size":"2","side":"sell","tradeId":"8"}],"ts":3}"#;
    let r = DataPush::<Trade>::decode(&parse(s));
    assert_eq!(r, Err(DecodeError::MalformedScalar { field: "price".to_owned(), raw: "abc".to_owned() }));
}

#[test]
fn empty_data_is_accepted() {
    let s = r#"{"action":"update","arg":{"instType":"a","channel":"b","instId":"c"},"data":[],"ts":-5}"#;
    let p = DataPush::<Trade>::decode(&parse(s)).unwrap();
    assert_eq!(p.action, PushAction::Update);
    assert!(p.data.is_empty());
    assert_eq!(p.ts, ts(-5));
}

#[test]
fn missing_data_is_a_shape_mismatch() {
    let s = r#"{"action":"update","arg":{"instType":"a","channel":"b","instId":"c"},"ts":1}"#;
    let e = DataPush::<Trade>::decode(&parse(s)).unwrap_err();
    assert_eq!(e, DecodeError::MissingField { name: "data".to_owned() });
    assert_eq!(e.kind(), ErrorKind::ShapeMismatch);
}

#[test]
fn envelope_must_be_an_object() {
    let e = DataPush::<Trade>::decode(&parse("[1, 2]")).unwrap_err();
    assert_eq!(e, DecodeError::WrongType { expected: Shape::Object });
    assert_eq!(e.kind(), ErrorKind::StructuralError);
}

#[test]
fn symbol_type_values() {
    assert_eq!(SymbolType::decode(&number("1")), Ok(SymbolType::Perpetual));
    assert_eq!(SymbolType::decode(&number("2")), Ok(SymbolType::Delivery));
    let e = SymbolType::decode(&number("3")).unwrap_err();
    assert_eq!(e, DecodeError::UnknownEnumValue { field: "symbolType".to_owned(), raw: "3".to_owned() });
    assert_eq!(e.kind(), ErrorKind::UnknownEnumValue);
    assert_eq!(
        SymbolType::decode(&number("4294967296")).unwrap_err().kind(),
        ErrorKind::MalformedScalar
    );
    assert_eq!(
        SymbolType::decode(&text("1")),
        Err(DecodeError::UnknownEnumValue { field: "symbolType".to_owned(), raw: "1".to_owned() })
    );
}

#[test]
fn push_action_is_lower_case() {
    assert_eq!(PushAction::decode(&text("snapshot")), Ok(PushAction::Snapshot));
    assert_eq!(PushAction::decode(&text("update")), Ok(PushAction::Update));
    assert_eq!(
        PushAction::decode(&text("Snapshot")),
        Err(DecodeError::UnknownEnumValue {
            field: "action".to_owned(),
            raw: "Snapshot".to_owned()
        })
    );
}

#[test]
fn trade_side_is_lower_case() {
    assert_eq!(TradeSide::decode(&text("buy")), Ok(TradeSide::Buy));
    assert_eq!(TradeSide::decode(&text("sell")), Ok(TradeSide::Sell));
    assert_eq!(TradeSide::decode(&text("Sell")).unwrap_err().kind(), ErrorKind::UnknownEnumValue);
}

#[test]
fn candlestick_of_seven_is_a_shape_mismatch() {
    let j = parse(r#"["1","2","3","4","5","6","7"]"#);
    let e = Candlestick::decode(&j).unwrap_err();
    assert_eq!(e, DecodeError::WrongLength { expected: 8, found: 7 });
    assert_eq!(e.kind(), ErrorKind::ShapeMismatch);
}

#[test]
fn candlestick_with_bad_number_is_malformed() {
    let j = parse(r#"["1","2","x","4","5","6","7","7"]"#);
    let e = Candlestick::decode(&j).unwrap_err();
    assert_eq!(e, DecodeError::MalformedScalar { field: "high".to_owned(), raw: "x".to_owned() });
    assert_eq!(e.kind(), ErrorKind::MalformedScalar);
}

#[test]
fn candlestick_checks_its_last_element() {
    let j = parse(r#"["1","2","3","4","5","6","7","y"]"#);
    assert_eq!(
        Candlestick::decode(&j),
        Err(DecodeError::MalformedScalar {
            field: "volumeCurrencyRepeated".to_owned(),
            raw: "y".to_owned()
        })
    );
}

#[test]
fn quote_needs_two_elements() {
    assert_eq!(
        Quote::decode(&parse(r#"["1"]"#)),
        Err(DecodeError::WrongLength { expected: 2, found: 1 })
    );
    let q = Quote::decode(&parse(r#"["27000.5","8.760"]"#)).unwrap();
    assert_eq!(q.price, Decimal { negative: false, mantissa: 270005, scale: 1 });
    assert_eq!(q.size, Decimal { negative: false, mantissa: 8760, scale: 3 });
}

#[test]
fn order_book_reports_its_first_failure() {
    let j = parse(r#"{"asks":[["1","2"]],"bids":[["1","2","3"]],"checksum":-1,"ts":"1"}"#);
    assert_eq!(
        OrderBook::decode(&j),
        Err(DecodeError::WrongLength { expected: 2, found: 3 })
    );
    let j = parse(r#"{"asks":[],"bids":[],"checksum":-1,"ts":"1"}"#);
    assert_eq!(OrderBook::decode(&j), Err(DecodeError::MalformedScalar {
            field: "checksum".to_owned(),
            raw: "-1".to_owned()
        }));
    let j = parse(r#"{"asks":[],"bids":[],"checksum":4294967295,"ts":"1"}"#);
    assert_eq!(OrderBook::decode(&j).unwrap().checksum, 4294967295);
}

#[test]
fn tick_reports_a_missing_member() {
    let j = parse(r#"{"instId":"BTCUSDT"}"#);
    assert_eq!(
        Tick::decode(&j),
        Err(DecodeError::MissingField { name: "lastPr".to_owned() })
    );
}

#[test]
fn extra_members_are_ignored() {
    let j = parse(r#"{"ts":"5","price":"1","size":"2","side":"sell","tradeId":"+9","extra":true}"#);
    let t = Trade::decode(&j).unwrap();
    assert_eq!(t.trade_id, 9);
    assert_eq!(t.ts, ts(5));
}

#[test]
fn string_and_integer_timestamps_agree() {
    for x in ["0", "1695716761589", "-42", "9223372036854775807", "-9223372036854775808"] {
        assert_eq!(datetime_from_timestamp(&number(x), "ts"), datetime_from_timestamp_str(&text(x), "ts"));
        assert_eq!(datetime_from_timestamp(&number(x), "ts").unwrap().nanos, x.parse::<i64>().unwrap());
    }
    assert_eq!(
        datetime_from_timestamp_str(&text("9223372036854775808"), "ts").unwrap_err().kind(),
        ErrorKind::MalformedScalar
    );
}

#[test]
fn integer_parsing_follows_std() {
    for s in ["0", "+7", "-7", "007", "9223372036854775807", "-9223372036854775808", "", "+", "-", "1a", " 1", "9223372036854775808"] {
        assert_eq!(parse_i64(s), s.parse::<i64>().ok(), "{s}");
    }
    for s in ["0", "+7", "-7", "-0", "18446744073709551615", "18446744073709551616", "", "x"] {
        assert_eq!(parse_usize(s), s.parse::<usize>().ok(), "{s}");
    }
    assert_eq!(parse_u32("-0"), Some(0));
    assert_eq!(parse_u32("4294967296"), None);
}

#[test]
fn decimal_parsing() {
    assert_eq!(parse_decimal("-0.00002"), Some(Decimal { negative: true, mantissa: 2, scale: 5 }));
    assert_eq!(parse_decimal("10152429.961"), Some(Decimal { negative: false, mantissa: 10152429961, scale: 3 }));
    assert_eq!(parse_decimal(".5"), Some(Decimal { negative: false, mantissa: 5, scale: 1 }));
    assert_eq!(parse_decimal("5."), Some(Decimal { negative: false, mantissa: 5, scale: 0 }));
    assert_eq!(parse_decimal("+3"), Some(Decimal { negative: false, mantissa: 3, scale: 0 }));
    for s in ["", ".", "-", "1.2.3", "abc", "NaN", "inf", "1 ", "1e", "e5", ".e1", "1e+", "1e1.5", "1e39"] {
        assert_eq!(parse_decimal(s), None, "{s}");
    }
    assert_eq!(
        parse_from_str(&text("27000.5"), "price").map(float),
        Ok(27000.5)
    );
    assert_eq!(
        parse_from_str(&number("1"), "price"),
        Err(DecodeError::MalformedScalar { field: "price".to_owned(), raw: "1".to_owned() })
    );
}

#[test]
fn decimals_round_trip_through_text() {
    let cases = [
        ("27000.5", "27000.5"),
        ("0.000010", "0.000010"),
        ("-0.00002", "-0.00002"),
        (".5", "0.5"),
        ("-.5", "-0.5"),
        ("5.", "5"),
        ("+3", "3"),
        ("0", "0"),
        ("10152429.961", "10152429.961"),
    ];
    for (wire, written) in cases {
        let d = parse_decimal(wire).unwrap();
        let t: String = d.to_chars().into_iter().collect();
        assert_eq!(t, written);
        assert_eq!(parse_decimal(&t), Some(d));
        assert_eq!(t.parse::<f64>().unwrap(), wire.parse::<f64>().unwrap());
    }
}

#[test]
fn decoded_trade_values_re_encode() {
    let p = DataPush::<Trade>::decode(&parse(TRADES)).unwrap();
    let price: String = p.data[0].price.to_chars().into_iter().collect();
    let size: String = p.data[1].size.to_chars().into_iter().collect();
    assert_eq!(price, "27000.5");
    assert_eq!(size, "0.001");
}

#[test]
fn decimals_take_an_exponent() {
    assert_eq!(parse_decimal("1e5"), Some(Decimal { negative: false, mantissa: 100000, scale: 0 }));
    assert_eq!(parse_decimal("2.5E-3"), Some(Decimal { negative: false, mantissa: 25, scale: 4 }));
    assert_eq!(parse_decimal("-1.5e+1"), Some(Decimal { negative: true, mantissa: 150, scale: 1 }));
    assert_eq!(parse_decimal("0e99999"), Some(Decimal { negative: false, mantissa: 0, scale: 0 }));
    for wire in ["1e5", "2.5E-3", "-1.5e+1", "7e-0", "12.75e2"] {
        let d = parse_decimal(wire).unwrap();
        assert_eq!(float(d), wire.parse::<f64>().unwrap(), "{wire}");
    }
    let q = Quote::decode(&parse(r#"["1e5","1"]"#)).unwrap();
    assert_eq!(float(q.price), 100000.0);
}

#[test]
fn decimals_compare_by_value() {
    let a = parse_decimal("27000").unwrap();
    let b = parse_decimal("27000.0").unwrap();
    let c = parse_decimal("2.7e4").unwrap();
    assert!(a.same_value(&b));
    assert!(b.same_value(&c));
    assert!(!a.same_value(&parse_decimal("27000.5").unwrap()));
    assert!(!a.same_value(&parse_decimal("-27000").unwrap()));
    assert!(parse_decimal("-0").unwrap().same_value(&parse_decimal("0.000").unwrap()));
}

#[test]
fn wrong_kinds_at_enum_fields_are_unknown_values() {
    for action in ["1", "null", "\"UPDATE\"", "\"\"", "\" snapshot\""] {
        let s = format!(
            r#"{{"action":{action},"arg":{{"instType":"a","channel":"b","instId":"c"}},"data":[],"ts":1}}"#
        );
        let e = DataPush::<Trade>::decode(&parse(&s)).unwrap_err();
        assert_eq!(e.kind(), ErrorKind::UnknownEnumValue, "{action}");
    }
    assert_eq!(
        TradeSide::decode(&Json::Null),
        Err(DecodeError::UnknownEnumValue { field: "side".to_owned(), raw: String::new() })
    );
}

#[test]
fn bare_number_trade_id_is_malformed() {
    let j = parse(r#"{"ts":"5","price":"1","size":"2","side":"sell","tradeId":1111111111}"#);
    assert_eq!(
        Trade::decode(&j),
        Err(DecodeError::MalformedScalar {
            field: "tradeId".to_owned(),
            raw: "1111111111".to_owned()
        })
    );
}

#[test]
fn unsigned_integers_round_trip_through_text() {
    for x in [0usize, 7, 1111111111, usize::MAX] {
        assert_eq!(parse_usize(&x.to_string()), Some(x));
    }
}
