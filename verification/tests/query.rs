use chrono::{Datelike, Timelike};
use tendermint_rpc::date::{Date, DateTime};
use tendermint_rpc::error::Code;
use tendermint_rpc::literal::FloatLiteral;
use tendermint_rpc::query::{escape, Condition, EventType, Operand, Query};

#[test]
fn empty_query() {
    let query = Query::default();
    assert_eq!("", query.to_string());
}

#[test]
fn simple_event_type() {
    let query = Query::from(EventType::NewBlock);
    assert_eq!("tm.event = 'NewBlock'", query.to_string());

    let query = Query::from(EventType::Tx);
    assert_eq!("tm.event = 'Tx'", query.to_string());
}

#[test]
fn simple_condition() {
    let query = Query::eq("key", "value".into());
    assert_eq!("key = 'value'", query.to_string());

    let query = Query::eq("key", 'v'.into());
    assert_eq!("key = 'v'", query.to_string());

    let query = Query::eq("key", "'value'".into());
    assert_eq!("key = '\\'value\\''", query.to_string());

    let query = Query::eq("key", "\\'value'".into());
    assert_eq!("key = '\\\\\\'value\\''", query.to_string());

    let query = Query::lt("key", 42_i64.into());
    assert_eq!("key < 42", query.to_string());

    let query = Query::lt("key", 42_u64.into());
    assert_eq!("key < 42", query.to_string());

    let query = Query::lte("key", 42_i64.into());
    assert_eq!("key <= 42", query.to_string());

    let query = Query::gt("key", 42_i64.into());
    assert_eq!("key > 42", query.to_string());

    let query = Query::gte("key", 42_i64.into());
    assert_eq!("key >= 42", query.to_string());

    let query = Query::eq("key", 42_u8.into());
    assert_eq!("key = 42", query.to_string());

    let query = Query::contains("key", "some-substring");
    assert_eq!("key CONTAINS 'some-substring'", query.to_string());

    let query = Query::exists_key("key");
    assert_eq!("key EXISTS", query.to_string());
}

#[test]
fn date_condition() {
    let day = chrono::NaiveDate::from_ymd_opt(2020, 9, 24).unwrap();
    let query = Query::eq(
        "some_date",
        Date::new(day.year(), day.month(), day.day()).unwrap().into(),
    );
    assert_eq!("some_date = DATE 2020-09-24", query.to_string());
}

#[test]
fn date_time_condition() {
    let moment = chrono::DateTime::parse_from_rfc3339("2020-09-24T10:17:23-04:00")
        .unwrap()
        .with_timezone(&chrono::Utc);
    let date = Date::new(moment.year(), moment.month(), moment.day()).unwrap();
    let date_time = DateTime::new(
        date,
        moment.hour(),
        moment.minute(),
        moment.second(),
        moment.nanosecond(),
    )
    .unwrap();
    let query = Query::eq("some_date_time", date_time.into());
    assert_eq!(
        "some_date_time = TIME 2020-09-24T14:17:23+00:00",
        query.to_string()
    );
}

#[test]
fn complex_query() {
    let query = Query::from(EventType::Tx).and_eq("tx.height", 3_i64.into());
    assert_eq!("tm.event = 'Tx' AND tx.height = 3", query.to_string());

    let query = Query::from(EventType::Tx)
        .and_lte("tx.height", 100_i64.into())
        .and_eq("transfer.sender", "AddrA".into());
    assert_eq!(
        "tm.event = 'Tx' AND tx.height <= 100 AND transfer.sender = 'AddrA'",
        query.to_string()
    );

    let query = Query::from(EventType::Tx)
        .and_lte("tx.height", 100_i64.into())
        .and_contains("meta.attr", "some-substring");
    assert_eq!(
        "tm.event = 'Tx' AND tx.height <= 100 AND meta.attr CONTAINS 'some-substring'",
        query.to_string()
    );
}

#[test]
fn rendering_twice_gives_the_same_text() {
    let build = || {
        Query::from(EventType::NewBlock)
            .and_gt("a", 1_u32.into())
            .and_exists("b")
            .and_contains("c", "d'e")
    };
    let first = build();
    let second = build();
    assert_eq!(first.to_string(), first.to_string());
    assert_eq!(first.to_string(), second.to_string());
    assert!(first.routing_equivalent(&second));
    assert!(!first.routing_equivalent(&Query::default()));
    assert_eq!(
        "tm.event = 'NewBlock' AND a > 1 AND b EXISTS AND c CONTAINS 'd\\'e'",
        first.to_string()
    );
}

#[test]
fn every_chaining_builder_appends() {
    let query = Query::exists_key("a")
        .and_eq("b", 1_i8.into())
        .and_lt("c", 2_i16.into())
        .and_lte("d", 3_i32.into())
        .and_gt("e", 4_u16.into())
        .and_gte("f", 5_usize.into())
        .and_contains("g", "h")
        .and_exists("i");
    assert_eq!(
        "a EXISTS AND b = 1 AND c < 2 AND d <= 3 AND e > 4 AND f >= 5 AND g CONTAINS 'h' AND i EXISTS",
        query.to_string()
    );
    assert_eq!(None, query.event_type());
    assert_eq!(Some(EventType::Tx), Query::from(EventType::Tx).event_type());
}

#[test]
fn conditions_without_event_type_are_joined() {
    let query = Query::gte("x", String::from("y").into()).and_lt("z", (-7_i64).into());
    assert_eq!("x >= 'y' AND z < -7", query.to_string());
}

#[test]
fn integers_render_in_decimal() {
    assert_eq!("0", Operand::from(0_u64).to_string());
    assert_eq!("18446744073709551615", Operand::from(u64::MAX).to_string());
    assert_eq!("-9223372036854775808", Operand::from(i64::MIN).to_string());
    assert_eq!("9223372036854775807", Operand::from(i64::MAX).to_string());
    assert_eq!("-1", Operand::from(-1_i32).to_string());
    assert_eq!("10", Operand::from(10_u8).to_string());
    assert_eq!("1000", Operand::from(1000_u32).to_string());
}

#[test]
fn float_operand_renders_its_literal() {
    let literal = FloatLiteral::new(&format!("{}", 1.5_f64)).unwrap();
    assert_eq!("1.5", literal.as_str());
    let query = Query::lt("price", literal.clone().into());
    assert_eq!("price < 1.5", query.to_string());
    assert_eq!("1.5", Operand::Float(literal).to_string());
}

#[test]
fn float_literals_are_recognised() {
    for good in [
        "0", "-0", "1.5", "-1.5", "100", "0.000001", "inf", "-inf", "NaN", "007.70",
        "340282350000000000000000000000000000000",
    ] {
        assert_eq!(Some(good), FloatLiteral::new(good).as_ref().map(|l| l.as_str()), "{}", good);
    }
    for bad in [
        "", "-", ".", "1.", ".5", "-.5", "1e5", "abc", "1.5'", "--1", "-NaN", "1.2.3", "+1", " 1",
        "1 ", "in", "infinity", "nan", "1.-5", "1,5", "\u{661}",
    ] {
        assert!(FloatLiteral::new(bad).is_none(), "{}", bad);
    }
    for value in [0.0_f64, -0.0, 1.0, 2.5e-7, 1e21, f64::MAX, f64::MIN_POSITIVE, f64::NAN, f64::INFINITY, f64::NEG_INFINITY] {
        assert!(FloatLiteral::new(&format!("{}", value)).is_some(), "{}", value);
    }
}

#[test]
fn escape_quotes_and_escapes() {
    assert_eq!("''", escape(""));
    assert_eq!("'abc'", escape("abc"));
    assert_eq!("'\\\\'", escape("\\"));
    assert_eq!("'\\''", escape("'"));
    assert_eq!("'a\\\\b\\'c'", escape("a\\b'c"));
    assert_eq!("'\u{e9}\\'\u{1f600}'", escape("\u{e9}'\u{1f600}"));
}

#[test]
fn condition_renders_alone() {
    let condition = Condition::Contains("k".to_string(), "it's".to_string());
    assert_eq!("k CONTAINS 'it\\'s'", condition.to_string());
    let condition = Condition::Gte("k".to_string(), Operand::Unsigned(7));
    assert_eq!("k >= 7", condition.to_string());
}

#[test]
fn event_type_parses_its_names_only() {
    assert_eq!(Ok(EventType::NewBlock), EventType::from_str("NewBlock"));
    assert_eq!(Ok(EventType::Tx), EventType::from_str("Tx"));
    assert_eq!("NewBlock", EventType::NewBlock.to_string());
    assert_eq!("Tx", EventType::Tx.name());
    for bad in ["", "tx", "NewBlock ", "Bogus"] {
        let error = EventType::from_str(bad).unwrap_err();
        assert_eq!(Code::InvalidParams, error.code());
        assert_eq!(format!("unrecognized event type: {}", bad), error.message());
    }
}

#[test]
fn event_type_parses_through_the_trait() {
    assert_eq!(Ok(EventType::Tx), "Tx".parse::<EventType>());
    assert_eq!(Ok(EventType::NewBlock), "NewBlock".parse::<EventType>());
    let error = "Bogus".parse::<EventType>().unwrap_err();
    assert_eq!(Code::InvalidParams, error.code());
    assert_eq!("unrecognized event type: Bogus", error.message());
}

#[test]
fn bogus_event_type_carries_the_literal() {
    let error = EventType::from_str("Bogus").unwrap_err();
    assert_eq!(Code::InvalidParams, error.code());
    assert!(error.message().ends_with("Bogus"));
    assert_eq!("unrecognized event type: Bogus", error.message());
}

#[test]
fn dates_that_do_not_exist_are_refused() {
    assert!(Date::new(2020, 2, 29).is_some());
    assert!(Date::new(2021, 2, 29).is_none());
    assert!(Date::new(1900, 2, 29).is_none());
    assert!(Date::new(2000, 2, 29).is_some());
    assert!(Date::new(2020, 0, 1).is_none());
    assert!(Date::new(2020, 13, 1).is_none());
    assert!(Date::new(2020, 4, 31).is_none());
    assert!(Date::new(2020, 1, 0).is_none());
    assert!(Date::new(-1, 1, 1).is_none());
    assert!(Date::new(10000, 1, 1).is_none());
    assert!(Date::new(0, 1, 1).is_some());
    assert!(Date::new(9999, 12, 31).is_some());
    let date = Date::new(2020, 9, 24).unwrap();
    assert_eq!((2020, 9, 24), (date.year(), date.month(), date.day()));
    assert!(DateTime::new(date, 24, 0, 0, 0).is_none());
    assert!(DateTime::new(date, 0, 60, 0, 0).is_none());
    assert!(DateTime::new(date, 0, 0, 60, 0).is_none());
    assert!(DateTime::new(date, 0, 0, 0, 1_000_000_000).is_none());
    assert!(DateTime::new(date, 23, 59, 59, 999_999_999).is_some());
}

#[test]
fn dates_are_zero_padded() {
    assert_eq!("0007-01-02", Date::new(7, 1, 2).unwrap().to_string());
    assert_eq!("0000-01-01", Date::new(0, 1, 1).unwrap().to_string());
    assert_eq!("9999-12-31", Date::new(9999, 12, 31).unwrap().to_string());
    assert_eq!("0999-10-30", Date::new(999, 10, 30).unwrap().to_string());
}

#[test]
fn fractions_of_a_second_take_the_fewest_groups() {
    let date = Date::new(2021, 3, 4).unwrap();
    let at = |nanos: u32| DateTime::new(date, 5, 6, 7, nanos).unwrap().to_string();
    assert_eq!("2021-03-04T05:06:07+00:00", at(0));
    assert_eq!("2021-03-04T05:06:07.500+00:00", at(500_000_000));
    assert_eq!("2021-03-04T05:06:07.001+00:00", at(1_000_000));
    assert_eq!("2021-03-04T05:06:07.000001+00:00", at(1_000));
    assert_eq!("2021-03-04T05:06:07.123456+00:00", at(123_456_000));
    assert_eq!("2021-03-04T05:06:07.000000001+00:00", at(1));
    assert_eq!("2021-03-04T05:06:07.999999999+00:00", at(999_999_999));
    let early = DateTime::new(Date::new(1, 1, 1).unwrap(), 0, 0, 0, 0).unwrap();
    assert_eq!("0001-01-01T00:00:00+00:00", early.to_string());
    let query = Query::gt("t", Operand::DateTime(early));
    assert_eq!("t > TIME 0001-01-01T00:00:00+00:00", query.to_string());
}
