use monotone::aws::counter::{Counter, CounterRow, NextValue};
use monotone::aws::call::{Call, Event};
use monotone::aws::error::{ErrorKind, ServiceError};
use monotone::aws::item::{AttributeValue, Item};
use monotone::aws::json::{member, members, quoted, JsonField};
use monotone::aws::number::{parse_decimal, to_decimal, ParseIntError};
use monotone::aws::queue::{frame, Join, Leave, Queue, QueuePosition, QueueRow};
use monotone::aws::row::{after_put, key_of, put_failure, read_number, read_text, removed, PutVerdict};
use monotone::aws::{body_reports, AWSError};
use monotone::string::{chars_of, equal, less_than, s, starts_with};
use monotone::tags::Tags;
use monotone::Ticket;

fn tags_of(pairs: &[(&str, &str)]) -> Tags {
    let mut tags = Tags::new();
    for (key, value) in pairs {
        tags.insert(s(key), s(value));
    }
    tags
}

fn counter_item(kind: &str, id: &str, version: &str, value: &str) -> Item {
    let mut item = Item::new();
    item.insert(s("ID"), AttributeValue::string(s(id)));
    item.insert(s("Type"), AttributeValue::string(s(kind)));
    item.insert(s("Version"), AttributeValue::number(s(version)));
    item.insert(s("Value"), AttributeValue::number(s(value)));
    item
}

fn queue_item(version: &str, value: &str, items: Option<Vec<&str>>) -> Item {
    let mut item = counter_item("QUEUE", "q", version, value);
    if let Some(texts) = items {
        item.insert(s("Items"), AttributeValue::string_set(texts.into_iter().map(s).collect()));
    }
    item
}

#[test]
fn numbers_are_written_in_decimal() {
    assert_eq!(to_decimal(0), "0");
    assert_eq!(to_decimal(7), "7");
    assert_eq!(to_decimal(10), "10");
    assert_eq!(to_decimal(1905), "1905");
    assert_eq!(to_decimal(u64::MAX), "18446744073709551615");
}

#[test]
fn numbers_are_read_from_decimal() {
    assert_eq!(parse_decimal("0"), Ok(0));
    assert_eq!(parse_decimal("42"), Ok(42));
    assert_eq!(parse_decimal("+42"), Ok(42));
    assert_eq!(parse_decimal("0042"), Ok(42));
    assert_eq!(parse_decimal("18446744073709551615"), Ok(u64::MAX));
    assert_eq!(parse_decimal("18446744073709551616"), Err(ParseIntError::PosOverflow));
    assert_eq!(parse_decimal("99999999999999999999999"), Err(ParseIntError::PosOverflow));
    assert_eq!(parse_decimal(""), Err(ParseIntError::Empty));
    assert_eq!(parse_decimal("+"), Err(ParseIntError::InvalidDigit));
    assert_eq!(parse_decimal("-1"), Err(ParseIntError::InvalidDigit));
    assert_eq!(parse_decimal("1 "), Err(ParseIntError::InvalidDigit));
    assert_eq!(parse_decimal("1.0"), Err(ParseIntError::InvalidDigit));
    assert_eq!(parse_decimal("١"), Err(ParseIntError::InvalidDigit));
    for n in [0u64, 1, 9, 10, 99, 100, 12345678901234567890, u64::MAX] {
        assert_eq!(parse_decimal(&to_decimal(n)), Ok(n));
        assert_eq!(to_decimal(n), format!("{}", n));
    }
}

#[test]
fn a_written_number_agrees_with_the_standard_reading() {
    for text in ["0", "+0", "+", "", "007", "18446744073709551615", "18446744073709551616", "1a", "a1", "-0"] {
        assert_eq!(parse_decimal(text).ok(), text.parse::<u64>().ok());
    }
}

#[test]
fn tags_keep_their_keys_in_order() {
    let mut tags = Tags::new();
    assert_eq!(tags.len(), 0);
    assert_eq!(tags.insert(s("role"), s("x")), None);
    assert_eq!(tags.insert(s("host"), s("a")), None);
    assert_eq!(tags.insert(s("zone"), s("z")), None);
    assert_eq!(tags.insert(s("ho"), s("b")), None);
    assert_eq!(tags.insert(s("role"), s("y")), Some(s("x")));
    assert_eq!(tags.len(), 4);
    let keys: Vec<&str> = (0..tags.len()).map(|i| tags.key_at(i).as_str()).collect();
    let values: Vec<&str> = (0..tags.len()).map(|i| tags.value_at(i).as_str()).collect();
    assert_eq!(keys, vec!["ho", "host", "role", "zone"]);
    assert_eq!(values, vec!["b", "a", "y", "z"]);
    assert_eq!(tags.get("role"), Some(&s("y")));
    assert_eq!(tags.get("rol"), None);
    assert_eq!(tags.get(""), None);
    assert_eq!(tags.clone(), tags);

    let mut other = Tags::new();
    other.insert(s("zone"), s("z"));
    other.insert(s("role"), s("y"));
    other.insert(s("host"), s("a"));
    other.insert(s("ho"), s("b"));
    assert_eq!(other, tags);
}

#[test]
fn strings_compare_by_their_characters() {
    assert!(less_than("", "a"));
    assert!(!less_than("", ""));
    assert!(!less_than("a", ""));
    assert!(less_than("a", "b"));
    assert!(less_than("a", "ab"));
    assert!(!less_than("ab", "a"));
    assert!(less_than("ab", "b"));
    assert!(less_than("Z", "a"));
    assert!(less_than("z", "é"));
    assert!(!less_than("abc", "abc"));
    for (a, b) in [("", "a"), ("a", "b"), ("ab", "b"), ("z", "é"), ("é", "z"), ("x", "x")] {
        assert_eq!(less_than(a, b), a < b);
    }
    assert!(equal("héllo", "héllo"));
    assert!(!equal("hello", "hellp"));
    assert!(starts_with("The conditional request failed", "The conditional"));
    assert!(starts_with("abc", ""));
    assert!(starts_with("abc", "abc"));
    assert!(!starts_with("abc", "abcd"));
    assert!(!starts_with("abc", "b"));
    assert_eq!(chars_of("hé!"), vec!['h', 'é', '!']);
    assert_eq!(s("foo"), "foo");
}

#[test]
fn a_string_is_written_as_json() {
    assert_eq!(quoted("foo"), Ok(s("\"foo\"")));
    assert_eq!(quoted(""), Ok(s("\"\"")));
    assert_eq!(quoted("a\"b\\c\nd"), Ok(s("\"a\\\"b\\\\c\\nd\"")));
    assert_eq!(quoted("é\u{1}"), Ok(s("\"é\\u0001\"")));
}

#[test]
fn a_json_object_is_read_into_its_members() {
    let found = members(" { \"a\" : \"x\", \"n\": 18446744073709551615, \"m\": -1, \"f\": 1.5, \"t\": {\"k\": \"v\", \"j\": 1}, \"l\": [1], \"z\": null, \"b\": true } ")
        .expect("members");
    assert_eq!(member(&found, "a"), Some(&JsonField::Text(s("x"))));
    assert_eq!(member(&found, "n"), Some(&JsonField::Number(Some(u64::MAX))));
    assert_eq!(member(&found, "m"), Some(&JsonField::Number(None)));
    assert_eq!(member(&found, "f"), Some(&JsonField::Number(None)));
    assert_eq!(
        member(&found, "t"),
        Some(&JsonField::Object(vec![(s("j"), None), (s("k"), Some(s("v")))]))
    );
    assert_eq!(member(&found, "l"), Some(&JsonField::Other));
    assert_eq!(member(&found, "z"), Some(&JsonField::Other));
    assert_eq!(member(&found, "b"), Some(&JsonField::Other));
    assert_eq!(member(&found, "q"), None);
    assert_eq!(found.len(), 8);

    assert_eq!(members("{}"), Ok(vec![]));
    assert!(matches!(members("[]"), Err(ErrorKind::Json(_))));
    assert!(matches!(members("\"foo\""), Err(ErrorKind::Json(_))));
    assert!(matches!(members("{\"a\":1"), Err(ErrorKind::Json(_))));
    assert!(matches!(members("{\"a\":1} x"), Err(ErrorKind::Json(_))));
    assert!(matches!(members(""), Err(ErrorKind::Json(_))));
    assert!(matches!(members("foo"), Err(ErrorKind::Json(_))));
}

#[test]
fn a_participant_is_written_as_json() {
    let position = QueuePosition::new(s("foo"), 1, Tags::new());
    assert_eq!(position.to_string(), Ok(s("{\"process_id\":\"foo\",\"counter\":1,\"tags\":{}}")));

    let position = QueuePosition::new(s("b\"ar"), u64::MAX, tags_of(&[("role", "x"), ("host", "a\\b")]));
    assert_eq!(
        position.to_string(),
        Ok(s("{\"process_id\":\"b\\\"ar\",\"counter\":18446744073709551615,\"tags\":{\"host\":\"a\\\\b\",\"role\":\"x\"}}"))
    );
    let position = QueuePosition::new(s("p"), 0, tags_of(&[("k", "v")]));
    assert_eq!(position.to_string(), Ok(s("{\"process_id\":\"p\",\"counter\":0,\"tags\":{\"k\":\"v\"}}")));

    assert_eq!(
        frame("\"p\"", 12, &vec![(s("\"a\""), s("\"b\"")), (s("\"c\""), s("\"d\""))]),
        "{\"process_id\":\"p\",\"counter\":12,\"tags\":{\"a\":\"b\",\"c\":\"d\"}}"
    );
    assert_eq!(frame("x", 0, &vec![]), "{\"process_id\":x,\"counter\":0,\"tags\":{}}");

    let positions = vec![
        QueuePosition::new(s("foo"), 1, Tags::new()),
        QueuePosition::new(s("bar"), 2, tags_of(&[("a", "b")])),
    ];
    assert_eq!(
        QueuePosition::to_string_vec(&positions),
        Ok(vec![
            s("{\"process_id\":\"foo\",\"counter\":1,\"tags\":{}}"),
            s("{\"process_id\":\"bar\",\"counter\":2,\"tags\":{\"a\":\"b\"}}"),
        ])
    );
    assert_eq!(QueuePosition::to_string_vec(&vec![]), Ok(vec![]));
}

#[test]
fn a_participant_is_read_from_json() {
    assert_eq!(
        QueuePosition::from_str("{\"process_id\":\"foo\",\"counter\":1,\"tags\":{}}"),
        Ok(QueuePosition::new(s("foo"), 1, Tags::new()))
    );
    assert_eq!(
        QueuePosition::from_str(" {\"tags\": {\"role\": \"x\", \"host\": \"\\u0041\"}, \"counter\": 7, \"extra\": [1, 2], \"process_id\": \"b\\\"ar\"} "),
        Ok(QueuePosition::new(s("b\"ar"), 7, tags_of(&[("host", "A"), ("role", "x")])))
    );
    // A row that was written without tags is read with none.
    assert_eq!(
        QueuePosition::from_str("{\"process_id\":\"foo\",\"counter\":3}"),
        Ok(QueuePosition::new(s("foo"), 3, Tags::new()))
    );
    for text in [
        "",
        "[]",
        "{}",
        "{\"process_id\":\"foo\"}",
        "{\"counter\":1}",
        "{\"process_id\":1,\"counter\":1}",
        "{\"process_id\":\"foo\",\"counter\":\"1\"}",
        "{\"process_id\":\"foo\",\"counter\":-1}",
        "{\"process_id\":\"foo\",\"counter\":1.5}",
        "{\"process_id\":\"foo\",\"counter\":18446744073709551616}",
        "{\"process_id\":\"foo\",\"counter\":1,\"tags\":[]}",
        "{\"process_id\":\"foo\",\"counter\":1,\"tags\":null}",
        "{\"process_id\":\"foo\",\"counter\":1,\"tags\":{\"a\":1}}",
        "{\"process_id\":\"foo\",\"counter\":1,\"tags\":{\"a\":\"b\",\"c\":{}}}",
        "{\"process_id\":\"foo\",\"counter\":1,\"tags\":{}",
    ] {
        assert!(matches!(QueuePosition::from_str(text), Err(ErrorKind::Json(_))), "{}", text);
    }
    let found = members("{\"process_id\":\"foo\",\"counter\":2}").expect("members");
    assert_eq!(QueuePosition::from_members(&found), Ok(QueuePosition::new(s("foo"), 2, Tags::new())));
    assert!(matches!(QueuePosition::from_members(&vec![]), Err(ErrorKind::Json(_))));
}

#[test]
fn what_is_written_is_read_back() {
    for position in [
        QueuePosition::new(s("foo"), 1, Tags::new()),
        QueuePosition::new(s("a\"b\\c\n\u{1}é"), u64::MAX, tags_of(&[("k\"", "\\v"), ("", ""), ("é", "ü")])),
    ] {
        let text = position.to_string().expect("to_string");
        assert_eq!(QueuePosition::from_str(&text), Ok(position.clone()));
        assert_eq!(position.duplicate(), position);
    }
}

#[test]
fn participants_are_read_in_the_order_of_their_counters() {
    let texts = vec![
        s("{\"process_id\":\"c\",\"counter\":5,\"tags\":{}}"),
        s("{\"process_id\":\"a\",\"counter\":2,\"tags\":{}}"),
        s("{\"process_id\":\"d\",\"counter\":5,\"tags\":{}}"),
        s("{\"process_id\":\"b\",\"counter\":3,\"tags\":{\"k\":\"v\"}}"),
        s("{\"process_id\":\"e\",\"counter\":1,\"tags\":{}}"),
    ];
    assert_eq!(
        QueuePosition::from_vec(&texts),
        Ok(vec![
            QueuePosition::new(s("e"), 1, Tags::new()),
            QueuePosition::new(s("a"), 2, Tags::new()),
            QueuePosition::new(s("b"), 3, tags_of(&[("k", "v")])),
            QueuePosition::new(s("c"), 5, Tags::new()),
            QueuePosition::new(s("d"), 5, Tags::new()),
        ])
    );
    assert_eq!(QueuePosition::from_vec(&vec![]), Ok(vec![]));
    let broken = vec![s("{\"process_id\":\"c\",\"counter\":5,\"tags\":{}}"), s("{")];
    assert!(matches!(QueuePosition::from_vec(&broken), Err(ErrorKind::Json(_))));
}

#[test]
fn a_counter_row_is_read_from_an_item() {
    assert_eq!(
        Counter::decode(&counter_item("COUNTER", "c", "3", "2")),
        Ok(CounterRow { id: s("c"), version: 3, value: 2 })
    );
    assert_eq!(CounterRow::new(s("c")), CounterRow { id: s("c"), version: 0, value: 0 });
    assert_eq!(Counter::decode(&counter_item("QUEUE", "c", "3", "2")), Err(ErrorKind::UnrecognisedCounterType));
    assert_eq!(Counter::decode(&counter_item("counter", "c", "3", "2")), Err(ErrorKind::UnrecognisedCounterType));
    assert_eq!(Counter::decode(&Item::new()), Err(ErrorKind::MissingAttribute));
    assert_eq!(
        Counter::decode(&counter_item("COUNTER", "c", "x", "2")),
        Err(ErrorKind::ParseError(ParseIntError::InvalidDigit))
    );
    assert_eq!(
        Counter::decode(&counter_item("COUNTER", "c", "3", "")),
        Err(ErrorKind::ParseError(ParseIntError::Empty))
    );
    assert_eq!(
        Counter::decode(&counter_item("COUNTER", "c", "3", "18446744073709551616")),
        Err(ErrorKind::ParseError(ParseIntError::PosOverflow))
    );

    // The kind is looked at first, and an attribute that is not there before
    // one that cannot be read.
    let mut item = Item::new();
    item.insert(s("Type"), AttributeValue::string(s("QUEUE")));
    assert_eq!(Counter::decode(&item), Err(ErrorKind::UnrecognisedCounterType));
    let mut item = Item::new();
    item.insert(s("Type"), AttributeValue::number(s("1")));
    assert_eq!(Counter::decode(&item), Err(ErrorKind::MissingAttribute));
    let mut item = Item::new();
    item.insert(s("Type"), AttributeValue::string(s("COUNTER")));
    item.insert(s("ID"), AttributeValue::string(s("c")));
    item.insert(s("Version"), AttributeValue::number(s("x")));
    assert_eq!(Counter::decode(&item), Err(ErrorKind::MissingAttribute));
    item.insert(s("Value"), AttributeValue::string(s("1")));
    assert_eq!(Counter::decode(&item), Err(ErrorKind::ParseError(ParseIntError::InvalidDigit)));
    item.insert(s("Version"), AttributeValue::number(s("1")));
    assert_eq!(Counter::decode(&item), Err(ErrorKind::MissingAttribute));
    item.insert(s("ID"), AttributeValue::number(s("1")));
    item.insert(s("Version"), AttributeValue::number(s("x")));
    assert_eq!(Counter::decode(&item), Err(ErrorKind::MissingAttribute));
}

#[test]
fn a_counter_row_is_written_to_an_item() {
    let counter = Counter::new(s("Counters"), s("c"), 100);
    let put = counter.write(&CounterRow { id: s("other"), version: 3, value: 9 }).expect("write");
    assert_eq!(put.item, counter_item("COUNTER", "c", "4", "9"));
    assert_eq!(put.condition_expression, Some(s("Version = :version OR attribute_not_exists(Version)")));
    let mut values = Item::new();
    values.insert(s(":version"), AttributeValue::number(s("3")));
    assert_eq!(put.expression_attribute_values, Some(values));
    assert_eq!(put.table_name, "Counters");
    assert_eq!(Counter::decode(&put.item), Ok(CounterRow { id: s("c"), version: 4, value: 9 }));

    assert_eq!(
        counter.write(&CounterRow { id: s("c"), version: u64::MAX, value: 9 }),
        Err(ErrorKind::Overflow)
    );
    assert_eq!(counter.read(Ok(None)), Ok(None));
    assert_eq!(
        counter.read(Err(ServiceError::Other(s("down")))),
        Err(ErrorKind::GetItem(ServiceError::Other(s("down"))))
    );
    assert_eq!(
        counter.read(Ok(Some(counter_item("COUNTER", "c", "4", "9")))),
        Ok(Some(CounterRow { id: s("c"), version: 4, value: 9 }))
    );
    assert_eq!(counter.get_value(Ok(Some(counter_item("COUNTER", "c", "4", "9")))), Ok(9));
    assert_eq!(counter.get_value(Ok(None)), Ok(0));
    assert_eq!(counter.get_value(Ok(Some(Item::new()))), Err(ErrorKind::MissingAttribute));
}

#[test]
fn a_counter_at_the_end_of_its_range_overflows() {
    let counter = Counter::new(s("Counters"), s("c"), 100);
    let (state, call) = counter.next_value(
        NextValue::Reading,
        Event::Got(Ok(Some(counter_item("COUNTER", "c", "5", "18446744073709551615")))),
    );
    assert_eq!(state, NextValue::Done(Err(ErrorKind::Overflow)));
    assert_eq!(call, None);
    let (state, _) = counter.next_value(
        NextValue::Reading,
        Event::Got(Ok(Some(counter_item("COUNTER", "c", "18446744073709551615", "5")))),
    );
    assert_eq!(state, NextValue::Done(Err(ErrorKind::Overflow)));
    let (state, call) = counter.next_value(
        NextValue::Reading,
        Event::Got(Ok(Some(counter_item("COUNTER", "c", "18446744073709551614", "18446744073709551614")))),
    );
    assert_eq!(state, NextValue::Writing(u64::MAX));
    match call {
        Some(Call::PutItem(put)) => assert_eq!(
            put.item,
            counter_item("COUNTER", "c", "18446744073709551615", "18446744073709551615")
        ),
        _ => panic!("no write"),
    }

    let queue = Queue::new(s("Counters"), s("q"), 100);
    let (state, _) = queue.join_queue(
        "foo",
        &Tags::new(),
        Join::Reading,
        Event::Got(Ok(Some(queue_item("1", "18446744073709551615", None)))),
    );
    assert_eq!(state, Join::Done(Err(ErrorKind::Overflow)));
    let (state, _) = queue.join_queue(
        "foo",
        &Tags::new(),
        Join::Reading,
        Event::Got(Ok(Some(queue_item("18446744073709551615", "1", None)))),
    );
    assert_eq!(state, Join::Done(Err(ErrorKind::Overflow)));
    let full = queue_item(
        "18446744073709551615",
        "1",
        Some(vec!["{\"process_id\":\"foo\",\"counter\":1,\"tags\":{}}"]),
    );
    let (state, _) = queue.leave_queue("foo", Leave::Reading, Event::Got(Ok(Some(full.clone()))));
    assert_eq!(state, Leave::Done(Err(ErrorKind::Overflow)));
    // A process that is in the queue gets its ticket all the same.
    let (state, _) = queue.join_queue("foo", &Tags::new(), Join::Reading, Event::Got(Ok(Some(full))));
    assert_eq!(state, Join::Done(Ok((u64::MAX, Ticket::new(s("foo"), 1, 0, Tags::new())))));
}

#[test]
fn a_queue_row_is_read_from_an_item() {
    assert_eq!(
        Queue::decode(&queue_item("3", "2", None)),
        Ok(QueueRow { id: s("q"), version: 3, value: 2, items: vec![] })
    );
    assert_eq!(QueueRow::new(s("q")), QueueRow { id: s("q"), version: 0, value: 0, items: vec![] });
    let item = queue_item(
        "3",
        "2",
        Some(vec![
            "{\"process_id\":\"bar\",\"counter\":2,\"tags\":{\"a\":\"b\"}}",
            "{\"process_id\":\"foo\",\"counter\":1,\"tags\":{}}",
        ]),
    );
    let row = QueueRow {
        id: s("q"),
        version: 3,
        value: 2,
        items: vec![
            QueuePosition::new(s("foo"), 1, Tags::new()),
            QueuePosition::new(s("bar"), 2, tags_of(&[("a", "b")])),
        ],
    };
    assert_eq!(Queue::decode(&item), Ok(row.clone()));
    assert_eq!(row.find("foo"), Some(0));
    assert_eq!(row.find("bar"), Some(1));
    assert_eq!(row.find("baz"), None);
    assert_eq!(row.ticket(1), Ticket::new(s("bar"), 2, 1, tags_of(&[("a", "b")])));
    assert_eq!(
        row.tickets(),
        vec![Ticket::new(s("foo"), 1, 0, Tags::new()), Ticket::new(s("bar"), 2, 1, tags_of(&[("a", "b")]))]
    );

    assert_eq!(Queue::decode(&counter_item("COUNTER", "q", "3", "2")), Err(ErrorKind::UnrecognisedQueueType));
    assert_eq!(Queue::decode(&Item::new()), Err(ErrorKind::MissingAttribute));
    assert!(matches!(Queue::decode(&queue_item("3", "2", Some(vec!["{"]))), Err(ErrorKind::Json(_))));
    assert!(matches!(Queue::decode(&queue_item("x", "2", Some(vec!["{"]))), Err(ErrorKind::Json(_))));
    assert_eq!(
        Queue::decode(&queue_item("x", "2", None)),
        Err(ErrorKind::ParseError(ParseIntError::InvalidDigit))
    );
    let mut item = queue_item("3", "2", None);
    item.insert(s("Items"), AttributeValue::string(s("x")));
    assert_eq!(Queue::decode(&item), Err(ErrorKind::MissingAttribute));
}

#[test]
fn a_queue_row_is_written_to_an_item() {
    let queue = Queue::new(s("Counters"), s("q"), 100);
    let row = QueueRow {
        id: s("other"),
        version: 3,
        value: 2,
        items: vec![
            QueuePosition::new(s("foo"), 1, Tags::new()),
            QueuePosition::new(s("bar"), 2, tags_of(&[("a", "b")])),
        ],
    };
    let put = queue.write(&row).expect("write");
    assert_eq!(
        put.item,
        queue_item(
            "4",
            "2",
            Some(vec![
                "{\"process_id\":\"foo\",\"counter\":1,\"tags\":{}}",
                "{\"process_id\":\"bar\",\"counter\":2,\"tags\":{\"a\":\"b\"}}",
            ])
        )
    );
    assert_eq!(put.condition_expression, Some(s("Version = :version OR attribute_not_exists(Version)")));
    let mut values = Item::new();
    values.insert(s(":version"), AttributeValue::number(s("3")));
    assert_eq!(put.expression_attribute_values, Some(values));
    assert_eq!(put.table_name, "Counters");

    // A queue without participants is written without `Items`.
    let put = queue.write(&QueueRow { id: s("q"), version: 0, value: 7, items: vec![] }).expect("write");
    assert_eq!(put.item, queue_item("1", "7", None));
    assert_eq!(put.item.get("Items"), None);
    assert_eq!(
        queue.write(&QueueRow { id: s("q"), version: u64::MAX, value: 7, items: vec![] }),
        Err(ErrorKind::Overflow)
    );
    assert_eq!(
        queue.read(Err(ServiceError::Other(s("down")))),
        Err(ErrorKind::GetItem(ServiceError::Other(s("down"))))
    );
    assert_eq!(queue.read(Ok(None)), Ok(None));
    assert_eq!(queue.get_tickets(Ok(Some(Item::new()))), Err(ErrorKind::MissingAttribute));
    assert_eq!(queue.get_ticket("foo", Ok(Some(Item::new()))), Err(ErrorKind::MissingAttribute));
}

#[test]
fn items_hold_each_name_once() {
    let mut item = Item::new();
    assert_eq!(item.get("ID"), None);
    item.insert(s("ID"), AttributeValue::string(s("a")));
    item.insert(s("Version"), AttributeValue::number(s("1")));
    item.insert(s("ID"), AttributeValue::string(s("b")));
    assert_eq!(item.get("ID"), Some(&AttributeValue::string(s("b"))));
    assert_eq!(item.get("Version"), Some(&AttributeValue { s: None, n: Some(s("1")), ss: None }));
    assert_eq!(item.get("Value"), None);
    assert_eq!(item.clone(), item);
    assert_eq!(AttributeValue::string_set(vec![s("x")]).duplicate(), AttributeValue::string_set(vec![s("x")]));
    assert_eq!(
        item.into_attributes(),
        vec![(s("ID"), AttributeValue::string(s("b"))), (s("Version"), AttributeValue::number(s("1")))]
    );
    assert_eq!(key_of("c").get("ID"), Some(&AttributeValue::string(s("c"))));
    assert_eq!(read_text(&AttributeValue::string(s("c"))), Ok(s("c")));
    assert_eq!(read_text(&AttributeValue::number(s("1"))), Err(ErrorKind::MissingAttribute));
    assert_eq!(read_number(&AttributeValue::number(s("12"))), Ok(12));
    assert_eq!(read_number(&AttributeValue::string(s("12"))), Err(ErrorKind::MissingAttribute));
    assert_eq!(
        read_number(&AttributeValue::number(s("x"))),
        Err(ErrorKind::ParseError(ParseIntError::InvalidDigit))
    );
}

#[test]
fn the_table_reports_its_errors_in_json() {
    let body = "{\"__type\":\"com.amazonaws.dynamodb.v20120810#ConditionalCheckFailedException\",\"message\":\"The conditional request failed\"}";
    assert_eq!(
        AWSError::from_body(body),
        Some(AWSError {
            typ: s("com.amazonaws.dynamodb.v20120810#ConditionalCheckFailedException"),
            message: s("The conditional request failed"),
        })
    );
    assert_eq!(AWSError::from_body("{\"message\":\"x\"}"), None);
    assert_eq!(AWSError::from_body("{\"__type\":\"x\"}"), None);
    assert_eq!(AWSError::from_body("{\"__type\":1,\"message\":\"x\"}"), None);
    assert_eq!(AWSError::from_body("<html>"), None);
    assert_eq!(AWSError::from_members(&vec![]), None);
    assert!(AWSError { typ: s("t"), message: s("Table already exists: x") }.begins_with("Table already exists:"));
    assert!(body_reports(body, "The conditional request failed"));
    assert!(body_reports(body, "The conditional"));
    assert!(!body_reports(body, "the conditional request failed"));
    assert!(!body_reports("The conditional request failed", "The conditional request failed"));

    assert_eq!(put_failure(ServiceError::Unknown(s(body))), ErrorKind::ConditionalUpdateFailed);
    assert_eq!(
        put_failure(ServiceError::Other(s(body))),
        ErrorKind::PutItem(ServiceError::Other(s(body)))
    );
    assert_eq!(
        put_failure(ServiceError::Unknown(s("{\"__type\":\"x\",\"message\":\"no\"}"))),
        ErrorKind::PutItem(ServiceError::Unknown(s("{\"__type\":\"x\",\"message\":\"no\"}")))
    );
    assert_eq!(removed(Ok(())), Ok(()));
    assert_eq!(
        removed(Err(ServiceError::Other(s("down")))),
        Err(ErrorKind::DeleteItem(ServiceError::Other(s("down"))))
    );
    assert_eq!(after_put(Ok(()), 100, 100), PutVerdict::Written);
    assert_eq!(
        after_put(Err(ServiceError::Other(s("down"))), 100, 100),
        PutVerdict::Failed(ErrorKind::PutItem(ServiceError::Other(s("down"))))
    );
    for _ in 0..200 {
        match after_put(Err(ServiceError::Unknown(s(body))), 100, 7) {
            PutVerdict::Retry(millis) => assert!(100 <= millis && millis < 107),
            _ => panic!("no retry"),
        }
    }
}

#[test]
fn errors_say_what_went_wrong() {
    assert_eq!(ErrorKind::NoTableInfo.message(), "no table info returned");
    assert_eq!(ErrorKind::TableAlreadyExists(s("t")).message(), "table already exists: t");
    assert_eq!(ErrorKind::TableNotFound(s("t")).message(), "table not found: t");
    assert_eq!(ErrorKind::ConditionalUpdateFailed.message(), "conditional update failed");
    assert_eq!(ErrorKind::UnrecognisedCounterType.message(), "unrecognised counter type");
    assert_eq!(ErrorKind::UnrecognisedQueueType.message(), "unrecognised queue type");
    assert_eq!(ErrorKind::MissingAttribute.message(), "missing attribute");
    assert_eq!(ErrorKind::TicketNotFound(s("p")).message(), "ticket not found for process_id p");
    assert_eq!(ErrorKind::Overflow.message(), "the next value does not fit in 64 bits");
    assert_eq!(ErrorKind::UnexpectedEvent.message(), "the event does not answer the call");
    assert_eq!(ErrorKind::ParseError(ParseIntError::Empty).message(), "cannot parse integer from empty string");
    assert_eq!(ErrorKind::ParseError(ParseIntError::InvalidDigit).message(), "invalid digit found in string");
    assert_eq!(
        ErrorKind::ParseError(ParseIntError::PosOverflow).message(),
        "number too large to fit in target type"
    );
    assert_eq!(ErrorKind::Json(s("words")).message(), "words");
    assert_eq!(ErrorKind::GetItem(ServiceError::Other(s("a"))).message(), "a");
    assert_eq!(ErrorKind::PutItem(ServiceError::Unknown(s("b"))).message(), "b");
    assert_eq!(ErrorKind::DeleteItem(ServiceError::Other(s("c"))).message(), "c");
    assert_eq!(ErrorKind::DescribeTable(ServiceError::Other(s("d"))).message(), "d");
    assert_eq!(ErrorKind::CreateTable(ServiceError::Other(s("e"))).message(), "e");
    assert_eq!(ErrorKind::ListTables(ServiceError::Other(s("f"))).message(), "f");
    assert_eq!(ServiceError::Unknown(s("g")).message(), "g");
    match QueuePosition::from_str("{") {
        Err(error) => assert!(error.message().len() > 0),
        Ok(_) => panic!("no error"),
    }
}

#[test]
fn every_character_is_escaped_as_json_asks() {
    let mut all = String::new();
    let mut expected = String::from("\"");
    for code in (0u32..=0x7f).chain([0x80, 0xe9, 0x7ff, 0x2028, 0xffff, 0x1f600]) {
        let c = char::from_u32(code).expect("char");
        let one = match c {
            '"' => s("\\\""),
            '\\' => s("\\\\"),
            '\u{8}' => s("\\b"),
            '\t' => s("\\t"),
            '\n' => s("\\n"),
            '\u{c}' => s("\\f"),
            '\r' => s("\\r"),
            c if code < 0x20 => format!("\\u00{}{}", ["0", "1"][(code / 16) as usize], "0123456789abcdef".chars().nth((code % 16) as usize).expect("digit")),
            c => c.to_string(),
        };
        assert_eq!(quoted(&c.to_string()), Ok(format!("\"{}\"", one)), "{}", code);
        all.push(c);
        expected.push_str(&one);
    }
    expected.push('"');
    assert_eq!(quoted(&all), Ok(expected));
    assert_eq!(quoted("\u{1f}"), Ok(s("\"\\u001f\"")));
    assert_eq!(quoted("\u{7f}"), Ok(s("\"\u{7f}\"")));
    assert_eq!(quoted("/"), Ok(s("\"/\"")));
}

#[test]
fn every_participant_can_be_written() {
    let queue = Queue::new(s("Counters"), s("q"), 100);
    let odd = QueuePosition::new(s("\u{0}\"\\\u{1f}é"), 3, tags_of(&[("\n", "\t"), ("", "\u{8}\u{c}\r")]));
    assert_eq!(
        odd.to_string(),
        Ok(s("{\"process_id\":\"\\u0000\\\"\\\\\\u001fé\",\"counter\":3,\"tags\":{\"\":\"\\b\\f\\r\",\"\\n\":\"\\t\"}}"))
    );
    let row = QueueRow { id: s("q"), version: u64::MAX - 1, value: 3, items: vec![odd.clone()] };
    let put = queue.write(&row).expect("write");
    assert_eq!(
        Queue::decode(&put.item),
        Ok(QueueRow { id: s("q"), version: u64::MAX, value: 3, items: vec![odd] })
    );
}
