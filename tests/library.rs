use mailhog_rs::body::normalize_body;
use mailhog_rs::delivery::check_delivery;
use mailhog_rs::delivery::check_message;
use mailhog_rs::delivery::verify_delivery;
use mailhog_rs::delivery::DeliveryMismatch;
use mailhog_rs::delivery::Fixture;
use mailhog_rs::model::parse_timestamp;
use mailhog_rs::model::ClientError;
use mailhog_rs::model::EmailAddr;
use mailhog_rs::model::Message;
use mailhog_rs::model::MessageContent;
use mailhog_rs::model::MessageList;
use mailhog_rs::model::RawMessage;
use mailhog_rs::model::RawMessageList;
use mailhog_rs::model::Timestamp;
use mailhog_rs::order::sort_by_created;
use mailhog_rs::query::check_status;
use mailhog_rs::query::decimal;
use mailhog_rs::query::list_messages_request;
use mailhog_rs::query::search_request;
use mailhog_rs::query::ListMessagesParams;
use mailhog_rs::query::SearchKind;
use mailhog_rs::query::SearchParams;
use mailhog_rs::synth::make_rand_email_addr;
use mailhog_rs::synth::make_rand_message;
use mailhog_rs::synth::make_rand_messages;
use mailhog_rs::synth::MakeMessagesParams;

fn addr(text: &str) -> EmailAddr {
    let (mailbox, domain) = text.split_once('@').unwrap();
    EmailAddr {
        mailbox: mailbox.to_string(),
        domain: domain.to_string(),
        params: String::new(),
        relays: None,
    }
}

fn content(subject: &str, body: &str, size: usize) -> MessageContent {
    MessageContent {
        headers: vec![
            ("From".to_string(), vec!["someone".to_string()]),
            ("Subject".to_string(), vec![subject.to_string()]),
        ],
        body: body.to_string(),
        size,
        mime: None,
    }
}

fn message(id: &str, from: &str, to: &str, subject: &str, body: &str, secs: i64) -> Message {
    Message {
        id: id.to_string(),
        from: addr(from),
        to: vec![addr(to)],
        content: content(subject, body, body.len() + 40),
        created: Timestamp { secs, nanos: 0 },
    }
}

fn fixture(from: &str, to: &str, subject: &str, body: &str) -> Fixture {
    Fixture {
        to: to.to_string(),
        from: from.to_string(),
        subject: subject.to_string(),
        body: body.to_string(),
    }
}

fn page(items: Vec<Message>) -> MessageList {
    let n = items.len() as i64;
    MessageList { total: n, start: 0, count: n, items }
}

fn now() -> Timestamp {
    Timestamp { secs: 2_000_000_000, nanos: 0 }
}

fn pairs(q: &[(String, String)]) -> Vec<(&str, &str)> {
    q.iter().map(|(k, v)| (k.as_str(), v.as_str())).collect()
}

#[test]
fn decimal_renders_integers() {
    assert_eq!("0", decimal(0));
    assert_eq!("42", decimal(42));
    assert_eq!("-7", decimal(-7));
    assert_eq!("9223372036854775807", decimal(i64::MAX));
    assert_eq!("-9223372036854775808", decimal(i64::MIN));
}

#[test]
fn list_request_omits_absent_paging() {
    let r = list_messages_request("http://localhost:8025", ListMessagesParams { start: None, limit: None });
    assert_eq!("http://localhost:8025/api/v2/messages", r.url);
    assert!(r.query.is_empty());
}

#[test]
fn list_request_sends_explicit_zero_start() {
    let r = list_messages_request("http://h", ListMessagesParams { start: Some(0), limit: Some(50) });
    assert_eq!(vec![("start", "0"), ("limit", "50")], pairs(&r.query));
    let r = list_messages_request("http://h", ListMessagesParams { start: None, limit: Some(10) });
    assert_eq!(vec![("limit", "10")], pairs(&r.query));
}

#[test]
fn search_request_names_kind_and_query() {
    let p = SearchParams { kind: SearchKind::From, query: "a@b.com".to_string(), start: None, limit: None };
    let r = search_request("http://h:1", &p);
    assert_eq!("http://h:1/api/v2/search", r.url);
    assert_eq!(vec![("kind", "from"), ("query", "a@b.com")], pairs(&r.query));
    let p = SearchParams { kind: SearchKind::To, query: "x".to_string(), start: Some(30), limit: None };
    assert_eq!(vec![("kind", "to"), ("query", "x"), ("start", "30")], pairs(&search_request("", &p).query));
    let p = SearchParams { kind: SearchKind::Containing, query: "hi there".to_string(), start: Some(200), limit: Some(-1) };
    assert_eq!(
        vec![("kind", "containing"), ("query", "hi there"), ("start", "200"), ("limit", "-1")],
        pairs(&search_request("", &p).query)
    );
    assert_eq!("containing", SearchKind::Containing.token());
}

#[test]
fn status_outside_success_range_is_an_error() {
    assert_eq!(Ok(()), check_status(200));
    assert_eq!(Ok(()), check_status(299));
    assert_eq!(Err(ClientError::HttpStatus(404)), check_status(404));
    assert_eq!(Err(ClientError::HttpStatus(500)), check_status(500));
    assert_eq!(Err(ClientError::HttpStatus(302)), check_status(302));
    assert_eq!(Err(ClientError::HttpStatus(199)), check_status(199));
}

#[test]
fn timestamp_converts_offset_to_utc() {
    let t = parse_timestamp("2024-01-02T03:04:05.5+01:00").unwrap();
    assert_eq!(Timestamp { secs: 1_704_161_045, nanos: 500_000_000 }, t);
    let z = parse_timestamp("1970-01-01T00:00:00Z").unwrap();
    assert_eq!(Timestamp { secs: 0, nanos: 0 }, z);
}

#[test]
fn malformed_timestamp_is_rejected() {
    assert_eq!(Err(ClientError::MalformedResponse), parse_timestamp("yesterday"));
    assert_eq!(Err(ClientError::MalformedResponse), parse_timestamp(""));
}

fn raw(id: &str, created: &str) -> RawMessage {
    RawMessage {
        id: id.to_string(),
        from: addr("alice@y.com"),
        to: vec![addr("bob@x.com"), addr("carol@x.com")],
        content: MessageContent {
            headers: vec![("Subject".to_string(), vec!["hi".to_string()])],
            body: "hello world".to_string(),
            size: 123,
            mime: Some("text/plain".to_string()),
        },
        created: created.to_string(),
    }
}

#[test]
fn decode_keeps_every_field() {
    let list = MessageList::decode(RawMessageList {
        total: 7,
        start: 2,
        count: 2,
        items: vec![raw("one", "2021-06-01T10:00:00Z"), raw("two", "2021-06-01T12:00:00+02:00")],
    })
    .unwrap();
    assert_eq!((7, 2, 2), (list.total, list.start, list.count));
    assert_eq!(2, list.items.len());
    let r = raw("one", "");
    let m = &list.items[0];
    assert_eq!("one", m.id);
    assert_eq!(r.from, m.from);
    assert_eq!(r.to, m.to);
    assert_eq!(r.content, m.content);
    assert_eq!(Timestamp { secs: 1_622_541_600, nanos: 0 }, m.created);
    assert_eq!("two", list.items[1].id);
    assert_eq!(list.items[0].created, list.items[1].created);
    assert!(list.is_consistent());
}

#[test]
fn decode_fails_on_any_bad_timestamp() {
    let r = MessageList::decode(RawMessageList {
        total: 2,
        start: 0,
        count: 2,
        items: vec![raw("one", "2021-06-01T10:00:00Z"), raw("two", "noon")],
    });
    assert_eq!(Err(ClientError::MalformedResponse), r);
}

#[test]
fn empty_mailbox_decodes_to_empty_page() {
    let list = MessageList::decode(RawMessageList { total: 0, start: 0, count: 0, items: vec![] }).unwrap();
    assert_eq!((0, 0, 0), (list.total, list.start, list.count));
    assert!(list.items.is_empty());
    assert!(list.is_consistent());
    assert_eq!(Ok(()), check_delivery(&vec![], &list, &now()));
}

#[test]
fn inconsistent_page_is_reported() {
    let mut list = page(vec![message("1", "a@b.c", "d@e.f", "s", "b", 1)]);
    list.count = 2;
    assert!(!list.is_consistent());
    list.count = 1;
    list.total = 0;
    assert!(!list.is_consistent());
}

#[test]
fn soft_breaks_are_removed() {
    assert_eq!("hello world", normalize_body("hello=\r\n world"));
    assert_eq!("a=b", normalize_body("a=b"));
    assert_eq!("=", normalize_body("==\r\n"));
    assert_eq!("x=\ny", normalize_body("x=\ny"));
    assert_eq!("", normalize_body("=\r\n=\r\n"));
    assert_eq!("", normalize_body(""));
}

#[test]
fn wrapped_plain_body_comes_back_whole() {
    let body: String = (0..200).map(|i| char::from(b'a' + (i % 26) as u8)).collect();
    let chunks: Vec<String> = body.as_bytes().chunks(75).map(|c| String::from_utf8(c.to_vec()).unwrap()).collect();
    let wrapped = chunks.join("=\r\n");
    assert_ne!(body, wrapped);
    assert_eq!(body, normalize_body(&wrapped));
}

#[test]
fn address_renders_as_mailbox_at_domain() {
    let mut a = addr("alice@y.com");
    a.params = "SIZE=12".to_string();
    a.relays = Some("relay".to_string());
    assert_eq!("alice@y.com", a.to_text());
}

#[test]
fn header_lookup_is_case_sensitive() {
    let c = content("hi", "b", 1);
    assert_eq!(Some(&vec!["hi".to_string()]), c.header(&"Subject".to_string()));
    assert_eq!(None, c.header(&"subject".to_string()));
}

#[test]
fn sort_orders_by_creation_time_and_keeps_ties() {
    let mut items = vec![
        message("c", "a@b.c", "d@e.f", "s", "b", 30),
        message("a", "a@b.c", "d@e.f", "s", "b", 10),
        message("b1", "a@b.c", "d@e.f", "s", "b", 20),
        message("b2", "a@b.c", "d@e.f", "s", "b", 20),
    ];
    items[0].created.nanos = 5;
    sort_by_created(&mut items);
    let ids: Vec<&str> = items.iter().map(|m| m.id.as_str()).collect();
    assert_eq!(vec!["a", "b1", "b2", "c"], ids);
    assert!(items[0].created_before(&items[1]));
    assert!(!items[1].created_before(&items[2]));
}

#[test]
fn single_message_is_verified() {
    let sent = vec![fixture("alice@y.com", "bob@x.com", "hi", "hello world")];
    let mut got = message("1", "alice@y.com", "bob@x.com", "hi", "hello=\r\n world", 1_700_000_000);
    got.content.size = 12;
    let list = page(vec![got]);
    assert_eq!((1, 1, 0), (list.total, list.count, list.start));
    assert_eq!("alice@y.com", list.items[0].from.to_text());
    assert_eq!("bob@x.com", list.items[0].to[0].to_text());
    assert_eq!("hello world", normalize_body(&list.items[0].content.body));
    assert_eq!(Ok(()), check_delivery(&sent, &list, &now()));
}

#[test]
fn each_mismatch_is_caught() {
    let sent = fixture("alice@y.com", "bob@x.com", "hi", "hello world");
    let good = message("1", "alice@y.com", "bob@x.com", "hi", "hello world", 5);
    assert!(check_message(&sent, &good, &now()));

    let mut m = good.clone();
    m.from = addr("eve@y.com");
    assert!(!check_message(&sent, &m, &now()));
    let mut m = good.clone();
    m.to.push(addr("bob@x.com"));
    assert!(!check_message(&sent, &m, &now()));
    let mut m = good.clone();
    m.to = vec![addr("bob@z.com")];
    assert!(!check_message(&sent, &m, &now()));
    let mut m = good.clone();
    m.content.body = "hello=world".to_string();
    assert!(!check_message(&sent, &m, &now()));
    let mut m = good.clone();
    m.content.size = 11;
    assert!(!check_message(&sent, &m, &now()));
    let mut m = good.clone();
    m.created = now();
    assert!(!check_message(&sent, &m, &now()));
    let mut m = good.clone();
    m.content.headers[1].1.push("again".to_string());
    assert!(!check_message(&sent, &m, &now()));
    let mut m = good.clone();
    m.content.headers.remove(1);
    assert!(!check_message(&sent, &m, &now()));
    let mut m = good.clone();
    m.content.headers[1].1 = vec!["Hi".to_string()];
    assert!(!check_message(&sent, &m, &now()));
}

#[test]
fn counts_are_checked_before_items() {
    let sent = vec![fixture("a@b.c", "d@e.f", "s", "b")];
    let mut list = page(vec![message("1", "a@b.c", "d@e.f", "s", "b", 1)]);
    list.start = 1;
    assert_eq!(Err(DeliveryMismatch::Counts), check_delivery(&sent, &list, &now()));
    let list = page(vec![]);
    assert_eq!(Err(DeliveryMismatch::Counts), check_delivery(&sent, &list, &now()));
    let mut list = page(vec![message("1", "a@b.c", "d@e.f", "s", "b", 1)]);
    list.total = 3;
    assert_eq!(Err(DeliveryMismatch::Counts), check_delivery(&sent, &list, &now()));
}

#[test]
fn first_mismatching_item_is_named() {
    let sent = vec![
        fixture("a@b.c", "d@e.f", "s1", "b1"),
        fixture("a@b.c", "d@e.f", "s2", "b2"),
        fixture("a@b.c", "d@e.f", "s3", "b3"),
    ];
    let list = page(vec![
        message("1", "a@b.c", "d@e.f", "s1", "b1", 1),
        message("2", "a@b.c", "d@e.f", "s2", "other", 2),
        message("3", "a@b.c", "d@e.f", "wrong", "b3", 3),
    ]);
    assert_eq!(Err(DeliveryMismatch::Item(1)), check_delivery(&sent, &list, &now()));
}

#[test]
fn search_by_shared_recipient_verifies_all_five() {
    let to = "shared@x.com";
    let sent: Vec<Fixture> = (0..5)
        .map(|i| fixture(&format!("s{}@y.com", i), to, &format!("subject {}", i), &format!("body {}", i)))
        .collect();
    let order = [3usize, 0, 4, 1, 2];
    let mut list = page(
        order
            .iter()
            .map(|&i| message(&i.to_string(), &sent[i].from, to, &sent[i].subject, &sent[i].body, 100 + i as i64))
            .collect(),
    );
    assert_eq!((5, 5), (list.total, list.count));
    assert!(list.items.iter().all(|m| m.to[0].to_text() == to));
    assert_eq!(Ok(()), verify_delivery(&sent, &mut list, &now()));
    let ids: Vec<&str> = list.items.iter().map(|m| m.id.as_str()).collect();
    assert_eq!(vec!["0", "1", "2", "3", "4"], ids);
}

#[test]
fn sender_search_matches_only_that_sender() {
    let from = "only@y.com";
    let sent: Vec<Fixture> = (0..3).map(|i| fixture(from, &format!("r{}@x.com", i), "s", "b")).collect();
    let list = page((0..3).map(|i| message("m", from, &sent[i].to, "s", "b", i as i64)).collect());
    assert_eq!(Ok(()), check_delivery(&sent, &list, &now()));
    let mut wrong = page((0..3).map(|i| message("m", from, &sent[i].to, "s", "b", i as i64)).collect());
    wrong.items[2].from = addr("other@y.com");
    assert_eq!(Err(DeliveryMismatch::Item(2)), check_delivery(&sent, &wrong, &now()));
}

#[test]
fn unsorted_page_fails_positional_check_until_sorted() {
    let sent = vec![fixture("a@b.c", "d@e.f", "first", "one"), fixture("a@b.c", "d@e.f", "second", "two")];
    let mut list = page(vec![
        message("2", "a@b.c", "d@e.f", "second", "two", 9),
        message("1", "a@b.c", "d@e.f", "first", "one", 8),
    ]);
    assert_eq!(Err(DeliveryMismatch::Item(0)), check_delivery(&sent, &list, &now()));
    assert_eq!(Ok(()), verify_delivery(&sent, &mut list, &now()));
}

fn is_alnum(s: &str, n: usize) -> bool {
    s.len() == n && s.chars().all(|c| c.is_ascii_alphanumeric())
}

fn is_random_addr(s: &str, domain: Option<&str>) -> bool {
    let (mailbox, d) = s.split_once('@').unwrap();
    is_alnum(mailbox, 10)
        && match domain {
            Some(x) => d == x,
            None => d.ends_with(".com") && is_alnum(&d[..d.len() - 4], 10),
        }
}

#[test]
fn random_address_has_expected_shape() {
    assert!(is_random_addr(&make_rand_email_addr(None), None));
    assert!(is_random_addr(&make_rand_email_addr(Some("x.com".to_string())), Some("x.com")));
}

#[test]
fn pinned_fields_are_kept_and_others_drawn() {
    let params = MakeMessagesParams { to: Some("bob@x.com".to_string()), ..Default::default() };
    let out = make_rand_messages(5, &params);
    assert_eq!(5, out.len());
    for f in &out {
        assert_eq!("bob@x.com", f.to);
        assert!(is_random_addr(&f.from, None));
        assert!(is_alnum(&f.subject, 50));
        assert!(is_alnum(&f.body, 200));
    }
    let all = MakeMessagesParams {
        to: Some("t@x.com".to_string()),
        from: Some("f@y.com".to_string()),
        subject: Some("hi".to_string()),
        body: Some("hello world".to_string()),
    };
    assert_eq!(fixture("f@y.com", "t@x.com", "hi", "hello world"), make_rand_message(&all));
    assert!(make_rand_messages(0, &all).is_empty());
}
