use std::collections::BTreeMap;

use logdna_client::clock::{millis_since_epoch, now_millis};
use logdna_client::logger::{Logger, LoggerError, Submission};
use logdna_client::query::encode_query_value;
use logdna_client::payload::{decimal_string, ingest_url, single_line_body, IngestRequest, BASE_URL};

fn session(hostname: &str, tags: &str, app: &str) -> Logger {
    Logger::with_hostname(
        "key".to_string(),
        hostname.to_string(),
        tags.to_string(),
        app.to_string(),
    )
    .unwrap()
}

fn to_json(body: &IngestRequest) -> String {
    let lines: Vec<BTreeMap<&str, &str>> = body
        .lines
        .iter()
        .map(|l| {
            let mut m = BTreeMap::new();
            m.insert("line", l.line.as_str());
            m.insert("app", l.app.as_str());
            m.insert("level", l.level.as_str());
            m.insert("timestamp", l.timestamp.as_str());
            m
        })
        .collect();
    let mut root = BTreeMap::new();
    root.insert("lines", lines);
    serde_json::to_string(&root).unwrap()
}

#[test]
fn test_constructor() {
    let apikey = "key".to_string();
    let tags = "prod,api".to_string();
    Logger::new(apikey, tags, "test".to_string()).unwrap();
}

#[test]
fn constructor_keeps_values_and_has_hostname() {
    let logger = Logger::new("key".to_string(), "prod,api".to_string(), "test".to_string()).unwrap();
    assert!(!logger.hostname().is_empty());
    assert_eq!(logger.apikey(), "key");
    assert_eq!(logger.tags(), "prod,api");
    assert_eq!(logger.app(), "test");
}

#[test]
fn empty_hostname_is_refused() {
    let r = Logger::with_hostname(
        "key".to_string(),
        String::new(),
        "prod".to_string(),
        "svc".to_string(),
    );
    assert_eq!(r.err(), Some(LoggerError::HostnameEmpty));
}

#[test]
fn with_hostname_keeps_values() {
    let logger = session("h1", "prod,api", "svc");
    assert_eq!(logger.apikey(), "key");
    assert_eq!(logger.hostname(), "h1");
    assert_eq!(logger.tags(), "prod,api");
    assert_eq!(logger.app(), "svc");
}

#[test]
fn url_has_documented_form() {
    let url = ingest_url("h1", 1700000000000, "prod,api");
    assert_eq!(
        url,
        "https://logs.logdna.com/logs/ingest?hostname=h1&timestamp=1700000000000&tags=prod,api"
    );
    assert_eq!(url, format!("{}?hostname=h1&timestamp=1700000000000&tags=prod,api", BASE_URL));
}

#[test]
fn url_encodes_reserved_characters() {
    let url = ingest_url("my host", 0, "a&b");
    assert_eq!(
        url,
        "https://logs.logdna.com/logs/ingest?hostname=my%20host&timestamp=0&tags=a%26b"
    );
}

#[test]
fn encoder_keeps_unreserved_characters_and_commas() {
    assert_eq!(encode_query_value(""), "");
    assert_eq!(
        encode_query_value("AZaz09-._~,prod,api"),
        "AZaz09-._~,prod,api"
    );
}

#[test]
fn encoder_escapes_query_delimiters() {
    assert_eq!(encode_query_value("a=b#c%d+e f&g"), "a%3Db%23c%25d%2Be%20f%26g");
    assert_eq!(encode_query_value("/?:@"), "%2F%3F%3A%40");
}

#[test]
fn encoder_escapes_every_utf8_byte() {
    assert_eq!(encode_query_value("\u{e9}"), "%C3%A9");
    assert_eq!(encode_query_value("\u{20ac}"), "%E2%82%AC");
    assert_eq!(encode_query_value("h\u{1f600}"), "h%F0%9F%98%80");
    assert_eq!(encode_query_value("\u{7f}"), "%7F");
}

#[test]
fn body_holds_one_line() {
    let body = single_line_body("hello".to_string(), "svc".to_string(), "info".to_string(), 42);
    assert_eq!(body.lines.len(), 1);
    assert_eq!(body.lines[0].line, "hello");
    assert_eq!(body.lines[0].app, "svc");
    assert_eq!(body.lines[0].level, "info");
    assert_eq!(body.lines[0].timestamp, "42");
}

#[test]
fn json_body_is_exact() {
    let logger = session("h1", "prod", "svc");
    let t: u128 = 1700000000123;
    let s = logger.submission_at("hello".to_string(), "info".to_string(), t);
    assert_eq!(
        to_json(&s.body),
        "{\"lines\":[{\"app\":\"svc\",\"level\":\"info\",\"line\":\"hello\",\"timestamp\":\"1700000000123\"}]}"
    );
}

#[test]
fn submission_at_fills_every_field() {
    let logger = session("h1", "prod,api", "svc");
    let s: Submission = logger.submission_at("hello".to_string(), "info".to_string(), 1700000000000);
    assert_eq!(s.timestamp_millis, 1700000000000);
    assert_eq!(s.apikey, "key");
    assert_eq!(
        s.url,
        "https://logs.logdna.com/logs/ingest?hostname=h1&timestamp=1700000000000&tags=prod,api"
    );
    assert_eq!(s.body.lines.len(), 1);
    assert_eq!(s.body.lines[0].line, "hello");
    assert_eq!(s.body.lines[0].app, "svc");
    assert_eq!(s.body.lines[0].level, "info");
    assert_eq!(s.body.lines[0].timestamp, "1700000000000");
}

#[test]
fn submission_reads_the_clock() {
    let logger = session("h1", "prod", "svc");
    let s = logger.submission("test log".to_string(), "info".to_string()).unwrap();
    // 2023-11-14, well before any machine that runs this.
    assert!(s.timestamp_millis > 1_700_000_000_000);
    assert_eq!(s.body.lines[0].timestamp, s.timestamp_millis.to_string());
    assert_eq!(
        s.url,
        format!(
            "https://logs.logdna.com/logs/ingest?hostname=h1&timestamp={}&tags=prod",
            s.timestamp_millis
        )
    );
    assert_eq!(s.body.lines[0].line, "test log");
}

#[test]
fn later_submission_is_not_stamped_earlier() {
    let logger = session("h1", "prod", "svc");
    let a = logger.submission("first".to_string(), "info".to_string()).unwrap();
    let b = logger.submission("second".to_string(), "info".to_string()).unwrap();
    assert!(a.timestamp_millis <= b.timestamp_millis);
}

#[test]
fn many_submissions_keep_their_own_fields() {
    let logger = session("h1", "prod", "svc");
    let subs: Vec<Submission> = (0..100u128)
        .map(|i| logger.submission_at(format!("message {}", i), format!("level {}", i), i))
        .collect();
    for (i, s) in subs.iter().enumerate() {
        assert_eq!(s.body.lines.len(), 1);
        assert_eq!(s.body.lines[0].line, format!("message {}", i));
        assert_eq!(s.body.lines[0].level, format!("level {}", i));
        assert_eq!(s.body.lines[0].timestamp, i.to_string());
        assert_eq!(s.body.lines[0].app, "svc");
        assert_eq!(
            s.url,
            format!("https://logs.logdna.com/logs/ingest?hostname=h1&timestamp={}&tags=prod", i)
        );
    }
}

#[test]
fn decimal_string_values() {
    assert_eq!(decimal_string(0), "0");
    assert_eq!(decimal_string(7), "7");
    assert_eq!(decimal_string(10), "10");
    assert_eq!(decimal_string(1700000000000), "1700000000000");
    assert_eq!(decimal_string(u128::MAX), u128::MAX.to_string());
}

#[test]
fn millis_since_epoch_values() {
    assert_eq!(millis_since_epoch(0, 0), 0);
    assert_eq!(millis_since_epoch(1, 999_999_999), 1999);
    assert_eq!(millis_since_epoch(1700000000, 123_456_789), 1700000000123);
    assert_eq!(millis_since_epoch(u64::MAX, 999_999_999), u64::MAX as u128 * 1000 + 999);
}

#[test]
fn millis_keep_order_across_a_second() {
    assert!(millis_since_epoch(5, 999_999_999) <= millis_since_epoch(6, 0));
    assert_eq!(millis_since_epoch(5, 999_999_999), 5999);
    assert_eq!(millis_since_epoch(5, 1_000_000), millis_since_epoch(5, 1_999_999));
}

#[test]
fn now_millis_reads_the_epoch_clock() {
    let m = now_millis().unwrap();
    assert!(m > 1_700_000_000_000);
}

fn percent_decode(t: &str) -> String {
    let b = t.as_bytes();
    let mut out: Vec<u8> = Vec::new();
    let mut i: usize = 0;
    while i < b.len() {
        if b[i] == b'%' && i + 2 < b.len() {
            let hex = std::str::from_utf8(&b[i + 1..i + 3]).unwrap();
            out.push(u8::from_str_radix(hex, 16).unwrap());
            i += 3;
        } else {
            out.push(b[i]);
            i += 1;
        }
    }
    String::from_utf8(out).unwrap()
}

#[test]
fn encoded_values_decode_back() {
    for v in ["", "h1", "prod,api", "a&b=c#d", "100% sure+", "caf\u{e9} \u{1f600}"] {
        assert_eq!(percent_decode(&encode_query_value(v)), v);
    }
}

#[test]
fn url_query_splits_into_three_parameters() {
    let url = ingest_url("h=1&x", 1700000000000, "a&b,c#d");
    let query = url.split_once('?').unwrap().1;
    assert!(!query.contains('#'));
    let params: Vec<(String, String)> = query
        .split('&')
        .map(|p| {
            let (k, v) = p.split_once('=').unwrap();
            (k.to_string(), percent_decode(v))
        })
        .collect();
    assert_eq!(
        params,
        vec![
            ("hostname".to_string(), "h=1&x".to_string()),
            ("timestamp".to_string(), "1700000000000".to_string()),
            ("tags".to_string(), "a&b,c#d".to_string()),
        ]
    );
}
