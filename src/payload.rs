//! The wire representation of one submission: the ingestion URL with its
//! query string, and the record of one log line.
use vstd::prelude::*;
use vstd::string::StringExecFns;

use crate::query::{encode_query_value, query_encoded};

verus! {

/// The character of a decimal digit `d < 10`.
pub open spec fn digit_char(d: nat) -> char {
    if d == 0 {
        '0'
    } else if d == 1 {
        '1'
    } else if d == 2 {
        '2'
    } else if d == 3 {
        '3'
    } else if d == 4 {
        '4'
    } else if d == 5 {
        '5'
    } else if d == 6 {
        '6'
    } else if d == 7 {
        '7'
    } else if d == 8 {
        '8'
    } else {
        '9'
    }
}

/// The decimal form of `n`, most significant digit first, without leading
/// zeros (zero itself is `"0"`).
pub open spec fn decimal(n: nat) -> Seq<char>
    decreases n,
{
    if n < 10 {
        seq![digit_char(n)]
    } else {
        decimal(n / 10).push(digit_char(n % 10))
    }
}

pub(crate) fn digit_str(d: u128) -> (r: &'static str)
    requires
        d < 10,
    ensures
        r@ == seq![digit_char(d as nat)],
{
    if d == 0 {
        proof { reveal_strlit("0"); }
        "0"
    } else if d == 1 {
        proof { reveal_strlit("1"); }
        "1"
    } else if d == 2 {
        proof { reveal_strlit("2"); }
        "2"
    } else if d == 3 {
        proof { reveal_strlit("3"); }
        "3"
    } else if d == 4 {
        proof { reveal_strlit("4"); }
        "4"
    } else if d == 5 {
        proof { reveal_strlit("5"); }
        "5"
    } else if d == 6 {
        proof { reveal_strlit("6"); }
        "6"
    } else if d == 7 {
        proof { reveal_strlit("7"); }
        "7"
    } else if d == 8 {
        proof { reveal_strlit("8"); }
        "8"
    } else {
        proof { reveal_strlit("9"); }
        "9"
    }
}

/// Renders `n` in decimal, as the wire format writes the timestamp.
pub fn decimal_string(n: u128) -> (r: String)
    ensures
        r@ == decimal(n as nat),
    decreases n,
{
    if n < 10 {
        String::from_str(digit_str(n))
    } else {
        let mut s = decimal_string(n / 10);
        s.append(digit_str(n % 10));
        s
    }
}

/// The ingestion endpoint, before its query string.
pub const BASE_URL: &'static str = "https://logs.logdna.com/logs/ingest";

/// The URL one submission is posted to:
/// `BASE_URL?hostname=<hostname>&timestamp=<millis>&tags=<tags>`.
///
/// The host name and the tags are percent-encoded (see [`query_encoded`]),
/// so that a decoder of the query gets back exactly these three parameters
/// and their values, even when a value holds `&`, `=`, `#`, `%`, `+` or
/// spaces. Commas are kept, so a tag list `prod,api` reads `tags=prod,api`.
pub open spec fn ingest_url_of(hostname: Seq<char>, timestamp_millis: nat, tags: Seq<char>) -> Seq<char> {
    BASE_URL@ + "?hostname="@ + query_encoded(hostname) + "&timestamp="@ + decimal(timestamp_millis)
        + "&tags="@ + query_encoded(tags)
}

/// Builds the URL of [`ingest_url_of`].
pub fn ingest_url(hostname: &str, timestamp_millis: u128, tags: &str) -> (r: String)
    ensures
        r@ == ingest_url_of(hostname@, timestamp_millis as nat, tags@),
{
    let mut url = String::from_str(BASE_URL);
    url.append("?hostname=");
    let host = encode_query_value(hostname);
    url.append(host.as_str());
    url.append("&timestamp=");
    let digits = decimal_string(timestamp_millis);
    url.append(digits.as_str());
    url.append("&tags=");
    let tag_list = encode_query_value(tags);
    url.append(tag_list.as_str());
    url
}

/// One log line as the service receives it. On the wire it is a JSON object
/// whose four keys are the field names, each with a string value.
pub struct IngestLine {
    pub line: String,
    pub app: String,
    pub level: String,
    pub timestamp: String,
}

/// The body of one ingestion request: `{"lines": [ ... ]}`.
pub struct IngestRequest {
    pub lines: Vec<IngestLine>,
}

/// The body of a request holds exactly this one line, with the message, the
/// application name, the level and the timestamp in decimal.
pub open spec fn is_single_line(
    body: IngestRequest,
    message: Seq<char>,
    app: Seq<char>,
    level: Seq<char>,
    timestamp_millis: nat,
) -> bool {
    &&& body.lines@.len() == 1
    &&& body.lines@[0].line@ == message
    &&& body.lines@[0].app@ == app
    &&& body.lines@[0].level@ == level
    &&& body.lines@[0].timestamp@ == decimal(timestamp_millis)
}

/// Builds the body that carries one log line.
pub fn single_line_body(message: String, app: String, level: String, timestamp_millis: u128) -> (r:
    IngestRequest)
    ensures
        is_single_line(r, message@, app@, level@, timestamp_millis as nat),
{
    let timestamp = decimal_string(timestamp_millis);
    let line = IngestLine { line: message, app, level, timestamp };
    let mut lines: Vec<IngestLine> = Vec::new();
    lines.push(line);
    IngestRequest { lines }
}

} // verus!
