//! The session: the configuration that every submission of one process
//! shares, and the submissions built from it.
use vstd::prelude::*;

use crate::clock::{millis_of, now_millis};
use crate::payload::{decimal, ingest_url, ingest_url_of, is_single_line, single_line_body, IngestRequest};

verus! {

/// Why a session could not be created.
#[derive(Debug, Clone, Copy, PartialEq, Eq, Structural)]
pub enum LoggerError {
    /// The machine's host name is not valid Unicode text.
    HostnameNotText,
    /// The machine's host name is empty.
    HostnameEmpty,
}

/// Why a submission could not be built.
#[derive(Debug, Clone, Copy, PartialEq, Eq, Structural)]
pub enum SubmitError {
    /// The wall clock stands before the Unix epoch.
    ClockBeforeEpoch,
}

/// What a session holds, as values.
pub struct LoggerView {
    pub apikey: Seq<char>,
    pub hostname: Seq<char>,
    pub tags: Seq<char>,
    pub app: Seq<char>,
}

/// The session of one process: the API key, the host name read once at
/// construction, the tag set and the application name. It never changes
/// after construction, so any number of submissions can share it.
pub struct Logger {
    apikey: String,
    hostname: String,
    tags: String,
    app: String,
}

impl View for Logger {
    type V = LoggerView;

    closed spec fn view(&self) -> LoggerView {
        LoggerView {
            apikey: self.apikey@,
            hostname: self.hostname@,
            tags: self.tags@,
            app: self.app@,
        }
    }
}

/// Everything one log line needs on the wire: the URL to post to, the value
/// of the `apikey` header, the JSON body, and the timestamp it carries.
pub struct Submission {
    pub url: String,
    pub apikey: String,
    pub body: IngestRequest,
    pub timestamp_millis: u128,
}

/// `s` is the submission of `message` at `level` from `session`, stamped
/// `timestamp_millis`: every field comes from these arguments and from no
/// other call.
pub open spec fn is_submission_of(
    s: Submission,
    session: LoggerView,
    message: Seq<char>,
    level: Seq<char>,
    timestamp_millis: nat,
) -> bool {
    &&& s.timestamp_millis == timestamp_millis
    &&& s.url@ == ingest_url_of(session.hostname, timestamp_millis, session.tags)
    &&& s.apikey@ == session.apikey
    &&& is_single_line(s.body, message, session.app, level, timestamp_millis)
}

/// Submissions built from one session never mix: whatever two calls were
/// given, the line of each holds that call's own message, level and
/// timestamp, next to the session's application name, and each URL carries
/// that call's own timestamp.
pub proof fn lemma_submissions_independent(
    session: LoggerView,
    s1: Submission,
    message1: Seq<char>,
    level1: Seq<char>,
    timestamp1: nat,
    s2: Submission,
    message2: Seq<char>,
    level2: Seq<char>,
    timestamp2: nat,
)
    requires
        is_submission_of(s1, session, message1, level1, timestamp1),
        is_submission_of(s2, session, message2, level2, timestamp2),
    ensures
        s1.body.lines@[0].line@ == message1 && s2.body.lines@[0].line@ == message2,
        s1.body.lines@[0].level@ == level1 && s2.body.lines@[0].level@ == level2,
        s1.body.lines@[0].timestamp@ == decimal(timestamp1) && s2.body.lines@[0].timestamp@
            == decimal(timestamp2),
        s1.body.lines@[0].app@ == session.app && s2.body.lines@[0].app@ == session.app,
        s1.url@ == ingest_url_of(session.hostname, timestamp1, session.tags) && s2.url@
            == ingest_url_of(session.hostname, timestamp2, session.tags),
{
}

/// Relies on `gethostname::gethostname`, whose result is turned into a
/// `String` by `OsString::into_string`: `None` when the name is not valid
/// Unicode. The name is the machine's own, so nothing is known of it.
/// `gethostname` panics only when the `gethostname(2)` system call itself
/// fails, which its source treats as a case that does not occur.
#[verifier::external_body]
fn read_hostname() -> Option<String> {
    gethostname::gethostname().into_string().ok()
}

impl Logger {
    /// A session is usable when it has a host name to report.
    pub open spec fn wf(&self) -> bool {
        self@.hostname.len() > 0
    }

    /// Creates a session from its four values. Fails exactly when the host
    /// name is empty.
    pub fn with_hostname(apikey: String, hostname: String, tags: String, app: String) -> (r: Result<
        Logger,
        LoggerError,
    >)
        ensures
            hostname@.len() > 0 <==> r is Ok,
            r matches Ok(l) ==> l.wf() && l@ == (LoggerView {
                apikey: apikey@,
                hostname: hostname@,
                tags: tags@,
                app: app@,
            }),
            r matches Err(e) ==> e == LoggerError::HostnameEmpty,
    {
        if hostname.as_str().is_empty() {
            Err(LoggerError::HostnameEmpty)
        } else {
            Ok(Logger { apikey, hostname, tags, app })
        }
    }

    /// Creates a session, reading this machine's host name once. Fails when
    /// the host name is not text or is empty; `apikey`, `tags` and `app` are
    /// kept exactly as given.
    pub fn new(apikey: String, tags: String, app: String) -> (r: Result<Logger, LoggerError>)
        ensures
            r matches Ok(l) ==> l.wf() && l@.apikey == apikey@ && l@.tags == tags@ && l@.app
                == app@,
            r matches Err(e) ==> e == LoggerError::HostnameNotText || e == LoggerError::HostnameEmpty,
    {
        match read_hostname() {
            Some(hostname) => Logger::with_hostname(apikey, hostname, tags, app),
            None => Err(LoggerError::HostnameNotText),
        }
    }

    /// Builds the submission of `message` at `level`, stamped
    /// `timestamp_millis`. This is all that both ways of sending share.
    pub fn submission_at(&self, message: String, level: String, timestamp_millis: u128) -> (r:
        Submission)
        ensures
            is_submission_of(r, self@, message@, level@, timestamp_millis as nat),
    {
        let url = ingest_url(self.hostname.as_str(), timestamp_millis, self.tags.as_str());
        let body = single_line_body(message, self.app.clone(), level, timestamp_millis);
        Submission { url, apikey: self.apikey.clone(), body, timestamp_millis }
    }

    /// Builds the submission of `message` at `level`, stamped with the wall
    /// clock as it is read now. Fails when the clock stands before the epoch.
    pub fn submission(&self, message: String, level: String) -> (r: Result<Submission, SubmitError>)
        ensures
            r matches Ok(s) ==> is_submission_of(s, self@, message@, level@, s.timestamp_millis as nat)
                && exists|secs: nat, nanos: nat|
                secs <= u64::MAX && nanos < 1_000_000_000 && s.timestamp_millis == millis_of(
                    secs,
                    nanos,
                ),
            r matches Err(e) ==> e == SubmitError::ClockBeforeEpoch,
    {
        match now_millis() {
            Some(timestamp_millis) => Ok(self.submission_at(message, level, timestamp_millis)),
            None => Err(SubmitError::ClockBeforeEpoch),
        }
    }

    /// The API key sent with every submission.
    pub fn apikey(&self) -> (r: &str)
        ensures
            r@ == self@.apikey,
    {
        self.apikey.as_str()
    }

    /// The host name read when the session was created.
    pub fn hostname(&self) -> (r: &str)
        ensures
            r@ == self@.hostname,
    {
        self.hostname.as_str()
    }

    /// The tag set, as one string.
    pub fn tags(&self) -> (r: &str)
        ensures
            r@ == self@.tags,
    {
        self.tags.as_str()
    }

    /// The application name.
    pub fn app(&self) -> (r: &str)
        ensures
            r@ == self@.app,
    {
        self.app.as_str()
    }
}

} // verus!
