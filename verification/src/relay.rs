//! The data of the MIP-03 HTTP relay binding: endpoint URLs, the bodies of
//! `submit`, `fetch` and `scan`, and how HTTP status codes are answered.
//! Relays are not trusted: events they return must be verified locally
//! (MIP-03, MIP-05).
use crate::encoding::{decimal, push_decimal};
use crate::encoding::{opt_view, strings_view};
use crate::event::event::{clone_payloads, payloads_view, Payload};
use crate::event::filters::{clone_filters, filters_view, EventFilter};
use crate::text::{clone_opt_string, clone_strings, owned};
use vstd::prelude::*;
use vstd::string::*;

verus! {

/// The address of a relay.
pub struct RelayClient {
    base_url: String,
}

/// The text without its trailing `/` characters.
pub open spec fn strip_trailing_slashes(s: Seq<char>) -> Seq<char>
    decreases s.len(),
{
    if s.len() > 0 && s.last() == '/' {
        strip_trailing_slashes(s.drop_last())
    } else {
        s
    }
}

/// Stripping trailing slashes keeps a prefix of the text that is empty or
/// does not end with `/`, and drops only `/` characters.
pub proof fn lemma_strip_trailing_slashes(s: Seq<char>)
    ensures
        strip_trailing_slashes(s).len() <= s.len(),
        strip_trailing_slashes(s) == s.subrange(0, strip_trailing_slashes(s).len() as int),
        strip_trailing_slashes(s).len() == 0 || strip_trailing_slashes(s).last() != '/',
        forall|i: int| strip_trailing_slashes(s).len() <= i < s.len() ==> #[trigger] s[i] == '/',
    decreases s.len(),
{
    if s.len() > 0 && s.last() == '/' {
        lemma_strip_trailing_slashes(s.drop_last());
        let r = strip_trailing_slashes(s.drop_last());
        assert(r =~= s.subrange(0, r.len() as int));
        assert forall|i: int| r.len() <= i < s.len() implies #[trigger] s[i] == '/' by {
            if i < s.len() - 1 {
                assert(s.drop_last()[i] == s[i]);
            }
        }
    } else {
        assert(s =~= s.subrange(0, s.len() as int));
    }
}

impl RelayClient {
    /// The relay's base URL.
    pub closed spec fn base(self) -> Seq<char> {
        self.base_url@
    }

    /// A client for the relay at `base_url`; trailing slashes are dropped.
    pub fn new(base_url: &str) -> (res: Self)
        ensures
            res.base() == strip_trailing_slashes(base_url@),
            res.base() == base_url@.subrange(0, res.base().len() as int),
            res.base().len() == 0 || res.base().last() != '/',
            forall|i: int| res.base().len() <= i < base_url@.len() ==> #[trigger] base_url@[i] == '/',
    {
        proof {
            lemma_strip_trailing_slashes(base_url@);
        }
        let mut j = base_url.unicode_len();
        assert(base_url@.subrange(0, j as int) =~= base_url@);
        while j > 0 && base_url.get_char(j - 1) == '/'
            invariant
                j <= base_url@.len(),
                strip_trailing_slashes(base_url@) == strip_trailing_slashes(base_url@.subrange(0, j as int)),
            decreases j,
        {
            assert(base_url@.subrange(0, j as int).drop_last() =~= base_url@.subrange(0, j - 1));
            j = j - 1;
        }
        RelayClient { base_url: owned(base_url.substring_char(0, j)) }
    }

    /// The URL of an endpoint path such as `/submit`.
    pub fn url(&self, path: &str) -> (res: String)
        ensures
            res@ == self.base() + path@,
    {
        let mut u = self.base_url.clone();
        u.append(path);
        u
    }
}

/// `POST /submit` body: one or more signed events.
#[derive(Debug)]
pub struct SubmitRequest {
    pub events: Vec<Payload>,
}

/// `POST /submit` answer: one result per submitted event.
#[derive(Debug)]
pub struct SubmitResponse {
    pub results: Vec<SubmitResult>,
}

/// What the relay did with one submitted event.
#[derive(Debug)]
pub struct SubmitResult {
    pub id: Option<String>,
    pub accepted: bool,
    pub status: SubmitStatus,
    pub reason: Option<String>,
}

/// The outcome of one submitted event.
#[derive(Debug, Clone, Copy, PartialEq, Eq, Structural)]
pub enum SubmitStatus {
    Stored,
    Duplicate,
    Rejected,
}

/// `POST /fetch` body: events by exact id.
#[derive(Debug)]
pub struct FetchRequest {
    pub ids: Vec<String>,
}

/// `POST /fetch` answer: the events found and the ids not found.
#[derive(Debug)]
pub struct FetchResponse {
    pub events: Vec<Payload>,
    pub missing: Vec<String>,
}

/// `POST /scan` body: events matching any of the filters.
#[derive(Debug)]
pub struct ScanRequest {
    pub filters: Vec<EventFilter>,
    pub limit: Option<u32>,
    pub cursor: Option<String>,
    pub order: Option<String>,
}

/// `POST /scan` answer: a page of events and the cursor of the next one.
#[derive(Debug)]
pub struct ScanResponse {
    pub events: Vec<Payload>,
    pub cursor: Option<String>,
    pub has_more: bool,
}

/// The contents of one submit result.
pub struct SubmitResultModel {
    pub id: Option<Seq<char>>,
    pub accepted: bool,
    pub status: SubmitStatus,
    pub reason: Option<Seq<char>>,
}

impl View for SubmitResult {
    type V = SubmitResultModel;

    open spec fn view(&self) -> SubmitResultModel {
        SubmitResultModel {
            id: opt_view(self.id),
            accepted: self.accepted,
            status: self.status,
            reason: opt_view(self.reason),
        }
    }
}

impl Clone for SubmitResult {
    /// A copy of the result.
    fn clone(&self) -> (res: Self)
        ensures
            res@ == self@,
    {
        SubmitResult {
            id: clone_opt_string(&self.id),
            accepted: self.accepted,
            status: self.status,
            reason: clone_opt_string(&self.reason),
        }
    }
}

impl Clone for SubmitRequest {
    /// A copy of the request.
    fn clone(&self) -> (res: Self)
        ensures
            payloads_view(res.events@) == payloads_view(self.events@),
    {
        SubmitRequest { events: clone_payloads(&self.events) }
    }
}

impl Clone for SubmitResponse {
    /// A copy of the answer.
    fn clone(&self) -> (res: Self)
        ensures
            res.results@.map_values(|r: SubmitResult| r@) == self.results@.map_values(
                |r: SubmitResult| r@,
            ),
    {
        let mut results: Vec<SubmitResult> = Vec::new();
        let n = self.results.len();
        for i in 0..n
            invariant
                n == self.results.len(),
                results@.len() == i,
                forall|k: int| 0 <= k < i ==> (#[trigger] results@[k])@ == self.results@[k]@,
        {
            results.push(self.results[i].clone());
        }
        let res = SubmitResponse { results };
        assert(res.results@.map_values(|r: SubmitResult| r@) =~= self.results@.map_values(
            |r: SubmitResult| r@,
        ));
        res
    }
}

impl Clone for FetchRequest {
    /// A copy of the request.
    fn clone(&self) -> (res: Self)
        ensures
            strings_view(res.ids@) == strings_view(self.ids@),
    {
        FetchRequest { ids: clone_strings(&self.ids) }
    }
}

impl Clone for FetchResponse {
    /// A copy of the answer.
    fn clone(&self) -> (res: Self)
        ensures
            payloads_view(res.events@) == payloads_view(self.events@),
            strings_view(res.missing@) == strings_view(self.missing@),
    {
        FetchResponse { events: clone_payloads(&self.events), missing: clone_strings(&self.missing) }
    }
}

impl Clone for ScanRequest {
    /// A copy of the request.
    fn clone(&self) -> (res: Self)
        ensures
            filters_view(res.filters@) == filters_view(self.filters@),
            res.limit == self.limit,
            opt_view(res.cursor) == opt_view(self.cursor),
            opt_view(res.order) == opt_view(self.order),
    {
        ScanRequest {
            filters: clone_filters(&self.filters),
            limit: self.limit,
            cursor: clone_opt_string(&self.cursor),
            order: clone_opt_string(&self.order),
        }
    }
}

impl Clone for ScanResponse {
    /// A copy of the answer.
    fn clone(&self) -> (res: Self)
        ensures
            payloads_view(res.events@) == payloads_view(self.events@),
            opt_view(res.cursor) == opt_view(self.cursor),
            res.has_more == self.has_more,
    {
        ScanResponse {
            events: clone_payloads(&self.events),
            cursor: clone_opt_string(&self.cursor),
            has_more: self.has_more,
        }
    }
}

impl Clone for RelayError {
    /// A copy of the error.
    fn clone(&self) -> (res: Self)
        ensures
            res@ == self@,
    {
        match self {
            RelayError::BadRequest(b) => RelayError::BadRequest(b.clone()),
            RelayError::PayloadTooLarge(b) => RelayError::PayloadTooLarge(b.clone()),
            RelayError::RateLimited(b) => RelayError::RateLimited(b.clone()),
            RelayError::Status(s, b) => RelayError::Status(*s, b.clone()),
        }
    }
}

/// A relay's refusal, by HTTP status, with the response body.
#[derive(Debug)]
pub enum RelayError {
    /// 400: the request was malformed.
    BadRequest(String),
    /// 413: the request or an event was too large.
    PayloadTooLarge(String),
    /// 429: too many requests.
    RateLimited(String),
    /// Any other unsuccessful status.
    Status(u16, String),
}

/// Whether an HTTP status is a success (2xx).
pub open spec fn status_success(status: u16) -> bool {
    200 <= status < 300
}

/// The error that answers an unsuccessful HTTP status.
pub open spec fn status_error_of(status: u16, body: Seq<char>) -> RelayErrorModel {
    if status == 400 {
        RelayErrorModel::BadRequest(body)
    } else if status == 413 {
        RelayErrorModel::PayloadTooLarge(body)
    } else if status == 429 {
        RelayErrorModel::RateLimited(body)
    } else {
        RelayErrorModel::Status(status, body)
    }
}

/// The contents of a relay error.
pub enum RelayErrorModel {
    BadRequest(Seq<char>),
    PayloadTooLarge(Seq<char>),
    RateLimited(Seq<char>),
    Status(u16, Seq<char>),
}

impl View for RelayError {
    type V = RelayErrorModel;

    open spec fn view(&self) -> RelayErrorModel {
        match self {
            RelayError::BadRequest(b) => RelayErrorModel::BadRequest(b@),
            RelayError::PayloadTooLarge(b) => RelayErrorModel::PayloadTooLarge(b@),
            RelayError::RateLimited(b) => RelayErrorModel::RateLimited(b@),
            RelayError::Status(s, b) => RelayErrorModel::Status(*s, b@),
        }
    }
}

/// The message of a relay error; `reason` is the status's reason phrase.
pub open spec fn relay_error_message(e: RelayErrorModel, reason: Seq<char>) -> Seq<char> {
    match e {
        RelayErrorModel::BadRequest(b) => "relay 400 bad request: "@ + b,
        RelayErrorModel::PayloadTooLarge(b) => "relay 413 payload too large: "@ + b,
        RelayErrorModel::RateLimited(b) => "relay 429 rate limited: "@ + b,
        RelayErrorModel::Status(s, b) => "relay returned "@ + decimal(s as nat) + " "@ + reason
            + ": "@ + b,
    }
}

/// Whether an HTTP status is a success (2xx).
pub fn is_success(status: u16) -> (res: bool)
    ensures
        res == status_success(status),
{
    200 <= status && status < 300
}

/// The error that answers an unsuccessful HTTP status.
pub fn status_error(status: u16, body: String) -> (res: RelayError)
    requires
        !status_success(status),
    ensures
        res@ == status_error_of(status, body@),
{
    if status == 400 {
        RelayError::BadRequest(body)
    } else if status == 413 {
        RelayError::PayloadTooLarge(body)
    } else if status == 429 {
        RelayError::RateLimited(body)
    } else {
        RelayError::Status(status, body)
    }
}

/// Maps MIP-03 HTTP status codes to structured errors; success is `Ok`.
pub fn check_status(status: u16, body: String) -> (res: Result<(), RelayError>)
    ensures
        match res {
            Ok(()) => status_success(status),
            Err(e) => !status_success(status) && e@ == status_error_of(status, body@),
        },
{
    if is_success(status) {
        Ok(())
    } else {
        Err(status_error(status, body))
    }
}

impl RelayError {
    /// The error's message; `reason` is the reason phrase of the status.
    pub fn message(&self, reason: &str) -> (res: String)
        ensures
            res@ == relay_error_message(self@, reason@),
    {
        match self {
            RelayError::BadRequest(b) => {
                let mut m = owned("relay 400 bad request: ");
                m.append(b.as_str());
                m
            },
            RelayError::PayloadTooLarge(b) => {
                let mut m = owned("relay 413 payload too large: ");
                m.append(b.as_str());
                m
            },
            RelayError::RateLimited(b) => {
                let mut m = owned("relay 429 rate limited: ");
                m.append(b.as_str());
                m
            },
            RelayError::Status(s, b) => {
                let mut m = owned("relay returned ");
                push_decimal(&mut m, *s as u64);
                m.append(" ");
                m.append(reason);
                m.append(": ");
                m.append(b.as_str());
                m
            },
        }
    }
}

} // verus!
