//! Fetching over HTTP: requests, responses, and the following of redirects.
//!
//! Nothing here touches the network. A fetch is a sequence of steps: each step
//! names the request to send, and is resumed with what came back.

use crate::time::{now, Timestamp};
use http_req::response::StatusCode;
use http_req::uri::Uri;
use vstd::prelude::*;
use vstd::utf8::is_ascii_chars;

verus! {

/// How many redirects a fetch follows before it gives up.
pub const REDIRECT_LIMIT: u32 = 5;

/// For how many seconds a cached document is served without asking the server.
pub const UPDATE_INTERVAL: u64 = 300;

/// The limits that a lookup keeps to.
#[derive(Clone, Copy, Debug, PartialEq, Eq, Structural)]
pub struct Policy {
    /// Seconds for which a cached document is served without asking the server.
    pub refresh_interval: u64,
    /// Redirects that one fetch follows at most.
    pub redirect_limit: u32,
}

impl Default for Policy {
    fn default() -> (policy: Policy)
        ensures
            policy.refresh_interval == UPDATE_INTERVAL,
            policy.redirect_limit == REDIRECT_LIMIT,
    {
        Policy { refresh_interval: UPDATE_INTERVAL, redirect_limit: REDIRECT_LIMIT }
    }
}

/// The text of an optional string.
pub open spec fn opt_text(text: Option<String>) -> Option<Seq<char>> {
    match text {
        Some(s) => Some(s@),
        None => None,
    }
}

/// The bytes of an optional byte vector.
pub open spec fn opt_bytes(bytes: Option<Vec<u8>>) -> Option<Seq<u8>> {
    match bytes {
        Some(b) => Some(b@),
        None => None,
    }
}

/// A GET request: the address, and the validators of the copy that the caller holds.
#[derive(Clone, Debug, PartialEq, Eq)]
pub struct Request {
    pub url: String,
    /// Sent as `If-None-Match`.
    pub if_none_match: Option<String>,
    /// Sent as `If-Modified-Since`.
    pub if_modified_since: Option<String>,
}

/// What a [`Request`] holds.
pub struct RequestView {
    pub url: Seq<char>,
    pub if_none_match: Option<Seq<char>>,
    pub if_modified_since: Option<Seq<char>>,
}

impl View for Request {
    type V = RequestView;

    open spec fn view(&self) -> RequestView {
        RequestView {
            url: self.url@,
            if_none_match: opt_text(self.if_none_match),
            if_modified_since: opt_text(self.if_modified_since),
        }
    }
}

/// What the library reads of a response.
#[derive(Clone, Debug, PartialEq, Eq)]
pub struct Response {
    pub status: u16,
    /// The `ETag` header.
    pub etag: Option<String>,
    /// The `Last-Modified` header.
    pub last_modified: Option<String>,
    /// The `Location` header.
    pub location: Option<String>,
    /// The body as the payload's deserializer took it; `None` where it refused the body.
    pub payload: Option<Vec<u8>>,
}

/// What a [`Response`] holds.
pub struct ResponseView {
    pub status: u16,
    pub etag: Option<Seq<char>>,
    pub last_modified: Option<Seq<char>>,
    pub location: Option<Seq<char>>,
    pub payload: Option<Seq<u8>>,
}

impl View for Response {
    type V = ResponseView;

    open spec fn view(&self) -> ResponseView {
        ResponseView {
            status: self.status,
            etag: opt_text(self.etag),
            last_modified: opt_text(self.last_modified),
            location: opt_text(self.location),
            payload: opt_bytes(self.payload),
        }
    }
}

/// What came of sending a request: a response, or `None` where the transport failed.
pub open spec fn opt_response(outcome: Option<Response>) -> Option<ResponseView> {
    match outcome {
        Some(res) => Some(res@),
        None => None,
    }
}

/// The classes of status codes that a fetch tells apart.
#[derive(Clone, Copy, Debug, PartialEq, Eq, Structural)]
pub enum StatusClass {
    /// 2xx.
    Success,
    /// 3xx other than 304: the resource is to be asked for elsewhere.
    Redirect,
    /// 304: the copy that the request's validators describe is still current.
    NotModified,
    /// Anything else.
    Other,
}

/// The class of a status code.
pub open spec fn status_class(status: u16) -> StatusClass {
    if status == 304 {
        StatusClass::NotModified
    } else if 200 <= status < 300 {
        StatusClass::Success
    } else if 300 <= status < 400 {
        StatusClass::Redirect
    } else {
        StatusClass::Other
    }
}

/// `http_req::response::StatusCode::is_success`, on the code made by `StatusCode::new`:
/// whether the code lies in 200..=299.
#[verifier::external_body]
fn status_is_success(status: u16) -> (yes: bool)
    ensures
        yes == (200 <= status < 300),
{
    StatusCode::new(status).is_success()
}

/// `http_req::response::StatusCode::is_redirect`, on the code made by `StatusCode::new`:
/// whether the code lies in 300..=399.
#[verifier::external_body]
fn status_is_redirect(status: u16) -> (yes: bool)
    ensures
        yes == (300 <= status < 400),
{
    StatusCode::new(status).is_redirect()
}

/// The class of a status code.
pub fn classify(status: u16) -> (class: StatusClass)
    ensures
        class == status_class(status),
{
    if status == 304 {
        StatusClass::NotModified
    } else if status_is_success(status) {
        StatusClass::Success
    } else if status_is_redirect(status) {
        StatusClass::Redirect
    } else {
        StatusClass::Other
    }
}

/// Whether `http_req`'s parser takes `url` as a URI.
pub uninterp spec fn uri_parses(url: Seq<char>) -> bool;

/// `http_req::uri::Uri::try_from(&str)`: whether it returns `Ok`. The parser cuts its
/// input at byte offsets and can panic inside a multi-byte character, so only ASCII
/// is handed to it.
#[verifier::external_body]
fn uri_try_from_is_ok(url: &str) -> (ok: bool)
    requires
        is_ascii_chars(url@),
    ensures
        ok == uri_parses(url@),
{
    Uri::try_from(url).is_ok()
}

/// Whether a request can be made to `url`: it is ASCII and parses as a URI.
pub open spec fn url_is_wellformed(url: Seq<char>) -> bool {
    is_ascii_chars(url) && uri_parses(url)
}

/// Whether a request can be made to `url`.
pub fn url_wellformed(url: &str) -> (ok: bool)
    ensures
        ok == url_is_wellformed(url@),
{
    url.is_ascii() && uri_try_from_is_ok(url)
}

/// A fetched document with the validators that the server gave for it.
#[derive(Clone, Debug, PartialEq, Eq)]
pub struct Doc<T> {
    /// The `ETag` of the response.
    pub etag: Option<String>,
    /// The `Last-Modified` of the response.
    pub date: Option<String>,
    /// When the document was fetched, or last found unchanged.
    pub time: Timestamp,
    pub body: T,
}

/// What a [`Doc`] holds.
pub struct DocView<B> {
    pub etag: Option<Seq<char>>,
    pub date: Option<Seq<char>>,
    pub time: Timestamp,
    pub body: B,
}

impl<T: View> View for Doc<T> {
    type V = DocView<T::V>;

    open spec fn view(&self) -> DocView<T::V> {
        DocView { etag: opt_text(self.etag), date: opt_text(self.date), time: self.time, body: self.body@ }
    }
}

impl<B> DocView<B> {
    /// The same document, found unchanged at `now`: its time moves forward to `now`
    /// and never back.
    pub open spec fn refreshed(self, now: Timestamp) -> DocView<B> {
        DocView { time: self.time.later_of(now), ..self }
    }
}

impl<T> Doc<T> {
    /// A document fetched at `time`.
    pub fn at(body: T, etag: Option<String>, date: Option<String>, time: Timestamp) -> (doc: Doc<T>)
        ensures
            doc.body == body,
            doc.etag == etag,
            doc.date == date,
            doc.time == time,
    {
        Doc { etag, date, time, body }
    }

    /// A document fetched just now, by the system clock.
    pub fn new(body: T, etag: Option<String>, date: Option<String>) -> (doc: Doc<T>)
        ensures
            doc.body == body,
            doc.etag == etag,
            doc.date == date,
    {
        Doc::at(body, etag, date, now())
    }

    /// Marks the document as found unchanged at `now`: the time moves forward to
    /// `now`, and stays where `now` is not later. Nothing else changes.
    pub fn refresh_at(&mut self, now: Timestamp)
        ensures
            final(self).time == old(self).time.later_of(now),
            final(self).body == old(self).body,
            final(self).etag == old(self).etag,
            final(self).date == old(self).date,
    {
        self.time = self.time.later(now);
    }

    /// Marks the document as found unchanged just now, by the system clock. The time
    /// never moves back; nothing else changes.
    pub fn refresh(&mut self)
        ensures
            final(self).time.nanos_total() >= old(self).time.nanos_total(),
            final(self).body == old(self).body,
            final(self).etag == old(self).etag,
            final(self).date == old(self).date,
    {
        self.refresh_at(now());
    }
}

/// One request of a fetch, and the redirects that the fetch may still follow after it.
#[derive(Clone, Debug, PartialEq, Eq)]
pub struct Hop {
    pub request: Request,
    pub left: u32,
}

/// What a [`Hop`] holds.
pub struct HopView {
    pub request: RequestView,
    pub left: u32,
}

impl View for Hop {
    type V = HopView;

    open spec fn view(&self) -> HopView {
        HopView { request: self.request@, left: self.left }
    }
}

/// Where a fetch stands once a request was answered.
#[derive(Clone, Debug, PartialEq, Eq)]
pub enum Redirect {
    /// The server pointed elsewhere: this request is to be sent next.
    Follow(Hop),
    /// The fetch ended with this response.
    Done(Response),
    /// The fetch failed.
    Failed,
}

/// What a [`Redirect`] holds.
pub enum RedirectView {
    Follow(HopView),
    Done(ResponseView),
    Failed,
}

impl View for Redirect {
    type V = RedirectView;

    open spec fn view(&self) -> RedirectView {
        match self {
            Redirect::Follow(hop) => RedirectView::Follow(hop@),
            Redirect::Done(res) => RedirectView::Done(res@),
            Redirect::Failed => RedirectView::Failed,
        }
    }
}

/// Where the fetch that sent `hop.request` stands after `outcome`.
///
/// A transport failure ends it. A redirect is followed to its `Location` with the
/// validators of the request unchanged, as long as redirects are left and the target
/// is well formed; otherwise the fetch has failed. Any other response ends the fetch.
pub open spec fn follow(hop: HopView, outcome: Option<ResponseView>) -> RedirectView {
    match outcome {
        None => RedirectView::Failed,
        Some(res) => if status_class(res.status) == StatusClass::Redirect {
            match res.location {
                Some(target) => if hop.left > 0 && url_is_wellformed(target) {
                    RedirectView::Follow(
                        HopView {
                            request: RequestView { url: target, ..hop.request },
                            left: (hop.left - 1) as u32,
                        },
                    )
                } else {
                    RedirectView::Failed
                },
                None => RedirectView::Failed,
            }
        } else {
            RedirectView::Done(res)
        },
    }
}

/// The first hop of a fetch of `request` that follows at most `limit` redirects;
/// `None` where no request can be made to its address.
pub open spec fn first_hop(request: RequestView, limit: u32) -> Option<HopView> {
    if url_is_wellformed(request.url) {
        Some(HopView { request, left: limit })
    } else {
        None
    }
}

impl Hop {
    /// The first hop of a fetch of `request` that follows at most `limit` redirects;
    /// `None` where no request can be made to its address.
    pub fn first(request: Request, limit: u32) -> (hop: Option<Hop>)
        ensures
            match hop {
                Some(h) => first_hop(request@, limit) == Some(h@),
                None => first_hop(request@, limit).is_none(),
            },
    {
        if url_wellformed(request.url.as_str()) {
            Some(Hop { request, left: limit })
        } else {
            None
        }
    }
}

/// Where the fetch that sent `hop.request` stands after `outcome`: `None` stands for
/// a transport failure.
pub fn with_redirects(hop: Hop, outcome: Option<Response>) -> (next: Redirect)
    ensures
        next@ == follow(hop@, opt_response(outcome)),
{
    match outcome {
        None => Redirect::Failed,
        Some(res) => match classify(res.status) {
            StatusClass::Redirect => match res.location {
                Some(target) => {
                    if hop.left > 0 && url_wellformed(target.as_str()) {
                        let request = Request {
                            url: target,
                            if_none_match: hop.request.if_none_match,
                            if_modified_since: hop.request.if_modified_since,
                        };
                        Redirect::Follow(Hop { request, left: hop.left - 1 })
                    } else {
                        Redirect::Failed
                    }
                },
                None => Redirect::Failed,
            },
            _ => Redirect::Done(res),
        },
    }
}

/// A copy of an optional string.
pub fn clone_text(text: &Option<String>) -> (copy: Option<String>)
    ensures
        opt_text(copy) == opt_text(*text),
{
    match text {
        Some(s) => Some(s.clone()),
        None => None,
    }
}

/// A copy of a byte vector.
pub fn clone_bytes(bytes: &Vec<u8>) -> (copy: Vec<u8>)
    ensures
        copy@ == bytes@,
{
    let copy = bytes.clone();
    assert(copy@ =~= bytes@);
    copy
}

/// A plain fetch in progress.
#[derive(Clone, Debug, PartialEq, Eq)]
pub enum Get {
    /// The request of this hop is to be sent, and the fetch resumed with what came back.
    Send(Hop),
    /// The fetch has ended: with the document, or with `None` where it failed.
    Done(Option<Doc<Vec<u8>>>),
}

/// What a [`Get`] holds.
pub enum GetView {
    Send(HopView),
    Done(Option<DocView<Seq<u8>>>),
}

impl View for Get {
    type V = GetView;

    open spec fn view(&self) -> GetView {
        match self {
            Get::Send(hop) => GetView::Send(hop@),
            Get::Done(Some(doc)) => GetView::Done(Some(doc@)),
            Get::Done(None) => GetView::Done(None),
        }
    }
}

/// The request of a plain fetch of `url`: it carries no validators.
pub open spec fn plain_request(url: Seq<char>) -> RequestView {
    RequestView { url, if_none_match: None, if_modified_since: None }
}

/// The document that the response ending a plain fetch at `now` gives: one for a
/// success whose body the payload's deserializer took, and none otherwise.
pub open spec fn landed(res: ResponseView, now: Timestamp) -> Option<DocView<Seq<u8>>> {
    if status_class(res.status) == StatusClass::Success {
        match res.payload {
            Some(body) => Some(DocView { etag: res.etag, date: res.last_modified, time: now, body }),
            None => None,
        }
    } else {
        None
    }
}

/// Where a plain fetch of `url` starts.
pub open spec fn get_start(url: Seq<char>, limit: u32) -> GetView {
    match first_hop(plain_request(url), limit) {
        Some(hop) => GetView::Send(hop),
        None => GetView::Done(None),
    }
}

/// Where the plain fetch that sent `hop.request` stands after `outcome`, received at `now`.
pub open spec fn get_resume(hop: HopView, outcome: Option<ResponseView>, now: Timestamp) -> GetView {
    match follow(hop, outcome) {
        RedirectView::Follow(next) => GetView::Send(next),
        RedirectView::Done(res) => GetView::Done(landed(res, now)),
        RedirectView::Failed => GetView::Done(None),
    }
}

/// Starts a plain fetch of `url`. It has failed at once where no request can be made
/// to `url`.
pub fn get(url: &str, policy: &Policy) -> (fetch: Get)
    ensures
        fetch@ == get_start(url@, policy.redirect_limit),
{
    let request = Request { url: url.to_owned(), if_none_match: None, if_modified_since: None };
    match Hop::first(request, policy.redirect_limit) {
        Some(hop) => Get::Send(hop),
        None => Get::Done(None),
    }
}

impl Get {
    /// Resumes the fetch that sent `hop.request` with what came back at `now`; `None`
    /// stands for a transport failure.
    pub fn resume(hop: Hop, outcome: Option<Response>, now: Timestamp) -> (fetch: Get)
        ensures
            fetch@ == get_resume(hop@, opt_response(outcome), now),
    {
        match with_redirects(hop, outcome) {
            Redirect::Follow(next) => Get::Send(next),
            Redirect::Done(res) => match classify(res.status) {
                StatusClass::Success => match res.payload {
                    Some(body) => Get::Done(Some(Doc::at(body, res.etag, res.last_modified, now))),
                    None => Get::Done(None),
                },
                _ => Get::Done(None),
            },
            Redirect::Failed => Get::Done(None),
        }
    }
}

/// A check for updates in progress.
#[derive(Clone, Debug, PartialEq, Eq)]
pub enum Check {
    /// The request of this hop is to be sent, and the check resumed with what came back.
    Send(Hop),
    /// The check has ended: `Some(false)` where the server holds nothing newer,
    /// `Some(true)` where it does, `None` where the check failed.
    Done(Option<bool>),
}

/// What a [`Check`] holds.
pub enum CheckView {
    Send(HopView),
    Done(Option<bool>),
}

impl View for Check {
    type V = CheckView;

    open spec fn view(&self) -> CheckView {
        match self {
            Check::Send(hop) => CheckView::Send(hop@),
            Check::Done(verdict) => CheckView::Done(*verdict),
        }
    }
}

/// What the response ending a check says: 304, that nothing is newer; a success, that
/// something is; anything else, nothing.
pub open spec fn verdict(res: ResponseView) -> Option<bool> {
    match status_class(res.status) {
        StatusClass::NotModified => Some(false),
        StatusClass::Success => Some(true),
        _ => None,
    }
}

/// Where a check of `url` against the validators `etag` and `date` starts.
pub open spec fn check_start(
    url: Seq<char>,
    etag: Option<Seq<char>>,
    date: Option<Seq<char>>,
    limit: u32,
) -> CheckView {
    match first_hop(RequestView { url, if_none_match: etag, if_modified_since: date }, limit) {
        Some(hop) => CheckView::Send(hop),
        None => CheckView::Done(None),
    }
}

/// Where the check that sent `hop.request` stands after `outcome`.
pub open spec fn check_resume(hop: HopView, outcome: Option<ResponseView>) -> CheckView {
    match follow(hop, outcome) {
        RedirectView::Follow(next) => CheckView::Send(next),
        RedirectView::Done(res) => CheckView::Done(verdict(res)),
        RedirectView::Failed => CheckView::Done(None),
    }
}

/// Starts a check of `url` for updates: a fetch whose requests carry `etag` as
/// `If-None-Match` and `date` as `If-Modified-Since`, where they are given. It has
/// failed at once where no request can be made to `url`.
pub fn check(url: &str, etag: &Option<String>, date: &Option<String>, policy: &Policy) -> (probe: Check)
    ensures
        probe@ == check_start(url@, opt_text(*etag), opt_text(*date), policy.redirect_limit),
{
    let request = Request {
        url: url.to_owned(),
        if_none_match: clone_text(etag),
        if_modified_since: clone_text(date),
    };
    match Hop::first(request, policy.redirect_limit) {
        Some(hop) => Check::Send(hop),
        None => Check::Done(None),
    }
}

impl Check {
    /// Resumes the check that sent `hop.request` with what came back; `None` stands
    /// for a transport failure.
    pub fn resume(hop: Hop, outcome: Option<Response>) -> (probe: Check)
        ensures
            probe@ == check_resume(hop@, opt_response(outcome)),
    {
        match with_redirects(hop, outcome) {
            Redirect::Follow(next) => Check::Send(next),
            Redirect::Done(res) => match classify(res.status) {
                StatusClass::NotModified => Check::Done(Some(false)),
                StatusClass::Success => Check::Done(Some(true)),
                _ => Check::Done(None),
            },
            Redirect::Failed => Check::Done(None),
        }
    }
}

} // verus!
