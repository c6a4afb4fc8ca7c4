//! Lookups through the cache: serve what is stored while it is fresh, ask the server
//! whether it has changed once it is stale, fetch it where nothing usable is stored,
//! and fall back on what is stored where the server cannot be reached.
//!
//! A lookup is a sequence of steps. Each step names one operation, on the store or
//! on the network, and the lookup is resumed with what came of it.

use crate::cache::{storage_key, Cache, StoreOp, StoreOpView};
use crate::codec::{decode, decode_doc, encode, encode_doc};
use crate::http::{
    check, check_resume, check_start, clone_bytes, get, get_resume, get_start, opt_bytes,
    opt_response, Check, CheckView, Doc, DocView, Get, GetView, Hop, HopView, Policy, Response,
    ResponseView,
};
use crate::time::{fresh, is_fresh, Timestamp};
use vstd::prelude::*;

verus! {

/// What a lookup is for, and the limits that it keeps to.
#[derive(Clone, Debug, PartialEq, Eq)]
pub struct Target {
    /// The address of the document.
    pub url: String,
    /// The key of the document in the store; `None` where there is no store.
    pub key: Option<Vec<u8>>,
    pub policy: Policy,
}

/// What a [`Target`] holds.
pub struct TargetView {
    pub url: Seq<char>,
    pub key: Option<Seq<u8>>,
    pub policy: Policy,
}

impl View for Target {
    type V = TargetView;

    open spec fn view(&self) -> TargetView {
        TargetView { url: self.url@, key: opt_bytes(self.key), policy: self.policy }
    }
}

/// A lookup in progress.
#[derive(Clone, Debug, PartialEq, Eq)]
pub enum Lookup {
    /// The store is to perform `op`, a read, and the lookup to be resumed with what
    /// the store holds.
    Load { op: StoreOp, target: Target },
    /// The request of `hop` is to be sent: it asks whether `entry`, which is stale,
    /// is still current.
    Check { hop: Hop, entry: Doc<Vec<u8>>, target: Target },
    /// The request of `hop` is to be sent: it fetches the document. `stale` is what
    /// the store held, if it held anything.
    Fetch { hop: Hop, stale: Option<Doc<Vec<u8>>>, target: Target },
    /// The store is to perform `op`, a write; the lookup then ends with `body`.
    Save { op: StoreOp, body: Vec<u8> },
    /// The lookup has ended: with the body of the document, or with `None` where
    /// nothing was stored and nothing could be fetched.
    Done(Option<Vec<u8>>),
}

/// What a [`Lookup`] holds.
pub enum LookupView {
    Load { op: StoreOpView, target: TargetView },
    Check { hop: HopView, entry: DocView<Seq<u8>>, target: TargetView },
    Fetch { hop: HopView, stale: Option<DocView<Seq<u8>>>, target: TargetView },
    Save { op: StoreOpView, body: Seq<u8> },
    Done(Option<Seq<u8>>),
}

/// What an optional document holds.
pub open spec fn opt_doc(doc: Option<Doc<Vec<u8>>>) -> Option<DocView<Seq<u8>>> {
    match doc {
        Some(d) => Some(d@),
        None => None,
    }
}

impl View for Lookup {
    type V = LookupView;

    open spec fn view(&self) -> LookupView {
        match self {
            Lookup::Load { op, target } => LookupView::Load { op: op@, target: target@ },
            Lookup::Check { hop, entry, target } => LookupView::Check {
                hop: hop@,
                entry: entry@,
                target: target@,
            },
            Lookup::Fetch { hop, stale, target } => LookupView::Fetch {
                hop: hop@,
                stale: opt_doc(*stale),
                target: target@,
            },
            Lookup::Save { op, body } => LookupView::Save { op: op@, body: body@ },
            Lookup::Done(body) => LookupView::Done(opt_bytes(*body)),
        }
    }
}

/// The step that stores `doc` and then ends the lookup with its body; without a
/// store, the end of the lookup at once.
pub open spec fn saving(doc: DocView<Seq<u8>>, target: TargetView) -> LookupView {
    match target.key {
        Some(key) => LookupView::Save {
            op: StoreOpView::Put { key, val: encode_doc(doc) },
            body: doc.body,
        },
        None => LookupView::Done(Some(doc.body)),
    }
}

/// Where a lookup stands once a fetch has ended at `now`. What was found is stored
/// and returned. Where nothing was found, what the store held is marked as seen at
/// `now`, stored and returned; and where the store held nothing, the lookup ends
/// with nothing.
pub open spec fn fetched(
    found: Option<DocView<Seq<u8>>>,
    stale: Option<DocView<Seq<u8>>>,
    target: TargetView,
    now: Timestamp,
) -> LookupView {
    match found {
        Some(doc) => saving(doc, target),
        None => match stale {
            Some(entry) => saving(entry.refreshed(now), target),
            None => LookupView::Done(None),
        },
    }
}

/// Where a lookup stands when it turns to fetching the document.
pub open spec fn fetching(
    stale: Option<DocView<Seq<u8>>>,
    target: TargetView,
    now: Timestamp,
) -> LookupView {
    match get_start(target.url, target.policy.redirect_limit) {
        GetView::Send(hop) => LookupView::Fetch { hop, stale, target },
        GetView::Done(found) => fetched(found, stale, target, now),
    }
}

/// Where the entry of a key stands in the course of a lookup.
#[derive(Clone, Copy, Debug, PartialEq, Eq, Structural)]
pub enum EntryState {
    /// Nothing is stored, or what is stored does not read as a document.
    NoEntry,
    /// What is stored is young enough to be served without asking the server.
    Fresh,
    /// What is stored is stale, and the server has not been asked yet.
    StaleUnchecked,
    /// The server was asked and holds nothing newer.
    CheckedUnmodified,
    /// The server was asked and holds something newer.
    CheckedModified,
    /// The server was asked and the check failed.
    Failed,
}

/// Where an entry stands when it comes from the store at `now`.
pub open spec fn state_of_entry(
    entry: Option<DocView<Seq<u8>>>,
    now: Timestamp,
    interval: u64,
) -> EntryState {
    match entry {
        Some(doc) => if is_fresh(doc.time, now, interval) {
            EntryState::Fresh
        } else {
            EntryState::StaleUnchecked
        },
        None => EntryState::NoEntry,
    }
}

/// Where a stale entry stands once its check has ended with `verdict`.
pub open spec fn state_after_check(verdict: Option<bool>) -> EntryState {
    match verdict {
        Some(false) => EntryState::CheckedUnmodified,
        Some(true) => EntryState::CheckedModified,
        None => EntryState::Failed,
    }
}

/// Where a lookup stands once the check of `entry` has ended at `now`. Where the
/// server holds something newer, the document is fetched. Where it holds nothing
/// newer, and where the check failed, `entry` is marked as seen at `now`, stored and
/// returned.
pub open spec fn checked(
    verdict: Option<bool>,
    entry: DocView<Seq<u8>>,
    target: TargetView,
    now: Timestamp,
) -> LookupView {
    match state_after_check(verdict) {
        EntryState::CheckedModified => fetching(Some(entry), target, now),
        _ => saving(entry.refreshed(now), target),
    }
}

/// Where a lookup stands once the store has answered the read with `reply` at `now`.
/// A fresh entry ends the lookup with its body. A stale one is checked with the
/// server. Where nothing is stored, or what is stored does not read as a document,
/// the document is fetched.
pub open spec fn loaded(reply: Option<Seq<u8>>, target: TargetView, now: Timestamp) -> LookupView {
    let entry = match reply {
        Some(bytes) => decode_doc(bytes),
        None => None,
    };
    match entry {
        Some(doc) => match state_of_entry(entry, now, target.policy.refresh_interval) {
            EntryState::Fresh => LookupView::Done(Some(doc.body)),
            _ => match check_start(target.url, doc.etag, doc.date, target.policy.redirect_limit) {
                CheckView::Send(hop) => LookupView::Check { hop, entry: doc, target },
                CheckView::Done(verdict) => checked(verdict, doc, target, now),
            },
        },
        None => fetching(None, target, now),
    }
}

/// Where a lookup of `target` starts: at the read of the store, and without a store
/// at the fetch of the document, which has failed at once where no request can be
/// made to the address.
pub open spec fn starting(target: TargetView) -> LookupView {
    match target.key {
        Some(key) => LookupView::Load { op: StoreOpView::Get { key }, target },
        None => match get_start(target.url, target.policy.redirect_limit) {
            GetView::Send(hop) => LookupView::Fetch { hop, stale: None, target },
            GetView::Done(_) => LookupView::Done(None),
        },
    }
}

/// Where the lookup `state` stands once the store has performed its operation and
/// answered `reply` at `now`. A lookup that waits for no store stays as it is.
pub open spec fn after_store(state: LookupView, reply: Option<Seq<u8>>, now: Timestamp) -> LookupView {
    match state {
        LookupView::Load { op, target } => loaded(reply, target, now),
        LookupView::Save { op, body } => LookupView::Done(Some(body)),
        _ => state,
    }
}

/// Where the lookup `state` stands once its request was sent and `outcome` came
/// back at `now`. A lookup that waits for no response stays as it is.
pub open spec fn after_send(
    state: LookupView,
    outcome: Option<ResponseView>,
    now: Timestamp,
) -> LookupView {
    match state {
        LookupView::Check { hop, entry, target } => match check_resume(hop, outcome) {
            CheckView::Send(next) => LookupView::Check { hop: next, entry, target },
            CheckView::Done(verdict) => checked(verdict, entry, target, now),
        },
        LookupView::Fetch { hop, stale, target } => match get_resume(hop, outcome, now) {
            GetView::Send(next) => LookupView::Fetch { hop: next, stale, target },
            GetView::Done(found) => fetched(found, stale, target, now),
        },
        _ => state,
    }
}

/// The key of a document in the store of a cache: that of its address where there
/// is a store, and none otherwise.
pub open spec fn cache_key(enabled: bool, url: Seq<char>) -> Option<Seq<u8>> {
    if enabled {
        storage_key(url)
    } else {
        None
    }
}

fn saving_step(doc: Doc<Vec<u8>>, target: Target) -> (next: Lookup)
    ensures
        next@ == saving(doc@, target@),
{
    match target.key {
        Some(key) => {
            let val = encode(&doc);
            Lookup::Save { op: StoreOp::Put { key, val }, body: doc.body }
        },
        None => Lookup::Done(Some(doc.body)),
    }
}

fn fetched_step(
    found: Option<Doc<Vec<u8>>>,
    stale: Option<Doc<Vec<u8>>>,
    target: Target,
    now: Timestamp,
) -> (next: Lookup)
    ensures
        next@ == fetched(opt_doc(found), opt_doc(stale), target@, now),
{
    match found {
        Some(doc) => saving_step(doc, target),
        None => match stale {
            Some(entry) => {
                let mut entry = entry;
                entry.refresh_at(now);
                saving_step(entry, target)
            },
            None => Lookup::Done(None),
        },
    }
}

fn fetching_step(stale: Option<Doc<Vec<u8>>>, target: Target, now: Timestamp) -> (next: Lookup)
    ensures
        next@ == fetching(opt_doc(stale), target@, now),
{
    match get(target.url.as_str(), &target.policy) {
        Get::Send(hop) => Lookup::Fetch { hop, stale, target },
        Get::Done(found) => fetched_step(found, stale, target, now),
    }
}

/// Where an entry stands when it comes from the store at `now`.
pub fn entry_state(entry: &Option<Doc<Vec<u8>>>, now: Timestamp, policy: &Policy) -> (state:
    EntryState)
    ensures
        state == state_of_entry(opt_doc(*entry), now, policy.refresh_interval),
{
    match entry {
        Some(doc) => {
            if fresh(doc.time, now, policy.refresh_interval) {
                EntryState::Fresh
            } else {
                EntryState::StaleUnchecked
            }
        },
        None => EntryState::NoEntry,
    }
}

/// Where a stale entry stands once its check has ended with `verdict`.
pub fn check_state(verdict: Option<bool>) -> (state: EntryState)
    ensures
        state == state_after_check(verdict),
{
    match verdict {
        Some(false) => EntryState::CheckedUnmodified,
        Some(true) => EntryState::CheckedModified,
        None => EntryState::Failed,
    }
}

fn checked_step(verdict: Option<bool>, entry: Doc<Vec<u8>>, target: Target, now: Timestamp) -> (next:
    Lookup)
    ensures
        next@ == checked(verdict, entry@, target@, now),
{
    match check_state(verdict) {
        EntryState::CheckedModified => fetching_step(Some(entry), target, now),
        _ => {
            let mut entry = entry;
            entry.refresh_at(now);
            saving_step(entry, target)
        },
    }
}

fn loaded_step(reply: Option<Vec<u8>>, target: Target, now: Timestamp) -> (next: Lookup)
    ensures
        next@ == loaded(opt_bytes(reply), target@, now),
{
    let entry = match reply {
        Some(bytes) => decode(bytes.as_slice()),
        None => None,
    };
    let state = entry_state(&entry, now, &target.policy);
    match entry {
        Some(doc) => match state {
            EntryState::Fresh => Lookup::Done(Some(doc.body)),
            _ => match check(target.url.as_str(), &doc.etag, &doc.date, &target.policy) {
                Check::Send(hop) => Lookup::Check { hop, entry: doc, target },
                Check::Done(verdict) => checked_step(verdict, doc, target, now),
            },
        },
        None => fetching_step(None, target, now),
    }
}

/// Starts the lookup of the document at `url` through `cache`.
pub fn get_cached(cache: &Cache, url: &str, policy: Policy) -> (lookup: Lookup)
    ensures
        lookup@ == starting(TargetView { url: url@, key: cache_key(cache.enabled(), url@), policy }),
{
    match cache.get(url) {
        Some(StoreOp::Get { key }) => {
            let target = Target { url: url.to_owned(), key: Some(clone_bytes(&key)), policy };
            Lookup::Load { op: StoreOp::Get { key }, target }
        },
        _ => {
            let target = Target { url: url.to_owned(), key: None, policy };
            match get(url, &policy) {
                Get::Send(hop) => Lookup::Fetch { hop, stale: None, target },
                Get::Done(_) => Lookup::Done(None),
            }
        },
    }
}

impl Lookup {
    /// Resumes the lookup once the store has performed its operation: `reply` is
    /// what the store holds under the key of a read, and `None` after a write.
    pub fn stored(self, reply: Option<Vec<u8>>, now: Timestamp) -> (next: Lookup)
        ensures
            next@ == after_store(self@, opt_bytes(reply), now),
    {
        match self {
            Lookup::Load { op, target } => loaded_step(reply, target, now),
            Lookup::Save { op, body } => Lookup::Done(Some(body)),
            other => other,
        }
    }

    /// Resumes the lookup once its request was sent: `outcome` is the response, and
    /// `None` where the transport failed.
    pub fn received(self, outcome: Option<Response>, now: Timestamp) -> (next: Lookup)
        ensures
            next@ == after_send(self@, opt_response(outcome), now),
    {
        match self {
            Lookup::Check { hop, entry, target } => match Check::resume(hop, outcome) {
                Check::Send(next) => Lookup::Check { hop: next, entry, target },
                Check::Done(verdict) => checked_step(verdict, entry, target, now),
            },
            Lookup::Fetch { hop, stale, target } => match Get::resume(hop, outcome, now) {
                Get::Send(next) => Lookup::Fetch { hop: next, stale, target },
                Get::Done(found) => fetched_step(found, stale, target, now),
            },
            other => other,
        }
    }
}

} // verus!
