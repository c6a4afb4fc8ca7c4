//! What a lookup does in a world: a store that holds what was put into it, and a
//! network that answers each request in its turn.
//!
//! The caller of the library performs the operation that each step of a lookup
//! names and resumes the lookup with the result. `run` is that loop, written over
//! a store and over the answers of the network; the theorems of this module state
//! what every run does.

use crate::cache::{store_after, store_reply, StoreOpView};
use crate::codec::{decode_doc, encode_doc, lemma_decode_encode};
use crate::http::{
    first_hop, follow, landed, plain_request, status_class, url_is_wellformed, verdict, DocView,
    HopView, RedirectView, RequestView, ResponseView, StatusClass,
};
use crate::revalidate::{
    after_send, after_store, checked, fetched, fetching, loaded, saving, starting, LookupView,
    TargetView,
};
use crate::time::{is_fresh, Timestamp};
use vstd::prelude::*;

verus! {

/// The answers of the network: `net(i)` is what comes of the request sent when `i`
/// requests were sent before it, a response or `None` for a transport failure.
pub type Net = spec_fn(nat) -> Option<ResponseView>;

/// What a store holds: the bytes stored under each key.
pub type Store = Map<Seq<u8>, Seq<u8>>;

/// One operation performed for a lookup.
pub enum Effect {
    /// The store performed this operation.
    Store(StoreOpView),
    /// This request was sent.
    Send(RequestView),
}

/// How a fetch ended.
pub struct FetchEnd {
    /// The response that ended it; `None` where the fetch failed.
    pub response: Option<ResponseView>,
    /// The requests that were sent, in their order.
    pub requests: Seq<RequestView>,
}

/// The fetch that starts with the request of `hop`, as the `at`-th request of all:
/// each request is sent and answered, and redirects are followed, until the fetch
/// ends.
pub open spec fn fetch(hop: HopView, net: Net, at: nat) -> FetchEnd
    decreases hop.left,
{
    match follow(hop, net(at)) {
        RedirectView::Follow(next) => {
            let rest = fetch(next, net, at + 1);
            FetchEnd { response: rest.response, requests: seq![hop.request] + rest.requests }
        },
        RedirectView::Done(res) => FetchEnd { response: Some(res), requests: seq![hop.request] },
        RedirectView::Failed => FetchEnd { response: None, requests: seq![hop.request] },
    }
}

/// The fetch of `request` that follows at most `limit` redirects; nothing is sent
/// where no request can be made to the address.
pub open spec fn fetch_all(request: RequestView, limit: u32, net: Net, at: nat) -> FetchEnd {
    match first_hop(request, limit) {
        Some(hop) => fetch(hop, net, at),
        None => FetchEnd { response: None, requests: Seq::empty() },
    }
}

/// Whether the server answers every request from the `at`-th on with a redirect to
/// an address to which a request can be made.
pub open spec fn always_redirects(net: Net, at: nat) -> bool {
    forall|i: nat|
        i >= at ==> match #[trigger] net(i) {
            Some(res) => status_class(res.status) == StatusClass::Redirect && match res.location {
                Some(target) => url_is_wellformed(target),
                None => false,
            },
            None => false,
        }
}

/// A server that answers every request with a redirect is asked once more than the
/// redirects that the fetch may follow, and the fetch then fails.
pub proof fn theorem_redirects_are_bounded(hop: HopView, net: Net, at: nat)
    requires
        always_redirects(net, at),
    ensures
        fetch(hop, net, at).response.is_none(),
        fetch(hop, net, at).requests.len() == hop.left + 1,
    decreases hop.left,
{
    assert(net(at) is Some);
    match follow(hop, net(at)) {
        RedirectView::Follow(next) => {
            theorem_redirects_are_bounded(next, net, at + 1);
        },
        _ => {},
    }
}

/// Every request of a fetch carries the validators of its first request: a redirect
/// changes the address and nothing else. A fetch sends at least one request, and at
/// most one more than the redirects that it may follow.
pub proof fn theorem_fetch_keeps_validators(hop: HopView, net: Net, at: nat)
    ensures
        1 <= fetch(hop, net, at).requests.len() <= hop.left + 1,
        fetch(hop, net, at).requests[0] == hop.request,
        forall|i: int|
            0 <= i < fetch(hop, net, at).requests.len() ==> {
                let sent = #[trigger] fetch(hop, net, at).requests[i];
                sent.if_none_match == hop.request.if_none_match && sent.if_modified_since
                    == hop.request.if_modified_since
            },
    decreases hop.left,
{
    match follow(hop, net(at)) {
        RedirectView::Follow(next) => {
            theorem_fetch_keeps_validators(next, net, at + 1);
            let rest = fetch(next, net, at + 1).requests;
            let all = fetch(hop, net, at).requests;
            assert forall|i: int| 0 <= i < all.len() implies {
                let sent = #[trigger] all[i];
                sent.if_none_match == hop.request.if_none_match && sent.if_modified_since
                    == hop.request.if_modified_since
            } by {
                if i > 0 {
                    assert(all[i] == rest[i - 1]);
                }
            }
        },
        _ => {},
    }
}

/// How a lookup ended.
pub struct Outcome {
    /// What the lookup returned: the body of the document, or `None`.
    pub body: Option<Seq<u8>>,
    /// What the store holds afterwards.
    pub store: Store,
    /// The operations that were performed, in their order.
    pub trace: Seq<Effect>,
}

/// How far a lookup is from its end, by the kind of its step.
pub open spec fn rank(state: LookupView) -> nat {
    match state {
        LookupView::Load { .. } => 4,
        LookupView::Check { .. } => 3,
        LookupView::Fetch { .. } => 2,
        LookupView::Save { .. } => 1,
        LookupView::Done(_) => 0,
    }
}

/// The redirects that the fetch of a step may still follow.
pub open spec fn redirects_left(state: LookupView) -> nat {
    match state {
        LookupView::Check { hop, .. } => hop.left as nat,
        LookupView::Fetch { hop, .. } => hop.left as nat,
        _ => 0,
    }
}

/// The lookup that stands at `state`, carried to its end at `now`: the store
/// performs each operation asked of it, and each request is sent and answered, the
/// first of them as the `at`-th request of all.
pub open spec fn run(state: LookupView, store: Store, net: Net, at: nat, now: Timestamp) -> Outcome
    decreases rank(state), redirects_left(state),
{
    match state {
        LookupView::Done(body) => Outcome { body, store, trace: Seq::empty() },
        LookupView::Load { op, .. } | LookupView::Save { op, .. } => {
            let next = after_store(state, store_reply(store, op), now);
            let rest = run(next, store_after(store, op), net, at, now);
            Outcome { trace: seq![Effect::Store(op)] + rest.trace, ..rest }
        },
        LookupView::Check { hop, .. } | LookupView::Fetch { hop, .. } => {
            let next = after_send(state, net(at), now);
            let rest = run(next, store, net, at + 1, now);
            Outcome { trace: seq![Effect::Send(hop.request)] + rest.trace, ..rest }
        },
    }
}

/// The requests of a fetch, as operations performed.
pub open spec fn sends(requests: Seq<RequestView>) -> Seq<Effect> {
    requests.map_values(|request: RequestView| Effect::Send(request))
}

/// The document that a fetch brought at `now`, if it brought one.
pub open spec fn found(end: FetchEnd, now: Timestamp) -> Option<DocView<Seq<u8>>> {
    match end.response {
        Some(res) => landed(res, now),
        None => None,
    }
}

/// What a check found out: `Some(false)` that nothing is newer, `Some(true)` that
/// something is, `None` nothing.
pub open spec fn judged(end: FetchEnd) -> Option<bool> {
    match end.response {
        Some(res) => verdict(res),
        None => None,
    }
}

/// How the lookup of `target` ends once `doc` is to be stored and returned.
pub open spec fn saved(doc: DocView<Seq<u8>>, target: TargetView, store: Store) -> Outcome {
    match target.key {
        Some(key) => Outcome {
            body: Some(doc.body),
            store: store.insert(key, encode_doc(doc)),
            trace: seq![Effect::Store(StoreOpView::Put { key, val: encode_doc(doc) })],
        },
        None => Outcome { body: Some(doc.body), store, trace: Seq::empty() },
    }
}

proof fn lemma_run_saving(
    doc: DocView<Seq<u8>>,
    target: TargetView,
    store: Store,
    net: Net,
    at: nat,
    now: Timestamp,
)
    ensures
        run(saving(doc, target), store, net, at, now) == saved(doc, target, store),
{
    match target.key {
        Some(key) => {
            let op = StoreOpView::Put { key, val: encode_doc(doc) };
            let state = saving(doc, target);
            let next = after_store(state, store_reply(store, op), now);
            assert(next == LookupView::Done(Some(doc.body)));
            let rest = run(next, store_after(store, op), net, at, now);
            assert(rest.trace =~= Seq::empty());
            assert(seq![Effect::Store(op)] + rest.trace =~= seq![Effect::Store(op)]);
        },
        None => {},
    }
}

/// How the lookup of `target` ends once a fetch has ended with `brought`, where
/// `stale` is what the store held before.
pub open spec fn settled(
    brought: Option<DocView<Seq<u8>>>,
    stale: Option<DocView<Seq<u8>>>,
    target: TargetView,
    store: Store,
    now: Timestamp,
) -> Outcome {
    match brought {
        Some(doc) => saved(doc, target, store),
        None => match stale {
            Some(entry) => saved(entry.refreshed(now), target, store),
            None => Outcome { body: None, store, trace: Seq::empty() },
        },
    }
}

proof fn lemma_run_fetched(
    brought: Option<DocView<Seq<u8>>>,
    stale: Option<DocView<Seq<u8>>>,
    target: TargetView,
    store: Store,
    net: Net,
    at: nat,
    now: Timestamp,
)
    ensures
        run(fetched(brought, stale, target, now), store, net, at, now) == settled(
            brought,
            stale,
            target,
            store,
            now,
        ),
{
    match brought {
        Some(doc) => lemma_run_saving(doc, target, store, net, at, now),
        None => match stale {
            Some(entry) => lemma_run_saving(entry.refreshed(now), target, store, net, at, now),
            None => {},
        },
    }
}

/// A lookup that stands at a request of its fetch sends the requests of that fetch
/// and ends as the fetch settles it.
#[verifier::rlimit(50)]
pub proof fn lemma_run_fetch(
    hop: HopView,
    stale: Option<DocView<Seq<u8>>>,
    target: TargetView,
    store: Store,
    net: Net,
    at: nat,
    now: Timestamp,
)
    ensures
        ({
            let end = fetch(hop, net, at);
            let rest = settled(found(end, now), stale, target, store, now);
            run(LookupView::Fetch { hop, stale, target }, store, net, at, now) == Outcome {
                body: rest.body,
                store: rest.store,
                trace: sends(end.requests) + rest.trace,
            }
        }),
    decreases hop.left,
{
    let state = LookupView::Fetch { hop, stale, target };
    let end = fetch(hop, net, at);
    let rest = settled(found(end, now), stale, target, store, now);
    let whole = run(state, store, net, at, now);
    match follow(hop, net(at)) {
        RedirectView::Follow(next) => {
            lemma_run_fetch(next, stale, target, store, net, at + 1, now);
            let tail = fetch(next, net, at + 1);
            assert(sends(end.requests) =~= seq![Effect::Send(hop.request)] + sends(tail.requests));
            assert(whole.trace =~= sends(end.requests) + rest.trace);
        },
        RedirectView::Done(res) => {
            lemma_run_fetched(landed(res, now), stale, target, store, net, at + 1, now);
            assert(sends(end.requests) =~= seq![Effect::Send(hop.request)]);
        },
        RedirectView::Failed => {
            lemma_run_fetched(None, stale, target, store, net, at + 1, now);
            assert(sends(end.requests) =~= seq![Effect::Send(hop.request)]);
        },
    }
}

/// How the lookup of `target` ends once it turns to fetching the document, the
/// first request of the fetch being the `at`-th of all.
pub open spec fn refetched(
    stale: Option<DocView<Seq<u8>>>,
    target: TargetView,
    store: Store,
    net: Net,
    at: nat,
    now: Timestamp,
) -> Outcome {
    let end = fetch_all(plain_request(target.url), target.policy.redirect_limit, net, at);
    let rest = settled(found(end, now), stale, target, store, now);
    Outcome { body: rest.body, store: rest.store, trace: sends(end.requests) + rest.trace }
}

proof fn lemma_run_fetching(
    stale: Option<DocView<Seq<u8>>>,
    target: TargetView,
    store: Store,
    net: Net,
    at: nat,
    now: Timestamp,
)
    ensures
        run(fetching(stale, target, now), store, net, at, now) == refetched(
            stale,
            target,
            store,
            net,
            at,
            now,
        ),
{
    let end = fetch_all(plain_request(target.url), target.policy.redirect_limit, net, at);
    match first_hop(plain_request(target.url), target.policy.redirect_limit) {
        Some(hop) => {
            lemma_run_fetch(hop, stale, target, store, net, at, now);
        },
        None => {
            lemma_run_fetched(None, stale, target, store, net, at, now);
            let rest = settled(None, stale, target, store, now);
            assert(sends(end.requests) + rest.trace =~= rest.trace);
        },
    }
}

/// The request that asks whether `entry` is still the current document at `url`.
pub open spec fn check_request(url: Seq<char>, entry: DocView<Seq<u8>>) -> RequestView {
    RequestView { url, if_none_match: entry.etag, if_modified_since: entry.date }
}

/// How the lookup of `target` ends once the check of `entry` has found out
/// `verdict`, the next request being the `at`-th of all.
pub open spec fn revalidated(
    verdict: Option<bool>,
    entry: DocView<Seq<u8>>,
    target: TargetView,
    store: Store,
    net: Net,
    at: nat,
    now: Timestamp,
) -> Outcome {
    match verdict {
        Some(true) => refetched(Some(entry), target, store, net, at, now),
        _ => saved(entry.refreshed(now), target, store),
    }
}

proof fn lemma_run_checked(
    verdict: Option<bool>,
    entry: DocView<Seq<u8>>,
    target: TargetView,
    store: Store,
    net: Net,
    at: nat,
    now: Timestamp,
)
    ensures
        run(checked(verdict, entry, target, now), store, net, at, now) == revalidated(
            verdict,
            entry,
            target,
            store,
            net,
            at,
            now,
        ),
{
    match verdict {
        Some(true) => lemma_run_fetching(Some(entry), target, store, net, at, now),
        _ => lemma_run_saving(entry.refreshed(now), target, store, net, at, now),
    }
}

/// A lookup that stands at a request of its check sends the requests of that check
/// and ends as the verdict settles it.
#[verifier::rlimit(50)]
pub proof fn lemma_run_check(
    hop: HopView,
    entry: DocView<Seq<u8>>,
    target: TargetView,
    store: Store,
    net: Net,
    at: nat,
    now: Timestamp,
)
    ensures
        ({
            let end = fetch(hop, net, at);
            let rest = revalidated(
                judged(end),
                entry,
                target,
                store,
                net,
                at + end.requests.len(),
                now,
            );
            run(LookupView::Check { hop, entry, target }, store, net, at, now) == Outcome {
                body: rest.body,
                store: rest.store,
                trace: sends(end.requests) + rest.trace,
            }
        }),
    decreases hop.left,
{
    let state = LookupView::Check { hop, entry, target };
    let end = fetch(hop, net, at);
    let rest = revalidated(judged(end), entry, target, store, net, at + end.requests.len(), now);
    let whole = run(state, store, net, at, now);
    match follow(hop, net(at)) {
        RedirectView::Follow(next) => {
            lemma_run_check(next, entry, target, store, net, at + 1, now);
            let tail = fetch(next, net, at + 1);
            assert(sends(end.requests) =~= seq![Effect::Send(hop.request)] + sends(tail.requests));
            assert(whole.trace =~= sends(end.requests) + rest.trace);
        },
        RedirectView::Done(res) => {
            lemma_run_checked(verdict(res), entry, target, store, net, at + 1, now);
            assert(sends(end.requests) =~= seq![Effect::Send(hop.request)]);
        },
        RedirectView::Failed => {
            lemma_run_checked(None, entry, target, store, net, at + 1, now);
            assert(sends(end.requests) =~= seq![Effect::Send(hop.request)]);
        },
    }
}

/// How the lookup of `target` ends once the stale `entry` is to be checked with
/// the server, the first request of the check being the `at`-th of all.
pub open spec fn rechecked(
    entry: DocView<Seq<u8>>,
    target: TargetView,
    store: Store,
    net: Net,
    at: nat,
    now: Timestamp,
) -> Outcome {
    let end = fetch_all(check_request(target.url, entry), target.policy.redirect_limit, net, at);
    let rest = revalidated(judged(end), entry, target, store, net, at + end.requests.len(), now);
    Outcome { body: rest.body, store: rest.store, trace: sends(end.requests) + rest.trace }
}

/// How a lookup ends that found `entry` in the store.
pub open spec fn served(
    entry: Option<DocView<Seq<u8>>>,
    target: TargetView,
    store: Store,
    net: Net,
    at: nat,
    now: Timestamp,
) -> Outcome {
    match entry {
        Some(doc) => if is_fresh(doc.time, now, target.policy.refresh_interval) {
            Outcome { body: Some(doc.body), store, trace: Seq::empty() }
        } else {
            rechecked(doc, target, store, net, at, now)
        },
        None => refetched(None, target, store, net, at, now),
    }
}

/// What the store holds as the document under `key`: what is stored there, read
/// as a document, and `None` where nothing is stored or it does not read as one.
pub open spec fn entry_of(store: Store, key: Seq<u8>) -> Option<DocView<Seq<u8>>> {
    if store.dom().contains(key) {
        decode_doc(store[key])
    } else {
        None
    }
}

/// How the lookup of `target` ends in a world: with a store, it reads the entry
/// and goes by it; without one, it fetches the document.
pub open spec fn looked_up(target: TargetView, store: Store, net: Net, at: nat, now: Timestamp) -> Outcome {
    match target.key {
        Some(key) => {
            let rest = served(entry_of(store, key), target, store, net, at, now);
            Outcome {
                body: rest.body,
                store: rest.store,
                trace: seq![Effect::Store(StoreOpView::Get { key })] + rest.trace,
            }
        },
        None => refetched(None, target, store, net, at, now),
    }
}

#[verifier::rlimit(50)]
proof fn lemma_run_loaded(
    reply: Option<Seq<u8>>,
    target: TargetView,
    store: Store,
    net: Net,
    at: nat,
    now: Timestamp,
)
    ensures
        run(loaded(reply, target, now), store, net, at, now) == served(
            match reply {
                Some(bytes) => decode_doc(bytes),
                None => None,
            },
            target,
            store,
            net,
            at,
            now,
        ),
{
    let entry = match reply {
        Some(bytes) => decode_doc(bytes),
        None => None,
    };
    match entry {
        Some(doc) => {
            if is_fresh(doc.time, now, target.policy.refresh_interval) {
            } else {
                let request = check_request(target.url, doc);
                let end = fetch_all(request, target.policy.redirect_limit, net, at);
                match first_hop(request, target.policy.redirect_limit) {
                    Some(hop) => {
                        lemma_run_check(hop, doc, target, store, net, at, now);
                    },
                    None => {
                        lemma_run_checked(None, doc, target, store, net, at, now);
                        let rest = revalidated(None, doc, target, store, net, at, now);
                        assert(sends(end.requests) + rest.trace =~= rest.trace);
                    },
                }
            }
        },
        None => {
            lemma_run_fetching(None, target, store, net, at, now);
        },
    }
}

/// A lookup run from its start ends as [`looked_up`] says.
pub proof fn lemma_run_lookup(target: TargetView, store: Store, net: Net, at: nat, now: Timestamp)
    ensures
        run(starting(target), store, net, at, now) == looked_up(target, store, net, at, now),
{
    match target.key {
        Some(key) => {
            let op = StoreOpView::Get { key };
            let state = LookupView::Load { op, target };
            let reply = store_reply(store, op);
            assert(starting(target) == state);
            assert(after_store(state, reply, now) == loaded(reply, target, now));
            assert(store_after(store, op) == store);
            lemma_run_loaded(reply, target, store, net, at, now);
        },
        None => {
            lemma_run_fetching(None, target, store, net, at, now);
        },
    }
}

/// Whether `store` holds `doc`, in its stored form, under `key`.
pub open spec fn holds(store: Store, key: Seq<u8>, doc: DocView<Seq<u8>>) -> bool {
    store.dom().contains(key) && store[key] == encode_doc(doc)
}

/// A store that holds a document gives that document when it is read.
pub proof fn lemma_entry_of_held(store: Store, key: Seq<u8>, doc: DocView<Seq<u8>>)
    requires
        holds(store, key, doc),
    ensures
        entry_of(store, key) == Some(doc),
{
    lemma_decode_encode(doc);
}

/// While a stored document is fresh, a lookup returns its body as it was stored,
/// sends no request, and leaves the store as it is: all it does is read the store.
pub proof fn theorem_fresh_entry_is_served(
    target: TargetView,
    key: Seq<u8>,
    doc: DocView<Seq<u8>>,
    store: Store,
    net: Net,
    at: nat,
    now: Timestamp,
)
    requires
        target.key == Some(key),
        holds(store, key, doc),
        is_fresh(doc.time, now, target.policy.refresh_interval),
    ensures
        ({
            let end = run(starting(target), store, net, at, now);
            &&& end.body == Some(doc.body)
            &&& end.store == store
            &&& end.trace == seq![Effect::Store(StoreOpView::Get { key })]
        }),
{
    lemma_run_lookup(target, store, net, at, now);
    lemma_entry_of_held(store, key, doc);
    let get = seq![Effect::Store(StoreOpView::Get { key })];
    assert(get + Seq::<Effect>::empty() =~= get);
}

/// Where the server says that a stale document has not changed, the lookup returns
/// the body that was stored, byte for byte, and stores the document again with
/// nothing changed but its time, which moves forward to the time of the check.
#[verifier::rlimit(50)]
pub proof fn theorem_unmodified_keeps_body(
    target: TargetView,
    key: Seq<u8>,
    doc: DocView<Seq<u8>>,
    store: Store,
    net: Net,
    at: nat,
    now: Timestamp,
)
    requires
        target.key == Some(key),
        holds(store, key, doc),
        !is_fresh(doc.time, now, target.policy.refresh_interval),
        judged(
            fetch_all(check_request(target.url, doc), target.policy.redirect_limit, net, at),
        ) == Some(false),
    ensures
        ({
            let end = run(starting(target), store, net, at, now);
            let probe = fetch_all(
                check_request(target.url, doc),
                target.policy.redirect_limit,
                net,
                at,
            );
            let kept = doc.refreshed(now);
            &&& end.body == Some(doc.body)
            &&& end.store == store.insert(key, encode_doc(kept))
            &&& entry_of(end.store, key) == Some(kept)
            &&& kept.body == doc.body && kept.etag == doc.etag && kept.date == doc.date
            &&& kept.time.nanos_total() >= doc.time.nanos_total()
            &&& doc.time.nanos_total() < now.nanos_total() ==> kept.time == now
            &&& end.trace == seq![Effect::Store(StoreOpView::Get { key })] + sends(probe.requests)
                + seq![Effect::Store(StoreOpView::Put { key, val: encode_doc(kept) })]
        }),
{
    lemma_run_lookup(target, store, net, at, now);
    lemma_entry_of_held(store, key, doc);
    let kept = doc.refreshed(now);
    lemma_entry_of_held(store.insert(key, encode_doc(kept)), key, kept);
}

/// Where the server says that a stale document has changed and the fetch that
/// follows brings a document, the lookup returns the new body and stores the new
/// document whole, validators, time and body together, in place of the old one.
/// A lookup made while the new document is fresh returns the new body.
#[verifier::rlimit(50)]
pub proof fn theorem_modified_replaces_entry(
    target: TargetView,
    key: Seq<u8>,
    doc: DocView<Seq<u8>>,
    store: Store,
    net: Net,
    at: nat,
    now: Timestamp,
    brought: DocView<Seq<u8>>,
)
    requires
        target.key == Some(key),
        holds(store, key, doc),
        !is_fresh(doc.time, now, target.policy.refresh_interval),
        ({
            let probe = fetch_all(
                check_request(target.url, doc),
                target.policy.redirect_limit,
                net,
                at,
            );
            let get = fetch_all(
                plain_request(target.url),
                target.policy.redirect_limit,
                net,
                at + probe.requests.len(),
            );
            judged(probe) == Some(true) && found(get, now) == Some(brought)
        }),
    ensures
        ({
            let end = run(starting(target), store, net, at, now);
            let probe = fetch_all(
                check_request(target.url, doc),
                target.policy.redirect_limit,
                net,
                at,
            );
            let get = fetch_all(
                plain_request(target.url),
                target.policy.redirect_limit,
                net,
                at + probe.requests.len(),
            );
            &&& end.body == Some(brought.body)
            &&& end.store == store.insert(key, encode_doc(brought))
            &&& entry_of(end.store, key) == Some(brought)
            &&& brought.time == now
            &&& end.trace == seq![Effect::Store(StoreOpView::Get { key })] + sends(probe.requests)
                + sends(get.requests) + seq![
                Effect::Store(StoreOpView::Put { key, val: encode_doc(brought) }),
            ]
            &&& forall|later: Timestamp, net2: Net, at2: nat|
                is_fresh(now, later, target.policy.refresh_interval) ==> (#[trigger] run(
                    starting(target),
                    end.store,
                    net2,
                    at2,
                    later,
                )).body == Some(brought.body)
        }),
{
    lemma_run_lookup(target, store, net, at, now);
    lemma_entry_of_held(store, key, doc);
    let after = store.insert(key, encode_doc(brought));
    lemma_entry_of_held(after, key, brought);
    let probe = fetch_all(check_request(target.url, doc), target.policy.redirect_limit, net, at);
    let get = fetch_all(
        plain_request(target.url),
        target.policy.redirect_limit,
        net,
        at + probe.requests.len(),
    );
    let head = seq![Effect::Store(StoreOpView::Get { key })];
    let tail = seq![Effect::Store(StoreOpView::Put { key, val: encode_doc(brought) })];
    assert(head + (sends(probe.requests) + (sends(get.requests) + tail)) =~= head + sends(
        probe.requests,
    ) + sends(get.requests) + tail);
    assert forall|later: Timestamp, net2: Net, at2: nat|
        is_fresh(now, later, target.policy.refresh_interval) implies (#[trigger] run(
        starting(target),
        after,
        net2,
        at2,
        later,
    )).body == Some(brought.body) by {
        theorem_fresh_entry_is_served(target, key, brought, after, net2, at2, later);
    }
}

/// Without a store a lookup is one fetch of the document and nothing else: it
/// sends the requests of that fetch, returns the body that the fetch brought, and
/// no store is read or written.
pub proof fn theorem_without_store(
    target: TargetView,
    store: Store,
    net: Net,
    at: nat,
    now: Timestamp,
)
    requires
        target.key.is_none(),
    ensures
        ({
            let end = run(starting(target), store, net, at, now);
            let get = fetch_all(plain_request(target.url), target.policy.redirect_limit, net, at);
            &&& end.store == store
            &&& end.trace == sends(get.requests)
            &&& end.body == match found(get, now) {
                Some(doc) => Some(doc.body),
                None => None,
            }
        }),
{
    lemma_run_lookup(target, store, net, at, now);
    let get = fetch_all(plain_request(target.url), target.policy.redirect_limit, net, at);
    assert(sends(get.requests) + Seq::<Effect>::empty() =~= sends(get.requests));
}

/// A lookup ends with nothing only where the store gave no document and the fetch
/// brought none. Whatever the network does, a lookup that found a document in the
/// store returns a body: the stored one, unless a newer one was fetched.
#[verifier::rlimit(50)]
pub proof fn theorem_absent_only_without_entry(
    target: TargetView,
    store: Store,
    net: Net,
    at: nat,
    now: Timestamp,
)
    ensures
        ({
            let end = run(starting(target), store, net, at, now);
            let entry = match target.key {
                Some(key) => entry_of(store, key),
                None => None,
            };
            let get = fetch_all(plain_request(target.url), target.policy.redirect_limit, net, at);
            &&& end.body.is_none() <==> entry.is_none() && found(get, now).is_none()
            &&& entry matches Some(doc) ==> {
                let probe = fetch_all(
                    check_request(target.url, doc),
                    target.policy.redirect_limit,
                    net,
                    at,
                );
                let refetch = fetch_all(
                    plain_request(target.url),
                    target.policy.redirect_limit,
                    net,
                    at + probe.requests.len(),
                );
                end.body == Some(doc.body) || (!is_fresh(
                    doc.time,
                    now,
                    target.policy.refresh_interval,
                ) && judged(probe) == Some(true) && found(refetch, now).is_some() && end.body
                    == Some(found(refetch, now).unwrap().body))
            }
        }),
{
    lemma_run_lookup(target, store, net, at, now);
}

/// A server that answers every request with a redirect makes a lookup without a
/// store send one request more than the redirects that its policy allows, and
/// the lookup then ends with nothing.
pub proof fn theorem_endless_redirects_end(
    target: TargetView,
    store: Store,
    net: Net,
    at: nat,
    now: Timestamp,
)
    requires
        target.key.is_none(),
        url_is_wellformed(target.url),
        always_redirects(net, at),
    ensures
        ({
            let end = run(starting(target), store, net, at, now);
            &&& end.body.is_none()
            &&& end.trace.len() == target.policy.redirect_limit + 1
            &&& forall|i: int| 0 <= i < end.trace.len() ==> #[trigger] end.trace[i] is Send
        }),
{
    theorem_without_store(target, store, net, at, now);
    let hop = first_hop(plain_request(target.url), target.policy.redirect_limit).unwrap();
    theorem_redirects_are_bounded(hop, net, at);
}

/// What is stored and does not read as a document counts as nothing stored: the
/// lookup fetches the document, sends the same requests and returns the same body
/// as it would with nothing under the key, and what it fetched takes the place of
/// what was stored.
pub proof fn theorem_corrupt_entry_is_a_miss(
    target: TargetView,
    key: Seq<u8>,
    junk: Seq<u8>,
    store: Store,
    net: Net,
    at: nat,
    now: Timestamp,
)
    requires
        target.key == Some(key),
        decode_doc(junk).is_none(),
    ensures
        ({
            let with_junk = run(starting(target), store.insert(key, junk), net, at, now);
            let without = run(starting(target), store.remove(key), net, at, now);
            let get = fetch_all(plain_request(target.url), target.policy.redirect_limit, net, at);
            &&& with_junk.body == without.body
            &&& with_junk.trace == without.trace
            &&& with_junk.body == match found(get, now) {
                Some(doc) => Some(doc.body),
                None => None,
            }
            &&& found(get, now) matches Some(doc) ==> entry_of(with_junk.store, key) == Some(doc)
            &&& found(get, now).is_none() ==> with_junk.store == store.insert(key, junk)
        }),
{
    lemma_run_lookup(target, store.insert(key, junk), net, at, now);
    lemma_run_lookup(target, store.remove(key), net, at, now);
    match found(fetch_all(plain_request(target.url), target.policy.redirect_limit, net, at), now) {
        Some(doc) => {
            lemma_entry_of_held(store.insert(key, junk).insert(key, encode_doc(doc)), key, doc);
        },
        None => {},
    }
}

/// The life of an entry: a lookup leaves a stored document as it is, or stores it
/// again with only its time moved forward, or puts in its place, whole, the
/// document that a fetch brought after the server said that it had changed. The
/// body of an entry changes in no other way.
pub proof fn theorem_entry_changes_only_by_refetch(
    target: TargetView,
    key: Seq<u8>,
    doc: DocView<Seq<u8>>,
    store: Store,
    net: Net,
    at: nat,
    now: Timestamp,
)
    requires
        target.key == Some(key),
        holds(store, key, doc),
    ensures
        ({
            let end = run(starting(target), store, net, at, now);
            let probe = fetch_all(
                check_request(target.url, doc),
                target.policy.redirect_limit,
                net,
                at,
            );
            let refetch = fetch_all(
                plain_request(target.url),
                target.policy.redirect_limit,
                net,
                at + probe.requests.len(),
            );
            let replaced = !is_fresh(doc.time, now, target.policy.refresh_interval) && judged(probe)
                == Some(true) && found(refetch, now).is_some();
            &&& replaced ==> entry_of(end.store, key) == found(refetch, now)
            &&& !replaced ==> entry_of(end.store, key) == Some(doc) || entry_of(end.store, key)
                == Some(doc.refreshed(now))
            &&& !replaced ==> end.body == Some(doc.body)
            &&& forall|other: Seq<u8>|
                other != key ==> (end.store.dom().contains(other) <==> store.dom().contains(other))
                    && (store.dom().contains(other) ==> end.store[other] == store[other])
        }),
{
    lemma_run_lookup(target, store, net, at, now);
    lemma_entry_of_held(store, key, doc);
    let kept = doc.refreshed(now);
    lemma_entry_of_held(store.insert(key, encode_doc(kept)), key, kept);
    let probe = fetch_all(check_request(target.url, doc), target.policy.redirect_limit, net, at);
    let refetch = fetch_all(
        plain_request(target.url),
        target.policy.redirect_limit,
        net,
        at + probe.requests.len(),
    );
    match found(refetch, now) {
        Some(brought) => {
            lemma_entry_of_held(store.insert(key, encode_doc(brought)), key, brought);
        },
        None => {},
    }
}

/// The requests of a fetch are at most one more than the redirects that it may
/// follow, and none where no request can be made to the address.
pub proof fn lemma_fetch_all_is_bounded(request: RequestView, limit: u32, net: Net, at: nat)
    ensures
        fetch_all(request, limit, net, at).requests.len() <= limit + 1,
{
    match first_hop(request, limit) {
        Some(hop) => theorem_fetch_keeps_validators(hop, net, at),
        None => {},
    }
}

/// A lookup is one sequence and ends: it reads the store at most once, sends the
/// requests of at most one check and one fetch, each no more than one more than
/// the redirects allowed, and writes the store at most once.
pub proof fn theorem_lookup_is_bounded(
    target: TargetView,
    store: Store,
    net: Net,
    at: nat,
    now: Timestamp,
)
    ensures
        run(starting(target), store, net, at, now).trace.len() <= 2 * (
        target.policy.redirect_limit + 1) + 2,
{
    lemma_run_lookup(target, store, net, at, now);
    let limit = target.policy.redirect_limit;
    lemma_fetch_all_is_bounded(plain_request(target.url), limit, net, at);
    match target.key {
        Some(key) => {
            match entry_of(store, key) {
                Some(doc) => {
                    lemma_fetch_all_is_bounded(check_request(target.url, doc), limit, net, at);
                    let probe = fetch_all(check_request(target.url, doc), limit, net, at);
                    lemma_fetch_all_is_bounded(
                        plain_request(target.url),
                        limit,
                        net,
                        at + probe.requests.len(),
                    );
                },
                None => {},
            }
        },
        None => {},
    }
}

} // verus!
