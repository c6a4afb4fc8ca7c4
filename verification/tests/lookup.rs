use std::collections::HashMap;
use std::collections::VecDeque;

use webcache::{
    decode, encode, get_cached, serialize_key, Args, Cache, Doc, Lookup, Policy, Request, Response,
    StoreOp, Timestamp,
};

const URL: &str = "https://example.com/catalog.json";

/// A store in memory and a server that gives its answers in the order written.
struct World {
    store: HashMap<Vec<u8>, Vec<u8>>,
    answers: VecDeque<Option<Response>>,
    sent: Vec<Request>,
    reads: usize,
    writes: usize,
}

impl World {
    fn new() -> World {
        World {
            store: HashMap::new(),
            answers: VecDeque::new(),
            sent: Vec::new(),
            reads: 0,
            writes: 0,
        }
    }

    fn answer(&mut self, response: Response) {
        self.answers.push_back(Some(response));
    }

    fn fail(&mut self) {
        self.answers.push_back(None);
    }

    fn perform(&mut self, op: &StoreOp) -> Option<Vec<u8>> {
        match op {
            StoreOp::Get { key } => {
                self.reads += 1;
                self.store.get(key).cloned()
            }
            StoreOp::Put { key, val } => {
                self.writes += 1;
                self.store.insert(key.clone(), val.clone());
                None
            }
            StoreOp::Del { key } => {
                self.writes += 1;
                self.store.remove(key);
                None
            }
        }
    }

    fn send(&mut self, request: &Request) -> Option<Response> {
        self.sent.push(request.clone());
        self.answers.pop_front().unwrap_or(None)
    }

    fn lookup(&mut self, cache: &Cache, url: &str, now: Timestamp) -> Option<Vec<u8>> {
        self.lookup_with(cache, url, Policy::default(), now)
    }

    fn lookup_with(
        &mut self,
        cache: &Cache,
        url: &str,
        policy: Policy,
        now: Timestamp,
    ) -> Option<Vec<u8>> {
        let mut lookup = get_cached(cache, url, policy);
        let mut steps = 0;
        loop {
            steps += 1;
            assert!(steps < 100, "the lookup does not end");
            lookup = match lookup {
                Lookup::Done(body) => return body,
                Lookup::Load { .. } | Lookup::Save { .. } => {
                    let reply = match &lookup {
                        Lookup::Load { op, .. } | Lookup::Save { op, .. } => self.perform(op),
                        _ => unreachable!(),
                    };
                    lookup.stored(reply, now)
                }
                Lookup::Check { .. } | Lookup::Fetch { .. } => {
                    let outcome = match &lookup {
                        Lookup::Check { hop, .. } | Lookup::Fetch { hop, .. } => {
                            self.send(&hop.request)
                        }
                        _ => unreachable!(),
                    };
                    lookup.received(outcome, now)
                }
            };
        }
    }

    fn entry(&self, url: &str) -> Option<Doc<Vec<u8>>> {
        let key = serialize_key(url).unwrap();
        self.store.get(&key).and_then(|bytes| decode(bytes))
    }

    fn plant(&mut self, url: &str, doc: &Doc<Vec<u8>>) {
        let key = serialize_key(url).unwrap();
        self.store.insert(key, encode(doc));
    }
}

fn at(secs: u64) -> Timestamp {
    Timestamp { secs, nanos: 0 }
}

fn minutes(n: u64) -> Timestamp {
    at(1_700_000_000 + 60 * n)
}

fn args(dir: Option<&str>, no_cache: bool) -> Args {
    Args {
        log_level: "warn".to_string(),
        verbose: false,
        quiet: false,
        force: false,
        cache_dir: dir.map(|d| d.to_string()),
        no_cache,
        catalog_url: URL.to_string(),
    }
}

fn enabled() -> Cache {
    Cache::open(&args(Some("/tmp/cache"), false), "schemastore")
}

fn ok(body: &[u8], etag: Option<&str>, date: Option<&str>) -> Response {
    Response {
        status: 200,
        etag: etag.map(|s| s.to_string()),
        last_modified: date.map(|s| s.to_string()),
        location: None,
        payload: Some(body.to_vec()),
    }
}

fn status(code: u16) -> Response {
    Response { status: code, etag: None, last_modified: None, location: None, payload: None }
}

fn redirect(code: u16, to: &str) -> Response {
    Response {
        status: code,
        etag: None,
        last_modified: None,
        location: Some(to.to_string()),
        payload: None,
    }
}

fn doc(body: &[u8], etag: Option<&str>, date: Option<&str>, time: Timestamp) -> Doc<Vec<u8>> {
    Doc::at(body.to_vec(), etag.map(|s| s.to_string()), date.map(|s| s.to_string()), time)
}

fn plain(url: &str) -> Request {
    Request { url: url.to_string(), if_none_match: None, if_modified_since: None }
}

fn conditional(url: &str, etag: Option<&str>, date: Option<&str>) -> Request {
    Request {
        url: url.to_string(),
        if_none_match: etag.map(|s| s.to_string()),
        if_modified_since: date.map(|s| s.to_string()),
    }
}

#[test]
fn scenario_fetch_hit_revalidate_replace() {
    let cache = enabled();
    let mut world = World::new();

    // First call: nothing stored, the server answers 200.
    world.answer(ok(b"{\"v\":1}", Some("\"abc\""), None));
    let first = world.lookup(&cache, URL, minutes(0));
    assert_eq!(first, Some(b"{\"v\":1}".to_vec()));
    assert_eq!(world.sent, vec![plain(URL)]);
    assert_eq!(world.entry(URL), Some(doc(b"{\"v\":1}", Some("\"abc\""), None, minutes(0))));

    // Second call, a minute later: served from the store.
    world.sent.clear();
    let second = world.lookup(&cache, URL, minutes(1));
    assert_eq!(second, Some(b"{\"v\":1}".to_vec()));
    assert!(world.sent.is_empty());
    assert_eq!(world.entry(URL), Some(doc(b"{\"v\":1}", Some("\"abc\""), None, minutes(0))));

    // Third call, six minutes after the first: the server answers 304.
    world.answer(status(304));
    let third = world.lookup(&cache, URL, minutes(6));
    assert_eq!(third, Some(b"{\"v\":1}".to_vec()));
    assert_eq!(world.sent, vec![conditional(URL, Some("\"abc\""), None)]);
    assert_eq!(world.entry(URL), Some(doc(b"{\"v\":1}", Some("\"abc\""), None, minutes(6))));

    // Fourth call, twelve minutes after the first: the server has a new document.
    world.sent.clear();
    world.answer(ok(b"{\"v\":2}", Some("\"def\""), None));
    world.answer(ok(b"{\"v\":2}", Some("\"def\""), None));
    let fourth = world.lookup(&cache, URL, minutes(12));
    assert_eq!(fourth, Some(b"{\"v\":2}".to_vec()));
    assert_eq!(world.sent, vec![conditional(URL, Some("\"abc\""), None), plain(URL)]);
    assert_eq!(world.entry(URL), Some(doc(b"{\"v\":2}", Some("\"def\""), None, minutes(12))));
    assert_eq!(world.store.len(), 1);
}

#[test]
fn fresh_entry_needs_no_network() {
    let cache = enabled();
    let mut world = World::new();
    let stored = doc(b"[1,2,3]", Some("W/\"x\""), Some("Tue, 01 Jan 2030 00:00:00 GMT"), at(1000));
    world.plant(URL, &stored);
    let before = world.store.clone();

    let body = world.lookup(&cache, URL, Timestamp { secs: 1299, nanos: 999_999_999 });
    assert_eq!(body, Some(b"[1,2,3]".to_vec()));
    assert!(world.sent.is_empty());
    assert_eq!(world.reads, 1);
    assert_eq!(world.writes, 0);
    assert_eq!(world.store, before);
}

#[test]
fn entry_is_stale_at_the_refresh_interval() {
    let cache = enabled();
    let mut world = World::new();
    world.plant(URL, &doc(b"1", None, None, at(1000)));
    world.answer(status(304));

    let body = world.lookup(&cache, URL, at(1300));
    assert_eq!(body, Some(b"1".to_vec()));
    assert_eq!(world.sent.len(), 1);
    assert_eq!(world.entry(URL).unwrap().time, at(1300));
}

#[test]
fn entry_stamped_in_the_future_is_checked_and_keeps_its_time() {
    let cache = enabled();
    let mut world = World::new();
    world.plant(URL, &doc(b"1", Some("e"), None, at(5000)));
    world.answer(status(304));

    let body = world.lookup(&cache, URL, at(1000));
    assert_eq!(body, Some(b"1".to_vec()));
    assert_eq!(world.sent, vec![conditional(URL, Some("e"), None)]);
    assert_eq!(world.entry(URL).unwrap().time, at(5000));
}

#[test]
fn unmodified_keeps_body_and_moves_time() {
    let cache = enabled();
    let mut world = World::new();
    let stored = doc(b"{\"a\":\"b\"}", Some("\"v1\""), Some("Mon, 02 Jan 2006 15:04:05 GMT"), at(10));
    world.plant(URL, &stored);
    world.answer(status(304));

    let now = Timestamp { secs: 400, nanos: 7 };
    let body = world.lookup(&cache, URL, now);
    assert_eq!(body, Some(stored.body.clone()));
    assert_eq!(
        world.sent,
        vec![conditional(URL, Some("\"v1\""), Some("Mon, 02 Jan 2006 15:04:05 GMT"))]
    );
    let kept = world.entry(URL).unwrap();
    assert_eq!(kept.body, stored.body);
    assert_eq!(kept.etag, stored.etag);
    assert_eq!(kept.date, stored.date);
    assert_eq!(kept.time, now);
}

#[test]
fn modified_replaces_the_whole_entry() {
    let cache = enabled();
    let mut world = World::new();
    world.plant(URL, &doc(b"old", Some("\"v1\""), Some("then"), at(10)));
    world.answer(ok(b"ignored by the check", Some("\"v2\""), None));
    world.answer(ok(b"new", Some("\"v2\""), Some("now")));

    let body = world.lookup(&cache, URL, at(1000));
    assert_eq!(body, Some(b"new".to_vec()));
    assert_eq!(world.entry(URL), Some(doc(b"new", Some("\"v2\""), Some("now"), at(1000))));

    // While the new document is fresh it is what a lookup returns.
    world.sent.clear();
    let again = world.lookup(&cache, URL, at(1299));
    assert_eq!(again, Some(b"new".to_vec()));
    assert!(world.sent.is_empty());
}

#[test]
fn failed_check_serves_the_stale_entry() {
    let cache = enabled();
    let mut world = World::new();
    world.plant(URL, &doc(b"stale", Some("e"), None, at(10)));
    world.fail();

    let body = world.lookup(&cache, URL, at(1000));
    assert_eq!(body, Some(b"stale".to_vec()));
    assert_eq!(world.sent.len(), 1);
    assert_eq!(world.entry(URL), Some(doc(b"stale", Some("e"), None, at(1000))));
}

#[test]
fn server_error_on_check_serves_the_stale_entry() {
    let cache = enabled();
    let mut world = World::new();
    world.plant(URL, &doc(b"stale", None, Some("d"), at(10)));
    world.answer(status(503));

    let body = world.lookup(&cache, URL, at(1000));
    assert_eq!(body, Some(b"stale".to_vec()));
    assert_eq!(world.entry(URL), Some(doc(b"stale", None, Some("d"), at(1000))));
}

#[test]
fn failed_fetch_after_a_change_serves_the_stale_entry() {
    let cache = enabled();
    let mut world = World::new();
    world.plant(URL, &doc(b"stale", Some("e"), None, at(10)));
    world.answer(ok(b"x", None, None));
    world.fail();

    let body = world.lookup(&cache, URL, at(1000));
    assert_eq!(body, Some(b"stale".to_vec()));
    assert_eq!(world.sent, vec![conditional(URL, Some("e"), None), plain(URL)]);
    assert_eq!(world.entry(URL), Some(doc(b"stale", Some("e"), None, at(1000))));
}

#[test]
fn nothing_stored_and_nothing_fetched_is_absent() {
    let cache = enabled();
    let mut world = World::new();
    world.fail();

    assert_eq!(world.lookup(&cache, URL, at(1000)), None);
    assert_eq!(world.sent, vec![plain(URL)]);
    assert!(world.store.is_empty());
    assert_eq!(world.writes, 0);
}

#[test]
fn not_found_is_absent() {
    let cache = enabled();
    let mut world = World::new();
    world.answer(status(404));
    assert_eq!(world.lookup(&cache, URL, at(1000)), None);
    assert!(world.store.is_empty());
}

#[test]
fn refused_payload_is_absent_and_not_stored() {
    let cache = enabled();
    let mut world = World::new();
    world.answer(Response {
        status: 200,
        etag: Some("e".to_string()),
        last_modified: None,
        location: None,
        payload: None,
    });
    assert_eq!(world.lookup(&cache, URL, at(1000)), None);
    assert!(world.store.is_empty());
}

#[test]
fn corrupt_entry_is_a_miss() {
    let cache = enabled();
    let mut world = World::new();
    let key = serialize_key(URL).unwrap();
    world.store.insert(key, b"{\"etag\":null".to_vec());
    world.answer(ok(b"fresh", None, None));

    let body = world.lookup(&cache, URL, at(50));
    assert_eq!(body, Some(b"fresh".to_vec()));
    assert_eq!(world.sent, vec![plain(URL)]);
    assert_eq!(world.entry(URL), Some(doc(b"fresh", None, None, at(50))));
}

#[test]
fn disabled_cache_fetches_every_time_and_touches_no_store() {
    let cache = Cache::open(&args(Some("/tmp/cache"), true), "schemastore");
    assert_eq!(cache, Cache::disabled());
    let mut world = World::new();
    world.answer(ok(b"one", Some("e"), None));
    world.answer(ok(b"two", Some("e"), None));

    assert_eq!(world.lookup(&cache, URL, at(1000)), Some(b"one".to_vec()));
    assert_eq!(world.lookup(&cache, URL, at(1001)), Some(b"two".to_vec()));
    assert_eq!(world.sent, vec![plain(URL), plain(URL)]);
    assert_eq!(world.reads, 0);
    assert_eq!(world.writes, 0);
    assert!(world.store.is_empty());
}

#[test]
fn disabled_cache_without_answer_is_absent() {
    let cache = Cache::disabled();
    let mut world = World::new();
    world.fail();
    assert_eq!(world.lookup(&cache, URL, at(1000)), None);
    assert_eq!(world.sent.len(), 1);
    assert_eq!(world.reads + world.writes, 0);
}

#[test]
fn endless_redirects_end_after_limit_plus_one_requests() {
    let cache = Cache::disabled();
    let mut world = World::new();
    for _ in 0..20 {
        world.answer(redirect(302, URL));
    }
    assert_eq!(world.lookup(&cache, URL, at(1000)), None);
    assert_eq!(world.sent.len(), 6);
    assert_eq!(world.answers.len(), 14);
}

#[test]
fn redirect_limit_of_the_policy_is_kept() {
    let cache = Cache::disabled();
    let mut world = World::new();
    for _ in 0..20 {
        world.answer(redirect(301, URL));
    }
    let policy = Policy { refresh_interval: 300, redirect_limit: 2 };
    assert_eq!(world.lookup_with(&cache, URL, policy, at(1000)), None);
    assert_eq!(world.sent.len(), 3);

    world.sent.clear();
    let none = Policy { refresh_interval: 300, redirect_limit: 0 };
    assert_eq!(world.lookup_with(&cache, URL, none, at(1000)), None);
    assert_eq!(world.sent.len(), 1);
}

#[test]
fn redirects_within_the_limit_are_followed() {
    let cache = enabled();
    let mut world = World::new();
    world.answer(redirect(301, "https://a.example/1"));
    world.answer(redirect(302, "https://b.example/2"));
    world.answer(redirect(307, "https://c.example/3"));
    world.answer(redirect(308, "https://d.example/4"));
    world.answer(redirect(303, "https://e.example/5"));
    world.answer(ok(b"far away", None, None));

    assert_eq!(world.lookup(&cache, URL, at(1)), Some(b"far away".to_vec()));
    let urls: Vec<&str> = world.sent.iter().map(|r| r.url.as_str()).collect();
    assert_eq!(
        urls,
        vec![
            URL,
            "https://a.example/1",
            "https://b.example/2",
            "https://c.example/3",
            "https://d.example/4",
            "https://e.example/5"
        ]
    );
    // The document is stored under the address that was asked for.
    assert_eq!(world.entry(URL), Some(doc(b"far away", None, None, at(1))));
}

#[test]
fn check_keeps_its_validators_across_redirects() {
    let cache = enabled();
    let mut world = World::new();
    world.plant(URL, &doc(b"kept", Some("\"tag\""), Some("date"), at(10)));
    world.answer(redirect(302, "https://mirror.example/catalog.json"));
    world.answer(status(304));

    assert_eq!(world.lookup(&cache, URL, at(1000)), Some(b"kept".to_vec()));
    assert_eq!(
        world.sent,
        vec![
            conditional(URL, Some("\"tag\""), Some("date")),
            conditional("https://mirror.example/catalog.json", Some("\"tag\""), Some("date")),
        ]
    );
}

#[test]
fn redirect_without_location_fails() {
    let cache = Cache::disabled();
    let mut world = World::new();
    world.answer(status(302));
    assert_eq!(world.lookup(&cache, URL, at(1000)), None);
    assert_eq!(world.sent.len(), 1);
}

#[test]
fn redirect_to_malformed_address_fails() {
    let cache = Cache::disabled();
    let mut world = World::new();
    world.answer(redirect(302, ""));
    world.answer(ok(b"never asked", None, None));
    assert_eq!(world.lookup(&cache, URL, at(1000)), None);
    assert_eq!(world.sent.len(), 1);
}

#[test]
fn malformed_address_sends_nothing() {
    let mut world = World::new();
    assert_eq!(world.lookup(&Cache::disabled(), "", at(1000)), None);
    assert!(world.sent.is_empty());

    // With a store, the store is read before the address is looked at.
    assert_eq!(world.lookup(&enabled(), "", at(1000)), None);
    assert!(world.sent.is_empty());
    assert_eq!(world.reads, 1);
    assert_eq!(world.writes, 0);
}

#[test]
fn resuming_with_the_wrong_event_changes_nothing() {
    let cache = enabled();
    let lookup = get_cached(&cache, URL, Policy::default());
    assert!(matches!(lookup, Lookup::Load { .. }));
    let same = lookup.clone().received(None, at(1));
    assert_eq!(same, lookup);

    let done = Lookup::Done(Some(vec![1]));
    assert_eq!(done.clone().stored(None, at(1)), done);
    assert_eq!(done.clone().received(None, at(1)), done);

    let sending = get_cached(&Cache::disabled(), URL, Policy::default());
    assert!(matches!(sending, Lookup::Fetch { .. }));
    assert_eq!(sending.clone().stored(Some(vec![1]), at(1)), sending);
}

#[test]
fn same_address_same_key_other_address_other_key() {
    let cache = enabled();
    let a = get_cached(&cache, URL, Policy::default());
    let b = get_cached(&cache, &String::from(URL), Policy::default());
    assert_eq!(a, b);
    let c = get_cached(&cache, "https://example.com/other.json", Policy::default());
    match (a, c) {
        (Lookup::Load { op: StoreOp::Get { key: ka }, .. }, Lookup::Load { op: StoreOp::Get { key: kc }, .. }) => {
            assert_ne!(ka, kc)
        }
        _ => panic!("lookups through a store start by reading it"),
    }
}
