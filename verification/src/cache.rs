//! The store of fetched documents: where it lies, under which key a document is
//! kept, and the operations that its backend is asked to perform.

use crate::codec::{decode_doc, encode, encode_doc, lemma_decode_encode};
use crate::command::Args;
use crate::http::{Doc, DocView};
use base64::engine::general_purpose::URL_SAFE_NO_PAD;
use base64::Engine;
use crypto_hashes::digest::Digest;
use crypto_hashes::sha3::Sha3_256;
use std::path::Path;
use vstd::prelude::*;

verus! {

/// The name of the tool: the directory of its cache under the user's cache directory.
pub const TOOL_NAME: &'static str = "webcache";

/// `dirs::cache_dir`: the user's cache directory on this platform, if there is one
/// and its path is Unicode. It depends on the machine and the user: nothing is
/// claimed of it.
#[verifier::external_body]
fn platform_cache_dir() -> Option<String> {
    dirs::cache_dir().and_then(|path| path.into_os_string().into_string().ok())
}

/// `Path::join`: the path of `name` under `base`, as the platform writes it. Nothing
/// is claimed of it.
#[verifier::external_body]
fn path_join(base: &str, name: &str) -> String {
    Path::new(base).join(name).to_string_lossy().into_owned()
}

impl Args {
    /// Settles where the cache lies, given the default directory of this tool:
    /// nowhere if caching is switched off; in the directory given, if one is; else
    /// in the default directory; and if there is none, caching is switched off.
    pub fn fix_cache_with(&mut self, default_dir: Option<String>)
        ensures
            old(self).no_cache ==> final(self).no_cache && final(self).cache_dir.is_none(),
            !old(self).no_cache && old(self).cache_dir.is_some() ==> !final(self).no_cache
                && final(self).cache_dir == old(self).cache_dir,
            !old(self).no_cache && old(self).cache_dir.is_none() ==> final(self).cache_dir
                == default_dir && final(self).no_cache == default_dir.is_none(),
            final(self).log_level == old(self).log_level,
            final(self).verbose == old(self).verbose,
            final(self).quiet == old(self).quiet,
            final(self).force == old(self).force,
            final(self).catalog_url == old(self).catalog_url,
    {
        if self.no_cache {
            self.cache_dir = None;
        } else if self.cache_dir.is_none() {
            if default_dir.is_none() {
                self.no_cache = true;
            }
            self.cache_dir = default_dir;
        }
    }

    /// Settles where the cache lies: as [`Args::fix_cache_with`] does, with the
    /// directory named after this tool under the user's cache directory as the
    /// default. Afterwards caching is switched off or a directory is named.
    pub fn fix_cache(&mut self)
        ensures
            final(self).no_cache || final(self).cache_dir.is_some(),
            old(self).no_cache ==> final(self).no_cache && final(self).cache_dir.is_none(),
            !old(self).no_cache && old(self).cache_dir.is_some() ==> !final(self).no_cache
                && final(self).cache_dir == old(self).cache_dir,
            final(self).log_level == old(self).log_level,
            final(self).verbose == old(self).verbose,
            final(self).quiet == old(self).quiet,
            final(self).force == old(self).force,
            final(self).catalog_url == old(self).catalog_url,
    {
        let default_dir = match platform_cache_dir() {
            Some(base) => Some(path_join(base.as_str(), TOOL_NAME)),
            None => None,
        };
        self.fix_cache_with(default_dir);
    }
}

/// What `serde_json::to_vec` gives for a string: its canonical serialization.
pub uninterp spec fn canonical_json(key: Seq<char>) -> Option<Seq<u8>>;

/// The SHA3-256 digest of `data`.
pub uninterp spec fn sha3_256(data: Seq<u8>) -> Seq<u8>;

/// The base64 encoding of `data` in the URL-safe alphabet, without padding.
pub uninterp spec fn base64url(data: Seq<u8>) -> Seq<char>;

/// `serde_json::to_vec` on a string: the canonical serialization of `key`, which is
/// a function of `key` alone; `None` where the serializer reports an error.
#[verifier::external_body]
fn json_to_vec(key: &str) -> (bytes: Option<Vec<u8>>)
    ensures
        match bytes {
            Some(b) => canonical_json(key@) == Some(b@),
            None => canonical_json(key@).is_none(),
        },
{
    serde_json::to_vec(key).ok()
}

/// `Sha3_256::digest` of the crate `sha3`, as `crypto_hashes` hands it on: the
/// digest of `data`, which is 32 bytes long.
#[verifier::external_body]
fn sha3_256_digest(data: &[u8]) -> (digest: Vec<u8>)
    ensures
        digest@ == sha3_256(data@),
        digest@.len() == 32,
{
    Sha3_256::digest(data).to_vec()
}

/// `Engine::encode` of `base64`'s `URL_SAFE_NO_PAD`: the encoding of `data`. The
/// encoder panics where the length of its result does not fit a `usize`.
#[verifier::external_body]
fn base64_encode(data: &[u8]) -> (text: String)
    requires
        (data@.len() / 3) * 4 + 3 <= usize::MAX,
    ensures
        text@ == base64url(data@),
{
    URL_SAFE_NO_PAD.encode(data)
}

/// The key under which the document for the lookup key `key` is stored: the digest
/// of the canonical serialization of `key`.
pub open spec fn storage_key(key: Seq<char>) -> Option<Seq<u8>> {
    match canonical_json(key) {
        Some(bytes) => Some(sha3_256(bytes)),
        None => None,
    }
}

/// The key under which the document for the lookup key `key` is stored; `None`
/// where `key` cannot be serialized.
pub fn serialize_key(key: &str) -> (stored: Option<Vec<u8>>)
    ensures
        match stored {
            Some(k) => storage_key(key@) == Some(k@) && k@.len() == 32,
            None => storage_key(key@).is_none(),
        },
{
    match json_to_vec(key) {
        Some(bytes) => Some(sha3_256_digest(bytes.as_slice())),
        None => None,
    }
}

/// The name of the file that holds what is stored under `key`, in a store that
/// keeps one file for each key; `None` where `key` is too long for a name to be
/// made of it, which no digest is.
pub fn file_name(key: &[u8]) -> (name: Option<String>)
    ensures
        match name {
            Some(n) => n@ == base64url(key@),
            None => (key@.len() / 3) * 4 + 3 > usize::MAX,
        },
        key@.len() == 32 ==> name.is_some(),
{
    if key.len() / 3 <= (usize::MAX - 3) / 4 {
        Some(base64_encode(key))
    } else {
        None
    }
}

/// One operation on the store, for its backend to perform.
#[derive(Clone, Debug, PartialEq, Eq)]
pub enum StoreOp {
    /// Read what is stored under `key`.
    Get { key: Vec<u8> },
    /// Store `val` under `key`, in place of what was there.
    Put { key: Vec<u8>, val: Vec<u8> },
    /// Remove what is stored under `key`.
    Del { key: Vec<u8> },
}

/// What a [`StoreOp`] holds.
pub enum StoreOpView {
    Get { key: Seq<u8> },
    Put { key: Seq<u8>, val: Seq<u8> },
    Del { key: Seq<u8> },
}

impl View for StoreOp {
    type V = StoreOpView;

    open spec fn view(&self) -> StoreOpView {
        match self {
            StoreOp::Get { key } => StoreOpView::Get { key: key@ },
            StoreOp::Put { key, val } => StoreOpView::Put { key: key@, val: val@ },
            StoreOp::Del { key } => StoreOpView::Del { key: key@ },
        }
    }
}

/// What a store holds after an operation.
pub open spec fn store_after(store: Map<Seq<u8>, Seq<u8>>, op: StoreOpView) -> Map<
    Seq<u8>,
    Seq<u8>,
> {
    match op {
        StoreOpView::Get { key } => store,
        StoreOpView::Put { key, val } => store.insert(key, val),
        StoreOpView::Del { key } => store.remove(key),
    }
}

/// What a store answers to an operation: to a read, what it holds under the key,
/// or `None` where it holds nothing there; to any other operation, `None`.
pub open spec fn store_reply(store: Map<Seq<u8>, Seq<u8>>, op: StoreOpView) -> Option<Seq<u8>> {
    match op {
        StoreOpView::Get { key } => if store.dom().contains(key) {
            Some(store[key])
        } else {
            None
        },
        _ => None,
    }
}

/// Where a store lies: the cache directory, and the group of documents under it
/// that the store holds.
#[derive(Clone, Debug, PartialEq, Eq)]
pub struct Db {
    pub root: String,
    pub group: String,
}

/// The store of one group of documents, or none where caching is off.
#[derive(Clone, Debug, PartialEq, Eq)]
pub struct Cache {
    pub db: Option<Db>,
}

impl Cache {
    /// Whether the store is there.
    pub open spec fn enabled(&self) -> bool {
        self.db.is_some()
    }

    /// The read of the document for `key`; `None` where nothing is to be read.
    pub open spec fn get_op(enabled: bool, key: Seq<char>) -> Option<StoreOpView> {
        match storage_key(key) {
            Some(k) if enabled => Some(StoreOpView::Get { key: k }),
            _ => None,
        }
    }

    /// The write of `val` as the document for `key`; `None` where nothing is to be
    /// written.
    pub open spec fn put_op(enabled: bool, key: Seq<char>, val: DocView<Seq<u8>>) -> Option<
        StoreOpView,
    > {
        match storage_key(key) {
            Some(k) if enabled => Some(StoreOpView::Put { key: k, val: encode_doc(val) }),
            _ => None,
        }
    }

    /// The removal of the document for `key`; `None` where nothing is to be removed.
    pub open spec fn del_op(enabled: bool, key: Seq<char>) -> Option<StoreOpView> {
        match storage_key(key) {
            Some(k) if enabled => Some(StoreOpView::Del { key: k }),
            _ => None,
        }
    }

    /// The store of `group` under the cache directory that `args` names. There is
    /// none where `args` switches caching off or names no directory.
    pub fn open(args: &Args, group: &str) -> (cache: Cache)
        ensures
            cache.enabled() == (!args.no_cache && args.cache_dir.is_some()),
            cache.db matches Some(db) ==> db.root@ == args.cache_dir.unwrap()@ && db.group@
                == group@,
    {
        if args.no_cache {
            return Cache { db: None };
        }
        match &args.cache_dir {
            Some(root) => Cache { db: Some(Db { root: root.clone(), group: group.to_owned() }) },
            None => Cache { db: None },
        }
    }

    /// No store: what a cache is after its backend failed to open, and for the rest
    /// of the session.
    pub fn disabled() -> (cache: Cache)
        ensures
            !cache.enabled(),
    {
        Cache { db: None }
    }

    /// The operation that reads the document for `key`. `None` where there is no
    /// store or `key` cannot be serialized: the document is then absent.
    pub fn get(&self, key: &str) -> (op: Option<StoreOp>)
        ensures
            match op {
                Some(o) => Cache::get_op(self.enabled(), key@) == Some(o@),
                None => Cache::get_op(self.enabled(), key@).is_none(),
            },
    {
        let stored = serialize_key(key);
        match stored {
            Some(k) => {
                if self.db.is_some() {
                    Some(StoreOp::Get { key: k })
                } else {
                    None
                }
            },
            None => None,
        }
    }

    /// The operation that stores `val` as the document for `key`. `None` where there
    /// is no store or `key` cannot be serialized: nothing is stored then.
    pub fn put(&self, key: &str, val: &Doc<Vec<u8>>) -> (op: Option<StoreOp>)
        ensures
            match op {
                Some(o) => Cache::put_op(self.enabled(), key@, val@) == Some(o@),
                None => Cache::put_op(self.enabled(), key@, val@).is_none(),
            },
    {
        let stored = serialize_key(key);
        match stored {
            Some(k) => {
                if self.db.is_some() {
                    Some(StoreOp::Put { key: k, val: encode(val) })
                } else {
                    None
                }
            },
            None => None,
        }
    }

    /// The operation that removes the document for `key`. `None` where there is no
    /// store or `key` cannot be serialized.
    pub fn del(&self, key: &str) -> (op: Option<StoreOp>)
        ensures
            match op {
                Some(o) => Cache::del_op(self.enabled(), key@) == Some(o@),
                None => Cache::del_op(self.enabled(), key@).is_none(),
            },
    {
        let stored = serialize_key(key);
        match stored {
            Some(k) => {
                if self.db.is_some() {
                    Some(StoreOp::Del { key: k })
                } else {
                    None
                }
            },
            None => None,
        }
    }
}

/// Two lookup keys with the same canonical serialization have the same key in the
/// store, and so the same operations on it.
pub proof fn theorem_key_is_stable(a: Seq<char>, b: Seq<char>)
    requires
        canonical_json(a) == canonical_json(b),
    ensures
        storage_key(a) == storage_key(b),
        forall|enabled: bool| Cache::get_op(enabled, a) == Cache::get_op(enabled, b),
        forall|enabled: bool| Cache::del_op(enabled, a) == Cache::del_op(enabled, b),
        forall|enabled: bool, val: DocView<Seq<u8>>|
            Cache::put_op(enabled, a, val) == Cache::put_op(enabled, b, val),
{
}

/// What was put into a store is what a read of the same key gives, whole, until
/// it is put again or removed. A read changes nothing; a read after a removal
/// gives nothing; and where nothing is stored under a key, a read gives nothing
/// and a removal changes nothing.
pub proof fn theorem_store_keeps_what_was_put(
    store: Map<Seq<u8>, Seq<u8>>,
    key: Seq<char>,
    val: DocView<Seq<u8>>,
)
    requires
        storage_key(key).is_some(),
    ensures
        ({
            let put = Cache::put_op(true, key, val).unwrap();
            let get = Cache::get_op(true, key).unwrap();
            let del = Cache::del_op(true, key).unwrap();
            let after_put = store_after(store, put);
            let after_del = store_after(after_put, del);
            &&& store_reply(after_put, get) == Some(encode_doc(val))
            &&& decode_doc(store_reply(after_put, get).unwrap()) == Some(val)
            &&& store_after(after_put, get) == after_put
            &&& store_reply(after_del, get).is_none()
            &&& !store.dom().contains(storage_key(key).unwrap()) ==> store_after(store, del)
                == store && store_reply(store, get).is_none()
        }),
{
    lemma_decode_encode(val);
    let del = Cache::del_op(true, key).unwrap();
    if !store.dom().contains(storage_key(key).unwrap()) {
        assert(store_after(store, del) =~= store);
    }
}

} // verus!
