use crypto_hashes::digest::Digest;
use crypto_hashes::sha3::Sha3_256;
use webcache::cache::TOOL_NAME;
use webcache::{decode, file_name, serialize_key, Args, Cache, Db, Doc, StoreOp, Timestamp};

const URL: &str = "https://example.com/catalog.json";

const URL_KEY: [u8; 32] = [
    78, 208, 255, 163, 36, 1, 13, 242, 5, 33, 222, 55, 144, 1, 127, 172, 96, 188, 73, 205, 175,
    106, 104, 253, 15, 140, 6, 225, 118, 248, 156, 101,
];

fn hex(bytes: &[u8]) -> String {
    bytes.iter().map(|b| format!("{:02x}", b)).collect()
}

fn options(dir: Option<&str>, no_cache: bool) -> Args {
    Args {
        log_level: "info".to_string(),
        verbose: true,
        quiet: false,
        force: true,
        cache_dir: dir.map(|d| d.to_string()),
        no_cache,
        catalog_url: "https://www.schemastore.org/api/json/catalog.json".to_string(),
    }
}

fn a_doc() -> Doc<Vec<u8>> {
    Doc::at(b"true".to_vec(), Some("e".to_string()), None, Timestamp { secs: 5, nanos: 6 })
}

#[test]
fn storage_key_is_the_sha3_of_the_json_string() {
    assert_eq!(serialize_key(URL), Some(URL_KEY.to_vec()));
    assert_eq!(
        hex(&serialize_key("").unwrap()),
        "2891e375028730be57095e98096bb8af42ef027e46e427478b7ca7d1332bd85f"
    );
    assert_eq!(
        hex(&serialize_key("a\"b\\c\n").unwrap()),
        "56905ede32f627a9c43a90e03e43d0c68e159605c91103e96865ec5a31218a98"
    );
    assert_eq!(
        hex(&serialize_key("\u{e9}").unwrap()),
        "7b58e336d59e8f971121544545cad386c89f1759f808d5d4f64b96402649e809"
    );
}

#[test]
fn storage_key_follows_the_crates_it_is_made_with() {
    for key in ["", "x", URL, "key with \"quotes\" and \\ and \u{1F600}"] {
        let canonical = serde_json::to_vec(key).unwrap();
        let digest = Sha3_256::digest(&canonical).to_vec();
        assert_eq!(serialize_key(key), Some(digest));
        assert_eq!(serialize_key(key).unwrap().len(), 32);
    }
}

#[test]
fn equal_keys_have_equal_storage_keys() {
    let built = format!("{}://{}/{}", "https", "example.com", "catalog.json");
    assert_eq!(serialize_key(&built), serialize_key(URL));
    assert_ne!(serialize_key("https://example.com/catalog.json "), serialize_key(URL));
    assert_ne!(serialize_key("https://example.com/Catalog.json"), serialize_key(URL));
}

#[test]
fn file_name_is_base64url_without_padding() {
    assert_eq!(
        file_name(&URL_KEY),
        Some("TtD_oyQBDfIFId43kAF_rGC8Sc2vamj9D4wG4Xb4nGU".to_string())
    );
    assert_eq!(file_name(b""), Some(String::new()));
    assert_eq!(file_name(b"a"), Some("YQ".to_string()));
    assert_eq!(file_name(b"ab"), Some("YWI".to_string()));
    assert_eq!(file_name(&[0xfb, 0xff, 0xfe]), Some("-__-".to_string()));
    let name = file_name(&serialize_key("anything").unwrap()).unwrap();
    assert_eq!(name.len(), 43);
    assert!(name.chars().all(|c| c.is_ascii_alphanumeric() || c == '-' || c == '_'));
}

#[test]
fn open_names_the_group_under_the_cache_directory() {
    let cache = Cache::open(&options(Some("/var/cache/tool"), false), "schemastore");
    assert_eq!(
        cache,
        Cache {
            db: Some(Db { root: "/var/cache/tool".to_string(), group: "schemastore".to_string() })
        }
    );
}

#[test]
fn open_without_cache_is_disabled() {
    assert_eq!(Cache::open(&options(Some("/var/cache/tool"), true), "g"), Cache { db: None });
    assert_eq!(Cache::open(&options(None, true), "g"), Cache { db: None });
    assert_eq!(Cache::open(&options(None, false), "g"), Cache { db: None });
    assert_eq!(Cache::disabled(), Cache { db: None });
}

#[test]
fn operations_of_an_enabled_cache() {
    let cache = Cache::open(&options(Some("/c"), false), "g");
    assert_eq!(cache.get(URL), Some(StoreOp::Get { key: URL_KEY.to_vec() }));
    assert_eq!(cache.del(URL), Some(StoreOp::Del { key: URL_KEY.to_vec() }));
    match cache.put(URL, &a_doc()) {
        Some(StoreOp::Put { key, val }) => {
            assert_eq!(key, URL_KEY.to_vec());
            assert_eq!(
                String::from_utf8(val.clone()).unwrap(),
                "{\"etag\":\"e\",\"date\":null,\"time\":{\"secs_since_epoch\":5,\"nanos_since_epoch\":6},\"body\":true}"
            );
            assert_eq!(decode(&val), Some(a_doc()));
        }
        other => panic!("not a write: {:?}", other),
    }
}

#[test]
fn operations_of_a_disabled_cache() {
    let cache = Cache::disabled();
    assert_eq!(cache.get(URL), None);
    assert_eq!(cache.put(URL, &a_doc()), None);
    assert_eq!(cache.del(URL), None);
}

#[test]
fn fix_cache_without_cache_forgets_the_directory() {
    let mut args = options(Some("/given"), true);
    args.fix_cache_with(Some("/default".to_string()));
    assert_eq!(args, options(None, true));

    let mut args = options(Some("/given"), true);
    args.fix_cache();
    assert_eq!(args, options(None, true));
}

#[test]
fn fix_cache_keeps_a_given_directory() {
    let mut args = options(Some("/given"), false);
    args.fix_cache_with(Some("/default".to_string()));
    assert_eq!(args, options(Some("/given"), false));

    let mut args = options(Some("/given"), false);
    args.fix_cache_with(None);
    assert_eq!(args, options(Some("/given"), false));

    let mut args = options(Some("/given"), false);
    args.fix_cache();
    assert_eq!(args, options(Some("/given"), false));
}

#[test]
fn fix_cache_falls_back_on_the_default_directory() {
    let mut args = options(None, false);
    args.fix_cache_with(Some("/default".to_string()));
    assert_eq!(args, options(Some("/default"), false));
}

#[test]
fn fix_cache_without_any_directory_switches_the_cache_off() {
    let mut args = options(None, false);
    args.fix_cache_with(None);
    assert_eq!(args, options(None, true));
}

#[test]
fn fix_cache_settles_on_the_tools_directory_or_on_no_cache() {
    let mut args = options(None, false);
    args.fix_cache();
    assert!(args.no_cache || args.cache_dir.is_some());
    assert_eq!(args.no_cache, args.cache_dir.is_none());
    if let Some(dir) = &args.cache_dir {
        assert!(dir.ends_with(TOOL_NAME));
        assert!(dir.len() > TOOL_NAME.len());
    }
    let settled = args.clone();
    args.fix_cache();
    assert_eq!(args, settled);
    let cache = Cache::open(&args, "schemastore");
    assert_eq!(cache.db.is_some(), !args.no_cache);
}
