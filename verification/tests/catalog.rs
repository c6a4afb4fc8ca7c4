use webcache::schemastore::{describe_all, GROUP};
use webcache::{Args, Cache, Db, Lookup, Policy, SchemaInfo, SchemaStore, StoreOp};

fn info(name: &str, description: &str) -> SchemaInfo {
    SchemaInfo {
        name: name.to_string(),
        url: format!("https://json.schemastore.org/{}.json", name.to_lowercase().replace(' ', "-")),
        description: description.to_string(),
        file_match: None,
        versions: None,
    }
}

fn catalog() -> Vec<SchemaInfo> {
    vec![
        info("Cargo Package", "Rust package description files"),
        info("package.json", "NPM configuration file"),
        info("Cargo Make", "Task runner for rust projects"),
        info("tsconfig", "TypeScript compiler configuration file"),
    ]
}

fn strings(list: &[&str]) -> Vec<String> {
    list.iter().map(|s| s.to_string()).collect()
}

fn names(found: Option<Vec<&SchemaInfo>>) -> Option<Vec<String>> {
    found.map(|list| list.iter().map(|info| info.name.clone()).collect())
}

fn arguments(no_cache: bool) -> Args {
    Args {
        log_level: "warn".to_string(),
        verbose: false,
        quiet: false,
        force: false,
        cache_dir: Some("/cache".to_string()),
        no_cache,
        catalog_url: "https://www.schemastore.org/api/json/catalog.json".to_string(),
    }
}

#[test]
fn find_by_name_without_regard_to_case() {
    let schemas = catalog();
    let found = SchemaStore::find(&schemas, &strings(&["cargo"]), true, false);
    assert_eq!(names(found), Some(strings(&["Cargo Package", "Cargo Make"])));
}

#[test]
fn find_needs_every_pattern_to_match() {
    let schemas = catalog();
    let found = SchemaStore::find(&schemas, &strings(&["cargo", "ma.e$"]), true, false);
    assert_eq!(names(found), Some(strings(&["Cargo Make"])));
    let none = SchemaStore::find(&schemas, &strings(&["cargo", "npm"]), true, true);
    assert_eq!(names(none), Some(Vec::new()));
}

#[test]
fn find_in_descriptions_only_where_asked() {
    let schemas = catalog();
    let by_name = SchemaStore::find(&schemas, &strings(&["rust"]), true, false);
    assert_eq!(names(by_name), Some(Vec::new()));
    let by_both = SchemaStore::find(&schemas, &strings(&["rust"]), true, true);
    assert_eq!(names(by_both), Some(strings(&["Cargo Package", "Cargo Make"])));
    let by_description = SchemaStore::find(&schemas, &strings(&["configuration"]), false, true);
    assert_eq!(names(by_description), Some(strings(&["package.json", "tsconfig"])));
    let nowhere = SchemaStore::find(&schemas, &strings(&["."]), false, false);
    assert_eq!(names(nowhere), Some(Vec::new()));
}

#[test]
fn find_without_patterns_finds_nothing() {
    let schemas = catalog();
    let found = SchemaStore::find(&schemas, &Vec::new(), true, true);
    assert_eq!(names(found), Some(Vec::new()));
}

#[test]
fn find_with_a_broken_pattern_fails() {
    let schemas = catalog();
    assert_eq!(SchemaStore::find(&schemas, &strings(&["(unclosed"]), true, true), None);
    assert_eq!(SchemaStore::find(&schemas, &strings(&["cargo", "[z-a]"]), true, true), None);
    assert_eq!(SchemaStore::find_one(&schemas, &strings(&["(unclosed"]), true, true), None);
    assert_eq!(SchemaStore::search(&schemas, &strings(&["(unclosed"]), true), None);
}

#[test]
fn find_one_takes_exactly_one() {
    let schemas = catalog();
    let one = SchemaStore::find_one(&schemas, &strings(&["tsconfig"]), true, false);
    assert_eq!(one, Some(&schemas[3]));
    let many = SchemaStore::find_one(&schemas, &strings(&["cargo"]), true, false);
    assert_eq!(many, None);
    let none = SchemaStore::find_one(&schemas, &strings(&["nothing like it"]), true, true);
    assert_eq!(none, None);
}

#[test]
fn search_without_patterns_shows_everything() {
    let schemas = catalog();
    let all = SchemaStore::search(&schemas, &Vec::new(), false);
    assert_eq!(
        names(all),
        Some(strings(&["Cargo Package", "package.json", "Cargo Make", "tsconfig"]))
    );
    let found = SchemaStore::search(&schemas, &strings(&["rust"]), false);
    assert_eq!(names(found), Some(Vec::new()));
    let found = SchemaStore::search(&schemas, &strings(&["rust"]), true);
    assert_eq!(names(found), Some(strings(&["Cargo Package", "Cargo Make"])));
}

#[test]
fn store_is_made_from_the_arguments() {
    let store = SchemaStore::new(&arguments(false));
    assert_eq!(store.catalog_url, "https://www.schemastore.org/api/json/catalog.json");
    assert_eq!(GROUP, "schemastore");
    assert_eq!(
        store.cache,
        Cache { db: Some(Db { root: "/cache".to_string(), group: "schemastore".to_string() }) }
    );
    assert_eq!(SchemaStore::new(&arguments(true)).cache, Cache::disabled());
}

#[test]
fn list_looks_the_catalog_up() {
    let store = SchemaStore::new(&arguments(false));
    match store.list(Policy::default()) {
        Lookup::Load { op: StoreOp::Get { key }, target } => {
            assert_eq!(target.url, store.catalog_url);
            assert_eq!(target.key, Some(key.clone()));
            assert_eq!(Some(key), webcache::serialize_key(&store.catalog_url));
            assert_eq!(target.policy, Policy::default());
        }
        other => panic!("{:?}", other),
    }
    let plain = SchemaStore::new(&arguments(true));
    match plain.list(Policy::default()) {
        Lookup::Fetch { hop, stale, target } => {
            assert_eq!(hop.request.url, plain.catalog_url);
            assert_eq!(hop.left, 5);
            assert_eq!(stale, None);
            assert_eq!(target.key, None);
        }
        other => panic!("{:?}", other),
    }
}

#[test]
fn get_one_looks_the_schema_up() {
    let store = SchemaStore::new(&arguments(true));
    let schemas = catalog();
    let policy = Policy { refresh_interval: 60, redirect_limit: 1 };
    match store.get_one(&schemas, &strings(&["^tsconfig$"]), true, false, policy) {
        Some((found, Lookup::Fetch { hop, .. })) => {
            assert_eq!(found, &schemas[3]);
            assert_eq!(hop.request.url, "https://json.schemastore.org/tsconfig.json");
            assert_eq!(hop.left, 1);
        }
        other => panic!("{:?}", other),
    }
    assert_eq!(store.get_one(&schemas, &strings(&["cargo"]), true, false, policy), None);
    assert_eq!(
        store.get_by_url("https://json.schemastore.org/x.json", policy),
        webcache::get_cached(&store.cache, "https://json.schemastore.org/x.json", policy)
    );
}

#[test]
fn describe_writes_the_entry_as_text() {
    let plain = info("tsconfig", "TypeScript compiler configuration file");
    assert_eq!(
        plain.describe(),
        "- name: tsconfig\n  description: TypeScript compiler configuration file\n  url: https://json.schemastore.org/tsconfig.json\n"
    );
    let full = SchemaInfo {
        name: "n".to_string(),
        url: "u".to_string(),
        description: "d".to_string(),
        file_match: Some(strings(&["*.a", "b.json"])),
        versions: Some(vec![
            ("1.0".to_string(), "u1".to_string()),
            ("2.0".to_string(), "u2".to_string()),
        ]),
    };
    assert_eq!(
        full.describe(),
        "- name: n\n  description: d\n  url: u\n  file_match:\n    - *.a\n    - b.json\n  versions:\n    1.0: u1\n    2.0: u2\n"
    );
    let empty = SchemaInfo { file_match: Some(Vec::new()), versions: Some(Vec::new()), ..full.clone() };
    assert_eq!(
        empty.describe(),
        "- name: n\n  description: d\n  url: u\n  file_match:\n  versions:\n"
    );
    assert_eq!(describe_all(&Vec::new()), "");
    assert_eq!(
        describe_all(&vec![plain.clone(), full.clone()]),
        format!("{}{}", plain.describe(), full.describe())
    );
}
