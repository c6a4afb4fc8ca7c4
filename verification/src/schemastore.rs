//! The catalog of schemas: where it is fetched from, and the search in its entries.

use crate::cache::Cache;
use crate::command::Args;
use crate::http::Policy;
use crate::revalidate::{cache_key, get_cached, starting, Lookup, TargetView};
use regex::{RegexSet, RegexSetBuilder};
use vstd::prelude::*;
use vstd::string::StringExecFns;

verus! {

/// The group of the store in which the catalog and the schemas are kept.
pub const GROUP: &'static str = "schemastore";

/// A set of patterns, compiled by the crate `regex`.
#[verifier::external_type_specification]
#[verifier::external_body]
pub struct ExRegexSet(RegexSet);

/// The patterns that a set was compiled from, in their order.
pub uninterp spec fn regex_set_patterns(set: RegexSet) -> Seq<Seq<char>>;

/// Whether `regex` compiles `patterns` into a set that matches without regard to
/// case, within its default size limits.
pub uninterp spec fn regex_set_compiles(patterns: Seq<Seq<char>>) -> bool;

/// How many of `patterns` match somewhere in `text`, without regard to case.
pub uninterp spec fn regex_match_count(patterns: Seq<Seq<char>>, text: Seq<char>) -> nat;

/// The texts of a list of strings.
pub open spec fn texts(list: Seq<String>) -> Seq<Seq<char>> {
    list.map_values(|s: String| s@)
}

/// `RegexSetBuilder::new`, `case_insensitive(true)` and `build`: the set compiled
/// from `patterns`, or `None` where a pattern is no valid expression or the set
/// exceeds the size limit. Whether it compiles depends on the patterns alone.
#[verifier::external_body]
fn build_patterns(patterns: &Vec<String>) -> (set: Option<RegexSet>)
    ensures
        set.is_some() == regex_set_compiles(texts(patterns@)),
        set matches Some(s) ==> regex_set_patterns(s) == texts(patterns@),
{
    RegexSetBuilder::new(patterns).case_insensitive(true).build().ok()
}

/// `RegexSet::len`: the number of patterns in the set.
#[verifier::external_body]
fn pattern_count(set: &RegexSet) -> (count: usize)
    ensures
        count == regex_set_patterns(*set).len(),
{
    set.len()
}

/// `RegexSet::matches` and the count of `SetMatches::iter`: how many patterns of
/// the set match in `text`, which are at most as many as the set has.
#[verifier::external_body]
fn match_count(set: &RegexSet, text: &str) -> (count: usize)
    ensures
        count == regex_match_count(regex_set_patterns(*set), text@),
        count <= regex_set_patterns(*set).len(),
{
    set.matches(text).iter().count()
}

/// One entry of the catalog.
#[derive(Clone, Debug, PartialEq, Eq)]
pub struct SchemaInfo {
    /// Schema name.
    pub name: String,
    /// Address of the schema.
    pub url: String,
    /// Schema description.
    pub description: String,
    /// Patterns of the names of the files that the schema is for.
    pub file_match: Option<Vec<String>>,
    /// Other versions of the schema: the version and its address.
    pub versions: Option<Vec<(String, String)>>,
}

/// Whether every one of `patterns` matches in `text`, and there is at least one.
pub open spec fn matches_all(patterns: Seq<Seq<char>>, text: Seq<char>) -> bool {
    patterns.len() > 0 && regex_match_count(patterns, text) == patterns.len()
}

/// Whether a search for `patterns` selects `info`: all of them match in its name,
/// where names are searched, or in its description, where descriptions are.
pub open spec fn selects(
    patterns: Seq<Seq<char>>,
    in_names: bool,
    in_descriptions: bool,
    info: SchemaInfo,
) -> bool {
    (in_names && matches_all(patterns, info.name@)) || (in_descriptions && matches_all(
        patterns,
        info.description@,
    ))
}

/// The entries that references point to.
pub open spec fn referents(list: Seq<&SchemaInfo>) -> Seq<SchemaInfo> {
    list.map_values(|info: &SchemaInfo| *info)
}

/// The catalog of schemas and the store in which what is fetched from it is kept.
#[derive(Clone, Debug, PartialEq, Eq)]
pub struct SchemaStore {
    pub catalog_url: String,
    pub cache: Cache,
}

fn all_match(set: &RegexSet, text: &str) -> (yes: bool)
    ensures
        yes == matches_all(regex_set_patterns(*set), text@),
{
    let count: usize = match_count(set, text);
    count > 0 && count == pattern_count(set)
}

impl SchemaStore {
    /// The catalog at the address that `args` gives, with the store that `args`
    /// settles on.
    pub fn new(args: &Args) -> (store: SchemaStore)
        ensures
            store.catalog_url@ == args.catalog_url@,
            store.cache.enabled() == (!args.no_cache && args.cache_dir.is_some()),
            store.cache.db matches Some(db) ==> db.root@ == args.cache_dir.unwrap()@ && db.group@
                == GROUP@,
    {
        SchemaStore { catalog_url: args.catalog_url.clone(), cache: Cache::open(args, GROUP) }
    }

    /// Starts the lookup of the catalog.
    pub fn list(&self, policy: Policy) -> (lookup: Lookup)
        ensures
            lookup@ == starting(
                TargetView {
                    url: self.catalog_url@,
                    key: cache_key(self.cache.enabled(), self.catalog_url@),
                    policy,
                },
            ),
    {
        get_cached(&self.cache, self.catalog_url.as_str(), policy)
    }

    /// Starts the lookup of the schema at `url`.
    pub fn get_by_url(&self, url: &str, policy: Policy) -> (lookup: Lookup)
        ensures
            lookup@ == starting(
                TargetView { url: url@, key: cache_key(self.cache.enabled(), url@), policy },
            ),
    {
        get_cached(&self.cache, url, policy)
    }

    /// The entries of `schemas` that a search for `patterns` selects, in their
    /// order; `None` where the patterns do not compile.
    #[verifier::rlimit(50)]
    pub fn find<'a>(
        schemas: &'a Vec<SchemaInfo>,
        patterns: &Vec<String>,
        in_names: bool,
        in_descriptions: bool,
    ) -> (found: Option<Vec<&'a SchemaInfo>>)
        ensures
            found.is_some() == regex_set_compiles(texts(patterns@)),
            found matches Some(list) ==> referents(list@) == schemas@.filter(
                |info: SchemaInfo| selects(texts(patterns@), in_names, in_descriptions, info),
            ),
    {
        let set = match build_patterns(patterns) {
            Some(set) => set,
            None => {
                return None;
            },
        };
        let ghost wanted = |info: SchemaInfo| selects(texts(patterns@), in_names, in_descriptions, info);
        let mut list: Vec<&'a SchemaInfo> = Vec::new();
        let mut i: usize = 0;
        proof {
            reveal(Seq::filter);
            assert(schemas@.take(0) =~= Seq::<SchemaInfo>::empty());
            assert(referents(list@) =~= schemas@.take(0).filter(wanted));
        }
        while i < schemas.len()
            invariant
                i <= schemas.len(),
                regex_set_patterns(set) == texts(patterns@),
                wanted == |info: SchemaInfo| selects(texts(patterns@), in_names, in_descriptions, info),
                referents(list@) == schemas@.take(i as int).filter(wanted),
            decreases schemas.len() - i,
        {
            let info = &schemas[i];
            let by_name = in_names && all_match(&set, info.name.as_str());
            let selected = by_name || (in_descriptions && all_match(
                &set,
                info.description.as_str(),
            ));
            proof {
                reveal(Seq::filter);
                let before = schemas@.take(i as int);
                let upto = schemas@.take(i as int + 1);
                assert(upto.drop_last() =~= before);
                assert(upto.last() == *info);
                assert(selected == wanted(*info));
                if selected {
                    assert(referents(list@.push(info)) =~= referents(list@).push(*info));
                }
            }
            if selected {
                list.push(info);
            }
            i += 1;
        }
        proof {
            assert(schemas@.take(schemas.len() as int) =~= schemas@);
        }
        Some(list)
    }

    /// The one entry of `schemas` that a search for `patterns` selects; `None` where
    /// the patterns do not compile, and where the search selects no entry or more
    /// than one.
    pub fn find_one<'a>(
        schemas: &'a Vec<SchemaInfo>,
        patterns: &Vec<String>,
        in_names: bool,
        in_descriptions: bool,
    ) -> (found: Option<&'a SchemaInfo>)
        ensures
            ({
                let selected = schemas@.filter(
                    |info: SchemaInfo| selects(texts(patterns@), in_names, in_descriptions, info),
                );
                match found {
                    Some(info) => regex_set_compiles(texts(patterns@)) && selected.len() == 1
                        && selected[0] == *info,
                    None => !regex_set_compiles(texts(patterns@)) || selected.len() != 1,
                }
            }),
    {
        let list = match SchemaStore::find(schemas, patterns, in_names, in_descriptions) {
            Some(list) => list,
            None => {
                return None;
            },
        };
        if list.len() == 1 {
            Some(list[0])
        } else {
            None
        }
    }

    /// The one entry of `schemas` that a search for `patterns` selects, and the
    /// start of the lookup of the schema at its address; `None` where
    /// [`SchemaStore::find_one`] finds none.
    pub fn get_one<'a>(
        &self,
        schemas: &'a Vec<SchemaInfo>,
        patterns: &Vec<String>,
        in_names: bool,
        in_descriptions: bool,
        policy: Policy,
    ) -> (found: Option<(&'a SchemaInfo, Lookup)>)
        ensures
            ({
                let selected = schemas@.filter(
                    |info: SchemaInfo| selects(texts(patterns@), in_names, in_descriptions, info),
                );
                match found {
                    Some((info, lookup)) => regex_set_compiles(texts(patterns@)) && selected.len()
                        == 1 && selected[0] == *info && lookup@ == starting(
                        TargetView {
                            url: info.url@,
                            key: cache_key(self.cache.enabled(), info.url@),
                            policy,
                        },
                    ),
                    None => !regex_set_compiles(texts(patterns@)) || selected.len() != 1,
                }
            }),
    {
        match SchemaStore::find_one(schemas, patterns, in_names, in_descriptions) {
            Some(info) => Some((info, self.get_by_url(info.url.as_str(), policy))),
            None => None,
        }
    }

    /// What a search shows: every entry of `schemas` where no pattern is given;
    /// else the entries that the patterns select by their names and, where
    /// `with_descriptions` is set, by their descriptions. `None` where the patterns
    /// do not compile.
    pub fn search<'a>(
        schemas: &'a Vec<SchemaInfo>,
        patterns: &Vec<String>,
        with_descriptions: bool,
    ) -> (found: Option<Vec<&'a SchemaInfo>>)
        ensures
            patterns@.len() == 0 ==> found.is_some() && referents(found.unwrap()@) == schemas@,
            patterns@.len() > 0 ==> found.is_some() == regex_set_compiles(texts(patterns@)),
            patterns@.len() > 0 && found.is_some() ==> referents(found.unwrap()@) == schemas@.filter(
                |info: SchemaInfo| selects(texts(patterns@), true, with_descriptions, info),
            ),
    {
        if patterns.len() > 0 {
            return SchemaStore::find(schemas, patterns, true, with_descriptions);
        }
        let mut list: Vec<&'a SchemaInfo> = Vec::new();
        let mut i: usize = 0;
        while i < schemas.len()
            invariant
                i <= schemas.len(),
                referents(list@) == schemas@.take(i as int),
            decreases schemas.len() - i,
        {
            let info = &schemas[i];
            proof {
                assert(referents(list@.push(info)) =~= referents(list@).push(*info));
                assert(schemas@.take(i as int + 1) =~= schemas@.take(i as int).push(*info));
            }
            list.push(info);
            i += 1;
        }
        proof {
            assert(schemas@.take(schemas.len() as int) =~= schemas@);
        }
        Some(list)
    }
}

/// The items of a list, each after `lead`.
pub open spec fn listed(lead: Seq<char>, items: Seq<String>) -> Seq<char>
    decreases items.len(),
{
    if items.len() == 0 {
        Seq::empty()
    } else {
        listed(lead, items.drop_last()) + lead + items.last()@
    }
}

/// The pairs of a list, each on a line of its own: the first, a colon, the second.
pub open spec fn paired(items: Seq<(String, String)>) -> Seq<char>
    decreases items.len(),
{
    if items.len() == 0 {
        Seq::empty()
    } else {
        paired(items.drop_last()) + "\n    "@ + items.last().0@ + ": "@ + items.last().1@
    }
}

/// The descriptions of the entries of a list, one after the other.
pub open spec fn described_all(schemas: Seq<SchemaInfo>) -> Seq<char>
    decreases schemas.len(),
{
    if schemas.len() == 0 {
        Seq::empty()
    } else {
        described_all(schemas.drop_last()) + schemas.last().described()
    }
}

impl SchemaInfo {
    /// The lines on the files that the schema is for; nothing where none are named.
    pub open spec fn described_files(self) -> Seq<char> {
        match self.file_match {
            Some(list) => "\n  file_match:"@ + listed("\n    - "@, list@),
            None => Seq::empty(),
        }
    }

    /// The lines on the other versions; nothing where none are named.
    pub open spec fn described_versions(self) -> Seq<char> {
        match self.versions {
            Some(list) => "\n  versions:"@ + paired(list@),
            None => Seq::empty(),
        }
    }

    /// The entry as text: its name, description and address, each on a line, then
    /// the files that it is for and its other versions.
    pub open spec fn described(self) -> Seq<char> {
        "- name: "@ + self.name@ + "\n  description: "@ + self.description@ + "\n  url: "@
            + self.url@ + self.described_files() + self.described_versions() + "\n"@
    }

    /// The entry as text.
    #[verifier::rlimit(50)]
    pub fn describe(&self) -> (text: String)
        ensures
            text@ == self.described(),
    {
        let mut text = String::new();
        text.append("- name: ");
        text.append(self.name.as_str());
        text.append("\n  description: ");
        text.append(self.description.as_str());
        text.append("\n  url: ");
        text.append(self.url.as_str());
        let ghost head = text@;
        match &self.file_match {
            Some(list) => {
                text.append("\n  file_match:");
                let mut i: usize = 0;
                while i < list.len()
                    invariant
                        i <= list.len(),
                        text@ == head + "\n  file_match:"@ + listed(
                            "\n    - "@,
                            list@.take(i as int),
                        ),
                    decreases list.len() - i,
                {
                    text.append("\n    - ");
                    text.append(list[i].as_str());
                    proof {
                        let upto = list@.take(i as int + 1);
                        assert(upto.drop_last() =~= list@.take(i as int));
                        assert(text@ =~= head + "\n  file_match:"@ + listed("\n    - "@, upto));
                    }
                    i += 1;
                }
                proof {
                    assert(list@.take(list.len() as int) =~= list@);
                }
            },
            None => {
                assert(text@ =~= head + self.described_files());
            },
        }
        let ghost middle = text@;
        assert(middle =~= head + self.described_files());
        match &self.versions {
            Some(list) => {
                text.append("\n  versions:");
                let mut i: usize = 0;
                while i < list.len()
                    invariant
                        i <= list.len(),
                        text@ == middle + "\n  versions:"@ + paired(list@.take(i as int)),
                    decreases list.len() - i,
                {
                    text.append("\n    ");
                    text.append(list[i].0.as_str());
                    text.append(": ");
                    text.append(list[i].1.as_str());
                    proof {
                        let upto = list@.take(i as int + 1);
                        assert(upto.drop_last() =~= list@.take(i as int));
                        assert(text@ =~= middle + "\n  versions:"@ + paired(upto));
                    }
                    i += 1;
                }
                proof {
                    assert(list@.take(list.len() as int) =~= list@);
                }
            },
            None => {
                assert(text@ =~= middle + self.described_versions());
            },
        }
        assert(text@ =~= middle + self.described_versions());
        text.append("\n");
        assert(text@ =~= self.described());
        text
    }
}

/// The entries of a list as text, one after the other.
pub fn describe_all(schemas: &Vec<SchemaInfo>) -> (text: String)
    ensures
        text@ == described_all(schemas@),
{
    let mut text = String::new();
    let mut i: usize = 0;
    while i < schemas.len()
        invariant
            i <= schemas.len(),
            text@ == described_all(schemas@.take(i as int)),
        decreases schemas.len() - i,
    {
        let one = schemas[i].describe();
        text.append(one.as_str());
        proof {
            let upto = schemas@.take(i as int + 1);
            assert(upto.drop_last() =~= schemas@.take(i as int));
        }
        i += 1;
    }
    proof {
        assert(schemas@.take(schemas.len() as int) =~= schemas@);
    }
    text
}

} // verus!
