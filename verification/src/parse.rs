//! The formats in which data is read.

use crate::text::same_text;
use std::str::FromStr;
use vstd::prelude::*;

verus! {

/// The names of the formats, as they are given on the command line.
pub const FORMATS: [&'static str; 8] = [
    "json",
    "json5",
    "yaml",
    "toml",
    "ron",
    "bson",
    "cbor",
    "pickle",
];

/// A format of input data.
#[derive(Clone, Copy, Debug, PartialEq, Eq, Structural)]
pub enum Format {
    Json,
    Json5,
    Yaml,
    Toml,
    Ron,
    Bson,
    Cbor,
    Pickle,
}

impl Format {
    /// The name of the format.
    pub open spec fn spec_name(self) -> Seq<char> {
        match self {
            Format::Json => "json"@,
            Format::Json5 => "json5"@,
            Format::Yaml => "yaml"@,
            Format::Toml => "toml"@,
            Format::Ron => "ron"@,
            Format::Bson => "bson"@,
            Format::Cbor => "cbor"@,
            Format::Pickle => "pickle"@,
        }
    }

    /// The format that `name` names.
    pub open spec fn named(name: Seq<char>) -> Option<Format> {
        if name == "json"@ {
            Some(Format::Json)
        } else if name == "json5"@ {
            Some(Format::Json5)
        } else if name == "yaml"@ {
            Some(Format::Yaml)
        } else if name == "toml"@ {
            Some(Format::Toml)
        } else if name == "ron"@ {
            Some(Format::Ron)
        } else if name == "bson"@ {
            Some(Format::Bson)
        } else if name == "cbor"@ {
            Some(Format::Cbor)
        } else if name == "pickle"@ {
            Some(Format::Pickle)
        } else {
            None
        }
    }

    /// The format of the files whose names end in `.` and `extension`: that which
    /// the extension names, and YAML for `yml` too.
    pub open spec fn of_extension(extension: Seq<char>) -> Option<Format> {
        if extension == "yml"@ {
            Some(Format::Yaml)
        } else {
            Format::named(extension)
        }
    }

    /// What the name `name` parses as: the format that it names, and else the
    /// error `unknown`.
    pub open spec fn parsed(name: Seq<char>) -> Result<Format, &'static str> {
        match Format::named(name) {
            Some(format) => Ok(format),
            None => Err("unknown"),
        }
    }

    /// The name of the format.
    pub fn name(self) -> (name: &'static str)
        ensures
            name@ == self.spec_name(),
    {
        match self {
            Format::Json => "json",
            Format::Json5 => "json5",
            Format::Yaml => "yaml",
            Format::Toml => "toml",
            Format::Ron => "ron",
            Format::Bson => "bson",
            Format::Cbor => "cbor",
            Format::Pickle => "pickle",
        }
    }

    /// The format that `name` names; `None` where it names none.
    pub fn from_name(name: &str) -> (format: Option<Format>)
        ensures
            format == Format::named(name@),
    {
        if same_text(name, "json") {
            Some(Format::Json)
        } else if same_text(name, "json5") {
            Some(Format::Json5)
        } else if same_text(name, "yaml") {
            Some(Format::Yaml)
        } else if same_text(name, "toml") {
            Some(Format::Toml)
        } else if same_text(name, "ron") {
            Some(Format::Ron)
        } else if same_text(name, "bson") {
            Some(Format::Bson)
        } else if same_text(name, "cbor") {
            Some(Format::Cbor)
        } else if same_text(name, "pickle") {
            Some(Format::Pickle)
        } else {
            None
        }
    }

    /// The format of the files with the extension `extension`; `None` where the
    /// extension is that of no format.
    pub fn from_extension(extension: &str) -> (format: Option<Format>)
        ensures
            format == Format::of_extension(extension@),
    {
        if same_text(extension, "yml") {
            Some(Format::Yaml)
        } else {
            Format::from_name(extension)
        }
    }

    /// The format in which data is to be read: the one given, else the one that
    /// the name of the file tells, else none.
    pub fn settle(given: Option<Format>, by_name: Option<Format>) -> (format: Option<Format>)
        ensures
            format == match given {
                Some(f) => Some(f),
                None => by_name,
            },
    {
        match given {
            Some(f) => Some(f),
            None => by_name,
        }
    }
}

impl FromStr for Format {
    type Err = &'static str;

    /// The format that `name` names, and else the error `unknown`.
    fn from_str(name: &str) -> (format: Result<Format, &'static str>)
        ensures
            format == Format::parsed(name@),
    {
        match Format::from_name(name) {
            Some(format) => Ok(format),
            None => Err("unknown"),
        }
    }
}

/// Every format is the one that its name names, and the one of the extension that
/// is its name.
pub proof fn theorem_format_names_are_distinct(format: Format)
    ensures
        Format::named(format.spec_name()) == Some(format),
        Format::of_extension(format.spec_name()) == Some(format),
{
    reveal_strlit("json");
    reveal_strlit("json5");
    reveal_strlit("yaml");
    reveal_strlit("yml");
    reveal_strlit("toml");
    reveal_strlit("ron");
    reveal_strlit("bson");
    reveal_strlit("cbor");
    reveal_strlit("pickle");
    let name = format.spec_name();
    assert("json"@.len() == 4 && "json5"@.len() == 5 && "yaml"@.len() == 4 && "yml"@.len() == 3);
    assert("toml"@.len() == 4 && "ron"@.len() == 3 && "bson"@.len() == 4 && "cbor"@.len() == 4);
    assert("pickle"@.len() == 6);
    assert("json"@[0] == 'j' && "yaml"@[0] == 'y' && "toml"@[0] == 't' && "bson"@[0] == 'b');
    assert("cbor"@[0] == 'c' && "ron"@[0] == 'r' && "yml"@[0] == 'y');
}

} // verus!
