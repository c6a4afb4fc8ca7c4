//! The standards of JSON Schema and the validators between which the tool chooses.

use crate::text::same_text;
use std::str::FromStr;
use vstd::prelude::*;

verus! {

/// The names of the standards, as they are given on the command line.
pub const STANDARDS: [&'static str; 3] = ["darft4", "draft6", "draft7"];

/// The names of the validators, as they are given on the command line; the first
/// is the default.
pub const VALIDATORS: [&'static str; 3] = ["valico", "jsonschema", "jsonschema_valid"];

/// A draft of JSON Schema.
#[derive(Clone, Copy, Debug, PartialEq, Eq, Structural)]
pub enum Standard {
    Draft4,
    Draft6,
    Draft7,
}

impl Standard {
    /// The name of the standard.
    pub open spec fn spec_name(self) -> Seq<char> {
        match self {
            Standard::Draft4 => "darft4"@,
            Standard::Draft6 => "draft6"@,
            Standard::Draft7 => "draft7"@,
        }
    }

    /// The standard that `name` names.
    pub open spec fn named(name: Seq<char>) -> Option<Standard> {
        if name == "darft4"@ {
            Some(Standard::Draft4)
        } else if name == "draft6"@ {
            Some(Standard::Draft6)
        } else if name == "draft7"@ {
            Some(Standard::Draft7)
        } else {
            None
        }
    }

    /// What the name `name` parses as: the standard that it names, and else the
    /// error `unknown`.
    pub open spec fn parsed(name: Seq<char>) -> Result<Standard, &'static str> {
        match Standard::named(name) {
            Some(standard) => Ok(standard),
            None => Err("unknown"),
        }
    }

    /// The name of the standard.
    pub fn name(self) -> (name: &'static str)
        ensures
            name@ == self.spec_name(),
    {
        match self {
            Standard::Draft4 => "darft4",
            Standard::Draft6 => "draft6",
            Standard::Draft7 => "draft7",
        }
    }

    /// The standard that `name` names; `None` where it names none.
    pub fn from_name(name: &str) -> (standard: Option<Standard>)
        ensures
            standard == Standard::named(name@),
    {
        if same_text(name, "darft4") {
            Some(Standard::Draft4)
        } else if same_text(name, "draft6") {
            Some(Standard::Draft6)
        } else if same_text(name, "draft7") {
            Some(Standard::Draft7)
        } else {
            None
        }
    }
}

impl FromStr for Standard {
    type Err = &'static str;

    /// The standard that `name` names, and else the error `unknown`.
    fn from_str(name: &str) -> (standard: Result<Standard, &'static str>)
        ensures
            standard == Standard::parsed(name@),
    {
        match Standard::from_name(name) {
            Some(standard) => Ok(standard),
            None => Err("unknown"),
        }
    }
}

/// A validator of JSON Schema.
#[derive(Clone, Copy, Debug, PartialEq, Eq, Structural)]
pub enum Validator {
    Valico,
    JsonSchema,
    JsonSchemaValid,
}

impl Validator {
    /// The name of the validator.
    pub open spec fn spec_name(self) -> Seq<char> {
        match self {
            Validator::Valico => "valico"@,
            Validator::JsonSchema => "jsonschema"@,
            Validator::JsonSchemaValid => "jsonschema_valid"@,
        }
    }

    /// The validator that `name` names.
    pub open spec fn named(name: Seq<char>) -> Option<Validator> {
        if name == "valico"@ {
            Some(Validator::Valico)
        } else if name == "jsonschema"@ {
            Some(Validator::JsonSchema)
        } else if name == "jsonschema_valid"@ {
            Some(Validator::JsonSchemaValid)
        } else {
            None
        }
    }

    /// What the name `name` parses as: the validator that it names, and else the
    /// error `unknown`.
    pub open spec fn parsed(name: Seq<char>) -> Result<Validator, &'static str> {
        match Validator::named(name) {
            Some(validator) => Ok(validator),
            None => Err("unknown"),
        }
    }

    /// The name of the validator.
    pub fn name(self) -> (name: &'static str)
        ensures
            name@ == self.spec_name(),
    {
        match self {
            Validator::Valico => "valico",
            Validator::JsonSchema => "jsonschema",
            Validator::JsonSchemaValid => "jsonschema_valid",
        }
    }

    /// The validator that `name` names; `None` where it names none.
    pub fn from_name(name: &str) -> (validator: Option<Validator>)
        ensures
            validator == Validator::named(name@),
    {
        if same_text(name, "valico") {
            Some(Validator::Valico)
        } else if same_text(name, "jsonschema") {
            Some(Validator::JsonSchema)
        } else if same_text(name, "jsonschema_valid") {
            Some(Validator::JsonSchemaValid)
        } else {
            None
        }
    }
}

impl FromStr for Validator {
    type Err = &'static str;

    /// The validator that `name` names, and else the error `unknown`.
    fn from_str(name: &str) -> (validator: Result<Validator, &'static str>)
        ensures
            validator == Validator::parsed(name@),
    {
        match Validator::from_name(name) {
            Some(validator) => Ok(validator),
            None => Err("unknown"),
        }
    }
}

/// Every standard and every validator is the one that its name names.
pub proof fn theorem_names_are_distinct(standard: Standard, validator: Validator)
    ensures
        Standard::named(standard.spec_name()) == Some(standard),
        Validator::named(validator.spec_name()) == Some(validator),
{
    reveal_strlit("darft4");
    reveal_strlit("draft6");
    reveal_strlit("draft7");
    reveal_strlit("valico");
    reveal_strlit("jsonschema");
    reveal_strlit("jsonschema_valid");
    assert("darft4"@[1] == 'a' && "draft6"@[1] == 'r' && "draft7"@[1] == 'r');
    assert("draft6"@[5] == '6' && "draft7"@[5] == '7');
    assert("valico"@.len() == 6 && "jsonschema"@.len() == 10 && "jsonschema_valid"@.len() == 16);
}

/// The number that a validation reports for data in which `errors` errors were
/// found: none for valid data; for invalid data one in quiet mode, and else the
/// number of the errors, cut to 32 bits.
pub open spec fn reported_errors(errors: usize, quiet: bool) -> u32 {
    if errors == 0 {
        0
    } else if quiet {
        1
    } else {
        (errors as int % 0x1_0000_0000) as u32
    }
}

/// The number that a validation reports for data in which `errors` errors were
/// found.
pub fn reported(errors: usize, quiet: bool) -> (count: u32)
    ensures
        count == reported_errors(errors, quiet),
{
    if errors == 0 {
        0
    } else if quiet {
        1
    } else {
        let wide: u64 = errors as u64;
        (wide % 0x1_0000_0000) as u32
    }
}

} // verus!
