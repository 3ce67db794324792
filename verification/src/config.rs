//! Configuration: the config record, its extraction from TOML text through
//! the outside parser, and the greeting line built from it. Reading the
//! config file from disk is the caller's business.

use vstd::prelude::*;

verus! {

/// The configuration record: a user name and a greeting phrase.
#[derive(Debug)]
pub struct Config {
    pub name: String,
    pub greeting: String,
}

/// The string value at a top-level key of a TOML document, where the
/// document parses and the key holds a string: what the `toml` parser
/// computes from the two arguments alone.
pub uninterp spec fn toml_string_entry(text: Seq<char>, key: Seq<char>) -> Option<Seq<char>>;

/// Relies on toml's `Table::from_str`, `Table::get` and `Value::as_str`:
/// parses `text` as a TOML document and looks up the string value at the
/// top-level `key`. The result is a function of the two arguments alone.
#[verifier::external_body]
fn toml_lookup_string(text: &str, key: &str) -> (r: Option<String>)
    ensures
        match (r, toml_string_entry(text@, key@)) {
            (Some(s), Some(v)) => s@ == v,
            (None, None) => true,
            _ => false,
        },
{
    let table: toml::Table = match text.parse::<toml::Table>() {
        Ok(t) => t,
        Err(_) => return None,
    };
    match table.get(key) {
        Some(v) => v.as_str().map(|s| s.to_owned()),
        None => None,
    }
}

/// Parses configuration text: the config holds the top-level `name` and
/// `greeting` string entries, and is absent exactly when either entry is
/// missing or the document does not parse.
pub fn parse_config_str_to_struct(content: &str) -> (r: Option<Config>)
    ensures
        match r {
            Some(c) => toml_string_entry(content@, "name"@) == Some(c.name@) && toml_string_entry(
                content@,
                "greeting"@,
            ) == Some(c.greeting@),
            None => toml_string_entry(content@, "name"@) is None || toml_string_entry(
                content@,
                "greeting"@,
            ) is None,
        },
{
    let name = toml_lookup_string(content, "name");
    let greeting = toml_lookup_string(content, "greeting");
    match (name, greeting) {
        (Some(name), Some(greeting)) => Some(Config { name, greeting }),
        _ => None,
    }
}

/// The greeting line: the greeting phrase, a comma, and the name.
pub fn create_greeting_string_from_config(config: Config) -> (r: String)
    ensures
        r@ == config.greeting@ + ", "@ + config.name@,
{
    let mut s = String::new();
    s.append(config.greeting.as_str());
    s.append(", ");
    s.append(config.name.as_str());
    proof {
        assert(s@ =~= config.greeting@ + ", "@ + config.name@);
    }
    s
}

} // verus!
