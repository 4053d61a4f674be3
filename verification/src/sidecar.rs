//! Reading `package.name` from a `Cargo.toml` sidecar document.
//!
//! The document is handed to the `toml` parser; the library only fixes which
//! path is read. A sidecar that does not parse, lacks a `[package]` table,
//! or whose `name` is not a string yields nothing, and the walker skips the
//! project quietly.

use vstd::prelude::*;

verus! {

/// The string value at `[table] key` of a TOML document, by TOML semantics:
/// present exactly when the document parses, holds `table` as a top-level
/// table, and that table holds `key` as a string. A function of the three
/// texts alone.
pub uninterp spec fn toml_str_value(
    doc: Seq<char>,
    table: Seq<char>,
    key: Seq<char>,
) -> Option<Seq<char>>;

/// Relies on the `toml` crate — `str::parse::<toml::Table>`, `Table::get`,
/// `Value::as_table` and `Value::as_str` — to read the string at
/// `[table] key` of a TOML document; the outcome depends on the three texts
/// alone.
#[verifier::external_body]
fn toml_lookup_str(doc: &str, table: &str, key: &str) -> (r: Option<String>)
    ensures
        r matches Some(s) ==> toml_str_value(doc@, table@, key@) == Some(s@),
        r is None ==> toml_str_value(doc@, table@, key@) is None,
{
    let parsed: toml::Table = match doc.parse() {
        Ok(t) => t,
        Err(_) => return None,
    };
    let value = parsed.get(table)?.as_table()?.get(key)?.as_str()?;
    Some(value.to_string())
}

/// The `package.name` of a sidecar document, by TOML semantics.
pub open spec fn spec_sidecar_name(doc: Seq<char>) -> Option<Seq<char>> {
    toml_str_value(doc, "package"@, "name"@)
}

/// The `package.name` string of a sidecar, when the document parses and
/// names one.
pub fn package_name(doc: &str) -> (r: Option<String>)
    ensures
        r matches Some(s) ==> spec_sidecar_name(doc@) == Some(s@),
        r is None ==> spec_sidecar_name(doc@) is None,
{
    toml_lookup_str(doc, "package", "name")
}

} // verus!
