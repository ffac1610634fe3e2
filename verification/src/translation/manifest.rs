//! The manifest a translation builds with: the program's `Cargo.toml` with
//! `path = "lib.rs"` set in its `[lib]` table, edited through `toml_edit`.
use vstd::prelude::*;
use crate::dup::opt_view;

verus! {

/// What `toml_edit` says of a table of a manifest: none when the text does
/// not parse as a TOML document, else whether the document has an entry
/// `table` that is a table.
pub uninterp spec fn toml_table_present(content: Seq<char>, table: Seq<char>) -> Option<bool>;

/// What `toml_edit` makes of a manifest with a value set: none when the text
/// does not parse or `table` is not a table of it, else the document printed
/// back after `key = value` is set in `table`.
pub uninterp spec fn toml_with_value(content: Seq<char>, table: Seq<char>, key: Seq<char>, value: Seq<char>) -> Option<Seq<char>>;

/// What `toml_edit` prints back of a manifest: none when the text does not
/// parse as a TOML document.
pub uninterp spec fn toml_reprinted(content: Seq<char>) -> Option<Seq<char>>;

/// Parses `content` as a `toml_edit::DocumentMut` and asks whether its entry
/// `table` is a table (`Table::get`, `Item::is_table`). None where the
/// parse fails. The result is the name `toml_table_present` of the
/// arguments; what the parser accepts is not stated here.
#[verifier::external_body]
fn toml_table_exists(content: &str, table: &str) -> (res: Option<bool>)
    ensures
        res == toml_table_present(content@, table@),
{
    match content.parse::<toml_edit::DocumentMut>() {
        Ok(doc) => Some(doc.get(table).map_or(false, toml_edit::Item::is_table)),
        Err(_) => None,
    }
}

/// Parses `content` as a `toml_edit::DocumentMut`, sets `key` to the string
/// `value` in its table `table` (`Item::as_table_mut`, `Table::insert`) and
/// prints the document (`Display`). None where the parse fails or `table`
/// is not a table. The result is the name `toml_with_value` of the
/// arguments; how the document prints is not stated here.
#[verifier::external_body]
fn toml_set_value(content: &str, table: &str, key: &str, value: &str) -> (res: Option<String>)
    ensures
        opt_view(res) == toml_with_value(content@, table@, key@, value@),
{
    let mut doc = content.parse::<toml_edit::DocumentMut>().ok()?;
    doc.get_mut(table)?.as_table_mut()?.insert(key, toml_edit::value(value));
    Some(doc.to_string())
}

/// Parses `content` as a `toml_edit::DocumentMut` and prints it back
/// (`Display`). None where the parse fails. The result is the name
/// `toml_reprinted` of the text.
#[verifier::external_body]
fn toml_reprint(content: &str) -> (res: Option<String>)
    ensures
        opt_view(res) == toml_reprinted(content@),
{
    match content.parse::<toml_edit::DocumentMut>() {
        Ok(doc) => Some(doc.to_string()),
        Err(_) => None,
    }
}

/// The manifest to write beside a translation: when the program's manifest
/// parses, the document with `path = "lib.rs"` set in its `[lib]` table if
/// it has one, printed back; the manifest as it was when it does not parse.
pub open spec fn manifest_text(content: Seq<char>) -> Seq<char> {
    match toml_table_present(content, "lib"@) {
        None => content,
        Some(true) => match toml_with_value(content, "lib"@, "path"@, "lib.rs"@) {
            Some(t) => t,
            None => content,
        },
        Some(false) => match toml_reprinted(content) {
            Some(t) => t,
            None => content,
        },
    }
}

/// The manifest to write beside a translation (see `manifest_text`).
pub fn patched_manifest(content: &str) -> (res: String)
    ensures
        res@ == manifest_text(content@),
{
    match toml_table_exists(content, "lib") {
        None => String::from_str(content),
        Some(true) => match toml_set_value(content, "lib", "path", "lib.rs") {
            Some(t) => t,
            None => String::from_str(content),
        },
        Some(false) => match toml_reprint(content) {
            Some(t) => t,
            None => String::from_str(content),
        },
    }
}

} // verus!
