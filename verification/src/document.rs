//! Structured documents and the patches between them.
//!
//! Documents are `serde_json` values and patches are `json_patch` patches. Both
//! are carried through the library unopened; what the two crates compute is
//! referred to by name in the contracts of this library.

use vstd::prelude::*;

verus! {

/// `serde_json::Value`, a document. Nothing inside it is visible here.
#[verifier::external_type_specification]
#[verifier::external_body]
pub struct ExValue(serde_json::Value);

/// `json_patch::Patch`, the edit operations that lead from one document to
/// another, in order. Nothing inside it is visible here.
#[verifier::external_type_specification]
#[verifier::external_body]
pub struct ExPatch(json_patch::Patch);

/// The document that `serde_json::from_str` reads from `text`, or `None` where
/// it reports an error.
pub uninterp spec fn parsed_document(text: Seq<char>) -> Option<serde_json::Value>;

/// The patch that `json_patch::diff` computes from `old` to `new`.
pub uninterp spec fn document_diff(old: serde_json::Value, new: serde_json::Value) -> json_patch::Patch;

/// The number of edit operations that a patch holds.
pub uninterp spec fn patch_length(patch: json_patch::Patch) -> nat;

/// The compact text that `serde_json` prints for `document`.
pub uninterp spec fn document_text(document: serde_json::Value) -> Seq<char>;

/// The member that `serde_json::Value::get` finds under `key` in `document`:
/// `None` where `document` is no object or has no such member.
pub uninterp spec fn document_member(document: serde_json::Value, key: Seq<char>) -> Option<
    serde_json::Value,
>;

/// The text of the empty object, against which a first revision is compared.
pub open spec fn empty_object_text() -> Seq<char> {
    "{}"@
}

/// Calls `serde_json::from_str`. The result is the named parse of `text`; an
/// error of the parser becomes `None`.
#[verifier::external_body]
pub(crate) fn parse_document(text: &str) -> (result: Option<serde_json::Value>)
    ensures
        result == parsed_document(text@),
{
    match serde_json::from_str::<serde_json::Value>(text) {
        Ok(document) => Some(document),
        Err(_) => None,
    }
}

/// Calls `json_patch::diff`. The result is the named patch from `old` to
/// `new`. The crate walks both documents and records an operation only where
/// they differ, so the patch between a document and itself holds none.
#[verifier::external_body]
pub(crate) fn diff_documents(old: &serde_json::Value, new: &serde_json::Value) -> (patch: json_patch::Patch)
    ensures
        patch == document_diff(*old, *new),
        *old == *new ==> patch_length(patch) == 0,
{
    json_patch::diff(old, new)
}

/// Builds the empty object as `serde_json::from_str` reads it from `{}`; that
/// text always parses.
#[verifier::external_body]
pub(crate) fn empty_document() -> (document: serde_json::Value)
    ensures
        parsed_document(empty_object_text()) == Some(document),
{
    serde_json::Value::Object(serde_json::Map::new())
}

/// Prints a document with the `Display` of `serde_json::Value`, through
/// `to_string`. The result is the named text of `document`.
#[verifier::external_body]
pub(crate) fn document_string(document: &serde_json::Value) -> (text: String)
    ensures
        text@ == document_text(*document),
{
    document.to_string()
}

/// Calls `serde_json::Value::get` with a string key. The result is the named
/// member of `document`.
#[verifier::external_body]
pub(crate) fn member<'a>(document: &'a serde_json::Value, key: &str) -> (found: Option<
    &'a serde_json::Value,
>)
    ensures
        match found {
            Some(value) => document_member(*document, key@) == Some(*value),
            None => document_member(*document, key@).is_none(),
        },
{
    document.get(key)
}

} // verus!
