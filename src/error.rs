//! The errors of loading an asset, as the context's error type reports them.

use vstd::prelude::*;
use vstd::string::StringExecFns;

verus! {

/// Why an asset could not be had.
pub enum AssetError {
    /// No source holds the asset with this id.
    ResourceNotFound(String),
    /// The asset could not be loaded; the message names it and says why.
    ResourceLoadError(String),
    /// Another failure, described by the message.
    CustomError(String),
}

#[verifier::external_type_specification]
#[verifier::external_body]
pub struct ExLoadError(assets_manager::Error);

/// The id of the asset whose loading failed with `err`.
pub uninterp spec fn error_id_of(err: assets_manager::Error) -> Seq<char>;

/// Whether `err` says that no source has the asset.
pub uninterp spec fn error_not_found_of(err: assets_manager::Error) -> bool;

/// Relies on `assets_manager::Error::id`: the id of the asset whose loading
/// failed.
#[verifier::external_body]
fn error_id(err: &assets_manager::Error) -> (r: String)
    ensures
        r@ == error_id_of(*err),
{
    err.id().to_string()
}

/// Relies on `assets_manager::Error::reason`: whether the reason is an I/O
/// error of kind `NotFound`, that is, whether no source has the asset.
#[verifier::external_body]
fn error_is_not_found(err: &assets_manager::Error) -> (r: bool)
    ensures
        r == error_not_found_of(*err),
{
    match err.reason().downcast_ref::<std::io::Error>() {
        Some(io_err) => io_err.kind() == std::io::ErrorKind::NotFound,
        None => false,
    }
}

/// Relies on `assets_manager::Error::reason`: the debug description of why
/// the loading failed.
#[verifier::external_body]
fn error_reason(err: &assets_manager::Error) -> (r: String) {
    format!("{:?}", err.reason())
}

/// The message of a failed load: the id in double quotes, a colon, then the
/// reason.
pub open spec fn load_error_message(id: Seq<char>, reason: Seq<char>) -> Seq<char> {
    seq!['"'] + id + seq!['"', ':', ' '] + reason
}

/// The error for a failed load of the asset `id`: `ResourceNotFound` when no
/// source has it, else `ResourceLoadError` with the reason.
pub fn load_error(id: &str, not_found: bool, reason: &str) -> (r: AssetError)
    ensures
        not_found ==> (r matches AssetError::ResourceNotFound(s) && s@ == id@),
        !not_found ==> (r matches AssetError::ResourceLoadError(s) && s@ == load_error_message(
            id@,
            reason@,
        )),
{
    if not_found {
        AssetError::ResourceNotFound(String::from_str(id))
    } else {
        proof {
            reveal_strlit("\"");
            reveal_strlit("\": ");
        }
        let mut msg = String::from_str("\"");
        msg.append(id);
        msg.append("\": ");
        msg.append(reason);
        AssetError::ResourceLoadError(msg)
    }
}

/// Converts an error of the asset cache into the context's error type:
/// `ResourceNotFound` with the id when no source has the asset, else
/// `ResourceLoadError` with the id and the reason.
pub fn convert_error(err: assets_manager::Error) -> (r: AssetError)
    ensures
        error_not_found_of(err) ==> (r matches AssetError::ResourceNotFound(s) && s@
            == error_id_of(err)),
        !error_not_found_of(err) ==> (r matches AssetError::ResourceLoadError(s) && exists|
            reason: Seq<char>,
        | s@ == load_error_message(error_id_of(err), reason)),
{
    let id = error_id(&err);
    let not_found = error_is_not_found(&err);
    let reason = error_reason(&err);
    load_error(id.as_str(), not_found, reason.as_str())
}

/// The message of the error for an asset that is not in the cache.
pub open spec fn not_in_cache_message() -> Seq<char> {
    "resource not found in cache"@
}

/// The error for an asset that a lookup did not find in the cache.
pub fn not_found_error() -> (r: AssetError)
    ensures
        r matches AssetError::CustomError(s) && s@ == not_in_cache_message(),
{
    AssetError::CustomError(String::from_str("resource not found in cache"))
}

} // verus!
