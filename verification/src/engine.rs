//! The trusted boundary to the embedded storage engine and to the filesystem
//! path routines. Everything the library assumes of the outside world is
//! stated here, on the wrappers' contracts; nothing else in the crate is
//! taken on trust.
//!
//! The engine is `sled`, an embedded, on-disk, ordered key-value store with
//! durable put/get/range-scan over byte strings and create-if-missing open
//! semantics. Its committed contents are abstracted as a map from physical
//! key bytes to value bytes, `engine_view`.

use vstd::prelude::*;

use crate::keys::lex_lt;

verus! {

/// One opened storage engine instance. The handle is opaque to the verifier:
/// everything known of it goes through `engine_view` and the wrappers below.
#[verifier::external_body]
pub struct Engine {
    sled: sled::Db,
}

/// The committed contents of an opened engine: which value bytes stand under
/// which physical key bytes.
pub uninterp spec fn engine_view(e: Engine) -> Map<Seq<u8>, Seq<u8>>;

/// Relies on `sled::open`: opens the store at `path` with default engine
/// tuning, creating the store directory if it is missing. Whether the call
/// succeeds, and what an opened store holds, depend on what is on disk, so
/// nothing is assumed of the outcome; the error case carries the engine's
/// own message.
#[verifier::external_body]
pub(crate) fn engine_open(path: &str) -> (r: Result<Engine, String>) {
    match sled::open(path) {
        Ok(sled) => Ok(Engine { sled }),
        Err(e) => Err(e.to_string()),
    }
}

/// Relies on `sled::Tree::insert`: writes `value` under `key`, overwriting
/// any prior value, so on success the committed contents are the old contents
/// with exactly this one binding updated. On failure nothing is assumed of
/// the state; the error case carries the engine's own message.
#[verifier::external_body]
pub(crate) fn engine_put(e: &mut Engine, key: &[u8], value: &[u8]) -> (r: Result<(), String>)
    ensures
        r is Ok ==> engine_view(*final(e)) == engine_view(*old(e)).insert(key@, value@),
{
    match e.sled.insert(key, value) {
        Ok(_) => Ok(()),
        Err(err) => Err(err.to_string()),
    }
}

/// Relies on `sled::Tree::get`: returns the value currently stored under
/// `key`, or `None` when no value is stored there — absence is not an error.
/// The error case carries the engine's own message.
#[verifier::external_body]
pub(crate) fn engine_get(e: &Engine, key: &[u8]) -> (r: Result<Option<Vec<u8>>, String>)
    ensures
        match r {
            Ok(Some(v)) => engine_view(*e).contains_key(key@) && engine_view(*e)[key@] == v@,
            Ok(None) => !engine_view(*e).contains_key(key@),
            Err(_) => true,
        },
{
    match e.sled.get(key) {
        Ok(Some(v)) => Ok(Some(v.to_vec())),
        Ok(None) => Ok(None),
        Err(err) => Err(err.to_string()),
    }
}

/// Relies on `sled::Tree::range` over `from..`: the engine iterates every
/// committed entry whose key is at or after `from`, in ascending byte order
/// of key. On success the collected pairs are therefore current entries,
/// strictly ascending by key, and complete for every key at or after `from`;
/// the first engine failure cuts the scan short and is returned instead.
#[verifier::external_body]
pub(crate) fn engine_scan_from(e: &Engine, from: &[u8]) -> (r: Result<
    Vec<(Vec<u8>, Vec<u8>)>,
    String,
>)
    ensures
        (r matches Ok(pairs) ==> {
            &&& forall|i: int|
                0 <= i < pairs@.len() ==> engine_view(*e).contains_key(
                    (#[trigger] pairs@[i]).0@,
                ) && engine_view(*e)[pairs@[i].0@] == pairs@[i].1@
            &&& forall|i: int, j: int|
                0 <= i < j < pairs@.len() ==> lex_lt(
                    (#[trigger] pairs@[i]).0@,
                    (#[trigger] pairs@[j]).0@,
                )
            &&& forall|k: Seq<u8>|
                #[trigger] engine_view(*e).contains_key(k) && !lex_lt(k, from@) ==> exists|i: int|
                    0 <= i < pairs@.len() && (#[trigger] pairs@[i]).0@ == k
        }),
{
    let mut out: Vec<(Vec<u8>, Vec<u8>)> = Vec::new();
    for item in e.sled.range(from..) {
        match item {
            Ok((k, v)) => out.push((k.to_vec(), v.to_vec())),
            Err(err) => return Err(err.to_string()),
        }
    }
    Ok(out)
}

/// Relies on `sled::Tree::flush`: forces every outstanding write to durable
/// storage. The committed contents are not changed, only made durable; the
/// error case carries the engine's own message.
#[verifier::external_body]
pub(crate) fn engine_flush(e: &Engine) -> (r: Result<(), String>) {
    match e.sled.flush() {
        Ok(_) => Ok(()),
        Err(err) => Err(err.to_string()),
    }
}

/// What `std::path::Path::parent` returns for a path string: the path
/// without its final component, `None` for a root or empty path. A function
/// of the path string alone, defined by std's component grammar.
pub uninterp spec fn parent_of(path: Seq<char>) -> Option<Seq<char>>;

/// What `std::path::Path::file_name` returns for a path string: its final
/// normal component, `None` when it ends in `..` or is a root or empty path.
/// A function of the path string alone.
pub uninterp spec fn file_name_of(path: Seq<char>) -> Option<Seq<char>>;

/// What `std::path::PathBuf::push` makes of a directory path and a final
/// component: the path naming that component inside the directory. A
/// function of the two strings alone.
pub uninterp spec fn joined(dir: Seq<char>, name: Seq<char>) -> Seq<char>;

/// Relies on `std::path::Path::parent`: the path without its final
/// component.
#[verifier::external_body]
pub(crate) fn path_parent(path: &str) -> (r: Option<String>)
    ensures
        (match r {
            Some(s) => Some(s@),
            None => None::<Seq<char>>,
        }) == parent_of(path@),
{
    std::path::Path::new(path).parent().map(|p| p.to_string_lossy().into_owned())
}

/// Relies on `std::path::Path::file_name`: the path's final normal
/// component.
#[verifier::external_body]
pub(crate) fn path_file_name(path: &str) -> (r: Option<String>)
    ensures
        (match r {
            Some(s) => Some(s@),
            None => None::<Seq<char>>,
        }) == file_name_of(path@),
{
    std::path::Path::new(path).file_name().map(|n| n.to_string_lossy().into_owned())
}

/// Relies on `std::path::PathBuf::push`: appends a final component to a
/// directory path.
#[verifier::external_body]
pub(crate) fn path_join(dir: &str, name: &str) -> (r: String)
    ensures
        r@ == joined(dir@, name@),
{
    let mut p = std::path::PathBuf::from(dir);
    p.push(name);
    p.to_string_lossy().into_owned()
}

/// Relies on `std::path::Path::canonicalize`: the absolute canonical form of
/// `path`, from the filesystem. The outcome depends on what is on disk, so
/// nothing is assumed of it; the error case carries the filesystem failure,
/// rendered as a string.
#[verifier::external_body]
pub(crate) fn canonicalize_path(path: &str) -> (r: Result<String, String>) {
    match std::path::Path::new(path).canonicalize() {
        Ok(p) => Ok(p.to_string_lossy().into_owned()),
        Err(e) => Err(e.to_string()),
    }
}

/// Relies on `std::path::Path::is_dir`: whether `path` currently names a
/// directory on disk. The answer depends on the filesystem, so nothing is
/// assumed of it.
#[verifier::external_body]
pub(crate) fn path_is_dir(path: &str) -> bool {
    std::path::Path::new(path).is_dir()
}

} // verus!
