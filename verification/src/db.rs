//! The store handle and its operations: opening a store on a filesystem
//! path, raw and prefixed byte operations, the generic typed store/retrieve
//! boundary, and the prefix scan.

use vstd::prelude::*;

use crate::codec::Decodable;
use crate::codec::Encodable;
use crate::engine::canonicalize_path;
use crate::engine::engine_flush;
use crate::engine::engine_get;
use crate::engine::engine_open;
use crate::engine::engine_put;
use crate::engine::engine_scan_from;
use crate::engine::engine_view;
use crate::engine::file_name_of;
use crate::engine::joined;
use crate::engine::parent_of;
use crate::engine::path_file_name;
use crate::engine::path_is_dir;
use crate::engine::path_join;
use crate::engine::path_parent;
use crate::engine::Engine;
use crate::error::DbError;
use crate::keys::has_prefix;
use crate::keys::lemma_prefixed_key_ge_prefix;
use crate::keys::lex_lt;
use crate::keys::prefixed_key;
use crate::keys::starts_with;

verus! {

/// The parent directory that path resolution canonicalizes for `path`: the
/// path's own parent when it has one, else the current directory.
pub open spec fn parent_or_here(path: Seq<char>) -> Seq<char> {
    match parent_of(path) {
        Some(p) => p,
        None => seq!['.'],
    }
}

/// The resolved store path, given the canonicalized parent `canon`: the
/// final component of `path` re-appended to `canon`, or `canon` itself when
/// `path` has no final component.
pub open spec fn resolved_from(path: Seq<char>, canon: Seq<char>) -> Seq<char> {
    match file_name_of(path) {
        Some(name) => joined(canon, name),
        None => canon,
    }
}

/// The parent directory to canonicalize for `db_path`, per the path
/// resolver: the path's parent, falling back to the current directory when
/// there is none.
fn parent_to_canonicalize(db_path: &str) -> (r: String)
    ensures
        r@ == parent_or_here(db_path@),
{
    match path_parent(db_path) {
        Some(p) => p,
        None => {
            let dot = ".".to_owned();
            proof {
                reveal_strlit(".");
                assert(dot@ =~= seq!['.']);
            }
            dot
        },
    }
}

/// Re-appends the final component of `db_path` to the canonicalized parent.
fn reappend_file_name(db_path: &str, canon: &str) -> (r: String)
    ensures
        r@ == resolved_from(db_path@, canon@),
{
    match path_file_name(db_path) {
        Some(name) => path_join(canon, name.as_str()),
        None => canon.to_owned(),
    }
}

/// Resolves `db_path` to the path that will be opened: canonicalize its
/// parent — the current directory when it has none — then re-append its
/// final component. Fails exactly when the filesystem cannot canonicalize
/// the parent; the error carries the filesystem cause.
fn resolve_db_path(db_path: &str) -> (r: Result<String, String>)
    ensures
        r matches Ok(c) ==> exists|canon: Seq<char>| c@ == #[trigger] resolved_from(
            db_path@,
            canon,
        ),
{
    let parent = parent_to_canonicalize(db_path);
    match canonicalize_path(parent.as_str()) {
        Ok(canon) => {
            let resolved = reappend_file_name(db_path, canon.as_str());
            proof {
                assert(exists|c: Seq<char>| resolved@ == #[trigger] resolved_from(db_path@, c));
            }
            Ok(resolved)
        },
        Err(e) => Err(e),
    }
}

/// Whether position `j` of `s` holds an entry with key bytes `k` and value
/// bytes `v`.
pub open spec fn entry_at(s: Seq<(Vec<u8>, Vec<u8>)>, j: int, k: Seq<u8>, v: Seq<u8>) -> bool {
    0 <= j < s.len() && s[j].0@ == k && s[j].1@ == v
}

/// Whether `pairs` covers the whole logical table `prefix` of the store
/// contents `m`: every present key that starts with `prefix` appears in
/// `pairs`, with its stored value.
pub open spec fn scan_complete(
    m: Map<Seq<u8>, Seq<u8>>,
    prefix: Seq<u8>,
    pairs: Seq<(Vec<u8>, Vec<u8>)>,
) -> bool {
    forall|k: Seq<u8>|
        #[trigger] m.contains_key(k) && starts_with(k, prefix) ==> exists|i: int|
            #[trigger] entry_at(pairs, i, k, m[k])
}

/// A KV store: a handle to one opened storage engine instance. Its abstract
/// value, written `db@`, is the map from physical key bytes to the value
/// bytes committed under them.
///
/// The handle is exclusively owned: writes take `&mut self`, and the engine
/// resource is released when the handle is dropped. Callers that share one
/// store across threads or tasks wrap the handle in their own
/// synchronization.
pub struct DB {
    engine: Engine,
}

impl View for DB {
    type V = Map<Seq<u8>, Seq<u8>>;

    closed spec fn view(&self) -> Map<Seq<u8>, Seq<u8>> {
        engine_view(self.engine)
    }
}

/// Whether an open found an existing store directory or is creating a new
/// one. Recorded for operational visibility only: the open call itself
/// creates the store if it is missing either way.
#[derive(Clone, Copy, Debug, PartialEq, Eq, Structural)]
pub enum OpenEvent {
    /// The resolved path already named a directory.
    OpeningExisting,
    /// The resolved path did not yet name a directory.
    CreatingNew,
}

impl DB {
    /// Opens the store at `db_path`, creating it if missing, and reports
    /// whether an existing store directory was found. The supplied path's
    /// parent is canonicalized first, so every failure names the path that
    /// would actually have been opened: a path-resolution failure carries the
    /// supplied path and the filesystem cause, and an opening failure carries
    /// the supplied path, the canonicalized path, and the engine's cause.
    pub fn from_path_observed(db_path: &str) -> (r: Result<(DB, OpenEvent), DbError>)
        ensures
            match r {
                Ok(_) => true,
                Err(e) => match e {
                    DbError::InvalidDbPath(_, path) => path@ == db_path@,
                    DbError::OpeningError { source, path, canonicalized } => path@ == db_path@
                        && exists|canon: Seq<char>|
                        canonicalized@ == #[trigger] resolved_from(db_path@, canon),
                    _ => false,
                },
            },
    {
        let canonicalized = match resolve_db_path(db_path) {
            Ok(c) => c,
            Err(cause) => {
                return Err(DbError::InvalidDbPath(cause, db_path.to_owned()));
            },
        };
        let event = if path_is_dir(canonicalized.as_str()) {
            OpenEvent::OpeningExisting
        } else {
            OpenEvent::CreatingNew
        };
        match engine_open(canonicalized.as_str()) {
            Ok(engine) => Ok((DB { engine }, event)),
            Err(source) => Err(
                DbError::OpeningError { source, path: db_path.to_owned(), canonicalized },
            ),
        }
    }

    /// Opens the store at `db_path` and creates it if missing. Failures are
    /// only path-resolution or opening failures, and both carry the supplied
    /// path.
    pub fn from_path(db_path: &str) -> (r: Result<DB, DbError>)
        ensures
            match r {
                Ok(_) => true,
                Err(e) => match e {
                    DbError::InvalidDbPath(_, path) => path@ == db_path@,
                    DbError::OpeningError { source, path, canonicalized } => path@ == db_path@
                        && exists|canon: Seq<char>|
                        canonicalized@ == #[trigger] resolved_from(db_path@, canon),
                    _ => false,
                },
            },
    {
        match Self::from_path_observed(db_path) {
            Ok((db, _)) => Ok(db),
            Err(e) => Err(e),
        }
    }

    /// Stores `value` under the physical key `key`, overwriting any prior
    /// value.
    fn _store(&mut self, key: &[u8], value: &[u8]) -> (r: Result<(), DbError>)
        ensures
            r is Ok ==> final(self)@ == old(self)@.insert(key@, value@),
            r is Err ==> r matches Err(DbError::EngineError(_)),
    {
        match engine_put(&mut self.engine, key, value) {
            Ok(()) => Ok(()),
            Err(m) => Err(DbError::EngineError(m)),
        }
    }

    /// Retrieves the value under the physical key `key`; absence is an
    /// explicit `None`, not an error.
    fn _retrieve(&self, key: &[u8]) -> (r: Result<Option<Vec<u8>>, DbError>)
        ensures
            match r {
                Ok(Some(v)) => self@.contains_key(key@) && self@[key@] == v@,
                Ok(None) => !self@.contains_key(key@),
                Err(e) => e matches DbError::EngineError(_),
            },
    {
        match engine_get(&self.engine, key) {
            Ok(v) => Ok(v),
            Err(m) => Err(DbError::EngineError(m)),
        }
    }

    /// Prefixes `key` with the table prefix and stores `value` there.
    fn prefix_store(&mut self, prefix: &[u8], key: &[u8], value: &[u8]) -> (r: Result<
        (),
        DbError,
    >)
        ensures
            r is Ok ==> final(self)@ == old(self)@.insert(prefix@ + key@, value@),
            r is Err ==> r matches Err(DbError::EngineError(_)),
    {
        let buf = prefixed_key(prefix, key);
        self._store(buf.as_slice(), value)
    }

    /// Prefixes `key` with the table prefix and retrieves what is stored
    /// there.
    fn prefix_retrieve(&self, prefix: &[u8], key: &[u8]) -> (r: Result<Option<Vec<u8>>, DbError>)
        ensures
            match r {
                Ok(Some(v)) => self@.contains_key(prefix@ + key@) && self@[prefix@ + key@] == v@,
                Ok(None) => !self@.contains_key(prefix@ + key@),
                Err(e) => e matches DbError::EngineError(_),
            },
    {
        let buf = prefixed_key(prefix, key);
        self._retrieve(buf.as_slice())
    }

    /// Serializes `value` and stores its bytes under table `prefix` and
    /// caller key `key`, overwriting any prior value there.
    pub fn store_encodable<V: Encodable>(
        &mut self,
        prefix: &[u8],
        key: &[u8],
        value: &V,
    ) -> (r: Result<(), DbError>)
        ensures
            r is Ok ==> final(self)@ == old(self)@.insert(prefix@ + key@, value.encoding()),
            r is Err ==> r matches Err(DbError::EngineError(_)),
    {
        let bytes = value.to_vec();
        self.prefix_store(prefix, key, bytes.as_slice())
    }

    /// Retrieves the value under table `prefix` and caller key `key` and
    /// decodes it. Absence is an explicit `Ok(None)`; a present value that
    /// does not decode is a decode failure, never an engine failure.
    pub fn retrieve_decodable<V: Decodable>(&self, prefix: &[u8], key: &[u8]) -> (r: Result<
        Option<V>,
        DbError,
    >)
        ensures
            match r {
                Ok(Some(v)) => self@.contains_key(prefix@ + key@) && V::decoding(
                    self@[prefix@ + key@],
                ) == Some(v),
                Ok(None) => !self@.contains_key(prefix@ + key@),
                Err(e) => match e {
                    DbError::EngineError(_) => true,
                    DbError::DecodeError(_) => self@.contains_key(prefix@ + key@) && V::decoding(
                        self@[prefix@ + key@],
                    ) is None,
                    _ => false,
                },
            },
    {
        match self.prefix_retrieve(prefix, key) {
            Ok(Some(bytes)) => match V::read_from(bytes.as_slice()) {
                Ok(v) => Ok(Some(v)),
                Err(e) => Err(DbError::DecodeError(e)),
            },
            Ok(None) => Ok(None),
            Err(e) => Err(e),
        }
    }

    /// Stores `value` under a typed key: the key value is serialized to bytes
    /// first, then used as the caller key.
    pub fn store_keyed_encodable<K: Encodable, V: Encodable>(
        &mut self,
        prefix: &[u8],
        key: &K,
        value: &V,
    ) -> (r: Result<(), DbError>)
        ensures
            r is Ok ==> final(self)@ == old(self)@.insert(prefix@ + key.encoding(), value.encoding()),
            r is Err ==> r matches Err(DbError::EngineError(_)),
    {
        let key_bytes = key.to_vec();
        self.store_encodable(prefix, key_bytes.as_slice(), value)
    }

    /// Retrieves and decodes the value stored under a typed key.
    pub fn retrieve_keyed_decodable<K: Encodable, V: Decodable>(
        &self,
        prefix: &[u8],
        key: &K,
    ) -> (r: Result<Option<V>, DbError>)
        ensures
            match r {
                Ok(Some(v)) => self@.contains_key(prefix@ + key.encoding()) && V::decoding(
                    self@[prefix@ + key.encoding()],
                ) == Some(v),
                Ok(None) => !self@.contains_key(prefix@ + key.encoding()),
                Err(e) => match e {
                    DbError::EngineError(_) => true,
                    DbError::DecodeError(_) => self@.contains_key(prefix@ + key.encoding())
                        && V::decoding(self@[prefix@ + key.encoding()]) is None,
                    _ => false,
                },
            },
    {
        let key_bytes = key.to_vec();
        self.retrieve_decodable(prefix, key_bytes.as_slice())
    }
    /// Keeps, in order, exactly the entries of `all` whose key starts with
    /// `prefix`. Besides the kept pairs it returns, for the proof, the input
    /// position each kept pair came from: positions ascend strictly, so a
    /// strictly ascending input yields a strictly ascending output.
    #[verifier::rlimit(100)]
    #[verifier::spinoff_prover]
    fn filter_prefixed(all: &Vec<(Vec<u8>, Vec<u8>)>, prefix: &[u8]) -> (res: (
        Vec<(Vec<u8>, Vec<u8>)>,
        Ghost<Seq<int>>,
    ))
        ensures
            res.1@.len() == res.0@.len(),
            forall|a: int|
                #![trigger res.1@[a]]
                0 <= a < res.0@.len() ==> 0 <= res.1@[a] && res.1@[a] < all@.len() && entry_at(
                    all@,
                    res.1@[a],
                    (res.0@[a]).0@,
                    res.0@[a].1@,
                ),
            forall|a: int|
                0 <= a < res.0@.len() ==> starts_with((#[trigger] res.0@[a]).0@, prefix@),
            forall|a: int, b: int|
                0 <= a < b < res.1@.len() ==> (#[trigger] res.1@[a]) < (#[trigger] res.1@[b]),
            forall|j: int|
                0 <= j < all@.len() && starts_with((#[trigger] all@[j]).0@, prefix@)
                    ==> exists|a: int| #[trigger] entry_at(res.0@, a, all@[j].0@, all@[j].1@),
    {
        let mut out: Vec<(Vec<u8>, Vec<u8>)> = Vec::new();
        let ghost mut src: Seq<int> = Seq::empty();
        let mut i: usize = 0;
        while i < all.len()
            invariant
                i <= all.len(),
                forall|a: int|
                    0 <= a < out@.len() ==> starts_with((#[trigger] out@[a]).0@, prefix@),
                src.len() == out@.len(),
                forall|a: int|
                    #![trigger src[a]]
                    0 <= a < out@.len() ==> 0 <= src[a] && src[a] < i && entry_at(
                        all@,
                        src[a],
                        (out@[a]).0@,
                        out@[a].1@,
                    ),
                forall|a: int, b: int|
                    0 <= a < b < src.len() ==> (#[trigger] src[a]) < (#[trigger] src[b]),
                forall|j: int|
                    0 <= j < i && starts_with((#[trigger] all@[j]).0@, prefix@) ==> exists|a: int|
                        #[trigger] entry_at(out@, a, all@[j].0@, all@[j].1@),
            decreases all.len() - i,
        {
            let pair = &all[i];
            if has_prefix(pair.0.as_slice(), prefix) {
                let ghost prev = out@;
                let ghost prev_src = src;
                let k = vstd::slice::slice_to_vec(pair.0.as_slice());
                let v = vstd::slice::slice_to_vec(pair.1.as_slice());
                out.push((k, v));
                proof {
                    src = src.push(i as int);
                    let n = prev.len() as int;
                    assert(forall|a: int| 0 <= a < n ==> (#[trigger] out@[a]) == prev[a]);
                    assert(forall|a: int| 0 <= a < n ==> (#[trigger] src[a]) == prev_src[a]);
                    assert(src[n] == i as int);
                    assert(entry_at(all@, i as int, (out@[n]).0@, out@[n].1@));
                    assert(entry_at(out@, n, all@[i as int].0@, all@[i as int].1@));
                    assert forall|j: int|
                        0 <= j < i + 1 && starts_with(
                            (#[trigger] all@[j]).0@,
                            prefix@,
                        ) implies exists|a: int|
                        #[trigger] entry_at(out@, a, all@[j].0@, all@[j].1@) by {
                        if j < i {
                            let a0 = choose|a: int|
                                #[trigger] entry_at(prev, a, all@[j].0@, all@[j].1@);
                            assert(out@[a0] == prev[a0]);
                            assert(entry_at(out@, a0, all@[j].0@, all@[j].1@));
                        } else {
                            assert(entry_at(out@, n, all@[j].0@, all@[j].1@));
                        }
                    }
                }
            } else {
                proof {
                    assert(!starts_with(all@[i as int].0@, prefix@));
                }
            }
            i += 1;
        }
        (out, Ghost(src))
    }

    /// Scans the table `prefix`: returns exactly the entries of the store
    /// whose physical key starts with `prefix`, with their full physical
    /// keys, each once, in ascending byte order of key — so a scan is one
    /// whole logical table, in the engine's native key order.
    #[verifier::rlimit(100)]
    #[verifier::spinoff_prover]
    pub fn prefix_iterator(&self, prefix: &[u8]) -> (r: Result<Vec<(Vec<u8>, Vec<u8>)>, DbError>)
        ensures
            (r matches Ok(pairs) ==> forall|i: int|
                0 <= i < pairs@.len() ==> starts_with((#[trigger] pairs@[i]).0@, prefix@)
                    && self@.contains_key(pairs@[i].0@) && self@[pairs@[i].0@] == pairs@[i].1@),
            (r matches Ok(pairs) ==> forall|i: int, j: int|
                0 <= i < j < pairs@.len() ==> lex_lt(
                    (#[trigger] pairs@[i]).0@,
                    (#[trigger] pairs@[j]).0@,
                )),
            (r matches Ok(pairs) ==> scan_complete(self@, prefix@, pairs@)),
            (r matches Err(e) ==> e matches DbError::EngineError(_)),
    {
        let all = match engine_scan_from(&self.engine, prefix) {
            Ok(pairs) => pairs,
            Err(m) => {
                return Err(DbError::EngineError(m));
            },
        };
        let (out, src_g) = Self::filter_prefixed(&all, prefix);
        let ghost src = src_g@;
        proof {
            assert forall|a: int| 0 <= a < out@.len() implies starts_with(
                (#[trigger] out@[a]).0@,
                prefix@,
            ) && self@.contains_key(out@[a].0@) && self@[out@[a].0@] == out@[a].1@ by {
                assert(entry_at(all@, src[a], (out@[a]).0@, out@[a].1@));
                assert(self@.contains_key((all@[src[a]]).0@) && self@[(all@[src[a]]).0@] == (
                all@[src[a]]).1@);
            }
            assert forall|a: int, b: int| 0 <= a < b < out@.len() implies lex_lt(
                (#[trigger] out@[a]).0@,
                (#[trigger] out@[b]).0@,
            ) by {
                assert(entry_at(all@, src[a], (out@[a]).0@, out@[a].1@));
                assert(entry_at(all@, src[b], (out@[b]).0@, out@[b].1@));
                assert(src[a] < src[b]);
                assert(lex_lt((all@[src[a]]).0@, (all@[src[b]]).0@));
            }
            assert forall|k: Seq<u8>| #[trigger]
                self@.contains_key(k) && starts_with(k, prefix@) implies exists|i: int|
                #[trigger] entry_at(out@, i, k, self@[k]) by {
                lemma_prefixed_key_ge_prefix(k, prefix@);
                let j = choose|j: int| 0 <= j < all@.len() && (#[trigger] all@[j]).0@ == k;
                assert(starts_with(all@[j].0@, prefix@));
                assert(self@.contains_key((all@[j]).0@) && self@[all@[j].0@] == all@[j].1@);
                let a = choose|a: int| #[trigger] entry_at(out@, a, all@[j].0@, all@[j].1@);
                assert(entry_at(out@, a, k, self@[k]));
            }
        }
        proof {
            assert(scan_complete(self@, prefix@, out@));
        }
        Ok(out)
    }

    /// Forces outstanding writes to durable storage; the store's contents are
    /// unchanged.
    pub fn flush(&self) -> (r: Result<(), DbError>)
        ensures
            r is Err ==> r matches Err(DbError::EngineError(_)),
    {
        match engine_flush(&self.engine) {
            Ok(()) => Ok(()),
            Err(m) => Err(DbError::EngineError(m)),
        }
    }
}

} // verus!
