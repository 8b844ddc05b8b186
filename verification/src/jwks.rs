//! The time-bounded cache of the provider's public signing keys.
//!
//! The caller fetches the JWKS document over HTTP and serializes access
//! under one lock; this module owns the refresh policy (refresh on first
//! use or after twenty-four hours), the extraction of RSA key entries from
//! the fetched JSON, and the rule that a failed fetch leaves the old
//! entries in place while still reporting the failure.

use vstd::prelude::*;
use crate::strutil::str_eq;

verus! {

/// How long fetched keys stay fresh, in seconds: twenty-four hours.
pub open spec fn key_freshness_window() -> int {
    86400
}

/// One RSA signing key: key id, modulus, and exponent, all as the JWKS
/// document carries them (base64url text).
#[derive(Debug, PartialEq, Eq)]
pub struct JwkEntry {
    pub kid: String,
    pub modulus: String,
    pub exponent: String,
}

impl Clone for JwkEntry {
    fn clone(&self) -> (r: JwkEntry)
        ensures
            r == *self,
    {
        JwkEntry {
            kid: self.kid.clone(),
            modulus: self.modulus.clone(),
            exponent: self.exponent.clone(),
        }
    }
}

/// The mapping a sequence of entries denotes: key id to (modulus,
/// exponent), a later entry overriding an earlier one with the same id.
pub open spec fn keys_map(s: Seq<JwkEntry>) -> Map<Seq<char>, (Seq<char>, Seq<char>)>
    decreases s.len(),
{
    if s.len() == 0 {
        Map::empty()
    } else {
        keys_map(s.drop_last()).insert(
            s.last().kid@,
            (s.last().modulus@, s.last().exponent@),
        )
    }
}

/// The entry holding a key id, if any: the last one wins, as in
/// [`keys_map`].
pub proof fn lemma_keys_map_last_match(s: Seq<JwkEntry>, i: int)
    requires
        0 <= i < s.len(),
        forall|j: int| i < j < s.len() ==> (#[trigger] s[j]).kid@ != s[i].kid@,
    ensures
        keys_map(s).contains_key(s[i].kid@),
        keys_map(s)[s[i].kid@] == (s[i].modulus@, s[i].exponent@),
    decreases s.len(),
{
    if i == s.len() - 1 {
    } else {
        assert(forall|j: int|
            i < j < s.drop_last().len() ==> (#[trigger] s.drop_last()[j]).kid@
                != s.drop_last()[i].kid@);
        lemma_keys_map_last_match(s.drop_last(), i);
        assert(s.last().kid@ != s[i].kid@);
    }
}

/// A key id matching no entry is not in the mapping.
pub proof fn lemma_keys_map_no_match(s: Seq<JwkEntry>, kid: Seq<char>)
    requires
        forall|j: int| 0 <= j < s.len() ==> (#[trigger] s[j]).kid@ != kid,
    ensures
        !keys_map(s).contains_key(kid),
    decreases s.len(),
{
    if s.len() > 0 {
        lemma_keys_map_no_match(s.drop_last(), kid);
    }
}

/// The cache itself. `populated` stays false until the first successful
/// fetch; entries and stamp change only together, in [`KeyCache::apply_refresh`].
pub struct KeyCache {
    keys: Vec<JwkEntry>,
    last_updated: u64,
    first: bool,
}

/// A refresh is due when the cache was never populated or its last fetch
/// is more than twenty-four hours old.
pub open spec fn refresh_is_due(c: KeyCache, now: u64) -> bool {
    !c.populated() || now - c.last_refreshed() > key_freshness_window()
}

impl KeyCache {
    /// The entries as last stored, later duplicates still in place.
    pub closed spec fn entries(self) -> Seq<JwkEntry> {
        self.keys@
    }

    /// The key mapping the cache currently holds.
    pub open spec fn key_map(self) -> Map<Seq<char>, (Seq<char>, Seq<char>)> {
        keys_map(self.entries())
    }

    /// When the cache was last successfully refreshed (unix seconds).
    pub closed spec fn last_refreshed(self) -> u64 {
        self.last_updated
    }

    /// Whether any fetch has succeeded yet.
    pub closed spec fn populated(self) -> bool {
        !self.first
    }

    /// A cache that has never fetched: empty and due for refresh at any
    /// time.
    pub fn new() -> (r: KeyCache)
        ensures
            !r.populated(),
            r.entries() == Seq::<JwkEntry>::empty(),
    {
        KeyCache { keys: Vec::new(), last_updated: 0, first: true }
    }

    /// Whether the last fetch is more than twenty-four hours old.
    pub fn is_expired(&self, now: u64) -> (r: bool)
        ensures
            r == (now - self.last_refreshed() > key_freshness_window()),
    {
        now >= self.last_updated && now - self.last_updated > 86400
    }

    /// Whether the next read must fetch, as [`refresh_is_due`] describes.
    pub fn refresh_due(&self, now: u64) -> (r: bool)
        ensures
            r == refresh_is_due(*self, now),
    {
        self.first || self.is_expired(now)
    }

    /// Replaces the contents atomically and stamps the fetch time; from
    /// here on the cache counts as populated.
    pub fn apply_refresh(&mut self, entries: Vec<JwkEntry>, now: u64)
        ensures
            final(self).populated(),
            final(self).last_refreshed() == now,
            final(self).entries() == entries@,
    {
        self.keys = entries;
        self.last_updated = now;
        self.first = false;
    }

    /// The stored key for a key id, if the mapping has one.
    pub fn lookup(&self, kid: &str) -> (r: Option<&JwkEntry>)
        ensures
            match r {
                Some(e) => self.key_map().contains_key(kid@) && e.kid@ == kid@
                    && self.key_map()[kid@] == (e.modulus@, e.exponent@),
                None => !self.key_map().contains_key(kid@),
            },
    {
        let n = self.keys.len();
        let mut i: usize = n;
        while i > 0
            invariant
                i <= n,
                n == self.keys.len(),
                forall|j: int| i <= j < n ==> (#[trigger] self.keys@[j]).kid@ != kid@,
            decreases i,
        {
            i = i - 1;
            if str_eq(self.keys[i].kid.as_str(), kid) {
                proof {
                    lemma_keys_map_last_match(self.keys@, i as int);
                }
                return Some(&self.keys[i]);
            }
        }
        proof {
            lemma_keys_map_no_match(self.keys@, kid@);
        }
        None
    }

    /// A copy of the stored entries, for handing out under the lock.
    pub fn keys(&self) -> (r: Vec<JwkEntry>)
        ensures
            r@ == self.entries(),
    {
        let mut out: Vec<JwkEntry> = Vec::new();
        let mut i: usize = 0;
        while i < self.keys.len()
            invariant
                i <= self.keys.len(),
                out@ =~= self.keys@.take(i as int),
            decreases self.keys.len() - i,
        {
            out.push(self.keys[i].clone());
            proof {
                assert(out@ =~= self.keys@.take(i as int + 1));
            }
            i = i + 1;
        }
        proof {
            assert(self.keys@.take(self.keys@.len() as int) =~= self.keys@);
        }
        out
    }
}

impl Default for KeyCache {
    /// A fresh, never-populated cache, as [`KeyCache::new`] builds it.
    fn default() -> (r: KeyCache)
        ensures
            !r.populated(),
            r.entries() == Seq::<JwkEntry>::empty(),
    {
        KeyCache::new()
    }
}

/// The three fields of one JWKS entry, each as found: a key is usable only
/// when all three are present as strings.
pub struct JwkFields {
    pub kid: Option<String>,
    pub modulus: Option<String>,
    pub exponent: Option<String>,
}

/// Whether an entry carries all three fields.
pub open spec fn complete_entry(f: JwkFields) -> bool {
    f.kid is Some && f.modulus is Some && f.exponent is Some
}

/// The key an entry with all fields denotes.
pub open spec fn entry_of_fields(f: JwkFields) -> JwkEntry
    recommends
        complete_entry(f),
{
    JwkEntry {
        kid: f.kid.unwrap(),
        modulus: f.modulus.unwrap(),
        exponent: f.exponent.unwrap(),
    }
}

/// Keeps exactly the complete entries, in order; incomplete ones are
/// skipped rather than failing the whole refresh.
#[verifier::loop_isolation(false)]
pub fn collect_rsa_keys(fields: Vec<JwkFields>) -> (r: Vec<JwkEntry>)
    ensures
        r@ == fields@.filter(|f: JwkFields| complete_entry(f)).map_values(
            |f: JwkFields| entry_of_fields(f),
        ),
{
    let ghost pred = |f: JwkFields| complete_entry(f);
    let ghost emap = |f: JwkFields| entry_of_fields(f);
    let mut fields = fields;
    let ghost all = fields@;
    let mut out: Vec<JwkEntry> = Vec::new();
    let mut i: usize = 0;
    proof {
        reveal(Seq::filter);
    }
    while i < fields.len()
        invariant
            i <= fields.len(),
            fields@ == all,
            out@ =~= all.take(i as int).filter(pred).map_values(emap),
        decreases fields.len() - i,
    {
        proof {
            reveal(Seq::filter);
            let t0 = all.take(i as int);
            let t1 = all.take(i as int + 1);
            assert(t1.drop_last() =~= t0);
            assert(t1.last() == all[i as int]);
            if pred(all[i as int]) {
                assert(t1.filter(pred) =~= t0.filter(pred).push(all[i as int]));
            } else {
                assert(t1.filter(pred) =~= t0.filter(pred));
            }
        }
        let f = fields_at(&fields, i);
        match f {
            Some(e) => {
                out.push(e);
                proof {
                    assert(out@ =~= all.take(i as int + 1).filter(pred).map_values(emap));
                }
            },
            None => {
                proof {
                    assert(out@ =~= all.take(i as int + 1).filter(pred).map_values(emap));
                }
            },
        }
        i = i + 1;
    }
    proof {
        assert(all.take(all.len() as int) =~= all);
    }
    out
}

#[verifier::external_type_specification]
#[verifier::external_body]
pub struct ExValue(serde_json::Value);

/// Whether serde_json's parser accepts a text as a JSON document. The
/// parser is deterministic in the text, so the predicate is well defined;
/// what it holds of a given text only [`parse_json`] says.
pub uninterp spec fn is_json_document(s: Seq<char>) -> bool;

/// Relies on serde_json::from_str for serde_json::Value: `Some` exactly on
/// text serde_json parses as a JSON document, named [`is_json_document`].
#[verifier::external_body]
fn parse_json(s: &str) -> (r: Option<serde_json::Value>)
    ensures
        r is Some <==> is_json_document(s@),
{
    serde_json::from_str(s).ok()
}

/// Relies on serde_json::Value::get with a string key: the member of a
/// JSON object under that key, `None` for other values or absent keys.
#[verifier::external_body]
pub(crate) fn json_member<'a>(v: &'a serde_json::Value, key: &str) -> Option<&'a serde_json::Value> {
    v.get(key)
}

/// Relies on serde_json::Value::as_array: the elements of a JSON array.
#[verifier::external_body]
pub(crate) fn json_array<'a>(v: &'a serde_json::Value) -> Option<&'a Vec<serde_json::Value>> {
    v.as_array()
}

/// Relies on serde_json::Value::as_str: the text of a JSON string value.
#[verifier::external_body]
pub(crate) fn json_string(v: &serde_json::Value) -> Option<String> {
    v.as_str().map(|s| s.to_owned())
}

/// Relies on serde_json::Value::as_u64: the value of a JSON number that is
/// a non-negative integer within `u64`.
#[verifier::external_body]
pub(crate) fn json_u64(v: &serde_json::Value) -> Option<u64> {
    v.as_u64()
}

/// One string member of a JSON object, if present as a string.
pub(crate) fn string_member(v: &serde_json::Value, key: &str) -> Option<String> {
    match json_member(v, key) {
        Some(m) => json_string(m),
        None => None,
    }
}

/// The `(kid, n, e)` fields of one entry of a JWKS `keys` array, each as
/// present or absent in the fetched document.
fn jwk_fields_of(v: &serde_json::Value) -> JwkFields {
    JwkFields {
        kid: string_member(v, "kid"),
        modulus: string_member(v, "n"),
        exponent: string_member(v, "e"),
    }
}

/// Reads a fetched JWKS document: `None` exactly when the body is not
/// JSON at all; otherwise the fields of each entry of its `keys` array, in
/// order. A document without a `keys` array has no entries. Which fields a
/// given body yields is decided by the JSON accessors on opaque values and
/// is pinned by tests rather than by this contract.
pub fn parse_jwks_document(body: &str) -> (r: Option<Vec<JwkFields>>)
    ensures
        r is Some <==> is_json_document(body@),
{
    let doc = match parse_json(body) {
        Some(d) => d,
        None => { return None },
    };
    let mut out: Vec<JwkFields> = Vec::new();
    let keys = match json_member(&doc, "keys") {
        Some(k) => k,
        None => { return Some(out) },
    };
    let arr = match json_array(keys) {
        Some(a) => a,
        None => { return Some(out) },
    };
    let mut i: usize = 0;
    while i < arr.len()
        decreases arr@.len() - i,
    {
        out.push(jwk_fields_of(&arr[i]));
        i = i + 1;
    }
    Some(out)
}

/// Why a key fetch produced nothing.
#[derive(Clone, Copy, Debug, PartialEq, Eq)]
pub enum FetchError {
    /// The HTTP round trip itself failed.
    Transport,
    /// The body came back but was not JSON.
    Json,
}

/// One pass of the guarded key fetch, on plain values: `body` stands for
/// what the HTTP round trip to the JWKS endpoint would return (`None` for
/// a transport failure), consulted only when a refresh is due.
///
/// Returns how many fetches were issued and either the keys to use or the
/// failure. A fetch happens exactly when [`refresh_is_due`]; on any
/// failure the cache, stale or not, is left untouched and the failure is
/// still reported.
pub fn fetch_and_cache_jwks(cache: &mut KeyCache, now: u64, body: Option<&str>) -> (r: (
    u64,
    Result<Vec<JwkEntry>, FetchError>,
))
    ensures
        r.0 == if refresh_is_due(*old(cache), now) {
            1int
        } else {
            0int
        },
        !refresh_is_due(*old(cache), now) ==> *final(cache) == *old(cache) && (r.1 matches Ok(v)
            && v@ == old(cache).entries()),
        r.1 is Err ==> *final(cache) == *old(cache),
        refresh_is_due(*old(cache), now) ==> match r.1 {
            Ok(v) => final(cache).populated() && final(cache).last_refreshed() == now
                && final(cache).entries() == v@,
            Err(e) => e == if body is None {
                FetchError::Transport
            } else {
                FetchError::Json
            },
        },
        refresh_is_due(*old(cache), now) && body is None ==> r.1 == Err::<
            Vec<JwkEntry>,
            FetchError,
        >(FetchError::Transport),
        refresh_is_due(*old(cache), now) && (body matches Some(b) && is_json_document(b@)) ==> r.1
            is Ok,
        refresh_is_due(*old(cache), now) && (body matches Some(b) && !is_json_document(b@))
            ==> r.1 == Err::<Vec<JwkEntry>, FetchError>(FetchError::Json),
{
    if !cache.refresh_due(now) {
        return (0, Ok(cache.keys()));
    }
    let body = match body {
        Some(b) => b,
        None => { return (1, Err(FetchError::Transport)) },
    };
    let fields = match parse_jwks_document(body) {
        Some(f) => f,
        None => { return (1, Err(FetchError::Json)) },
    };
    let entries = collect_rsa_keys(fields);
    cache.apply_refresh(entries, now);
    (1, Ok(cache.keys()))
}

/// A never-populated cache is due for refresh at any time: the first read
/// always fetches.
pub proof fn lemma_unpopulated_always_due(c: KeyCache, now: u64)
    requires
        !c.populated(),
    ensures
        refresh_is_due(c, now),
{
}

/// A populated cache is due for refresh exactly when its last fetch is
/// more than twenty-four hours old: a read within the window fetches
/// nothing, a later read fetches again.
pub proof fn lemma_refresh_window(c: KeyCache, now: u64)
    requires
        c.populated(),
    ensures
        refresh_is_due(c, now) <==> now - c.last_refreshed() > key_freshness_window(),
{
}

/// The complete entry at one index, if it is complete.
fn fields_at(fields: &Vec<JwkFields>, i: usize) -> (r: Option<JwkEntry>)
    requires
        i < fields@.len(),
    ensures
        r == if complete_entry(fields@[i as int]) {
            Some(entry_of_fields(fields@[i as int]))
        } else {
            None::<JwkEntry>
        },
{
    let f = &fields[i];
    match (&f.kid, &f.modulus, &f.exponent) {
        (Some(kid), Some(modulus), Some(exponent)) => Some(
            JwkEntry {
                kid: kid.clone(),
                modulus: modulus.clone(),
                exponent: exponent.clone(),
            },
        ),
        _ => None,
    }
}

} // verus!
