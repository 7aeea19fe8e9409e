//! Credential cache for the local verification of digest authentication.
//!
//! The hashes of verified users are kept for a while, so that a repeated
//! REGISTER can be verified without asking the backend. Failures in a row are
//! counted for each username; too many of them put the user in a cooldown.

use crate::text;
use crate::text::{from_chars, push_str, same, to_chars, to_lower};
use crate::time::{Duration, NANOS_PER_SEC};
use crate::transport::sip::types;
use crate::transport::sip::types::DigestAuthParams;
use md5::{Digest, Md5};
use moka::sync::Cache;
use vstd::prelude::*;
use vstd::utf8;

verus! {

broadcast use vstd::string::group_string_axioms;

/// Result of checking a digest against the cache.
#[derive(Debug, Clone, Copy, PartialEq, Eq, Structural)]
pub enum VerifyResult {
    /// The cache has an entry and the credentials match it.
    Verified,
    /// The cache had an entry but the credentials do not match it.
    Mismatch,
    /// The cache has no entry for this username.
    Miss,
}

/// What a successful REGISTER authentication tells.
#[derive(Debug)]
pub struct RegisterData {
    pub sip_username: String,
    /// The Discord user, for the routing of calls to the phone.
    pub discord_user_id: String,
    /// The hash of the credentials, for caching.
    pub ha1: Option<String>,
}

/// The same in the model.
pub ghost struct RegisterDataView {
    pub sip_username: Seq<char>,
    pub discord_user_id: Seq<char>,
    pub ha1: Option<Seq<char>>,
}

impl View for RegisterData {
    type V = RegisterDataView;

    open spec fn view(&self) -> RegisterDataView {
        RegisterDataView {
            sip_username: self.sip_username@,
            discord_user_id: self.discord_user_id@,
            ha1: text::opt_text(self.ha1),
        }
    }
}

impl Clone for RegisterData {
    fn clone(&self) -> (out: RegisterData)
        ensures
            out@ == self@,
    {
        RegisterData {
            sip_username: self.sip_username.clone(),
            discord_user_id: self.discord_user_id.clone(),
            ha1: match &self.ha1 {
                Some(h) => Some(h.clone()),
                None => None,
            },
        }
    }
}

/// Cached credentials of a SIP user.
#[derive(Debug)]
pub struct CachedAuth {
    /// The MD5 of username, realm and password.
    pub ha1: String,
    pub register_data: RegisterData,
}

/// The same in the model.
pub ghost struct CachedAuthView {
    pub ha1: Seq<char>,
    pub register_data: RegisterDataView,
}

impl View for CachedAuth {
    type V = CachedAuthView;

    open spec fn view(&self) -> CachedAuthView {
        CachedAuthView { ha1: self.ha1@, register_data: self.register_data@ }
    }
}

impl Clone for CachedAuth {
    fn clone(&self) -> (out: CachedAuth)
        ensures
            out@ == self@,
    {
        CachedAuth { ha1: self.ha1.clone(), register_data: self.register_data.clone() }
    }
}

/// `moka::sync::Cache`.
#[verifier::external_type_specification]
#[verifier::external_body]
#[verifier::reject_recursive_types(K)]
#[verifier::reject_recursive_types(V)]
#[verifier::reject_recursive_types(S)]
pub struct ExCache<K, V, S>(Cache<K, V, S>);

/// A type that is kept in a cache by strings. Its clone has the same view.
pub trait CacheValue: View + Clone + Send + Sync + 'static {
    /// What was put into a cache and not discarded since, whether or not the
    /// cache has dropped it by itself: the name that belongs to this kind of
    /// cache.
    spec fn kept(cache: Cache<String, Self>) -> Map<Seq<char>, <Self as View>::V>;

    /// How long an entry lives in a cache, in nanoseconds.
    spec fn lifetime(cache: Cache<String, Self>) -> nat;

    /// How many entries a cache holds at most.
    spec fn room(cache: Cache<String, Self>) -> nat;
}

/// What was put into a cache of credentials and not discarded since.
pub uninterp spec fn auth_entries(cache: Cache<String, CachedAuth>) -> Map<
    Seq<char>,
    CachedAuthView,
>;

/// The time to live that a cache of credentials was made with, in nanoseconds.
pub uninterp spec fn auth_lifetime(cache: Cache<String, CachedAuth>) -> nat;

/// The number of entries that a cache of credentials was made for.
pub uninterp spec fn auth_room(cache: Cache<String, CachedAuth>) -> nat;

impl CacheValue for CachedAuth {
    open spec fn kept(cache: Cache<String, CachedAuth>) -> Map<Seq<char>, CachedAuthView> {
        auth_entries(cache)
    }

    open spec fn lifetime(cache: Cache<String, CachedAuth>) -> nat {
        auth_lifetime(cache)
    }

    open spec fn room(cache: Cache<String, CachedAuth>) -> nat {
        auth_room(cache)
    }
}

/// What was put into a cache of counts and not discarded since.
pub uninterp spec fn count_entries(cache: Cache<String, u32>) -> Map<Seq<char>, u32>;

/// The time to live that a cache of counts was made with, in nanoseconds.
pub uninterp spec fn count_lifetime(cache: Cache<String, u32>) -> nat;

/// The number of entries that a cache of counts was made for.
pub uninterp spec fn count_room(cache: Cache<String, u32>) -> nat;

impl CacheValue for u32 {
    open spec fn kept(cache: Cache<String, u32>) -> Map<Seq<char>, u32> {
        count_entries(cache)
    }

    open spec fn lifetime(cache: Cache<String, u32>) -> nat {
        count_lifetime(cache)
    }

    open spec fn room(cache: Cache<String, u32>) -> nat {
        count_room(cache)
    }
}

/// The longest time to live that a cache takes, in seconds: a thousand years.
pub const MAX_TTL_SECS: u64 = 31_536_000_000;

/// How many entries a cache holds at most.
pub const MAX_ENTRIES: u64 = 10_000;

/// `Cache::builder`: an empty cache of at most `room` entries that live `secs`
/// seconds and `nanos` nanoseconds. The builder panics on more than a thousand
/// years.
#[verifier::external_body]
fn new_auth_entries(secs: u64, nanos: u32, room: u64) -> (cache: Cache<String, CachedAuth>)
    requires
        nanos < 1_000_000_000,
        secs < MAX_TTL_SECS || (secs == MAX_TTL_SECS && nanos == 0),
    ensures
        auth_entries(cache) == (Map::<Seq<char>, CachedAuthView>::empty()),
        auth_lifetime(cache) == secs * 1_000_000_000 + nanos,
        auth_room(cache) == room,
{
    Cache::builder()
        .time_to_live(std::time::Duration::new(secs, nanos))
        .max_capacity(room)
        .build()
}

/// `Cache::builder`: an empty cache of at most `room` counts that live `secs`
/// seconds and `nanos` nanoseconds. The builder panics on more than a thousand
/// years.
#[verifier::external_body]
fn new_count_entries(secs: u64, nanos: u32, room: u64) -> (cache: Cache<String, u32>)
    requires
        nanos < 1_000_000_000,
        secs < MAX_TTL_SECS || (secs == MAX_TTL_SECS && nanos == 0),
    ensures
        count_entries(cache) == (Map::<Seq<char>, u32>::empty()),
        count_lifetime(cache) == secs * 1_000_000_000 + nanos,
        count_room(cache) == room,
{
    Cache::builder()
        .time_to_live(std::time::Duration::new(secs, nanos))
        .max_capacity(room)
        .build()
}

/// `Cache::get`: a clone of the value that was put in last, if it was not
/// discarded since. A cache may drop an entry by itself, when its time is over
/// or room is needed; so nothing is said of when there is no value.
#[verifier::external_body]
fn cache_get<T: CacheValue>(cache: &Cache<String, T>, key: &str) -> (found: Option<T>)
    ensures
        found matches Some(value) ==> T::kept(*cache).contains_key(key@) && value@ == T::kept(
            *cache,
        )[key@],
{
    cache.get(key)
}

/// `Cache::insert`: puts in a value, in place of the one under the same key. The
/// limits of the cache stay as they are.
#[verifier::external_body]
fn cache_insert<T: CacheValue>(cache: &mut Cache<String, T>, key: String, value: T)
    ensures
        T::kept(*final(cache)) == T::kept(*old(cache)).insert(key@, value@),
        T::lifetime(*final(cache)) == T::lifetime(*old(cache)),
        T::room(*final(cache)) == T::room(*old(cache)),
{
    cache.insert(key, value);
}

/// `Cache::invalidate`: discards the value under a key. The limits of the cache
/// stay as they are.
#[verifier::external_body]
fn cache_invalidate<T: CacheValue>(cache: &mut Cache<String, T>, key: &str)
    ensures
        T::kept(*final(cache)) == T::kept(*old(cache)).remove(key@),
        T::lifetime(*final(cache)) == T::lifetime(*old(cache)),
        T::room(*final(cache)) == T::room(*old(cache)),
{
    cache.invalidate(key);
}

/// The MD5 of a sequence of bytes.
pub uninterp spec fn md5_of(input: Seq<u8>) -> Seq<u8>;

/// `Md5::new`, `update` and `finalize`: the MD5 of the input, sixteen bytes.
#[verifier::external_body]
fn md5_digest(input: &[u8]) -> (digest: Vec<u8>)
    ensures
        digest@ == md5_of(input@),
        digest@.len() == 16,
{
    let mut hasher = Md5::new();
    hasher.update(input);
    hasher.finalize().to_vec()
}

/// A hexadecimal digit in lower case.
pub open spec fn hex_digit(n: int) -> char {
    if n < 10 {
        (n + 48) as u8 as char
    } else {
        (n + 87) as u8 as char
    }
}

/// Bytes in hexadecimal notation, two digits each.
pub open spec fn hex(bytes: Seq<u8>) -> Seq<char>
    decreases bytes.len(),
{
    if bytes.len() == 0 {
        Seq::empty()
    } else {
        hex(bytes.drop_last()).push(hex_digit(bytes.last() as int / 16)).push(
            hex_digit(bytes.last() as int % 16),
        )
    }
}

fn digit_of(n: u8) -> (c: char)
    requires
        n < 16,
    ensures
        c == hex_digit(n as int),
{
    if n < 10 {
        (n + 48) as char
    } else {
        (n + 87) as char
    }
}

/// Bytes in hexadecimal notation.
pub fn hex_of(bytes: &Vec<u8>) -> (out: Vec<char>)
    ensures
        out@ == hex(bytes@),
{
    let mut out: Vec<char> = Vec::new();
    for i in 0..bytes.len()
        invariant
            out@ == hex(bytes@.take(i as int)),
    {
        assert(bytes@.take(i + 1).drop_last() =~= bytes@.take(i as int));
        let b: u8 = bytes[i];
        out.push(digit_of(b / 16));
        out.push(digit_of(b % 16));
    }
    assert(bytes@.take(bytes@.len() as int) =~= bytes@);
    out
}

/// The MD5 of a text in hexadecimal notation.
pub open spec fn md5_text(input: Seq<char>) -> Seq<char> {
    hex(md5_of(utf8::encode_utf8(input)))
}

/// The MD5 of a text in hexadecimal notation.
pub fn md5_hex(input: &str) -> (out: String)
    ensures
        out@ == md5_text(input@),
{
    from_chars(&hex_of(&md5_digest(input.as_bytes())))
}

/// The response that a digest authorization must carry.
pub open spec fn expected_response(ha1: Seq<char>, params: types::DigestView) -> Seq<char> {
    let ha2 = md5_text(params.method + ":"@ + params.uri);
    match (params.qop, params.nc, params.cnonce) {
        (Some(qop), Some(nc), Some(cnonce)) if qop == "auth"@ => md5_text(
            ha1 + ":"@ + params.nonce + ":"@ + nc + ":"@ + cnonce + ":"@ + qop + ":"@ + ha2,
        ),
        _ => md5_text(ha1 + ":"@ + params.nonce + ":"@ + ha2),
    }
}

/// Whether a digest authorization matches a credential hash. The case of the
/// response's letters does not matter.
pub open spec fn digest_matches(ha1: Seq<char>, params: types::DigestView) -> bool {
    text::lower(params.response) == text::lower(expected_response(ha1, params))
}

/// Verifies a digest authorization against a credential hash.
pub fn verify_digest_with_ha1(ha1: &str, params: &DigestAuthParams) -> (r: bool)
    ensures
        r == digest_matches(ha1@, params@),
{
    let mut a2 = to_chars(params.method.as_str());
    push_str(&mut a2, ":");
    push_str(&mut a2, params.uri.as_str());
    let ha2 = md5_hex(from_chars(&a2).as_str());
    let mut data = to_chars(ha1);
    push_str(&mut data, ":");
    push_str(&mut data, params.nonce.as_str());
    push_str(&mut data, ":");
    if let (Some(qop), Some(nc), Some(cnonce)) = (&params.qop, &params.nc, &params.cnonce) {
        if same(&to_chars(qop.as_str()), &to_chars("auth")) {
            push_str(&mut data, nc.as_str());
            push_str(&mut data, ":");
            push_str(&mut data, cnonce.as_str());
            push_str(&mut data, ":");
            push_str(&mut data, qop.as_str());
            push_str(&mut data, ":");
        }
    }
    push_str(&mut data, ha2.as_str());
    let expected = md5_hex(from_chars(&data).as_str());
    assert(expected@ == expected_response(ha1@, params@));
    same(&to_lower(&to_chars(params.response.as_str())), &to_lower(&to_chars(expected.as_str())))
}

/// The credential cache.
pub struct AuthCache {
    cache: Cache<String, CachedAuth>,
    /// Authentication failures in a row; they are forgotten after the cooldown.
    failures: Cache<String, u32>,
    /// How many failures put a user in the cooldown.
    max_failures: u32,
}

/// The credential cache in the model: what was put in and not discarded, and its
/// limits.
pub ghost struct AuthCacheView {
    pub credentials: Map<Seq<char>, CachedAuthView>,
    pub failures: Map<Seq<char>, u32>,
    pub max_failures: u32,
    /// How long credentials live, in nanoseconds.
    pub ttl: nat,
    /// How long a failure count lives, in nanoseconds.
    pub cooldown_period: nat,
    /// How many credentials the cache holds at most.
    pub credential_room: nat,
    /// How many failure counts the cache holds at most.
    pub failure_room: nat,
}

impl View for AuthCache {
    type V = AuthCacheView;

    closed spec fn view(&self) -> AuthCacheView {
        AuthCacheView {
            credentials: auth_entries(self.cache),
            failures: count_entries(self.failures),
            max_failures: self.max_failures,
            ttl: auth_lifetime(self.cache),
            cooldown_period: count_lifetime(self.failures),
            credential_room: auth_room(self.cache),
            failure_room: count_room(self.failures),
        }
    }
}

/// The number of failures after one more.
pub open spec fn counted(previous: Option<u32>) -> int {
    match previous {
        Some(n) => n + 1,
        None => 1,
    }
}

/// Whether a failure count puts a user in the cooldown.
pub open spec fn cooldown(count: Option<u32>, max_failures: u32) -> bool {
    match count {
        Some(n) => n >= max_failures,
        None => 0 >= max_failures,
    }
}

impl AuthCacheView {
    /// The failures in a row of a user that were counted and not cleared.
    pub open spec fn failures_of(self, username: Seq<char>) -> Option<u32> {
        if self.failures.contains_key(username) {
            Some(self.failures[username])
        } else {
            None
        }
    }

    /// The credentials of a user that were put in and not discarded.
    pub open spec fn entry_of(self, username: Seq<char>) -> Option<CachedAuthView> {
        if self.credentials.contains_key(username) {
            Some(self.credentials[username])
        } else {
            None
        }
    }

    /// The cache with a failure count of a user.
    pub open spec fn with_failures(self, username: Seq<char>, count: u32) -> AuthCacheView {
        AuthCacheView { failures: self.failures.insert(username, count), ..self }
    }

    /// The cache with the credentials of a user.
    pub open spec fn with_entry(self, username: Seq<char>, entry: CachedAuthView) -> AuthCacheView {
        AuthCacheView { credentials: self.credentials.insert(username, entry), ..self }
    }

    /// The cache after a number of failures in a row of a user, if it holds the
    /// count each time.
    pub open spec fn after_failures(self, username: Seq<char>, times: nat) -> AuthCacheView
        decreases times,
    {
        if times == 0 {
            self
        } else {
            let before = self.after_failures(username, (times - 1) as nat);
            before.with_failures(username, counted(before.failures_of(username)) as u32)
        }
    }

    /// Whether `r` can be what the cache says of the cooldown of a user. The
    /// cache may have forgotten the failures.
    pub open spec fn possible_cooldown(self, username: Seq<char>, r: bool) -> bool {
        r == cooldown(None, self.max_failures) || (self.failures.contains_key(username) && r
            == cooldown(Some(self.failures[username]), self.max_failures))
    }

    /// Whether `r` can be what the cache says of a digest. The cache may have
    /// dropped the entry of the user.
    pub open spec fn possible_result(self, params: types::DigestView, r: VerifyResult) -> bool {
        r is Miss || (self.credentials.contains_key(params.username) && r == judged(
            Some(self.credentials[params.username]),
            params,
        ))
    }
}

/// What the cache held for a user, in the model.
pub open spec fn entry_view(cached: Option<CachedAuth>) -> Option<CachedAuthView> {
    match cached {
        Some(c) => Some(c@),
        None => None,
    }
}

/// What a digest is worth against what the cache held for its user.
pub open spec fn judged(cached: Option<CachedAuthView>, params: types::DigestView) -> VerifyResult {
    match cached {
        Some(c) => if digest_matches(c.ha1, params) {
            VerifyResult::Verified
        } else {
            VerifyResult::Mismatch
        },
        None => VerifyResult::Miss,
    }
}

/// The failure count after one more failure, where it fits in 32 bits.
pub fn next_failure_count(previous: Option<u32>) -> (count: Option<u32>)
    ensures
        count == (if counted(previous) <= u32::MAX {
            Some(counted(previous) as u32)
        } else {
            None
        }),
{
    match previous {
        Some(n) => n.checked_add(1),
        None => Some(1),
    }
}

/// Whether a failure count puts a user in the cooldown.
pub fn count_is_in_cooldown(count: Option<u32>, max_failures: u32) -> (r: bool)
    ensures
        r == cooldown(count, max_failures),
{
    match count {
        Some(n) => n >= max_failures,
        None => 0 >= max_failures,
    }
}

/// Judges a digest against the entry that the cache held for its user.
pub fn judge(cached: &Option<CachedAuth>, digest: &DigestAuthParams) -> (r: VerifyResult)
    ensures
        r == judged(entry_view(*cached), digest@),
{
    match cached {
        Some(c) => if verify_digest_with_ha1(c.ha1.as_str(), digest) {
            VerifyResult::Verified
        } else {
            VerifyResult::Mismatch
        },
        None => VerifyResult::Miss,
    }
}

impl AuthCache {
    /// A cache whose entries live for `ttl`, with a cooldown after
    /// `max_failures` failures. A failure count lives for `failure_cooldown`.
    pub fn new(ttl: Duration, failure_cooldown: Duration, max_failures: u32) -> (cache: AuthCache)
        requires
            ttl.nanos <= MAX_TTL_SECS * NANOS_PER_SEC,
            failure_cooldown.nanos <= MAX_TTL_SECS * NANOS_PER_SEC,
        ensures
            cache@ == (AuthCacheView {
                credentials: Map::empty(),
                failures: Map::empty(),
                max_failures,
                ttl: ttl.nanos as nat,
                cooldown_period: failure_cooldown.nanos as nat,
                credential_room: MAX_ENTRIES as nat,
                failure_room: MAX_ENTRIES as nat,
            }),
    {
        AuthCache {
            cache: new_auth_entries(
                (ttl.nanos / NANOS_PER_SEC) as u64,
                (ttl.nanos % NANOS_PER_SEC) as u32,
                MAX_ENTRIES,
            ),
            failures: new_count_entries(
                (failure_cooldown.nanos / NANOS_PER_SEC) as u64,
                (failure_cooldown.nanos % NANOS_PER_SEC) as u32,
                MAX_ENTRIES,
            ),
            max_failures,
        }
    }

    /// Counts a failed attempt and returns the count. A count that the cache
    /// has dropped begins anew.
    pub fn record_failure(&mut self, username: &str) -> (count: u32)
        requires
            old(self)@.failures.contains_key(username@) ==> old(self)@.failures[username@]
                < u32::MAX,
        ensures
            count == 1 || (old(self)@.failures.contains_key(username@) && count == counted(
                Some(old(self)@.failures[username@]),
            )),
            final(self)@ == old(self)@.with_failures(username@, count),
    {
        let previous = cache_get(&self.failures, username);
        self.count_failure(username, previous).unwrap()
    }

    /// Counts a failed attempt after the earlier ones that the cache held, and
    /// returns the count. A count that is already the largest stays as it is,
    /// and there is no result.
    pub fn count_failure(&mut self, username: &str, previous: Option<u32>) -> (count: Option<u32>)
        ensures
            count == (if counted(previous) <= u32::MAX {
                Some(counted(previous) as u32)
            } else {
                None
            }),
            final(self)@ == (match count {
                Some(n) => old(self)@.with_failures(username@, n),
                None => old(self)@,
            }),
    {
        let count = next_failure_count(previous);
        if let Some(n) = count {
            cache_insert(&mut self.failures, username.to_owned(), n);
        }
        count
    }

    /// As `record_failure`, for any count: one that is already the largest
    /// stays as it is, and there is no result.
    pub fn try_record_failure(&mut self, username: &str) -> (count: Option<u32>)
        ensures
            match count {
                Some(n) => (n == 1 || (old(self)@.failures.contains_key(username@) && n == counted(
                    Some(old(self)@.failures[username@]),
                ))) && final(self)@ == old(self)@.with_failures(username@, n),
                None => old(self)@.failures.contains_key(username@) && old(
                    self,
                )@.failures[username@] == u32::MAX && final(self)@ == old(self)@,
            },
    {
        let previous = cache_get(&self.failures, username);
        self.count_failure(username, previous)
    }

    /// Forgets the failures of a user, after a successful authentication.
    pub fn clear_failures(&mut self, username: &str)
        ensures
            final(self)@ == (AuthCacheView {
                failures: old(self)@.failures.remove(username@),
                ..old(self)@
            }),
    {
        cache_invalidate(&mut self.failures, username);
    }

    /// Whether a user is in the cooldown. The failures may be forgotten at any
    /// time; but who is in the cooldown has failed often enough.
    pub fn is_in_cooldown(&self, username: &str) -> (r: bool)
        ensures
            self@.possible_cooldown(username@, r),
    {
        count_is_in_cooldown(cache_get(&self.failures, username), self.max_failures)
    }

    /// Verifies a digest against the cache and returns the entry that it
    /// matches. An entry that it does not match is discarded, since the
    /// password may have changed. Whether the cache still holds an entry is up
    /// to the time and the room that it has; `verify_entry` takes what it held.
    pub fn verify(&mut self, digest: &DigestAuthParams) -> (r: Option<CachedAuth>)
        ensures
            r matches Some(entry) ==> {
                &&& old(self)@.credentials.contains_key(digest@.username)
                &&& entry@ == old(self)@.credentials[digest@.username]
                &&& digest_matches(entry@.ha1, digest@)
                &&& final(self)@ == old(self)@
            },
            r is None ==> final(self)@ == old(self)@ || (final(self)@ == old(self)@.discarded(
                digest@.username,
            ) && old(self)@.credentials.contains_key(digest@.username) && !digest_matches(
                old(self)@.credentials[digest@.username].ha1,
                digest@,
            )),
    {
        let cached = cache_get(&self.cache, digest.username.as_str());
        self.verify_entry(cached, digest)
    }

    /// Verifies a digest against the entry that the cache held for its user,
    /// and returns the entry if they match. If they do not, the entry is
    /// discarded.
    pub fn verify_entry(&mut self, cached: Option<CachedAuth>, digest: &DigestAuthParams) -> (r:
        Option<CachedAuth>)
        ensures
            r == (if judged(entry_view(cached), digest@) is Verified {
                cached
            } else {
                None
            }),
            final(self)@ == (if judged(entry_view(cached), digest@) is Mismatch {
                old(self)@.discarded(digest@.username)
            } else {
                old(self)@
            }),
    {
        match judge(&cached, digest) {
            VerifyResult::Verified => cached,
            VerifyResult::Mismatch => {
                cache_invalidate(&mut self.cache, digest.username.as_str());
                None
            },
            VerifyResult::Miss => None,
        }
    }

    /// Checks a digest against the cache, telling a miss from a mismatch. An
    /// entry that it does not match is discarded. Whether the cache still
    /// holds an entry is up to the time and the room that it has; `check_entry`
    /// takes what it held.
    pub fn check(&mut self, digest: &DigestAuthParams) -> (r: VerifyResult)
        ensures
            old(self)@.possible_result(digest@, r),
            final(self)@ == (if r is Mismatch {
                old(self)@.discarded(digest@.username)
            } else {
                old(self)@
            }),
    {
        let cached = cache_get(&self.cache, digest.username.as_str());
        self.check_entry(&cached, digest)
    }

    /// Checks a digest against the entry that the cache held for its user. An
    /// entry that it does not match is discarded.
    pub fn check_entry(&mut self, cached: &Option<CachedAuth>, digest: &DigestAuthParams) -> (r:
        VerifyResult)
        ensures
            r == judged(entry_view(*cached), digest@),
            final(self)@ == (if r is Mismatch {
                old(self)@.discarded(digest@.username)
            } else {
                old(self)@
            }),
    {
        let result = judge(cached, digest);
        if let VerifyResult::Mismatch = result {
            cache_invalidate(&mut self.cache, digest.username.as_str());
        }
        result
    }

    /// What the cache still holds for a user: the failures in a row and the
    /// credentials. It may have dropped either.
    pub fn held(&self, username: &str) -> (held: (Option<u32>, Option<CachedAuth>))
        ensures
            held.0 is Some ==> held.0 == self@.failures_of(username@),
            held.1 is Some ==> entry_view(held.1) == self@.entry_of(username@),
    {
        (cache_get(&self.failures, username), cache_get(&self.cache, username))
    }

    /// Judges a digest by the failures in a row and the entry that the cache
    /// held for its user: nothing comes of it in the cooldown. An entry that it
    /// does not match is discarded.
    pub fn consult_entry(
        &mut self,
        failures: Option<u32>,
        cached: &Option<CachedAuth>,
        digest: &DigestAuthParams,
    ) -> (r: Option<VerifyResult>)
        ensures
            r == (if cooldown(failures, old(self)@.max_failures) {
                None
            } else {
                Some(judged(entry_view(*cached), digest@))
            }),
            final(self)@ == (if r == Some(VerifyResult::Mismatch) {
                old(self)@.discarded(digest@.username)
            } else {
                old(self)@
            }),
    {
        if count_is_in_cooldown(failures, self.max_failures) {
            None
        } else {
            Some(self.check_entry(cached, digest))
        }
    }

    /// Keeps the credentials of a user that was authenticated.
    pub fn insert(&mut self, username: &str, ha1: &str, register_data: RegisterData)
        ensures
            final(self)@ == old(self)@.with_entry(
                username@,
                (CachedAuthView { ha1: ha1@, register_data: register_data@ }),
            ),
    {
        cache_insert(
            &mut self.cache,
            username.to_owned(),
            CachedAuth { ha1: ha1.to_owned(), register_data },
        );
    }
}

impl AuthCacheView {
    /// The cache without the credentials of a user.
    pub open spec fn discarded(self, username: Seq<char>) -> AuthCacheView {
        AuthCacheView { credentials: self.credentials.remove(username), ..self }
    }
}

// Laws

/// The right response is accepted, in any case of its letters, and no other.
pub proof fn law_only_right_response_is_accepted(
    cached: CachedAuthView,
    params: types::DigestView,
)
    ensures
        judged(Some(cached), params) is Verified <==> text::lower(params.response) == text::lower(
            expected_response(cached.ha1, params),
        ),
{
}

/// Failures in a row add up: as long as the cache holds their count, a user who
/// failed `times` times more is in the cooldown if and only if there are as many
/// failures as the limit allows.
pub proof fn law_failures_in_a_row_cool_down(
    cache: AuthCacheView,
    username: Seq<char>,
    times: nat,
)
    requires
        counted(cache.failures_of(username)) - 1 + times <= u32::MAX,
    ensures
        ({
            let after = cache.after_failures(username, times);
            let total = counted(cache.failures_of(username)) - 1 + times;
            &&& counted(after.failures_of(username)) - 1 == total
            &&& cooldown(after.failures_of(username), after.max_failures) <==> total
                >= cache.max_failures
            &&& after.max_failures == cache.max_failures
            &&& after.credentials == cache.credentials
        }),
    decreases times,
{
    if times > 0 {
        law_failures_in_a_row_cool_down(cache, username, (times - 1) as nat);
    }
}

/// What was put in decides: afterwards every digest of the user is a miss or is
/// judged by these credentials, and other users are not affected.
pub proof fn law_stored_credentials_decide(
    cache: AuthCacheView,
    username: Seq<char>,
    entry: CachedAuthView,
    params: types::DigestView,
    r: VerifyResult,
)
    ensures
        params.username == username ==> (cache.with_entry(username, entry).possible_result(
            params,
            r,
        ) <==> r is Miss || r == judged(Some(entry), params)),
        params.username != username ==> cache.with_entry(username, entry).possible_result(params, r)
            == cache.possible_result(params, r),
{
}

/// Failures that were cleared put no user in the cooldown: afterwards the cache
/// says that the user is outside, if any failure is allowed at all.
pub proof fn law_cleared_failures_end_cooldown(cache: AuthCacheView, username: Seq<char>, r: bool)
    requires
        cache.max_failures > 0,
        (AuthCacheView { failures: cache.failures.remove(username), ..cache }).possible_cooldown(
            username,
            r,
        ),
    ensures
        !r,
{
}

/// A discarded entry cannot verify anything: after a mismatch every digest of
/// the user is a miss, and other users are not affected.
pub proof fn law_mismatch_evicts(
    cache: AuthCacheView,
    username: Seq<char>,
    params: types::DigestView,
    r: VerifyResult,
)
    ensures
        params.username == username && cache.discarded(username).possible_result(params, r) ==> r
            is Miss,
        params.username != username ==> cache.discarded(username).possible_result(params, r)
            == cache.possible_result(params, r),
{
}

} // verus!
