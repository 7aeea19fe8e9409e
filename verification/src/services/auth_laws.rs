//! When credentials that are held are right.
//!
//! The laws speak of what the operations are given and of what they give.

use crate::services::auth_cache;
use crate::services::auth_cache::{
    count_is_in_cooldown, hex_of, judge, md5_hex, next_failure_count, verify_digest_with_ha1,
    AuthCache, CachedAuth, RegisterData, VerifyResult,
};
use crate::text;
use crate::time::Duration;
use crate::transport::sip::types::DigestAuthParams;
use vstd::prelude::*;
use vstd::utf8;

verus! {

/// The sixteen digits.
pub open spec fn digits() -> Seq<char> {
    seq!['0', '1', '2', '3', '4', '5', '6', '7', '8', '9', 'a', 'b', 'c', 'd', 'e', 'f']
}

proof fn lemma_hex(bytes: Seq<u8>)
    ensures
        auth_cache::hex(bytes).len() == 2 * bytes.len(),
        forall|i: int|
            #![trigger bytes[i]]
            0 <= i < bytes.len() ==> auth_cache::hex(bytes)[2 * i] == digits()[bytes[i] as int / 16]
                && auth_cache::hex(bytes)[2 * i + 1] == digits()[bytes[i] as int % 16],
    decreases bytes.len(),
{
    if bytes.len() > 0 {
        let rest = bytes.drop_last();
        lemma_hex(rest);
        assert forall|i: int|
            #![trigger bytes[i]]
            0 <= i < bytes.len() implies auth_cache::hex(bytes)[2 * i]
            == digits()[bytes[i] as int / 16] && auth_cache::hex(bytes)[2 * i + 1]
            == digits()[bytes[i] as int % 16] by {
            if i < rest.len() {
                assert(rest[i] == bytes[i]);
            } else {
                let high = bytes[i] as int / 16;
                let low = bytes[i] as int % 16;
                assert(0 <= high < 16 && 0 <= low < 16);
                assert(auth_cache::hex_digit(high) == digits()[high]);
                assert(auth_cache::hex_digit(low) == digits()[low]);
            }
        }
    }
}

/// Bytes are written in hexadecimal: two lower-case digits for each byte, in their
/// order, the higher one first.
pub proof fn law_bytes_are_written_in_hexadecimal(bytes: &Vec<u8>, out: Vec<char>)
    requires
        call_ensures(hex_of, (bytes,), out),
    ensures
        out@.len() == 2 * bytes@.len(),
        forall|i: int|
            #![trigger bytes@[i]]
            0 <= i < bytes@.len() ==> out@[2 * i] == digits()[bytes@[i] as int / 16] && out@[2 * i
                + 1] == digits()[bytes@[i] as int % 16],
{
    lemma_hex(bytes@);
}

/// Whether one text is the digest of another: that of its UTF-8 bytes, written in
/// hexadecimal.
pub open spec fn is_digest_of(digest: Seq<char>, input: Seq<char>) -> bool {
    let bytes = auth_cache::md5_of(utf8::encode_utf8(input));
    &&& digest.len() == 2 * bytes.len()
    &&& forall|i: int|
        #![trigger bytes[i]]
        0 <= i < bytes.len() ==> digest[2 * i] == digits()[bytes[i] as int / 16] && digest[2 * i
            + 1] == digits()[bytes[i] as int % 16]
}

proof fn lemma_digest(digest: Seq<char>, input: Seq<char>)
    ensures
        is_digest_of(auth_cache::md5_text(input), input),
        is_digest_of(digest, input) ==> digest == auth_cache::md5_text(input),
{
    let bytes = auth_cache::md5_of(utf8::encode_utf8(input));
    lemma_hex(bytes);
    if is_digest_of(digest, input) {
        let made = auth_cache::md5_text(input);
        assert forall|k: int| 0 <= k < digest.len() implies digest[k] == made[k] by {
            let i = k / 2;
            assert(0 <= i < bytes.len());
            assert(digest[2 * i] == digits()[bytes[i] as int / 16]);
            assert(digest[2 * i + 1] == digits()[bytes[i] as int % 16]);
            assert(made[2 * i] == digits()[bytes[i] as int / 16]);
            assert(made[2 * i + 1] == digits()[bytes[i] as int % 16]);
            assert(k == 2 * i || k == 2 * i + 1);
        }
        assert(digest =~= made);
    }
}

/// A text is hashed by its UTF-8 bytes.
pub proof fn law_text_is_hashed_by_its_bytes(input: &str, out: String)
    requires
        call_ensures(md5_hex, (input,), out),
    ensures
        is_digest_of(out@, input@),
{
    lemma_digest(out@, input@);
}

/// A response is right if it is, in either case of letters, the digest of the hash
/// of the user, the nonce and the hash of method and URI; between them stand the
/// count, the nonce of the phone and the word `auth` where the phone gave all three.
pub proof fn law_right_response(
    ha1: &str,
    params: &DigestAuthParams,
    r: bool,
    ha2: Seq<char>,
    response: Seq<char>,
)
    requires
        call_ensures(verify_digest_with_ha1, (ha1, params), r),
        is_digest_of(ha2, params@.method + ":"@ + params@.uri),
        is_digest_of(
            response,
            (if params@.qop == Some("auth"@) && params@.nc is Some && params@.cnonce is Some {
                ha1@ + ":"@ + params@.nonce + ":"@ + params@.nc->0 + ":"@ + params@.cnonce->0
                    + ":"@ + "auth"@ + ":"@ + ha2
            } else {
                ha1@ + ":"@ + params@.nonce + ":"@ + ha2
            }),
        ),
    ensures
        r <==> text::lower(params@.response) == text::lower(response),
{
    lemma_digest(ha2, params@.method + ":"@ + params@.uri);
    if params@.qop == Some("auth"@) && params@.nc is Some && params@.cnonce is Some {
        lemma_digest(
            response,
            ha1@ + ":"@ + params@.nonce + ":"@ + params@.nc->0 + ":"@ + params@.cnonce->0 + ":"@
                + "auth"@ + ":"@ + ha2,
        );
    } else {
        lemma_digest(response, ha1@ + ":"@ + params@.nonce + ":"@ + ha2);
    }
}

/// Credentials are judged by what the cache holds of their user: right, wrong, or
/// not known.
pub proof fn law_credentials_are_judged(
    cached: &Option<CachedAuth>,
    digest: &DigestAuthParams,
    r: VerifyResult,
    ha1: &str,
    right: bool,
)
    requires
        call_ensures(judge, (cached, digest), r),
        cached matches Some(c) ==> ha1@ == c.ha1@,
        call_ensures(verify_digest_with_ha1, (ha1, digest), right),
    ensures
        r is Miss <==> cached is None,
        r is Verified <==> cached is Some && right,
        r is Mismatch <==> cached is Some && !right,
{
}

/// Failures are counted one by one, up to the largest count; a user with as many
/// failures as are allowed is in the cooldown.
pub proof fn law_failures_are_counted(
    previous: Option<u32>,
    next: Option<u32>,
    max: u32,
    cools: bool,
)
    requires
        call_ensures(next_failure_count, (previous,), next),
        call_ensures(count_is_in_cooldown, (previous, max), cools),
    ensures
        previous is None ==> next == Some(1u32),
        previous matches Some(n) ==> (n < u32::MAX ==> next == Some((n + 1) as u32)) && (n
            == u32::MAX ==> next is None),
        cools <==> (if previous is Some {
            previous->0
        } else {
            0
        }) >= max,
{
}

/// Whether the cache is the same for another user.
pub open spec fn same_user(
    before: auth_cache::AuthCacheView,
    after: auth_cache::AuthCacheView,
    user: Seq<char>,
) -> bool {
    &&& after.credentials.contains_key(user) <==> before.credentials.contains_key(user)
    &&& after.credentials[user] == before.credentials[user]
    &&& after.failures.contains_key(user) <==> before.failures.contains_key(user)
    &&& after.failures[user] == before.failures[user]
    &&& after.max_failures == before.max_failures
}

/// What was stored for a user is the hash and the registration data that were
/// given, under that name; other users are not touched, nor are failures.
pub proof fn law_credentials_are_stored_under_their_user(
    cache: &mut AuthCache,
    user: &str,
    ha1: &str,
    data: RegisterData,
    other: Seq<char>,
)
    requires
        call_ensures(AuthCache::insert, (cache, user, ha1, data), ()),
    ensures
        final(cache)@.credentials.contains_key(user@),
        final(cache)@.credentials[user@].ha1 == ha1@,
        final(cache)@.credentials[user@].register_data.sip_username == data.sip_username@,
        final(cache)@.credentials[user@].register_data.discord_user_id == data.discord_user_id@,
        final(cache)@.credentials[user@].register_data.ha1 is Some <==> data.ha1 is Some,
        data.ha1 is Some ==> final(cache)@.credentials[user@].register_data.ha1->0 == data.ha1->0@,
        final(cache)@.failures == old(cache)@.failures,
        other != user@ ==> same_user(old(cache)@, final(cache)@, other),
{
}

/// A failure is counted for its user alone, and the credentials stay; clearing
/// forgets the failures of that user alone.
pub proof fn law_failures_are_kept_under_their_user(
    cache: &mut AuthCache,
    user: &str,
    previous: Option<u32>,
    count: Option<u32>,
    later: &mut AuthCache,
    other: Seq<char>,
)
    requires
        call_ensures(AuthCache::count_failure, (cache, user, previous), count),
        call_ensures(AuthCache::clear_failures, (later, user), ()),
    ensures
        count matches Some(n) ==> final(cache)@.failures.contains_key(user@)
            && final(cache)@.failures[user@] == n && n == (if previous is Some {
            previous->0 + 1
        } else {
            1
        }),
        count is None ==> final(cache)@ == old(cache)@ && previous == Some(u32::MAX),
        final(cache)@.credentials == old(cache)@.credentials,
        other != user@ ==> same_user(old(cache)@, final(cache)@, other),
        !final(later)@.failures.contains_key(user@),
        final(later)@.credentials == old(later)@.credentials,
        other != user@ ==> same_user(old(later)@, final(later)@, other),
{
}

/// Wrong credentials cost their user the entry in the cache, and nobody else
/// theirs; right ones, and those of an unknown user, change nothing.
pub proof fn law_wrong_credentials_cost_the_entry(
    cache: &mut AuthCache,
    cached: Option<CachedAuth>,
    digest: &DigestAuthParams,
    found: Option<CachedAuth>,
    ha1: &str,
    right: bool,
    other: Seq<char>,
)
    requires
        call_ensures(AuthCache::verify_entry, (cache, cached, digest), found),
        cached matches Some(c) ==> ha1@ == c.ha1@,
        call_ensures(verify_digest_with_ha1, (ha1, digest), right),
    ensures
        cached is Some && right ==> found == cached,
        !(cached is Some && right) ==> found is None,
        cached is Some && !right ==> !final(cache)@.credentials.contains_key(digest@.username),
        !(cached is Some && !right) ==> final(cache)@ == old(cache)@,
        final(cache)@.failures == old(cache)@.failures,
        other != digest@.username ==> same_user(old(cache)@, final(cache)@, other),
{
}

/// A user in the cooldown is told nothing, right or wrong, and nothing changes.
pub proof fn law_cooldown_comes_first(
    cache: &mut AuthCache,
    failures: Option<u32>,
    cached: &Option<CachedAuth>,
    digest: &DigestAuthParams,
    r: Option<VerifyResult>,
    judged: VerifyResult,
    other: Seq<char>,
)
    requires
        call_ensures(AuthCache::consult_entry, (cache, failures, cached, digest), r),
        call_ensures(judge, (cached, digest), judged),
    ensures
        ({
            let count = if failures is Some {
                failures->0
            } else {
                0
            };
            &&& count >= old(cache)@.max_failures ==> r is None && final(cache)@ == old(cache)@
            &&& count < old(cache)@.max_failures ==> r == Some(judged)
            &&& r == Some(VerifyResult::Mismatch) ==> !final(cache)@.credentials.contains_key(
                digest@.username,
            )
            &&& r != Some(VerifyResult::Mismatch) ==> final(cache)@ == old(cache)@
            &&& other != digest@.username ==> same_user(old(cache)@, final(cache)@, other)
        }),
{
}

/// A new cache is empty and keeps to its limits: each lifetime is that which it was
/// made with, and there is room for ten thousand users.
pub proof fn law_new_cache_is_empty(
    ttl: Duration,
    cooldown: Duration,
    max: u32,
    cache: AuthCache,
    user: Seq<char>,
)
    requires
        call_ensures(AuthCache::new, (ttl, cooldown, max), cache),
    ensures
        !cache@.credentials.contains_key(user),
        !cache@.failures.contains_key(user),
        cache@.max_failures == max,
        cache@.ttl == ttl.nanos,
        cache@.cooldown_period == cooldown.nanos,
        cache@.credential_room == 10_000,
        cache@.failure_room == 10_000,
{
}

/// Credentials are seen as they came: each part is its own.
pub proof fn law_credentials_are_seen_as_they_came(params: &DigestAuthParams)
    ensures
        params@.username == params.username@,
        params@.realm == params.realm@,
        params@.nonce == params.nonce@,
        params@.uri == params.uri@,
        params@.response == params.response@,
        params@.method == params.method@,
        params@.qop == text::opt_text(params.qop),
        params@.nc == text::opt_text(params.nc),
        params@.cnonce == text::opt_text(params.cnonce),
{
}

/// Who is verified by the cache has shown the credentials that it holds under their
/// name, and gets what it holds; who is not, is told nothing, and loses the entry
/// where the credentials were wrong.
pub proof fn law_cache_verifies_by_what_it_holds(
    cache: &mut AuthCache,
    digest: &DigestAuthParams,
    r: Option<CachedAuth>,
    other: Seq<char>,
)
    requires
        call_ensures(AuthCache::verify, (cache, digest), r),
    ensures
        ({
            let user = digest@.username;
            let known = old(cache)@.credentials.contains_key(user);
            let right = auth_cache::digest_matches(old(cache)@.credentials[user].ha1, digest@);
            &&& r matches Some(entry) ==> known && right && entry@
                == old(cache)@.credentials[user] && final(cache)@ == old(cache)@
            &&& final(cache)@ != old(cache)@ ==> known && !right
                && !final(cache)@.credentials.contains_key(user)
            &&& final(cache)@.failures == old(cache)@.failures
            &&& other != user ==> same_user(old(cache)@, final(cache)@, other)
        }),
{
}

/// A check tells of a match or a mismatch only for a user that is held, as the
/// credentials are; a mismatch costs the entry.
pub proof fn law_check_tells_by_what_is_held(
    cache: &mut AuthCache,
    digest: &DigestAuthParams,
    r: VerifyResult,
    held: &mut AuthCache,
    cached: &Option<CachedAuth>,
    told: VerifyResult,
    judged: VerifyResult,
    other: Seq<char>,
)
    requires
        call_ensures(AuthCache::check, (cache, digest), r),
        call_ensures(AuthCache::check_entry, (held, cached, digest), told),
        call_ensures(judge, (cached, digest), judged),
    ensures
        ({
            let user = digest@.username;
            let known = old(cache)@.credentials.contains_key(user);
            let right = auth_cache::digest_matches(old(cache)@.credentials[user].ha1, digest@);
            &&& r is Verified ==> known && right
            &&& r is Mismatch ==> known && !right && !final(cache)@.credentials.contains_key(user)
            &&& !(r is Mismatch) ==> final(cache)@ == old(cache)@
            &&& other != user ==> same_user(old(cache)@, final(cache)@, other)
            &&& told == judged
            &&& told is Mismatch ==> !final(held)@.credentials.contains_key(user)
            &&& !(told is Mismatch) ==> final(held)@ == old(held)@
            &&& other != user ==> same_user(old(held)@, final(held)@, other)
        }),
{
}

/// What the cache tells of a user is what it holds of that user: a count that is
/// told is the count, and an entry that is told is the entry.
pub proof fn law_cache_tells_what_it_holds(
    cache: &AuthCache,
    user: &str,
    held: (Option<u32>, Option<CachedAuth>),
    cools: bool,
    counting: &mut AuthCache,
    count: u32,
)
    requires
        call_ensures(AuthCache::held, (cache, user), held),
        call_ensures(AuthCache::is_in_cooldown, (cache, user), cools),
        call_ensures(AuthCache::record_failure, (counting, user), count),
    ensures
        held.0 is Some ==> cache@.failures.contains_key(user@) && held.0->0
            == cache@.failures[user@],
        held.1 is Some ==> cache@.credentials.contains_key(user@) && held.1->0@
            == cache@.credentials[user@],
        cools && cache@.max_failures > 0 ==> cache@.failures.contains_key(user@)
            && cache@.failures[user@] >= cache@.max_failures,
        cache@.max_failures == 0 ==> cools,
        count == 1 || (old(counting)@.failures.contains_key(user@) && count
            == old(counting)@.failures[user@] + 1),
        final(counting)@.failures.contains_key(user@),
        final(counting)@.failures[user@] == count,
        final(counting)@.credentials == old(counting)@.credentials,
{
}

} // verus!
