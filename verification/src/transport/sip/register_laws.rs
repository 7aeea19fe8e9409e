//! What becomes of a REGISTER, from the packet to the registrar.
//!
//! The laws speak of what came in and of what is answered and handed on.

use crate::services::auth_cache;
use crate::services::auth_cache::{AuthCache, CachedAuth, VerifyResult};
use crate::services::registrar;
use crate::services::registrar::{SipTransport, SourceAddr};
use crate::text;
use crate::transport::sip::contact;
use crate::transport::sip::contact::{ContactHeader, ContactUri};
use crate::transport::sip::register_handler;
use crate::transport::sip::register_handler::{
    CacheVerdict, ParsedRegisterContact, RegisterAction, RegisterGate, RegisterInput,
    RegisterRequest, SerializedContact, SipResponse, ViaRoute, WireTransport,
};
use crate::transport::sip::types::{DigestAuthParams, PendingRegisterTsx, SipCommand};
use vstd::prelude::*;

verus! {

broadcast use vstd::string::group_string_axioms;

/// The request that an action hands to the verification task.
pub open spec fn request_of(a: RegisterAction) -> Option<RegisterRequest> {
    match a {
        RegisterAction::Queue(request) => Some(request),
        RegisterAction::Defer { request, .. } => Some(request),
        RegisterAction::Respond(_) => None,
    }
}

/// Whether a transport is the one of a packet: TLS and TCP as they came, else UDP.
pub open spec fn is_transport_of(transport: SipTransport, wire: Option<WireTransport>) -> bool {
    &&& transport is Tls <==> wire == Some(WireTransport::Tls) || wire == Some(WireTransport::Tls6)
    &&& transport is Tcp <==> wire == Some(WireTransport::Tcp) || wire == Some(WireTransport::Tcp6)
}

/// Whether two source addresses are the same.
pub open spec fn same_source(one: Option<SourceAddr>, other: Option<SourceAddr>) -> bool {
    match (one, other) {
        (Some(a), Some(b)) => a.ip@ == b.ip@ && a.port == b.port && a.is_ipv6 == b.is_ipv6,
        (None, None) => true,
        _ => false,
    }
}

/// Whether a Contact header names a phone: a SIP URI with a host, not the wildcard.
pub open spec fn names_phone(header: Option<ContactHeader>) -> bool {
    &&& header matches Some(h)
    &&& !h.star
    &&& h.uri matches Some(uri)
    &&& (text::lower(uri.scheme@) == "sip"@ || text::lower(uri.scheme@) == "sips"@)
    &&& uri.host@.len() > 0
}

/// The time that a phone asks for: the parameter of its Contact, else the Expires
/// header, else an hour.
pub open spec fn asked_expiry(header: Option<ContactHeader>, expires: Option<u32>) -> u32 {
    if header is Some && header->0.expires != u32::MAX {
        header->0.expires
    } else if expires is Some {
        expires->0
    } else {
        3600
    }
}

/// Whether a request carries what came with its REGISTER: the credentials, for the
/// method REGISTER, the phone's Contact if there is one, the source address and
/// the transport that it came by, and the time that it asks for.
pub open spec fn carries(request: RegisterRequest, input: RegisterInput) -> bool {
    &&& input.digest matches Some(digest)
    &&& request.digest_auth.username@ == digest.username@
    &&& request.digest_auth.realm@ == digest.realm@
    &&& request.digest_auth.nonce@ == digest.nonce@
    &&& request.digest_auth.uri@ == digest.uri@
    &&& request.digest_auth.response@ == digest.response@
    &&& request.digest_auth.method@ == "REGISTER"@
    &&& text::opt_text(request.digest_auth.qop) == text::opt_text(digest.qop)
    &&& text::opt_text(request.digest_auth.nc) == text::opt_text(digest.nc)
    &&& text::opt_text(request.digest_auth.cnonce) == text::opt_text(digest.cnonce)
    &&& is_transport_of(request.transport, input.wire)
    &&& same_source(request.source_addr, input.source_addr)
    &&& request.expires == asked_expiry(input.contact, input.expires_header)
    &&& request.contact is Some <==> names_phone(input.contact)
    &&& request.contact matches Some(phone) ==> {
        let uri = input.contact->0.uri->0;
        let base = plain_uri(uri);
        let shown = match input.serialized.uri {
            Some(printed) => printed@,
            None => base,
        };
        &&& phone@.advertised_uri == shown
        &&& phone@.legacy_base_uri == base
        &&& phone@.line == contact::param_from(contact::param_views(uri.other_params@), "line"@, 0)
        &&& phone@.callback_uri == (match (input.source_addr, input.serialized.callback) {
            (None, _) => shown,
            (Some(_), Some(printed)) => printed@,
            (Some(addr), None) => register_handler::legacy_callback(
                base,
                addr@,
                request.transport,
            ),
        })
    }
}

/// A Contact URI without its parameters.
pub open spec fn plain_uri(uri: ContactUri) -> Seq<char> {
    "sip:"@ + (if uri.user@.len() > 0 {
        uri.user@ + "@"@
    } else {
        Seq::empty()
    }) + uri.host@ + (if uri.port > 0 {
        ":"@ + text::signed_decimal(uri.port as int)
    } else {
        Seq::empty()
    })
}

/// An address as it stands in a URI, an IPv6 address in brackets.
pub open spec fn place_of(addr: registrar::SourceAddrView) -> Seq<char> {
    if addr.is_ipv6 {
        "["@ + addr.ip + "]:"@ + text::decimal(addr.port as nat)
    } else {
        addr.ip + ":"@ + text::decimal(addr.port as nat)
    }
}

/// A phone is called back where it was seen: its user at the source address, over
/// the transport that it used.
pub proof fn law_phone_is_called_where_it_was_seen(
    user: Seq<char>,
    rest: Seq<char>,
    addr: registrar::SourceAddrView,
)
    requires
        !text::holds(user, '@'),
        !text::holds(rest, '@'),
    ensures
        ({
            let uri = "sip:"@ + user + "@"@ + rest;
            let bare = "sip:"@ + rest;
            let place = user + "@"@ + place_of(addr);
            &&& register_handler::legacy_callback(uri, addr, SipTransport::Udp) == "sip:"@ + place
                + ";transport=udp"@
            &&& register_handler::legacy_callback(uri, addr, SipTransport::Tcp) == "sip:"@ + place
                + ";transport=tcp"@
            &&& register_handler::legacy_callback(uri, addr, SipTransport::Tls) == "sips:"@ + place
            &&& register_handler::legacy_callback(bare, addr, SipTransport::Udp) == "sip:"@
                + place_of(addr) + ";transport=udp"@
            &&& register_handler::legacy_callback(bare, addr, SipTransport::Tcp) == "sip:"@
                + place_of(addr) + ";transport=tcp"@
            &&& register_handler::legacy_callback(bare, addr, SipTransport::Tls) == "sips:"@
                + place_of(addr)
        }),
{
    reveal_strlit("sip:");
    reveal_strlit("@");
    let uri = "sip:"@ + user + "@"@ + rest;
    let bare = "sip:"@ + rest;
    assert(uri.subrange(0, 4) =~= "sip:"@);
    assert(bare.subrange(0, 4) =~= "sip:"@);
    let a = uri.skip(4);
    assert(a =~= user + "@"@ + rest);
    assert(bare.skip(4) =~= rest);
    text::lemma_next_char(a, '@', 0);
    text::lemma_next_char(rest, '@', 0);
    let n = user.len() as int;
    assert(a[n] == '@');
    let i = text::next_char(a, '@', 0);
    if i < n {
        assert(a[i] == user[i]);
    }
    assert(a.take(n) =~= user);
    assert(registrar::addr_text(addr) == place_of(addr));
}

/// Whether a response has this status and no header but those of an accepted
/// registration: the time that is granted and the phone's Contact.
pub open spec fn is_acceptance(
    response: SipResponse,
    expires: u32,
    contact_value: Option<Seq<char>>,
) -> bool {
    &&& response.status == 200
    &&& response.headers@.len() == (if contact_value is Some {
        2int
    } else {
        1int
    })
    &&& response.headers@[0].name@ == "Expires"@
    &&& response.headers@[0].value@ == text::decimal(expires as nat)
    &&& contact_value matches Some(value) ==> response.headers@[1].name@ == "Contact"@
        && response.headers@[1].value@ == value
}

/// Whether a response turns a REGISTER away.
pub open spec fn is_refusal(response: SipResponse, status: u16, reason: Seq<char>) -> bool {
    response.status == status && text::opt_text(response.reason) == Some(reason)
        && response.headers@.len() == 0
}

/// The Contact that a response lists: as the SIP stack printed it, else made of
/// the URI and the time that is granted. Without a phone there is none.
pub open spec fn listed_contact(input: RegisterInput) -> Option<Seq<char>> {
    if names_phone(input.contact) {
        let shown = match input.serialized.uri {
            Some(printed) => printed@,
            None => plain_uri(input.contact->0.uri->0),
        };
        let made = "<"@ + shown + ">;expires="@ + text::decimal(
            asked_expiry(input.contact, input.expires_header) as nat,
        );
        Some(
            match input.serialized.header {
                Some(header) => match contact::value_of_header(header@) {
                    Some(value) => value,
                    None => made,
                },
                None => made,
            },
        )
    } else {
        None
    }
}

proof fn lemma_input(input: RegisterInput)
    ensures
        input.expires() == asked_expiry(input.contact, input.expires_header),
        input.contact_value() == listed_contact(input),
        input.parsed() is Some <==> names_phone(input.contact),
        input.parsed() matches Some(p) ==> {
            let uri = input.contact->0.uri->0;
            &&& p.registration.legacy_base_uri == plain_uri(uri)
            &&& p.registration.advertised_uri == (match input.serialized.uri {
                Some(printed) => printed@,
                None => plain_uri(uri),
            })
        },
{
    if names_phone(input.contact) {
        let uri = input.contact->0.uri->0;
        assert(uri@.base() =~= plain_uri(uri));
    }
}

/// What a REGISTER with credentials is answered, and what is handed on, for each
/// verdict of the cache. Credentials that match are answered with 200 at once,
/// credentials that do not match with 403, a user in the cooldown with 429;
/// credentials that the cache does not know wait for the backend. Every request
/// that is handed on carries what came: in particular the transport and the source
/// address by which it came. The 200 response lists the phone's Contact.
pub proof fn law_register_is_answered_by_its_verdict(
    input: RegisterInput,
    verdict: CacheVerdict,
    actions: Vec<RegisterAction>,
)
    requires
        call_ensures(register_handler::answer_register, (input, verdict), actions),
        input.digest is Some,
    ensures
        forall|k: int|
            0 <= k < actions@.len() ==> (request_of(#[trigger] actions@[k]) matches Some(request)
                ==> carries(request, input) && request.pending_tsx is None),
        match verdict {
            CacheVerdict::Cooldown => actions@.len() == 1 && (
            actions@[0] matches RegisterAction::Respond(r) && is_refusal(
                r,
                429,
                "Too Many Requests"@,
            )),
            CacheVerdict::Checked(VerifyResult::Verified) => actions@.len() == 2 && (
            actions@[0] matches RegisterAction::Respond(r) && is_acceptance(
                r,
                asked_expiry(input.contact, input.expires_header),
                listed_contact(input),
            )) && actions@[1] is Queue,
            CacheVerdict::Checked(VerifyResult::Mismatch) => actions@.len() == 2 && (
            actions@[0] matches RegisterAction::Respond(r) && is_refusal(r, 403, "Forbidden"@))
                && actions@[1] is Queue,
            CacheVerdict::Checked(VerifyResult::Miss) => actions@.len() == 1 && (
            actions@[0] matches RegisterAction::Defer { contact_value, .. } && text::opt_text(
                contact_value,
            ) == listed_contact(input)),
            CacheVerdict::NoCache => actions@.len() == 2 && actions@[0] is Queue && (
            actions@[1] matches RegisterAction::Respond(r) && is_acceptance(
                r,
                asked_expiry(input.contact, input.expires_header),
                listed_contact(input),
            )),
        },
{
    lemma_input(input);
    let seen = register_handler::action_views(actions@);
    assert(seen.len() == actions@.len());
    assert(seen[0] == actions@[0]@);
    if seen.len() > 1 {
        assert(seen[1] == actions@[1]@);
    }
    assert forall|k: int| 0 <= k < actions@.len() implies (request_of(
        #[trigger] actions@[k],
    ) matches Some(request) ==> carries(request, input) && request.pending_tsx is None) by {
        assert(seen[k] == actions@[k]@);
        if let Some(request) = request_of(actions@[k]) {
            assert(request@ == input.request());
        }
    }
    if let RegisterAction::Respond(r) = actions@[0] {
        lemma_headers(r);
    }
    if actions@.len() > 1 {
        if let RegisterAction::Respond(r) = actions@[1] {
            lemma_headers(r);
        }
    }
}

proof fn lemma_headers(r: SipResponse)
    ensures
        r@.headers.len() == r.headers@.len(),
        forall|k: int|
            #![trigger r.headers@[k]]
            0 <= k < r.headers@.len() ==> r@.headers[k].name == r.headers@[k].name@
                && r@.headers[k].value == r.headers@[k].value@,
{
}

/// A REGISTER without credentials is challenged and nothing else happens; one with
/// credentials is never challenged, and what it hands on carries what came, by
/// whatever verdict. Without a cache it is accepted and verified later.
pub proof fn law_register_is_challenged_or_answered(
    input: RegisterInput,
    cache: &mut Option<AuthCache>,
    actions: Vec<RegisterAction>,
)
    requires
        call_ensures(register_handler::on_rx_request_cb, (input, cache), actions),
    ensures
        input.digest is None ==> actions@.len() == 1 && (
        actions@[0] matches RegisterAction::Respond(r) && r.status == 401 && r.headers@.len() == 1
            && r.headers@[0].name@ == "WWW-Authenticate"@ && exists|nonce: Seq<u8>|
            nonce.len() == 16 && r.headers@[0].value@ == "Digest realm=\"sipcord\", nonce=\""@
                + #[trigger] auth_cache::hex(nonce) + "\", algorithm=MD5, qop=\"auth\""@),
        input.digest is Some ==> forall|k: int|
            0 <= k < actions@.len() ==> (request_of(#[trigger] actions@[k]) matches Some(request)
                ==> carries(request, input) && request.pending_tsx is None) && !(
            actions@[k] matches RegisterAction::Respond(r) && r.status == 401),
        input.digest is Some && *old(cache) is None ==> actions@.len() == 2 && actions@[0] is Queue
            && (actions@[1] matches RegisterAction::Respond(r) && is_acceptance(
            r,
            asked_expiry(input.contact, input.expires_header),
            listed_contact(input),
        )),
{
    lemma_input(input);
    let seen = register_handler::action_views(actions@);
    assert(seen.len() == actions@.len());
    if input.digest is None {
        let nonce = choose|nonce: Seq<u8>|
            nonce.len() == 16 && seen == seq![
                register_handler::RegisterActionView::Respond(
                    #[trigger] register_handler::challenge_response(nonce),
                ),
            ];
        assert(seen[0] == actions@[0]@);
        reveal_strlit("Digest realm=\"sipcord\", nonce=\"");
        reveal_strlit("Digest realm=\"");
        reveal_strlit("sipcord");
        reveal_strlit("\", nonce=\"");
        assert("Digest realm=\""@ + "sipcord"@ + "\", nonce=\""@
            =~= "Digest realm=\"sipcord\", nonce=\""@);
        if let RegisterAction::Respond(r) = actions@[0] {
            lemma_headers(r);
            assert(r@ == register_handler::challenge_response(nonce));
            assert(r.headers@[0].value@ == register_handler::challenge(nonce));
            assert(r.headers@[0].value@ == "Digest realm=\"sipcord\", nonce=\""@
                + auth_cache::hex(nonce) + "\", algorithm=MD5, qop=\"auth\""@);
        }
    } else {
        assert forall|k: int| 0 <= k < actions@.len() implies (request_of(
            #[trigger] actions@[k],
        ) matches Some(request) ==> carries(request, input) && request.pending_tsx is None) && !(
        actions@[k] matches RegisterAction::Respond(r) && r.status == 401) by {
            assert(seen[k] == actions@[k]@);
            if let Some(request) = request_of(actions@[k]) {
                assert(request@ == input.request());
            }
        }
        if *old(cache) is None {
            assert(seen[0] == actions@[0]@);
            assert(seen[1] == actions@[1]@);
            if let RegisterAction::Respond(r) = actions@[1] {
                lemma_headers(r);
            }
        }
    }
}

/// A deferred REGISTER is handed on with the transaction that waits for it, and
/// its verification is answered there: with the time and the Contact that it asked
/// for. Where there is no transaction, it is handed on as it is and accepted.
pub proof fn law_deferred_register_is_handed_on(
    request: RegisterRequest,
    contact_value: Option<String>,
    transaction: Option<u64>,
    actions: Vec<RegisterAction>,
)
    requires
        call_ensures(
            register_handler::plan_deferred_register,
            (request, contact_value, transaction),
            actions,
        ),
    ensures
        actions@.len() > 0,
        actions@[0] matches RegisterAction::Queue(handed) && handed.transport == request.transport
            && handed.expires == request.expires && same_source(
            handed.source_addr,
            request.source_addr,
        ) && handed.digest_auth@ == request.digest_auth@ && (match transaction {
            Some(key) => handed.pending_tsx matches Some(pending) && pending.transaction == key
                && pending.expires == request.expires && text::opt_text(pending.contact_value)
                == text::opt_text(contact_value),
            None => handed.pending_tsx is Some <==> request.pending_tsx is Some,
        }),
        transaction is Some ==> actions@.len() == 1,
        transaction is None ==> actions@.len() == 2 && (
        actions@[1] matches RegisterAction::Respond(r) && is_acceptance(
            r,
            request.expires,
            text::opt_text(contact_value),
        )),
{
    let seen = register_handler::action_views(actions@);
    assert(seen.len() == actions@.len());
    assert(seen[0] == actions@[0]@);
    if transaction is None {
        assert(seen[1] == actions@[1]@);
        if let RegisterAction::Respond(r) = actions@[1] {
            lemma_headers(r);
        }
    }
}

/// What the cache held decides: a user with as many failures in a row as the limit
/// allows is in the cooldown, whatever the credentials. Else credentials that the
/// cache held are checked, and those that do not match are discarded.
pub proof fn law_held_credentials_decide(
    cache: &mut Option<AuthCache>,
    failures: Option<u32>,
    cached: &Option<CachedAuth>,
    digest: &DigestAuthParams,
    verdict: CacheVerdict,
)
    requires
        call_ensures(register_handler::consult_held, (cache, failures, cached, digest), verdict),
    ensures
        *old(cache) is None ==> verdict is NoCache && *final(cache) is None,
        *old(cache) matches Some(c) ==> {
            let limit = c@.max_failures;
            let count = match failures {
                Some(n) => n,
                None => 0,
            };
            &&& verdict is Cooldown <==> count >= limit
            &&& count < limit ==> (match *cached {
                None => verdict == CacheVerdict::Checked(VerifyResult::Miss),
                Some(entry) => if text::lower(digest.response@) == text::lower(
                    auth_cache::expected_response(entry.ha1@, digest@),
                ) {
                    verdict == CacheVerdict::Checked(VerifyResult::Verified)
                } else {
                    verdict == CacheVerdict::Checked(VerifyResult::Mismatch)
                },
            })
            &&& *final(cache) matches Some(after)
            &&& after@.failures == c@.failures
            &&& after@.max_failures == c@.max_failures
            &&& after@.ttl == c@.ttl
            &&& forall|user: Seq<char>|
                #![trigger after@.credentials.contains_key(user)]
                after@.credentials.contains_key(user) <==> c@.credentials.contains_key(user) && !(
                user == digest.username@ && verdict == CacheVerdict::Checked(
                    VerifyResult::Mismatch,
                ))
        },
{
}

/// The way that a request came is told from its packet.
pub proof fn law_transport_is_detected(wire: Option<WireTransport>, r: SipTransport)
    requires
        call_ensures(register_handler::detect_transport, (wire,), r),
    ensures
        is_transport_of(r, wire),
{
}

/// A phone behind UDP that asks for no `rport` is answered at the port that its
/// packet came from, and nowhere else; every other route stays.
pub proof fn law_response_goes_back_to_its_source(
    wire: Option<WireTransport>,
    via: &mut ViaRoute,
    source_port: i32,
)
    requires
        call_ensures(
            register_handler::normalize_register_response_route,
            (wire, via, source_port),
            (),
        ),
    ensures
        (wire == Some(WireTransport::Udp) || wire == Some(WireTransport::Udp6)) && old(via).rport
            < 0 && source_port > 0 ==> final(via).rport == source_port
            && final(via).maddr@.len() == 0,
        !((wire == Some(WireTransport::Udp) || wire == Some(WireTransport::Udp6)) && old(via).rport
            < 0 && source_port > 0) ==> final(via).rport == old(via).rport && final(via).maddr@
            == old(via).maddr@,
        final(via).sent_by_port == old(via).sent_by_port,
{
    assert(final(via)@.rport == final(via).rport);
    assert(final(via)@.maddr == final(via).maddr@);
    assert(final(via)@.sent_by_port == final(via).sent_by_port);
}

/// Who is kept out: a banned source and a scanner are answered with 403, and a
/// scanner that is not banned yet is banned for good, if bans apply. Others are let
/// in, after their request was counted where bans apply.
pub proof fn law_gate_keeps_out_the_banned(
    is_register: bool,
    guarded: bool,
    banned: bool,
    scanner: bool,
    gate: RegisterGate,
)
    requires
        call_ensures(
            register_handler::gate_register,
            (is_register, guarded, banned, scanner),
            gate,
        ),
    ensures
        gate is PassOn <==> !is_register,
        is_register && ((guarded && banned) || scanner) <==> gate is Reject,
        gate matches RegisterGate::Reject { response, permanent_ban } ==> is_refusal(
            response,
            403,
            "Forbidden"@,
        ) && (permanent_ban <==> guarded && !banned),
        gate is CountRequest ==> guarded,
        gate is Admit ==> !guarded,
{
    if let RegisterGate::Reject { response, .. } = gate {
        lemma_headers(response);
    }
}

/// A source over its limit is answered with 429.
pub proof fn law_limit_is_told(limited: bool, r: Option<SipResponse>)
    requires
        call_ensures(register_handler::limit_register, (limited,), r),
    ensures
        r is Some <==> limited,
        r matches Some(response) ==> is_refusal(response, 429, "Too Many Requests"@),
{
    if let Some(response) = r {
        lemma_headers(response);
    }
}

/// A waiting REGISTER that could not be handed on is refused, and only that one.
pub proof fn law_undelivered_register_is_refused(
    request: RegisterRequest,
    pending: PendingRegisterTsx,
    one: Option<SipCommand>,
    other: Option<SipCommand>,
)
    requires
        request.pending_tsx == Some(pending),
        call_ensures(register_handler::dispatch_register_request, (Err(request),), one),
        call_ensures(register_handler::dispatch_register_request, (Ok(()),), other),
    ensures
        one matches Some(SipCommand::RespondRegister { pending: answered, auth_ok }) && !auth_ok
            && answered.transaction == pending.transaction && answered.expires == pending.expires
            && text::opt_text(answered.contact_value) == text::opt_text(pending.contact_value),
        other is None,
{
}

/// The Contact of a response, and the phone that is registered, are those of the
/// request's header.
pub proof fn law_contact_is_read_from_its_header(
    header: &Option<ContactHeader>,
    serialized: &SerializedContact,
    source_addr: &Option<SourceAddr>,
    transport: SipTransport,
    expires: u32,
    r: Option<ParsedRegisterContact>,
)
    requires
        call_ensures(
            register_handler::extract_registered_contact,
            (header, serialized, source_addr, transport, expires),
            r,
        ),
    ensures
        r is Some <==> names_phone(*header),
        r matches Some(p) ==> {
            let uri = header->0.uri->0;
            &&& p.registration@.legacy_base_uri == plain_uri(uri)
            &&& p.registration@.line == contact::param_from(
                contact::param_views(uri.other_params@),
                "line"@,
                0,
            )
            &&& serialized.uri matches Some(printed) ==> p.registration@.advertised_uri == printed@
            &&& serialized.uri is None ==> p.registration@.advertised_uri == plain_uri(uri)
            &&& source_addr is None ==> p.registration@.callback_uri
                == p.registration@.advertised_uri
            &&& source_addr is Some && serialized.callback is Some ==> p.registration@.callback_uri
                == serialized.callback->0@
            &&& source_addr is Some && serialized.callback is None ==> p.registration@.callback_uri
                == register_handler::legacy_callback(plain_uri(uri), source_addr->0@, transport)
        },
{
    if let Some(p) = r {
        let uri = header->0.uri->0;
        assert(uri@.base() =~= plain_uri(uri));
        assert(p.registration@ == p@.registration);
    }
}

/// An answer from the cache is deserved: who is accepted has shown the credentials
/// that are held, who is refused has shown others and loses the entry, and who is
/// turned away has failed as often as is allowed. Only a refusal changes the cache.
pub proof fn law_cached_answer_is_deserved(
    input: RegisterInput,
    cache: &mut Option<AuthCache>,
    actions: Vec<RegisterAction>,
)
    requires
        call_ensures(register_handler::on_rx_request_cb, (input, cache), actions),
        input.digest is Some,
        *old(cache) is Some,
    ensures
        ({
            let held = (*old(cache))->0@;
            let user = input.digest->0.username@;
            let shown = crate::transport::sip::types::DigestView {
                method: "REGISTER"@,
                ..input.digest->0@
            };
            let known = held.credentials.contains_key(user);
            let right = auth_cache::digest_matches(held.credentials[user].ha1, shown);
            let status = actions@[0]->Respond_0.status;
            &&& actions@.len() >= 1
            &&& actions@[0] is Respond || actions@[0] is Defer
            &&& actions@[0] is Defer ==> actions@.len() == 1
            &&& actions@[0] is Respond ==> status == 200 || status == 403 || status == 429
            &&& actions@[0] is Respond && status == 200 ==> known && right && actions@.len() == 2
                && actions@[1] is Queue
            &&& actions@[0] is Respond && status == 403 ==> known && !right && actions@.len() == 2
                && actions@[1] is Queue && *final(cache) is Some
                && !(*final(cache))->0@.credentials.contains_key(user)
                && (*final(cache))->0@.failures == held.failures
            &&& actions@[0] is Respond && status == 429 ==> actions@.len() == 1 && (
            held.max_failures == 0 || (held.failures.contains_key(user) && held.failures[user]
                >= held.max_failures))
            &&& !(actions@[0] is Respond && status == 403) ==> *final(cache) is Some
                && (*final(cache))->0@ == held
        }),
{
    let seen = register_handler::action_views(actions@);
    assert(seen.len() == actions@.len());
    assert(seen[0] == actions@[0]@);
    if seen.len() > 1 {
        assert(seen[1] == actions@[1]@);
    }
    let shown = crate::transport::sip::types::DigestView {
        method: "REGISTER"@,
        ..input.digest->0@
    };
    assert(shown == input.checked_digest());
    if let RegisterAction::Respond(r) = actions@[0] {
        assert(seen[0]->Respond_0 == r@);
        assert(r@.status == r.status);
    }
}

/// A URI over a transport is of the scheme `sips` over TLS, else of `sip` with the
/// transport as a parameter; a phone without a user is called by its address alone.
pub proof fn law_uri_names_its_transport(
    authority: &Vec<char>,
    transport: SipTransport,
    out: Vec<char>,
    contact_uri: &str,
    addr: &SourceAddr,
    called: String,
    user: Seq<char>,
    rest: Seq<char>,
)
    requires
        call_ensures(register_handler::uri_over_transport, (authority, transport), out),
        call_ensures(
            register_handler::build_legacy_callback_uri,
            (contact_uri, addr, transport),
            called,
        ),
        forall|k: int| 0 <= k < user.len() ==> #[trigger] user[k] != '@',
        contact_uri@ == "sip:"@ + user + seq!['@'] + rest,
        authority@ == user + "@"@ + place_of(addr@),
    ensures
        transport is Tls ==> out@ == "sips:"@ + authority@,
        transport is Tcp ==> out@ == "sip:"@ + authority@ + ";transport=tcp"@,
        transport is Udp ==> out@ == "sip:"@ + authority@ + ";transport=udp"@,
        called@ == out@,
{
    reveal_strlit("sip:");
    let uri = contact_uri@;
    let n = user.len() as int;
    assert(uri.subrange(0, 4) =~= "sip:"@);
    assert(text::starts_with(uri, "sip:"@));
    let behind = uri.skip(4);
    assert(behind =~= user + seq!['@'] + rest);
    assert(behind[n] == '@');
    text::lemma_next_char(behind, '@', 0);
    assert forall|i: int| 0 <= i < n implies behind[i] != '@' by {
        assert(behind[i] == user[i]);
    }
    assert(text::next_char(behind, '@', 0) == n);
    assert(behind.take(n) =~= user);
    assert(registrar::addr_text(addr@) == place_of(addr@));
}

/// The time of a registration is that of its Contact, else that of its header, else
/// an hour. A response to it goes back to the port that it came from where it came
/// by UDP and did not ask for that itself.
pub proof fn law_small_rules_of_a_register(
    header: &Option<ContactHeader>,
    expires: Option<u32>,
    granted: u32,
    wire: WireTransport,
    rport: i32,
    port: i32,
    symmetric: bool,
)
    requires
        call_ensures(register_handler::extract_expires, (header, expires), granted),
        call_ensures(
            register_handler::needs_symmetric_register_response,
            (wire, rport, port),
            symmetric,
        ),
    ensures
        granted == asked_expiry(*header, expires),
        symmetric <==> (wire == WireTransport::Udp || wire == WireTransport::Udp6) && rport < 0
            && port > 0,
{
}

/// A plain response has its status and reason and no header; an acceptance tells the
/// time and the Contact; a challenge tells the realm and the nonce in hexadecimal.
pub proof fn law_responses_say_what_they_are_made_for(
    status: u16,
    reason: &str,
    plain: SipResponse,
    expires: u32,
    contact_value: &Option<String>,
    accepted: SipResponse,
    nonce: &Vec<u8>,
    challenge: SipResponse,
)
    requires
        call_ensures(register_handler::simple_response_of, (status, reason), plain),
        call_ensures(register_handler::register_ok, (expires, contact_value), accepted),
        call_ensures(register_handler::challenge_with_nonce, (nonce,), challenge),
    ensures
        is_refusal(plain, status, reason@),
        is_acceptance(accepted, expires, text::opt_text(*contact_value)),
        challenge.status == 401,
        challenge.headers@.len() == 1,
        challenge.headers@[0].name@ == "WWW-Authenticate"@,
        challenge.headers@[0].value@ == "Digest realm=\"sipcord\", nonce=\""@ + auth_cache::hex(
            nonce@,
        ) + "\", algorithm=MD5, qop=\"auth\""@,
{
    lemma_headers(plain);
    lemma_headers(accepted);
    lemma_headers(challenge);
    reveal_strlit("Digest realm=\"sipcord\", nonce=\"");
    reveal_strlit("Digest realm=\"");
    reveal_strlit("sipcord");
    reveal_strlit("\", nonce=\"");
    assert("Digest realm=\""@ + "sipcord"@ + "\", nonce=\""@
        =~= "Digest realm=\"sipcord\", nonce=\""@);
    assert(challenge.headers@[0].value@ == register_handler::challenge(nonce@));
}

/// A phone that gave no user is called by the address that it was seen at alone, and
/// one that registered with `sips` is called by its user too.
pub proof fn law_phone_without_user_is_called_by_its_address(
    contact_uri: &str,
    secure_uri: &str,
    addr: &SourceAddr,
    transport: SipTransport,
    called: String,
    secure: String,
    user: Seq<char>,
    rest: Seq<char>,
)
    requires
        call_ensures(
            register_handler::build_legacy_callback_uri,
            (contact_uri, addr, transport),
            called,
        ),
        call_ensures(
            register_handler::build_legacy_callback_uri,
            (secure_uri, addr, transport),
            secure,
        ),
        contact_uri@ == "sip:"@ + user,
        forall|k: int| 0 <= k < user.len() ==> #[trigger] user[k] != '@',
        secure_uri@ == "sips:"@ + user + seq!['@'] + rest,
    ensures
        transport is Tls ==> called@ == "sips:"@ + place_of(addr@),
        transport is Tcp ==> called@ == "sip:"@ + place_of(addr@) + ";transport=tcp"@,
        transport is Udp ==> called@ == "sip:"@ + place_of(addr@) + ";transport=udp"@,
        transport is Tls ==> secure@ == "sips:"@ + (user + "@"@ + place_of(addr@)),
        transport is Tcp ==> secure@ == "sip:"@ + (user + "@"@ + place_of(addr@))
            + ";transport=tcp"@,
        transport is Udp ==> secure@ == "sip:"@ + (user + "@"@ + place_of(addr@))
            + ";transport=udp"@,
{
    reveal_strlit("sip:");
    reveal_strlit("sips:");
    let uri = contact_uri@;
    let n = user.len() as int;
    assert(uri.subrange(0, 4) =~= "sip:"@);
    assert(text::starts_with(uri, "sip:"@));
    let behind = uri.skip(4);
    assert(behind =~= user);
    text::lemma_next_char(behind, '@', 0);
    let at = text::next_char(behind, '@', 0);
    if at < behind.len() {
        assert(behind[at] == user[at]);
        assert(false);
    }
    let other = secure_uri@;
    assert(other.subrange(0, 5) =~= "sips:"@);
    assert(text::starts_with(other, "sips:"@));
    assert(!text::starts_with(other, "sip:"@)) by {
        assert(other[3] == 's');
        if text::starts_with(other, "sip:"@) {
            assert(other.subrange(0, 4)[3] == ':');
        }
    }
    let tail = other.skip(5);
    assert(tail =~= user + seq!['@'] + rest);
    assert(tail[n] == '@');
    text::lemma_next_char(tail, '@', 0);
    assert forall|i: int| 0 <= i < n implies tail[i] != '@' by {
        assert(tail[i] == user[i]);
    }
    assert(text::next_char(tail, '@', 0) == n);
    assert(tail.take(n) =~= user);
    assert(registrar::addr_text(addr@) == place_of(addr@));
}

} // verus!
