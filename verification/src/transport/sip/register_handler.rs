//! REGISTER requests.
//!
//! A request without credentials is challenged. One with credentials is
//! verified against the credential cache; where the cache knows nothing, the
//! response waits for the backend. What the SIP stack is to do comes out as a
//! list of actions.

use crate::services::auth_cache;
use crate::services::auth_cache::{hex_of, AuthCache, CachedAuth, VerifyResult};
use crate::services::registrar;
use crate::services::registrar::{RegisteredContact, SipTransport, SourceAddr};
use crate::text;
use crate::text::{
    after_prefix, decimal_of, find_char, from_chars, push_chars, push_str, slice_of, to_chars,
};
use crate::transport::sip::contact;
use crate::transport::sip::contact::{response_value, ContactHeader};
use crate::transport::sip::types;
use crate::transport::sip::types::{
    DigestAuthParams, PendingRegisterTsx, SipCommand, SIP_REALM,
};
use vstd::prelude::*;

verus! {

broadcast use vstd::string::group_string_axioms;

/// How long a registration lasts when the phone does not say.
pub const DEFAULT_EXPIRES: u32 = 3600;

/// The transport types of the SIP stack.
#[derive(Debug, Clone, Copy, PartialEq, Eq, Structural)]
pub enum WireTransport {
    Udp,
    Udp6,
    Tcp,
    Tcp6,
    Tls,
    Tls6,
    Other,
}

/// The transport of a registration.
pub open spec fn transport_of(wire: Option<WireTransport>) -> SipTransport {
    match wire {
        Some(WireTransport::Tls) | Some(WireTransport::Tls6) => SipTransport::Tls,
        Some(WireTransport::Tcp) | Some(WireTransport::Tcp6) => SipTransport::Tcp,
        _ => SipTransport::Udp,
    }
}

/// The transport by which a request came; UDP where it is not known.
pub fn detect_transport(wire: Option<WireTransport>) -> (r: SipTransport)
    ensures
        r == transport_of(wire),
{
    match wire {
        Some(WireTransport::Tls) => SipTransport::Tls,
        Some(WireTransport::Tls6) => SipTransport::Tls,
        Some(WireTransport::Tcp) => SipTransport::Tcp,
        Some(WireTransport::Tcp6) => SipTransport::Tcp,
        _ => SipTransport::Udp,
    }
}

/// Whether a REGISTER came by UDP from a phone that asks for no `rport`.
pub open spec fn needs_symmetric(wire: WireTransport, rport: i32, source_port: i32) -> bool {
    (wire is Udp || wire is Udp6) && rport < 0 && source_port > 0
}

/// Whether the response to a REGISTER must go to the port that the packet came
/// from, although the phone did not ask for it.
pub fn needs_symmetric_register_response(wire: WireTransport, rport: i32, source_port: i32) -> (r:
    bool)
    ensures
        r == needs_symmetric(wire, rport, source_port),
{
    (wire == WireTransport::Udp || wire == WireTransport::Udp6) && rport < 0 && source_port > 0
}

/// The parts of a Via header that route a response.
#[derive(Debug)]
pub struct ViaRoute {
    /// The `rport` parameter; negative if there is none.
    pub rport: i32,
    /// The `maddr` parameter; empty if there is none.
    pub maddr: String,
    pub sent_by_port: i32,
}

/// A Via route in the model.
pub ghost struct ViaRouteView {
    pub rport: int,
    pub maddr: Seq<char>,
    pub sent_by_port: int,
}

impl View for ViaRoute {
    type V = ViaRouteView;

    open spec fn view(&self) -> ViaRouteView {
        ViaRouteView {
            rport: self.rport as int,
            maddr: self.maddr@,
            sent_by_port: self.sent_by_port as int,
        }
    }
}

/// Makes the response to a UDP REGISTER without `rport` go back to the packet
/// source. `maddr` would take precedence over that, so it is dropped.
pub fn normalize_register_response_route(
    wire: Option<WireTransport>,
    via: &mut ViaRoute,
    source_port: i32,
)
    ensures
        final(via)@ == (if wire matches Some(w) && needs_symmetric(w, old(via).rport, source_port) {
            (ViaRouteView {
                rport: source_port as int,
                maddr: Seq::empty(),
                sent_by_port: old(via)@.sent_by_port,
            })
        } else {
            old(via)@
        }),
{
    if let Some(w) = wire {
        if needs_symmetric_register_response(w, via.rport, source_port) {
            via.rport = source_port;
            via.maddr = String::new();
        }
    }
}

/// The user of a URI with a SIP scheme: what stands before the first `@`.
pub open spec fn uri_user(uri: Seq<char>) -> Option<Seq<char>> {
    let rest = if text::starts_with(uri, "sip:"@) {
        Some(uri.skip("sip:"@.len() as int))
    } else if text::starts_with(uri, "sips:"@) {
        Some(uri.skip("sips:"@.len() as int))
    } else {
        None
    };
    match rest {
        Some(r) if text::next_char(r, '@', 0) < r.len() => Some(
            r.take(text::next_char(r, '@', 0)),
        ),
        _ => None,
    }
}

/// The URI of a phone at an address, over a transport.
pub open spec fn transport_uri(authority: Seq<char>, transport: SipTransport) -> Seq<char> {
    match transport {
        SipTransport::Tls => "sips:"@ + authority,
        SipTransport::Tcp => "sip:"@ + authority + ";transport=tcp"@,
        SipTransport::Udp => "sip:"@ + authority + ";transport=udp"@,
    }
}

/// The URI for calling a phone, made of its user and its source address.
pub open spec fn legacy_callback(
    contact_uri: Seq<char>,
    addr: registrar::SourceAddrView,
    transport: SipTransport,
) -> Seq<char> {
    let authority = match uri_user(contact_uri) {
        Some(user) => user + "@"@ + registrar::addr_text(addr),
        None => registrar::addr_text(addr),
    };
    transport_uri(authority, transport)
}

/// The URI `authority` over a transport.
pub fn uri_over_transport(authority: &Vec<char>, transport: SipTransport) -> (out: Vec<char>)
    ensures
        out@ == transport_uri(authority@, transport),
{
    let mut out: Vec<char> = Vec::new();
    match transport {
        SipTransport::Tls => {
            push_str(&mut out, "sips:");
            push_chars(&mut out, authority);
        },
        SipTransport::Tcp => {
            push_str(&mut out, "sip:");
            push_chars(&mut out, authority);
            push_str(&mut out, ";transport=tcp");
        },
        SipTransport::Udp => {
            push_str(&mut out, "sip:");
            push_chars(&mut out, authority);
            push_str(&mut out, ";transport=udp");
        },
    }
    assert(out@ =~= transport_uri(authority@, transport));
    out
}

fn user_of_uri(uri: &str) -> (r: Option<Vec<char>>)
    ensures
        match r {
            Some(user) => uri_user(uri@) == Some(user@),
            None => uri_user(uri@) is None,
        },
{
    let chars = to_chars(uri);
    let rest = match after_prefix(&chars, "sip:") {
        Some(rest) => rest,
        None => match after_prefix(&chars, "sips:") {
            Some(rest) => rest,
            None => {
                return None;
            },
        },
    };
    let at = find_char(&rest, '@', 0);
    if at < rest.len() {
        let user = slice_of(&rest, 0, at);
        assert(user@ =~= rest@.take(at as int));
        Some(user)
    } else {
        None
    }
}

/// The URI for calling a phone where its Contact cannot be rewritten: its user
/// at the address and over the transport that the request came by.
pub fn build_legacy_callback_uri(
    contact_uri: &str,
    source_addr: &SourceAddr,
    transport: SipTransport,
) -> (out: String)
    ensures
        out@ == legacy_callback(contact_uri@, source_addr@, transport),
{
    let addr = source_addr.to_text();
    let mut authority: Vec<char> = Vec::new();
    if let Some(user) = user_of_uri(contact_uri) {
        push_chars(&mut authority, &user);
        push_str(&mut authority, "@");
    }
    push_str(&mut authority, addr.as_str());
    proof {
        match uri_user(contact_uri@) {
            Some(user) => {
                assert(authority@ =~= user + "@"@ + addr@);
            },
            None => {
                assert(authority@ =~= addr@);
            },
        }
    }
    from_chars(&uri_over_transport(&authority, transport))
}

/// How long a registration is to last: the Contact's parameter, else the
/// Expires header, else an hour.
pub open spec fn effective_expires(header: Option<ContactHeader>, expires: Option<u32>) -> u32 {
    match header {
        Some(h) if h.expires != u32::MAX => h.expires,
        _ => match expires {
            Some(e) => e,
            None => DEFAULT_EXPIRES,
        },
    }
}

/// How long a registration is to last. The Contact's `expires` parameter
/// overrides the Expires header; phones unregister by it.
pub fn extract_expires(header: &Option<ContactHeader>, expires: Option<u32>) -> (r: u32)
    ensures
        r == effective_expires(*header, expires),
{
    if let Some(h) = header {
        if let Some(e) = h.expires() {
            return e;
        }
    }
    match expires {
        Some(e) => e,
        None => DEFAULT_EXPIRES,
    }
}

/// The serializations of a Contact by the SIP stack, where they succeeded.
#[derive(Debug)]
pub struct SerializedContact {
    /// The URI as it stands in the Contact header.
    pub uri: Option<String>,
    /// The whole header with the effective expiration.
    pub header: Option<String>,
    /// The URI rewritten for callbacks.
    pub callback: Option<String>,
}

/// Serializations in the model.
pub ghost struct SerializedView {
    pub uri: Option<Seq<char>>,
    pub header: Option<Seq<char>>,
    pub callback: Option<Seq<char>>,
}

impl View for SerializedContact {
    type V = SerializedView;

    open spec fn view(&self) -> SerializedView {
        SerializedView {
            uri: text::opt_text(self.uri),
            header: text::opt_text(self.header),
            callback: text::opt_text(self.callback),
        }
    }
}

/// What a REGISTER Contact means.
pub struct ParsedRegisterContact {
    pub registration: RegisteredContact,
    /// The Contact value of the response.
    pub response_value: String,
}

/// A parsed Contact in the model.
pub ghost struct ParsedContactView {
    pub registration: registrar::ContactView,
    pub response_value: Seq<char>,
}

impl View for ParsedRegisterContact {
    type V = ParsedContactView;

    open spec fn view(&self) -> ParsedContactView {
        ParsedContactView {
            registration: self.registration@,
            response_value: self.response_value@,
        }
    }
}

/// The contents of an optional parsed Contact.
pub open spec fn opt_parsed(parsed: Option<ParsedRegisterContact>) -> Option<ParsedContactView> {
    match parsed {
        Some(p) => Some(p@),
        None => None,
    }
}

/// The contents of an optional source address.
pub open spec fn opt_addr(addr: Option<SourceAddr>) -> Option<registrar::SourceAddrView> {
    match addr {
        Some(a) => Some(a@),
        None => None,
    }
}

/// Whether a Contact header holds a usable SIP URI.
pub open spec fn has_sip_uri(header: Option<ContactHeader>) -> bool {
    &&& header matches Some(h)
    &&& !h.star
    &&& h.uri matches Some(uri)
    &&& contact::is_sip_scheme(uri.scheme@)
    &&& uri.host@.len() > 0
}

/// The advertised URI: as serialized, else the base URI.
pub open spec fn advertised(uri: contact::ContactUriView, serialized: SerializedView) -> Seq<char> {
    match serialized.uri {
        Some(u) => u,
        None => uri.base(),
    }
}

/// The Contact value of the response: as serialized, else made of the URI.
pub open spec fn response_contact(
    uri: contact::ContactUriView,
    serialized: SerializedView,
    expires: u32,
) -> Seq<char> {
    let fallback = "<"@ + advertised(uri, serialized) + ">;expires="@ + text::decimal(
        expires as nat,
    );
    match serialized.header {
        Some(h) => match contact::value_of_header(h) {
            Some(value) => value,
            None => fallback,
        },
        None => fallback,
    }
}

/// The callback URI: as rewritten, else made of user and source address, else
/// the advertised URI where the source is not known.
pub open spec fn callback(
    uri: contact::ContactUriView,
    serialized: SerializedView,
    addr: Option<registrar::SourceAddrView>,
    transport: SipTransport,
) -> Seq<char> {
    match addr {
        Some(a) => match serialized.callback {
            Some(c) => c,
            None => legacy_callback(uri.base(), a, transport),
        },
        None => advertised(uri, serialized),
    }
}

/// What a REGISTER Contact means.
pub open spec fn parsed_contact(
    uri: contact::ContactUriView,
    serialized: SerializedView,
    addr: Option<registrar::SourceAddrView>,
    transport: SipTransport,
    expires: u32,
) -> ParsedContactView {
    ParsedContactView {
        registration: registrar::ContactView {
            advertised_uri: advertised(uri, serialized),
            callback_uri: callback(uri, serialized, addr, transport),
            legacy_base_uri: uri.base(),
            line: contact::param_from(uri.other_params, "line"@, 0),
        },
        response_value: response_contact(uri, serialized, expires),
    }
}

/// Reads a REGISTER Contact. The wildcard and a Contact without a usable SIP
/// URI give nothing; what could not be serialized has a fallback.
pub fn extract_registered_contact(
    header: &Option<ContactHeader>,
    serialized: &SerializedContact,
    source_addr: &Option<SourceAddr>,
    transport: SipTransport,
    expires: u32,
) -> (r: Option<ParsedRegisterContact>)
    ensures
        r is Some <==> has_sip_uri(*header),
        r matches Some(p) ==> p@ == parsed_contact(
            header->0.uri->0@,
            serialized@,
            opt_addr(*source_addr),
            transport,
            expires,
        ),
{
    let Some(h) = header else {
        return None;
    };
    let uri = match h.sip_uri() {
        Ok(Some(uri)) => uri,
        _ => {
            return None;
        },
    };
    let base = uri.legacy_base_uri();
    let line = uri.parameter("line");
    let advertised_uri = match &serialized.uri {
        Some(u) => u.clone(),
        None => base.clone(),
    };
    let printed = match &serialized.header {
        Some(text) => match response_value(text.as_str()) {
            Ok(value) => Some(value),
            Err(_) => None,
        },
        None => None,
    };
    let response = match printed {
        Some(value) => value,
        None => {
            let mut out = to_chars("<");
            push_str(&mut out, advertised_uri.as_str());
            push_str(&mut out, ">;expires=");
            push_chars(&mut out, &decimal_of(expires as u64));
            from_chars(&out)
        },
    };
    assert(response@ == response_contact(uri@, serialized@, expires));
    let callback_uri = match source_addr {
        Some(addr) => match &serialized.callback {
            Some(c) => c.clone(),
            None => build_legacy_callback_uri(base.as_str(), addr, transport),
        },
        None => advertised_uri.clone(),
    };
    Some(
        ParsedRegisterContact {
            registration: RegisteredContact::new(advertised_uri, base, line, callback_uri),
            response_value: response,
        },
    )
}

/// A REGISTER request for the verification task.
pub struct RegisterRequest {
    pub digest_auth: DigestAuthParams,
    pub contact: Option<RegisteredContact>,
    pub source_addr: Option<SourceAddr>,
    pub transport: SipTransport,
    pub expires: u32,
    /// Where set, the result of the verification completes this transaction.
    pub pending_tsx: Option<PendingRegisterTsx>,
}

/// A request in the model.
pub ghost struct RegisterRequestView {
    pub digest_auth: types::DigestView,
    pub contact: Option<registrar::ContactView>,
    pub source_addr: Option<registrar::SourceAddrView>,
    pub transport: SipTransport,
    pub expires: u32,
    pub pending_tsx: Option<types::PendingView>,
}

impl View for RegisterRequest {
    type V = RegisterRequestView;

    open spec fn view(&self) -> RegisterRequestView {
        RegisterRequestView {
            digest_auth: self.digest_auth@,
            contact: match self.contact {
                Some(c) => Some(c@),
                None => None,
            },
            source_addr: opt_addr(self.source_addr),
            transport: self.transport,
            expires: self.expires,
            pending_tsx: types::opt_pending(self.pending_tsx),
        }
    }
}

/// What is to be done once a request was sent to the verification queue:
/// nothing where the queue took it. A request that it did not take is handed
/// back; if a transaction waits for it, that is completed as not authorized.
pub fn dispatch_register_request(sent: Result<(), RegisterRequest>) -> (command: Option<SipCommand>)
    ensures
        match sent {
            Err(request) => match request@.pending_tsx {
                Some(pending) => command is Some && command->0@ == (
                types::SipCommandView::RespondRegister { pending, auth_ok: false }),
                None => command is None,
            },
            Ok(_) => command is None,
        },
{
    match sent {
        Err(request) => match request.pending_tsx {
            Some(pending) => Some(SipCommand::RespondRegister { pending, auth_ok: false }),
            None => None,
        },
        Ok(_) => None,
    }
}

/// A header of a response.
#[derive(Debug)]
pub struct ResponseHeader {
    pub name: String,
    pub value: String,
}

/// A stateless response.
#[derive(Debug)]
pub struct SipResponse {
    pub status: u16,
    /// The reason phrase, where it is not the usual one.
    pub reason: Option<String>,
    pub headers: Vec<ResponseHeader>,
}

/// A response in the model.
pub ghost struct ResponseView {
    pub status: u16,
    pub reason: Option<Seq<char>>,
    pub headers: Seq<contact::ParamView>,
}

impl View for SipResponse {
    type V = ResponseView;

    open spec fn view(&self) -> ResponseView {
        ResponseView {
            status: self.status,
            reason: text::opt_text(self.reason),
            headers: self.headers@.map_values(
                |h: ResponseHeader| contact::ParamView { name: h.name@, value: h.value@ },
            ),
        }
    }
}

/// A response with a reason and no headers.
pub open spec fn simple_response(status: u16, reason: Seq<char>) -> ResponseView {
    ResponseView { status, reason: Some(reason), headers: Seq::empty() }
}

/// The response to an accepted registration.
pub open spec fn ok_response(expires: u32, contact_value: Option<Seq<char>>) -> ResponseView {
    let lasting = contact::ParamView {
        name: "Expires"@,
        value: text::decimal(expires as nat),
    };
    ResponseView {
        status: 200,
        reason: None,
        headers: match contact_value {
            Some(value) => seq![lasting, contact::ParamView { name: "Contact"@, value }],
            None => seq![lasting],
        },
    }
}

/// A response with a reason and no headers.
pub fn simple_response_of(status: u16, reason: &str) -> (r: SipResponse)
    ensures
        r@ == simple_response(status, reason@),
{
    let r = SipResponse { status, reason: Some(reason.to_owned()), headers: Vec::new() };
    assert(r@.headers =~= Seq::<contact::ParamView>::empty());
    r
}

/// The response to an accepted registration. It lists the binding of the
/// phone: strict clients take a response without it for a forced
/// unregistration.
pub fn register_ok(expires: u32, contact_value: &Option<String>) -> (r: SipResponse)
    ensures
        r@ == ok_response(expires, text::opt_text(*contact_value)),
{
    let mut headers: Vec<ResponseHeader> = Vec::new();
    headers.push(
        ResponseHeader {
            name: "Expires".to_owned(),
            value: from_chars(&decimal_of(expires as u64)),
        },
    );
    if let Some(value) = contact_value {
        headers.push(ResponseHeader { name: "Contact".to_owned(), value: value.clone() });
    }
    let r = SipResponse { status: 200, reason: None, headers };
    assert(r@.headers =~= ok_response(expires, text::opt_text(*contact_value)).headers);
    r
}

/// The value of the challenge header for a nonce.
pub open spec fn challenge(nonce: Seq<u8>) -> Seq<char> {
    "Digest realm=\""@ + SIP_REALM@ + "\", nonce=\""@ + auth_cache::hex(nonce)
        + "\", algorithm=MD5, qop=\"auth\""@
}

/// The response that asks for credentials.
pub open spec fn challenge_response(nonce: Seq<u8>) -> ResponseView {
    ResponseView {
        status: 401,
        reason: None,
        headers: seq![
            contact::ParamView { name: "WWW-Authenticate"@, value: challenge(nonce) },
        ],
    }
}

/// The response that asks for credentials, with the nonce in hexadecimal
/// notation.
pub fn challenge_with_nonce(nonce: &Vec<u8>) -> (r: SipResponse)
    ensures
        r@ == challenge_response(nonce@),
{
    let mut value = to_chars("Digest realm=\"");
    push_str(&mut value, SIP_REALM);
    push_str(&mut value, "\", nonce=\"");
    push_chars(&mut value, &hex_of(nonce));
    push_str(&mut value, "\", algorithm=MD5, qop=\"auth\"");
    let mut headers: Vec<ResponseHeader> = Vec::new();
    headers.push(
        ResponseHeader { name: "WWW-Authenticate".to_owned(), value: from_chars(&value) },
    );
    let r = SipResponse { status: 401, reason: None, headers };
    assert(r@.headers =~= challenge_response(nonce@).headers);
    r
}

/// `rand::random`: sixteen random bytes.
#[verifier::external_body]
fn random_nonce() -> (nonce: Vec<u8>)
    ensures
        nonce@.len() == 16,
{
    rand::random::<[u8; 16]>().to_vec()
}

/// Whether a request gets past the bans.
#[derive(Debug)]
pub enum RegisterGate {
    /// Not a REGISTER: other modules handle it.
    PassOn,
    /// Answered with this response; the source is banned for good where
    /// `permanent_ban` says so.
    Reject { response: SipResponse, permanent_ban: bool },
    /// The request is to be counted against the rate limit of its source.
    CountRequest,
    /// The request is looked at.
    Admit,
}

/// The first look at a request. `guarded` says whether bans apply to its
/// source, `banned` whether it is banned, `scanner` whether its user agent is
/// that of a scanner.
pub fn gate_register(is_register: bool, guarded: bool, banned: bool, scanner: bool) -> (gate:
    RegisterGate)
    ensures
        match gate {
            RegisterGate::PassOn => !is_register,
            RegisterGate::Reject { response, permanent_ban } => is_register && ((guarded && banned)
                || scanner) && response@ == simple_response(403, "Forbidden"@) && permanent_ban == (
            guarded && !banned),
            RegisterGate::CountRequest => is_register && guarded && !banned && !scanner,
            RegisterGate::Admit => is_register && !guarded && !scanner,
        },
{
    if !is_register {
        return RegisterGate::PassOn;
    }
    if guarded && banned {
        return RegisterGate::Reject {
            response: simple_response_of(403, "Forbidden"),
            permanent_ban: false,
        };
    }
    if scanner {
        return RegisterGate::Reject {
            response: simple_response_of(403, "Forbidden"),
            permanent_ban: guarded,
        };
    }
    if guarded {
        RegisterGate::CountRequest
    } else {
        RegisterGate::Admit
    }
}

/// The response to a request whose source is over its rate limit; none where
/// it is within the limit.
pub fn limit_register(limited: bool) -> (r: Option<SipResponse>)
    ensures
        match r {
            Some(response) => limited && response@ == simple_response(429, "Too Many Requests"@),
            None => !limited,
        },
{
    if limited {
        Some(simple_response_of(429, "Too Many Requests"))
    } else {
        None
    }
}

/// What the SIP stack is to do with a REGISTER.
pub enum RegisterAction {
    /// Send a stateless response.
    Respond(SipResponse),
    /// Hand the request to the verification task.
    Queue(RegisterRequest),
    /// Create a transaction that waits for the verification.
    Defer { request: RegisterRequest, contact_value: Option<String> },
}

/// An action in the model.
pub ghost enum RegisterActionView {
    Respond(ResponseView),
    Queue(RegisterRequestView),
    Defer { request: RegisterRequestView, contact_value: Option<Seq<char>> },
}

impl View for RegisterAction {
    type V = RegisterActionView;

    open spec fn view(&self) -> RegisterActionView {
        match *self {
            RegisterAction::Respond(r) => RegisterActionView::Respond(r@),
            RegisterAction::Queue(q) => RegisterActionView::Queue(q@),
            RegisterAction::Defer { request, contact_value } => RegisterActionView::Defer {
                request: request@,
                contact_value: text::opt_text(contact_value),
            },
        }
    }
}

pub open spec fn action_views(list: Seq<RegisterAction>) -> Seq<RegisterActionView> {
    list.map_values(|a: RegisterAction| a@)
}

/// What the credential cache says of a request.
#[derive(Debug, Clone, Copy, PartialEq, Eq, Structural)]
pub enum CacheVerdict {
    /// There is no cache.
    NoCache,
    /// The user is in the cooldown.
    Cooldown,
    /// The digest was checked.
    Checked(VerifyResult),
}

/// What is done with a request that carries credentials.
pub open spec fn register_plan(
    verdict: CacheVerdict,
    request: RegisterRequestView,
    contact_value: Option<Seq<char>>,
) -> Seq<RegisterActionView> {
    let ok = RegisterActionView::Respond(ok_response(request.expires, contact_value));
    match verdict {
        CacheVerdict::Cooldown => seq![
            RegisterActionView::Respond(simple_response(429, "Too Many Requests"@)),
        ],
        CacheVerdict::Checked(VerifyResult::Verified) => seq![
            ok,
            RegisterActionView::Queue(request),
        ],
        CacheVerdict::Checked(VerifyResult::Mismatch) => seq![
            RegisterActionView::Respond(simple_response(403, "Forbidden"@)),
            RegisterActionView::Queue(request),
        ],
        CacheVerdict::Checked(VerifyResult::Miss) => seq![
            RegisterActionView::Defer { request, contact_value },
        ],
        CacheVerdict::NoCache => seq![RegisterActionView::Queue(request), ok],
    }
}

/// What is done with a request that carries credentials, by what the cache
/// says of it. A mismatch is queued too: the backend verifies again, since the
/// cache may be stale after a change of the password.
pub fn plan_register(
    verdict: CacheVerdict,
    request: RegisterRequest,
    contact_value: Option<String>,
) -> (actions: Vec<RegisterAction>)
    ensures
        action_views(actions@) == register_plan(verdict, request@, text::opt_text(contact_value)),
{
    let ghost want = register_plan(verdict, request@, text::opt_text(contact_value));
    let mut actions: Vec<RegisterAction> = Vec::new();
    match verdict {
        CacheVerdict::Cooldown => {
            actions.push(RegisterAction::Respond(simple_response_of(429, "Too Many Requests")));
        },
        CacheVerdict::Checked(VerifyResult::Verified) => {
            actions.push(RegisterAction::Respond(register_ok(request.expires, &contact_value)));
            actions.push(RegisterAction::Queue(request));
        },
        CacheVerdict::Checked(VerifyResult::Mismatch) => {
            actions.push(RegisterAction::Respond(simple_response_of(403, "Forbidden")));
            actions.push(RegisterAction::Queue(request));
        },
        CacheVerdict::Checked(VerifyResult::Miss) => {
            actions.push(RegisterAction::Defer { request, contact_value });
        },
        CacheVerdict::NoCache => {
            let ok = register_ok(request.expires, &contact_value);
            actions.push(RegisterAction::Queue(request));
            actions.push(RegisterAction::Respond(ok));
        },
    }
    assert(action_views(actions@) =~= want);
    actions
}

/// What is done once the creation of a waiting transaction came to an end.
pub open spec fn deferred_plan(
    request: RegisterRequestView,
    contact_value: Option<Seq<char>>,
    transaction: Option<u64>,
) -> Seq<RegisterActionView> {
    match transaction {
        Some(t) => seq![
            RegisterActionView::Queue(
                RegisterRequestView {
                    pending_tsx: Some(
                        types::PendingView { transaction: t, expires: request.expires, contact_value },
                    ),
                    ..request
                },
            ),
        ],
        None => register_plan(CacheVerdict::NoCache, request, contact_value),
    }
}

/// What is done once the creation of a waiting transaction came to an end: the
/// request waits for its verification, or is answered at once where there is
/// no transaction.
pub fn plan_deferred_register(
    request: RegisterRequest,
    contact_value: Option<String>,
    transaction: Option<u64>,
) -> (actions: Vec<RegisterAction>)
    ensures
        action_views(actions@) == deferred_plan(
            request@,
            text::opt_text(contact_value),
            transaction,
        ),
{
    match transaction {
        Some(t) => {
            let ghost want = deferred_plan(request@, text::opt_text(contact_value), transaction);
            let expires = request.expires;
            let pending = PendingRegisterTsx { transaction: t, expires, contact_value };
            let waiting = RegisterRequest { pending_tsx: Some(pending), ..request };
            let mut actions: Vec<RegisterAction> = Vec::new();
            actions.push(RegisterAction::Queue(waiting));
            assert(action_views(actions@) =~= want);
            actions
        },
        None => plan_register(CacheVerdict::NoCache, request, contact_value),
    }
}

/// A REGISTER that got past the bans.
pub struct RegisterInput {
    /// The credentials, where the request carries any.
    pub digest: Option<DigestAuthParams>,
    pub contact: Option<ContactHeader>,
    pub serialized: SerializedContact,
    /// The value of the Expires header.
    pub expires_header: Option<u32>,
    pub source_addr: Option<SourceAddr>,
    pub wire: Option<WireTransport>,
}

impl RegisterInput {
    /// How long the registration is to last.
    pub open spec fn expires(self) -> u32 {
        effective_expires(self.contact, self.expires_header)
    }

    /// What the Contact of the request means.
    pub open spec fn parsed(self) -> Option<ParsedContactView> {
        if has_sip_uri(self.contact) {
            Some(
                parsed_contact(
                    self.contact->0.uri->0@,
                    self.serialized@,
                    opt_addr(self.source_addr),
                    transport_of(self.wire),
                    self.expires(),
                ),
            )
        } else {
            None
        }
    }

    /// The digest as it is verified: for the method REGISTER.
    pub open spec fn checked_digest(self) -> types::DigestView {
        types::DigestView { method: "REGISTER"@, ..self.digest->0@ }
    }

    /// The request for the verification task.
    pub open spec fn request(self) -> RegisterRequestView {
        RegisterRequestView {
            digest_auth: self.checked_digest(),
            contact: match self.parsed() {
                Some(p) => Some(p.registration),
                None => None,
            },
            source_addr: opt_addr(self.source_addr),
            transport: transport_of(self.wire),
            expires: self.expires(),
            pending_tsx: None,
        }
    }

    /// The Contact value of the response.
    pub open spec fn contact_value(self) -> Option<Seq<char>> {
        match self.parsed() {
            Some(p) => Some(p.response_value),
            None => None,
        }
    }
}

/// Whether a verdict can be that of a cache on a digest.
pub open spec fn possible_verdict(
    verdict: CacheVerdict,
    cache: Option<auth_cache::AuthCacheView>,
    digest: types::DigestView,
) -> bool {
    match (verdict, cache) {
        (CacheVerdict::NoCache, None) => true,
        (CacheVerdict::Cooldown, Some(c)) => c.possible_cooldown(digest.username, true),
        (CacheVerdict::Checked(r), Some(c)) => c.possible_cooldown(digest.username, false)
            && c.possible_result(digest, r),
        _ => false,
    }
}

/// The verdict that follows from what a cache held for the user of a digest:
/// the failures in a row and the credentials.
pub open spec fn held_verdict(
    cache: Option<auth_cache::AuthCacheView>,
    failures: Option<u32>,
    cached: Option<auth_cache::CachedAuthView>,
    digest: types::DigestView,
) -> CacheVerdict {
    match cache {
        Some(c) => if auth_cache::cooldown(failures, c.max_failures) {
            CacheVerdict::Cooldown
        } else {
            CacheVerdict::Checked(auth_cache::judged(cached, digest))
        },
        None => CacheVerdict::NoCache,
    }
}

/// What a cache holds once a verdict was given: no entry that did not match.
pub open spec fn after_verdict(
    cache: Option<auth_cache::AuthCacheView>,
    verdict: CacheVerdict,
    digest: types::DigestView,
) -> Option<auth_cache::AuthCacheView> {
    if verdict == CacheVerdict::Checked(VerifyResult::Mismatch) {
        Some(cache->0.discarded(digest.username))
    } else {
        cache
    }
}

/// The verdict on a digest, from what the credential cache held for its user.
/// The cooldown comes first. An entry that does not match is discarded.
pub fn consult_held(
    cache: &mut Option<AuthCache>,
    failures: Option<u32>,
    cached: &Option<CachedAuth>,
    digest: &DigestAuthParams,
) -> (verdict: CacheVerdict)
    ensures
        verdict == held_verdict(
            opt_cache(*old(cache)),
            failures,
            auth_cache::entry_view(*cached),
            digest@,
        ),
        opt_cache(*final(cache)) == after_verdict(opt_cache(*old(cache)), verdict, digest@),
{
    match cache.take() {
        Some(mut c) => {
            let result = c.consult_entry(failures, cached, digest);
            *cache = Some(c);
            match result {
                Some(result) => CacheVerdict::Checked(result),
                None => CacheVerdict::Cooldown,
            }
        },
        None => CacheVerdict::NoCache,
    }
}

/// Asks the credential cache about a digest. An entry that does not match is
/// discarded. What the cache still holds is up to the time and the room that it
/// has; `consult_held` takes what it held.
pub fn consult_cache(cache: &mut Option<AuthCache>, digest: &DigestAuthParams) -> (verdict:
    CacheVerdict)
    ensures
        possible_verdict(verdict, opt_cache(*old(cache)), digest@),
        opt_cache(*final(cache)) == after_verdict(opt_cache(*old(cache)), verdict, digest@),
{
    let (failures, cached) = match &*cache {
        Some(c) => c.held(digest.username.as_str()),
        None => (None, None),
    };
    consult_held(cache, failures, &cached, digest)
}

/// The contents of an optional cache.
pub open spec fn opt_cache(cache: Option<AuthCache>) -> Option<auth_cache::AuthCacheView> {
    match cache {
        Some(c) => Some(c@),
        None => None,
    }
}

/// Answers a REGISTER that carries credentials, by the verdict of the cache on
/// them.
pub fn answer_register(input: RegisterInput, verdict: CacheVerdict) -> (actions: Vec<
    RegisterAction,
>)
    requires
        input.digest is Some,
    ensures
        action_views(actions@) == register_plan(verdict, input.request(), input.contact_value()),
{
    let ghost whole = input;
    let RegisterInput { digest, contact, serialized, expires_header, source_addr, wire } = input;
    let mut params = digest.unwrap();
    params.method = "REGISTER".to_owned();
    let expires = extract_expires(&contact, expires_header);
    let transport = detect_transport(wire);
    let parsed = extract_registered_contact(
        &contact,
        &serialized,
        &source_addr,
        transport,
        expires,
    );
    assert(opt_parsed(parsed) == whole.parsed());
    let (registration, contact_value) = match parsed {
        Some(p) => (Some(p.registration), Some(p.response_value)),
        None => (None, None),
    };
    let request = RegisterRequest {
        digest_auth: params,
        contact: registration,
        source_addr,
        transport,
        expires,
        pending_tsx: None,
    };
    assert(request@ == whole.request());
    plan_register(verdict, request, contact_value)
}

/// Answers a REGISTER that got past the bans: a challenge where it carries no
/// credentials, else what `answer_register` says for the verdict of the cache.
pub fn on_rx_request_cb(input: RegisterInput, cache: &mut Option<AuthCache>) -> (actions: Vec<
    RegisterAction,
>)
    ensures
        input.digest is None ==> exists|nonce: Seq<u8>|
            nonce.len() == 16 && action_views(actions@) == seq![
                RegisterActionView::Respond(#[trigger] challenge_response(nonce)),
            ],
        input.digest is None ==> opt_cache(*final(cache)) == opt_cache(*old(cache)),
        input.digest is Some ==> exists|verdict: CacheVerdict|
            {
                &&& #[trigger] possible_verdict(
                    verdict,
                    opt_cache(*old(cache)),
                    input.checked_digest(),
                )
                &&& action_views(actions@) == register_plan(
                    verdict,
                    input.request(),
                    input.contact_value(),
                )
                &&& opt_cache(*final(cache)) == after_verdict(
                    opt_cache(*old(cache)),
                    verdict,
                    input.checked_digest(),
                )
            },
{
    let ghost whole = input;
    let RegisterInput { digest, contact, serialized, expires_header, source_addr, wire } = input;
    let mut params = match digest {
        Some(params) => params,
        None => {
            let nonce = random_nonce();
            let mut actions: Vec<RegisterAction> = Vec::new();
            actions.push(RegisterAction::Respond(challenge_with_nonce(&nonce)));
            assert(action_views(actions@) =~= seq![
                RegisterActionView::Respond(challenge_response(nonce@)),
            ]);
            return actions;
        },
    };
    params.method = "REGISTER".to_owned();
    assert(params@ == whole.checked_digest());
    let verdict = consult_cache(cache, &params);
    answer_register(
        RegisterInput {
            digest: Some(params),
            contact,
            serialized,
            expires_header,
            source_addr,
            wire,
        },
        verdict,
    )
}

// Laws

/// The number of responses among actions.
pub open spec fn responses(actions: Seq<RegisterActionView>) -> nat
    decreases actions.len(),
{
    if actions.len() == 0 {
        0
    } else {
        responses(actions.drop_last()) + (if actions.last() is Respond {
            1nat
        } else {
            0nat
        })
    }
}

/// The number of deferrals among actions.
pub open spec fn deferrals(actions: Seq<RegisterActionView>) -> nat
    decreases actions.len(),
{
    if actions.len() == 0 {
        0
    } else {
        deferrals(actions.drop_last()) + (if actions.last() is Defer {
            1nat
        } else {
            0nat
        })
    }
}

/// Every REGISTER with credentials is answered once: there is exactly one
/// response or exactly one deferral, never both.
pub proof fn law_register_is_answered_once(
    verdict: CacheVerdict,
    request: RegisterRequestView,
    contact_value: Option<Seq<char>>,
)
    ensures
        responses(register_plan(verdict, request, contact_value)) + deferrals(
            register_plan(verdict, request, contact_value),
        ) == 1,
{
    reveal_with_fuel(responses, 3);
    reveal_with_fuel(deferrals, 3);
}

/// A user who failed too often is turned away: once there are as many failures
/// in a row as the limit allows and the cache holds their count, a REGISTER is
/// answered with 429 and nothing else is done, whatever credentials it carries.
pub proof fn law_repeated_failures_are_turned_away(
    cache: auth_cache::AuthCacheView,
    times: nat,
    cached: Option<auth_cache::CachedAuthView>,
    request: RegisterRequestView,
    contact_value: Option<Seq<char>>,
)
    requires
        cache.max_failures <= times,
        auth_cache::counted(cache.failures_of(request.digest_auth.username)) - 1 + times
            <= u32::MAX,
    ensures
        ({
            let username = request.digest_auth.username;
            let after = cache.after_failures(username, times);
            let verdict = held_verdict(
                Some(after),
                after.failures_of(username),
                cached,
                request.digest_auth,
            );
            &&& auth_cache::cooldown(after.failures_of(username), after.max_failures)
            &&& register_plan(verdict, request, contact_value) == seq![
                RegisterActionView::Respond(simple_response(429, "Too Many Requests"@)),
            ]
        }),
{
    auth_cache::law_failures_in_a_row_cool_down(cache, request.digest_auth.username, times);
}

/// Credentials that the cache holds decide at once, outside the cooldown: a
/// REGISTER that matches them is answered with 200, one that does not with 403.
/// Without them it waits for the backend. The first two are verified by the
/// backend too.
pub proof fn law_held_credentials_are_answered_at_once(
    cache: auth_cache::AuthCacheView,
    failures: Option<u32>,
    cached: Option<auth_cache::CachedAuthView>,
    request: RegisterRequestView,
    contact_value: Option<Seq<char>>,
)
    requires
        !auth_cache::cooldown(failures, cache.max_failures),
    ensures
        register_plan(
            held_verdict(Some(cache), failures, cached, request.digest_auth),
            request,
            contact_value,
        ) == (match cached {
            Some(entry) => seq![
                RegisterActionView::Respond(
                    if auth_cache::digest_matches(entry.ha1, request.digest_auth) {
                        ok_response(request.expires, contact_value)
                    } else {
                        simple_response(403, "Forbidden"@)
                    },
                ),
                RegisterActionView::Queue(request),
            ],
            None => seq![RegisterActionView::Defer { request, contact_value }],
        }),
{
}

/// A deferred REGISTER is never lost: it is queued with its transaction, or
/// answered at once and queued without one.
pub proof fn law_deferral_is_resolved(
    request: RegisterRequestView,
    contact_value: Option<Seq<char>>,
    transaction: Option<u64>,
)
    ensures
        ({
            let plan = deferred_plan(request, contact_value, transaction);
            &&& deferrals(plan) == 0
            &&& responses(plan) == (if transaction is Some {
                0nat
            } else {
                1nat
            })
            &&& plan.contains(
                RegisterActionView::Queue(
                    match transaction {
                        Some(t) => RegisterRequestView {
                            pending_tsx: Some(
                                types::PendingView {
                                    transaction: t,
                                    expires: request.expires,
                                    contact_value,
                                },
                            ),
                            ..request
                        },
                        None => request,
                    },
                ),
            )
        }),
{
    reveal_with_fuel(responses, 3);
    reveal_with_fuel(deferrals, 3);
    let plan = deferred_plan(request, contact_value, transaction);
    assert(plan[0] is Queue);
}

/// Whether an action is no 200 response, or one that names a Contact value.
pub open spec fn names_contact(action: RegisterActionView, value: Seq<char>) -> bool {
    action matches RegisterActionView::Respond(r) ==> (r.status == 200 ==> r.headers.contains(
        contact::ParamView { name: "Contact"@, value },
    ))
}

/// An accepted registration lists the phone's binding: where the request has a
/// usable Contact, every 200 response names it, also one that comes after the
/// creation of a waiting transaction.
pub proof fn law_accepted_register_lists_contact(
    verdict: CacheVerdict,
    request: RegisterRequestView,
    value: Seq<char>,
    transaction: Option<u64>,
)
    ensures
        forall|k: int|
            0 <= k < register_plan(verdict, request, Some(value)).len() ==> names_contact(
                #[trigger] register_plan(verdict, request, Some(value))[k],
                value,
            ),
        forall|k: int|
            0 <= k < deferred_plan(request, Some(value), transaction).len() ==> names_contact(
                #[trigger] deferred_plan(request, Some(value), transaction)[k],
                value,
            ),
{
    let headers = ok_response(request.expires, Some(value)).headers;
    assert(headers[1] == contact::ParamView { name: "Contact"@, value });
}

} // verus!
