//! SIP registrations: which phones are online, and where a Discord user's
//! phones can be reached.

use crate::routing::{RegistrationContactDiagnostics, RegistrationDiagnostics};
use crate::routing;
use crate::table;
use crate::table::{table_get, table_insert, table_keys, table_len, table_remove, Copied, Stored};
use crate::text;
use crate::text::{
    copy_opt, decimal_of, find, find_char, from_chars, push_chars, push_str, same_opt, same_str,
    slice_of, to_chars, to_lower,
};
use crate::time;
use crate::time::Instant;
use dashmap::DashMap;
use vstd::prelude::*;

verus! {

broadcast use vstd::string::group_string_axioms;

/// Transport protocol used for a SIP registration.
#[derive(Debug, Clone, Copy, PartialEq, Eq, Structural)]
pub enum SipTransport {
    Udp,
    Tcp,
    Tls,
}

/// The name of a transport.
pub open spec fn transport_name(transport: SipTransport) -> Seq<char> {
    match transport {
        SipTransport::Udp => "udp"@,
        SipTransport::Tcp => "tcp"@,
        SipTransport::Tls => "tls"@,
    }
}

impl SipTransport {
    /// The name of the transport.
    pub fn name(&self) -> (name: &'static str)
        ensures
            name@ == transport_name(*self),
    {
        match self {
            SipTransport::Udp => "udp",
            SipTransport::Tcp => "tcp",
            SipTransport::Tls => "tls",
        }
    }
}

/// The address that a request came from.
#[derive(Debug)]
pub struct SourceAddr {
    /// The IP address as text.
    pub ip: String,
    pub port: u16,
    pub is_ipv6: bool,
}

/// A source address in the model.
pub ghost struct SourceAddrView {
    pub ip: Seq<char>,
    pub port: u16,
    pub is_ipv6: bool,
}

impl View for SourceAddr {
    type V = SourceAddrView;

    open spec fn view(&self) -> SourceAddrView {
        SourceAddrView { ip: self.ip@, port: self.port, is_ipv6: self.is_ipv6 }
    }
}

/// The notation of a source address: host and port, an IPv6 host in brackets.
pub open spec fn addr_text(addr: SourceAddrView) -> Seq<char> {
    if addr.is_ipv6 {
        "["@ + addr.ip + "]:"@ + text::decimal(addr.port as nat)
    } else {
        addr.ip + ":"@ + text::decimal(addr.port as nat)
    }
}

impl Clone for SourceAddr {
    fn clone(&self) -> (out: SourceAddr)
        ensures
            out@ == self@,
    {
        SourceAddr { ip: self.ip.clone(), port: self.port, is_ipv6: self.is_ipv6 }
    }
}

impl SourceAddr {
    /// The notation of the address.
    pub fn to_text(&self) -> (out: String)
        ensures
            out@ == addr_text(self@),
    {
        let mut out: Vec<char> = Vec::new();
        if self.is_ipv6 {
            push_str(&mut out, "[");
            push_str(&mut out, self.ip.as_str());
            push_str(&mut out, "]:");
        } else {
            push_str(&mut out, self.ip.as_str());
            push_str(&mut out, ":");
        }
        push_chars(&mut out, &decimal_of(self.port as u64));
        assert(out@ =~= addr_text(self@));
        from_chars(&out)
    }
}

/// Parsed data from a REGISTER Contact.
///
/// The identity of a binding is its base URI without parameters, so that
/// phones whose parameters change are still recognised, together with the
/// opaque `line` token, so that several registrations of one base URI are kept
/// apart.
pub struct RegisteredContact {
    advertised_uri: String,
    callback_uri: String,
    legacy_base_uri: String,
    line: Option<String>,
}

/// A registered Contact in the model.
pub ghost struct ContactView {
    pub advertised_uri: Seq<char>,
    pub callback_uri: Seq<char>,
    pub legacy_base_uri: Seq<char>,
    pub line: Option<Seq<char>>,
}

impl ContactView {
    /// Whether two Contacts are the same binding.
    pub open spec fn same_binding(self, other: ContactView) -> bool {
        self.legacy_base_uri == other.legacy_base_uri && self.line == other.line
    }
}

impl View for RegisteredContact {
    type V = ContactView;

    closed spec fn view(&self) -> ContactView {
        ContactView {
            advertised_uri: self.advertised_uri@,
            callback_uri: self.callback_uri@,
            legacy_base_uri: self.legacy_base_uri@,
            line: text::opt_text(self.line),
        }
    }
}

impl Clone for RegisteredContact {
    fn clone(&self) -> (out: RegisteredContact)
        ensures
            out@ == self@,
    {
        RegisteredContact {
            advertised_uri: self.advertised_uri.clone(),
            callback_uri: self.callback_uri.clone(),
            legacy_base_uri: self.legacy_base_uri.clone(),
            line: copy_opt(&self.line),
        }
    }
}

impl RegisteredContact {
    pub fn new(
        advertised_uri: String,
        legacy_base_uri: String,
        line: Option<String>,
        callback_uri: String,
    ) -> (contact: RegisteredContact)
        ensures
            contact@ == (ContactView {
                advertised_uri: advertised_uri@,
                callback_uri: callback_uri@,
                legacy_base_uri: legacy_base_uri@,
                line: text::opt_text(line),
            }),
    {
        RegisteredContact { advertised_uri, callback_uri, legacy_base_uri, line }
    }

    /// The URI as the phone gave it.
    pub fn advertised_uri(&self) -> (uri: &str)
        ensures
            uri@ == self@.advertised_uri,
    {
        self.advertised_uri.as_str()
    }

    /// The URI under which the phone can be called.
    pub fn callback_uri(&self) -> (uri: &str)
        ensures
            uri@ == self@.callback_uri,
    {
        self.callback_uri.as_str()
    }

    /// The advertised URI without a password, for display.
    pub fn display(&self) -> (out: String)
        ensures
            out@ == redacted(self@.advertised_uri),
    {
        redact_sip_uri_credentials(self.advertised_uri.as_str())
    }


    /// Whether another Contact is the same binding.
    pub fn is_same_binding(&self, other: &RegisteredContact) -> (r: bool)
        ensures
            r == self@.same_binding(other@),
    {
        same_str(self.legacy_base_uri.as_str(), other.legacy_base_uri.as_str()) && same_opt(
            &self.line,
            &other.line,
        )
    }
}

/// A single SIP registration (one phone).
pub struct Registration {
    pub sip_username: String,
    /// The Discord user. Display names are not used for routing, since they can
    /// change while a phone remains registered.
    pub discord_user_id: String,
    pub contact: RegisteredContact,
    /// Where the request came from.
    pub source_addr: SourceAddr,
    pub transport: SipTransport,
    pub expires_at: Instant,
    /// When this registration was made or refreshed.
    pub registered_at: Instant,
}

/// A registration in the model.
pub ghost struct RegistrationView {
    pub sip_username: Seq<char>,
    pub discord_user_id: Seq<char>,
    pub contact: ContactView,
    pub source_addr: SourceAddrView,
    pub transport: SipTransport,
    pub expires_at: Instant,
    pub registered_at: Instant,
}

impl View for Registration {
    type V = RegistrationView;

    open spec fn view(&self) -> RegistrationView {
        RegistrationView {
            sip_username: self.sip_username@,
            discord_user_id: self.discord_user_id@,
            contact: self.contact@,
            source_addr: self.source_addr@,
            transport: self.transport,
            expires_at: self.expires_at,
            registered_at: self.registered_at,
        }
    }
}

impl Clone for Registration {
    fn clone(&self) -> (out: Registration)
        ensures
            out@ == self@,
    {
        Registration {
            sip_username: self.sip_username.clone(),
            discord_user_id: self.discord_user_id.clone(),
            contact: self.contact.clone(),
            source_addr: self.source_addr.clone(),
            transport: self.transport,
            expires_at: self.expires_at,
            registered_at: self.registered_at,
        }
    }
}

pub open spec fn registration_views(list: Seq<Registration>) -> Seq<RegistrationView> {
    list.map_values(|r: Registration| r@)
}

/// The registrations of one SIP username.
pub struct Bindings {
    pub list: Vec<Registration>,
}

impl View for Bindings {
    type V = Seq<RegistrationView>;

    open spec fn view(&self) -> Seq<RegistrationView> {
        registration_views(self.list@)
    }
}

impl Copied for Bindings {
    fn copied(&self) -> (out: Bindings) {
        let mut list: Vec<Registration> = Vec::new();
        for i in 0..self.list.len()
            invariant
                registration_views(list@) == self@.take(i as int),
        {
            let ghost before = list@;
            let r = self.list[i].clone();
            list.push(r);
            assert(registration_views(list@) =~= registration_views(before).push(r@));
            assert(self@.take(i + 1) =~= self@.take(i as int).push(self@[i as int]));
        }
        assert(self@.take(self@.len() as int) =~= self@);
        Bindings { list }
    }
}

/// The contents of the table of registrations.
pub uninterp spec fn binding_entries(table: DashMap<String, Bindings>) -> Map<
    Seq<char>,
    Seq<RegistrationView>,
>;

impl Stored<String> for Bindings {
    open spec fn entries(table: DashMap<String, Bindings>) -> Map<Seq<char>, Seq<RegistrationView>> {
        binding_entries(table)
    }
}

/// `DashMap::new`: an empty table.
#[verifier::external_body]
fn new_binding_table() -> (table: DashMap<String, Bindings>)
    ensures
        binding_entries(table) == (Map::<Seq<char>, Seq<RegistrationView>>::empty()),
{
    DashMap::new()
}

/// The contents of the table of user mappings.
pub uninterp spec fn text_entries(table: DashMap<String, String>) -> Map<Seq<char>, Seq<char>>;

impl Stored<String> for String {
    open spec fn entries(table: DashMap<String, String>) -> Map<Seq<char>, Seq<char>> {
        text_entries(table)
    }
}

impl Copied for String {
    fn copied(&self) -> (out: String) {
        self.clone()
    }
}

/// `DashMap::new`: an empty table.
#[verifier::external_body]
fn new_text_table() -> (table: DashMap<String, String>)
    ensures
        text_entries(table) == (Map::<Seq<char>, Seq<char>>::empty()),
{
    DashMap::new()
}

/// The SIP registrations of all users.
pub struct Registrar {
    /// The registrations of a SIP username, one for each phone.
    pub registrations: DashMap<String, Bindings>,
    /// The SIP username under which a Discord user is registered.
    pub user_to_sip: DashMap<String, String>,
}

/// The registrar in the model.
pub ghost struct RegistrarView {
    pub registrations: Map<Seq<char>, Seq<RegistrationView>>,
    pub user_to_sip: Map<Seq<char>, Seq<char>>,
}

impl View for Registrar {
    type V = RegistrarView;

    open spec fn view(&self) -> RegistrarView {
        RegistrarView {
            registrations: binding_entries(self.registrations),
            user_to_sip: text_entries(self.user_to_sip),
        }
    }
}

/// The first registration at or after `i` that is the binding of `contact`, or
/// the length.
pub open spec fn binding_index(
    list: Seq<RegistrationView>,
    contact: ContactView,
    i: int,
) -> int
    decreases list.len() - i,
{
    if i < 0 || i >= list.len() {
        list.len() as int
    } else if list[i].contact.same_binding(contact) {
        i
    } else {
        binding_index(list, contact, i + 1)
    }
}

pub proof fn lemma_binding_index(list: Seq<RegistrationView>, contact: ContactView, i: int)
    requires
        0 <= i <= list.len(),
    ensures
        i <= binding_index(list, contact, i) <= list.len(),
        binding_index(list, contact, i) < list.len() ==> list[binding_index(
            list,
            contact,
            i,
        )].contact.same_binding(contact),
        forall|j: int|
            i <= j < binding_index(list, contact, i)
                ==> !(#[trigger] list[j]).contact.same_binding(contact),
    decreases list.len() - i,
{
    if i < list.len() && !list[i].contact.same_binding(contact) {
        lemma_binding_index(list, contact, i + 1);
    }
}

/// Whether a list holds a registration of a user.
pub open spec fn has_user(list: Seq<RegistrationView>, user: Seq<char>) -> bool {
    exists|i: int| 0 <= i < list.len() && (#[trigger] list[i]).discord_user_id == user
}

/// The registrations that are not the binding of `contact`.
pub open spec fn other_binding(contact: ContactView) -> spec_fn(RegistrationView) -> bool {
    |r: RegistrationView| !r.contact.same_binding(contact)
}

/// The registrations that have not expired.
pub open spec fn unexpired(now: Instant) -> spec_fn(RegistrationView) -> bool {
    |r: RegistrationView| r.expires_at.nanos > now.nanos
}

/// The unexpired registrations of a user.
pub open spec fn active_for(user: Seq<char>, now: Instant) -> spec_fn(RegistrationView) -> bool {
    |r: RegistrationView| r.expires_at.nanos > now.nanos && r.discord_user_id == user
}

impl RegistrarView {
    /// The registrations of a SIP username.
    pub open spec fn bindings(self, name: Seq<char>) -> Seq<RegistrationView> {
        if self.registrations.contains_key(name) {
            self.registrations[name]
        } else {
            Seq::empty()
        }
    }

    /// Without the mapping of a user to a SIP username that holds no
    /// registration of that user.
    pub open spec fn without_unused(self, user: Seq<char>, name: Seq<char>) -> RegistrarView {
        if !has_user(self.bindings(name), user) && self.user_to_sip.contains_key(user)
            && self.user_to_sip[user] == name {
            RegistrarView { user_to_sip: self.user_to_sip.remove(user), ..self }
        } else {
            self
        }
    }

    /// What adding a registration does: a refresh of its binding if there is
    /// one, else a new entry. The user is mapped to the SIP username; a user
    /// whose phone changed hands loses an unused mapping.
    pub open spec fn add(self, reg: RegistrationView) -> RegistrarView {
        let name = reg.sip_username;
        let list = self.bindings(name);
        let i = binding_index(list, reg.contact, 0);
        if i < list.len() {
            let refreshed = RegistrationView { sip_username: list[i].sip_username, ..reg };
            let updated = RegistrarView {
                registrations: self.registrations.insert(name, list.update(i, refreshed)),
                user_to_sip: self.user_to_sip.insert(reg.discord_user_id, name),
            };
            if list[i].discord_user_id != reg.discord_user_id {
                updated.without_unused(list[i].discord_user_id, name)
            } else {
                updated
            }
        } else {
            RegistrarView {
                registrations: self.registrations.insert(name, list.push(reg)),
                user_to_sip: self.user_to_sip.insert(reg.discord_user_id, name),
            }
        }
    }

    /// The registrations of a SIP username after one binding, or all, left.
    pub open spec fn remaining(self, name: Seq<char>, contact: Option<ContactView>) -> Seq<
        RegistrationView,
    > {
        match contact {
            Some(c) => self.bindings(name).filter(other_binding(c)),
            None => Seq::empty(),
        }
    }

    /// The user mappings that stay when `list` becomes `rest` under `name`:
    /// those of users that are not in `list`, are still in `rest` or are
    /// mapped elsewhere.
    pub open spec fn kept_users(
        self,
        name: Seq<char>,
        list: Seq<RegistrationView>,
        rest: Seq<RegistrationView>,
    ) -> Map<Seq<char>, Seq<char>> {
        self.user_to_sip.restrict(
            self.user_to_sip.dom().filter(
                |user: Seq<char>|
                    !has_user(list, user) || has_user(rest, user) || self.user_to_sip[user]
                        != name,
            ),
        )
    }

    /// The registrar with `rest` as the registrations of a SIP username.
    pub open spec fn with_bindings(self, name: Seq<char>, rest: Seq<RegistrationView>) -> Map<
        Seq<char>,
        Seq<RegistrationView>,
    > {
        if rest.len() == 0 {
            self.registrations.remove(name)
        } else {
            self.registrations.insert(name, rest)
        }
    }

    /// What removing one binding, or all bindings, of a SIP username does.
    pub open spec fn remove(self, name: Seq<char>, contact: Option<ContactView>) -> RegistrarView {
        if self.registrations.contains_key(name) {
            let rest = self.remaining(name, contact);
            RegistrarView {
                registrations: self.with_bindings(name, rest),
                user_to_sip: self.kept_users(name, self.bindings(name), rest),
            }
        } else {
            self
        }
    }

    /// The unexpired registrations of a user, under the SIP username that the
    /// user is mapped to.
    pub open spec fn active(self, user: Seq<char>, now: Instant) -> Seq<RegistrationView> {
        if self.user_to_sip.contains_key(user) {
            self.bindings(self.user_to_sip[user]).filter(active_for(user, now))
        } else {
            Seq::empty()
        }
    }
}

pub proof fn lemma_filter_step(
    s: Seq<RegistrationView>,
    pred: spec_fn(RegistrationView) -> bool,
    n: int,
)
    requires
        0 <= n < s.len(),
    ensures
        s.take(n + 1).filter(pred) == (if pred(s[n]) {
            s.take(n).filter(pred).push(s[n])
        } else {
            s.take(n).filter(pred)
        }),
{
    reveal(Seq::filter);
    assert(s.take(n + 1).drop_last() =~= s.take(n));
    assert(s.take(n + 1).last() == s[n]);
}

/// What a URI looks like without the password of its user part. The scheme may
/// stand anywhere in the text, in any case.
pub open spec fn redacted(uri: Seq<char>) -> Seq<char> {
    let lower = text::lower(uri);
    let secure = text::find_from(lower, "sips:"@, 0);
    let plain = text::find_from(lower, "sip:"@, 0);
    match (secure, plain) {
        (Some(i), _) => redacted_from(uri, i + 5),
        (None, Some(i)) => redacted_from(uri, i + 4),
        (None, None) => uri,
    }
}

/// The same for the user part that begins at `start`.
pub open spec fn redacted_from(uri: Seq<char>, start: int) -> Seq<char> {
    let at = text::next_char(uri, '@', start);
    let colon = text::next_char(uri, ':', start);
    if at < uri.len() && colon < at {
        uri.take(colon + 1) + "[redacted]"@ + uri.skip(at)
    } else {
        uri
    }
}

fn redact_from(uri: &Vec<char>, start: usize) -> (out: Vec<char>)
    requires
        start <= uri@.len(),
    ensures
        out@ == redacted_from(uri@, start as int),
{
    let at = find_char(uri, '@', start);
    let colon = find_char(uri, ':', start);
    if at < uri.len() && colon < at {
        let mut out = slice_of(uri, 0, colon + 1);
        push_str(&mut out, "[redacted]");
        let rest = slice_of(uri, at, uri.len());
        push_chars(&mut out, &rest);
        assert(out@ =~= redacted_from(uri@, start as int));
        out
    } else {
        text::copy_of(uri)
    }
}

/// A SIP URI without the password of its user part.
pub fn redact_sip_uri_credentials(uri: &str) -> (out: String)
    ensures
        out@ == redacted(uri@),
{
    let chars = to_chars(uri);
    let lower = to_lower(&chars);
    let secure = to_chars("sips:");
    let plain = to_chars("sip:");
    proof {
        reveal_strlit("sips:");
        reveal_strlit("sip:");
        text::lemma_find_from(lower@, "sips:"@, 0);
        text::lemma_find_from(lower@, "sip:"@, 0);
    }
    let end: usize = chars.len();
    match find(&lower, &secure, 0) {
        Some(i) => {
            assert(i + 5 <= end);
            from_chars(&redact_from(&chars, i + 5))
        },
        None => match find(&lower, &plain, 0) {
            Some(i) => {
                assert(i + 4 <= end);
                from_chars(&redact_from(&chars, i + 4))
            },
            None => from_chars(&chars),
        },
    }
}

impl Registrar {
    pub fn new() -> (registrar: Registrar)
        ensures
            registrar@.registrations == (Map::<Seq<char>, Seq<RegistrationView>>::empty()),
            registrar@.user_to_sip == (Map::<Seq<char>, Seq<char>>::empty()),
    {
        Registrar { registrations: new_binding_table(), user_to_sip: new_text_table() }
    }

    fn remove_user_mapping_if_unused(&mut self, discord_user_id: &str, sip_username: &str)
        ensures
            final(self)@ == old(self)@.without_unused(discord_user_id@, sip_username@),
    {
        let user = discord_user_id.to_owned();
        let name = sip_username.to_owned();
        let still_registered = match table_get(&self.registrations, &name) {
            Some(bindings) => holds_user(&bindings, discord_user_id),
            None => false,
        };
        if !still_registered {
            if let Some(mapped) = table_get(&self.user_to_sip, &user) {
                if same_str(mapped.as_str(), sip_username) {
                    let _ = table_remove(&mut self.user_to_sip, &user);
                }
            }
        }
    }

    /// Adds a registration, or refreshes the one of the same binding. The
    /// source address may change when a NAT mapping is refreshed.
    pub fn add_registration(&mut self, reg: Registration)
        ensures
            final(self)@ == old(self)@.add(reg@),
    {
        let ghost before = self@;
        let ghost rv = reg@;
        let name = reg.sip_username.clone();
        let user = reg.discord_user_id.clone();
        let mut bindings = match table_remove(&mut self.registrations, &name) {
            Some(bindings) => bindings,
            None => {
                let b = Bindings { list: Vec::new() };
                assert(b@ =~= Seq::<RegistrationView>::empty());
                b
            },
        };
        let ghost list = bindings@;
        assert(list == before.bindings(rv.sip_username));
        let i = find_binding(&bindings, &reg.contact);
        if i < bindings.list.len() {
            let old_user = bindings.list[i].discord_user_id.clone();
            let kept_name = bindings.list[i].sip_username.clone();
            let user_changed = !same_str(old_user.as_str(), reg.discord_user_id.as_str());
            let refreshed = Registration { sip_username: kept_name, ..reg };
            let ghost fresh = refreshed@;
            let ghost raw = bindings.list@;
            bindings.list.set(i, refreshed);
            assert(bindings@ =~= list.update(i as int, fresh));
            table_insert(&mut self.registrations, name.clone(), bindings);
            table_insert(&mut self.user_to_sip, user, name.clone());
            assert(self@.registrations =~= before.registrations.insert(
                rv.sip_username,
                list.update(i as int, fresh),
            ));
            if user_changed {
                self.remove_user_mapping_if_unused(old_user.as_str(), name.as_str());
            }
        } else {
            let ghost raw = bindings.list@;
            bindings.list.push(reg);
            assert(bindings@ =~= list.push(rv));
            table_insert(&mut self.registrations, name.clone(), bindings);
            table_insert(&mut self.user_to_sip, user, name);
            assert(self@.registrations =~= before.registrations.insert(
                rv.sip_username,
                list.push(rv),
            ));
        }
    }

}

/// Whether a list holds a registration of a user.
fn holds_user(bindings: &Bindings, user: &str) -> (r: bool)
    ensures
        r == has_user(bindings@, user@),
{
    for i in 0..bindings.list.len()
        invariant
            forall|j: int| 0 <= j < i ==> (#[trigger] bindings@[j]).discord_user_id != user@,
    {
        assert(bindings@[i as int] == bindings.list@[i as int]@);
        if same_str(bindings.list[i].discord_user_id.as_str(), user) {
            return true;
        }
    }
    false
}

fn find_binding(bindings: &Bindings, contact: &RegisteredContact) -> (i: usize)
    ensures
        i == binding_index(bindings@, contact@, 0),
        i <= bindings.list@.len(),
{
    let mut i: usize = 0;
    while i < bindings.list.len()
        invariant
            i <= bindings.list@.len(),
            binding_index(bindings@, contact@, 0) == binding_index(bindings@, contact@, i as int),
        decreases bindings.list@.len() - i,
    {
        assert(bindings@[i as int] == bindings.list@[i as int]@);
        if bindings.list[i].contact.is_same_binding(contact) {
            return i;
        }
        i = i + 1;
    }
    i
}


impl RegistrarView {
    /// Whether a SIP username has registrations and all of them have expired.
    pub open spec fn all_expired(self, name: Seq<char>, now: Instant) -> bool {
        self.bindings(name).len() > 0 && self.bindings(name).filter(unexpired(now)).len() == 0
    }

    /// What the expiry of the registrations of the SIP usernames in `done`
    /// does. A username whose last registration expires leaves, with the
    /// mappings of the users that were registered under it.
    pub open spec fn expire_some(self, done: Set<Seq<char>>, now: Instant) -> RegistrarView {
        RegistrarView {
            registrations: Map::new(
                |name: Seq<char>|
                    self.registrations.contains_key(name) && !(done.contains(name)
                        && self.all_expired(name, now)),
                |name: Seq<char>|
                    if done.contains(name) {
                        self.registrations[name].filter(unexpired(now))
                    } else {
                        self.registrations[name]
                    },
            ),
            user_to_sip: self.user_to_sip.restrict(
                self.user_to_sip.dom().filter(
                    |user: Seq<char>|
                        !(done.contains(self.user_to_sip[user]) && self.all_expired(
                            self.user_to_sip[user],
                            now,
                        ) && has_user(self.bindings(self.user_to_sip[user]), user)),
                ),
            ),
        }
    }

    /// What removing all expired registrations does.
    pub open spec fn expire(self, now: Instant) -> RegistrarView {
        self.expire_some(self.registrations.dom(), now)
    }

    /// What the expiry under one SIP username does.
    pub open spec fn expire_one(self, name: Seq<char>, now: Instant) -> RegistrarView {
        if self.all_expired(name, now) {
            RegistrarView {
                registrations: self.registrations.remove(name),
                user_to_sip: self.kept_users(name, self.bindings(name), Seq::empty()),
            }
        } else if self.registrations.contains_key(name) {
            RegistrarView {
                registrations: self.registrations.insert(
                    name,
                    self.registrations[name].filter(unexpired(now)),
                ),
                ..self
            }
        } else {
            self
        }
    }
}

proof fn lemma_expire_step(v: RegistrarView, done: Set<Seq<char>>, name: Seq<char>, now: Instant)
    requires
        !done.contains(name),
    ensures
        v.expire_some(done, now).expire_one(name, now) == v.expire_some(done.insert(name), now),
{
    let a = v.expire_some(done, now);
    let b = v.expire_some(done.insert(name), now);
    assert(a.bindings(name) =~= v.bindings(name));
    assert(a.expire_one(name, now).registrations =~= b.registrations);
    assert(!has_user(Seq::<RegistrationView>::empty(), Seq::empty()));
    assert(a.expire_one(name, now).user_to_sip =~= b.user_to_sip);
}

proof fn lemma_has_user_step(list: Seq<RegistrationView>, n: int, user: Seq<char>)
    requires
        0 <= n < list.len(),
    ensures
        has_user(list.take(n + 1), user) == (has_user(list.take(n), user)
            || list[n].discord_user_id == user),
{
    let longer = list.take(n + 1);
    let shorter = list.take(n);
    if has_user(longer, user) {
        let i = choose|i: int|
            0 <= i < longer.len() && (#[trigger] longer[i]).discord_user_id == user;
        if i < n {
            assert(shorter[i] == longer[i]);
        }
    }
    if has_user(shorter, user) {
        let i = choose|i: int|
            0 <= i < shorter.len() && (#[trigger] shorter[i]).discord_user_id == user;
        assert(longer[i] == shorter[i]);
    }
    if list[n].discord_user_id == user {
        assert(longer[n] == list[n]);
    }
}

impl Registrar {
    /// Drops the mappings of the users of `gone` that are no longer used.
    fn drop_unused_users(&mut self, gone: &Bindings, sip_username: &str)
        ensures
            final(self)@ == (RegistrarView {
                user_to_sip: old(self)@.kept_users(
                    sip_username@,
                    gone@,
                    old(self)@.bindings(sip_username@),
                ),
                ..old(self)@
            }),
    {
        let ghost before = self@;
        let ghost rest = before.bindings(sip_username@);
        assert(before.kept_users(sip_username@, gone@.take(0), rest) =~= before.user_to_sip);
        for i in 0..gone.list.len()
            invariant
                rest == before.bindings(sip_username@),
                self@.registrations == before.registrations,
                self@.user_to_sip == before.kept_users(sip_username@, gone@.take(i as int), rest),
        {
            let ghost mid = self@;
            let ghost user = gone@[i as int].discord_user_id;
            assert(gone@[i as int] == gone.list@[i as int]@);
            self.remove_user_mapping_if_unused(
                gone.list[i].discord_user_id.as_str(),
                sip_username,
            );
            proof {
                assert(mid.bindings(sip_username@) == rest);
                assert forall|u: Seq<char>| has_user(gone@.take(i + 1), u) == (has_user(
                    gone@.take(i as int),
                    u,
                ) || u == user) by {
                    lemma_has_user_step(gone@, i as int, u);
                }
                assert(self@.user_to_sip =~= before.kept_users(
                    sip_username@,
                    gone@.take(i + 1),
                    rest,
                ));
            }
        }
        assert(gone@.take(gone@.len() as int) =~= gone@);
    }

    /// Removes one binding of a SIP username, or all of them when no Contact is
    /// given (the REGISTER form `Contact: *`). Returns how many were removed.
    pub fn remove_registration(
        &mut self,
        sip_username: &str,
        contact: Option<&RegisteredContact>,
    ) -> (removed: usize)
        ensures
            final(self)@ == old(self)@.remove(
                sip_username@,
                (match contact {
                    Some(c) => Some(c@),
                    None => None,
                }),
            ),
            removed == old(self)@.bindings(sip_username@).len() - (if old(
                self,
            )@.registrations.contains_key(sip_username@) {
                old(self)@.remaining(
                    sip_username@,
                    (match contact {
                        Some(c) => Some(c@),
                        None => None,
                    }),
                ).len()
            } else {
                0
            }),
    {
        let ghost before = self@;
        let ghost which: Option<ContactView> = match contact {
            Some(c) => Some(c@),
            None => None,
        };
        let name = sip_username.to_owned();
        let bindings = match table_remove(&mut self.registrations, &name) {
            Some(bindings) => bindings,
            None => {
                assert(self@.registrations =~= before.registrations);
                return 0;
            },
        };
        let ghost list = bindings@;
        assert(list == before.bindings(sip_username@));
        let mut rest = Bindings { list: Vec::new() };
        if let Some(c) = contact {
            let ghost pred = other_binding(c@);
            assert(rest@ =~= list.take(0).filter(pred)) by {
                reveal(Seq::filter);
            }
            for i in 0..bindings.list.len()
                invariant
                    list == bindings@,
                    pred == other_binding(c@),
                    rest@ == list.take(i as int).filter(pred),
                    rest@.len() <= i,
                    rest@.len() == i ==> rest@ == list.take(i as int),
            {
                proof {
                    lemma_filter_step(list, pred, i as int);
                    assert(list[i as int] == bindings.list@[i as int]@);
                }
                let ghost raw = rest.list@;
                let ghost prior = rest@;
                if !bindings.list[i].contact.is_same_binding(c) {
                    let r = bindings.list[i].clone();
                    rest.list.push(r);
                    assert(rest@ =~= prior.push(r@));
                }
                assert(list.take(i + 1) =~= list.take(i as int).push(list[i as int]));
            }
            assert(list.take(list.len() as int) =~= list);
        } else {
            assert(rest@ =~= Seq::<RegistrationView>::empty());
        }
        assert(rest@ == before.remaining(sip_username@, which));
        let removed = bindings.list.len() - rest.list.len();
        let ghost left = rest@;
        if rest.list.len() > 0 {
            table_insert(&mut self.registrations, name, rest);
        }
        assert(self@.registrations =~= before.with_bindings(sip_username@, left));
        assert(self@.bindings(sip_username@) =~= left);
        if removed > 0 {
            self.drop_unused_users(&bindings, sip_username);
        } else {
            assert(forall|u: Seq<char>| has_user(list, u) ==> has_user(left, u));
        }
        assert(self@.user_to_sip =~= before.kept_users(sip_username@, list, left));
        removed
    }

    fn expire_username(&mut self, name: &String, now: Instant)
        ensures
            final(self)@ == old(self)@.expire_one(name@, now),
    {
        let ghost before = self@;
        let bindings = match table_remove(&mut self.registrations, name) {
            Some(bindings) => bindings,
            None => {
                assert(self@.registrations =~= before.registrations);
                return;
            },
        };
        let ghost list = bindings@;
        let rest = unexpired_of(&bindings, now);
        let ghost left = rest@;
        if rest.list.len() > 0 || bindings.list.len() == 0 {
            table_insert(&mut self.registrations, name.clone(), rest);
            assert(self@.registrations =~= before.registrations.insert(name@, left));
        } else {
            assert(self@.bindings(name@) =~= Seq::<RegistrationView>::empty());
            self.drop_unused_users(&bindings, name.as_str());
            assert(self@.user_to_sip =~= before.kept_users(name@, list, Seq::empty()));
        }
    }

    /// Removes the registrations that have expired. Other phones of the same
    /// user stay registered.
    pub fn remove_expired(&mut self, now: Instant)
        ensures
            final(self)@ == old(self)@.expire(now),
    {
        let ghost before = self@;
        let keys = table_keys(&self.registrations);
        let ghost names = table::key_views(keys@);
        assert(before.expire_some(names.take(0).to_set(), now).registrations
            =~= before.registrations);
        assert(before.expire_some(names.take(0).to_set(), now).user_to_sip =~= before.user_to_sip);
        for i in 0..keys.len()
            invariant
                names == table::key_views(keys@),
                table::enumerates(names, before.registrations.dom()),
                self@ == before.expire_some(names.take(i as int).to_set(), now),
        {
            let ghost done = names.take(i as int).to_set();
            assert(names[i as int] == keys@[i as int]@);
            proof {
                assert(!done.contains(names[i as int]));
                lemma_expire_step(before, done, names[i as int], now);
                table::lemma_take_to_set(names, i as int);
            }
            self.expire_username(&keys[i], now);
        }
        assert(names.take(names.len() as int) =~= names);
        proof {
            table::lemma_enumerates(names, before.registrations.dom());
        }
    }

    /// The source addresses of the unexpired registrations of a SIP username.
    pub fn get_source_addrs_for_sip_user(&self, sip_username: &str, now: Instant) -> (addrs: Vec<
        SourceAddr,
    >)
        ensures
            addr_views(addrs@) == self@.bindings(sip_username@).filter(unexpired(now)).map_values(
                |r: RegistrationView| r.source_addr,
            ),
    {
        let mut addrs: Vec<SourceAddr> = Vec::new();
        let ghost f = |r: RegistrationView| r.source_addr;
        let active = match table_get(&self.registrations, &sip_username.to_owned()) {
            Some(bindings) => unexpired_of(&bindings, now),
            None => {
                let none = Bindings { list: Vec::new() };
                assert(none@ =~= self@.bindings(sip_username@).filter(unexpired(now))) by {
                    reveal(Seq::filter);
                }
                none
            },
        };
        for i in 0..active.list.len()
            invariant
                f == (|r: RegistrationView| r.source_addr),
                addr_views(addrs@) == active@.map_values(f).take(i as int),
        {
            let ghost before = addrs@;
            let a = active.list[i].source_addr.clone();
            addrs.push(a);
            assert(active@[i as int] == active.list@[i as int]@);
            assert(addr_views(addrs@) =~= addr_views(before).push(a@));
            assert(active@.map_values(f).take(i + 1) =~= active@.map_values(f).take(i as int).push(
                f(active@[i as int]),
            ));
        }
        assert(active@.map_values(f).take(active@.len() as int) =~= active@.map_values(f));
        addrs
    }

    /// The unexpired registrations of a Discord user.
    fn active_registrations(&self, discord_user_id: &str, now: Instant) -> (out: Bindings)
        ensures
            out@ == self@.active(discord_user_id@, now),
    {
        let mut out = Bindings { list: Vec::new() };
        let Some(name) = table_get(&self.user_to_sip, &discord_user_id.to_owned()) else {
            assert(out@ =~= Seq::<RegistrationView>::empty());
            return out;
        };
        let ghost pred = active_for(discord_user_id@, now);
        let Some(bindings) = table_get(&self.registrations, &name) else {
            assert(out@ =~= self@.bindings(name@).filter(pred)) by {
                reveal(Seq::filter);
            }
            return out;
        };
        let ghost list = bindings@;
        assert(out@ =~= list.take(0).filter(pred)) by {
            reveal(Seq::filter);
        }
        for i in 0..bindings.list.len()
            invariant
                list == bindings@,
                pred == active_for(discord_user_id@, now),
                out@ == list.take(i as int).filter(pred),
        {
            proof {
                lemma_filter_step(list, pred, i as int);
                assert(list[i as int] == bindings.list@[i as int]@);
            }
            let ghost prior = out@;
            if bindings.list[i].expires_at.nanos > now.nanos && same_str(
                bindings.list[i].discord_user_id.as_str(),
                discord_user_id,
            ) {
                let r = bindings.list[i].clone();
                out.list.push(r);
                assert(out@ =~= prior.push(r@));
            }
        }
        assert(list.take(list.len() as int) =~= list);
        out
    }

    /// The Contacts of a Discord user's phones, as the phones gave them.
    pub fn get_contacts_for_discord_user_id(&self, discord_user_id: &str, now: Instant) -> (out:
        Vec<(String, SourceAddr, SipTransport)>)
        ensures
            route_views(out@) == self@.active(discord_user_id@, now).map_values(
                |r: RegistrationView| route_of(r),
            ),
    {
        let active = self.active_registrations(discord_user_id, now);
        let mut out: Vec<(String, SourceAddr, SipTransport)> = Vec::new();
        let ghost f = |r: RegistrationView| route_of(r);
        for i in 0..active.list.len()
            invariant
                f == (|r: RegistrationView| route_of(r)),
                route_views(out@) == active@.map_values(f).take(i as int),
        {
            let ghost before = out@;
            let item = (
                active.list[i].contact.advertised_uri().to_owned(),
                active.list[i].source_addr.clone(),
                active.list[i].transport,
            );
            out.push(item);
            assert(active@[i as int] == active.list@[i as int]@);
            assert(route_views(out@) =~= route_views(before).push(route_view(item)));
            assert(active@.map_values(f).take(i + 1) =~= active@.map_values(f).take(i as int).push(
                f(active@[i as int]),
            ));
        }
        assert(active@.map_values(f).take(active@.len() as int) =~= active@.map_values(f));
        out
    }

    /// The URIs under which a Discord user's phones can be called through NAT.
    pub fn get_callback_uris_for_discord_user_id(&self, discord_user_id: &str, now: Instant) -> (out:
        Vec<String>)
        ensures
            text::strings(out@) == self@.active(discord_user_id@, now).map_values(
                |r: RegistrationView| r.contact.callback_uri,
            ),
    {
        let active = self.active_registrations(discord_user_id, now);
        let mut out: Vec<String> = Vec::new();
        let ghost f = |r: RegistrationView| r.contact.callback_uri;
        for i in 0..active.list.len()
            invariant
                f == (|r: RegistrationView| r.contact.callback_uri),
                text::strings(out@) == active@.map_values(f).take(i as int),
        {
            let ghost before = out@;
            let uri = active.list[i].contact.callback_uri().to_owned();
            out.push(uri);
            assert(active@[i as int] == active.list@[i as int]@);
            assert(text::strings(out@) =~= text::strings(before).push(uri@));
            assert(active@.map_values(f).take(i + 1) =~= active@.map_values(f).take(i as int).push(
                f(active@[i as int]),
            ));
        }
        assert(active@.map_values(f).take(active@.len() as int) =~= active@.map_values(f));
        out
    }
}

/// The registrations of a list that have not expired.
fn unexpired_of(bindings: &Bindings, now: Instant) -> (out: Bindings)
    ensures
        out@ == bindings@.filter(unexpired(now)),
{
    let mut out = Bindings { list: Vec::new() };
    let ghost list = bindings@;
    let ghost pred = unexpired(now);
    assert(out@ =~= list.take(0).filter(pred)) by {
        reveal(Seq::filter);
    }
    for i in 0..bindings.list.len()
        invariant
            list == bindings@,
            pred == unexpired(now),
            out@ == list.take(i as int).filter(pred),
    {
        proof {
            lemma_filter_step(list, pred, i as int);
            assert(list[i as int] == bindings.list@[i as int]@);
        }
        let ghost prior = out@;
        if bindings.list[i].expires_at.nanos > now.nanos {
            let r = bindings.list[i].clone();
            out.list.push(r);
            assert(out@ =~= prior.push(r@));
        }
    }
    assert(list.take(list.len() as int) =~= list);
    out
}

pub open spec fn addr_views(list: Seq<SourceAddr>) -> Seq<SourceAddrView> {
    list.map_values(|a: SourceAddr| a@)
}

/// How a phone is reached, in the model.
pub ghost struct ContactRoute {
    pub uri: Seq<char>,
    pub source_addr: SourceAddrView,
    pub transport: SipTransport,
}

pub open spec fn route_of(r: RegistrationView) -> ContactRoute {
    ContactRoute {
        uri: r.contact.advertised_uri,
        source_addr: r.source_addr,
        transport: r.transport,
    }
}

pub open spec fn route_view(item: (String, SourceAddr, SipTransport)) -> ContactRoute {
    ContactRoute { uri: item.0@, source_addr: item.1@, transport: item.2 }
}

pub open spec fn route_views(list: Seq<(String, SourceAddr, SipTransport)>) -> Seq<ContactRoute> {
    list.map_values(|item: (String, SourceAddr, SipTransport)| route_view(item))
}

// Diagnostics

/// How many registrations a snapshot lists at most.
pub const MAX_DIAGNOSTIC_REGISTRATIONS: usize = 32;

/// The registrations of a user.
pub open spec fn of_user(user: Seq<char>) -> spec_fn(RegistrationView) -> bool {
    |r: RegistrationView| r.discord_user_id == user
}

/// A registration as a snapshot shows it.
pub open spec fn contact_diagnostics(r: RegistrationView, now: Instant) ->
    routing::ContactDiagnosticsView {
    routing::ContactDiagnosticsView {
        contact_uri: redacted(r.contact.advertised_uri),
        source_addr: addr_text(r.source_addr),
        transport: transport_name(r.transport),
        active: r.expires_at.nanos > now.nanos,
        registered_age_ms: time::millis_between(r.registered_at, now),
        expires_in_ms: if r.expires_at.nanos > now.nanos {
            time::millis_between(now, r.expires_at) as int
        } else {
            -(time::millis_between(r.expires_at, now) as int)
        },
    }
}

/// The entries of one list of registrations.
pub open spec fn entries_of(list: Seq<RegistrationView>, user: Seq<char>, now: Instant) -> Seq<
    routing::ContactDiagnosticsView,
> {
    list.filter(of_user(user)).map_values(|r: RegistrationView| contact_diagnostics(r, now))
}

/// The entries that are shown as active.
pub open spec fn active_entries(list: Seq<routing::ContactDiagnosticsView>) -> nat
    decreases list.len(),
{
    if list.len() == 0 {
        0
    } else {
        active_entries(list.drop_last()) + (if list.last().active {
            1nat
        } else {
            0nat
        })
    }
}

impl RegistrarView {
    /// The entries of a user, with the SIP usernames taken in a given order.
    pub open spec fn user_entries(
        self,
        order: Seq<Seq<char>>,
        user: Seq<char>,
        now: Instant,
    ) -> Seq<routing::ContactDiagnosticsView>
        decreases order.len(),
    {
        if order.len() == 0 {
            Seq::empty()
        } else {
            self.user_entries(order.drop_last(), user, now) + entries_of(
                self.bindings(order.last()),
                user,
                now,
            )
        }
    }

    /// The number of registrations under the given SIP usernames.
    pub open spec fn total(self, order: Seq<Seq<char>>) -> nat
        decreases order.len(),
    {
        if order.len() == 0 {
            0
        } else {
            self.total(order.drop_last()) + self.bindings(order.last()).len()
        }
    }

    /// The snapshot for a user, with the SIP usernames taken in a given order.
    pub open spec fn diagnostics(
        self,
        order: Seq<Seq<char>>,
        user: Seq<char>,
        now: Instant,
    ) -> routing::RegistrationDiagnosticsView {
        let entries = self.user_entries(order, user, now);
        routing::RegistrationDiagnosticsView {
            registrar_sip_users: self.registrations.dom().len(),
            registrar_user_mappings: self.user_to_sip.dom().len(),
            registrar_registrations: if self.total(order) <= usize::MAX {
                self.total(order)
            } else {
                usize::MAX as nat
            },
            mapped_sip_username: if self.user_to_sip.contains_key(user) {
                Some(self.user_to_sip[user])
            } else {
                None
            },
            target_registration_count: entries.len(),
            target_active_registration_count: active_entries(entries),
            target_expired_registration_count: entries.len() - active_entries(entries),
            registrations_truncated: entries.len() > MAX_DIAGNOSTIC_REGISTRATIONS,
            registrations: if entries.len() > MAX_DIAGNOSTIC_REGISTRATIONS {
                entries.take(MAX_DIAGNOSTIC_REGISTRATIONS as int)
            } else {
                entries
            },
        }
    }
}

proof fn lemma_active_entries_bound(list: Seq<routing::ContactDiagnosticsView>)
    ensures
        active_entries(list) <= list.len(),
    decreases list.len(),
{
    if list.len() > 0 {
        lemma_active_entries_bound(list.drop_last());
    }
}

proof fn lemma_active_entries_push(
    list: Seq<routing::ContactDiagnosticsView>,
    item: routing::ContactDiagnosticsView,
)
    ensures
        active_entries(list.push(item)) == active_entries(list) + (if item.active {
            1nat
        } else {
            0nat
        }),
{
    assert(list.push(item).drop_last() =~= list);
}

fn diagnose(r: &Registration, now: Instant) -> (entry: RegistrationContactDiagnostics)
    ensures
        entry@ == contact_diagnostics(r@, now),
{
    let active = r.expires_at.nanos > now.nanos;
    RegistrationContactDiagnostics {
        contact_uri: redact_sip_uri_credentials(r.contact.advertised_uri()),
        source_addr: r.source_addr.to_text(),
        transport: r.transport.name().to_owned(),
        active,
        registered_age_ms: r.registered_at.elapsed_millis(now),
        expires_in_ms: if active {
            now.elapsed_millis(r.expires_at) as i64
        } else {
            -(r.expires_at.elapsed_millis(now) as i64)
        },
    }
}

/// Appends the entries of a user in one list of registrations.
fn push_entries(
    out: &mut Vec<RegistrationContactDiagnostics>,
    bindings: &Bindings,
    user: &str,
    now: Instant,
)
    ensures
        routing::contact_views(final(out)@) == routing::contact_views(old(out)@) + entries_of(
            bindings@,
            user@,
            now,
        ),
{
    let ghost start = routing::contact_views(out@);
    let ghost list = bindings@;
    let ghost pred = of_user(user@);
    assert(entries_of(list.take(0), user@, now) =~= Seq::empty()) by {
        reveal(Seq::filter);
    }
    for i in 0..bindings.list.len()
        invariant
            list == bindings@,
            pred == of_user(user@),
            routing::contact_views(out@) == start + entries_of(list.take(i as int), user@, now),
    {
        proof {
            lemma_filter_step(list, pred, i as int);
            assert(list[i as int] == bindings.list@[i as int]@);
        }
        let ghost before = out@;
        if same_str(bindings.list[i].discord_user_id.as_str(), user) {
            let entry = diagnose(&bindings.list[i], now);
            out.push(entry);
            assert(routing::contact_views(out@) =~= routing::contact_views(before).push(entry@));
            assert(entries_of(list.take(i + 1), user@, now) =~= entries_of(
                list.take(i as int),
                user@,
                now,
            ).push(entry@));
        }
    }
    assert(list.take(list.len() as int) =~= list);
}

impl Registrar {
    /// A snapshot of the registrar for a user, for operators. Expired
    /// registrations are listed too, and so are those that the user mapping
    /// does not lead to, so that a stale mapping is seen. Passwords are left
    /// out. The order in which SIP usernames are listed is not stated.
    pub fn diagnostics_for_discord_user_id(&self, discord_user_id: &str, now: Instant) -> (d:
        RegistrationDiagnostics)
        ensures
            exists|order: Seq<Seq<char>>|
                table::enumerates(order, self@.registrations.dom()) && d@ == #[trigger] self@.diagnostics(
                    order,
                    discord_user_id@,
                    now,
                ),
    {
        let mapped_sip_username = table_get(&self.user_to_sip, &discord_user_id.to_owned());
        let keys = table_keys(&self.registrations);
        let ghost order = table::key_views(keys@);
        let mut total: usize = 0;
        let mut registrations: Vec<RegistrationContactDiagnostics> = Vec::new();
        assert(routing::contact_views(registrations@) =~= self@.user_entries(
            order.take(0),
            discord_user_id@,
            now,
        ));
        for i in 0..keys.len()
            invariant
                order == table::key_views(keys@),
                routing::contact_views(registrations@) == self@.user_entries(
                    order.take(i as int),
                    discord_user_id@,
                    now,
                ),
                total == (if self@.total(order.take(i as int)) <= usize::MAX {
                    self@.total(order.take(i as int))
                } else {
                    usize::MAX as nat
                }),
        {
            assert(order[i as int] == keys@[i as int]@);
            assert(order.take(i + 1).drop_last() =~= order.take(i as int));
            let ghost before = registrations@;
            match table_get(&self.registrations, &keys[i]) {
                Some(bindings) => {
                    assert(bindings@.len() == bindings.list@.len());
                    total = total.saturating_add(bindings.list.len());
                    push_entries(&mut registrations, &bindings, discord_user_id, now);
                },
                None => {
                    assert(entries_of(self@.bindings(order[i as int]), discord_user_id@, now)
                        =~= Seq::empty()) by {
                        reveal(Seq::filter);
                    }
                    assert(routing::contact_views(registrations@) =~= self@.user_entries(
                        order.take(i + 1),
                        discord_user_id@,
                        now,
                    ));
                },
            }
        }
        assert(order.take(order.len() as int) =~= order);
        let ghost entries = routing::contact_views(registrations@);
        let mut active: usize = 0;
        for i in 0..registrations.len()
            invariant
                entries == routing::contact_views(registrations@),
                active == active_entries(entries.take(i as int)),
                active <= i,
        {
            proof {
                assert(entries.take(i + 1) =~= entries.take(i as int).push(entries[i as int]));
                lemma_active_entries_push(entries.take(i as int), entries[i as int]);
            }
            if registrations[i].active {
                active = active + 1;
            }
        }
        assert(entries.take(entries.len() as int) =~= entries);
        let count: usize = registrations.len();
        let truncated = count > MAX_DIAGNOSTIC_REGISTRATIONS;
        if truncated {
            registrations.truncate(MAX_DIAGNOSTIC_REGISTRATIONS);
            assert(routing::contact_views(registrations@) =~= entries.take(
                MAX_DIAGNOSTIC_REGISTRATIONS as int,
            ));
        }
        let d = RegistrationDiagnostics {
            registrar_sip_users: table_len(&self.registrations),
            registrar_user_mappings: table_len(&self.user_to_sip),
            registrar_registrations: total,
            mapped_sip_username,
            target_registration_count: count,
            target_active_registration_count: active,
            target_expired_registration_count: count - active,
            registrations_truncated: truncated,
            registrations,
        };
        assert(d@ == self@.diagnostics(order, discord_user_id@, now));
        d
    }
}

// Laws

impl RegistrarView {
    /// A registrar that holds no empty list, lists each registration under its
    /// own SIP username and has one registration for each binding.
    pub open spec fn wf(self) -> bool {
        forall|name: Seq<char>| #[trigger]
            self.registrations.contains_key(name) ==> {
                &&& self.registrations[name].len() > 0
                &&& forall|i: int|
                    0 <= i < self.registrations[name].len() ==> (
                    #[trigger] self.registrations[name][i]).sip_username == name
                &&& distinct_bindings(self.registrations[name])
            }
    }
}

/// Whether no two registrations of a list are the same binding.
pub open spec fn distinct_bindings(list: Seq<RegistrationView>) -> bool {
    forall|i: int, j: int|
        0 <= i < j < list.len() ==> !(#[trigger] list[i]).contact.same_binding(
            (#[trigger] list[j]).contact,
        )
}

/// A refresh never duplicates a phone: adding a registration keeps one
/// registration for each binding.
pub proof fn law_refresh_does_not_duplicate(registrar: RegistrarView, reg: RegistrationView)
    requires
        registrar.wf(),
    ensures
        registrar.add(reg).wf(),
{
    let after = registrar.add(reg);
    let list = registrar.bindings(reg.sip_username);
    lemma_binding_index(list, reg.contact, 0);
    let k = binding_index(list, reg.contact, 0);
    assert forall|name: Seq<char>| #[trigger] after.registrations.contains_key(name) implies {
        &&& after.registrations[name].len() > 0
        &&& forall|i: int|
            0 <= i < after.registrations[name].len() ==> (
            #[trigger] after.registrations[name][i]).sip_username == name
        &&& distinct_bindings(after.registrations[name])
    } by {
        if name != reg.sip_username {
            assert(registrar.registrations.contains_key(name));
        } else {
            assert(registrar.registrations.contains_key(name) ==> list.len() > 0);
            let new_list = after.registrations[name];
            assert forall|i: int, j: int| 0 <= i < j < new_list.len() implies !(
            #[trigger] new_list[i]).contact.same_binding((#[trigger] new_list[j]).contact) by {
                if k < list.len() {
                    assert(new_list == list.update(
                        k,
                        RegistrationView { sip_username: list[k].sip_username, ..reg },
                    ));
                    assert(i != k ==> new_list[i] == list[i]);
                    assert(j != k ==> new_list[j] == list[j]);
                    assert(!list[i].contact.same_binding(list[j].contact));
                } else {
                    assert(new_list == list.push(reg));
                    assert(new_list[i] == list[i]);
                    if j < list.len() {
                        assert(new_list[j] == list[j]);
                    }
                }
            }
            assert forall|i: int| 0 <= i < new_list.len() implies (
            #[trigger] new_list[i]).sip_username == name by {
                if k < list.len() {
                    assert(list[k].sip_username == name);
                    assert(i != k ==> new_list[i] == list[i]);
                    assert(i < list.len() ==> list[i].sip_username == name);
                } else {
                    assert(i < list.len() ==> new_list[i] == list[i]);
                }
            }
        }
    }
}

/// A registered phone can be reached: right after a registration that has not
/// expired is added, it is among the registrations of its user.
pub proof fn law_added_phone_is_routable(
    registrar: RegistrarView,
    reg: RegistrationView,
    now: Instant,
)
    requires
        registrar.wf(),
        reg.expires_at.nanos > now.nanos,
    ensures
        registrar.add(reg).active(reg.discord_user_id, now).contains(reg),
{
    let after = registrar.add(reg);
    let list = registrar.bindings(reg.sip_username);
    lemma_binding_index(list, reg.contact, 0);
    let k = binding_index(list, reg.contact, 0);
    let new_list = after.registrations[reg.sip_username];
    if k < list.len() {
        assert(registrar.registrations.contains_key(reg.sip_username));
        assert(list[k].sip_username == reg.sip_username);
        assert(new_list[k] == reg);
    } else {
        assert(new_list[k] == reg);
    }
    assert(after.user_to_sip.contains_key(reg.discord_user_id));
    assert(after.user_to_sip[reg.discord_user_id] == reg.sip_username);
    assert(active_for(reg.discord_user_id, now)(reg));
    new_list.lemma_filter_contains(active_for(reg.discord_user_id, now), k);
}

/// A registered phone keeps being reached when another one is added: of the same
/// user under the same SIP username, or of another user.
pub proof fn law_added_phone_keeps_others(
    registrar: RegistrarView,
    reg: RegistrationView,
    user: Seq<char>,
    other: RegistrationView,
    now: Instant,
)
    requires
        registrar.wf(),
        registrar.active(user, now).contains(other),
        reg.sip_username == registrar.user_to_sip[user] ==> !other.contact.same_binding(
            reg.contact,
        ),
        reg.discord_user_id == user ==> reg.sip_username == registrar.user_to_sip[user],
    ensures
        registrar.add(reg).active(user, now).contains(other),
{
    let after = registrar.add(reg);
    let name = registrar.user_to_sip[user];
    let before_list = registrar.bindings(name);
    let pred = active_for(user, now);
    before_list.lemma_filter_contains_rev(pred, other);
    let at = choose|i: int| 0 <= i < before_list.len() && before_list[i] == other;
    before_list.lemma_filter_pred(pred, registrar.active(user, now).index_of(other));
    let list = registrar.bindings(reg.sip_username);
    lemma_binding_index(list, reg.contact, 0);
    let k = binding_index(list, reg.contact, 0);
    let new_list = after.bindings(name);
    if name == reg.sip_username {
        assert(at != k);
        if k < list.len() {
            assert(new_list == list.update(
                k,
                RegistrationView { sip_username: list[k].sip_username, ..reg },
            ));
        } else {
            assert(new_list == list.push(reg));
        }
    }
    assert(new_list[at] == other);
    assert(has_user(new_list, user)) by {
        assert(new_list[at].discord_user_id == user);
    }
    assert(after.user_to_sip.contains_key(user) && after.user_to_sip[user] == name);
    new_list.lemma_filter_contains(pred, at);
}

/// Users never receive each other's phones, nor expired ones: every
/// registration that is found for a user is one of that user and unexpired.
pub proof fn law_users_get_only_their_own_phones(
    registrar: RegistrarView,
    user: Seq<char>,
    now: Instant,
    i: int,
)
    requires
        0 <= i < registrar.active(user, now).len(),
    ensures
        registrar.active(user, now)[i].discord_user_id == user,
        registrar.active(user, now)[i].expires_at.nanos > now.nanos,
{
    registrar.bindings(registrar.user_to_sip[user]).lemma_filter_pred(active_for(user, now), i);
}

/// Unregistering removes every registration of a binding: none is left under
/// the SIP username.
pub proof fn law_unregister_removes_binding(
    registrar: RegistrarView,
    name: Seq<char>,
    contact: ContactView,
    i: int,
)
    requires
        0 <= i < registrar.remove(name, Some(contact)).bindings(name).len(),
    ensures
        !registrar.remove(name, Some(contact)).bindings(name)[i].contact.same_binding(contact),
{
    registrar.bindings(name).lemma_filter_pred(other_binding(contact), i);
}

/// The wildcard unregisters every phone: no registration is left under the SIP
/// username, and no user that was registered there is mapped to it.
pub proof fn law_wildcard_removes_all(registrar: RegistrarView, name: Seq<char>, user: Seq<char>)
    requires
        has_user(registrar.bindings(name), user),
    ensures
        registrar.remove(name, None).bindings(name).len() == 0,
        registrar.remove(name, None).user_to_sip.contains_key(user) ==> registrar.remove(
            name,
            None,
        ).user_to_sip[user] != name,
{
    assert(!has_user(Seq::<RegistrationView>::empty(), user));
}

/// Expiry spares other phones: an unexpired registration of a user is found
/// after the expired ones are removed if and only if it was found before.
pub proof fn law_expiry_preserves_active_phones(
    registrar: RegistrarView,
    user: Seq<char>,
    now: Instant,
)
    ensures
        registrar.expire(now).active(user, now) == registrar.active(user, now),
{
    let after = registrar.expire(now);
    if registrar.user_to_sip.contains_key(user) {
        let name = registrar.user_to_sip[user];
        let list = registrar.bindings(name);
        lemma_filter_twice(list, user, now);
        if after.user_to_sip.contains_key(user) {
            if registrar.all_expired(name, now) {
                assert(after.bindings(name) =~= Seq::<RegistrationView>::empty());
                lemma_nothing_active(list, user, now);
                assert(Seq::<RegistrationView>::empty().filter(active_for(user, now))
                    =~= Seq::<RegistrationView>::empty()) by {
                    reveal(Seq::filter);
                }
            } else if registrar.registrations.contains_key(name) {
                assert(after.bindings(name) == list.filter(unexpired(now)));
            } else {
                assert(after.bindings(name) =~= list);
            }
        } else {
            lemma_nothing_active(list, user, now);
        }
    }
}

proof fn lemma_filter_twice(list: Seq<RegistrationView>, user: Seq<char>, now: Instant)
    ensures
        list.filter(unexpired(now)).filter(active_for(user, now)) == list.filter(
            active_for(user, now),
        ),
    decreases list.len(),
{
    reveal(Seq::filter);
    if list.len() > 0 {
        let rest = list.drop_last();
        lemma_filter_twice(rest, user, now);
        let kept = rest.filter(unexpired(now));
        if unexpired(now)(list.last()) {
            assert(kept.push(list.last()).drop_last() =~= kept);
        }
    }
}

proof fn lemma_nothing_active(list: Seq<RegistrationView>, user: Seq<char>, now: Instant)
    requires
        list.filter(unexpired(now)).len() == 0,
    ensures
        list.filter(active_for(user, now)) == Seq::<RegistrationView>::empty(),
{
    lemma_filter_twice(list, user, now);
    assert(list.filter(unexpired(now)) =~= Seq::<RegistrationView>::empty());
    assert(Seq::<RegistrationView>::empty().filter(active_for(user, now))
        =~= Seq::<RegistrationView>::empty()) by {
        reveal(Seq::filter);
    }
}

/// A filter keeps the bindings apart.
proof fn lemma_filter_distinct(
    list: Seq<RegistrationView>,
    pred: spec_fn(RegistrationView) -> bool,
)
    requires
        distinct_bindings(list),
    ensures
        distinct_bindings(list.filter(pred)),
    decreases list.len(),
{
    reveal(Seq::filter);
    if list.len() > 0 {
        let shorter = list.drop_last();
        assert(distinct_bindings(shorter)) by {
            assert forall|i: int, j: int| 0 <= i < j < shorter.len() implies !(
            #[trigger] shorter[i]).contact.same_binding((#[trigger] shorter[j]).contact) by {
                assert(shorter[i] == list[i] && shorter[j] == list[j]);
            }
        }
        lemma_filter_distinct(shorter, pred);
        let kept = shorter.filter(pred);
        let all = list.filter(pred);
        assert forall|i: int, j: int| 0 <= i < j < all.len() implies !(
        #[trigger] all[i]).contact.same_binding((#[trigger] all[j]).contact) by {
            assert(all[i] == kept[i]);
            if j < kept.len() {
                assert(all[j] == kept[j]);
            } else {
                table::lemma_filter_member(shorter, pred, i);
                let k = choose|k: int| 0 <= k < shorter.len() && shorter[k] == kept[i];
                assert(list[k] == all[i]);
                assert(list[list.len() - 1] == all[j]);
            }
        }
    }
}

/// The registrations under one name, in order.
pub open spec fn in_order(name: Seq<char>, list: Seq<RegistrationView>) -> bool {
    &&& forall|i: int| 0 <= i < list.len() ==> (#[trigger] list[i]).sip_username == name
    &&& distinct_bindings(list)
}

proof fn lemma_filter_in_order(
    name: Seq<char>,
    list: Seq<RegistrationView>,
    pred: spec_fn(RegistrationView) -> bool,
)
    requires
        in_order(name, list),
    ensures
        in_order(name, list.filter(pred)),
{
    lemma_filter_distinct(list, pred);
    let kept = list.filter(pred);
    assert forall|i: int| 0 <= i < kept.len() implies (#[trigger] kept[i]).sip_username
        == name by {
        table::lemma_filter_member(list, pred, i);
    }
}

/// An unregistration keeps the registrar in order: no empty list is left
/// behind, and the bindings that stay are still apart.
pub proof fn law_unregister_keeps_order(
    registrar: RegistrarView,
    name: Seq<char>,
    contact: Option<ContactView>,
)
    requires
        registrar.wf(),
    ensures
        registrar.remove(name, contact).wf(),
{
    let after = registrar.remove(name, contact);
    let rest = registrar.remaining(name, contact);
    if registrar.registrations.contains_key(name) {
        let list = registrar.registrations[name];
        assert(in_order(name, list));
        if let Some(c) = contact {
            lemma_filter_in_order(name, list, other_binding(c));
        }
        assert(in_order(name, rest));
    }
    assert forall|other: Seq<char>| #[trigger] after.registrations.contains_key(other) implies {
        &&& after.registrations[other].len() > 0
        &&& forall|i: int|
            0 <= i < after.registrations[other].len() ==> (
            #[trigger] after.registrations[other][i]).sip_username == other
        &&& distinct_bindings(after.registrations[other])
    } by {
        if other != name {
            assert(registrar.registrations.contains_key(other));
        }
    }
}

/// The expiry keeps the registrar in order, and an empty registrar is.
pub proof fn law_expiry_keeps_order(registrar: RegistrarView, now: Instant)
    requires
        registrar.wf(),
    ensures
        registrar.expire(now).wf(),
        (RegistrarView { registrations: Map::empty(), user_to_sip: Map::empty() }).wf(),
{
    let after = registrar.expire(now);
    assert forall|name: Seq<char>| #[trigger] after.registrations.contains_key(name) implies {
        &&& after.registrations[name].len() > 0
        &&& forall|i: int|
            0 <= i < after.registrations[name].len() ==> (
            #[trigger] after.registrations[name][i]).sip_username == name
        &&& distinct_bindings(after.registrations[name])
    } by {
        assert(registrar.registrations.contains_key(name));
        let list = registrar.registrations[name];
        assert(in_order(name, list));
        lemma_filter_in_order(name, list, unexpired(now));
    }
}

/// What is shown of a URI does not tell the password of its user: it is the same
/// for every password. The text of a `sip` URI holds no `sips:`, since that
/// would be taken for the scheme, and neither user nor password hold an
/// unescaped `@`.
pub proof fn law_password_is_redacted(
    scheme: Seq<char>,
    user: Seq<char>,
    password: Seq<char>,
    rest: Seq<char>,
)
    requires
        text::lower(scheme) == "sips:"@ || (text::lower(scheme) == "sip:"@ && !text::contains(
            text::lower(scheme + user + ":"@ + password + "@"@ + rest),
            "sips:"@,
        )),
        !user.contains(':'),
        !user.contains('@'),
        !password.contains('@'),
    ensures
        redacted(scheme + user + ":"@ + password + "@"@ + rest) == scheme + user + ":[redacted]@"@
            + rest,
{
    reveal_strlit("sips:");
    reveal_strlit("sip:");
    reveal_strlit(":");
    reveal_strlit("@");
    reveal_strlit("[redacted]");
    reveal_strlit(":[redacted]@");
    let uri = scheme + user + ":"@ + password + "@"@ + rest;
    let lower = text::lower(uri);
    let start = scheme.len() as int;
    assert(text::lower(scheme).len() == scheme.len());
    assert(lower.subrange(0, start) =~= text::lower(scheme));
    if text::lower(scheme) == "sips:"@ {
        assert(text::occurs_at(lower, "sips:"@, 0));
    } else {
        assert(text::occurs_at(lower, "sip:"@, 0));
        text::lemma_find_from(lower, "sips:"@, 0);
        assert(text::find_from(lower, "sips:"@, 0) is None);
    }
    assert(redacted(uri) == redacted_from(uri, start));
    let colon = start + user.len();
    let at = colon + 1 + password.len();
    assert(uri[colon] == ':' && uri[at] == '@');
    assert forall|j: int| start <= j < colon implies uri[j] != ':' && uri[j] != '@' by {
        assert(uri[j] == user[j - start]);
        assert(user.contains(user[j - start]));
    }
    assert forall|j: int| colon < j < at implies uri[j] != '@' by {
        assert(uri[j] == password[j - colon - 1]);
        assert(password.contains(password[j - colon - 1]));
    }
    text::lemma_next_char(uri, '@', start);
    text::lemma_next_char(uri, ':', start);
    assert(text::next_char(uri, '@', start) == at);
    assert(text::next_char(uri, ':', start) == colon);
    assert(uri.take(colon + 1) + "[redacted]"@ + uri.skip(at) =~= scheme + user + ":[redacted]@"@
        + rest);
}

} // verus!
