//! Where the phones of a user are found.
//!
//! The laws speak of what the operations are given and of what they give.

use crate::routing::RegistrationDiagnostics;
use crate::routing;
use crate::services::registrar;
use crate::services::registrar::{
    RegisteredContact, Registrar, Registration, SipTransport, SourceAddr,
};
use crate::table;
use crate::text;
use crate::time::Instant;
use vstd::prelude::*;

verus! {

broadcast use vstd::string::group_string_axioms;

/// Whether two Contacts are of one phone line: the same base URI and the same line,
/// whatever else they say.
pub open spec fn same_line(a: registrar::ContactView, b: registrar::ContactView) -> bool {
    &&& a.legacy_base_uri == b.legacy_base_uri
    &&& a.line == b.line
}

/// The registrations of a SIP username.
pub open spec fn under(state: registrar::RegistrarView, name: Seq<char>) -> Seq<
    registrar::RegistrationView,
> {
    if state.registrations.contains_key(name) {
        state.registrations[name]
    } else {
        Seq::empty()
    }
}

/// Whether a registration says what another one says, but for the username.
pub open spec fn says_the_same(
    a: registrar::RegistrationView,
    b: registrar::RegistrationView,
) -> bool {
    &&& a.discord_user_id == b.discord_user_id
    &&& a.contact == b.contact
    &&& a.source_addr == b.source_addr
    &&& a.transport == b.transport
    &&& a.expires_at == b.expires_at
    &&& a.registered_at == b.registered_at
}

/// A registration is kept as it was made, in the place of the one of its phone line
/// or behind all others, which stay. Its user is found under its username. Other
/// usernames are not touched, nor are users who had no part in the change.
pub proof fn law_registration_is_kept_as_made(
    state: &mut Registrar,
    reg: Registration,
    k: int,
    name: Seq<char>,
    user: Seq<char>,
)
    requires
        call_ensures(Registrar::add_registration, (state, reg), ()),
        0 <= k <= under(old(state)@, reg.sip_username@).len(),
        forall|j: int|
            0 <= j < k ==> !same_line(
                (#[trigger] under(old(state)@, reg.sip_username@)[j]).contact,
                reg.contact@,
            ),
        k < under(old(state)@, reg.sip_username@).len() ==> same_line(
            under(old(state)@, reg.sip_username@)[k].contact,
            reg.contact@,
        ),
    ensures
        ({
            let before = under(old(state)@, reg.sip_username@);
            let after = under(final(state)@, reg.sip_username@);
            &&& k < before.len() ==> after.len() == before.len()
            &&& k == before.len() ==> after.len() == before.len() + 1 && after[k].sip_username
                == reg.sip_username@
            &&& says_the_same(after[k], reg@)
            &&& forall|j: int| 0 <= j < before.len() && j != k ==> after[j] == #[trigger] before[j]
            &&& final(state)@.user_to_sip.contains_key(reg.discord_user_id@)
            &&& final(state)@.user_to_sip[reg.discord_user_id@] == reg.sip_username@
            &&& name != reg.sip_username@ ==> under(final(state)@, name) == under(old(state)@, name)
            &&& user != reg.discord_user_id@ && !(k < before.len() && before[k].discord_user_id
                == user) ==> (final(state)@.user_to_sip.contains_key(user) <==> old(
                state,
            )@.user_to_sip.contains_key(user)) && final(state)@.user_to_sip[user]
                == old(state)@.user_to_sip[user]
        }),
{
    let list = under(old(state)@, reg.sip_username@);
    registrar::lemma_binding_index(list, reg.contact@, 0);
    let i = registrar::binding_index(list, reg.contact@, 0);
    if i < k {
        assert(!same_line(list[i].contact, reg.contact@));
    }
    if k < i {
        assert(!list[k].contact.same_binding(reg.contact@));
    }
    assert(i == k);
}

/// A user whose phone went to another user is no longer found under its username,
/// unless another phone of theirs is there.
pub proof fn law_phone_that_changes_hands(state: &mut Registrar, reg: Registration, k: int)
    requires
        call_ensures(Registrar::add_registration, (state, reg), ()),
        0 <= k < under(old(state)@, reg.sip_username@).len(),
        forall|j: int|
            0 <= j < k ==> !same_line(
                (#[trigger] under(old(state)@, reg.sip_username@)[j]).contact,
                reg.contact@,
            ),
        same_line(under(old(state)@, reg.sip_username@)[k].contact, reg.contact@),
        under(old(state)@, reg.sip_username@)[k].discord_user_id != reg.discord_user_id@,
    ensures
        ({
            let before = under(old(state)@, reg.sip_username@);
            let user = before[k].discord_user_id;
            let elsewhere = exists|j: int|
                0 <= j < before.len() && j != k && (#[trigger] before[j]).discord_user_id == user;
            let mapped = old(state)@.user_to_sip.contains_key(user);
            final(state)@.user_to_sip.contains_key(user) <==> mapped && (elsewhere
                || old(state)@.user_to_sip[user] != reg.sip_username@)
        }),
{
    let list = under(old(state)@, reg.sip_username@);
    registrar::lemma_binding_index(list, reg.contact@, 0);
    let i = registrar::binding_index(list, reg.contact@, 0);
    if i < k {
        assert(!same_line(list[i].contact, reg.contact@));
    }
    if k < i {
        assert(!list[k].contact.same_binding(reg.contact@));
    }
    assert(i == k);
    let user = list[k].discord_user_id;
    let fresh = registrar::RegistrationView { sip_username: list[k].sip_username, ..reg@ };
    let updated = list.update(k, fresh);
    let middle = registrar::RegistrarView {
        registrations: old(state)@.registrations.insert(reg.sip_username@, updated),
        user_to_sip: old(state)@.user_to_sip.insert(reg.discord_user_id@, reg.sip_username@),
    };
    assert(middle.bindings(reg.sip_username@) == updated);
    if registrar::has_user(updated, user) {
        let j = choose|j: int|
            0 <= j < updated.len() && (#[trigger] updated[j]).discord_user_id == user;
        assert(j != k);
        assert(list[j].discord_user_id == user);
    }
    if exists|j: int| 0 <= j < list.len() && j != k && (#[trigger] list[j]).discord_user_id
        == user {
        let j = choose|j: int|
            0 <= j < list.len() && j != k && (#[trigger] list[j]).discord_user_id == user;
        assert(updated[j].discord_user_id == user);
    }
}

/// What a filter lets through.
proof fn lemma_filtered(
    list: Seq<registrar::RegistrationView>,
    pred: spec_fn(registrar::RegistrationView) -> bool,
    r: registrar::RegistrationView,
)
    ensures
        list.filter(pred).contains(r) <==> list.contains(r) && pred(r),
{
    let kept = list.filter(pred);
    if kept.contains(r) {
        list.lemma_filter_contains_rev(pred, r);
        let k = choose|k: int| 0 <= k < kept.len() && kept[k] == r;
        list.lemma_filter_pred(pred, k);
    }
    if list.contains(r) && pred(r) {
        let k = choose|k: int| 0 <= k < list.len() && list[k] == r;
        list.lemma_filter_contains(pred, k);
    }
}

/// Whether a user has a phone among some registrations.
pub open spec fn has_phone(list: Seq<registrar::RegistrationView>, user: Seq<char>) -> bool {
    exists|k: int| 0 <= k < list.len() && (#[trigger] list[k]).discord_user_id == user
}

/// Unregistering a phone takes out its line and spares all others; without a
/// Contact all phones of the username leave. What is returned is how many left.
/// Other usernames are not touched. A user is no longer found under the username
/// once their last phone there has left, and users who had none there are not
/// touched.
pub proof fn law_unregistering_spares_other_phones(
    state: &mut Registrar,
    name: &str,
    contact: Option<&RegisteredContact>,
    removed: usize,
    r: registrar::RegistrationView,
    other: Seq<char>,
    user: Seq<char>,
)
    requires
        call_ensures(Registrar::remove_registration, (state, name, contact), removed),
    ensures
        ({
            let before = under(old(state)@, name@);
            let after = under(final(state)@, name@);
            let mapped = old(state)@.user_to_sip.contains_key(user);
            let loses = has_phone(before, user) && !has_phone(after, user)
                && old(state)@.user_to_sip[user] == name@;
            &&& contact matches Some(c) ==> (after.contains(r) <==> before.contains(r)
                && !same_line(r.contact, c@))
            &&& contact is None ==> after.len() == 0
            &&& other != name@ ==> under(final(state)@, other) == under(old(state)@, other)
            &&& removed == before.len() - after.len()
            &&& final(state)@.user_to_sip.contains_key(user) <==> mapped && !loses
            &&& final(state)@.user_to_sip.contains_key(user) ==> final(state)@.user_to_sip[user]
                == old(state)@.user_to_sip[user]
        }),
{
    let before = under(old(state)@, name@);
    if let Some(c) = contact {
        let pred = registrar::other_binding(c@);
        lemma_filtered(before, pred, r);
        assert(pred(r) == !same_line(r.contact, c@));
        if !old(state)@.registrations.contains_key(name@) {
            assert(before.filter(pred) =~= before) by {
                reveal(Seq::filter);
            }
        }
    }
    assert(!has_phone(Seq::<registrar::RegistrationView>::empty(), user));
    assert(registrar::has_user(before, user) == has_phone(before, user));
    let after = under(final(state)@, name@);
    assert(registrar::has_user(after, user) == has_phone(after, user));
}

/// Expired registrations leave, and no others. A user whose username loses its last
/// registration in this way is no longer found under it.
pub proof fn law_only_expired_phones_leave(
    state: &mut Registrar,
    now: Instant,
    name: Seq<char>,
    r: registrar::RegistrationView,
    user: Seq<char>,
)
    requires
        call_ensures(Registrar::remove_expired, (state, now), ()),
    ensures
        under(final(state)@, name).contains(r) <==> under(old(state)@, name).contains(r)
            && r.expires_at.nanos > now.nanos,
        final(state)@.user_to_sip.contains_key(user) ==> old(state)@.user_to_sip.contains_key(user)
            && final(state)@.user_to_sip[user] == old(state)@.user_to_sip[user],
        old(state)@.user_to_sip.contains_key(user) && old(state)@.user_to_sip[user] == name
            && under(old(state)@, name).contains(r) && r.expires_at.nanos > now.nanos
            ==> final(state)@.user_to_sip.contains_key(user),
        old(state)@.user_to_sip.contains_key(user) && old(state)@.user_to_sip[user] == name
            && has_phone(under(old(state)@, name), user) && (forall|k: int|
            0 <= k < under(old(state)@, name).len() ==> (
            #[trigger] under(old(state)@, name)[k]).expires_at.nanos <= now.nanos)
            ==> !final(state)@.user_to_sip.contains_key(user),
{
    let before = under(old(state)@, name);
    let pred = registrar::unexpired(now);
    lemma_filtered(before, pred, r);
    let kept = before.filter(pred);
    if kept.len() > 0 {
        assert(kept.contains(kept[0]));
    }
    if kept.contains(r) {
        assert(kept.len() > 0);
    }
    if forall|k: int| 0 <= k < before.len() ==> (#[trigger] before[k]).expires_at.nanos
        <= now.nanos {
        if kept.len() > 0 {
            lemma_filtered(before, pred, kept[0]);
            let k = choose|k: int| 0 <= k < before.len() && before[k] == kept[0];
            assert(before[k].expires_at.nanos <= now.nanos);
            assert(false);
        }
    }
    assert(registrar::has_user(before, user) == has_phone(before, user));
}

/// Whether a registration is one of a user that can be called now.
pub open spec fn can_be_called(
    state: registrar::RegistrarView,
    user: Seq<char>,
    now: Instant,
    r: registrar::RegistrationView,
) -> bool {
    &&& state.user_to_sip.contains_key(user)
    &&& under(state, state.user_to_sip[user]).contains(r)
    &&& r.discord_user_id == user
    &&& r.expires_at.nanos > now.nanos
}

proof fn lemma_can_be_called(
    state: registrar::RegistrarView,
    user: Seq<char>,
    now: Instant,
    r: registrar::RegistrationView,
)
    ensures
        state.active(user, now).contains(r) <==> can_be_called(state, user, now, r),
{
    if state.user_to_sip.contains_key(user) {
        lemma_filtered(
            under(state, state.user_to_sip[user]),
            registrar::active_for(user, now),
            r,
        );
    }
}

/// Whether an entry tells how a phone is reached: the URI that it gave, the address
/// that it was seen at, and the transport that it used there.
pub open spec fn tells_route(
    item: (String, SourceAddr, SipTransport),
    r: registrar::RegistrationView,
) -> bool {
    &&& item.0@ == r.contact.advertised_uri
    &&& item.1.ip@ == r.source_addr.ip
    &&& item.1.port == r.source_addr.port
    &&& item.1.is_ipv6 == r.source_addr.is_ipv6
    &&& item.2 == r.transport
}

/// The phones of a user are told by how they are reached: each phone that can be
/// called, and no other.
pub proof fn law_phones_of_a_user_are_told(
    state: &Registrar,
    user: &str,
    now: Instant,
    routes: Vec<(String, SourceAddr, SipTransport)>,
    uris: Vec<String>,
    r: registrar::RegistrationView,
    k: int,
)
    requires
        call_ensures(Registrar::get_contacts_for_discord_user_id, (state, user, now), routes),
        call_ensures(Registrar::get_callback_uris_for_discord_user_id, (state, user, now), uris),
    ensures
        can_be_called(state@, user@, now, r) ==> exists|j: int|
            0 <= j < routes@.len() && tells_route(#[trigger] routes@[j], r) && uris@[j]@
                == r.contact.callback_uri,
        routes@.len() == uris@.len(),
        0 <= k < routes@.len() ==> exists|p: registrar::RegistrationView| #[trigger]
            can_be_called(state@, user@, now, p) && tells_route(routes@[k], p) && uris@[k]@
                == p.contact.callback_uri,
{
    let active = state@.active(user@, now);
    let seen = registrar::route_views(routes@);
    let names = text::strings(uris@);
    assert(seen.len() == routes@.len());
    assert(names.len() == uris@.len());
    assert forall|j: int| 0 <= j < active.len() implies tells_route(
        #[trigger] routes@[j],
        active[j],
    ) && uris@[j]@ == active[j].contact.callback_uri by {
        assert(seen[j] == registrar::route_of(active[j]));
        assert(seen[j] == registrar::route_view(routes@[j]));
        assert(names[j] == active[j].contact.callback_uri);
    }
    lemma_can_be_called(state@, user@, now, r);
    if can_be_called(state@, user@, now, r) {
        let j = choose|j: int| 0 <= j < active.len() && active[j] == r;
        assert(tells_route(routes@[j], r));
    }
    if 0 <= k < routes@.len() {
        assert(active.contains(active[k]));
        lemma_can_be_called(state@, user@, now, active[k]);
        assert(tells_route(routes@[k], active[k]));
    }
}

/// The addresses of a username are those that its unexpired phones were seen at.
pub proof fn law_addresses_of_a_username_are_told(
    state: &Registrar,
    name: &str,
    now: Instant,
    addrs: Vec<SourceAddr>,
    r: registrar::RegistrationView,
    k: int,
)
    requires
        call_ensures(Registrar::get_source_addrs_for_sip_user, (state, name, now), addrs),
    ensures
        under(state@, name@).contains(r) && r.expires_at.nanos > now.nanos ==> exists|j: int|
            0 <= j < addrs@.len() && (#[trigger] addrs@[j])@ == r.source_addr,
        0 <= k < addrs@.len() ==> exists|p: registrar::RegistrationView|
            #![trigger under(state@, name@).contains(p)]
            under(state@, name@).contains(p) && p.expires_at.nanos > now.nanos && addrs@[k]@
                == p.source_addr,
{
    let list = under(state@, name@);
    let pred = registrar::unexpired(now);
    let kept = list.filter(pred);
    let seen = registrar::addr_views(addrs@);
    assert(seen.len() == addrs@.len());
    lemma_filtered(list, pred, r);
    if list.contains(r) && r.expires_at.nanos > now.nanos {
        let j = choose|j: int| 0 <= j < kept.len() && kept[j] == r;
        assert(seen[j] == r.source_addr);
        assert(addrs@[j]@ == r.source_addr);
    }
    if 0 <= k < addrs@.len() {
        assert(seen[k] == addrs@[k]@);
        assert(kept.contains(kept[k]));
        lemma_filtered(list, pred, kept[k]);
    }
}

/// An address is written as host and port, an IPv6 host in brackets; a transport by
/// its name.
pub proof fn law_addresses_are_written_out(
    addr: &SourceAddr,
    out: String,
    transport: &SipTransport,
    name: &'static str,
)
    requires
        call_ensures(SourceAddr::to_text, (addr,), out),
        call_ensures(SipTransport::name, (transport,), name),
    ensures
        out@ == (if addr.is_ipv6 {
            "["@ + addr.ip@ + "]"@
        } else {
            addr.ip@
        }) + ":"@ + text::decimal(addr.port as nat),
        name@ == (match *transport {
            SipTransport::Udp => "udp"@,
            SipTransport::Tcp => "tcp"@,
            SipTransport::Tls => "tls"@,
        }),
{
    reveal_strlit("]:");
    reveal_strlit("]");
    reveal_strlit(":");
    assert("]:"@ =~= "]"@ + ":"@);
    assert("["@ + addr.ip@ + "]:"@ =~= "["@ + addr.ip@ + "]"@ + ":"@);
}

/// A Contact gives back what it was made of, and two Contacts are of one phone
/// where base URI and line agree.
pub proof fn law_contact_gives_back_its_parts(
    advertised: String,
    base: String,
    line: Option<String>,
    callback: String,
    contact: RegisteredContact,
    shown: &str,
    called: &str,
    other: &RegisteredContact,
    same: bool,
)
    requires
        call_ensures(RegisteredContact::new, (advertised, base, line, callback), contact),
        call_ensures(RegisteredContact::advertised_uri, (&contact,), shown),
        call_ensures(RegisteredContact::callback_uri, (&contact,), called),
        call_ensures(RegisteredContact::is_same_binding, (&contact, other), same),
    ensures
        shown@ == advertised@,
        called@ == callback@,
        contact@.legacy_base_uri == base@,
        contact@.line is Some <==> line is Some,
        line is Some ==> contact@.line->0 == line->0@,
        same <==> same_line(contact@, other@),
{
}

// Snapshots

/// Whether an entry of a snapshot shows a registration: its URI without password,
/// its address and transport, its age, and the time until it expires or since it
/// did.
pub open spec fn shows(
    entry: routing::ContactDiagnosticsView,
    r: registrar::RegistrationView,
    now: Instant,
) -> bool {
    &&& entry.contact_uri == registrar::redacted(r.contact.advertised_uri)
    &&& entry.source_addr == (if r.source_addr.is_ipv6 {
        "["@ + r.source_addr.ip + "]:"@
    } else {
        r.source_addr.ip + ":"@
    }) + text::decimal(r.source_addr.port as nat)
    &&& entry.transport == (match r.transport {
        SipTransport::Udp => "udp"@,
        SipTransport::Tcp => "tcp"@,
        SipTransport::Tls => "tls"@,
    })
    &&& entry.active <==> now.nanos < r.expires_at.nanos
    &&& r.registered_at.nanos <= now.nanos ==> entry.registered_age_ms == (now.nanos
        - r.registered_at.nanos) / 1_000_000
    &&& now.nanos < r.expires_at.nanos ==> entry.expires_in_ms == (r.expires_at.nanos - now.nanos)
        / 1_000_000
    &&& now.nanos >= r.expires_at.nanos ==> entry.expires_in_ms == -((now.nanos
        - r.expires_at.nanos) / 1_000_000)
}

/// Whether a registration of a user stands in the registrar.
pub open spec fn is_phone_of(
    state: registrar::RegistrarView,
    user: Seq<char>,
    name: Seq<char>,
    r: registrar::RegistrationView,
) -> bool {
    under(state, name).contains(r) && r.discord_user_id == user
}

proof fn lemma_user_entries(
    state: registrar::RegistrarView,
    order: Seq<Seq<char>>,
    user: Seq<char>,
    now: Instant,
    k: int,
)
    requires
        0 <= k < state.user_entries(order, user, now).len(),
    ensures
        exists|name: Seq<char>, r: registrar::RegistrationView| #[trigger]
            is_phone_of(state, user, name, r) && shows(
                state.user_entries(order, user, now)[k],
                r,
                now,
            ),
    decreases order.len(),
{
    let rest = order.drop_last();
    let earlier = state.user_entries(rest, user, now);
    let name = order.last();
    let list = under(state, name);
    let pred = registrar::of_user(user);
    if k < earlier.len() {
        lemma_user_entries(state, rest, user, now, k);
    } else {
        let j = k - earlier.len();
        let r = list.filter(pred)[j];
        assert(list.filter(pred).contains(r));
        lemma_filtered(list, pred, r);
        assert(state.user_entries(order, user, now)[k] == registrar::contact_diagnostics(r, now));
        assert(is_phone_of(state, user, name, r));
    }
}

proof fn lemma_phone_is_entered(
    state: registrar::RegistrarView,
    order: Seq<Seq<char>>,
    user: Seq<char>,
    now: Instant,
    name: Seq<char>,
    r: registrar::RegistrationView,
)
    requires
        order.contains(name),
        is_phone_of(state, user, name, r),
    ensures
        exists|k: int|
            0 <= k < state.user_entries(order, user, now).len() && shows(
                #[trigger] state.user_entries(order, user, now)[k],
                r,
                now,
            ),
    decreases order.len(),
{
    let rest = order.drop_last();
    let earlier = state.user_entries(rest, user, now);
    let all = state.user_entries(order, user, now);
    if order.last() == name {
        let list = under(state, name);
        let pred = registrar::of_user(user);
        lemma_filtered(list, pred, r);
        let kept = list.filter(pred);
        let j = choose|j: int| 0 <= j < kept.len() && kept[j] == r;
        let at = earlier.len() + j;
        assert(all[at] == registrar::contact_diagnostics(r, now));
        assert(shows(all[at], r, now));
    } else {
        let i = choose|i: int| 0 <= i < order.len() && order[i] == name;
        assert(rest[i] == name);
        lemma_phone_is_entered(state, rest, user, now, name, r);
        let k = choose|k: int| 0 <= k < earlier.len() && shows(#[trigger] earlier[k], r, now);
        assert(all[k] == earlier[k]);
    }
}

/// A snapshot shows the phones of a user, expired ones too, and nothing of others:
/// each entry shows one of them, and unless there are more than 32, each of them is
/// shown. It tells the username that the user is found under.
pub proof fn law_snapshot_shows_the_phones_of_a_user(
    state: &Registrar,
    user: &str,
    now: Instant,
    d: RegistrationDiagnostics,
    name: Seq<char>,
    r: registrar::RegistrationView,
    k: int,
)
    requires
        call_ensures(Registrar::diagnostics_for_discord_user_id, (state, user, now), d),
    ensures
        d@.mapped_sip_username == (if state@.user_to_sip.contains_key(user@) {
            Some(state@.user_to_sip[user@])
        } else {
            None
        }),
        d@.registrar_sip_users == state@.registrations.dom().len(),
        d@.registrar_user_mappings == state@.user_to_sip.dom().len(),
        d@.registrations_truncated <==> d@.target_registration_count > 32,
        d@.registrations_truncated ==> d@.registrations.len() == 32,
        !d@.registrations_truncated ==> d@.registrations.len() == d@.target_registration_count,
        d@.target_active_registration_count + d@.target_expired_registration_count
            == d@.target_registration_count,
        0 <= k < d@.registrations.len() ==> exists|n: Seq<char>, p: registrar::RegistrationView|
            #[trigger]
            is_phone_of(state@, user@, n, p) && shows(d@.registrations[k], p, now),
        !d@.registrations_truncated && is_phone_of(state@, user@, name, r) ==> exists|j: int|
            0 <= j < d@.registrations.len() && shows(#[trigger] d@.registrations[j], r, now),
{
    let order = choose|order: Seq<Seq<char>>|
        table::enumerates(order, state@.registrations.dom()) && d@ == #[trigger] state@.diagnostics(
            order,
            user@,
            now,
        );
    let entries = state@.user_entries(order, user@, now);
    if 0 <= k < d@.registrations.len() {
        assert(d@.registrations[k] == entries[k]);
        lemma_user_entries(state@, order, user@, now, k);
    }
    if !d@.registrations_truncated && is_phone_of(state@, user@, name, r) {
        assert(state@.registrations.dom().contains(name));
        assert(order.contains(name));
        lemma_phone_is_entered(state@, order, user@, now, name, r);
        let j = choose|j: int| 0 <= j < entries.len() && shows(#[trigger] entries[j], r, now);
        assert(d@.registrations[j] == entries[j]);
    }
}

/// A snapshot counts a phone as active or as expired as it is.
pub proof fn law_snapshot_counts_active_phones(list: Seq<routing::ContactDiagnosticsView>)
    ensures
        (forall|k: int| 0 <= k < list.len() ==> (#[trigger] list[k]).active)
            ==> registrar::active_entries(list) == list.len(),
        (forall|k: int| 0 <= k < list.len() ==> !(#[trigger] list[k]).active)
            ==> registrar::active_entries(list) == 0,
    decreases list.len(),
{
    if list.len() > 0 {
        let rest = list.drop_last();
        law_snapshot_counts_active_phones(rest);
        assert(forall|k: int| 0 <= k < rest.len() ==> rest[k] == #[trigger] list[k]);
        assert(list.last() == list[list.len() - 1]);
        if forall|k: int| 0 <= k < list.len() ==> (#[trigger] list[k]).active {
            assert forall|k: int| 0 <= k < rest.len() implies (#[trigger] rest[k]).active by {
                assert(list[k].active);
            }
        }
        if forall|k: int| 0 <= k < list.len() ==> !(#[trigger] list[k]).active {
            assert forall|k: int| 0 <= k < rest.len() implies !(#[trigger] rest[k]).active by {
                assert(!list[k].active);
            }
        }
    }
}

// Order

/// What stays under a username stays in its order: of all registrations those that
/// have not expired, or those that are not of the line that was unregistered.
pub proof fn law_phones_stay_in_their_order(
    state: &mut Registrar,
    now: Instant,
    later: &mut Registrar,
    name: &str,
    contact: &RegisteredContact,
    removed: usize,
)
    requires
        call_ensures(Registrar::remove_expired, (state, now), ()),
        call_ensures(Registrar::remove_registration, (later, name, Some(contact)), removed),
    ensures
        under(final(state)@, name@) == under(old(state)@, name@).filter(
            |r: registrar::RegistrationView| now.nanos < r.expires_at.nanos,
        ),
        under(final(later)@, name@) == under(old(later)@, name@).filter(
            |r: registrar::RegistrationView| !same_line(r.contact, contact@),
        ),
{
    let fresh = |r: registrar::RegistrationView| now.nanos < r.expires_at.nanos;
    assert(fresh =~= registrar::unexpired(now));
    let others = |r: registrar::RegistrationView| !same_line(r.contact, contact@);
    assert(others =~= registrar::other_binding(contact@));
    let before = under(old(state)@, name@);
    let kept = before.filter(fresh);
    if !old(state)@.registrations.contains_key(name@) {
        assert(kept =~= Seq::<registrar::RegistrationView>::empty()) by {
            reveal(Seq::filter);
        }
    } else if kept.len() == 0 {
        assert(kept =~= Seq::<registrar::RegistrationView>::empty());
    }
    let list = under(old(later)@, name@);
    if !old(later)@.registrations.contains_key(name@) {
        assert(list.filter(others) =~= Seq::<registrar::RegistrationView>::empty()) by {
            reveal(Seq::filter);
        }
    } else if list.filter(others).len() == 0 {
        assert(list.filter(others) =~= Seq::<registrar::RegistrationView>::empty());
    }
}

/// The phones of a user are told in the order in which they are kept.
pub proof fn law_phones_are_told_in_their_order(
    state: &Registrar,
    user: &str,
    now: Instant,
    routes: Vec<(String, SourceAddr, SipTransport)>,
    k: int,
)
    requires
        call_ensures(Registrar::get_contacts_for_discord_user_id, (state, user, now), routes),
        state@.user_to_sip.contains_key(user@),
    ensures
        ({
            let phones = under(state@, state@.user_to_sip[user@]).filter(
                |r: registrar::RegistrationView|
                    now.nanos < r.expires_at.nanos && r.discord_user_id == user@,
            );
            &&& routes@.len() == phones.len()
            &&& 0 <= k < phones.len() ==> tells_route(routes@[k], phones[k])
        }),
{
    let pred = |r: registrar::RegistrationView|
        now.nanos < r.expires_at.nanos && r.discord_user_id == user@;
    assert(pred =~= registrar::active_for(user@, now));
    let active = state@.active(user@, now);
    let seen = registrar::route_views(routes@);
    assert(seen.len() == routes@.len());
    if 0 <= k < active.len() {
        assert(seen[k] == registrar::route_view(routes@[k]));
        assert(seen[k] == registrar::route_of(active[k]));
    }
}

/// A URI without a password is shown as it is: one without an `@` behind its scheme,
/// and one without a colon before it. A Contact is shown as its URI is.
pub proof fn law_uri_without_password_is_shown_as_it_is(
    uri: &str,
    out: String,
    scheme: Seq<char>,
    user: Seq<char>,
    rest: Seq<char>,
    contact: &RegisteredContact,
    shown: String,
)
    requires
        call_ensures(registrar::redact_sip_uri_credentials, (uri,), out),
        uri@ == scheme + user + rest,
        text::lower(scheme) == "sips:"@ || (text::lower(scheme) == "sip:"@ && !text::contains(
            text::lower(uri@),
            "sips:"@,
        )),
        forall|k: int| 0 <= k < user.len() ==> #[trigger] user[k] != ':' && user[k] != '@',
        rest.len() == 0 || rest[0] == '@',
        contact@.advertised_uri == uri@,
        call_ensures(RegisteredContact::display, (contact,), shown),
    ensures
        out@ == uri@,
        shown@ == out@,
{
    reveal_strlit("sips:");
    reveal_strlit("sip:");
    let lower = text::lower(uri@);
    let start = scheme.len() as int;
    assert(text::lower(scheme).len() == scheme.len());
    assert(lower.subrange(0, start) =~= text::lower(scheme));
    if text::lower(scheme) == "sips:"@ {
        assert(text::occurs_at(lower, "sips:"@, 0));
    } else {
        assert(text::occurs_at(lower, "sip:"@, 0));
        text::lemma_find_from(lower, "sips:"@, 0);
        assert(text::find_from(lower, "sips:"@, 0) is None);
    }
    text::lemma_next_char(uri@, '@', start);
    text::lemma_next_char(uri@, ':', start);
    let end = start + user.len();
    assert forall|j: int| start <= j < end implies uri@[j] != ':' && uri@[j] != '@' by {
        assert(uri@[j] == user[j - start]);
    }
    if rest.len() > 0 {
        assert(uri@[end] == '@');
    }
    assert(text::next_char(uri@, ':', start) >= end);
}

} // verus!
