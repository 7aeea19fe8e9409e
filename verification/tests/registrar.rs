//! Tests of the registrar.

use sipcord_bridge::services::registrar::{
    redact_sip_uri_credentials, Bindings, RegisteredContact, Registrar, Registration,
    SipTransport, SourceAddr,
};
use sipcord_bridge::time::Instant;

fn at(secs: u64) -> Instant {
    Instant { nanos: secs * 1_000_000_000 }
}

const NOW: u64 = 1_000;

fn addr(text: &str) -> SourceAddr {
    let (ip, port) = text.rsplit_once(':').unwrap();
    SourceAddr {
        ip: ip.to_string(),
        port: port.parse().unwrap(),
        is_ipv6: false,
    }
}

fn make_reg(
    sip_user: &str,
    discord_user_id: &str,
    source: &str,
    contact: &str,
    expires_secs: u64,
) -> Registration {
    make_reg_with_contact(
        sip_user,
        discord_user_id,
        source,
        contact,
        contact,
        None,
        contact,
        expires_secs,
    )
}

fn make_reg_with_contact(
    sip_user: &str,
    discord_user_id: &str,
    source: &str,
    advertised_uri: &str,
    legacy_base_uri: &str,
    line: Option<&str>,
    callback_uri: &str,
    expires_secs: u64,
) -> Registration {
    Registration {
        sip_username: sip_user.to_string(),
        discord_user_id: discord_user_id.to_string(),
        contact: RegisteredContact::new(
            advertised_uri.to_string(),
            legacy_base_uri.to_string(),
            line.map(str::to_string),
            callback_uri.to_string(),
        ),
        source_addr: addr(source),
        transport: SipTransport::Udp,
        expires_at: at(NOW + expires_secs),
        registered_at: at(NOW),
    }
}

#[test]
fn test_add_and_lookup() {
    let mut reg = Registrar::new();
    reg.add_registration(make_reg("alice", "1001", "1.2.3.4:5060", "sip:alice@1.2.3.4", 300));
    let addrs = reg.get_source_addrs_for_sip_user("alice", at(NOW));
    assert_eq!(addrs.len(), 1);
    assert_eq!(addrs[0].to_text(), "1.2.3.4:5060");
}

#[test]
fn test_discord_reverse_lookup() {
    let mut reg = Registrar::new();
    reg.add_registration(make_reg("bob", "1002", "5.6.7.8:5060", "sip:bob@5.6.7.8", 300));
    let contacts = reg.get_contacts_for_discord_user_id("1002", at(NOW));
    assert_eq!(contacts.len(), 1);
    assert_eq!(contacts[0].0, "sip:bob@5.6.7.8");
}

#[test]
fn test_update_existing_registration() {
    let mut reg = Registrar::new();
    reg.add_registration(make_reg("alice", "1001", "1.2.3.4:5060", "sip:alice@1.2.3.4", 300));
    // Same Contact URI -> update in place
    reg.add_registration(make_reg("alice", "1001", "1.2.3.4:5060", "sip:alice@1.2.3.4", 600));
    let addrs = reg.get_source_addrs_for_sip_user("alice", at(NOW));
    assert_eq!(addrs.len(), 1); // Should not duplicate
}

#[test]
fn refresh_updates_nat_source_without_duplicating_contact() {
    let mut reg = Registrar::new();
    reg.add_registration(make_reg(
        "alice",
        "1001",
        "1.2.3.4:5060",
        "sip:alice@phone.local:5060",
        300,
    ));
    reg.add_registration(make_reg(
        "alice",
        "1001",
        "1.2.3.4:62000",
        "sip:alice@phone.local:5060",
        300,
    ));

    let contacts = reg.get_contacts_for_discord_user_id("1001", at(NOW));
    assert_eq!(contacts.len(), 1);
    assert_eq!(contacts[0].1.to_text(), "1.2.3.4:62000");
}

#[test]
fn refresh_ignores_non_line_contact_parameter_churn() {
    let mut reg = Registrar::new();
    let base = "sip:alice@phone.local:5060";
    reg.add_registration(make_reg_with_contact(
        "alice",
        "1001",
        "1.2.3.4:5060",
        "sip:alice@phone.local:5060;vendor-state=one",
        base,
        None,
        "sip:alice@1.2.3.4:5060;transport=udp;vendor-state=one",
        300,
    ));
    reg.add_registration(make_reg_with_contact(
        "alice",
        "1001",
        "1.2.3.4:62000",
        "sip:alice@phone.local:5060;vendor-state=two",
        base,
        None,
        "sip:alice@1.2.3.4:62000;transport=udp;vendor-state=two",
        300,
    ));

    let contacts = reg.get_contacts_for_discord_user_id("1001", at(NOW));
    assert_eq!(contacts.len(), 1);
    assert_eq!(contacts[0].1.to_text(), "1.2.3.4:62000");
    assert_eq!(contacts[0].0, "sip:alice@phone.local:5060;vendor-state=two");
    let callback_uris = reg.get_callback_uris_for_discord_user_id("1001", at(NOW));
    assert_eq!(
        callback_uris[0],
        "sip:alice@1.2.3.4:62000;transport=udp;vendor-state=two"
    );
}

#[test]
fn refresh_with_same_line_token_updates_nat_callback_without_duplication() {
    let mut reg = Registrar::new();
    let base = "sip:sipcord-inbound@pbx.local:5060";
    reg.add_registration(make_reg_with_contact(
        "alice",
        "1001",
        "1.2.3.4:51000",
        "sip:sipcord-inbound@pbx.local:5060;line=opaque",
        base,
        Some("opaque"),
        "sip:sipcord-inbound@1.2.3.4:51000;transport=udp;line=opaque",
        300,
    ));
    reg.add_registration(make_reg_with_contact(
        "alice",
        "1001",
        "1.2.3.4:62000",
        "sip:sipcord-inbound@pbx.local:5060;line=opaque",
        base,
        Some("opaque"),
        "sip:sipcord-inbound@1.2.3.4:62000;transport=udp;line=opaque",
        300,
    ));

    let contacts = reg.get_contacts_for_discord_user_id("1001", at(NOW));
    assert_eq!(contacts.len(), 1);
    assert_eq!(contacts[0].1.to_text(), "1.2.3.4:62000");
    let callback_uris = reg.get_callback_uris_for_discord_user_id("1001", at(NOW));
    assert_eq!(
        callback_uris[0],
        "sip:sipcord-inbound@1.2.3.4:62000;transport=udp;line=opaque"
    );
}

#[test]
fn line_tokens_distinguish_bindings_and_targeted_unregister() {
    let mut reg = Registrar::new();
    let base = "sip:sipcord-inbound@pbx.local:5060";
    let first = make_reg_with_contact(
        "alice",
        "1001",
        "1.2.3.4:51000",
        "sip:sipcord-inbound@pbx.local:5060;line=first",
        base,
        Some("first"),
        "sip:sipcord-inbound@1.2.3.4:51000;transport=udp;line=first",
        300,
    );
    let first_contact = first.contact.clone();
    reg.add_registration(first);
    reg.add_registration(make_reg_with_contact(
        "alice",
        "1001",
        "1.2.3.4:52000",
        "sip:sipcord-inbound@pbx.local:5060;line=second",
        base,
        Some("second"),
        "sip:sipcord-inbound@1.2.3.4:52000;transport=udp;line=second",
        300,
    ));

    let callback_uris = reg.get_callback_uris_for_discord_user_id("1001", at(NOW));
    assert_eq!(callback_uris.len(), 2);
    assert!(callback_uris.iter().any(|request_uri| request_uri.ends_with(";line=first")));
    assert!(callback_uris.iter().any(|request_uri| request_uri.ends_with(";line=second")));

    assert_eq!(reg.remove_registration("alice", Some(&first_contact)), 1);
    let callback_uris = reg.get_callback_uris_for_discord_user_id("1001", at(NOW));
    assert_eq!(callback_uris.len(), 1);
    assert!(callback_uris[0].ends_with(";line=second"));
}

#[test]
fn unregister_removes_every_stale_source_for_contact() {
    let mut reg = Registrar::new();
    // A list that holds the same binding twice, seen from two sources.
    let contact = "sip:alice@phone.local:5060";
    let registrations = vec![
        make_reg("alice", "1001", "1.2.3.4:5060", contact, 300),
        make_reg("alice", "1001", "1.2.3.4:62000", contact, 300),
    ];
    let registered_contact = registrations[0].contact.clone();
    reg.registrations
        .insert("alice".to_string(), Bindings { list: registrations });
    reg.user_to_sip.insert("1001".to_string(), "alice".to_string());

    assert_eq!(reg.remove_registration("alice", Some(&registered_contact)), 2);
    assert!(reg.get_contacts_for_discord_user_id("1001", at(NOW)).is_empty());
    assert!(!reg.user_to_sip.contains_key("1001"));
}

#[test]
fn wildcard_unregister_removes_all_contacts() {
    let mut reg = Registrar::new();
    reg.add_registration(make_reg(
        "alice",
        "1001",
        "1.2.3.4:5060",
        "sip:alice@phone-a.local",
        300,
    ));
    reg.add_registration(make_reg(
        "alice",
        "1001",
        "5.6.7.8:5060",
        "sip:alice@phone-b.local",
        300,
    ));

    assert_eq!(reg.remove_registration("alice", None), 2);
    assert!(reg.get_contacts_for_discord_user_id("1001", at(NOW)).is_empty());
}

#[test]
fn test_multiple_registrations_per_user() {
    let mut reg = Registrar::new();
    reg.add_registration(make_reg("alice", "1001", "1.2.3.4:5060", "sip:alice@1.2.3.4", 300));
    reg.add_registration(make_reg("alice", "1001", "5.6.7.8:5060", "sip:alice@5.6.7.8", 300));
    let addrs = reg.get_source_addrs_for_sip_user("alice", at(NOW));
    assert_eq!(addrs.len(), 2);
}

#[test]
fn test_remove_expired() {
    let mut reg = Registrar::new();
    let mut expired_reg = make_reg("alice", "1001", "1.2.3.4:5060", "sip:alice@1.2.3.4", 0);
    expired_reg.expires_at = at(NOW - 1);
    reg.add_registration(expired_reg);
    reg.add_registration(make_reg("alice", "1001", "5.6.7.8:5060", "sip:alice@5.6.7.8", 300));

    reg.remove_expired(at(NOW));
    let addrs = reg.get_source_addrs_for_sip_user("alice", at(NOW));
    assert_eq!(addrs.len(), 1);
    assert_eq!(addrs[0].to_text(), "5.6.7.8:5060");
}

#[test]
fn test_get_contacts_for_discord_user_expired_filtered() {
    let mut reg = Registrar::new();
    let mut expired_reg = make_reg("charlie", "1003", "1.2.3.4:5060", "sip:charlie@1.2.3.4", 0);
    expired_reg.expires_at = at(NOW - 1);
    reg.add_registration(expired_reg);

    reg.add_registration(make_reg(
        "charlie",
        "1003",
        "5.6.7.8:5060",
        "sip:charlie@5.6.7.8",
        300,
    ));

    let contacts = reg.get_contacts_for_discord_user_id("1003", at(NOW));
    assert_eq!(contacts.len(), 1);
    assert_eq!(contacts[0].0, "sip:charlie@5.6.7.8");
}

#[test]
fn diagnostics_include_active_and_expired_contacts() {
    let mut reg = Registrar::new();
    let mut expired = make_reg("charlie", "1003", "1.2.3.4:5060", "sip:charlie@1.2.3.4", 0);
    expired.expires_at = at(NOW - 1);
    reg.add_registration(expired);
    let mut active = make_reg(
        "charlie",
        "1003",
        "5.6.7.8:5061",
        "sips:charlie@5.6.7.8:5061",
        300,
    );
    active.transport = SipTransport::Tls;
    reg.add_registration(active);

    let diagnostics = reg.diagnostics_for_discord_user_id("1003", at(NOW));
    assert_eq!(diagnostics.mapped_sip_username.as_deref(), Some("charlie"));
    assert_eq!(diagnostics.target_registration_count, 2);
    assert_eq!(diagnostics.target_active_registration_count, 1);
    assert_eq!(diagnostics.target_expired_registration_count, 1);
    assert!(!diagnostics.registrations_truncated);
    assert!(diagnostics.registrations.iter().any(|contact| {
        contact.active && contact.transport == "tls" && contact.source_addr == "5.6.7.8:5061"
    }));
    assert!(diagnostics
        .registrations
        .iter()
        .any(|contact| { !contact.active && contact.contact_uri == "sip:charlie@1.2.3.4" }));
    assert!(diagnostics
        .registrations
        .iter()
        .any(|contact| contact.expires_in_ms == 300_000));
}

#[test]
fn diagnostics_expose_a_missing_reverse_index() {
    let mut reg = Registrar::new();
    reg.add_registration(make_reg("alice", "1001", "1.2.3.4:5060", "sip:alice@1.2.3.4", 300));
    reg.user_to_sip.remove("1001");

    let diagnostics = reg.diagnostics_for_discord_user_id("1001", at(NOW));
    assert_eq!(diagnostics.mapped_sip_username, None);
    assert_eq!(diagnostics.target_registration_count, 1);
    assert_eq!(diagnostics.target_active_registration_count, 1);
}

#[test]
fn diagnostics_redact_sip_uri_passwords() {
    assert_eq!(
        redact_sip_uri_credentials("<sips:alice:super-secret@example.com:5061;transport=tls>"),
        "<sips:alice:[redacted]@example.com:5061;transport=tls>"
    );
    assert_eq!(
        redact_sip_uri_credentials("sip:alice@example.com"),
        "sip:alice@example.com"
    );
}

#[test]
fn expiring_one_phone_preserves_other_contacts() {
    let mut reg = Registrar::new();
    let mut expired = make_reg("alice", "1001", "1.2.3.4:5060", "sip:alice@1.2.3.4", 0);
    expired.expires_at = at(NOW - 1);
    reg.add_registration(expired);
    reg.add_registration(make_reg("alice", "1001", "5.6.7.8:5060", "sip:alice@5.6.7.8", 300));

    reg.remove_expired(at(NOW));

    let contacts = reg.get_contacts_for_discord_user_id("1001", at(NOW));
    assert_eq!(contacts.len(), 1);
    assert_eq!(contacts[0].1.to_text(), "5.6.7.8:5060");
}

#[test]
fn users_sharing_a_sip_name_never_receive_each_others_contacts() {
    let mut registrar = Registrar::new();
    registrar.add_registration(make_reg(
        "shared",
        "1001",
        "10.0.0.1:5060",
        "sip:shared@phone-a.local",
        300,
    ));
    registrar.add_registration(make_reg(
        "shared",
        "1002",
        "10.0.0.2:5060",
        "sip:shared@phone-b.local",
        300,
    ));

    let alice = registrar.get_contacts_for_discord_user_id("1001", at(NOW));
    let bob = registrar.get_contacts_for_discord_user_id("1002", at(NOW));
    assert_eq!(alice.len(), 1);
    assert_eq!(alice[0].0, "sip:shared@phone-a.local");
    assert_eq!(bob.len(), 1);
    assert_eq!(bob[0].0, "sip:shared@phone-b.local");
}

#[test]
fn refresh_updates_transport_and_user_mapping_atomically() {
    let mut registrar = Registrar::new();
    registrar.add_registration(make_reg(
        "alice",
        "old-user",
        "10.0.0.1:5060",
        "sip:alice@phone.local",
        300,
    ));
    let mut refreshed = make_reg(
        "alice",
        "new-user",
        "10.0.0.1:5060",
        "sip:alice@phone.local",
        300,
    );
    refreshed.transport = SipTransport::Tls;
    registrar.add_registration(refreshed);

    assert!(registrar
        .get_contacts_for_discord_user_id("old-user", at(NOW))
        .is_empty());
    let contacts = registrar.get_contacts_for_discord_user_id("new-user", at(NOW));
    assert_eq!(contacts.len(), 1);
    assert_eq!(contacts[0].2, SipTransport::Tls);
}

#[test]
fn many_phones_are_all_routable() {
    const PHONES: usize = 128;
    let mut registrar = Registrar::new();
    for index in 0..PHONES {
        registrar.add_registration(make_reg(
            "alice",
            "1001",
            &format!("10.0.0.{}:{}", index / 250 + 1, 5_000 + index),
            &format!("sip:alice@phone-{index}.local"),
            300,
        ));
    }
    let contacts = registrar.get_contacts_for_discord_user_id("1001", at(NOW));
    assert_eq!(contacts.len(), PHONES);
    for index in 0..PHONES {
        assert!(contacts
            .iter()
            .any(|contact| contact.0 == format!("sip:alice@phone-{index}.local")));
    }
}

#[test]
fn many_refreshes_of_one_phone_do_not_duplicate_it() {
    let mut registrar = Registrar::new();
    for _ in 0..64 {
        registrar.add_registration(make_reg(
            "alice",
            "1001",
            "10.0.0.1:5060",
            "sip:alice@phone.local",
            300,
        ));
    }
    assert_eq!(
        registrar.get_contacts_for_discord_user_id("1001", at(NOW)).len(),
        1
    );
}

#[test]
fn last_expired_phone_takes_its_user_mapping_along() {
    let mut registrar = Registrar::new();
    registrar.add_registration(make_reg("alice", "1001", "1.2.3.4:5060", "sip:alice@a", 10));
    registrar.remove_expired(at(NOW + 9));
    assert!(registrar.user_to_sip.contains_key("1001"));
    registrar.remove_expired(at(NOW + 10));
    assert!(!registrar.user_to_sip.contains_key("1001"));
    assert!(!registrar.registrations.contains_key("alice"));
}

#[test]
fn unregistering_an_unknown_phone_changes_nothing() {
    let mut registrar = Registrar::new();
    registrar.add_registration(make_reg("alice", "1001", "1.2.3.4:5060", "sip:alice@a", 300));
    let other = make_reg("alice", "1001", "1.2.3.4:5060", "sip:alice@b", 300).contact;
    assert_eq!(registrar.remove_registration("alice", Some(&other)), 0);
    assert_eq!(registrar.remove_registration("bob", None), 0);
    assert_eq!(
        registrar.get_contacts_for_discord_user_id("1001", at(NOW)).len(),
        1
    );
}

#[test]
fn ipv6_addresses_are_bracketed() {
    let v6 = SourceAddr { ip: "2001:db8::1".to_string(), port: 5061, is_ipv6: true };
    assert_eq!(v6.to_text(), "[2001:db8::1]:5061");
    assert_eq!(addr("10.0.0.9:65535").to_text(), "10.0.0.9:65535");
}

#[test]
fn redaction_handles_case_and_missing_parts() {
    assert_eq!(
        redact_sip_uri_credentials("SIP:bob:pw@host"),
        "SIP:bob:[redacted]@host"
    );
    assert_eq!(redact_sip_uri_credentials("no uri"), "no uri");
    assert_eq!(redact_sip_uri_credentials(""), "");
}

#[test]
fn transport_names_are_lower_case() {
    assert_eq!(SipTransport::Udp.name(), "udp");
    assert_eq!(SipTransport::Tcp.name(), "tcp");
    assert_eq!(SipTransport::Tls.name(), "tls");
}

#[test]
fn redaction_does_not_depend_on_the_password() {
    for password in ["secret", "a:b", ""] {
        assert_eq!(
            redact_sip_uri_credentials(&format!("sip:alice:{password}@phone.local:5060")),
            "sip:alice:[redacted]@phone.local:5060"
        );
        assert_eq!(
            redact_sip_uri_credentials(&format!("SIPS:alice:{password}@phone.local")),
            "SIPS:alice:[redacted]@phone.local"
        );
    }
}

#[test]
fn another_phone_leaves_the_first_one_routable() {
    let mut registrar = Registrar::new();
    let phones = [("alice", "1001", "10.0.0.1:5060"), ("alice", "1001", "10.0.0.2:5060")];
    for (name, user, source) in phones {
        let contact = format!("sip:{name}@{source}");
        registrar.add_registration(make_reg(name, user, source, &contact, 300));
    }
    registrar.add_registration(make_reg("bob", "2002", "10.0.0.3:5060", "sip:bob@x", 300));
    assert_eq!(registrar.get_contacts_for_discord_user_id("1001", at(0)).len(), 2);
    assert_eq!(registrar.get_contacts_for_discord_user_id("2002", at(0)).len(), 1);
}
