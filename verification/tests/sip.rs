//! Tests of the SIP side: contacts, registration, NAT fixups.

use sipcord_bridge::net::{parse_ipv4, Ipv4Addr};
use sipcord_bridge::services::auth_cache::{
    md5_hex, AuthCache, CachedAuth, RegisterData, VerifyResult,
};
use sipcord_bridge::services::registrar::{RegisteredContact, SipTransport, SourceAddr};
use sipcord_bridge::time::Duration;
use sipcord_bridge::transport::sip::contact::{
    has_sip_scheme, response_value, ContactError, ContactHeader, ContactUri, UriParam,
};
use sipcord_bridge::transport::sip::ffi::utils::extract_sip_username;
use sipcord_bridge::transport::sip::nat_fixup::{
    extract_dst_ipv4, is_rfc1918, on_rx_request_nat_fixup_cb, on_rx_response_nat_fixup_cb,
    on_tx_request_cb, on_tx_response_cb, rewrite_sdp_body, sanitize_sdp_missing_rtpmap,
    ContactHost, LocalNetConfig, PacketSource, PublicHostConfig, SipMessage, TxTarget,
};
use sipcord_bridge::transport::sip::register_handler::{
    answer_register, build_legacy_callback_uri, challenge_with_nonce, consult_cache, consult_held,
    detect_transport, dispatch_register_request, extract_expires, extract_registered_contact,
    gate_register, limit_register,
    needs_symmetric_register_response, normalize_register_response_route, on_rx_request_cb,
    plan_deferred_register, plan_register, register_ok, CacheVerdict, RegisterAction,
    RegisterGate, RegisterInput, RegisterRequest, SerializedContact, SipResponse, ViaRoute,
    WireTransport,
};
use sipcord_bridge::transport::sip::types::{DigestAuthParams, PendingRegisterTsx, SipCommand};

// Schemes

#[test]
fn only_sip_and_sips_are_schemes_of_sip() {
    assert!(has_sip_scheme("sip"));
    assert!(has_sip_scheme("SIPS"));
    assert!(!has_sip_scheme("tel"));
    assert!(!has_sip_scheme(""));
}

// User names

#[test]
fn test_extract_sip_username_full_uri() {
    assert_eq!(extract_sip_username("<sip:alice@example.com>"), "alice");
}

#[test]
fn test_extract_sip_username_no_brackets() {
    assert_eq!(extract_sip_username("sip:bob@domain"), "bob");
}

#[test]
fn test_extract_sip_username_no_sip_prefix() {
    assert_eq!(extract_sip_username("charlie@host"), "charlie");
}

#[test]
fn test_extract_sip_username_no_at() {
    assert_eq!(extract_sip_username("sip:dave"), "dave");
}

#[test]
fn test_extract_sip_username_with_port() {
    assert_eq!(extract_sip_username("<sip:eve@host:5060>"), "eve");
}

#[test]
fn test_extract_sip_username_empty() {
    assert_eq!(extract_sip_username(""), "");
}

// Contacts

fn uri(user: &str, host: &str, port: i32) -> ContactUri {
    ContactUri {
        scheme: "sip".to_string(),
        user: user.to_string(),
        passwd: String::new(),
        host: host.to_string(),
        port,
        user_param: String::new(),
        method_param: String::new(),
        transport_param: String::new(),
        ttl_param: -1,
        lr_param: 0,
        maddr_param: String::new(),
        other_params: Vec::new(),
        header_params: Vec::new(),
    }
}

fn source(ip: &str, port: u16) -> SourceAddr {
    SourceAddr { ip: ip.to_string(), port, is_ipv6: false }
}

#[test]
fn unwraps_name_address_and_finds_line_case_insensitively() {
    let mut with_line = uri("sipcord-inbound", "pbx.local", 5060);
    with_line.other_params.push(UriParam {
        name: "LiNe".to_string(),
        value: "AbC123".to_string(),
    });
    let contact = ContactHeader { star: false, uri: Some(with_line), expires: 3600 };
    let parsed = contact.sip_uri().unwrap().unwrap();

    assert_eq!(parsed.user().as_deref(), Some("sipcord-inbound"));
    assert_eq!(parsed.host(), "pbx.local");
    assert_eq!(parsed.port(), 5060);
    assert_eq!(parsed.parameter("line").as_deref(), Some("AbC123"));
    assert_eq!(parsed.legacy_base_uri(), "sip:sipcord-inbound@pbx.local:5060");
}

#[test]
fn wildcard_contact_has_no_sip_uri() {
    let contact = ContactHeader { star: true, uri: None, expires: 0 };

    assert!(contact.is_wildcard());
    assert!(contact.sip_uri().unwrap().is_none());
}

#[test]
fn unusable_contacts_are_refused() {
    let missing = ContactHeader { star: false, uri: None, expires: 0 };
    assert!(matches!(missing.sip_uri(), Err(ContactError::MissingUri)));
    let mut tel = uri("a", "h", 0);
    tel.scheme = "tel".to_string();
    let tel = ContactHeader { star: false, uri: Some(tel), expires: 0 };
    assert!(matches!(
        tel.sip_uri(),
        Err(ContactError::UnsupportedScheme(scheme)) if scheme == "tel"
    ));
    let hostless = ContactHeader { star: false, uri: Some(uri("a", "", 0)), expires: 0 };
    assert!(matches!(hostless.sip_uri(), Err(ContactError::MissingHost)));
    assert!(matches!(response_value(""), Err(ContactError::MissingHeaderValue)));
    let mut host = uri("a", "h", 0);
    assert!(matches!(host.rewrite_host("a\0b", 1), Err(ContactError::InvalidString)));
    assert_eq!(host.host(), "h");
}

#[test]
fn response_lists_the_value_of_the_contact_header() {
    assert_eq!(
        response_value("Contact: <sip:alice@phone.local>;expires=300").unwrap(),
        "<sip:alice@phone.local>;expires=300"
    );
}

#[test]
fn callback_goes_to_the_observed_source() {
    let mut phone = uri("alice", "192.168.1.10", 5060);
    phone.maddr_param = "192.0.2.99".to_string();
    phone
        .rewrite_for_callback(&source("203.0.113.8", 51896), SipTransport::Tcp)
        .unwrap();
    assert_eq!(phone.host(), "203.0.113.8");
    assert_eq!(phone.port(), 51896);
    assert_eq!(phone.transport_param, "tcp");
    assert_eq!(phone.maddr_param, "");
    assert_eq!(phone.user().as_deref(), Some("alice"));
}

// Registration

fn request(pending: bool) -> RegisterRequest {
    RegisterRequest {
        digest_auth: DigestAuthParams { username: "alice".into(), ..DigestAuthParams::default() },
        contact: Some(RegisteredContact::new(
            "sip:alice@phone.local".into(),
            "sip:alice@phone.local".into(),
            None,
            "sip:alice@203.0.113.5:5060;transport=udp".into(),
        )),
        source_addr: None,
        transport: SipTransport::Udp,
        expires: 300,
        pending_tsx: if pending {
            Some(PendingRegisterTsx {
                transaction: 7,
                expires: 300,
                contact_value: Some("<sip:alice@phone.local>;expires=300".into()),
            })
        } else {
            None
        },
    }
}

#[test]
fn live_verification_queue_receives_register() {
    let (event_tx, mut event_rx) = tokio::sync::mpsc::unbounded_channel();
    let sent = event_tx.send(request(false)).map_err(|error| error.0);
    assert!(dispatch_register_request(sent).is_none());
    assert_eq!(event_rx.try_recv().unwrap().digest_auth.username, "alice");
}

#[test]
fn closed_verification_queue_rejects_deferred_register() {
    let (event_tx, event_rx) = tokio::sync::mpsc::unbounded_channel();
    drop(event_rx);
    let sent = event_tx.send(request(true)).map_err(|error| error.0);

    let command = dispatch_register_request(sent);

    assert!(matches!(
        command,
        Some(SipCommand::RespondRegister { auth_ok: false, .. })
    ));
    assert!(dispatch_register_request(Err(request(false))).is_none());
}

#[test]
fn only_udp_without_rport_uses_symmetric_response_routing() {
    assert!(needs_symmetric_register_response(WireTransport::Udp, -1, 51_896));
    assert!(needs_symmetric_register_response(WireTransport::Udp6, -1, 51_896));
    assert!(!needs_symmetric_register_response(WireTransport::Udp, 51_896, 51_896));
    assert!(!needs_symmetric_register_response(WireTransport::Tcp, -1, 51_896));
    assert!(!needs_symmetric_register_response(WireTransport::Tls, -1, 51_896));
    assert!(!needs_symmetric_register_response(WireTransport::Udp, -1, 0));
}

#[test]
fn symmetric_register_response_uses_packet_port_and_ignores_maddr() {
    let mut via = ViaRoute { rport: -1, maddr: "192.0.2.99".to_string(), sent_by_port: 5060 };

    normalize_register_response_route(Some(WireTransport::Udp), &mut via, 51_896);

    assert_eq!(via.rport, 51_896);
    assert!(via.maddr.is_empty());
    assert_eq!(via.maddr.len(), 0);
    assert_eq!(via.sent_by_port, 5060);
}

#[test]
fn other_routes_stay_as_they_are() {
    let mut via = ViaRoute { rport: -1, maddr: "192.0.2.99".to_string(), sent_by_port: 5060 };
    normalize_register_response_route(None, &mut via, 51_896);
    normalize_register_response_route(Some(WireTransport::Tcp), &mut via, 51_896);
    assert_eq!(via.rport, -1);
    assert_eq!(via.maddr, "192.0.2.99");
}

#[test]
fn legacy_callback_uri_keeps_observed_transport_and_source() {
    let source = source("203.0.113.8", 51896);
    assert_eq!(
        build_legacy_callback_uri(
            "sip:sipcord-inbound@192.168.1.10:5060",
            &source,
            SipTransport::Udp
        ),
        "sip:sipcord-inbound@203.0.113.8:51896;transport=udp"
    );
    assert_eq!(
        build_legacy_callback_uri(
            "sip:sipcord-inbound@192.168.1.10:5060",
            &source,
            SipTransport::Tcp
        ),
        "sip:sipcord-inbound@203.0.113.8:51896;transport=tcp"
    );
    assert_eq!(
        build_legacy_callback_uri(
            "sip:sipcord-inbound@192.168.1.10:5060",
            &source,
            SipTransport::Tls
        ),
        "sips:sipcord-inbound@203.0.113.8:51896"
    );
}

#[test]
fn transports_are_told_apart() {
    assert_eq!(detect_transport(Some(WireTransport::Tls)), SipTransport::Tls);
    assert_eq!(detect_transport(Some(WireTransport::Tcp)), SipTransport::Tcp);
    assert_eq!(detect_transport(Some(WireTransport::Udp)), SipTransport::Udp);
    assert_eq!(detect_transport(None), SipTransport::Udp);
}

fn header<'a>(response: &'a SipResponse, name: &str) -> Option<&'a str> {
    response
        .headers
        .iter()
        .find(|h| h.name == name)
        .map(|h| h.value.as_str())
}

#[test]
fn accepted_register_lists_its_contact() {
    let ok = register_ok(300, &Some("<sip:alice@phone.local>;expires=300".to_string()));
    assert_eq!(ok.status, 200);
    assert_eq!(header(&ok, "Expires"), Some("300"));
    assert_eq!(
        header(&ok, "Contact"),
        Some("<sip:alice@phone.local>;expires=300")
    );
    assert_eq!(header(&register_ok(0, &None), "Contact"), None);
}

#[test]
fn challenge_holds_the_nonce() {
    let challenge = challenge_with_nonce(&vec![0xab; 16]);
    assert_eq!(challenge.status, 401);
    let value = header(&challenge, "WWW-Authenticate").unwrap();
    assert!(value.contains(&"ab".repeat(16)));
    assert!(value.contains("realm=\"sipcord\""));
}

#[test]
fn gate_turns_banned_and_scanning_sources_away() {
    assert!(matches!(gate_register(false, true, true, true), RegisterGate::PassOn));
    assert!(matches!(
        gate_register(true, true, true, false),
        RegisterGate::Reject { permanent_ban: false, .. }
    ));
    assert!(matches!(
        gate_register(true, true, false, true),
        RegisterGate::Reject { permanent_ban: true, .. }
    ));
    assert!(matches!(gate_register(true, true, false, false), RegisterGate::CountRequest));
    assert!(matches!(gate_register(true, false, false, false), RegisterGate::Admit));
    assert_eq!(limit_register(true).unwrap().status, 429);
    assert!(limit_register(false).is_none());
}

fn digest(name: &str, ha1: &str) -> DigestAuthParams {
    let ha2 = md5_hex("REGISTER:sip:sipcord");
    DigestAuthParams {
        username: name.to_string(),
        realm: "sipcord".to_string(),
        nonce: "n1".to_string(),
        uri: "sip:sipcord".to_string(),
        response: md5_hex(&format!("{}:{}:{}", ha1, "n1", ha2)),
        method: "REGISTER".to_string(),
        qop: None,
        nc: None,
        cnonce: None,
    }
}

fn input(auth: Option<DigestAuthParams>) -> RegisterInput {
    RegisterInput {
        digest: auth,
        contact: Some(ContactHeader {
            star: false,
            uri: Some(uri("alice", "192.168.1.10", 5060)),
            expires: 120,
        }),
        serialized: SerializedContact {
            uri: Some("sip:alice@192.168.1.10:5060".to_string()),
            header: Some("Contact: <sip:alice@192.168.1.10:5060>;expires=120".to_string()),
            callback: Some("sip:alice@203.0.113.8:51896;transport=udp".to_string()),
        },
        expires_header: Some(600),
        source_addr: Some(source("203.0.113.8", 51896)),
        wire: Some(WireTransport::Udp),
    }
}

#[test]
fn register_without_credentials_is_challenged() {
    let mut cache = Some(AuthCache::new(Duration::from_secs(300), Duration::from_secs(60), 3));
    let first = on_rx_request_cb(input(None), &mut cache);
    let second = on_rx_request_cb(input(None), &mut cache);
    let value = |actions: &Vec<RegisterAction>| match &actions[0] {
        RegisterAction::Respond(response) => {
            assert_eq!(response.status, 401);
            header(response, "WWW-Authenticate").unwrap().to_string()
        }
        _ => panic!("expected a challenge"),
    };
    assert_eq!(first.len(), 1);
    assert_ne!(value(&first), value(&second));
}

#[test]
fn register_with_cached_credentials_is_answered_at_once() {
    let ha1 = md5_hex("alice:sipcord:pw");
    let mut cache = Some(AuthCache::new(Duration::from_secs(300), Duration::from_secs(60), 3));
    cache.as_mut().unwrap().insert(
        "alice",
        &ha1,
        RegisterData {
            sip_username: "alice".to_string(),
            discord_user_id: "1".to_string(),
            ha1: Some(ha1.clone()),
        },
    );
    let actions = on_rx_request_cb(input(Some(digest("alice", &ha1))), &mut cache);
    assert_eq!(actions.len(), 2);
    match &actions[0] {
        RegisterAction::Respond(response) => {
            assert_eq!(response.status, 200);
            assert_eq!(header(response, "Expires"), Some("120"));
        }
        _ => panic!("expected an answer"),
    }
    match &actions[1] {
        RegisterAction::Queue(request) => {
            assert_eq!(
                request.contact.as_ref().unwrap().callback_uri(),
                "sip:alice@203.0.113.8:51896;transport=udp"
            );
            assert_eq!(request.expires, 120);
        }
        _ => panic!("expected a request"),
    }

    let wrong = md5_hex("alice:sipcord:other");
    let refused = on_rx_request_cb(input(Some(digest("alice", &wrong))), &mut cache);
    assert!(matches!(&refused[0], RegisterAction::Respond(r) if r.status == 403));
    let unknown = on_rx_request_cb(input(Some(digest("alice", &ha1))), &mut cache);
    assert!(matches!(&unknown[0], RegisterAction::Defer { .. }));
}

#[test]
fn register_in_cooldown_is_turned_away() {
    let mut cache = Some(AuthCache::new(Duration::from_secs(300), Duration::from_secs(60), 1));
    cache.as_mut().unwrap().record_failure("alice");
    let actions = on_rx_request_cb(input(Some(digest("alice", "x"))), &mut cache);
    assert_eq!(actions.len(), 1);
    assert!(matches!(&actions[0], RegisterAction::Respond(r) if r.status == 429));
}

#[test]
fn what_the_cache_held_decides_on_a_register() {
    let ha1 = md5_hex("alice:sipcord:pw");
    let right = digest("alice", &ha1);
    let wrong = digest("alice", &md5_hex("alice:sipcord:other"));
    let data = RegisterData {
        sip_username: "alice".to_string(),
        discord_user_id: "1001".to_string(),
        ha1: None,
    };
    let held = Some(CachedAuth { ha1: ha1.clone(), register_data: data.clone() });
    let mut cache = Some(AuthCache::new(Duration::from_secs(300), Duration::from_secs(60), 2));
    cache.as_mut().unwrap().insert("alice", &ha1, data);

    assert_eq!(consult_held(&mut cache, Some(2), &held, &right), CacheVerdict::Cooldown);
    assert_eq!(
        consult_held(&mut cache, Some(1), &held, &right),
        CacheVerdict::Checked(VerifyResult::Verified)
    );
    assert_eq!(
        consult_held(&mut cache, None, &None, &right),
        CacheVerdict::Checked(VerifyResult::Miss)
    );
    assert_eq!(
        consult_cache(&mut cache, &right),
        CacheVerdict::Checked(VerifyResult::Verified)
    );
    assert_eq!(
        consult_held(&mut cache, None, &held, &wrong),
        CacheVerdict::Checked(VerifyResult::Mismatch)
    );
    assert_eq!(
        consult_cache(&mut cache, &right),
        CacheVerdict::Checked(VerifyResult::Miss)
    );
    assert_eq!(consult_held(&mut None, Some(9), &held, &right), CacheVerdict::NoCache);
}

#[test]
fn failures_in_a_row_are_turned_away() {
    let ha1 = md5_hex("alice:sipcord:pw");
    let mut cache = Some(AuthCache::new(Duration::from_secs(300), Duration::from_secs(60), 3));
    for _ in 0..3 {
        let admitted = on_rx_request_cb(input(Some(digest("alice", &ha1))), &mut cache);
        assert!(matches!(&admitted[0], RegisterAction::Defer { .. }));
        cache.as_mut().unwrap().record_failure("alice");
    }
    let refused = on_rx_request_cb(input(Some(digest("alice", &ha1))), &mut cache);
    assert_eq!(refused.len(), 1);
    assert!(matches!(&refused[0], RegisterAction::Respond(r) if r.status == 429));
    let other = on_rx_request_cb(input(Some(digest("bob", &ha1))), &mut cache);
    assert!(matches!(&other[0], RegisterAction::Defer { .. }));
}

#[test]
fn verdict_decides_the_answer_to_a_register() {
    let verdict = CacheVerdict::Checked(VerifyResult::Mismatch);
    let actions = answer_register(input(Some(digest("alice", "x"))), verdict);
    assert!(matches!(&actions[0], RegisterAction::Respond(r) if r.status == 403));
    match &actions[1] {
        RegisterAction::Queue(request) => assert_eq!(request.digest_auth.method, "REGISTER"),
        _ => panic!("expected a request"),
    }
}

#[test]
fn register_without_a_cache_is_accepted_and_queued() {
    let actions = on_rx_request_cb(input(Some(digest("alice", "x"))), &mut None);
    assert!(matches!(&actions[0], RegisterAction::Queue(_)));
    assert!(matches!(&actions[1], RegisterAction::Respond(r) if r.status == 200));
}

#[test]
fn each_verdict_has_its_plan() {
    let plan = plan_register(CacheVerdict::Checked(VerifyResult::Miss), request(false), None);
    assert!(matches!(&plan[0], RegisterAction::Defer { .. }));
    let plan = plan_register(CacheVerdict::Cooldown, request(false), None);
    assert!(matches!(&plan[0], RegisterAction::Respond(r) if r.status == 429));
    let deferred = plan_deferred_register(request(false), Some("c".to_string()), Some(9));
    match &deferred[0] {
        RegisterAction::Queue(request) => {
            let pending = request.pending_tsx.as_ref().unwrap();
            assert_eq!(pending.transaction, 9);
            assert_eq!(pending.contact_value.as_deref(), Some("c"));
        }
        _ => panic!("expected a request"),
    }
}

#[test]
fn contact_expiry_wins_over_the_header() {
    let contact = Some(ContactHeader { star: false, uri: None, expires: 60 });
    assert_eq!(extract_expires(&contact, Some(600)), 60);
    assert_eq!(extract_expires(&None, Some(600)), 600);
    assert_eq!(extract_expires(&None, None), 3600);
}

#[test]
fn wildcard_register_has_no_contact() {
    let wildcard = Some(ContactHeader { star: true, uri: None, expires: 0 });
    let serialized = SerializedContact { uri: None, header: None, callback: None };
    assert!(extract_registered_contact(&wildcard, &serialized, &None, SipTransport::Udp, 0)
        .is_none());
}

// NAT fixups

#[test]
fn test_is_rfc1918_10_network() {
    assert!(is_rfc1918(Ipv4Addr::new(10, 0, 0, 1)));
    assert!(is_rfc1918(Ipv4Addr::new(10, 255, 255, 255)));
}

#[test]
fn test_is_rfc1918_172_16_network() {
    assert!(is_rfc1918(Ipv4Addr::new(172, 16, 0, 1)));
    assert!(is_rfc1918(Ipv4Addr::new(172, 31, 255, 255)));
}

#[test]
fn test_is_rfc1918_192_168_network() {
    assert!(is_rfc1918(Ipv4Addr::new(192, 168, 1, 1)));
    assert!(is_rfc1918(Ipv4Addr::new(192, 168, 0, 0)));
}

#[test]
fn test_is_rfc1918_public_addresses() {
    assert!(!is_rfc1918(Ipv4Addr::new(8, 8, 8, 8)));
    assert!(!is_rfc1918(Ipv4Addr::new(172, 15, 0, 1)));
    assert!(!is_rfc1918(Ipv4Addr::new(172, 32, 0, 1)));
    assert!(!is_rfc1918(Ipv4Addr::new(192, 167, 1, 1)));
    assert!(!is_rfc1918(Ipv4Addr::new(1, 1, 1, 1)));
}

#[test]
fn test_sanitize_sdp_orphan_dynamic_pt_stripped() {
    let sdp = "v=0\r\n\
               o=- 0 0 IN IP4 0.0.0.0\r\n\
               s=-\r\n\
               c=IN IP4 10.0.0.1\r\n\
               m=audio 5000 RTP/AVP 0 8 96\r\n\
               a=rtpmap:0 PCMU/8000\r\n\
               a=rtpmap:8 PCMA/8000\r\n";
    // PT 96 has no rtpmap -> should be stripped
    let result = sanitize_sdp_missing_rtpmap(sdp).unwrap();
    assert!(result.contains("m=audio 5000 RTP/AVP 0 8\r\n"));
    assert!(!result.contains("96"));
}

#[test]
fn test_sanitize_sdp_all_valid_pts_unchanged() {
    let sdp = "v=0\r\n\
               o=- 0 0 IN IP4 0.0.0.0\r\n\
               s=-\r\n\
               m=audio 5000 RTP/AVP 0 96\r\n\
               a=rtpmap:0 PCMU/8000\r\n\
               a=rtpmap:96 opus/48000/2\r\n";
    assert!(sanitize_sdp_missing_rtpmap(sdp).is_none());
}

#[test]
fn test_sanitize_sdp_non_rtp_transport_skipped() {
    let sdp = "v=0\r\n\
               o=- 0 0 IN IP4 0.0.0.0\r\n\
               s=-\r\n\
               m=image 5000 udptl t38\r\n\
               a=T38FaxVersion:0\r\n";
    assert!(sanitize_sdp_missing_rtpmap(sdp).is_none());
}

#[test]
fn test_sanitize_sdp_all_pts_orphaned_unchanged() {
    // If stripping all dynamic PTs would leave none, m= line stays unchanged
    let sdp = "v=0\r\n\
               o=- 0 0 IN IP4 0.0.0.0\r\n\
               s=-\r\n\
               m=audio 5000 RTP/AVP 96 97\r\n";
    assert!(sanitize_sdp_missing_rtpmap(sdp).is_none());
}

#[test]
fn test_sanitize_sdp_mixed_valid_and_orphan() {
    let sdp = "v=0\r\n\
               o=- 0 0 IN IP4 0.0.0.0\r\n\
               s=-\r\n\
               m=audio 5000 RTP/AVP 0 96 97\r\n\
               a=rtpmap:0 PCMU/8000\r\n\
               a=rtpmap:96 opus/48000/2\r\n\
               a=fmtp:97 mode=20\r\n";
    // PT 97 has no rtpmap -> stripped, its fmtp line also removed
    let result = sanitize_sdp_missing_rtpmap(sdp).unwrap();
    assert!(result.contains("m=audio 5000 RTP/AVP 0 96\r\n"));
    assert!(!result.contains("97"));
    assert!(!result.contains("fmtp:97"));
    // fmtp for 96 would be kept if it existed; rtpmap:96 should still be there
    assert!(result.contains("a=rtpmap:96 opus/48000/2"));
    // Nothing is left to be sanitized
    assert!(sanitize_sdp_missing_rtpmap(&result).is_none());
}

#[test]
fn test_sanitize_sdp_malformed_m_line() {
    let sdp = "v=0\r\n\
               o=- 0 0 IN IP4 0.0.0.0\r\n\
               s=-\r\n\
               m=audio 5000\r\n";
    // Malformed m= line (< 4 parts) -> passes through unchanged
    assert!(sanitize_sdp_missing_rtpmap(sdp).is_none());
}

#[test]
fn sanitizing_gives_exactly_this() {
    let sdp = "v=0\nm=audio 1 RTP/AVP 0 99\na=fmtp:99 x\na=sendrecv\nm=video 2 RTP/AVP 98\n";
    assert_eq!(
        sanitize_sdp_missing_rtpmap(sdp).unwrap(),
        "v=0\r\nm=audio 1 RTP/AVP 0\r\na=sendrecv\r\nm=video 2 RTP/AVP 98\r\n"
    );
}

fn message(host: &str, body: &str) -> SipMessage {
    SipMessage {
        contact: Some(ContactHost { host: host.to_string(), port: 5060 }),
        body: body.as_bytes().to_vec(),
    }
}

fn target(ip: Ipv4Addr) -> TxTarget {
    TxTarget { has_transport: true, dst_addr_len: 16, family: 2, ipv4: ip }
}

fn text(msg: &SipMessage) -> String {
    String::from_utf8(msg.body.clone()).unwrap()
}

const SDP: &str = "v=0\r\no=- 1 1 IN IP4 10.0.0.5\r\ns=-\r\nc=IN IP4 10.0.0.5\r\n\
                   t=0 0\r\nm=audio 4000 RTP/AVP 0\r\na=note:10.0.0.5\r\n";

#[test]
fn rewriting_touches_only_connection_and_origin_lines() {
    let mut msg = message("10.0.0.5", SDP);
    assert!(rewrite_sdp_body(&mut msg, "10.0.0.5", "203.0.113.9"));
    assert_eq!(
        text(&msg),
        "v=0\r\no=- 1 1 IN IP4 203.0.113.9\r\ns=-\r\nc=IN IP4 203.0.113.9\r\n\
         t=0 0\r\nm=audio 4000 RTP/AVP 0\r\na=note:10.0.0.5\r\n"
    );
    let mut other = message("10.0.0.5", SDP);
    assert!(!rewrite_sdp_body(&mut other, "10.9.9.9", "203.0.113.9"));
    assert_eq!(text(&other), SDP);
    let mut binary = SipMessage { contact: None, body: vec![0xff, 0xfe] };
    assert!(!rewrite_sdp_body(&mut binary, "10.0.0.5", "203.0.113.9"));
}

#[test]
fn local_clients_get_the_local_host() {
    let local = Some(LocalNetConfig {
        local_host: "192.168.0.2".to_string(),
        port: 5060,
        rtp_public_ip: Some("10.0.0.5".to_string()),
    });
    let mut msg = message("198.51.100.1", SDP);
    assert!(on_tx_response_cb(
        &local,
        &None,
        &target(Ipv4Addr::new(192, 168, 0, 77)),
        true,
        &mut msg
    ));
    assert_eq!(msg.contact.as_ref().unwrap().host, "192.168.0.2");
    assert!(text(&msg).contains("c=IN IP4 192.168.0.2\r\n"));
}

#[test]
fn external_clients_get_the_public_host_in_place_of_a_private_one() {
    let public = Some(PublicHostConfig { public_host: "sip.example.com".to_string(), port: 5070 });
    let mut msg = message("10.0.0.5", SDP);
    assert!(on_tx_request_cb(
        &None,
        &public,
        &target(Ipv4Addr::new(8, 8, 8, 8)),
        false,
        &mut msg
    ));
    assert_eq!(msg.contact.as_ref().unwrap().host, "sip.example.com");
    assert_eq!(msg.contact.as_ref().unwrap().port, 5070);

    let mut private = message("10.0.0.5", SDP);
    assert!(!on_tx_request_cb(
        &None,
        &public,
        &target(Ipv4Addr::new(192, 168, 3, 4)),
        false,
        &mut private
    ));
    assert_eq!(private.contact.as_ref().unwrap().host, "10.0.0.5");
}

#[test]
fn incoming_requests_lose_private_addresses() {
    let source = PacketSource { src_name: b"203.0.113.9\0\0\0".to_vec(), src_port: 40000 };
    let mut msg = message("10.0.0.5", SDP);
    on_rx_request_nat_fixup_cb(true, true, &source, &mut msg);
    assert_eq!(msg.contact.as_ref().unwrap().host, "203.0.113.9");
    assert_eq!(msg.contact.as_ref().unwrap().port, 40000);
    assert!(text(&msg).contains("c=IN IP4 203.0.113.9\r\n"));

    let mut response = message("10.0.0.5", SDP);
    on_rx_response_nat_fixup_cb(200, &source, &mut response);
    assert_eq!(response.contact.as_ref().unwrap().host, "203.0.113.9");
}

#[test]
fn phones_that_can_be_reached_are_left_alone() {
    let source = PacketSource { src_name: b"203.0.113.9\0".to_vec(), src_port: 40000 };
    let body = "v=0\r\nc=IN IP4 203.0.113.9\r\nm=audio 4000 RTP/AVP 0\r\n";
    for host in ["203.0.113.9", "198.51.100.1", "phone.example.com"] {
        let mut request = message(host, body);
        on_rx_request_nat_fixup_cb(true, true, &source, &mut request);
        assert_eq!(request.contact.as_ref().unwrap().host, host);
        assert_eq!(text(&request), body);
        let mut response = message(host, SDP);
        on_rx_response_nat_fixup_cb(200, &source, &mut response);
        assert_eq!(response.contact.as_ref().unwrap().host, host);
        assert_eq!(text(&response), SDP);
    }
    let mut refused = message("10.0.0.5", SDP);
    on_rx_response_nat_fixup_cb(404, &source, &mut refused);
    assert_eq!(refused.contact.as_ref().unwrap().host, "10.0.0.5");
    let mut bye = message("10.0.0.5", SDP);
    on_rx_request_nat_fixup_cb(true, false, &source, &mut bye);
    assert_eq!(text(&bye), SDP);
}

#[test]
fn destinations_need_a_transport_and_an_ipv4_address() {
    let ip = Ipv4Addr::new(8, 8, 4, 4);
    assert_eq!(extract_dst_ipv4(&target(ip)), Some(ip));
    let mut without = target(ip);
    without.has_transport = false;
    assert_eq!(extract_dst_ipv4(&without), None);
    let mut v6 = target(ip);
    v6.family = 10;
    assert_eq!(extract_dst_ipv4(&v6), None);
}

#[test]
fn ipv4_addresses_are_read_strictly() {
    let parse = |s: &str| parse_ipv4(&s.chars().collect());
    assert_eq!(parse("10.0.0.5"), Some(Ipv4Addr::new(10, 0, 0, 5)));
    assert_eq!(parse("255.255.255.255"), Some(Ipv4Addr::new(255, 255, 255, 255)));
    assert_eq!(parse("256.0.0.1"), None);
    assert_eq!(parse("1.2.3"), None);
    assert_eq!(parse("01.2.3.4"), None);
    assert_eq!(parse("a.b.c.d"), None);
}
