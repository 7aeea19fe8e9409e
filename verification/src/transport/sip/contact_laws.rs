//! What a Contact says and how it is rewritten.
//!
//! The laws speak of what the operations are given and of what they give.

use crate::services::registrar::{SipTransport, SourceAddr};
use crate::text;
use crate::transport::sip::contact;
use crate::transport::sip::contact::{response_value, ContactError, ContactHeader, ContactUri};
use vstd::prelude::*;

verus! {

broadcast use vstd::string::group_string_axioms;

/// A URI is seen as it is: each part is its own.
pub proof fn law_uri_is_seen_as_it_is(uri: ContactUri)
    ensures
        uri@.scheme == uri.scheme@,
        uri@.user == uri.user@,
        uri@.passwd == uri.passwd@,
        uri@.host == uri.host@,
        uri@.port == uri.port,
        uri@.user_param == uri.user_param@,
        uri@.method_param == uri.method_param@,
        uri@.transport_param == uri.transport_param@,
        uri@.ttl_param == uri.ttl_param,
        uri@.lr_param == uri.lr_param,
        uri@.maddr_param == uri.maddr_param@,
        uri@.other_params.len() == uri.other_params@.len(),
        forall|k: int|
            0 <= k < uri.other_params@.len() ==> (#[trigger] uri@.other_params[k]).name
                == uri.other_params@[k].name@ && uri@.other_params[k].value
                == uri.other_params@[k].value@,
{
}

/// A phone is called back where it was seen, over the transport that it used there,
/// `sips` over TLS. Its user and its own parameters stay; what would lead elsewhere,
/// and its password, leave. An address with a NUL character changes nothing.
pub proof fn law_phone_is_called_back_where_it_was_seen(
    uri: &mut ContactUri,
    addr: &SourceAddr,
    transport: SipTransport,
    r: Result<(), ContactError>,
)
    requires
        call_ensures(ContactUri::rewrite_for_callback, (uri, addr, transport), r),
    ensures
        r is Ok <==> forall|k: int| 0 <= k < addr.ip@.len() ==> #[trigger] addr.ip@[k] != '\0',
        r is Err ==> final(uri)@ == old(uri)@,
        r is Ok ==> {
            let after = final(uri)@;
            &&& after.host == addr.ip@
            &&& after.port == addr.port
            &&& after.scheme == (if transport is Tls {
                "sips"@
            } else {
                "sip"@
            })
            &&& transport is Udp ==> after.transport_param == "udp"@
            &&& transport is Tcp ==> after.transport_param == "tcp"@
            &&& transport is Tls ==> after.transport_param.len() == 0
            &&& after.user == old(uri)@.user
            &&& after.user_param == old(uri)@.user_param
            &&& after.other_params == old(uri)@.other_params
            &&& after.passwd.len() == 0
            &&& after.method_param.len() == 0
            &&& after.maddr_param.len() == 0
            &&& after.header_params.len() == 0
            &&& after.ttl_param < 0
            &&& after.lr_param == 0
        },
{
    assert(addr.ip@.contains('\0') <==> exists|k: int| 0 <= k < addr.ip@.len() && addr.ip@[k]
        == '\0');
}

/// Rewriting the host changes host and port, and nothing else.
pub proof fn law_host_is_rewritten_alone(
    uri: &mut ContactUri,
    host: &str,
    port: u16,
    r: Result<(), ContactError>,
)
    requires
        call_ensures(ContactUri::rewrite_host, (uri, host, port), r),
    ensures
        r is Ok <==> forall|k: int| 0 <= k < host@.len() ==> #[trigger] host@[k] != '\0',
        r is Err ==> final(uri)@ == old(uri)@,
        r is Ok ==> final(uri)@ == (contact::ContactUriView {
            host: host@,
            port: port as int,
            ..old(uri)@
        }),
{
    assert(host@.contains('\0') <==> exists|k: int| 0 <= k < host@.len() && host@[k] == '\0');
}

/// The base URI is the scheme `sip`, the user where there is one, the host, and the
/// port where it is positive.
pub proof fn law_base_uri(uri: &ContactUri, out: String)
    requires
        call_ensures(ContactUri::legacy_base_uri, (uri,), out),
    ensures
        ({
            let user = if uri.user@.len() > 0 {
                uri.user@ + "@"@
            } else {
                Seq::empty()
            };
            let port = if uri.port > 0 {
                ":"@ + text::signed_decimal(uri.port as int)
            } else {
                Seq::empty()
            };
            out@ == "sip:"@ + user + uri.host@ + port
        }),
{
    let user = if uri.user@.len() > 0 {
        uri.user@ + "@"@
    } else {
        Seq::empty()
    };
    let port = if uri.port > 0 {
        ":"@ + text::signed_decimal(uri.port as int)
    } else {
        Seq::empty()
    };
    assert("sip:"@ + user + uri.host@ + port =~= uri@.base());
}

proof fn lemma_param(params: Seq<contact::ParamView>, name: Seq<char>, i: int, k: int)
    requires
        0 <= i <= k <= params.len(),
        forall|j: int| i <= j < k ==> text::lower((#[trigger] params[j]).name) != text::lower(name),
        k < params.len() ==> text::lower(params[k].name) == text::lower(name),
    ensures
        contact::param_from(params, name, i) == (if k < params.len() {
            Some(params[k].value)
        } else {
            None
        }),
    decreases k - i,
{
    if i < k {
        lemma_param(params, name, i + 1, k);
    }
}

/// A parameter is the first one of its name, in either case of letters.
pub proof fn law_first_parameter_of_a_name_counts(
    uri: &ContactUri,
    name: &str,
    r: Option<String>,
    k: int,
)
    requires
        call_ensures(ContactUri::parameter, (uri, name), r),
        0 <= k <= uri.other_params@.len(),
        forall|j: int|
            0 <= j < k ==> text::lower((#[trigger] uri.other_params@[j]).name@) != text::lower(
                name@,
            ),
        k < uri.other_params@.len() ==> text::lower(uri.other_params@[k].name@) == text::lower(
            name@,
        ),
    ensures
        k < uri.other_params@.len() ==> r is Some && r->0@ == uri.other_params@[k].value@,
        k == uri.other_params@.len() ==> r is None,
{
    let params = uri@.other_params;
    assert forall|j: int| 0 <= j < k implies text::lower((#[trigger] params[j]).name)
        != text::lower(name@) by {
        assert(params[j] == uri.other_params@[j]@);
    }
    if k < params.len() {
        assert(params[k] == uri.other_params@[k]@);
    }
    lemma_param(params, name@, 0, k);
}

/// A header tells its expiry where it has one, and its URI where it is usable: of
/// SIP, in either case of letters, and with a host.
pub proof fn law_header_tells_its_uri(
    header: &ContactHeader,
    expires: Option<u32>,
    wildcard: bool,
    r: Result<Option<&ContactUri>, ContactError>,
)
    requires
        call_ensures(ContactHeader::expires, (header,), expires),
        call_ensures(ContactHeader::is_wildcard, (header,), wildcard),
        call_ensures(ContactHeader::sip_uri, (header,), r),
    ensures
        wildcard == header.star,
        header.expires < u32::MAX ==> expires == Some(header.expires),
        header.expires == u32::MAX ==> expires is None,
        header.star <==> r matches Ok(None),
        !header.star && header.uri is None ==> r is Err,
        !header.star && header.uri is Some ==> {
            let uri = header.uri->0;
            let sip = text::lower(uri.scheme@) == "sip"@ || text::lower(uri.scheme@) == "sips"@;
            &&& r is Ok <==> sip && uri.host@.len() > 0
            &&& r is Ok ==> r->Ok_0 is Some && *(r->Ok_0->0) == uri
        },
{
}

/// The value of a header is what stands behind its first colon and the white space
/// there.
pub proof fn law_header_value_stands_behind_the_colon(
    header: &str,
    r: Result<String, ContactError>,
    name: Seq<char>,
    blank: Seq<char>,
    value: Seq<char>,
)
    requires
        call_ensures(response_value, (header,), r),
        header@ == name + seq![':'] + blank + value,
        forall|k: int| 0 <= k < name.len() ==> #[trigger] name[k] != ':',
        forall|k: int| 0 <= k < blank.len() ==> text::is_white(#[trigger] blank[k]),
        value.len() > 0 ==> !text::is_white(value[0]),
    ensures
        value.len() > 0 ==> r is Ok && r->Ok_0@ == value,
        value.len() == 0 ==> r is Err,
{
    let n = name.len() as int;
    let all = header@;
    assert(all[n] == ':');
    assert forall|j: int| 0 <= j < n implies all[j] != ':' by {
        assert(all[j] == name[j]);
    }
    text::lemma_next_char(all, ':', 0);
    assert(text::next_char(all, ':', 0) == n);
    let rest = all.skip(n + 1);
    assert(rest =~= blank + value);
    text::lemma_next_white(rest, false, 0);
    let at = text::next_white(rest, false, 0);
    let m = blank.len() as int;
    if at < m {
        assert(rest[at] == blank[at]);
        assert(false);
    }
    if at > m {
        assert(value.len() > 0 ==> rest[m] == value[0]);
        assert(value.len() > 0 ==> text::is_white(rest[m]));
    }
    assert(at == m);
    assert(rest.subrange(m, rest.len() as int) =~= value);
}

/// A URI tells its user where it has one, its host and its port; a scheme is one of
/// SIP in either case of letters.
pub proof fn law_uri_tells_its_parts(
    uri: &ContactUri,
    user: Option<String>,
    host: String,
    port: i32,
    scheme: &str,
    sip: bool,
)
    requires
        call_ensures(ContactUri::user, (uri,), user),
        call_ensures(ContactUri::host, (uri,), host),
        call_ensures(ContactUri::port, (uri,), port),
        call_ensures(contact::has_sip_scheme, (scheme,), sip),
    ensures
        user is Some <==> uri.user@.len() > 0,
        user is Some ==> user->0@ == uri.user@,
        host@ == uri.host@,
        port == uri.port,
        sip <==> text::lower(scheme@) == "sip"@ || text::lower(scheme@) == "sips"@,
{
}

} // verus!
