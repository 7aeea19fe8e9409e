//! Contact headers and the SIP URIs in them.

use crate::services::registrar;
use crate::services::registrar::{SipTransport, SourceAddr};
use crate::text;
use crate::text::{
    find_char, from_chars, has_nul, push_chars, push_str, same, signed_decimal_of, slice_of,
    to_chars, to_lower, trim_start_of,
};
use vstd::prelude::*;

verus! {

broadcast use vstd::string::group_string_axioms;

/// Why a Contact cannot be used.
#[derive(Debug)]
pub enum ContactError {
    /// The Contact header has no URI.
    MissingUri,
    /// The scheme is neither `sip` nor `sips`.
    UnsupportedScheme(String),
    /// The SIP URI has no host.
    MissingHost,
    /// The serialized Contact header has no value.
    MissingHeaderValue,
    /// The text holds a NUL character.
    InvalidString,
}

/// A URI parameter.
#[derive(Debug)]
pub struct UriParam {
    pub name: String,
    pub value: String,
}

/// A parameter in the model.
pub ghost struct ParamView {
    pub name: Seq<char>,
    pub value: Seq<char>,
}

impl View for UriParam {
    type V = ParamView;

    open spec fn view(&self) -> ParamView {
        ParamView { name: self.name@, value: self.value@ }
    }
}

pub open spec fn param_views(params: Seq<UriParam>) -> Seq<ParamView> {
    params.map_values(|p: UriParam| p@)
}

/// The URI in a Contact header. An empty text stands for a part that is
/// missing.
#[derive(Debug)]
pub struct ContactUri {
    pub scheme: String,
    pub user: String,
    pub passwd: String,
    pub host: String,
    /// The port; not positive if there is none.
    pub port: i32,
    pub user_param: String,
    pub method_param: String,
    pub transport_param: String,
    /// The time to live; negative if there is none.
    pub ttl_param: i32,
    pub lr_param: i32,
    pub maddr_param: String,
    pub other_params: Vec<UriParam>,
    pub header_params: Vec<UriParam>,
}

/// A Contact URI in the model.
pub ghost struct ContactUriView {
    pub scheme: Seq<char>,
    pub user: Seq<char>,
    pub passwd: Seq<char>,
    pub host: Seq<char>,
    pub port: int,
    pub user_param: Seq<char>,
    pub method_param: Seq<char>,
    pub transport_param: Seq<char>,
    pub ttl_param: int,
    pub lr_param: int,
    pub maddr_param: Seq<char>,
    pub other_params: Seq<ParamView>,
    pub header_params: Seq<ParamView>,
}

impl View for ContactUri {
    type V = ContactUriView;

    open spec fn view(&self) -> ContactUriView {
        ContactUriView {
            scheme: self.scheme@,
            user: self.user@,
            passwd: self.passwd@,
            host: self.host@,
            port: self.port as int,
            user_param: self.user_param@,
            method_param: self.method_param@,
            transport_param: self.transport_param@,
            ttl_param: self.ttl_param as int,
            lr_param: self.lr_param as int,
            maddr_param: self.maddr_param@,
            other_params: param_views(self.other_params@),
            header_params: param_views(self.header_params@),
        }
    }
}

/// A Contact header.
#[derive(Debug)]
pub struct ContactHeader {
    /// Whether this is the wildcard `*`.
    pub star: bool,
    pub uri: Option<ContactUri>,
    /// The `expires` parameter, the largest number if there is none.
    pub expires: u32,
}

/// Whether a scheme is one of SIP, in any case.
pub open spec fn is_sip_scheme(scheme: Seq<char>) -> bool {
    text::lower(scheme) == "sip"@ || text::lower(scheme) == "sips"@
}

/// Whether a scheme is one of SIP, in any case.
pub fn has_sip_scheme(scheme: &str) -> (r: bool)
    ensures
        r == is_sip_scheme(scheme@),
{
    let lower = to_lower(&to_chars(scheme));
    same(&lower, &to_chars("sip")) || same(&lower, &to_chars("sips"))
}

impl ContactHeader {
    pub fn is_wildcard(&self) -> (r: bool)
        ensures
            r == self.star,
    {
        self.star
    }

    /// The `expires` parameter, where there is one.
    pub fn expires(&self) -> (r: Option<u32>)
        ensures
            r == (if self.expires == u32::MAX {
                None
            } else {
                Some(self.expires)
            }),
    {
        if self.expires != u32::MAX {
            Some(self.expires)
        } else {
            None
        }
    }

    /// The SIP URI of the Contact; the wildcard has none.
    pub fn sip_uri(&self) -> (r: Result<Option<&ContactUri>, ContactError>)
        ensures
            match r {
                Ok(None) => self.star,
                Ok(Some(uri)) => !self.star && self.uri == Some(*uri) && is_sip_scheme(uri.scheme@)
                    && uri.host@.len() > 0,
                Err(ContactError::MissingUri) => !self.star && self.uri is None,
                Err(ContactError::UnsupportedScheme(scheme)) => !self.star && self.uri is Some
                    && scheme@ == self.uri->0.scheme@ && !is_sip_scheme(scheme@),
                Err(ContactError::MissingHost) => !self.star && self.uri is Some && is_sip_scheme(
                    self.uri->0.scheme@,
                ) && self.uri->0.host@.len() == 0,
                Err(_) => false,
            },
    {
        if self.is_wildcard() {
            return Ok(None);
        }
        let uri = match &self.uri {
            Some(uri) => uri,
            None => {
                return Err(ContactError::MissingUri);
            },
        };
        if !has_sip_scheme(uri.scheme.as_str()) {
            return Err(ContactError::UnsupportedScheme(uri.scheme.clone()));
        }
        if uri.host.as_str().is_empty() {
            return Err(ContactError::MissingHost);
        }
        Ok(Some(uri))
    }
}

/// The value of a serialized header: what follows the first colon and the
/// white space behind it.
pub open spec fn value_of_header(header: Seq<char>) -> Option<Seq<char>> {
    let colon = text::next_char(header, ':', 0);
    let value = text::trim_start(header.skip(colon + 1));
    if colon < header.len() && value.len() > 0 {
        Some(value)
    } else {
        None
    }
}

/// The value of a serialized Contact header, as a REGISTER response lists it.
pub fn response_value(header: &str) -> (r: Result<String, ContactError>)
    ensures
        match r {
            Ok(value) => value_of_header(header@) == Some(value@),
            Err(e) => e is MissingHeaderValue && value_of_header(header@) is None,
        },
{
    let chars = to_chars(header);
    let colon = find_char(&chars, ':', 0);
    if colon >= chars.len() {
        return Err(ContactError::MissingHeaderValue);
    }
    let rest = slice_of(&chars, colon + 1, chars.len());
    assert(rest@ =~= header@.skip(colon + 1));
    let value = trim_start_of(&rest);
    if value.len() == 0 {
        return Err(ContactError::MissingHeaderValue);
    }
    Ok(from_chars(&value))
}

/// The first parameter at or after `i` with a name, in any case.
pub open spec fn param_from(params: Seq<ParamView>, name: Seq<char>, i: int) -> Option<Seq<char>>
    decreases params.len() - i,
{
    if i < 0 || i >= params.len() {
        None
    } else if text::lower(params[i].name) == text::lower(name) {
        Some(params[i].value)
    } else {
        param_from(params, name, i + 1)
    }
}

impl ContactUriView {
    /// The URI without parameters, by which a binding is known.
    pub open spec fn base(self) -> Seq<char> {
        let port = if self.port > 0 {
            ":"@ + text::signed_decimal(self.port)
        } else {
            Seq::empty()
        };
        if self.user.len() > 0 {
            "sip:"@ + self.user + "@"@ + self.host + port
        } else {
            "sip:"@ + self.host + port
        }
    }

    /// The URI with another host and port.
    pub open spec fn at_host(self, host: Seq<char>, port: int) -> ContactUriView {
        ContactUriView { host, port, ..self }
    }

    /// The URI under which the phone is called: the address and transport that
    /// the request came by, without credentials and without what could lead
    /// the call elsewhere. User parameter and other parameters stay.
    pub open spec fn for_callback(
        self,
        addr: registrar::SourceAddrView,
        transport: SipTransport,
    ) -> ContactUriView {
        ContactUriView {
            scheme: if transport is Tls {
                "sips"@
            } else {
                "sip"@
            },
            transport_param: match transport {
                SipTransport::Udp => "udp"@,
                SipTransport::Tcp => "tcp"@,
                SipTransport::Tls => Seq::empty(),
            },
            passwd: Seq::empty(),
            method_param: Seq::empty(),
            maddr_param: Seq::empty(),
            ttl_param: -1,
            lr_param: 0,
            header_params: Seq::empty(),
            ..self.at_host(addr.ip, addr.port as int)
        }
    }
}

impl ContactUri {
    /// The user, where there is one.
    pub fn user(&self) -> (r: Option<String>)
        ensures
            text::opt_text(r) == (if self@.user.len() > 0 {
                Some(self@.user)
            } else {
                None
            }),
    {
        if self.user.as_str().is_empty() {
            None
        } else {
            Some(self.user.clone())
        }
    }

    pub fn host(&self) -> (r: String)
        ensures
            r@ == self@.host,
    {
        self.host.clone()
    }

    pub fn port(&self) -> (r: i32)
        ensures
            r == self@.port,
    {
        self.port
    }

    /// The value of a parameter, whose name is compared in any case.
    pub fn parameter(&self, name: &str) -> (r: Option<String>)
        ensures
            text::opt_text(r) == param_from(self@.other_params, name@, 0),
    {
        let wanted = to_lower(&to_chars(name));
        let ghost all = self@.other_params;
        let mut i: usize = 0;
        while i < self.other_params.len()
            invariant
                all == param_views(self.other_params@),
                all == self@.other_params,
                wanted@ == text::lower(name@),
                i <= all.len(),
                param_from(all, name@, 0) == param_from(all, name@, i as int),
            decreases all.len() - i,
        {
            assert(all[i as int] == self.other_params@[i as int]@);
            if same(&to_lower(&to_chars(self.other_params[i].name.as_str())), &wanted) {
                return Some(self.other_params[i].value.clone());
            }
            i = i + 1;
        }
        None
    }

    /// The URI without parameters, by which a binding is known. It keeps
    /// changes of a phone's parameters from making new registrations.
    pub fn legacy_base_uri(&self) -> (out: String)
        ensures
            out@ == self@.base(),
    {
        let mut out = to_chars("sip:");
        if !self.user.as_str().is_empty() {
            push_str(&mut out, self.user.as_str());
            push_str(&mut out, "@");
        }
        push_str(&mut out, self.host.as_str());
        if self.port > 0 {
            push_str(&mut out, ":");
            push_chars(&mut out, &signed_decimal_of(self.port));
        }
        assert(out@ =~= self@.base());
        from_chars(&out)
    }

    /// Gives the URI another host and port; refused for a host with a NUL
    /// character.
    pub fn rewrite_host(&mut self, host: &str, port: u16) -> (r: Result<(), ContactError>)
        ensures
            r is Ok <==> !host@.contains('\0'),
            r matches Err(e) ==> e is InvalidString,
            final(self)@ == (if r is Ok {
                old(self)@.at_host(host@, port as int)
            } else {
                old(self)@
            }),
    {
        if has_nul(&to_chars(host)) {
            return Err(ContactError::InvalidString);
        }
        self.host = host.to_owned();
        self.port = port as i32;
        Ok(())
    }

    /// Turns a Contact URI into the one under which the phone is called.
    pub fn rewrite_for_callback(&mut self, source_addr: &SourceAddr, transport: SipTransport) -> (r:
        Result<(), ContactError>)
        ensures
            r is Ok <==> !source_addr@.ip.contains('\0'),
            r matches Err(e) ==> e is InvalidString,
            final(self)@ == (if r is Ok {
                old(self)@.for_callback(source_addr@, transport)
            } else {
                old(self)@
            }),
    {
        let ghost before = self@;
        match self.rewrite_host(source_addr.ip.as_str(), source_addr.port) {
            Ok(_) => {},
            Err(e) => {
                return Err(e);
            },
        }
        match transport {
            SipTransport::Udp => {
                self.scheme = "sip".to_owned();
                self.transport_param = "udp".to_owned();
            },
            SipTransport::Tcp => {
                self.scheme = "sip".to_owned();
                self.transport_param = "tcp".to_owned();
            },
            SipTransport::Tls => {
                self.scheme = "sips".to_owned();
                self.transport_param = String::new();
            },
        }
        self.passwd = String::new();
        self.method_param = String::new();
        self.maddr_param = String::new();
        self.ttl_param = -1;
        self.lr_param = 0;
        self.header_params = Vec::new();
        assert(self@.header_params =~= Seq::<ParamView>::empty());
        Ok(())
    }
}

// Laws

/// A callback goes where the phone was seen, over the transport that it used,
/// carries no password, and keeps the parameters that select the endpoint.
pub proof fn law_callback_follows_observed_source(
    uri: ContactUriView,
    addr: registrar::SourceAddrView,
    transport: SipTransport,
    name: Seq<char>,
)
    ensures
        ({
            let callback = uri.for_callback(addr, transport);
            &&& callback.host == addr.ip
            &&& callback.port == addr.port
            &&& callback.passwd.len() == 0
            &&& callback.maddr_param.len() == 0
            &&& callback.user == uri.user
            &&& param_from(callback.other_params, name, 0) == param_from(uri.other_params, name, 0)
        }),
{
}

/// The base URI depends on user, host and port alone: parameters, transport
/// and credentials do not change it.
pub proof fn law_base_ignores_parameters(one: ContactUriView, other: ContactUriView)
    requires
        one.user == other.user,
        one.host == other.host,
        one.port == other.port,
    ensures
        one.base() == other.base(),
{
}

} // verus!
