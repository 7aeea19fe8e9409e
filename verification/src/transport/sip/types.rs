//! Values that pass between the SIP stack and the bridge.

use crate::ids::CallId;
use crate::text;
use vstd::prelude::*;

verus! {

/// The realm of digest challenges.
pub const SIP_REALM: &'static str = "sipcord";

/// The parameters of a Digest authorization.
#[derive(Debug)]
pub struct DigestAuthParams {
    pub username: String,
    pub realm: String,
    pub nonce: String,
    pub uri: String,
    pub response: String,
    pub method: String,
    pub qop: Option<String>,
    pub nc: Option<String>,
    pub cnonce: Option<String>,
}

/// A Digest authorization in the model.
pub ghost struct DigestView {
    pub username: Seq<char>,
    pub realm: Seq<char>,
    pub nonce: Seq<char>,
    pub uri: Seq<char>,
    pub response: Seq<char>,
    pub method: Seq<char>,
    pub qop: Option<Seq<char>>,
    pub nc: Option<Seq<char>>,
    pub cnonce: Option<Seq<char>>,
}

impl View for DigestAuthParams {
    type V = DigestView;

    open spec fn view(&self) -> DigestView {
        DigestView {
            username: self.username@,
            realm: self.realm@,
            nonce: self.nonce@,
            uri: self.uri@,
            response: self.response@,
            method: self.method@,
            qop: text::opt_text(self.qop),
            nc: text::opt_text(self.nc),
            cnonce: text::opt_text(self.cnonce),
        }
    }
}

impl Default for DigestAuthParams {
    fn default() -> (params: DigestAuthParams)
        ensures
            params@ == (DigestView {
                username: Seq::empty(),
                realm: Seq::empty(),
                nonce: Seq::empty(),
                uri: Seq::empty(),
                response: Seq::empty(),
                method: Seq::empty(),
                qop: None,
                nc: None,
                cnonce: None,
            }),
    {
        DigestAuthParams {
            username: String::new(),
            realm: String::new(),
            nonce: String::new(),
            uri: String::new(),
            response: String::new(),
            method: String::new(),
            qop: None,
            nc: None,
            cnonce: None,
        }
    }
}

/// A REGISTER transaction that waits for its verification.
#[derive(Debug)]
pub struct PendingRegisterTsx {
    /// The key under which the SIP stack keeps the transaction.
    pub transaction: u64,
    pub expires: u32,
    /// The Contact value that the response lists. Strict clients take a
    /// response without their binding for a forced unregistration.
    pub contact_value: Option<String>,
}

/// A waiting transaction in the model.
pub ghost struct PendingView {
    pub transaction: u64,
    pub expires: u32,
    pub contact_value: Option<Seq<char>>,
}

impl View for PendingRegisterTsx {
    type V = PendingView;

    open spec fn view(&self) -> PendingView {
        PendingView {
            transaction: self.transaction,
            expires: self.expires,
            contact_value: text::opt_text(self.contact_value),
        }
    }
}

/// The contents of an optional waiting transaction.
pub open spec fn opt_pending(pending: Option<PendingRegisterTsx>) -> Option<PendingView> {
    match pending {
        Some(p) => Some(p@),
        None => None,
    }
}

/// A command to the SIP stack.
#[derive(Debug)]
pub enum SipCommand {
    /// Send 183 Session Progress.
    Send183 { call_id: CallId },
    /// Play the connecting sound over and over.
    StartConnectingLoop { call_id: CallId, samples: Vec<i16> },
    /// Send 200 OK.
    Answer { call_id: CallId },
    Hangup { call_id: CallId },
    /// Redirect the caller to another bridge server.
    Redirect { call_id: CallId, domain: String, extension: String },
    /// Play samples to one call.
    PlayDirectToCall { call_id: CallId, samples: Vec<i16> },
    StartTestTone { call_id: CallId },
    /// Stream a sound file to one call and hang up at its end.
    /// The path is in the bytes of the operating system.
    StartStreaming { call_id: CallId, path: Vec<u8> },
    /// Start one leg of an outbound call.
    MakeOutboundCall {
        tracking_id: String,
        sip_uri: String,
        caller_display_name: Option<String>,
        fork_total: usize,
    },
    /// Complete a waiting REGISTER transaction.
    RespondRegister { pending: PendingRegisterTsx, auth_ok: bool },
}

/// A command in the model.
pub ghost enum SipCommandView {
    Send183 { call_id: CallId },
    StartConnectingLoop { call_id: CallId, samples: Seq<i16> },
    Answer { call_id: CallId },
    Hangup { call_id: CallId },
    Redirect { call_id: CallId, domain: Seq<char>, extension: Seq<char> },
    PlayDirectToCall { call_id: CallId, samples: Seq<i16> },
    StartTestTone { call_id: CallId },
    StartStreaming { call_id: CallId, path: Seq<u8> },
    MakeOutboundCall {
        tracking_id: Seq<char>,
        sip_uri: Seq<char>,
        caller_display_name: Option<Seq<char>>,
        fork_total: nat,
    },
    RespondRegister { pending: PendingView, auth_ok: bool },
}

impl View for SipCommand {
    type V = SipCommandView;

    open spec fn view(&self) -> SipCommandView {
        match *self {
            SipCommand::Send183 { call_id } => SipCommandView::Send183 { call_id },
            SipCommand::StartConnectingLoop {
                call_id,
                samples,
            } => SipCommandView::StartConnectingLoop { call_id, samples: samples@ },
            SipCommand::Answer { call_id } => SipCommandView::Answer { call_id },
            SipCommand::Hangup { call_id } => SipCommandView::Hangup { call_id },
            SipCommand::Redirect {
                call_id,
                domain,
                extension,
            } => SipCommandView::Redirect { call_id, domain: domain@, extension: extension@ },
            SipCommand::PlayDirectToCall {
                call_id,
                samples,
            } => SipCommandView::PlayDirectToCall { call_id, samples: samples@ },
            SipCommand::StartTestTone { call_id } => SipCommandView::StartTestTone { call_id },
            SipCommand::StartStreaming {
                call_id,
                path,
            } => SipCommandView::StartStreaming { call_id, path: path@ },
            SipCommand::MakeOutboundCall {
                tracking_id,
                sip_uri,
                caller_display_name,
                fork_total,
            } => SipCommandView::MakeOutboundCall {
                tracking_id: tracking_id@,
                sip_uri: sip_uri@,
                caller_display_name: text::opt_text(caller_display_name),
                fork_total: fork_total as nat,
            },
            SipCommand::RespondRegister {
                pending,
                auth_ok,
            } => SipCommandView::RespondRegister { pending: pending@, auth_ok },
        }
    }
}

/// An event of the SIP stack.
#[derive(Debug)]
pub enum SipEvent {
    IncomingCall {
        call_id: CallId,
        digest_auth: DigestAuthParams,
        extension: String,
        source_ip: Option<String>,
    },
    CallEnded { call_id: CallId },
    /// No RTP packets came for too long; `rx_count` came before.
    CallTimeout { call_id: CallId, rx_count: u64 },
    OutboundCallAnswered { tracking_id: String, call_id: CallId },
    OutboundCallRinging {
        tracking_id: String,
        call_id: CallId,
        status_code: u16,
        status_text: String,
    },
    /// A leg failed; it has no call if it could not be started.
    OutboundCallFailed { tracking_id: String, failed_call_id: Option<CallId>, reason: String },
    /// The remote side offers T.38, which was answered already.
    T38Offered { call_id: CallId, remote_ip: String, remote_port: u16, local_port: u16 },
}

} // verus!
