//! What the bridge and its routing backend tell each other.

use crate::ids::Snowflake;
use crate::text;
use crate::time::Instant;
use vstd::prelude::*;

verus! {

/// A request of the backend to call a user's phones.
#[derive(Debug)]
pub struct OutboundCallRequest {
    pub call_id: String,
    pub discord_user_id: String,
    /// Display-only username used in SIP caller context.
    pub discord_username: String,
    pub guild_id: String,
    pub channel_id: String,
    pub bot_token: String,
    pub caller_username: String,
    pub created_at: Instant,
}

/// A request in the model.
pub ghost struct OutboundRequestView {
    pub call_id: Seq<char>,
    pub discord_user_id: Seq<char>,
    pub discord_username: Seq<char>,
    pub guild_id: Seq<char>,
    pub channel_id: Seq<char>,
    pub bot_token: Seq<char>,
    pub caller_username: Seq<char>,
    pub created_at: Instant,
}

impl View for OutboundCallRequest {
    type V = OutboundRequestView;

    open spec fn view(&self) -> OutboundRequestView {
        OutboundRequestView {
            call_id: self.call_id@,
            discord_user_id: self.discord_user_id@,
            discord_username: self.discord_username@,
            guild_id: self.guild_id@,
            channel_id: self.channel_id@,
            bot_token: self.bot_token@,
            caller_username: self.caller_username@,
            created_at: self.created_at,
        }
    }
}

impl Clone for OutboundCallRequest {
    fn clone(&self) -> (out: OutboundCallRequest)
        ensures
            out@ == self@,
    {
        OutboundCallRequest {
            call_id: self.call_id.clone(),
            discord_user_id: self.discord_user_id.clone(),
            discord_username: self.discord_username.clone(),
            guild_id: self.guild_id.clone(),
            channel_id: self.channel_id.clone(),
            bot_token: self.bot_token.clone(),
            caller_username: self.caller_username.clone(),
            created_at: self.created_at,
        }
    }
}

/// A command of the backend.
#[derive(Debug, Clone)]
pub enum OutboundCallCommand {
    Start(OutboundCallRequest),
    Cancel { call_id: String },
}

/// Why an outbound call failed.
#[derive(Debug, Clone, Copy, PartialEq, Eq, Structural)]
pub enum OutboundCallFailureReason {
    Busy,
    Declined,
    NoAnswer,
    Transport,
    Internal,
}

/// How far an outbound call has come.
#[derive(Debug, Clone, Copy, PartialEq, Eq, Structural)]
pub enum OutboundCallStatus {
    Unavailable,
    Dialing,
    Ringing,
    Answered,
    Connected,
    Failed(OutboundCallFailureReason),
    NoAudio,
    Ended,
}

/// Diagnostics attached to outbound call status updates.
///
/// These values go to the private backend for operator troubleshooting; they
/// must never contain credentials or Discord bot tokens.
#[derive(Debug, Clone)]
pub struct OutboundCallDiagnostics {
    pub phase: String,
    pub detail: Option<String>,
    pub elapsed_ms: Option<u64>,
    pub registration: Option<RegistrationDiagnostics>,
    pub leg_failures: Vec<OutboundCallLegFailure>,
}

/// Diagnostics in the model.
pub ghost struct DiagnosticsView {
    pub phase: Seq<char>,
    pub detail: Option<Seq<char>>,
    pub elapsed_ms: Option<u64>,
    pub registration: Option<RegistrationDiagnosticsView>,
    pub leg_failures: Seq<LegFailureView>,
}

impl View for OutboundCallDiagnostics {
    type V = DiagnosticsView;

    open spec fn view(&self) -> DiagnosticsView {
        DiagnosticsView {
            phase: self.phase@,
            detail: text::opt_text(self.detail),
            elapsed_ms: self.elapsed_ms,
            registration: match self.registration {
                Some(r) => Some(r@),
                None => None,
            },
            leg_failures: leg_views(self.leg_failures@),
        }
    }
}

/// A snapshot of the registrar for one user.
#[derive(Debug, Clone)]
pub struct RegistrationDiagnostics {
    pub registrar_sip_users: usize,
    pub registrar_user_mappings: usize,
    pub registrar_registrations: usize,
    pub mapped_sip_username: Option<String>,
    pub target_registration_count: usize,
    pub target_active_registration_count: usize,
    pub target_expired_registration_count: usize,
    pub registrations_truncated: bool,
    pub registrations: Vec<RegistrationContactDiagnostics>,
}

/// A registrar snapshot in the model.
pub ghost struct RegistrationDiagnosticsView {
    pub registrar_sip_users: nat,
    pub registrar_user_mappings: nat,
    pub registrar_registrations: nat,
    pub mapped_sip_username: Option<Seq<char>>,
    pub target_registration_count: nat,
    pub target_active_registration_count: nat,
    pub target_expired_registration_count: int,
    pub registrations_truncated: bool,
    pub registrations: Seq<ContactDiagnosticsView>,
}

impl View for RegistrationDiagnostics {
    type V = RegistrationDiagnosticsView;

    open spec fn view(&self) -> RegistrationDiagnosticsView {
        RegistrationDiagnosticsView {
            registrar_sip_users: self.registrar_sip_users as nat,
            registrar_user_mappings: self.registrar_user_mappings as nat,
            registrar_registrations: self.registrar_registrations as nat,
            mapped_sip_username: text::opt_text(self.mapped_sip_username),
            target_registration_count: self.target_registration_count as nat,
            target_active_registration_count: self.target_active_registration_count as nat,
            target_expired_registration_count: self.target_expired_registration_count as int,
            registrations_truncated: self.registrations_truncated,
            registrations: contact_views(self.registrations@),
        }
    }
}

/// One registration in a snapshot.
#[derive(Debug, Clone)]
pub struct RegistrationContactDiagnostics {
    pub contact_uri: String,
    pub source_addr: String,
    pub transport: String,
    pub active: bool,
    pub registered_age_ms: u64,
    pub expires_in_ms: i64,
}

/// A registration of a snapshot in the model.
pub ghost struct ContactDiagnosticsView {
    pub contact_uri: Seq<char>,
    pub source_addr: Seq<char>,
    pub transport: Seq<char>,
    pub active: bool,
    pub registered_age_ms: nat,
    pub expires_in_ms: int,
}

impl View for RegistrationContactDiagnostics {
    type V = ContactDiagnosticsView;

    open spec fn view(&self) -> ContactDiagnosticsView {
        ContactDiagnosticsView {
            contact_uri: self.contact_uri@,
            source_addr: self.source_addr@,
            transport: self.transport@,
            active: self.active,
            registered_age_ms: self.registered_age_ms as nat,
            expires_in_ms: self.expires_in_ms as int,
        }
    }
}

pub open spec fn contact_views(list: Seq<RegistrationContactDiagnostics>) -> Seq<
    ContactDiagnosticsView,
> {
    list.map_values(|c: RegistrationContactDiagnostics| c@)
}

/// The failure of one leg of an outbound call.
#[derive(Debug, Clone)]
pub struct OutboundCallLegFailure {
    pub sip_call_id: Option<String>,
    pub detail: String,
}

/// A leg failure in the model.
pub ghost struct LegFailureView {
    pub sip_call_id: Option<Seq<char>>,
    pub detail: Seq<char>,
}

impl View for OutboundCallLegFailure {
    type V = LegFailureView;

    open spec fn view(&self) -> LegFailureView {
        LegFailureView { sip_call_id: text::opt_text(self.sip_call_id), detail: self.detail@ }
    }
}

pub open spec fn leg_views(list: Seq<OutboundCallLegFailure>) -> Seq<LegFailureView> {
    list.map_values(|f: OutboundCallLegFailure| f@)
}

/// Result of routing an incoming SIP call.
#[derive(Debug)]
pub enum RouteDecision {
    /// Connect to this Discord voice channel.
    Connect { channel_id: Snowflake, guild_id: Snowflake, user_id: String, bot_token: String },
    /// Handle as incoming fax: post to a Discord text channel.
    ConnectFax {
        text_channel_id: Snowflake,
        guild_id: Snowflake,
        user_id: String,
        bot_token: String,
    },
    /// Redirect to another bridge server.
    Redirect { domain: String, extension: String },
    /// Reject with invalid credentials (no error sound, just hangup).
    RejectInvalidCredentials,
    /// Play an error sound and hang up.
    RejectWithError { error: CallError },
}

/// Errors that are told by a sound before the call is hung up.
#[derive(Debug, Clone, Copy, PartialEq, Eq, Structural)]
pub enum CallError {
    /// No channel mapping for the dialed extension.
    NoChannelMapping,
    /// The user lacks permission for the target Discord channel.
    NoPermissions,
    /// Discord API error.
    DiscordApiError,
    /// The server is busy.
    ServerBusy,
    /// Unknown call error.
    Unknown,
}

/// The sound that tells an error.
pub open spec fn error_sound(error: CallError) -> Seq<char> {
    match error {
        CallError::NoChannelMapping => "no_channel_mapping"@,
        CallError::NoPermissions => "no_permissions"@,
        CallError::DiscordApiError => "server_is_busy"@,
        CallError::ServerBusy => "server_is_busy"@,
        CallError::Unknown => "unknown_error"@,
    }
}

impl CallError {
    /// The name of the sound for this error.
    pub fn sound_name(&self) -> (name: &'static str)
        ensures
            name@ == error_sound(*self),
    {
        match self {
            CallError::NoChannelMapping => "no_channel_mapping",
            CallError::NoPermissions => "no_permissions",
            CallError::DiscordApiError => "server_is_busy",
            CallError::ServerBusy => "server_is_busy",
            CallError::Unknown => "unknown_error",
        }
    }

    /// The error in words.
    pub fn message(&self) -> (name: &'static str)
        ensures
            name@ == (match *self {
                CallError::NoChannelMapping => "no channel mapping for the dialed extension"@,
                CallError::NoPermissions =>
                    "user lacks permission for the target Discord channel"@,
                CallError::DiscordApiError => "Discord API error"@,
                CallError::ServerBusy => "server is busy"@,
                CallError::Unknown => "unknown call error"@,
            }),
    {
        match self {
            CallError::NoChannelMapping => "no channel mapping for the dialed extension",
            CallError::NoPermissions => "user lacks permission for the target Discord channel",
            CallError::DiscordApiError => "Discord API error",
            CallError::ServerBusy => "server is busy",
            CallError::Unknown => "unknown call error",
        }
    }
}

/// A call that just started, as told to the backend.
#[derive(Debug)]
pub struct CallStartedInfo {
    pub sip_call_id: String,
    pub user_id: String,
    pub guild_id: String,
    pub channel_id: String,
    pub extension: String,
}

/// A started call in the model.
pub ghost struct CallStartedView {
    pub sip_call_id: Seq<char>,
    pub user_id: Seq<char>,
    pub guild_id: Seq<char>,
    pub channel_id: Seq<char>,
    pub extension: Seq<char>,
}

impl View for CallStartedInfo {
    type V = CallStartedView;

    open spec fn view(&self) -> CallStartedView {
        CallStartedView {
            sip_call_id: self.sip_call_id@,
            user_id: self.user_id@,
            guild_id: self.guild_id@,
            channel_id: self.channel_id@,
            extension: self.extension@,
        }
    }
}

} // verus!
