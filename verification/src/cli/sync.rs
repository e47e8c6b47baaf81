//! Synchronisation of the configuration of a Guard with the gateway.

use vstd::prelude::*;
use vstd::string::StringExecFns;
use crate::cli::guard_config::RemoteConfig;
use crate::error::{NuxError, Result};
use crate::peer::PeerId;
use crate::text::push_decimal;

verus! {

/// Address of the configuration of a Guard at the gateway, through the tunnel on a local
/// port.
pub fn remote_config_url(gateway_port: u16, uuid: &PeerId) -> (r: String)
    ensures
        r@ == "http://127.0.0.1:"@ + crate::text::decimal(gateway_port as nat)
            + "/api/v1/configs/"@ + crate::peer::peer_id_text(uuid@),
{
    let mut url = "http://127.0.0.1:".to_owned();
    push_decimal(&mut url, gateway_port as u64);
    url.append("/api/v1/configs/");
    let id = uuid.to_base58();
    url.append(id.as_str());
    url
}

/// What came of the request for a configuration.
pub enum RemoteReply {
    /// No answer, with the text of the error.
    Unreachable(String),
    /// An answer other than a success, with its status.
    Refused(String),
    /// A success that holds no configuration, with the text of the error.
    Invalid(String),
    /// A configuration.
    Config(RemoteConfig),
}

/// The configuration that the gateway gave at an address, or the error that names what
/// failed.
pub fn remote_config(url: &str, reply: RemoteReply) -> (r: Result<RemoteConfig>)
    ensures
        match reply {
            RemoteReply::Unreachable(why) => r matches Err(NuxError::Network(m)) && m@
                == "Gateway injoignable ("@ + url@ + "): "@ + why@,
            RemoteReply::Refused(status) => r matches Err(NuxError::Network(m)) && m@
                == "Gateway a répondu "@ + status@ + " pour "@ + url@,
            RemoteReply::Invalid(why) => r matches Err(NuxError::Network(m)) && m@
                == "réponse Gateway invalide: "@ + why@,
            RemoteReply::Config(config) => r == Ok::<RemoteConfig, NuxError>(config),
        },
{
    match reply {
        RemoteReply::Unreachable(why) => {
            let mut message = "Gateway injoignable (".to_owned();
            message.append(url);
            message.append("): ");
            message.append(why.as_str());
            Err(NuxError::Network(message))
        },
        RemoteReply::Refused(status) => {
            let mut message = "Gateway a répondu ".to_owned();
            message.append(status.as_str());
            message.append(" pour ");
            message.append(url);
            Err(NuxError::Network(message))
        },
        RemoteReply::Invalid(why) => Err(
            NuxError::Network("réponse Gateway invalide: ".to_owned().concat(why.as_str())),
        ),
        RemoteReply::Config(config) => Ok(config),
    }
}

/// What happened in the loop that keeps a Guard in step with the gateway.
#[derive(Debug)]
pub enum SyncEvent {
    /// The gateway gave a configuration of this version.
    Fetched(String),
    /// The gateway gave no configuration.
    FetchFailed,
    /// The configuration was written to the file of the Guard.
    Applied,
    /// The configuration was refused, and the file is as before.
    ApplyFailed,
    /// The Guard was told to read its file again, or could not be told.
    Signalled,
}

/// What to do next.
#[derive(Debug, Clone, Copy, PartialEq, Eq, Structural)]
pub enum SyncAction {
    /// Write the configuration to the file of the Guard.
    Apply,
    /// Tell the Guard to read its file again.
    Signal,
    /// Wait until the next request.
    Sleep,
}

/// State of a [`SyncState`].
pub struct SyncModel {
    /// Version applied last.
    pub last: Option<Seq<char>>,
    /// Version that is being applied.
    pub applying: Option<Seq<char>>,
}

/// Content of a [`SyncEvent`].
pub enum SyncEventModel {
    Fetched(Seq<char>),
    FetchFailed,
    Applied,
    ApplyFailed,
    Signalled,
}

impl View for SyncEvent {
    type V = SyncEventModel;

    open spec fn view(&self) -> SyncEventModel {
        match self {
            SyncEvent::Fetched(version) => SyncEventModel::Fetched(version@),
            SyncEvent::FetchFailed => SyncEventModel::FetchFailed,
            SyncEvent::Applied => SyncEventModel::Applied,
            SyncEvent::ApplyFailed => SyncEventModel::ApplyFailed,
            SyncEvent::Signalled => SyncEventModel::Signalled,
        }
    }
}

/// Which version of the configuration was applied last, and which is being applied.
pub struct SyncState {
    last: Option<String>,
    applying: Option<String>,
}

impl View for SyncState {
    type V = SyncModel;

    closed spec fn view(&self) -> SyncModel {
        SyncModel {
            last: crate::text::opt_text(self.last),
            applying: crate::text::opt_text(self.applying),
        }
    }
}

impl SyncState {
    /// Before any version was applied.
    pub fn new() -> (r: Self)
        ensures
            r@ == (SyncModel { last: None, applying: None }),
    {
        SyncState { last: None, applying: None }
    }
}

/// The step of the loop. A version is applied unless it is the one applied last; it counts
/// as applied once it is written, before the Guard is told; one that is refused is tried
/// again.
pub open spec fn sync_next(m: SyncModel, event: SyncEventModel) -> (SyncModel, SyncAction) {
    match event {
        SyncEventModel::Fetched(version) => if m.last == Some(version) {
            (SyncModel { applying: None, ..m }, SyncAction::Sleep)
        } else {
            (SyncModel { applying: Some(version), ..m }, SyncAction::Apply)
        },
        SyncEventModel::Applied => match m.applying {
            Some(version) => (
                SyncModel { last: Some(version), applying: None },
                SyncAction::Signal,
            ),
            None => (m, SyncAction::Sleep),
        },
        _ => (SyncModel { applying: None, ..m }, SyncAction::Sleep),
    }
}

/// Step of the loop that keeps a Guard in step with the gateway.
pub fn sync_step(state: &mut SyncState, event: SyncEvent) -> (r: SyncAction)
    ensures
        (final(state)@, r) == sync_next(old(state)@, event@),
{
    match event {
        SyncEvent::Fetched(version) => {
            let known = match &state.last {
                Some(last) => *last == version,
                None => false,
            };
            if known {
                state.applying = None;
                SyncAction::Sleep
            } else {
                state.applying = Some(version);
                SyncAction::Apply
            }
        },
        SyncEvent::Applied => match &state.applying {
            Some(version) => {
                let applied = version.clone();
                state.last = Some(applied);
                state.applying = None;
                SyncAction::Signal
            },
            None => SyncAction::Sleep,
        },
        _ => {
            state.applying = None;
            SyncAction::Sleep
        },
    }
}

/// A version is applied once: fetched again, it changes nothing and the Guard is left in
/// peace. A version that was refused is applied again when it is fetched again.
pub proof fn version_is_applied_once(m: SyncModel, version: Seq<char>)
    requires
        m.last != Some(version),
    ensures
        ({
            let applying = sync_next(m, SyncEventModel::Fetched(version)).0;
            let applied = sync_next(applying, SyncEventModel::Applied);
            let refused = sync_next(applying, SyncEventModel::ApplyFailed);
            &&& applied.1 == SyncAction::Signal
            &&& sync_next(applied.0, SyncEventModel::Fetched(version)) == (
                applied.0,
                SyncAction::Sleep,
            )
            &&& refused.1 == SyncAction::Sleep
            &&& sync_next(refused.0, SyncEventModel::Fetched(version)).1 == SyncAction::Apply
        }),
{
}

/// The Guard is told to read its file only after a configuration was written to it.
pub proof fn signal_follows_a_written_file(m: SyncModel, event: SyncEventModel)
    requires
        sync_next(m, event).1 == SyncAction::Signal,
    ensures
        event is Applied,
        m.applying is Some,
{
}

/// A version that is not the one applied last is applied; once it is written it is the one
/// applied last, and the Guard is told. What fails changes nothing of what was applied last.
pub proof fn new_version_is_applied(m: SyncModel, version: Seq<char>)
    ensures
        sync_next(m, SyncEventModel::Fetched(version)).1 == if m.last == Some(version) {
            SyncAction::Sleep
        } else {
            SyncAction::Apply
        },
        sync_next(m, SyncEventModel::Fetched(version)).0.last == m.last,
        m.last != Some(version) ==> {
            let applying = sync_next(m, SyncEventModel::Fetched(version)).0;
            let written = sync_next(applying, SyncEventModel::Applied);
            written.0.last == Some(version) && written.1 == SyncAction::Signal
        },
        sync_next(m, SyncEventModel::FetchFailed).0.last == m.last,
        sync_next(m, SyncEventModel::FetchFailed).1 == SyncAction::Sleep,
        sync_next(m, SyncEventModel::ApplyFailed).0.last == m.last,
        sync_next(m, SyncEventModel::ApplyFailed).1 == SyncAction::Sleep,
        sync_next(m, SyncEventModel::Signalled).0.last == m.last,
        sync_next(m, SyncEventModel::Signalled).1 == SyncAction::Sleep,
{
}

/// The content of an event is that event.
pub proof fn sync_events_are_taken_as_they_are(event: SyncEvent)
    ensures
        match event {
            SyncEvent::Fetched(version) => event@ == SyncEventModel::Fetched(version@),
            SyncEvent::FetchFailed => event@ is FetchFailed,
            SyncEvent::Applied => event@ is Applied,
            SyncEvent::ApplyFailed => event@ is ApplyFailed,
            SyncEvent::Signalled => event@ is Signalled,
        },
{
}

} // verus!
