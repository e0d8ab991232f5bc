//! The call module: it passes calls on to where the callee is, and keeps a session for each call
//! that has been accepted.

use crate::config::{MediaProxyMode, ProxyConfig};
use crate::dialog::{DialogId, DialogIdView};
use crate::outside;
use crate::protocol::{
    locations_view, sending_view, CallAction, CallActionView, CallError, CallErrorView, CallEvent,
    CallState, CallStateView, Leg, Location, Outgoing, Parties, PartiesView, ProxyAction,
    StatusCode,
};
use crate::sessions::{surviving, Session, SessionTable};
use crate::sip::{HeaderKind, Message, Method, Request, SipAddr};
use crate::steps::{
    aborted, ack_forwarded, answered, begun, bye_begun, bye_forwarded, bye_step, callee_of,
    caller_of, concluded, failed, finished, forwarding_error, given_up, invite_begun, invite_forwarded, invite_located,
    invite_outcome, invite_sent, is_bye, media_proxied, options_noted, parties, relay_step,
    sdp_to_inspect, stepped, Outcome, Sessions,
};
use crate::text::{occurs_in, owned_text, result_text};
use vstd::prelude::*;

verus! {

/// How long a session may be silent: five minutes, in nanoseconds.
pub const SESSION_TIMEOUT: u128 = 300_000_000_000;

/// How often the sessions are looked through: every thirty seconds, in nanoseconds.
pub const OPTIONS_INTERVAL: u128 = 30_000_000_000;

/// The state of the call module.
#[derive(Debug)]
pub struct CallModuleInner {
    pub config: ProxyConfig,
    pub sessions: SessionTable,
    /// How long a session may be silent, in nanoseconds.
    pub session_timeout: u128,
    /// How often the sessions are looked through, in nanoseconds.
    pub options_interval: u128,
}

/// The call module.
#[derive(Debug)]
pub struct CallModule {
    pub inner: CallModuleInner,
}

/// The mathematical value of a [`CallModule`].
pub struct CallModuleView {
    pub config: ProxyConfig,
    pub sessions: Sessions,
    pub session_timeout: nat,
    pub options_interval: nat,
}

impl View for CallModule {
    type V = CallModuleView;

    open spec fn view(&self) -> CallModuleView {
        CallModuleView {
            config: self.inner.config,
            sessions: self.inner.sessions@,
            session_timeout: self.inner.session_timeout as nat,
            options_interval: self.inner.options_interval as nat,
        }
    }
}

impl CallModuleView {
    /// The same module with other sessions.
    pub open spec fn with_sessions(self, sessions: Sessions) -> CallModuleView {
        CallModuleView { sessions, ..self }
    }
}

/// What the task that looks after the sessions is told.
#[derive(Clone, Copy, Debug, PartialEq, Eq)]
pub enum MonitorEvent {
    /// The proxy shuts down.
    Cancelled,
    /// It is time to look through the sessions; it is this moment, in nanoseconds.
    Tick(u128),
}

/// The mathematical value of an outcome.
pub open spec fn outcome_view(outcome: (CallState, CallAction)) -> Outcome {
    (outcome.0@, outcome.1@)
}

/// The mathematical value of an optional dialog name.
pub open spec fn dialog_view(id: Option<DialogId>) -> Option<DialogIdView> {
    match id {
        Some(id) => Some(id@),
        None => None,
    }
}

/// The mathematical value of who calls, or the error.
pub open spec fn caller_view(caller: Result<String, CallError>) -> Result<Seq<char>, CallErrorView> {
    match caller {
        Ok(uri) => Ok(uri@),
        Err(error) => Err(error@),
    }
}

/// The mathematical value of who is called, or the error.
pub open spec fn callee_view(callee: Result<(Option<String>, String), CallError>) -> Result<
    (Option<Seq<char>>, Seq<char>),
    CallErrorView,
> {
    match callee {
        Ok((user, realm)) => Ok((owned_text(user), realm@)),
        Err(error) => Err(error@),
    }
}

/// The mathematical value of who calls whom, or the error.
pub open spec fn parties_view(parties: Result<Parties, CallError>) -> Result<
    PartiesView,
    CallErrorView,
> {
    match parties {
        Ok(parties) => Ok(parties@),
        Err(error) => Err(error@),
    }
}

fn finish(action: ProxyAction) -> (r: (CallState, CallAction))
    ensures
        outcome_view(r) == finished(Ok(action), None),
{
    (CallState::Finished, CallAction::Finish(Ok(action), None))
}

fn give_up(error: CallError) -> (r: (CallState, CallAction))
    ensures
        outcome_view(r) == given_up(error@),
{
    (CallState::Finished, CallAction::Finish(Ok(ProxyAction::Abort), Some(error)))
}

fn conclude(result: Result<(), String>) -> (r: (CallState, CallAction))
    ensures
        outcome_view(r) == concluded(sending_view(result)),
{
    match result {
        Ok(_) => finish(ProxyAction::Abort),
        Err(e) => give_up(CallError::Stack(e)),
    }
}

fn fail(error: CallError) -> (r: (CallState, CallAction))
    ensures
        outcome_view(r) == failed(error@),
{
    (CallState::InviteFailed(error), CallAction::CheckAnswered)
}

fn answer(status: StatusCode) -> (r: (CallState, CallAction))
    ensures
        outcome_view(r) == answered(status),
{
    (CallState::FinalReply, CallAction::Reply(status, None))
}

/// Reads the caller in the `From` header.
pub fn read_caller(request: &Request) -> (r: Result<String, CallError>)
    ensures
        caller_view(r) == caller_of(request@),
{
    match request.header(HeaderKind::From) {
        Some(value) => match outside::from_uri(value) {
            Ok(uri) => Ok(uri),
            Err(e) => Err(CallError::Header(e)),
        },
        None => Err(CallError::MissingFrom),
    }
}

/// Reads the callee in the `To` header: the user, if one is named, and the realm.
pub fn read_callee(request: &Request) -> (r: Result<(Option<String>, String), CallError>)
    ensures
        callee_view(r) == callee_of(request@),
{
    match request.header(HeaderKind::To) {
        Some(value) => match outside::to_uri(value) {
            Ok(parts) => Ok(parts),
            Err(e) => Err(CallError::Header(e)),
        },
        None => Err(CallError::MissingTo),
    }
}

/// Puts caller and callee together.
pub fn join_parties(
    caller: Result<String, CallError>,
    callee: Result<(Option<String>, String), CallError>,
) -> (r: Result<Parties, CallError>)
    ensures
        parties_view(r) == parties(caller_view(caller), callee_view(callee)),
{
    match caller {
        Err(error) => Err(error),
        Ok(caller) => match callee {
            Err(error) => Err(error),
            Ok((user, realm)) => {
                let callee = match user {
                    Some(user) => user,
                    None => String::new(),
                };
                Ok(Parties { caller, callee, realm })
            },
        },
    }
}

/// How an INVITE of the given parties begins: the realm of the callee is checked.
pub fn begin_invite(parties: Result<Parties, CallError>) -> (r: (CallState, CallAction))
    ensures
        outcome_view(r) == invite_begun(parties_view(parties)),
{
    match parties {
        Ok(parties) => {
            let realm = parties.realm.clone();
            (CallState::InviteRealm(parties), CallAction::CheckRealm(realm))
        },
        Err(error) => fail(error),
    }
}

/// How an INVITE goes on with the request for the callee and the key of its transaction, or the
/// error: the request is sent.
pub fn forward_invite(leg: Leg, request: Request, key: Result<String, String>) -> (r: (
    CallState,
    CallAction,
))
    ensures
        outcome_view(r) == invite_forwarded(leg@, request@, result_text(key)),
{
    match key {
        Ok(key) => {
            let destination = leg.destination.clone();
            (
                CallState::InviteSend(leg),
                CallAction::Forward(Outgoing { request, key, destination }),
            )
        },
        Err(e) => fail(CallError::Stack(e)),
    }
}

/// How an INVITE goes on after it has been sent to the callee: messages are relayed in the dialog
/// that the request names.
pub fn relay_invite(leg: Leg, dialog_id: Option<DialogId>) -> (r: (CallState, CallAction))
    ensures
        outcome_view(r) == invite_sent(leg@, dialog_view(dialog_id)),
{
    match dialog_id {
        Some(id) => (CallState::InviteRelay(id, leg), CallAction::AwaitEither),
        None => (
            CallState::InviteNoDialogReply,
            CallAction::Reply(StatusCode::ServerInternalError, None),
        ),
    }
}

/// How an INVITE goes on with the acknowledgement for the callee and the key of its transaction, or
/// the error: the acknowledgement is sent.
pub fn forward_ack(dialog_id: DialogId, leg: Leg, ack: Request, key: Result<String, String>) -> (r: (
    CallState,
    CallAction,
))
    ensures
        outcome_view(r) == ack_forwarded(dialog_id@, leg@, ack@, result_text(key)),
{
    match key {
        Ok(key) => {
            let destination = leg.destination.clone();
            (
                CallState::InviteAckSend(dialog_id, leg),
                CallAction::ForwardAck(Outgoing { request: ack, key, destination }),
            )
        },
        Err(e) => fail(CallError::Stack(e)),
    }
}

/// How a BYE goes on with the request for the callee and the key of its transaction, or the error:
/// the request is sent.
pub fn forward_bye(
    dialog_id: DialogId,
    destination: SipAddr,
    request: Request,
    key: Result<String, String>,
) -> (r: (CallState, CallAction))
    ensures
        outcome_view(r) == bye_forwarded(dialog_id@, destination@, request@, result_text(key)),
{
    match key {
        Ok(key) => (
            CallState::ByeSend(dialog_id),
            CallAction::Forward(Outgoing { request, key, destination }),
        ),
        Err(e) => give_up(CallError::Stack(e)),
    }
}

/// Takes the first of the locations.
fn first_destination(locations: &Vec<Location>) -> (r: SipAddr)
    requires
        locations@.len() > 0,
    ensures
        r@ == locations_view(locations@)[0].destination,
{
    locations[0].destination.clone()
}

impl CallModule {
    /// No dialog has two sessions.
    pub open spec fn wf(&self) -> bool {
        self.inner.sessions.wf()
    }

    /// A call module with the given settings and no sessions.
    pub fn new(config: ProxyConfig) -> (r: CallModule)
        ensures
            r.wf(),
            r@ == (CallModuleView {
                config,
                sessions: Map::empty(),
                session_timeout: SESSION_TIMEOUT as nat,
                options_interval: OPTIONS_INTERVAL as nat,
            }),
    {
        CallModule {
            inner: CallModuleInner {
                config,
                sessions: SessionTable::new(),
                session_timeout: SESSION_TIMEOUT,
                options_interval: OPTIONS_INTERVAL,
            },
        }
    }

    /// A call module for the list of modules, which none can fail to join.
    pub fn create(config: ProxyConfig) -> (r: Result<Box<CallModule>, CallError>)
        ensures
            r matches Ok(module) && module.wf() && module@ == (CallModuleView {
                config,
                sessions: Map::empty(),
                session_timeout: SESSION_TIMEOUT as nat,
                options_interval: OPTIONS_INTERVAL as nat,
            }),
    {
        Ok(Box::new(CallModule::new(config)))
    }

    /// The name of the module.
    pub fn name(&self) -> (r: &'static str)
        ensures
            r@ == "call"@,
    {
        "call"
    }

    /// The methods that the module lets through.
    pub fn allow_methods(&self) -> (r: Vec<Method>)
        ensures
            r@ == seq![
                Method::Invite,
                Method::Bye,
                Method::Info,
                Method::Ack,
                Method::Cancel,
                Method::Options,
            ],
    {
        vec![
            Method::Invite,
            Method::Bye,
            Method::Info,
            Method::Ack,
            Method::Cancel,
            Method::Options,
        ]
    }

    /// Called when the proxy starts.
    pub fn on_start(&mut self) -> (r: Result<(), CallError>)
        ensures
            r == Ok::<(), CallError>(()),
            *final(self) == *old(self),
    {
        Ok(())
    }

    /// Called when the proxy stops.
    pub fn on_stop(&self) -> (r: Result<(), CallError>)
        ensures
            r == Ok::<(), CallError>(()),
    {
        Ok(())
    }

    /// Called when a transaction is over.
    pub fn on_transaction_end(&self) -> (r: Result<(), CallError>)
        ensures
            r == Ok::<(), CallError>(()),
    {
        Ok(())
    }

    /// Takes away the sessions that have been silent for too long.
    pub fn check_sessions(&mut self, now: u128)
        requires
            old(self).wf(),
        ensures
            final(self).wf(),
            final(self)@ == old(self)@.with_sessions(
                surviving(old(self)@.sessions, now as nat, old(self)@.session_timeout),
            ),
    {
        let timeout: u128 = self.inner.session_timeout;
        self.inner.sessions.remove_expired(now, timeout);
    }

    /// One step of the task that looks after the sessions. Says whether the task goes on.
    pub fn monitor_sessions(&mut self, event: MonitorEvent) -> (r: bool)
        requires
            old(self).wf(),
        ensures
            final(self).wf(),
            match event {
                MonitorEvent::Cancelled => !r && final(self)@ == old(self)@,
                MonitorEvent::Tick(now) => r && final(self)@ == old(self)@.with_sessions(
                    surviving(old(self)@.sessions, now as nat, old(self)@.session_timeout),
                ),
            },
    {
        match event {
            MonitorEvent::Cancelled => false,
            MonitorEvent::Tick(now) => {
                self.check_sessions(now);
                true
            },
        }
    }

    /// The session description that has to be looked through for private addresses before
    /// [`CallModule::should_use_media_proxy`] can be answered, if there is one.
    pub fn sdp_to_inspect(&self, request: &Request) -> (r: Option<String>)
        ensures
            owned_text(r) == sdp_to_inspect(self@.config.media_proxy.mode, request@),
    {
        match self.inner.config.media_proxy.mode {
            MediaProxyMode::NatOnly => match request.header(HeaderKind::ContentType) {
                Some(value) => if outside::contains(value, "application/sdp") {
                    Some(outside::lossy(&request.body))
                } else {
                    None
                },
                None => None,
            },
            _ => None,
        }
    }

    /// Whether the media of the call are relayed. `private` says whether the session description
    /// names a private address, as far as it could be read.
    pub fn should_use_media_proxy(&self, request: &Request, private: Option<bool>) -> (r: Result<
        bool,
        CallError,
    >)
        ensures
            r == Ok::<bool, CallError>(
                media_proxied(self@.config.media_proxy.mode, request@, private),
            ),
            self.inner.config.media_proxy.mode == MediaProxyMode::Off ==> r == Ok::<
                bool,
                CallError,
            >(false),
            self.inner.config.media_proxy.mode == MediaProxyMode::All ==> r == Ok::<
                bool,
                CallError,
            >(true),
            self.inner.config.media_proxy.mode == MediaProxyMode::NatOnly ==> r == Ok::<
                bool,
                CallError,
            >(
                private == Some(true) && (request@.header(HeaderKind::ContentType) matches Some(
                    value,
                ) && occurs_in("application/sdp"@, value)),
            ),
    {
        match self.inner.config.media_proxy.mode {
            MediaProxyMode::Off => Ok(false),
            MediaProxyMode::All => Ok(true),
            MediaProxyMode::NatOnly => match request.header(HeaderKind::ContentType) {
                Some(value) => if outside::contains(value, "application/sdp") {
                    Ok(private.unwrap_or(false))
                } else {
                    Ok(false)
                },
                None => Ok(false),
            },
        }
    }

    /// Passes a request on to another realm, which fails whether or not it is allowed.
    pub fn forward_to_proxy(&self) -> (r: Result<(), CallError>)
        ensures
            r matches Err(error) && error@ == forwarding_error(self@.config),
            self.inner.config.enable_forwarding == Some(true) ==> r == Err::<(), CallError>(
                CallError::ForwardingNotImplemented,
            ),
            self.inner.config.enable_forwarding != Some(true) ==> r == Err::<(), CallError>(
                CallError::ForwardingDisabled,
            ),
    {
        if !self.inner.config.enable_forwarding.unwrap_or(false) {
            return Err(CallError::ForwardingDisabled);
        }
        Err(CallError::ForwardingNotImplemented)
    }

    /// How a BYE begins in the given dialog: the callee of its session is looked up. A BYE that
    /// names no dialog, or one without a session, is refused.
    pub fn begin_bye(&self, dialog_id: Option<DialogId>) -> (r: (CallState, CallAction))
        requires
            self.wf(),
        ensures
            outcome_view(r) == bye_begun(self@.sessions, dialog_view(dialog_id)),
    {
        match dialog_id {
            Some(id) => match self.inner.sessions.get(&id) {
                Some(session) => {
                    let callee = session.parties.1.clone();
                    (CallState::ByeLookup(id), CallAction::Lookup(callee, None))
                },
                None => answer(StatusCode::CallTransactionDoesNotExist),
            },
            None => answer(StatusCode::BadRequest),
        }
    }

    /// Notes activity in the given dialog: its session, if there is one, is alive at `now`.
    pub fn note_activity(&mut self, dialog_id: Option<DialogId>, now: u128)
        requires
            old(self).wf(),
        ensures
            final(self).wf(),
            final(self)@ == old(self)@.with_sessions(
                options_noted(old(self)@.sessions, dialog_view(dialog_id), now as nat),
            ),
    {
        if let Some(id) = dialog_id {
            self.inner.sessions.touch(&id, now);
        }
    }

    /// Accepts an OPTIONS, and notes it as activity in its dialog.
    pub fn handle_options(&mut self, request: &Request, now: u128) -> (r: (CallState, CallAction))
        requires
            old(self).wf(),
        ensures
            final(self).wf(),
            final(self)@ == old(self)@.with_sessions(
                options_noted(old(self)@.sessions, request@.dialog_id(), now as nat),
            ),
            outcome_view(r) == answered(StatusCode::OK),
    {
        self.note_activity(DialogId::from_request(request), now);
        answer(StatusCode::OK)
    }

    /// Lets an acknowledgement outside of an INVITE go by.
    pub fn handle_ack(&self) -> (r: (CallState, CallAction))
        ensures
            outcome_view(r) == aborted(),
    {
        finish(ProxyAction::Abort)
    }

    /// Accepts a CANCEL.
    pub fn handle_cancel(&self) -> (r: (CallState, CallAction))
        ensures
            outcome_view(r) == answered(StatusCode::OK),
    {
        answer(StatusCode::OK)
    }

    /// Begins to handle a request that came at `now`.
    pub fn on_transaction_begin(&mut self, request: &Request, now: u128) -> (r: (
        CallState,
        CallAction,
    ))
        requires
            old(self).wf(),
        ensures
            final(self).wf(),
            final(self)@ == old(self)@.with_sessions(
                begun(old(self)@.sessions, request@, now as nat).sessions,
            ),
            outcome_view(r) == begun(old(self)@.sessions, request@, now as nat).outcome,
    {
        match request.method {
            Method::Invite => begin_invite(join_parties(read_caller(request), read_callee(request))),
            Method::Bye => self.begin_bye(DialogId::from_request(request)),
            Method::Options => self.handle_options(request, now),
            Method::Ack => self.handle_ack(),
            Method::Cancel => self.handle_cancel(),
            _ => finish(ProxyAction::Continue),
        }
    }

    /// How an INVITE goes on once the callee has been located: the route is made, or the session
    /// description is looked through first.
    fn locate_invite(&self, request: &Request, leg: Leg) -> (r: (CallState, CallAction))
        ensures
            outcome_view(r) == invite_located(self@.config, request@, leg@),
    {
        match self.sdp_to_inspect(request) {
            Some(sdp) => (CallState::InviteMedia(leg), CallAction::InspectMedia(sdp)),
            None => self.route_invite(request, leg, None),
        }
    }

    fn route_invite(&self, request: &Request, leg: Leg, private: Option<bool>) -> (r: (
        CallState,
        CallAction,
    ))
        ensures
            outcome_view(r) == (
                CallStateView::InviteRoute(leg@),
                CallActionView::RouteInvite(
                    media_proxied(self@.config.media_proxy.mode, request@, private),
                ),
            ),
    {
        match self.should_use_media_proxy(request, private) {
            Ok(media_proxy) => (CallState::InviteRoute(leg), CallAction::RouteInvite(media_proxy)),
            Err(error) => fail(error),
        }
    }

    /// One step of an INVITE while messages are relayed between caller and callee.
    pub fn relay(&mut self, dialog_id: DialogId, leg: Leg, event: CallEvent) -> (r: (
        CallState,
        CallAction,
    ))
        requires
            old(self).wf(),
        ensures
            final(self).wf(),
            final(self)@ == old(self)@.with_sessions(
                relay_step(old(self)@.sessions, dialog_id@, leg@, event@).sessions,
            ),
            outcome_view(r) == relay_step(old(self)@.sessions, dialog_id@, leg@, event@).outcome,
    {
        match event {
            CallEvent::ClientTerminated => finish(ProxyAction::Abort),
            CallEvent::ClientMessage(Some(Message::Response(response)), now) => {
                let mut response = response;
                response.pop_via();
                if response.is_successful() {
                    let session = Session {
                        dialog_id: dialog_id.clone(),
                        last_activity: now,
                        parties: (leg.caller.clone(), leg.callee.clone()),
                    };
                    self.inner.sessions.insert(dialog_id.clone(), session);
                }
                (CallState::InviteRespond(dialog_id, leg), CallAction::Respond(response))
            },
            CallEvent::ServerMessage(Some(Message::Request(request))) => {
                if request.method == Method::Ack {
                    (CallState::InviteAckRoute(dialog_id, leg, request), CallAction::RouteVia)
                } else {
                    (CallState::InviteRelay(dialog_id, leg), CallAction::AwaitEither)
                }
            },
            _ => (CallState::InviteRelay(dialog_id, leg), CallAction::AwaitEither),
        }
    }

    /// One step of an INVITE while no messages are relayed.
    pub fn handle_invite(&self, request: &Request, state: CallState, event: CallEvent) -> (r: (
        CallState,
        CallAction,
    ))
        requires
            state@.expects(event@),
            !is_bye(state@),
            !(state@ is InviteRelay),
            !(state@ is FinalReply),
        ensures
            outcome_view(r) == invite_outcome(self@.config, request@, state@, event@),
    {
        match (state, event) {
            (CallState::InviteRealm(parties), CallEvent::RealmChecked(ours)) => if ours {
                let callee = parties.callee.clone();
                let realm = parties.realm.clone();
                (CallState::InviteLookup(parties), CallAction::Lookup(callee, Some(realm)))
            } else {
                match self.forward_to_proxy() {
                    Ok(_) => finish(ProxyAction::Abort),
                    Err(error) => fail(error),
                }
            },
            (CallState::InviteLookup(parties), CallEvent::Located(found)) => match found {
                Some(locations) => {
                    let destination = first_destination(&locations);
                    let leg = Leg { caller: parties.caller, callee: parties.callee, destination };
                    self.locate_invite(request, leg)
                },
                None => (
                    CallState::InviteNotFoundReply,
                    CallAction::Reply(StatusCode::NotFound, None),
                ),
            },
            (CallState::InviteNotFoundReply, CallEvent::Replied(result)) => match result {
                Ok(_) => (CallState::InviteNotFoundAck, CallAction::AwaitServer),
                Err(e) => fail(CallError::Stack(e)),
            },
            (CallState::InviteNotFoundAck, CallEvent::ServerMessage(message)) => match message {
                Some(Message::Request(request)) => if request.method == Method::Ack {
                    finish(ProxyAction::Abort)
                } else {
                    (CallState::InviteNotFoundAck, CallAction::AwaitServer)
                },
                Some(Message::Response(_)) => {
                    (CallState::InviteNotFoundAck, CallAction::AwaitServer)
                },
                None => finish(ProxyAction::Abort),
            },
            (CallState::InviteMedia(leg), CallEvent::MediaInspected(private)) => {
                self.route_invite(request, leg, private)
            },
            (CallState::InviteRoute(leg), CallEvent::RouteBuilt(via, record_route)) => match via {
                Ok(via) => {
                    let mut routed = request.clone();
                    routed.route(via, record_route);
                    let key = routed.client_key();
                    forward_invite(leg, routed, key)
                },
                Err(e) => fail(CallError::Stack(e)),
            },
            (CallState::InviteSend(leg), CallEvent::Sent(result)) => match result {
                Ok(_) => relay_invite(leg, DialogId::from_request(request)),
                Err(e) => fail(CallError::Stack(e)),
            },
            (CallState::InviteNoDialogReply, CallEvent::Replied(result)) => match result {
                Ok(_) => finish(ProxyAction::Abort),
                Err(e) => fail(CallError::Stack(e)),
            },
            (CallState::InviteRespond(id, leg), CallEvent::Responded(result)) => match result {
                Ok(_) => (CallState::InviteRelay(id, leg), CallAction::AwaitEither),
                Err(e) => fail(CallError::Stack(e)),
            },
            (CallState::InviteAckRoute(id, leg, ack), CallEvent::RouteBuilt(via, _)) => match via {
                Ok(via) => {
                    let mut ack = ack;
                    ack.route(via, None);
                    let key = ack.client_key();
                    forward_ack(id, leg, ack, key)
                },
                Err(e) => fail(CallError::Stack(e)),
            },
            (CallState::InviteAckSend(id, leg), CallEvent::Sent(result)) => match result {
                Ok(_) => (CallState::InviteRelay(id, leg), CallAction::AwaitEither),
                Err(e) => fail(CallError::Stack(e)),
            },
            (CallState::InviteFailed(error), CallEvent::Answered(answered)) => if answered {
                give_up(error)
            } else {
                let text = error.text();
                (
                    CallState::InviteFailedReply(error),
                    CallAction::Reply(StatusCode::ServerInternalError, Some(text)),
                )
            },
            (CallState::InviteFailedReply(error), CallEvent::Replied(result)) => match result {
                Ok(_) => give_up(error),
                Err(e) => (
                    CallState::Finished,
                    CallAction::Finish(Err(CallError::Stack(e)), Some(error)),
                ),
            },
            _ => finish(ProxyAction::Abort),
        }
    }

    /// One step of a BYE that goes on to the callee.
    pub fn handle_bye(&mut self, request: &Request, state: CallState, event: CallEvent) -> (r: (
        CallState,
        CallAction,
    ))
        requires
            old(self).wf(),
            state@.expects(event@),
            is_bye(state@),
        ensures
            final(self).wf(),
            final(self)@ == old(self)@.with_sessions(
                bye_step(old(self)@.sessions, request@, state@, event@).sessions,
            ),
            outcome_view(r) == bye_step(old(self)@.sessions, request@, state@, event@).outcome,
    {
        match (state, event) {
            (CallState::ByeLookup(id), CallEvent::Located(found)) => match found {
                Some(locations) => {
                    let destination = first_destination(&locations);
                    (CallState::ByeRoute(id, destination), CallAction::RouteVia)
                },
                None => answer(StatusCode::NotFound),
            },
            (CallState::ByeRoute(id, destination), CallEvent::RouteBuilt(via, _)) => match via {
                Ok(via) => {
                    let mut routed = request.clone();
                    routed.route(via, None);
                    let key = routed.client_key();
                    forward_bye(id, destination, routed, key)
                },
                Err(e) => give_up(CallError::Stack(e)),
            },
            (CallState::ByeSend(id), CallEvent::Sent(result)) => match result {
                Ok(_) => (CallState::ByeResponse(id), CallAction::AwaitClient),
                Err(e) => give_up(CallError::Stack(e)),
            },
            (CallState::ByeResponse(id), CallEvent::ClientMessage(message, _)) => match message {
                Some(Message::Response(response)) => {
                    let mut response = response;
                    response.pop_via();
                    (CallState::ByeRespond(id), CallAction::Respond(response))
                },
                Some(Message::Request(_)) => (CallState::ByeResponse(id), CallAction::AwaitClient),
                None => {
                    self.inner.sessions.remove(&id);
                    finish(ProxyAction::Abort)
                },
            },
            (CallState::ByeRespond(id), CallEvent::Responded(result)) => {
                if result.is_ok() {
                    self.inner.sessions.remove(&id);
                }
                conclude(result)
            },
            _ => finish(ProxyAction::Abort),
        }
    }

    /// Goes on with a transaction after an event that can come in its state. `request` is the
    /// request that began the transaction.
    pub fn on_event(&mut self, request: &Request, state: CallState, event: CallEvent) -> (r: (
        CallState,
        CallAction,
    ))
        requires
            old(self).wf(),
            state@.expects(event@),
        ensures
            final(self).wf(),
            final(self)@ == old(self)@.with_sessions(
                stepped(old(self)@.config, old(self)@.sessions, request@, state@, event@).sessions,
            ),
            outcome_view(r) == stepped(
                old(self)@.config,
                old(self)@.sessions,
                request@,
                state@,
                event@,
            ).outcome,
    {
        match state {
            CallState::InviteRelay(id, leg) => self.relay(id, leg, event),
            CallState::FinalReply => match event {
                CallEvent::Replied(result) => conclude(result),
                _ => finish(ProxyAction::Abort),
            },
            CallState::ByeLookup(_)
            | CallState::ByeRoute(_, _)
            | CallState::ByeSend(_)
            | CallState::ByeResponse(_)
            | CallState::ByeRespond(_) => self.handle_bye(request, state, event),
            _ => self.handle_invite(request, state, event),
        }
    }
}

} // verus!
