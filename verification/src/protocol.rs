//! What the proxy asks of its surroundings while it handles a transaction, and what it is told.
//!
//! A transaction is handled in steps. Each step ends in a [`CallAction`], which whoever runs the
//! transaction carries out; what came of it goes into the next step as a [`CallEvent`].

use crate::dialog::{DialogId, DialogIdView};
use crate::sip::{Message, MessageView, Method, Request, RequestView, Response, ResponseView, SipAddr, SipAddrView};
use crate::text::{owned_text, result_text};
use vstd::prelude::*;

verus! {

/// Why the handling of a transaction failed.
#[derive(Debug, PartialEq, Eq)]
pub enum CallError {
    /// The request has no `From` header.
    MissingFrom,
    /// The request has no `To` header.
    MissingTo,
    /// A header of the request cannot be read.
    Header(String),
    /// The callee is in another realm, and requests for other realms are not passed on.
    ForwardingDisabled,
    /// The callee is in another realm, and no way to pass requests on is known.
    ForwardingNotImplemented,
    /// The SIP stack reported an error.
    Stack(String),
}

/// The mathematical value of a [`CallError`].
pub enum CallErrorView {
    MissingFrom,
    MissingTo,
    Header(Seq<char>),
    ForwardingDisabled,
    ForwardingNotImplemented,
    Stack(Seq<char>),
}

impl View for CallError {
    type V = CallErrorView;

    open spec fn view(&self) -> CallErrorView {
        match *self {
            CallError::MissingFrom => CallErrorView::MissingFrom,
            CallError::MissingTo => CallErrorView::MissingTo,
            CallError::Header(e) => CallErrorView::Header(e@),
            CallError::ForwardingDisabled => CallErrorView::ForwardingDisabled,
            CallError::ForwardingNotImplemented => CallErrorView::ForwardingNotImplemented,
            CallError::Stack(e) => CallErrorView::Stack(e@),
        }
    }
}

impl CallErrorView {
    /// The error as it is told to the caller.
    pub open spec fn text(self) -> Seq<char> {
        match self {
            CallErrorView::MissingFrom => "rsip error: missing header: From"@,
            CallErrorView::MissingTo => "rsip error: missing header: To"@,
            CallErrorView::Header(e) => e,
            CallErrorView::ForwardingDisabled => "External proxy forwarding is disabled"@,
            CallErrorView::ForwardingNotImplemented => "External proxy forwarding not implemented"@,
            CallErrorView::Stack(e) => e,
        }
    }
}

impl CallError {
    /// The error as it is told to the caller.
    pub fn text(&self) -> (r: String)
        ensures
            r@ == self@.text(),
    {
        match self {
            CallError::MissingFrom => "rsip error: missing header: From".to_string(),
            CallError::MissingTo => "rsip error: missing header: To".to_string(),
            CallError::Header(e) => e.clone(),
            CallError::ForwardingDisabled => "External proxy forwarding is disabled".to_string(),
            CallError::ForwardingNotImplemented => {
                "External proxy forwarding not implemented".to_string()
            },
            CallError::Stack(e) => e.clone(),
        }
    }
}

/// What becomes of a transaction after the call module is done with it.
#[derive(Clone, Copy, Debug, PartialEq, Eq, Structural)]
pub enum ProxyAction {
    /// The next module may have it.
    Continue,
    /// It has been dealt with.
    Abort,
}

/// The status of a response that the proxy makes itself.
#[derive(Clone, Copy, Debug, PartialEq, Eq, Structural)]
pub enum StatusCode {
    OK,
    BadRequest,
    NotFound,
    CallTransactionDoesNotExist,
    ServerInternalError,
}

impl StatusCode {
    /// The number that stands for the status.
    pub open spec fn number(self) -> u16 {
        match self {
            StatusCode::OK => 200,
            StatusCode::BadRequest => 400,
            StatusCode::NotFound => 404,
            StatusCode::CallTransactionDoesNotExist => 481,
            StatusCode::ServerInternalError => 500,
        }
    }

    /// The number that stands for the status.
    pub fn code(self) -> (r: u16)
        ensures
            r == self.number(),
    {
        match self {
            StatusCode::OK => 200,
            StatusCode::BadRequest => 400,
            StatusCode::NotFound => 404,
            StatusCode::CallTransactionDoesNotExist => 481,
            StatusCode::ServerInternalError => 500,
        }
    }
}

/// A place at which a user has registered.
#[derive(Debug, PartialEq, Eq)]
pub struct Location {
    pub destination: SipAddr,
}

/// The mathematical value of a [`Location`].
pub struct LocationView {
    pub destination: SipAddrView,
}

impl View for Location {
    type V = LocationView;

    open spec fn view(&self) -> LocationView {
        LocationView { destination: self.destination@ }
    }
}

/// The mathematical value of a list of locations.
pub open spec fn locations_view(locations: Seq<Location>) -> Seq<LocationView> {
    locations.map_values(|location: Location| location@)
}

/// Who calls whom, and in which realm the callee is.
#[derive(Debug, PartialEq, Eq)]
pub struct Parties {
    pub caller: String,
    pub callee: String,
    pub realm: String,
}

/// The mathematical value of [`Parties`].
pub struct PartiesView {
    pub caller: Seq<char>,
    pub callee: Seq<char>,
    pub realm: Seq<char>,
}

impl View for Parties {
    type V = PartiesView;

    open spec fn view(&self) -> PartiesView {
        PartiesView { caller: self.caller@, callee: self.callee@, realm: self.realm@ }
    }
}

/// A call whose callee has been located.
#[derive(Debug, PartialEq, Eq)]
pub struct Leg {
    pub caller: String,
    pub callee: String,
    pub destination: SipAddr,
}

/// The mathematical value of a [`Leg`].
pub struct LegView {
    pub caller: Seq<char>,
    pub callee: Seq<char>,
    pub destination: SipAddrView,
}

impl View for Leg {
    type V = LegView;

    open spec fn view(&self) -> LegView {
        LegView {
            caller: self.caller@,
            callee: self.callee@,
            destination: self.destination@,
        }
    }
}

/// A request on its way to the next hop: the request as it is sent, the printed key of the
/// transaction that sends it, and where it goes.
#[derive(Debug, PartialEq, Eq)]
pub struct Outgoing {
    pub request: Request,
    pub key: String,
    pub destination: SipAddr,
}

/// The mathematical value of an [`Outgoing`] request.
pub struct OutgoingView {
    pub request: RequestView,
    pub key: Seq<char>,
    pub destination: SipAddrView,
}

impl View for Outgoing {
    type V = OutgoingView;

    open spec fn view(&self) -> OutgoingView {
        OutgoingView { request: self.request@, key: self.key@, destination: self.destination@ }
    }
}

/// How far the handling of a transaction has come.
#[derive(Debug)]
pub enum CallState {
    /// INVITE: is the callee's realm one of ours?
    InviteRealm(Parties),
    /// INVITE: where is the callee?
    InviteLookup(Parties),
    /// INVITE: the callee is unknown, and the caller is being told.
    InviteNotFoundReply,
    /// INVITE: the callee is unknown; the acknowledgement of that has not come yet.
    InviteNotFoundAck,
    /// INVITE: the session description is being looked through for private addresses.
    InviteMedia(Leg),
    /// INVITE: the route headers are being made.
    InviteRoute(Leg),
    /// INVITE: the request is being sent to the callee.
    InviteSend(Leg),
    /// INVITE: the request names no dialog, and the caller is being told.
    InviteNoDialogReply,
    /// INVITE: messages are passed on between caller and callee.
    InviteRelay(DialogId, Leg),
    /// INVITE: a response is being passed on to the caller.
    InviteRespond(DialogId, Leg),
    /// INVITE: the route header of an acknowledgement is being made.
    InviteAckRoute(DialogId, Leg, Request),
    /// INVITE: an acknowledgement is being sent to the callee.
    InviteAckSend(DialogId, Leg),
    /// INVITE: an error came up; has the caller had a response?
    InviteFailed(CallError),
    /// INVITE: the caller is being told of the error.
    InviteFailedReply(CallError),
    /// BYE: where is the callee?
    ByeLookup(DialogId),
    /// BYE: the route header is being made.
    ByeRoute(DialogId, SipAddr),
    /// BYE: the request is being sent to the callee.
    ByeSend(DialogId),
    /// BYE: the response of the callee has not come yet.
    ByeResponse(DialogId),
    /// BYE: the response is being passed on.
    ByeRespond(DialogId),
    /// Any method: the one response that there will be is being sent.
    FinalReply,
    /// Nothing is left to do.
    Finished,
}

/// The mathematical value of a [`CallState`].
pub enum CallStateView {
    InviteRealm(PartiesView),
    InviteLookup(PartiesView),
    InviteNotFoundReply,
    InviteNotFoundAck,
    InviteMedia(LegView),
    InviteRoute(LegView),
    InviteSend(LegView),
    InviteNoDialogReply,
    InviteRelay(DialogIdView, LegView),
    InviteRespond(DialogIdView, LegView),
    InviteAckRoute(DialogIdView, LegView, RequestView),
    InviteAckSend(DialogIdView, LegView),
    InviteFailed(CallErrorView),
    InviteFailedReply(CallErrorView),
    ByeLookup(DialogIdView),
    ByeRoute(DialogIdView, SipAddrView),
    ByeSend(DialogIdView),
    ByeResponse(DialogIdView),
    ByeRespond(DialogIdView),
    FinalReply,
    Finished,
}

impl View for CallState {
    type V = CallStateView;

    open spec fn view(&self) -> CallStateView {
        match *self {
            CallState::InviteRealm(parties) => CallStateView::InviteRealm(parties@),
            CallState::InviteLookup(parties) => CallStateView::InviteLookup(parties@),
            CallState::InviteNotFoundReply => CallStateView::InviteNotFoundReply,
            CallState::InviteNotFoundAck => CallStateView::InviteNotFoundAck,
            CallState::InviteMedia(leg) => CallStateView::InviteMedia(leg@),
            CallState::InviteRoute(leg) => CallStateView::InviteRoute(leg@),
            CallState::InviteSend(leg) => CallStateView::InviteSend(leg@),
            CallState::InviteNoDialogReply => CallStateView::InviteNoDialogReply,
            CallState::InviteRelay(id, leg) => CallStateView::InviteRelay(id@, leg@),
            CallState::InviteRespond(id, leg) => CallStateView::InviteRespond(id@, leg@),
            CallState::InviteAckRoute(id, leg, ack) => CallStateView::InviteAckRoute(
                id@,
                leg@,
                ack@,
            ),
            CallState::InviteAckSend(id, leg) => CallStateView::InviteAckSend(id@, leg@),
            CallState::InviteFailed(error) => CallStateView::InviteFailed(error@),
            CallState::InviteFailedReply(error) => CallStateView::InviteFailedReply(error@),
            CallState::ByeLookup(id) => CallStateView::ByeLookup(id@),
            CallState::ByeRoute(id, destination) => CallStateView::ByeRoute(id@, destination@),
            CallState::ByeSend(id) => CallStateView::ByeSend(id@),
            CallState::ByeResponse(id) => CallStateView::ByeResponse(id@),
            CallState::ByeRespond(id) => CallStateView::ByeRespond(id@),
            CallState::FinalReply => CallStateView::FinalReply,
            CallState::Finished => CallStateView::Finished,
        }
    }
}

/// What came of an action.
#[derive(Debug)]
pub enum CallEvent {
    /// Whether the realm is one of ours.
    RealmChecked(bool),
    /// Where the user is; nothing, where the locator failed or does not know the user.
    Located(Option<Vec<Location>>),
    /// Whether the session description names a private address; nothing, where it cannot be read.
    MediaInspected(Option<bool>),
    /// The values of a `Via` header for the next hop, or the error, and of a `Record-Route` header,
    /// if there is one.
    RouteBuilt(Result<String, String>, Option<String>),
    /// Whether a request could be sent.
    Sent(Result<(), String>),
    /// Whether a response of the proxy's own could be sent.
    Replied(Result<(), String>),
    /// Whether a response could be passed on.
    Responded(Result<(), String>),
    /// A message of the side that sent the request; nothing, where no more will come.
    ServerMessage(Option<Message>),
    /// A message of the side that the request was sent on to, and when it came; nothing, where no
    /// more will come.
    ClientMessage(Option<Message>, u128),
    /// The transaction that sent the request on is over.
    ClientTerminated,
    /// Whether the side that sent the request has had a response.
    Answered(bool),
}

/// The mathematical value of a [`CallEvent`].
pub enum CallEventView {
    RealmChecked(bool),
    Located(Option<Seq<LocationView>>),
    MediaInspected(Option<bool>),
    RouteBuilt(Result<Seq<char>, Seq<char>>, Option<Seq<char>>),
    Sent(Result<(), Seq<char>>),
    Replied(Result<(), Seq<char>>),
    Responded(Result<(), Seq<char>>),
    ServerMessage(Option<MessageView>),
    ClientMessage(Option<MessageView>, nat),
    ClientTerminated,
    Answered(bool),
}

/// The mathematical value of what came of sending.
pub open spec fn sending_view(result: Result<(), String>) -> Result<(), Seq<char>> {
    match result {
        Ok(()) => Ok(()),
        Err(e) => Err(e@),
    }
}

/// The mathematical value of an optional message.
pub open spec fn message_view(message: Option<Message>) -> Option<MessageView> {
    match message {
        Some(m) => Some(m@),
        None => None,
    }
}

impl View for CallEvent {
    type V = CallEventView;

    open spec fn view(&self) -> CallEventView {
        match *self {
            CallEvent::RealmChecked(ours) => CallEventView::RealmChecked(ours),
            CallEvent::Located(locations) => CallEventView::Located(
                match locations {
                    Some(l) => Some(locations_view(l@)),
                    None => None,
                },
            ),
            CallEvent::MediaInspected(private) => CallEventView::MediaInspected(private),
            CallEvent::RouteBuilt(via, record_route) => CallEventView::RouteBuilt(
                result_text(via),
                owned_text(record_route),
            ),
            CallEvent::Sent(result) => CallEventView::Sent(sending_view(result)),
            CallEvent::Replied(result) => CallEventView::Replied(sending_view(result)),
            CallEvent::Responded(result) => CallEventView::Responded(sending_view(result)),
            CallEvent::ServerMessage(message) => CallEventView::ServerMessage(
                message_view(message),
            ),
            CallEvent::ClientMessage(message, now) => CallEventView::ClientMessage(
                message_view(message),
                now as nat,
            ),
            CallEvent::ClientTerminated => CallEventView::ClientTerminated,
            CallEvent::Answered(answered) => CallEventView::Answered(answered),
        }
    }
}

/// What is to be done next.
#[derive(Debug)]
pub enum CallAction {
    /// Find out whether the realm is one of ours, for [`CallEvent::RealmChecked`].
    CheckRealm(String),
    /// Find the user, in the realm if one is given, for [`CallEvent::Located`].
    Lookup(String, Option<String>),
    /// Look through the session description for private addresses, for
    /// [`CallEvent::MediaInspected`].
    InspectMedia(String),
    /// Make a `Via` and a `Record-Route` header, for [`CallEvent::RouteBuilt`]. The flag says
    /// whether the media of the call have to be relayed.
    RouteInvite(bool),
    /// Make a `Via` header, for [`CallEvent::RouteBuilt`].
    RouteVia,
    /// Send the request on in a transaction whose responses are awaited, for [`CallEvent::Sent`].
    Forward(Outgoing),
    /// Send the acknowledgement on, for [`CallEvent::Sent`].
    ForwardAck(Outgoing),
    /// Answer with the status, and with the text, if one is given, in an `Error-Info` header, for
    /// [`CallEvent::Replied`].
    Reply(StatusCode, Option<String>),
    /// Pass the response on, for [`CallEvent::Responded`].
    Respond(Response),
    /// Wait for a message of the side that sent the request, for [`CallEvent::ServerMessage`].
    AwaitServer,
    /// Wait for a message of the side that the request was sent on to, for
    /// [`CallEvent::ClientMessage`].
    AwaitClient,
    /// If the transaction that sent the request on is over, say so with
    /// [`CallEvent::ClientTerminated`]; else wait for a message of either side.
    AwaitEither,
    /// Find out whether the side that sent the request has had a response, for
    /// [`CallEvent::Answered`].
    CheckAnswered,
    /// The handling is over, with this result. The error says why it failed, if it failed; a
    /// transaction whose handling failed has been dealt with all the same.
    Finish(Result<ProxyAction, CallError>, Option<CallError>),
}

/// The mathematical value of a [`CallAction`].
pub enum CallActionView {
    CheckRealm(Seq<char>),
    Lookup(Seq<char>, Option<Seq<char>>),
    InspectMedia(Seq<char>),
    RouteInvite(bool),
    RouteVia,
    Forward(OutgoingView),
    ForwardAck(OutgoingView),
    Reply(StatusCode, Option<Seq<char>>),
    Respond(ResponseView),
    AwaitServer,
    AwaitClient,
    AwaitEither,
    CheckAnswered,
    Finish(Result<ProxyAction, CallErrorView>, Option<CallErrorView>),
}

impl View for CallAction {
    type V = CallActionView;

    open spec fn view(&self) -> CallActionView {
        match *self {
            CallAction::CheckRealm(realm) => CallActionView::CheckRealm(realm@),
            CallAction::Lookup(user, realm) => CallActionView::Lookup(user@, owned_text(realm)),
            CallAction::InspectMedia(sdp) => CallActionView::InspectMedia(sdp@),
            CallAction::RouteInvite(media_proxy) => CallActionView::RouteInvite(media_proxy),
            CallAction::RouteVia => CallActionView::RouteVia,
            CallAction::Forward(outgoing) => CallActionView::Forward(outgoing@),
            CallAction::ForwardAck(outgoing) => CallActionView::ForwardAck(outgoing@),
            CallAction::Reply(status, info) => CallActionView::Reply(status, owned_text(info)),
            CallAction::Respond(response) => CallActionView::Respond(response@),
            CallAction::AwaitServer => CallActionView::AwaitServer,
            CallAction::AwaitClient => CallActionView::AwaitClient,
            CallAction::AwaitEither => CallActionView::AwaitEither,
            CallAction::CheckAnswered => CallActionView::CheckAnswered,
            CallAction::Finish(result, failure) => CallActionView::Finish(
                match result {
                    Ok(action) => Ok(action),
                    Err(error) => Err(error@),
                },
                match failure {
                    Some(error) => Some(error@),
                    None => None,
                },
            ),
        }
    }
}

impl CallStateView {
    /// Whether the event is one that can come in this state. A locator that finds a user gives at
    /// least one location.
    pub open spec fn expects(self, event: CallEventView) -> bool {
        match self {
            CallStateView::InviteRealm(_) => event is RealmChecked,
            CallStateView::InviteLookup(_) | CallStateView::ByeLookup(_) => {
                event matches CallEventView::Located(found) && (found matches Some(locations)
                    ==> locations.len() > 0)
            },
            CallStateView::InviteMedia(_) => event is MediaInspected,
            CallStateView::InviteRoute(_) => event is RouteBuilt,
            CallStateView::InviteAckRoute(_, _, _) => event is RouteBuilt,
            CallStateView::ByeRoute(_, _) => event is RouteBuilt,
            CallStateView::InviteSend(_) => event is Sent,
            CallStateView::InviteAckSend(_, _) => event is Sent,
            CallStateView::ByeSend(_) => event is Sent,
            CallStateView::InviteNotFoundReply => event is Replied,
            CallStateView::InviteNoDialogReply => event is Replied,
            CallStateView::InviteFailedReply(_) => event is Replied,
            CallStateView::FinalReply => event is Replied,
            CallStateView::InviteRespond(_, _) => event is Responded,
            CallStateView::ByeRespond(_) => event is Responded,
            CallStateView::InviteNotFoundAck => event is ServerMessage,
            CallStateView::ByeResponse(_) => event is ClientMessage,
            CallStateView::InviteRelay(_, _) => {
                event is ServerMessage || event is ClientMessage || event is ClientTerminated
            },
            CallStateView::InviteFailed(_) => event is Answered,
            CallStateView::Finished => false,
        }
    }
}

impl CallState {
    /// Whether the event is one that can come in this state.
    pub fn accepts(&self, event: &CallEvent) -> (r: bool)
        ensures
            r == self@.expects(event@),
    {
        match (self, event) {
            (CallState::InviteRealm(_), CallEvent::RealmChecked(_)) => true,
            (CallState::InviteLookup(_), CallEvent::Located(found)) => match found {
                Some(locations) => locations.len() > 0,
                None => true,
            },
            (CallState::ByeLookup(_), CallEvent::Located(found)) => match found {
                Some(locations) => locations.len() > 0,
                None => true,
            },
            (CallState::InviteMedia(_), CallEvent::MediaInspected(_)) => true,
            (CallState::InviteRoute(_), CallEvent::RouteBuilt(_, _)) => true,
            (CallState::InviteAckRoute(_, _, _), CallEvent::RouteBuilt(_, _)) => true,
            (CallState::ByeRoute(_, _), CallEvent::RouteBuilt(_, _)) => true,
            (CallState::InviteSend(_), CallEvent::Sent(_)) => true,
            (CallState::InviteAckSend(_, _), CallEvent::Sent(_)) => true,
            (CallState::ByeSend(_), CallEvent::Sent(_)) => true,
            (CallState::InviteNotFoundReply, CallEvent::Replied(_)) => true,
            (CallState::InviteNoDialogReply, CallEvent::Replied(_)) => true,
            (CallState::InviteFailedReply(_), CallEvent::Replied(_)) => true,
            (CallState::FinalReply, CallEvent::Replied(_)) => true,
            (CallState::InviteRespond(_, _), CallEvent::Responded(_)) => true,
            (CallState::ByeRespond(_), CallEvent::Responded(_)) => true,
            (CallState::InviteNotFoundAck, CallEvent::ServerMessage(_)) => true,
            (CallState::ByeResponse(_), CallEvent::ClientMessage(_, _)) => true,
            (CallState::InviteRelay(_, _), CallEvent::ServerMessage(_)) => true,
            (CallState::InviteRelay(_, _), CallEvent::ClientMessage(_, _)) => true,
            (CallState::InviteRelay(_, _), CallEvent::ClientTerminated) => true,
            (CallState::InviteFailed(_), CallEvent::Answered(_)) => true,
            _ => false,
        }
    }
}

/// Whether the message is an acknowledgement.
pub open spec fn is_ack(message: MessageView) -> bool {
    message matches MessageView::Request(request) && request.method == Method::Ack
}

} // verus!
