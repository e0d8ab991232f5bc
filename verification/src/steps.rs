//! The steps in which transactions are handled, as mathematics: what each event leads to.

use crate::config::{MediaProxyMode, ProxyConfig};
use crate::dialog::{DialogIdView, DialogKey};
use crate::outside::{from_uri_text, lossy_text, to_uri_parts};
use crate::protocol::{
    is_ack, CallActionView, CallErrorView, CallEventView, CallStateView, LegView, OutgoingView,
    PartiesView, ProxyAction, StatusCode,
};
use crate::sessions::{touched, SessionView};
use crate::sip::{HeaderKind, MessageView, Method, RequestView, SipAddrView};
use crate::text::occurs_in;
use vstd::prelude::*;

verus! {

/// The sessions by dialog.
pub type Sessions = Map<DialogKey, SessionView>;

/// How far the handling has come after a step, and what is to be done next.
pub type Outcome = (CallStateView, CallActionView);

/// What a step leads to: the sessions after it and its outcome.
pub struct Step {
    pub sessions: Sessions,
    pub outcome: Outcome,
}

/// The handling is over, and has failed if there is an error.
pub open spec fn finished(
    result: Result<ProxyAction, CallErrorView>,
    failure: Option<CallErrorView>,
) -> Outcome {
    (CallStateView::Finished, CallActionView::Finish(result, failure))
}

/// The handling is over, and the transaction has been dealt with.
pub open spec fn aborted() -> Outcome {
    finished(Ok(ProxyAction::Abort), None)
}

/// The handling is over, because it failed. The transaction has been dealt with all the same.
pub open spec fn given_up(error: CallErrorView) -> Outcome {
    finished(Ok(ProxyAction::Abort), Some(error))
}

/// The handling is over with the last thing that was sent, and failed if that could not be sent.
pub open spec fn concluded(result: Result<(), Seq<char>>) -> Outcome {
    match result {
        Ok(_) => aborted(),
        Err(e) => given_up(CallErrorView::Stack(e)),
    }
}

/// The handling of an INVITE failed.
pub open spec fn failed(error: CallErrorView) -> Outcome {
    (CallStateView::InviteFailed(error), CallActionView::CheckAnswered)
}

/// The transaction is answered with the status, and that is all.
pub open spec fn answered(status: StatusCode) -> Outcome {
    (CallStateView::FinalReply, CallActionView::Reply(status, None))
}

/// The caller that the request names.
pub open spec fn caller_of(request: RequestView) -> Result<Seq<char>, CallErrorView> {
    match request.header(HeaderKind::From) {
        Some(value) => match from_uri_text(value) {
            Ok(uri) => Ok(uri),
            Err(e) => Err(CallErrorView::Header(e)),
        },
        None => Err(CallErrorView::MissingFrom),
    }
}

/// The callee that the request names: the user, if one is named, and the realm.
pub open spec fn callee_of(request: RequestView) -> Result<
    (Option<Seq<char>>, Seq<char>),
    CallErrorView,
> {
    match request.header(HeaderKind::To) {
        Some(value) => match to_uri_parts(value) {
            Ok(parts) => Ok(parts),
            Err(e) => Err(CallErrorView::Header(e)),
        },
        None => Err(CallErrorView::MissingTo),
    }
}

/// Who calls whom. A callee without a user is the empty user of the realm. An error in the caller
/// comes before one in the callee.
pub open spec fn parties(
    caller: Result<Seq<char>, CallErrorView>,
    callee: Result<(Option<Seq<char>>, Seq<char>), CallErrorView>,
) -> Result<PartiesView, CallErrorView> {
    match (caller, callee) {
        (Err(error), _) => Err(error),
        (_, Err(error)) => Err(error),
        (Ok(caller), Ok((user, realm))) => Ok(
            PartiesView {
                caller,
                callee: match user {
                    Some(user) => user,
                    None => Seq::empty(),
                },
                realm,
            },
        ),
    }
}

/// Whether the request says that its body is a session description.
pub open spec fn has_sdp(request: RequestView) -> bool {
    request.header(HeaderKind::ContentType) matches Some(value) && occurs_in(
        "application/sdp"@,
        value,
    )
}

/// The session description that has to be looked through before it is known whether the media of
/// the call are relayed.
pub open spec fn sdp_to_inspect(mode: MediaProxyMode, request: RequestView) -> Option<Seq<char>> {
    if mode == MediaProxyMode::NatOnly && has_sdp(request) {
        Some(lossy_text(request.body))
    } else {
        None
    }
}

/// Whether the media of the call are relayed. `private` says whether the session description names
/// a private address, as far as it could be read.
pub open spec fn media_proxied(
    mode: MediaProxyMode,
    request: RequestView,
    private: Option<bool>,
) -> bool {
    match mode {
        MediaProxyMode::Off => false,
        MediaProxyMode::All => true,
        MediaProxyMode::NatOnly => has_sdp(request) && private == Some(true),
    }
}

/// What an INVITE for another realm comes to.
pub open spec fn forwarding_error(config: ProxyConfig) -> CallErrorView {
    if config.enable_forwarding == Some(true) {
        CallErrorView::ForwardingNotImplemented
    } else {
        CallErrorView::ForwardingDisabled
    }
}

/// How an INVITE of the given parties begins.
pub open spec fn invite_begun(parties: Result<PartiesView, CallErrorView>) -> Outcome {
    match parties {
        Ok(parties) => (
            CallStateView::InviteRealm(parties),
            CallActionView::CheckRealm(parties.realm),
        ),
        Err(error) => failed(error),
    }
}

/// How an INVITE goes on once the callee has been located.
pub open spec fn invite_located(
    config: ProxyConfig,
    request: RequestView,
    leg: LegView,
) -> Outcome {
    match sdp_to_inspect(config.media_proxy.mode, request) {
        Some(sdp) => (CallStateView::InviteMedia(leg), CallActionView::InspectMedia(sdp)),
        None => (
            CallStateView::InviteRoute(leg),
            CallActionView::RouteInvite(media_proxied(config.media_proxy.mode, request, None)),
        ),
    }
}

/// How an INVITE goes on once the request for the callee is made, with the key of its transaction
/// or the error.
pub open spec fn invite_forwarded(
    leg: LegView,
    request: RequestView,
    key: Result<Seq<char>, Seq<char>>,
) -> Outcome {
    match key {
        Ok(key) => (
            CallStateView::InviteSend(leg),
            CallActionView::Forward(OutgoingView { request, key, destination: leg.destination }),
        ),
        Err(e) => failed(CallErrorView::Stack(e)),
    }
}

/// How an INVITE goes on once the request has been sent to the callee. The request has to name a
/// dialog.
pub open spec fn invite_sent(leg: LegView, dialog_id: Option<DialogIdView>) -> Outcome {
    match dialog_id {
        Some(id) => (CallStateView::InviteRelay(id, leg), CallActionView::AwaitEither),
        None => (
            CallStateView::InviteNoDialogReply,
            CallActionView::Reply(StatusCode::ServerInternalError, None),
        ),
    }
}

/// How an INVITE goes on once the acknowledgement for the callee is made, with the key of its
/// transaction or the error.
pub open spec fn ack_forwarded(
    id: DialogIdView,
    leg: LegView,
    ack: RequestView,
    key: Result<Seq<char>, Seq<char>>,
) -> Outcome {
    match key {
        Ok(key) => (
            CallStateView::InviteAckSend(id, leg),
            CallActionView::ForwardAck(
                OutgoingView { request: ack, key, destination: leg.destination },
            ),
        ),
        Err(e) => failed(CallErrorView::Stack(e)),
    }
}

/// How a BYE begins in the given dialog.
pub open spec fn bye_begun(sessions: Sessions, dialog_id: Option<DialogIdView>) -> Outcome {
    match dialog_id {
        Some(id) => if sessions.contains_key(id.key()) {
            (
                CallStateView::ByeLookup(id),
                CallActionView::Lookup(sessions[id.key()].callee, None),
            )
        } else {
            answered(StatusCode::CallTransactionDoesNotExist)
        },
        None => answered(StatusCode::BadRequest),
    }
}

/// How a BYE goes on once the request for the callee is made, with the key of its transaction or
/// the error.
pub open spec fn bye_forwarded(
    id: DialogIdView,
    destination: SipAddrView,
    request: RequestView,
    key: Result<Seq<char>, Seq<char>>,
) -> Outcome {
    match key {
        Ok(key) => (
            CallStateView::ByeSend(id),
            CallActionView::Forward(OutgoingView { request, key, destination }),
        ),
        Err(e) => given_up(CallErrorView::Stack(e)),
    }
}

/// The sessions after an OPTIONS in the given dialog.
pub open spec fn options_noted(
    sessions: Sessions,
    dialog_id: Option<DialogIdView>,
    now: nat,
) -> Sessions {
    match dialog_id {
        Some(id) => touched(sessions, id.key(), now),
        None => sessions,
    }
}

/// How the handling of a request begins.
pub open spec fn begun(sessions: Sessions, request: RequestView, now: nat) -> Step {
    match request.method {
        Method::Invite => Step {
            sessions,
            outcome: invite_begun(parties(caller_of(request), callee_of(request))),
        },
        Method::Bye => Step { sessions, outcome: bye_begun(sessions, request.dialog_id()) },
        Method::Options => Step {
            sessions: options_noted(sessions, request.dialog_id(), now),
            outcome: answered(StatusCode::OK),
        },
        Method::Ack => Step { sessions, outcome: aborted() },
        Method::Cancel => Step { sessions, outcome: answered(StatusCode::OK) },
        _ => Step { sessions, outcome: finished(Ok(ProxyAction::Continue), None) },
    }
}

/// The session of a call that has been answered at `now`.
pub open spec fn answered_session(id: DialogIdView, leg: LegView, now: nat) -> SessionView {
    SessionView { dialog_id: id, last_activity: now, caller: leg.caller, callee: leg.callee }
}

/// What a message leads to while an INVITE is relayed. A response goes on to the caller; one that
/// accepts the call makes it a session. An acknowledgement goes on to the callee. Anything else is
/// let go by.
pub open spec fn relay_step(
    sessions: Sessions,
    id: DialogIdView,
    leg: LegView,
    event: CallEventView,
) -> Step {
    match event {
        CallEventView::ClientTerminated => Step { sessions, outcome: aborted() },
        CallEventView::ClientMessage(Some(MessageView::Response(response)), now) => Step {
            sessions: if response.successful() {
                sessions.insert(id.key(), answered_session(id, leg, now))
            } else {
                sessions
            },
            outcome: (
                CallStateView::InviteRespond(id, leg),
                CallActionView::Respond(response.relayed()),
            ),
        },
        CallEventView::ServerMessage(Some(MessageView::Request(request))) => Step {
            sessions,
            outcome: if request.method == Method::Ack {
                (CallStateView::InviteAckRoute(id, leg, request), CallActionView::RouteVia)
            } else {
                (CallStateView::InviteRelay(id, leg), CallActionView::AwaitEither)
            },
        },
        _ => Step {
            sessions,
            outcome: (CallStateView::InviteRelay(id, leg), CallActionView::AwaitEither),
        },
    }
}

/// What an event leads to in the handling of an INVITE, while no messages are relayed.
pub open spec fn invite_outcome(
    config: ProxyConfig,
    request: RequestView,
    state: CallStateView,
    event: CallEventView,
) -> Outcome {
    match (state, event) {
        (CallStateView::InviteRealm(parties), CallEventView::RealmChecked(ours)) => if ours {
            (
                CallStateView::InviteLookup(parties),
                CallActionView::Lookup(parties.callee, Some(parties.realm)),
            )
        } else {
            failed(forwarding_error(config))
        },
        (CallStateView::InviteLookup(parties), CallEventView::Located(found)) => match found {
            Some(locations) => invite_located(
                config,
                request,
                LegView {
                    caller: parties.caller,
                    callee: parties.callee,
                    destination: locations[0].destination,
                },
            ),
            None => (
                CallStateView::InviteNotFoundReply,
                CallActionView::Reply(StatusCode::NotFound, None),
            ),
        },
        (CallStateView::InviteNotFoundReply, CallEventView::Replied(result)) => match result {
            Ok(_) => (CallStateView::InviteNotFoundAck, CallActionView::AwaitServer),
            Err(e) => failed(CallErrorView::Stack(e)),
        },
        (CallStateView::InviteNotFoundAck, CallEventView::ServerMessage(message)) => {
            if message matches Some(m) && !is_ack(m) {
                (CallStateView::InviteNotFoundAck, CallActionView::AwaitServer)
            } else {
                aborted()
            }
        },
        (CallStateView::InviteMedia(leg), CallEventView::MediaInspected(private)) => (
            CallStateView::InviteRoute(leg),
            CallActionView::RouteInvite(media_proxied(config.media_proxy.mode, request, private)),
        ),
        (CallStateView::InviteRoute(leg), CallEventView::RouteBuilt(via, record_route)) => {
            match via {
                Ok(via) => invite_forwarded(
                    leg,
                    request.routed(via, record_route),
                    request.routed(via, record_route).client_key(),
                ),
                Err(e) => failed(CallErrorView::Stack(e)),
            }
        },
        (CallStateView::InviteSend(leg), CallEventView::Sent(result)) => match result {
            Ok(_) => invite_sent(leg, request.dialog_id()),
            Err(e) => failed(CallErrorView::Stack(e)),
        },
        (CallStateView::InviteNoDialogReply, CallEventView::Replied(result)) => match result {
            Ok(_) => aborted(),
            Err(e) => failed(CallErrorView::Stack(e)),
        },
        (CallStateView::InviteRespond(id, leg), CallEventView::Responded(result)) => match result {
            Ok(_) => (CallStateView::InviteRelay(id, leg), CallActionView::AwaitEither),
            Err(e) => failed(CallErrorView::Stack(e)),
        },
        (CallStateView::InviteAckRoute(id, leg, ack), CallEventView::RouteBuilt(via, _)) => {
            match via {
                Ok(via) => ack_forwarded(
                    id,
                    leg,
                    ack.routed(via, None),
                    ack.routed(via, None).client_key(),
                ),
                Err(e) => failed(CallErrorView::Stack(e)),
            }
        },
        (CallStateView::InviteAckSend(id, leg), CallEventView::Sent(result)) => match result {
            Ok(_) => (CallStateView::InviteRelay(id, leg), CallActionView::AwaitEither),
            Err(e) => failed(CallErrorView::Stack(e)),
        },
        (CallStateView::InviteFailed(error), CallEventView::Answered(answered)) => if answered {
            given_up(error)
        } else {
            (
                CallStateView::InviteFailedReply(error),
                CallActionView::Reply(StatusCode::ServerInternalError, Some(error.text())),
            )
        },
        (CallStateView::InviteFailedReply(error), CallEventView::Replied(result)) => match result {
            Ok(_) => given_up(error),
            Err(e) => finished(Err(CallErrorView::Stack(e)), Some(error)),
        },
        _ => arbitrary(),
    }
}

/// What an event leads to in the handling of a BYE. The session is over once the response has been
/// passed on, or once it is known that none will come. Where the handling fails before that, the
/// session stays.
pub open spec fn bye_step(
    sessions: Sessions,
    request: RequestView,
    state: CallStateView,
    event: CallEventView,
) -> Step {
    match (state, event) {
        (CallStateView::ByeLookup(id), CallEventView::Located(found)) => Step {
            sessions,
            outcome: match found {
                Some(locations) => (
                    CallStateView::ByeRoute(id, locations[0].destination),
                    CallActionView::RouteVia,
                ),
                None => answered(StatusCode::NotFound),
            },
        },
        (CallStateView::ByeRoute(id, destination), CallEventView::RouteBuilt(via, _)) => Step {
            sessions,
            outcome: match via {
                Ok(via) => bye_forwarded(
                    id,
                    destination,
                    request.routed(via, None),
                    request.routed(via, None).client_key(),
                ),
                Err(e) => given_up(CallErrorView::Stack(e)),
            },
        },
        (CallStateView::ByeSend(id), CallEventView::Sent(result)) => Step {
            sessions,
            outcome: match result {
                Ok(_) => (CallStateView::ByeResponse(id), CallActionView::AwaitClient),
                Err(e) => given_up(CallErrorView::Stack(e)),
            },
        },
        (CallStateView::ByeResponse(id), CallEventView::ClientMessage(message, _)) => {
            match message {
                Some(MessageView::Response(response)) => Step {
                    sessions,
                    outcome: (
                        CallStateView::ByeRespond(id),
                        CallActionView::Respond(response.relayed()),
                    ),
                },
                Some(MessageView::Request(_)) => Step {
                    sessions,
                    outcome: (CallStateView::ByeResponse(id), CallActionView::AwaitClient),
                },
                None => Step { sessions: sessions.remove(id.key()), outcome: aborted() },
            }
        },
        (CallStateView::ByeRespond(id), CallEventView::Responded(result)) => Step {
            sessions: match result {
                Ok(_) => sessions.remove(id.key()),
                Err(_) => sessions,
            },
            outcome: concluded(result),
        },
        _ => arbitrary(),
    }
}

/// Whether the state is one of the handling of a BYE that goes on to the callee.
pub open spec fn is_bye(state: CallStateView) -> bool {
    ||| state is ByeLookup
    ||| state is ByeRoute
    ||| state is ByeSend
    ||| state is ByeResponse
    ||| state is ByeRespond
}

/// What an event leads to.
pub open spec fn stepped(
    config: ProxyConfig,
    sessions: Sessions,
    request: RequestView,
    state: CallStateView,
    event: CallEventView,
) -> Step {
    match state {
        CallStateView::InviteRelay(id, leg) => relay_step(sessions, id, leg, event),
        CallStateView::FinalReply => match event {
            CallEventView::Replied(result) => Step { sessions, outcome: concluded(result) },
            _ => arbitrary(),
        },
        _ => if is_bye(state) {
            bye_step(sessions, request, state, event)
        } else {
            Step { sessions, outcome: invite_outcome(config, request, state, event) }
        },
    }
}

} // verus!
