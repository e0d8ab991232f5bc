//! What is done with every request and at every event, told by what comes in and what is to go out.

use crate::config::{MediaProxyMode, ProxyConfig};
use crate::dialog::{DialogIdView, DialogKey};
use crate::meaning::{
    is_around, keys_go_by_the_new_via, lacks, occurring_is_standing_between,
    responses_go_back_without_the_first_via,
};
use crate::outside::{
    client_key_text, dialog_id_parts, from_uri_text, lossy_text, to_uri_parts,
};
use crate::properties::{run, trail};
use crate::protocol::{
    CallActionView, CallErrorView, CallEventView, CallStateView, LegView, LocationView,
    OutgoingView, PartiesView, ProxyAction, StatusCode,
};
use crate::sessions::SessionView;
use crate::sip::{
    HeaderKind, HeaderView, MessageView, Method, RequestView, ResponseView, SipAddrView,
};
use crate::steps;
use crate::steps::{
    aborted, ack_forwarded, answered, begun, bye_begun, bye_forwarded, bye_step, callee_of, caller_of,
    concluded, failed, finished, forwarding_error, given_up, has_sdp, invite_begun,
    invite_forwarded, invite_located, invite_outcome, invite_sent, is_bye, media_proxied, relay_step, sdp_to_inspect, stepped,
    Sessions, Step,
};
use vstd::prelude::*;

verus! {

/// The ways in which the handling can end, and what is asked for in each.
pub proof fn ends_are_told_apart(
    result: Result<ProxyAction, CallErrorView>,
    failure: Option<CallErrorView>,
    error: CallErrorView,
    status: StatusCode,
    e: Seq<char>,
)
    ensures
        finished(result, failure) == (
            CallStateView::Finished,
            CallActionView::Finish(result, failure),
        ),
        aborted() == (
            CallStateView::Finished,
            CallActionView::Finish(Ok(ProxyAction::Abort), None),
        ),
        given_up(error) == (
            CallStateView::Finished,
            CallActionView::Finish(Ok(ProxyAction::Abort), Some(error)),
        ),
        concluded(Ok(())) == aborted(),
        concluded(Err(e)) == given_up(CallErrorView::Stack(e)),
        failed(error) == (CallStateView::InviteFailed(error), CallActionView::CheckAnswered),
        answered(status) == (CallStateView::FinalReply, CallActionView::Reply(status, None)),
{
}

/// Which states are those of a BYE that goes on to the callee.
pub proof fn byes_have_their_states(state: CallStateView)
    ensures
        is_bye(state) <==> match state {
            CallStateView::ByeLookup(_) => true,
            CallStateView::ByeRoute(_, _) => true,
            CallStateView::ByeSend(_) => true,
            CallStateView::ByeResponse(_) => true,
            CallStateView::ByeRespond(_) => true,
            _ => false,
        },
{
}

/// A step is the same whichever part of the model tells it.
pub proof fn steps_are_told_alike(
    config: ProxyConfig,
    sessions: Sessions,
    request: RequestView,
    id: DialogIdView,
    leg: LegView,
    state: CallStateView,
    event: CallEventView,
)
    requires
        state.expects(event),
    ensures
        relay_step(sessions, id, leg, event) == stepped(
            config,
            sessions,
            request,
            CallStateView::InviteRelay(id, leg),
            event,
        ),
        is_bye(state) ==> bye_step(sessions, request, state, event) == stepped(
            config,
            sessions,
            request,
            state,
            event,
        ),
        !is_bye(state) && !(state is InviteRelay) && !(state is FinalReply) ==> stepped(
            config,
            sessions,
            request,
            state,
            event,
        ) == (Step { sessions, outcome: invite_outcome(config, request, state, event) }),
{
}

/// The user that is called: none is the empty one.
pub open spec fn user_or_empty(user: Option<Seq<char>>) -> Seq<char> {
    match user {
        Some(user) => user,
        None => seq![],
    }
}

/// An INVITE whose `From` and `To` headers can be read begins with the realm of the `To` header.
/// Once that is found to be the proxy's own, the user of the `To` header is looked up in that
/// realm. Nothing else that the request holds plays a part, and neither do the sessions, which stay
/// as they are.
pub proof fn invite_looks_up_the_user_of_its_to_header(
    config: ProxyConfig,
    sessions: Sessions,
    later: Sessions,
    request: RequestView,
    from: Seq<char>,
    to: Seq<char>,
    caller: Seq<char>,
    user: Option<Seq<char>>,
    realm: Seq<char>,
    now: nat,
)
    requires
        request.method == Method::Invite,
        request.header(HeaderKind::From) == Some(from),
        request.header(HeaderKind::To) == Some(to),
        from_uri_text(from) == Ok::<_, Seq<char>>(caller),
        to_uri_parts(to) == Ok::<_, Seq<char>>((user, realm)),
    ensures
        ({
            let parties = PartiesView { caller, callee: user_or_empty(user), realm };
            &&& begun(sessions, request, now) == (Step {
                sessions,
                outcome: (CallStateView::InviteRealm(parties), CallActionView::CheckRealm(realm)),
            })
            &&& stepped(
                config,
                later,
                request,
                CallStateView::InviteRealm(parties),
                CallEventView::RealmChecked(true),
            ) == (Step {
                sessions: later,
                outcome: (
                    CallStateView::InviteLookup(parties),
                    CallActionView::Lookup(user_or_empty(user), Some(realm)),
                ),
            })
            &&& caller_of(request) == Ok::<_, CallErrorView>(caller)
            &&& callee_of(request) == Ok::<_, CallErrorView>((user, realm))
        }),
{
}

/// Two INVITE requests with the same first `From` and `To` headers begin in the same way, and are
/// for the same callee, whatever else they hold.
pub proof fn invites_go_by_their_addresses(
    sessions: Sessions,
    others: Sessions,
    request: RequestView,
    other: RequestView,
    now: nat,
    later: nat,
)
    requires
        request.method == Method::Invite,
        other.method == Method::Invite,
        request.header(HeaderKind::From) == other.header(HeaderKind::From),
        request.header(HeaderKind::To) == other.header(HeaderKind::To),
    ensures
        begun(sessions, request, now).outcome == begun(others, other, later).outcome,
{
}

/// An INVITE whose `From` header is missing or cannot be read fails for that, and otherwise one
/// whose `To` header is missing or cannot be read. The sessions stay as they are.
pub proof fn invite_without_addresses_fails(sessions: Sessions, request: RequestView, now: nat)
    requires
        request.method == Method::Invite,
    ensures
        ({
            let first = begun(sessions, request, now);
            let failure = |error: CallErrorView|
                Step {
                    sessions,
                    outcome: (CallStateView::InviteFailed(error), CallActionView::CheckAnswered),
                };
            match request.header(HeaderKind::From) {
                None => first == failure(CallErrorView::MissingFrom) && caller_of(request) == Err::<
                    Seq<char>,
                    _,
                >(CallErrorView::MissingFrom),
                Some(from) => match from_uri_text(from) {
                    Err(e) => first == failure(CallErrorView::Header(e)) && caller_of(request)
                        == Err::<Seq<char>, _>(CallErrorView::Header(e)),
                    Ok(_) => match request.header(HeaderKind::To) {
                        None => first == failure(CallErrorView::MissingTo),
                        Some(to) => to_uri_parts(to) matches Err(e) ==> first == failure(
                            CallErrorView::Header(e),
                        ),
                    },
                },
            }
        }),
        request.header(HeaderKind::To) is None ==> callee_of(request) == Err::<
            (Option<Seq<char>>, Seq<char>),
            _,
        >(CallErrorView::MissingTo),
        request.header(HeaderKind::To) matches Some(to) ==> (to_uri_parts(to) matches Err(e)
            ==> callee_of(request) == Err::<(Option<Seq<char>>, Seq<char>), _>(
            CallErrorView::Header(e),
        )),
{
}

/// Caller and callee are put together as they are; a callee without a user is the empty one of the
/// realm; an error in the caller comes before one in the callee.
pub proof fn parties_are_put_together(
    caller: Seq<char>,
    user: Option<Seq<char>>,
    realm: Seq<char>,
    parties: PartiesView,
    callee: Result<(Option<Seq<char>>, Seq<char>), CallErrorView>,
    error: CallErrorView,
)
    ensures
        steps::parties(Ok(caller), Ok((user, realm))) == Ok::<_, CallErrorView>(
            PartiesView { caller, callee: user_or_empty(user), realm },
        ),
        steps::parties(Err(error), callee) == Err::<PartiesView, _>(error),
        steps::parties(Ok(caller), Err(error)) == Err::<PartiesView, _>(error),
        invite_begun(Ok(parties)) == (
            CallStateView::InviteRealm(parties),
            CallActionView::CheckRealm(parties.realm),
        ),
        invite_begun(Err(error)) == (
            CallStateView::InviteFailed(error),
            CallActionView::CheckAnswered,
        ),
{
}

/// Once the realm of the callee is known to be the proxy's own, the callee is looked up there, for
/// every request and whatever the settings are. A callee of another realm is refused, as a request
/// that may not be passed on, or as one that cannot be where the settings would let it.
pub proof fn realm_decides(
    config: ProxyConfig,
    sessions: Sessions,
    request: RequestView,
    parties: PartiesView,
)
    ensures
        stepped(
            config,
            sessions,
            request,
            CallStateView::InviteRealm(parties),
            CallEventView::RealmChecked(true),
        ) == (Step {
            sessions,
            outcome: (
                CallStateView::InviteLookup(parties),
                CallActionView::Lookup(parties.callee, Some(parties.realm)),
            ),
        }),
        stepped(
            config,
            sessions,
            request,
            CallStateView::InviteRealm(parties),
            CallEventView::RealmChecked(false),
        ) == (Step {
            sessions,
            outcome: (
                CallStateView::InviteFailed(
                    match config.enable_forwarding {
                        Some(true) => CallErrorView::ForwardingNotImplemented,
                        Some(false) => CallErrorView::ForwardingDisabled,
                        None => CallErrorView::ForwardingDisabled,
                    },
                ),
                CallActionView::CheckAnswered,
            ),
        }),
        config.enable_forwarding == Some(true) ==> forwarding_error(config)
            == CallErrorView::ForwardingNotImplemented,
        config.enable_forwarding != Some(true) ==> forwarding_error(config)
            == CallErrorView::ForwardingDisabled,
{
}

/// Whether the first `Content-Type` header holds the text `application/sdp` somewhere.
pub open spec fn describes_media(request: RequestView) -> bool {
    request.header(HeaderKind::ContentType) matches Some(value) && exists|
        before: Seq<char>,
        after: Seq<char>,
    |
        is_around(value, before, "application/sdp"@, after)
}

/// With the mode `Off` no call has its media relayed, and with `All` every call has, whatever the
/// request and whatever was found. With `NatOnly` exactly those have whose first `Content-Type`
/// header holds `application/sdp` and whose session description was found to name a private
/// address; for that the whole body is looked through, and with no other mode is anything.
pub proof fn media_go_by_the_mode(request: RequestView, private: Option<bool>)
    ensures
        media_proxied(MediaProxyMode::Off, request, private) == false,
        media_proxied(MediaProxyMode::All, request, private) == true,
        media_proxied(MediaProxyMode::NatOnly, request, private) == (describes_media(request)
            && private == Some(true)),
        sdp_to_inspect(MediaProxyMode::Off, request) is None,
        sdp_to_inspect(MediaProxyMode::All, request) is None,
        describes_media(request) ==> sdp_to_inspect(MediaProxyMode::NatOnly, request) == Some(
            lossy_text(request.body),
        ),
        !describes_media(request) ==> sdp_to_inspect(MediaProxyMode::NatOnly, request) is None,
        has_sdp(request) == describes_media(request),
{
    if let Some(value) = request.header(HeaderKind::ContentType) {
        occurring_is_standing_between("application/sdp"@, value);
    }
}

/// A callee that is found is called at the first place. Whether the media are relayed is decided
/// then: at once by the modes `Off` and `All`, and by `NatOnly` only where there is a session
/// description, after the body has been looked through. The flag for the route says so.
pub proof fn located_callee_is_called(
    config: ProxyConfig,
    sessions: Sessions,
    request: RequestView,
    parties: PartiesView,
    locations: Seq<LocationView>,
    private: Option<bool>,
)
    requires
        locations.len() > 0,
    ensures
        ({
            let leg = LegView {
                caller: parties.caller,
                callee: parties.callee,
                destination: locations[0].destination,
            };
            let found = stepped(
                config,
                sessions,
                request,
                CallStateView::InviteLookup(parties),
                CallEventView::Located(Some(locations)),
            );
            let inspected = stepped(
                config,
                sessions,
                request,
                CallStateView::InviteMedia(leg),
                CallEventView::MediaInspected(private),
            );
            let routing = |flag: bool|
                Step {
                    sessions,
                    outcome: (
                        CallStateView::InviteRoute(leg),
                        CallActionView::RouteInvite(flag),
                    ),
                };
            &&& found.outcome == invite_located(config, request, leg)
            &&& match config.media_proxy.mode {
                MediaProxyMode::Off => found == routing(false) && inspected == routing(false),
                MediaProxyMode::All => found == routing(true) && inspected == routing(true),
                MediaProxyMode::NatOnly => {
                    &&& describes_media(request) ==> found == (Step {
                        sessions,
                        outcome: (
                            CallStateView::InviteMedia(leg),
                            CallActionView::InspectMedia(lossy_text(request.body)),
                        ),
                    })
                    &&& !describes_media(request) ==> found == routing(false)
                    &&& inspected == routing(describes_media(request) && private == Some(true))
                },
            }
        }),
{
    media_go_by_the_mode(request, private);
    media_go_by_the_mode(request, None);
}

/// A callee that is not found is answered with 404. Once that is sent, the acknowledgement is
/// awaited: an ACK ends the handling, and so does the end of the transaction; nothing else does.
pub proof fn missing_callee_is_answered(
    config: ProxyConfig,
    sessions: Sessions,
    request: RequestView,
    parties: PartiesView,
    e: Seq<char>,
    message: RequestView,
    response: ResponseView,
)
    ensures
        ({
            let after = |state: CallStateView, event: CallEventView|
                stepped(config, sessions, request, state, event);
            let waiting = Step {
                sessions,
                outcome: (CallStateView::InviteNotFoundAck, CallActionView::AwaitServer),
            };
            let done = Step {
                sessions,
                outcome: (
                    CallStateView::Finished,
                    CallActionView::Finish(Ok(ProxyAction::Abort), None),
                ),
            };
            &&& after(CallStateView::InviteLookup(parties), CallEventView::Located(None)) == (Step {
                sessions,
                outcome: (
                    CallStateView::InviteNotFoundReply,
                    CallActionView::Reply(StatusCode::NotFound, None),
                ),
            })
            &&& after(CallStateView::InviteNotFoundReply, CallEventView::Replied(Ok(())))
                == waiting
            &&& after(CallStateView::InviteNotFoundReply, CallEventView::Replied(Err(e))) == (
            Step {
                sessions,
                outcome: (
                    CallStateView::InviteFailed(CallErrorView::Stack(e)),
                    CallActionView::CheckAnswered,
                ),
            })
            &&& after(CallStateView::InviteNotFoundAck, CallEventView::ServerMessage(None)) == done
            &&& after(
                CallStateView::InviteNotFoundAck,
                CallEventView::ServerMessage(Some(MessageView::Request(message))),
            ) == if message.method == Method::Ack {
                done
            } else {
                waiting
            }
            &&& after(
                CallStateView::InviteNotFoundAck,
                CallEventView::ServerMessage(Some(MessageView::Response(response))),
            ) == waiting
        }),
{
}

/// The request with the headers in front of its own.
pub open spec fn with_in_front(request: RequestView, added: Seq<HeaderView>) -> RequestView {
    RequestView {
        method: request.method,
        uri: request.uri,
        headers: added + request.headers,
        body: request.body,
    }
}

/// A `Via` header.
pub open spec fn a_via(value: Seq<char>) -> HeaderView {
    HeaderView { kind: HeaderKind::Via, name: seq![], value }
}

/// A `Record-Route` header.
pub open spec fn a_record_route(value: Seq<char>) -> HeaderView {
    HeaderView { kind: HeaderKind::RecordRoute, name: seq![], value }
}

/// The key under which a request is sent on with the given `Via` header in front.
pub open spec fn key_with(request: RequestView, via: Seq<char>) -> Result<Seq<char>, Seq<char>> {
    client_key_text(
        request.method.token(),
        Some(via),
        request.header(HeaderKind::From),
        request.header(HeaderKind::CallId),
        request.header(HeaderKind::CSeq),
    )
}

/// An INVITE is sent on as it came, with the `Via` header of the proxy in front, and in front of
/// that its `Record-Route` header where it has one, to the place where the callee is. It fails
/// where no `Via` header or no key can be made.
pub proof fn invite_is_sent_on_as_it_came(
    config: ProxyConfig,
    sessions: Sessions,
    request: RequestView,
    leg: LegView,
    via: Seq<char>,
    record_route: Option<Seq<char>>,
    e: Seq<char>,
)
    ensures
        stepped(
            config,
            sessions,
            request,
            CallStateView::InviteRoute(leg),
            CallEventView::RouteBuilt(Ok(via), record_route),
        ) == (Step {
            sessions,
            outcome: match key_with(request, via) {
                Ok(key) => (
                    CallStateView::InviteSend(leg),
                    CallActionView::Forward(
                        OutgoingView {
                            request: match record_route {
                                Some(route) => with_in_front(
                                    request,
                                    seq![a_record_route(route), a_via(via)],
                                ),
                                None => with_in_front(request, seq![a_via(via)]),
                            },
                            key,
                            destination: leg.destination,
                        },
                    ),
                ),
                Err(error) => (
                    CallStateView::InviteFailed(CallErrorView::Stack(error)),
                    CallActionView::CheckAnswered,
                ),
            },
        }),
        stepped(
            config,
            sessions,
            request,
            CallStateView::InviteRoute(leg),
            CallEventView::RouteBuilt(Err(e), record_route),
        ) == (Step {
            sessions,
            outcome: (
                CallStateView::InviteFailed(CallErrorView::Stack(e)),
                CallActionView::CheckAnswered,
            ),
        }),
{
    keys_go_by_the_new_via(request, via, record_route);
}

/// An INVITE that has been sent is relayed in the dialog that its headers name, whatever their
/// texts are. One that names none is answered with 500, and that is all. One that could not be sent
/// fails, and so does one whose answer could not be sent.
pub proof fn sent_invite_is_relayed_in_its_dialog(
    config: ProxyConfig,
    sessions: Sessions,
    request: RequestView,
    leg: LegView,
    e: Seq<char>,
)
    ensures
        ({
            let after = |state: CallStateView, event: CallEventView|
                stepped(config, sessions, request, state, event);
            let failure = Step {
                sessions,
                outcome: (
                    CallStateView::InviteFailed(CallErrorView::Stack(e)),
                    CallActionView::CheckAnswered,
                ),
            };
            &&& after(CallStateView::InviteSend(leg), CallEventView::Sent(Ok(()))) == (Step {
                sessions,
                outcome: match dialog_id_parts(
                    request.header(HeaderKind::CallId),
                    request.header(HeaderKind::From),
                    request.header(HeaderKind::To),
                ) {
                    Some((call_id, from_tag, to_tag)) => (
                        CallStateView::InviteRelay(DialogIdView { call_id, from_tag, to_tag }, leg),
                        CallActionView::AwaitEither,
                    ),
                    None => (
                        CallStateView::InviteNoDialogReply,
                        CallActionView::Reply(StatusCode::ServerInternalError, None),
                    ),
                },
            })
            &&& after(CallStateView::InviteSend(leg), CallEventView::Sent(Err(e))) == failure
            &&& after(CallStateView::InviteNoDialogReply, CallEventView::Replied(Ok(()))) == (
            Step {
                sessions,
                outcome: (
                    CallStateView::Finished,
                    CallActionView::Finish(Ok(ProxyAction::Abort), None),
                ),
            })
            &&& after(CallStateView::InviteNoDialogReply, CallEventView::Replied(Err(e)))
                == failure
        }),
{
}

/// The parts of an INVITE that are made of what the stack gave: each goes on with what was given,
/// or fails with the error that was given.
pub proof fn what_the_stack_gave_is_used(
    config: ProxyConfig,
    id: DialogIdView,
    leg: LegView,
    destination: SipAddrView,
    request: RequestView,
    key: Seq<char>,
    e: Seq<char>,
)
    ensures
        invite_forwarded(leg, request, Ok(key)) == (
            CallStateView::InviteSend(leg),
            CallActionView::Forward(OutgoingView { request, key, destination: leg.destination }),
        ),
        invite_forwarded(leg, request, Err(e)) == (
            CallStateView::InviteFailed(CallErrorView::Stack(e)),
            CallActionView::CheckAnswered,
        ),
        ack_forwarded(id, leg, request, Ok(key)) == (
            CallStateView::InviteAckSend(id, leg),
            CallActionView::ForwardAck(OutgoingView { request, key, destination: leg.destination }),
        ),
        ack_forwarded(id, leg, request, Err(e)) == (
            CallStateView::InviteFailed(CallErrorView::Stack(e)),
            CallActionView::CheckAnswered,
        ),
        bye_forwarded(id, destination, request, Ok(key)) == (
            CallStateView::ByeSend(id),
            CallActionView::Forward(OutgoingView { request, key, destination }),
        ),
        bye_forwarded(id, destination, request, Err(e)) == (
            CallStateView::Finished,
            CallActionView::Finish(Ok(ProxyAction::Abort), Some(CallErrorView::Stack(e))),
        ),
        invite_sent(leg, Some(id)) == (
            CallStateView::InviteRelay(id, leg),
            CallActionView::AwaitEither,
        ),
        invite_sent(leg, None) == (
            CallStateView::InviteNoDialogReply,
            CallActionView::Reply(StatusCode::ServerInternalError, None),
        ),
        config.media_proxy.mode == MediaProxyMode::All ==> invite_located(config, request, leg) == (
            CallStateView::InviteRoute(leg),
            CallActionView::RouteInvite(true),
        ),
        config.media_proxy.mode == MediaProxyMode::Off ==> invite_located(config, request, leg) == (
            CallStateView::InviteRoute(leg),
            CallActionView::RouteInvite(false),
        ),
{
}

/// While an INVITE is relayed, a response of the callee goes back without its first `Via` header
/// and otherwise as it came. Exactly if its status is at least 200 and below 300, the dialog has a
/// session from then on, with the caller and the callee of the call; whether there was one before
/// plays no part.
pub proof fn responses_are_relayed(
    config: ProxyConfig,
    sessions: Sessions,
    request: RequestView,
    id: DialogIdView,
    leg: LegView,
    status: u16,
    body: Seq<u8>,
    before: Seq<HeaderView>,
    own: HeaderView,
    rest: Seq<HeaderView>,
    now: nat,
)
    requires
        lacks(before, HeaderKind::Via),
        own.kind == HeaderKind::Via,
    ensures
        ({
            let after = |response: ResponseView|
                stepped(
                    config,
                    sessions,
                    request,
                    CallStateView::InviteRelay(id, leg),
                    CallEventView::ClientMessage(Some(MessageView::Response(response)), now),
                );
            let known = if 200 <= status && status < 300 {
                sessions.insert(
                    DialogKey { call_id: id.call_id, tags: set![id.from_tag, id.to_tag] },
                    SessionView {
                        dialog_id: id,
                        last_activity: now,
                        caller: leg.caller,
                        callee: leg.callee,
                    },
                )
            } else {
                sessions
            };
            &&& after(ResponseView { status, headers: before + seq![own] + rest, body }) == (Step {
                sessions: known,
                outcome: (
                    CallStateView::InviteRespond(id, leg),
                    CallActionView::Respond(
                        ResponseView { status, headers: before + rest, body },
                    ),
                ),
            })
            &&& after(ResponseView { status, headers: before, body }) == (Step {
                sessions: known,
                outcome: (
                    CallStateView::InviteRespond(id, leg),
                    CallActionView::Respond(ResponseView { status, headers: before, body }),
                ),
            })
        }),
{
    responses_go_back_without_the_first_via(status, body, before, own, rest);
}

/// While an INVITE is relayed, every ACK of the caller is taken up for the callee, for all sessions,
/// dialogs and calls, before the call has been accepted and after. It is sent on exactly as it came
/// with the `Via` header of the proxy in front, to the place where the callee is; the handling
/// fails where no `Via` header or no key can be made, or it cannot be sent, and goes on with the
/// relaying otherwise.
pub proof fn acks_are_relayed(
    config: ProxyConfig,
    sessions: Sessions,
    request: RequestView,
    id: DialogIdView,
    leg: LegView,
    ack: RequestView,
    via: Seq<char>,
    record_route: Option<Seq<char>>,
    e: Seq<char>,
)
    requires
        ack.method == Method::Ack,
    ensures
        ({
            let after = |state: CallStateView, event: CallEventView|
                stepped(config, sessions, request, state, event);
            let failure = |error: Seq<char>|
                Step {
                    sessions,
                    outcome: (
                        CallStateView::InviteFailed(CallErrorView::Stack(error)),
                        CallActionView::CheckAnswered,
                    ),
                };
            &&& after(
                CallStateView::InviteRelay(id, leg),
                CallEventView::ServerMessage(Some(MessageView::Request(ack))),
            ) == (Step {
                sessions,
                outcome: (CallStateView::InviteAckRoute(id, leg, ack), CallActionView::RouteVia),
            })
            &&& after(
                CallStateView::InviteAckRoute(id, leg, ack),
                CallEventView::RouteBuilt(Ok(via), record_route),
            ) == match key_with(ack, via) {
                Ok(key) => Step {
                    sessions,
                    outcome: (
                        CallStateView::InviteAckSend(id, leg),
                        CallActionView::ForwardAck(
                            OutgoingView {
                                request: with_in_front(ack, seq![a_via(via)]),
                                key,
                                destination: leg.destination,
                            },
                        ),
                    ),
                },
                Err(error) => failure(error),
            }
            &&& after(
                CallStateView::InviteAckRoute(id, leg, ack),
                CallEventView::RouteBuilt(Err(e), record_route),
            ) == failure(e)
            &&& after(CallStateView::InviteAckSend(id, leg), CallEventView::Sent(Ok(()))) == (
            Step {
                sessions,
                outcome: (CallStateView::InviteRelay(id, leg), CallActionView::AwaitEither),
            })
            &&& after(CallStateView::InviteAckSend(id, leg), CallEventView::Sent(Err(e)))
                == failure(e)
        }),
{
    keys_go_by_the_new_via(ack, via, None);
}

/// While an INVITE is relayed, whatever else comes is let go by, until the transaction with the
/// callee is over, which ends the handling. Once a response has been passed on, the relaying goes
/// on; where one could not be, the handling fails.
pub proof fn relaying_goes_on(
    config: ProxyConfig,
    sessions: Sessions,
    request: RequestView,
    id: DialogIdView,
    leg: LegView,
    message: RequestView,
    response: ResponseView,
    now: nat,
    e: Seq<char>,
)
    ensures
        ({
            let after = |state: CallStateView, event: CallEventView|
                stepped(config, sessions, request, state, event);
            let relay = CallStateView::InviteRelay(id, leg);
            let waiting = Step { sessions, outcome: (relay, CallActionView::AwaitEither) };
            &&& after(relay, CallEventView::ServerMessage(None)) == waiting
            &&& after(
                relay,
                CallEventView::ServerMessage(Some(MessageView::Response(response))),
            ) == waiting
            &&& message.method != Method::Ack ==> after(
                relay,
                CallEventView::ServerMessage(Some(MessageView::Request(message))),
            ) == waiting
            &&& after(relay, CallEventView::ClientMessage(None, now)) == waiting
            &&& after(
                relay,
                CallEventView::ClientMessage(Some(MessageView::Request(message)), now),
            ) == waiting
            &&& after(relay, CallEventView::ClientTerminated) == (Step {
                sessions,
                outcome: (
                    CallStateView::Finished,
                    CallActionView::Finish(Ok(ProxyAction::Abort), None),
                ),
            })
            &&& after(CallStateView::InviteRespond(id, leg), CallEventView::Responded(Ok(())))
                == waiting
            &&& after(CallStateView::InviteRespond(id, leg), CallEventView::Responded(Err(e))) == (
            Step {
                sessions,
                outcome: (
                    CallStateView::InviteFailed(CallErrorView::Stack(e)),
                    CallActionView::CheckAnswered,
                ),
            })
        }),
{
}

/// An INVITE that failed is answered with 500 and the text of the error exactly if the caller has
/// had no response. The sessions stay as they are, and the handling ends with the error.
pub proof fn failed_invite_is_answered(
    config: ProxyConfig,
    sessions: Sessions,
    request: RequestView,
    error: CallErrorView,
    e: Seq<char>,
)
    ensures
        ({
            let after = |state: CallStateView, event: CallEventView|
                stepped(config, sessions, request, state, event);
            let ended = |result: Result<ProxyAction, CallErrorView>|
                Step {
                    sessions,
                    outcome: (
                        CallStateView::Finished,
                        CallActionView::Finish(result, Some(error)),
                    ),
                };
            &&& after(CallStateView::InviteFailed(error), CallEventView::Answered(true)) == ended(
                Ok(ProxyAction::Abort),
            )
            &&& after(CallStateView::InviteFailed(error), CallEventView::Answered(false)) == (Step {
                sessions,
                outcome: (
                    CallStateView::InviteFailedReply(error),
                    CallActionView::Reply(StatusCode::ServerInternalError, Some(error.text())),
                ),
            })
            &&& after(CallStateView::InviteFailedReply(error), CallEventView::Replied(Ok(())))
                == ended(Ok(ProxyAction::Abort))
            &&& after(CallStateView::InviteFailedReply(error), CallEventView::Replied(Err(e)))
                == ended(Err(CallErrorView::Stack(e)))
        }),
{
}

/// A BYE in whose headers no dialog can be read is answered with 400, and one in a dialog without a
/// session with 481. Otherwise the callee of the session is looked up, in no realm in particular,
/// whatever the texts of the headers are and whichever side sent the BYE.
pub proof fn bye_looks_up_the_callee_of_its_session(
    sessions: Sessions,
    request: RequestView,
    now: nat,
)
    requires
        request.method == Method::Bye,
    ensures
        begun(sessions, request, now) == (Step {
            sessions,
            outcome: match dialog_id_parts(
                request.header(HeaderKind::CallId),
                request.header(HeaderKind::From),
                request.header(HeaderKind::To),
            ) {
                Some((call_id, from_tag, to_tag)) => {
                    let key = DialogKey { call_id, tags: set![from_tag, to_tag] };
                    if sessions.contains_key(key) {
                        (
                            CallStateView::ByeLookup(DialogIdView { call_id, from_tag, to_tag }),
                            CallActionView::Lookup(sessions[key].callee, None),
                        )
                    } else {
                        (
                            CallStateView::FinalReply,
                            CallActionView::Reply(StatusCode::CallTransactionDoesNotExist, None),
                        )
                    }
                },
                None => (
                    CallStateView::FinalReply,
                    CallActionView::Reply(StatusCode::BadRequest, None),
                ),
            },
        }),
{
}

/// A BYE in a dialog goes to the callee of its session, and is refused where there is no session.
pub proof fn byes_go_by_the_session(sessions: Sessions, id: DialogIdView)
    ensures
        ({
            let key = DialogKey { call_id: id.call_id, tags: set![id.from_tag, id.to_tag] };
            &&& sessions.contains_key(key) ==> bye_begun(sessions, Some(id)) == (
                CallStateView::ByeLookup(id),
                CallActionView::Lookup(sessions[key].callee, None),
            )
            &&& !sessions.contains_key(key) ==> bye_begun(sessions, Some(id)) == (
                CallStateView::FinalReply,
                CallActionView::Reply(StatusCode::CallTransactionDoesNotExist, None),
            )
            &&& bye_begun(sessions, None) == (
                CallStateView::FinalReply,
                CallActionView::Reply(StatusCode::BadRequest, None),
            )
        }),
{
}

/// A BYE is sent on as it came, with the `Via` header of the proxy in front and no other header, to
/// the first place where the callee is found; where the callee is not found it is answered with
/// 404. It fails, and the sessions stay, where no `Via` header or no key can be made or it cannot be
/// sent.
pub proof fn bye_is_sent_on_as_it_came(
    config: ProxyConfig,
    sessions: Sessions,
    request: RequestView,
    id: DialogIdView,
    locations: Seq<LocationView>,
    destination: SipAddrView,
    via: Seq<char>,
    record_route: Option<Seq<char>>,
    e: Seq<char>,
)
    requires
        locations.len() > 0,
    ensures
        ({
            let after = |state: CallStateView, event: CallEventView|
                stepped(config, sessions, request, state, event);
            let failure = |error: Seq<char>|
                Step {
                    sessions,
                    outcome: (
                        CallStateView::Finished,
                        CallActionView::Finish(
                            Ok(ProxyAction::Abort),
                            Some(CallErrorView::Stack(error)),
                        ),
                    ),
                };
            &&& after(CallStateView::ByeLookup(id), CallEventView::Located(Some(locations))) == (
            Step {
                sessions,
                outcome: (
                    CallStateView::ByeRoute(id, locations[0].destination),
                    CallActionView::RouteVia,
                ),
            })
            &&& after(CallStateView::ByeLookup(id), CallEventView::Located(None)) == (Step {
                sessions,
                outcome: (
                    CallStateView::FinalReply,
                    CallActionView::Reply(StatusCode::NotFound, None),
                ),
            })
            &&& after(
                CallStateView::ByeRoute(id, destination),
                CallEventView::RouteBuilt(Ok(via), record_route),
            ) == match key_with(request, via) {
                Ok(key) => Step {
                    sessions,
                    outcome: (
                        CallStateView::ByeSend(id),
                        CallActionView::Forward(
                            OutgoingView {
                                request: with_in_front(request, seq![a_via(via)]),
                                key,
                                destination,
                            },
                        ),
                    ),
                },
                Err(error) => failure(error),
            }
            &&& after(
                CallStateView::ByeRoute(id, destination),
                CallEventView::RouteBuilt(Err(e), record_route),
            ) == failure(e)
            &&& after(CallStateView::ByeSend(id), CallEventView::Sent(Ok(()))) == (Step {
                sessions,
                outcome: (CallStateView::ByeResponse(id), CallActionView::AwaitClient),
            })
            &&& after(CallStateView::ByeSend(id), CallEventView::Sent(Err(e))) == failure(e)
        }),
{
    keys_go_by_the_new_via(request, via, None);
}

/// The response to a BYE goes back without its first `Via` header and otherwise as it came, whatever
/// its status. Once it has been passed on, or no more can come, the session of the dialog is gone
/// and no other; where it could not be passed on, the session stays and the handling has failed. A
/// request of the callee is let go by.
pub proof fn bye_ends_with_its_response(
    config: ProxyConfig,
    sessions: Sessions,
    request: RequestView,
    id: DialogIdView,
    status: u16,
    body: Seq<u8>,
    before: Seq<HeaderView>,
    own: HeaderView,
    rest: Seq<HeaderView>,
    message: RequestView,
    now: nat,
    e: Seq<char>,
)
    requires
        lacks(before, HeaderKind::Via),
        own.kind == HeaderKind::Via,
    ensures
        ({
            let after = |state: CallStateView, event: CallEventView|
                stepped(config, sessions, request, state, event);
            let came = |response: ResponseView|
                CallEventView::ClientMessage(Some(MessageView::Response(response)), now);
            let passing = |response: ResponseView|
                Step {
                    sessions,
                    outcome: (CallStateView::ByeRespond(id), CallActionView::Respond(response)),
                };
            let ended = Step {
                sessions: sessions.remove(
                    DialogKey { call_id: id.call_id, tags: set![id.from_tag, id.to_tag] },
                ),
                outcome: (
                    CallStateView::Finished,
                    CallActionView::Finish(Ok(ProxyAction::Abort), None),
                ),
            };
            &&& after(
                CallStateView::ByeResponse(id),
                came(ResponseView { status, headers: before + seq![own] + rest, body }),
            ) == passing(ResponseView { status, headers: before + rest, body })
            &&& after(
                CallStateView::ByeResponse(id),
                came(ResponseView { status, headers: before, body }),
            ) == passing(ResponseView { status, headers: before, body })
            &&& after(
                CallStateView::ByeResponse(id),
                CallEventView::ClientMessage(Some(MessageView::Request(message)), now),
            ) == (Step {
                sessions,
                outcome: (CallStateView::ByeResponse(id), CallActionView::AwaitClient),
            })
            &&& after(CallStateView::ByeResponse(id), CallEventView::ClientMessage(None, now))
                == ended
            &&& after(CallStateView::ByeRespond(id), CallEventView::Responded(Ok(()))) == ended
            &&& after(CallStateView::ByeRespond(id), CallEventView::Responded(Err(e))) == (Step {
                sessions,
                outcome: (
                    CallStateView::Finished,
                    CallActionView::Finish(
                        Ok(ProxyAction::Abort),
                        Some(CallErrorView::Stack(e)),
                    ),
                ),
            })
        }),
{
    responses_go_back_without_the_first_via(status, body, before, own, rest);
}

/// The one response that there is ends the handling, with its error where it could not be sent.
pub proof fn last_reply_ends_the_handling(
    config: ProxyConfig,
    sessions: Sessions,
    request: RequestView,
    e: Seq<char>,
)
    ensures
        stepped(
            config,
            sessions,
            request,
            CallStateView::FinalReply,
            CallEventView::Replied(Ok(())),
        ) == (Step {
            sessions,
            outcome: (
                CallStateView::Finished,
                CallActionView::Finish(Ok(ProxyAction::Abort), None),
            ),
        }),
        stepped(
            config,
            sessions,
            request,
            CallStateView::FinalReply,
            CallEventView::Replied(Err(e)),
        ) == (Step {
            sessions,
            outcome: (
                CallStateView::Finished,
                CallActionView::Finish(Ok(ProxyAction::Abort), Some(CallErrorView::Stack(e))),
            ),
        }),
{
}

/// An ACK that belongs to no INVITE, and every method but INVITE, BYE, OPTIONS and CANCEL, is done
/// with at once, the former as dealt with and the latter for the next module. A CANCEL is answered
/// with 200. None of them changes a session.
pub proof fn other_methods_change_nothing(sessions: Sessions, request: RequestView, now: nat)
    requires
        request.method != Method::Invite,
        request.method != Method::Bye,
        request.method != Method::Options,
    ensures
        begun(sessions, request, now) == (Step {
            sessions,
            outcome: if request.method == Method::Cancel {
                (CallStateView::FinalReply, CallActionView::Reply(StatusCode::OK, None))
            } else if request.method == Method::Ack {
                (
                    CallStateView::Finished,
                    CallActionView::Finish(Ok(ProxyAction::Abort), None),
                )
            } else {
                (
                    CallStateView::Finished,
                    CallActionView::Finish(Ok(ProxyAction::Continue), None),
                )
            },
        }),
{
}

/// An OPTIONS is answered with 200. The session of the dialog that can be read in its headers, if
/// there is one, has that moment as its last activity, and its dialog, its caller and its callee
/// as they were; every other session is as it was, none goes, and none comes up.
pub proof fn options_changes_the_time_only(
    sessions: Sessions,
    request: RequestView,
    now: nat,
    key: DialogKey,
)
    requires
        request.method == Method::Options,
    ensures
        ({
            let after = begun(sessions, request, now).sessions;
            let own = dialog_id_parts(
                request.header(HeaderKind::CallId),
                request.header(HeaderKind::From),
                request.header(HeaderKind::To),
            );
            let is_own = own matches Some((call_id, from_tag, to_tag)) && key == (DialogKey {
                call_id,
                tags: set![from_tag, to_tag],
            });
            &&& begun(sessions, request, now).outcome == (
                CallStateView::FinalReply,
                CallActionView::Reply(StatusCode::OK, None),
            )
            &&& after.contains_key(key) <==> sessions.contains_key(key)
            &&& sessions.contains_key(key) ==> {
                &&& after[key].dialog_id == sessions[key].dialog_id
                &&& after[key].caller == sessions[key].caller
                &&& after[key].callee == sessions[key].callee
                &&& is_own ==> after[key].last_activity == now
                &&& !is_own ==> after[key].last_activity == sessions[key].last_activity
            }
        }),
{
}

/// A BYE begins in the same way with and without an OPTIONS before it: the same callee is looked
/// up, or it is refused with the same status.
pub proof fn options_leaves_the_callee(
    sessions: Sessions,
    options: RequestView,
    bye: RequestView,
    now: nat,
    later: nat,
)
    requires
        options.method == Method::Options,
        bye.method == Method::Bye,
    ensures
        begun(begun(sessions, options, now).sessions, bye, later).outcome == begun(
            sessions,
            bye,
            later,
        ).outcome,
{
    bye_looks_up_the_callee_of_its_session(sessions, bye, later);
    bye_looks_up_the_callee_of_its_session(
        begun(sessions, options, now).sessions,
        bye,
        later,
    );
    if let Some(id) = bye.dialog_id() {
        options_changes_the_time_only(sessions, options, now, id.key());
    }
}

/// Only the last activity of sessions is changed by OPTIONS requests, however many there are: with
/// one after the other the session has the moment of the last one in its dialog.
pub proof fn last_options_counts(
    sessions: Sessions,
    options: RequestView,
    earlier: nat,
    later: nat,
)
    requires
        options.method == Method::Options,
    ensures
        begun(begun(sessions, options, earlier).sessions, options, later).sessions == begun(
            sessions,
            options,
            later,
        ).sessions,
{
    assert(begun(begun(sessions, options, earlier).sessions, options, later).sessions =~= begun(
        sessions,
        options,
        later,
    ).sessions);
}

/// The ACKs of the caller among the events for which a `Via` header could be made, in order, each
/// with that header.
pub open spec fn acks_in(events: Seq<CallEventView>) -> Seq<(RequestView, Seq<char>)>
    decreases events.len(),
{
    if events.len() < 2 {
        seq![]
    } else {
        let later = acks_in(events.drop_first());
        match (events[0], events[1]) {
            (
                CallEventView::ServerMessage(Some(MessageView::Request(message))),
                CallEventView::RouteBuilt(Ok(via), _),
            ) => if message.method == Method::Ack {
                seq![(message, via)] + later
            } else {
                later
            },
            _ => later,
        }
    }
}

/// The ACKs that the actions send on, in order.
pub open spec fn acks_sent(actions: Seq<CallActionView>) -> Seq<OutgoingView>
    decreases actions.len(),
{
    if actions.len() == 0 {
        seq![]
    } else {
        let later = acks_sent(actions.drop_first());
        match actions.first() {
            CallActionView::ForwardAck(outgoing) => seq![outgoing] + later,
            _ => later,
        }
    }
}

/// The ACKs as they go to the callee.
pub open spec fn acks_for(
    acks: Seq<(RequestView, Seq<char>)>,
    destination: SipAddrView,
) -> Seq<OutgoingView> {
    acks.map_values(
        |ack: (RequestView, Seq<char>)|
            OutgoingView {
                request: with_in_front(ack.0, seq![a_via(ack.1)]),
                key: key_with(ack.0, ack.1)->Ok_0,
                destination,
            },
    )
}

/// Whether a key can be made for each of the ACKs.
pub open spec fn have_keys(acks: Seq<(RequestView, Seq<char>)>) -> bool {
    forall|i: int| 0 <= i < acks.len() ==> key_with((#[trigger] acks[i]).0, acks[i].1) is Ok
}

/// The ACK that is waiting for the `Via` header that the first event brings.
spec fn ack_waiting(state: CallStateView, events: Seq<CallEventView>) -> Seq<
    (RequestView, Seq<char>),
> {
    if events.len() == 0 {
        seq![]
    } else {
        match (state, events[0]) {
            (CallStateView::InviteAckRoute(_, _, ack), CallEventView::RouteBuilt(Ok(via), _)) => {
                seq![(ack, via)]
            },
            _ => seq![],
        }
    }
}

/// Whether every place that is found is the destination, and the call goes there if the callee has
/// been located already.
spec fn goes_to(
    state: CallStateView,
    events: Seq<CallEventView>,
    destination: SipAddrView,
) -> bool {
    &&& forall|i: int|
        0 <= i < events.len() ==> ((#[trigger] events[i]) matches CallEventView::Located(
            Some(locations),
        ) ==> locations[0].destination == destination)
    &&& match state {
        CallStateView::InviteMedia(leg) => leg.destination == destination,
        CallStateView::InviteRoute(leg) => leg.destination == destination,
        CallStateView::InviteSend(leg) => leg.destination == destination,
        CallStateView::InviteRelay(_, leg) => leg.destination == destination,
        CallStateView::InviteRespond(_, leg) => leg.destination == destination,
        CallStateView::InviteAckRoute(_, leg, ack) => leg.destination == destination && ack.method
            == Method::Ack,
        CallStateView::InviteAckSend(_, leg) => leg.destination == destination,
        _ => true,
    }
}

#[verifier::rlimit(40)]
proof fn lemma_acks(
    config: ProxyConfig,
    request: RequestView,
    destination: SipAddrView,
    from: Step,
    events: Seq<CallEventView>,
)
    requires
        run(config, request, from, events) is Some,
        !is_bye(from.outcome.0),
        !(from.outcome.0 is FinalReply),
        goes_to(from.outcome.0, events, destination),
        have_keys(acks_in(events)),
        have_keys(ack_waiting(from.outcome.0, events)),
    ensures
        acks_sent(trail(config, request, from, events)) == acks_for(
            ack_waiting(from.outcome.0, events) + acks_in(events),
            destination,
        ),
    decreases events.len(),
{
    let waiting = ack_waiting(from.outcome.0, events);
    if events.len() == 0 {
        assert(acks_for(waiting + acks_in(events), destination) =~= seq![]);
    } else {
        let state = from.outcome.0;
        let event = events.first();
        let later = events.drop_first();
        let next = stepped(config, from.sessions, request, state, event);
        let rest = trail(config, request, next, later);
        let actions = trail(config, request, from, events);
        assert(actions == seq![next.outcome.1] + rest);
        assert(actions.drop_first() =~= rest);
        assert(!is_bye(next.outcome.0) && !(next.outcome.0 is FinalReply));
        assert(goes_to(next.outcome.0, later, destination)) by {
            assert(events[0] == event);
            assert forall|i: int| 0 <= i < later.len() implies ((#[trigger] later[i])
                matches CallEventView::Located(Some(locations)) ==> locations[0].destination
                == destination) by {
                assert(later[i] == events[i + 1]);
            }
        }
        // An ACK that comes now is the one that waits for what the next event brings.
        let fresh = ack_waiting(next.outcome.0, later);
        assert(acks_in(events) =~= fresh + acks_in(later)) by {
            assert(run(config, request, next, later) is Some);
            if later.len() > 0 {
                assert(later[0] == events[1]);
                assert(next.outcome.0.expects(later[0]));
            }
        }
        assert(have_keys(fresh)) by {
            assert forall|i: int| 0 <= i < fresh.len() implies key_with(
                (#[trigger] fresh[i]).0,
                fresh[i].1,
            ) is Ok by {
                assert(acks_in(events)[i] == fresh[i]);
            }
        }
        assert(have_keys(acks_in(later))) by {
            assert forall|i: int| 0 <= i < acks_in(later).len() implies key_with(
                (#[trigger] acks_in(later)[i]).0,
                acks_in(later)[i].1,
            ) is Ok by {
                assert(acks_in(events)[fresh.len() + i] == acks_in(later)[i]);
            }
        }
        lemma_acks(config, request, destination, next, later);
        if waiting.len() > 0 {
            let (ack, via) = waiting[0];
            assert(key_with(waiting[0].0, waiting[0].1) is Ok);
            acks_are_relayed(
                config,
                from.sessions,
                request,
                state->InviteAckRoute_0,
                state->InviteAckRoute_1,
                ack,
                via,
                event->RouteBuilt_1,
                seq![],
            );
            let sent = OutgoingView {
                request: with_in_front(ack, seq![a_via(via)]),
                key: key_with(ack, via)->Ok_0,
                destination,
            };
            assert(next.outcome.1 == CallActionView::ForwardAck(sent));
            assert(waiting =~= seq![(ack, via)]);
            assert(acks_for(waiting + acks_in(events), destination) =~= seq![sent] + acks_for(
                fresh + acks_in(later),
                destination,
            ));
        } else {
            assert(!(next.outcome.1 is ForwardAck));
            assert(waiting + acks_in(events) =~= fresh + acks_in(later));
        }
    }
}

/// In a whole INVITE transaction, whatever comes, the ACKs of the caller are sent on to the callee
/// one for one and in order, each exactly as it came with the `Via` header of the proxy in front,
/// before the call has been accepted and after; and no other ACK is sent. This is said of those
/// for which a `Via` header and a key could be made, and where the callee is found first is where
/// they go.
pub proof fn every_ack_reaches_the_callee(
    config: ProxyConfig,
    sessions: Sessions,
    request: RequestView,
    destination: SipAddrView,
    began: nat,
    events: Seq<CallEventView>,
)
    requires
        request.method == Method::Invite,
        run(config, request, begun(sessions, request, began), events) is Some,
        forall|i: int|
            0 <= i < events.len() ==> ((#[trigger] events[i]) matches CallEventView::Located(
                Some(locations),
            ) ==> locations[0].destination == destination),
        have_keys(acks_in(events)),
    ensures
        acks_sent(trail(config, request, begun(sessions, request, began), events)) == acks_for(
            acks_in(events),
            destination,
        ),
{
    let first = begun(sessions, request, began);
    assert(ack_waiting(first.outcome.0, events) =~= seq![]);
    lemma_acks(config, request, destination, first, events);
    assert(seq![] + acks_in(events) =~= acks_in(events));
}

} // verus!
