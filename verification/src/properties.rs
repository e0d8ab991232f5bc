//! What holds of the call module as a whole.

use crate::config::ProxyConfig;
use crate::dialog::{lemma_same_dialog_is_same_key, same_dialog, DialogIdView, DialogKey};
use crate::protocol::{
    CallActionView, CallErrorView, CallEventView, CallStateView, LegView, LocationView,
    OutgoingView, PartiesView, ProxyAction, StatusCode,
};
use crate::sessions::{surviving, SessionView};
use crate::sip::{
    is_first, lemma_first_index, via_header, HeaderKind, HeaderView, MessageView, Method,
    RequestView, ResponseView,
};
use crate::steps;
use crate::steps::{
    aborted, answered, answered_session, begun, bye_begun, bye_step, callee_of, caller_of,
    concluded, failed, finished, forwarding_error, given_up, invite_outcome, is_bye, options_noted,
    relay_step, sdp_to_inspect, stepped, Outcome, Sessions, Step,
};
use vstd::prelude::*;

verus! {

/// To name the same dialog is an equivalence, and the two sides of a dialog name the same one.
pub proof fn same_dialog_is_an_equivalence(a: DialogIdView, b: DialogIdView, c: DialogIdView)
    ensures
        same_dialog(a, a),
        same_dialog(a, b) ==> same_dialog(b, a),
        same_dialog(a, b) && same_dialog(b, c) ==> same_dialog(a, c),
        same_dialog(a, a.swapped()),
{
}

/// What the proxy adds to a request in front of its headers is all that it changes, and the first
/// `Via` header of the request it sends is its own.
pub proof fn routing_only_adds_in_front(
    request: RequestView,
    via: Seq<char>,
    record_route: Option<Seq<char>>,
)
    ensures
        request.routed(via, record_route).method == request.method,
        request.routed(via, record_route).uri == request.uri,
        request.routed(via, record_route).body == request.body,
        request.routed(via, record_route).headers.len() == request.headers.len() + (
        if record_route is Some {
            2int
        } else {
            1int
        }),
        request.headers.is_suffix_of(request.routed(via, record_route).headers),
        request.routed(via, record_route).header(HeaderKind::Via) == Some(via),
{
    let routed = request.routed(via, record_route).headers;
    let added = routed.len() - request.headers.len();
    assert(routed.subrange(added, routed.len() as int) =~= request.headers);
    assert(is_first(routed, HeaderKind::Via, added - 1));
    lemma_first_index(routed, HeaderKind::Via, added - 1);
}

/// The `Via` headers, in order.
pub open spec fn via_headers(headers: Seq<HeaderView>) -> Seq<HeaderView> {
    headers.filter(|header: HeaderView| header.kind == HeaderKind::Via)
}

/// The headers that are not `Via` headers, in order.
pub open spec fn other_headers(headers: Seq<HeaderView>) -> Seq<HeaderView> {
    headers.filter(|header: HeaderView| header.kind != HeaderKind::Via)
}

/// Where nothing satisfies the condition, nothing is left.
proof fn lemma_filter_none(headers: Seq<HeaderView>, keep: spec_fn(HeaderView) -> bool)
    requires
        forall|i: int| 0 <= i < headers.len() ==> !keep(#[trigger] headers[i]),
    ensures
        headers.filter(keep) == Seq::<HeaderView>::empty(),
    decreases headers.len(),
{
    reveal(Seq::filter);
    if headers.len() > 0 {
        assert(!keep(headers[headers.len() - 1]));
        lemma_filter_none(headers.drop_last(), keep);
    }
}

/// Where there is a header of a kind, there is a first one.
proof fn lemma_has_first(headers: Seq<HeaderView>, kind: HeaderKind, i: int)
    requires
        0 <= i < headers.len(),
        headers[i].kind == kind,
    ensures
        exists|c: int| is_first(headers, kind, c),
    decreases i,
{
    if forall|j: int| 0 <= j < i ==> (#[trigger] headers[j]).kind != kind {
        assert(is_first(headers, kind, i));
    } else {
        let j = choose|j: int| 0 <= j < i && (#[trigger] headers[j]).kind == kind;
        lemma_has_first(headers, kind, j);
    }
}

/// Passing a response back takes away the first of its `Via` headers, wherever it stands, which is
/// the one that the proxy put there on the way out. The `Via` headers that were there before are
/// left in their order, and so are all other headers; nothing else is changed.
pub proof fn relaying_undoes_routing(
    response: ResponseView,
    own: HeaderView,
    before: Seq<HeaderView>,
)
    requires
        via_headers(response.headers) == seq![own] + before,
    ensures
        via_headers(response.relayed().headers) == before,
        other_headers(response.relayed().headers) == other_headers(response.headers),
        response.relayed().status == response.status,
        response.relayed().body == response.body,
{
    let headers = response.headers;
    let is_via = |header: HeaderView| header.kind == HeaderKind::Via;
    let is_other = |header: HeaderView| header.kind != HeaderKind::Via;
    if forall|i: int| 0 <= i < headers.len() ==> !is_via(#[trigger] headers[i]) {
        lemma_filter_none(headers, is_via);
        assert(via_headers(headers).len() == 0);
    }
    let k = choose|k: int| 0 <= k < headers.len() && is_via(#[trigger] headers[k]);
    lemma_has_first(headers, HeaderKind::Via, k);
    let i = choose|i: int| is_first(headers, HeaderKind::Via, i);
    lemma_first_index(headers, HeaderKind::Via, i);
    let front = headers.take(i);
    let first = seq![headers[i]];
    let back = headers.skip(i + 1);
    assert(headers =~= front + first + back);
    assert(headers.remove(i) =~= front + back);
    lemma_filter_none(front, is_via);
    assert(first.filter(is_via) =~= first && first.filter(is_other) =~= seq![]) by {
        reveal(Seq::filter);
        reveal_with_fuel(Seq::filter, 2);
        assert(first.drop_last() =~= seq![]);
    }
    Seq::filter_distributes_over_add(front + first, back, is_via);
    Seq::filter_distributes_over_add(front, first, is_via);
    Seq::filter_distributes_over_add(front, back, is_via);
    Seq::filter_distributes_over_add(front + first, back, is_other);
    Seq::filter_distributes_over_add(front, first, is_other);
    Seq::filter_distributes_over_add(front, back, is_other);
    assert(via_headers(headers) =~= first + back.filter(is_via));
    assert(back.filter(is_via) =~= via_headers(headers).skip(1));
    assert(before =~= (seq![own] + before).skip(1));
    assert(via_headers(headers.remove(i)) =~= back.filter(is_via));
    assert(other_headers(headers.remove(i)) =~= other_headers(headers));
}

/// Putting a `Via` header in front of a response and passing it back leaves the response as it was.
pub proof fn relaying_restores_the_response(response: ResponseView, via: Seq<char>)
    ensures
        (ResponseView { headers: seq![via_header(via)] + response.headers, ..response }).relayed()
            == response,
{
    let headers = seq![via_header(via)] + response.headers;
    assert(is_first(headers, HeaderKind::Via, 0));
    lemma_first_index(headers, HeaderKind::Via, 0);
    assert(headers.remove(0) =~= response.headers);
}

/// A look through the sessions changes none of those that it leaves, and takes none that has been
/// active within the time allowed.
pub proof fn checking_takes_exactly_the_silent(
    sessions: Sessions,
    key: DialogKey,
    now: nat,
    timeout: nat,
)
    requires
        sessions.contains_key(key),
    ensures
        surviving(sessions, now, timeout).contains_key(key) <==> now <= sessions[key].last_activity
            + timeout,
        surviving(sessions, now, timeout).contains_key(key) ==> surviving(
            sessions,
            now,
            timeout,
        )[key] == sessions[key],
{
}

/// Looking through the sessions twice is looking through them at the later moment.
pub proof fn checking_again_is_checking_later(
    sessions: Sessions,
    earlier: nat,
    later: nat,
    timeout: nat,
)
    requires
        earlier <= later,
    ensures
        surviving(surviving(sessions, earlier, timeout), later, timeout) == surviving(
            sessions,
            later,
            timeout,
        ),
{
    assert(surviving(surviving(sessions, earlier, timeout), later, timeout) =~= surviving(
        sessions,
        later,
        timeout,
    ));
}

/// An OPTIONS in a dialog keeps its session through every check within the time allowed, whichever
/// side sends it, and leaves the other sessions alone.
pub proof fn options_keeps_the_session(
    sessions: Sessions,
    id: DialogIdView,
    named: DialogIdView,
    now: nat,
    later: nat,
    timeout: nat,
)
    requires
        same_dialog(id, named),
        sessions.contains_key(id.key()),
        later <= now + timeout,
    ensures
        surviving(options_noted(sessions, Some(named), now), later, timeout).contains_key(id.key()),
        options_noted(sessions, Some(named), now)[id.key()] == sessions[id.key()].touched(now),
        options_noted(sessions, Some(named), now).remove(id.key()) == sessions.remove(id.key()),
{
    lemma_same_dialog_is_same_key(id, named);
    assert(options_noted(sessions, Some(named), now).remove(id.key()) =~= sessions.remove(
        id.key(),
    ));
}

/// A call that is accepted is a session from that moment on, and stays one through every check
/// within the time allowed. A BYE of either side in its dialog goes to the callee.
pub proof fn accepted_call_is_a_session(
    sessions: Sessions,
    id: DialogIdView,
    leg: LegView,
    response: ResponseView,
    now: nat,
    later: nat,
    timeout: nat,
    named: DialogIdView,
)
    requires
        response.successful(),
        later <= now + timeout,
        same_dialog(id, named),
    ensures
        ({
            let event = CallEventView::ClientMessage(Some(MessageView::Response(response)), now);
            let after = relay_step(sessions, id, leg, event).sessions;
            let kept = surviving(after, later, timeout);
            &&& kept.contains_key(id.key())
            &&& kept[id.key()] == answered_session(id, leg, now)
            &&& bye_begun(kept, Some(named)) == (
                CallStateView::ByeLookup(named),
                CallActionView::Lookup(leg.callee, None),
            )
        }),
{
    lemma_same_dialog_is_same_key(id, named);
}

/// A response that does not accept the call makes no session; it is passed on all the same.
pub proof fn other_responses_make_no_session(
    sessions: Sessions,
    id: DialogIdView,
    leg: LegView,
    response: ResponseView,
    now: nat,
)
    requires
        !response.successful(),
    ensures
        relay_step(
            sessions,
            id,
            leg,
            CallEventView::ClientMessage(Some(MessageView::Response(response)), now),
        ) == (Step {
            sessions,
            outcome: (
                CallStateView::InviteRespond(id, leg),
                CallActionView::Respond(response.relayed()),
            ),
        }),
{
}

/// A BYE whose response has been passed on, or that gets none, ends its session: the next BYE in
/// the dialog, of either side, is told that there is no such call.
pub proof fn bye_ends_the_session(
    sessions: Sessions,
    request: RequestView,
    id: DialogIdView,
    named: DialogIdView,
    now: nat,
)
    requires
        same_dialog(id, named),
    ensures
        ({
            let passed_on = bye_step(
                sessions,
                request,
                CallStateView::ByeRespond(id),
                CallEventView::Responded(Ok(())),
            );
            let unanswered = bye_step(
                sessions,
                request,
                CallStateView::ByeResponse(id),
                CallEventView::ClientMessage(None, now),
            );
            &&& passed_on.sessions == sessions.remove(id.key())
            &&& unanswered.sessions == sessions.remove(id.key())
            &&& bye_begun(sessions.remove(id.key()), Some(named)) == answered(
                StatusCode::CallTransactionDoesNotExist,
            )
        }),
{
    lemma_same_dialog_is_same_key(id, named);
}

/// Whether every session is that of the dialog under which it is found.
pub open spec fn keyed(sessions: Sessions) -> bool {
    forall|key: DialogKey| #[trigger]
        sessions.contains_key(key) ==> sessions[key].dialog_id.key() == key
}

/// Every session is that of the dialog under which it is found: so it is with no sessions, and so
/// it stays whatever is done.
pub proof fn sessions_stay_keyed(
    config: ProxyConfig,
    sessions: Sessions,
    request: RequestView,
    state: CallStateView,
    event: CallEventView,
    now: nat,
    timeout: nat,
)
    requires
        keyed(sessions),
        state.expects(event),
    ensures
        keyed(Map::empty()),
        keyed(begun(sessions, request, now).sessions),
        keyed(stepped(config, sessions, request, state, event).sessions),
        keyed(surviving(sessions, now, timeout)),
{
}

/// The dialog whose session a step in this state may change.
pub open spec fn dialog_of(state: CallStateView) -> Option<DialogIdView> {
    match state {
        CallStateView::InviteRelay(id, _) => Some(id),
        CallStateView::ByeResponse(id) => Some(id),
        CallStateView::ByeRespond(id) => Some(id),
        _ => None,
    }
}

/// The dialog whose session the beginning of the handling may change.
pub open spec fn dialog_touched_by(request: RequestView) -> Option<DialogIdView> {
    if request.method == Method::Options {
        request.dialog_id()
    } else {
        None
    }
}

/// Whether the dialog has the same session, or none, in both.
pub open spec fn agree_on(a: Sessions, b: Sessions, key: DialogKey) -> bool {
    &&& a.contains_key(key) <==> b.contains_key(key)
    &&& a.contains_key(key) ==> a[key] == b[key]
}

/// A step changes no session but that of the dialog of its transaction.
pub proof fn steps_leave_other_dialogs_alone(
    config: ProxyConfig,
    sessions: Sessions,
    request: RequestView,
    state: CallStateView,
    event: CallEventView,
    now: nat,
    key: DialogKey,
)
    requires
        state.expects(event),
    ensures
        !agree_on(stepped(config, sessions, request, state, event).sessions, sessions, key) ==> (
        dialog_of(state) matches Some(id) && id.key() == key),
        !agree_on(begun(sessions, request, now).sessions, sessions, key) ==> (dialog_touched_by(
            request,
        ) matches Some(id) && id.key() == key),
{
}

/// A session comes up only where a call is accepted, and goes only where a BYE is done with.
pub proof fn only_invite_adds_and_only_bye_removes(
    config: ProxyConfig,
    sessions: Sessions,
    request: RequestView,
    state: CallStateView,
    event: CallEventView,
    now: nat,
    key: DialogKey,
)
    requires
        state.expects(event),
    ensures
        ({
            let after = stepped(config, sessions, request, state, event).sessions;
            &&& !sessions.contains_key(key) && after.contains_key(key) ==> {
                &&& state matches CallStateView::InviteRelay(id, _) && id.key() == key
                &&& event matches CallEventView::ClientMessage(
                    Some(MessageView::Response(response)),
                    _,
                ) && response.successful()
            }
            &&& sessions.contains_key(key) && !after.contains_key(key) ==> {
                ||| state matches CallStateView::ByeRespond(id) && id.key() == key
                    && event matches CallEventView::Responded(Ok(_))
                ||| state matches CallStateView::ByeResponse(id) && id.key() == key
                    && event matches CallEventView::ClientMessage(None, _)
            }
        }),
        begun(sessions, request, now).sessions.contains_key(key) <==> sessions.contains_key(key),
{
}

/// Whether the event is one that can come of the action. A locator that finds a user gives at least
/// one location.
pub open spec fn prompts(action: CallActionView, event: CallEventView) -> bool {
    match action {
        CallActionView::CheckRealm(_) => event is RealmChecked,
        CallActionView::Lookup(_, _) => {
            event matches CallEventView::Located(found) && (found matches Some(locations)
                ==> locations.len() > 0)
        },
        CallActionView::InspectMedia(_) => event is MediaInspected,
        CallActionView::RouteInvite(_) => event is RouteBuilt,
        CallActionView::RouteVia => event is RouteBuilt,
        CallActionView::Forward(_) => event is Sent,
        CallActionView::ForwardAck(_) => event is Sent,
        CallActionView::Reply(_, _) => event is Replied,
        CallActionView::Respond(_) => event is Responded,
        CallActionView::AwaitServer => event is ServerMessage,
        CallActionView::AwaitClient => event is ClientMessage,
        CallActionView::AwaitEither => {
            event is ServerMessage || event is ClientMessage || event is ClientTerminated
        },
        CallActionView::CheckAnswered => event is Answered,
        CallActionView::Finish(_, _) => false,
    }
}

/// Whether the action asks for exactly the events that can come in the state, and for none only
/// where the handling is over.
pub open spec fn fits(outcome: Outcome) -> bool {
    &&& forall|event: CallEventView|
        #![trigger prompts(outcome.1, event)]
        #![trigger outcome.0.expects(event)]
        prompts(outcome.1, event) <==> outcome.0.expects(event)
    &&& outcome.1 is Finish <==> outcome.0 is Finished
}

/// Whoever carries out each action and hands back what came of it never hands back an event that
/// cannot come in the state; and the handling asks for nothing more exactly when it is over.
pub proof fn actions_fit_states(
    config: ProxyConfig,
    sessions: Sessions,
    request: RequestView,
    state: CallStateView,
    event: CallEventView,
    now: nat,
)
    requires
        state.expects(event),
    ensures
        fits(begun(sessions, request, now).outcome),
        fits(stepped(config, sessions, request, state, event).outcome),
{
    assert(fits(begun(sessions, request, now).outcome)) by {
        match request.method {
            Method::Invite => {},
            Method::Bye => {},
            _ => {},
        }
    }
    match state {
        CallStateView::InviteRelay(id, leg) => {},
        CallStateView::FinalReply => {},
        _ => {
            if is_bye(state) {
                assert(fits(bye_step(sessions, request, state, event).outcome));
            } else {
                assert(fits(invite_outcome(config, request, state, event)));
            }
        },
    }
}

/// Whether the state is one of the handling of a request with the given method.
pub open spec fn handles(method: Method, state: CallStateView) -> bool {
    match method {
        Method::Invite => !is_bye(state) && !(state is FinalReply),
        Method::Bye => is_bye(state) || state is FinalReply || state is Finished,
        Method::Options | Method::Cancel => state is FinalReply || state is Finished,
        _ => state is Finished,
    }
}

/// A transaction keeps to the states of its method from beginning to end.
pub proof fn states_keep_to_the_method(
    config: ProxyConfig,
    sessions: Sessions,
    request: RequestView,
    state: CallStateView,
    event: CallEventView,
    now: nat,
)
    requires
        state.expects(event),
        handles(request.method, state),
    ensures
        handles(request.method, begun(sessions, request, now).outcome.0),
        handles(request.method, stepped(config, sessions, request, state, event).outcome.0),
{
}

/// The dialog that the state is about.
pub open spec fn dialog_in(state: CallStateView) -> Option<DialogIdView> {
    match state {
        CallStateView::InviteRelay(id, _) => Some(id),
        CallStateView::InviteRespond(id, _) => Some(id),
        CallStateView::InviteAckRoute(id, _, _) => Some(id),
        CallStateView::InviteAckSend(id, _) => Some(id),
        CallStateView::ByeLookup(id) => Some(id),
        CallStateView::ByeRoute(id, _) => Some(id),
        CallStateView::ByeSend(id) => Some(id),
        CallStateView::ByeResponse(id) => Some(id),
        CallStateView::ByeRespond(id) => Some(id),
        _ => None,
    }
}

/// The located call that the state is about.
pub open spec fn leg_in(state: CallStateView) -> Option<LegView> {
    match state {
        CallStateView::InviteMedia(leg) => Some(leg),
        CallStateView::InviteRoute(leg) => Some(leg),
        CallStateView::InviteSend(leg) => Some(leg),
        CallStateView::InviteRelay(_, leg) => Some(leg),
        CallStateView::InviteRespond(_, leg) => Some(leg),
        CallStateView::InviteAckRoute(_, leg, _) => Some(leg),
        CallStateView::InviteAckSend(_, leg) => Some(leg),
        _ => None,
    }
}

/// Whether the state is about no other dialog than the one that the request names.
pub open spec fn in_own_dialog(request: RequestView, state: CallStateView) -> bool {
    dialog_in(state) is Some ==> dialog_in(state) == request.dialog_id()
}

/// A transaction makes, keeps and ends no other session than that of the dialog which its request
/// names.
pub proof fn transactions_stay_in_their_dialog(
    config: ProxyConfig,
    sessions: Sessions,
    request: RequestView,
    state: CallStateView,
    event: CallEventView,
    now: nat,
)
    requires
        state.expects(event),
        in_own_dialog(request, state),
    ensures
        in_own_dialog(request, begun(sessions, request, now).outcome.0),
        in_own_dialog(request, stepped(config, sessions, request, state, event).outcome.0),
        dialog_of(state) is Some ==> dialog_of(state) == request.dialog_id(),
{
}

/// Once the callee has been located, a call keeps its parties and its destination, and what is sent
/// on, the acknowledgements too, goes there.
pub proof fn calls_keep_their_destination(
    config: ProxyConfig,
    sessions: Sessions,
    request: RequestView,
    state: CallStateView,
    event: CallEventView,
)
    requires
        state.expects(event),
        leg_in(state) is Some,
    ensures
        ({
            let (next_state, next_action) = stepped(config, sessions, request, state, event).outcome;
            &&& leg_in(next_state) is Some ==> leg_in(next_state) == leg_in(state)
            &&& next_action matches CallActionView::Forward(outgoing) ==> outgoing.destination
                == leg_in(state)->0.destination
            &&& next_action matches CallActionView::ForwardAck(outgoing) ==> outgoing.destination
                == leg_in(state)->0.destination
        }),
{
}

/// Whether the module has something to do for requests with the method.
pub open spec fn is_handled(method: Method) -> bool {
    ||| method == Method::Invite
    ||| method == Method::Bye
    ||| method == Method::Options
    ||| method == Method::Ack
    ||| method == Method::Cancel
}

/// A request is left to the next module exactly when the module has nothing to do for its method;
/// that is known at once. Any other handling ends with the transaction dealt with, whether or not
/// it failed, or, where an INVITE failed and not even that could be answered, with the error.
pub proof fn handling_ends_well(
    config: ProxyConfig,
    sessions: Sessions,
    request: RequestView,
    state: CallStateView,
    event: CallEventView,
    now: nat,
)
    requires
        state.expects(event),
    ensures
        begun(sessions, request, now).outcome == finished(Ok(ProxyAction::Continue), None)
            <==> !is_handled(request.method),
        begun(sessions, request, now).outcome.1 matches CallActionView::Finish(result, failure)
            ==> result is Ok && failure is None,
        stepped(config, sessions, request, state, event).outcome.1 matches CallActionView::Finish(
            result,
            failure,
        ) ==> match result {
            Ok(action) => action == ProxyAction::Abort,
            Err(error) => failure is Some && state is InviteFailedReply && (
            event matches CallEventView::Replied(Err(e)) && error == CallErrorView::Stack(e)),
        },
{
}

/// What the event says could not be done.
pub open spec fn error_in(event: CallEventView) -> Option<Seq<char>> {
    match event {
        CallEventView::RouteBuilt(Err(e), _) => Some(e),
        CallEventView::Sent(Err(e)) => Some(e),
        CallEventView::Replied(Err(e)) => Some(e),
        CallEventView::Responded(Err(e)) => Some(e),
        _ => None,
    }
}

/// The error for which no key could be made for the BYE that is to be sent on, if there is one.
pub open spec fn bye_key_error(
    request: RequestView,
    state: CallStateView,
    event: CallEventView,
) -> Option<Seq<char>> {
    match (state, event) {
        (CallStateView::ByeRoute(_, _), CallEventView::RouteBuilt(Ok(via), _)) => {
            match request.routed(via, None).client_key() {
                Ok(_) => None,
                Err(e) => Some(e),
            }
        },
        _ => None,
    }
}

/// The handling of a BYE, an OPTIONS or a CANCEL fails at once, with the error and without a
/// change to the sessions, where something could not be sent, a `Via` header or a key could not be
/// made; and where it comes to an end otherwise, it has not failed.
pub proof fn handling_fails_where_an_error_comes_up(
    config: ProxyConfig,
    sessions: Sessions,
    request: RequestView,
    state: CallStateView,
    event: CallEventView,
)
    requires
        state.expects(event),
        is_bye(state) || state is FinalReply,
    ensures
        ({
            let after = stepped(config, sessions, request, state, event);
            &&& error_in(event) matches Some(e) ==> after == (Step {
                sessions,
                outcome: given_up(CallErrorView::Stack(e)),
            })
            &&& bye_key_error(request, state, event) matches Some(e) ==> after == (Step {
                sessions,
                outcome: given_up(CallErrorView::Stack(e)),
            })
            &&& after.outcome.1 matches CallActionView::Finish(_, failure) ==> (failure is Some
                <==> error_in(event) is Some || bye_key_error(request, state, event) is Some)
        }),
{
}

/// The handling of an INVITE fails at once, with the error and without a change to the sessions,
/// where something could not be sent or a `Via` header could not be made; and once it has failed it
/// ends with that error. Where it comes to an end otherwise, it has not failed.
pub proof fn invite_fails_where_an_error_comes_up(
    config: ProxyConfig,
    sessions: Sessions,
    request: RequestView,
    state: CallStateView,
    event: CallEventView,
)
    requires
        state.expects(event),
        handles(Method::Invite, state),
    ensures
        ({
            let after = stepped(config, sessions, request, state, event);
            &&& !(state is InviteFailedReply) ==> (error_in(event) matches Some(e) ==> after == (
            Step { sessions, outcome: failed(CallErrorView::Stack(e)) }))
            &&& after.outcome.1 matches CallActionView::Finish(_, failure) ==> match state {
                CallStateView::InviteFailed(error) => failure == Some(error),
                CallStateView::InviteFailedReply(error) => failure == Some(error),
                _ => failure is None,
            }
        }),
{
}

/// An INVITE that failed is answered with the error where the caller has had no response, and with
/// nothing where it has had one.
pub proof fn failure_is_told_once(config: ProxyConfig, request: RequestView, error: CallErrorView)
    ensures
        invite_outcome(config, request, failed(error).0, CallEventView::Answered(false)) == (
            CallStateView::InviteFailedReply(error),
            CallActionView::Reply(StatusCode::ServerInternalError, Some(error.text())),
        ),
        invite_outcome(config, request, failed(error).0, CallEventView::Answered(true)) == given_up(
            error,
        ),
        invite_outcome(
            config,
            request,
            CallStateView::InviteFailedReply(error),
            CallEventView::Replied(Ok(())),
        ) == given_up(error),
{
}

/// What a transaction leads to when the events come one after the other, from the given step on;
/// nothing, where one of them cannot come in the state it meets. No other transaction is handled
/// in between.
pub open spec fn run(
    config: ProxyConfig,
    request: RequestView,
    from: Step,
    events: Seq<CallEventView>,
) -> Option<Step>
    decreases events.len(),
{
    if events.len() == 0 {
        Some(from)
    } else if from.outcome.0.expects(events.first()) {
        run(
            config,
            request,
            stepped(config, from.sessions, request, from.outcome.0, events.first()),
            events.drop_first(),
        )
    } else {
        None
    }
}

/// One event more is one step more.
proof fn lemma_run_step(
    config: ProxyConfig,
    request: RequestView,
    from: Step,
    event: CallEventView,
    events: Seq<CallEventView>,
)
    requires
        from.outcome.0.expects(event),
    ensures
        run(config, request, from, seq![event] + events) == run(
            config,
            request,
            stepped(config, from.sessions, request, from.outcome.0, event),
            events,
        ),
{
    assert((seq![event] + events).drop_first() =~= events);
}

/// Events that come after others go on from where those led.
proof fn lemma_run_concat(
    config: ProxyConfig,
    request: RequestView,
    from: Step,
    first: Seq<CallEventView>,
    rest: Seq<CallEventView>,
)
    ensures
        run(config, request, from, first + rest) == match run(config, request, from, first) {
            Some(step) => run(config, request, step, rest),
            None => None,
        },
    decreases first.len(),
{
    if first.len() == 0 {
        assert(first + rest =~= rest);
    } else {
        assert((first + rest).drop_first() =~= first.drop_first() + rest);
        assert((first + rest).first() == first.first());
        if from.outcome.0.expects(first.first()) {
            let next = stepped(config, from.sessions, request, from.outcome.0, first.first());
            lemma_run_concat(config, request, next, first.drop_first(), rest);
        }
    }
}

/// Whether a transaction has done no more than it may: it is in a state of its method and in its
/// own dialog, it asks for what can come, and all sessions but that of its dialog are as they were.
pub open spec fn in_order(before: Sessions, request: RequestView, step: Step) -> bool {
    &&& handles(request.method, step.outcome.0)
    &&& in_own_dialog(request, step.outcome.0)
    &&& fits(step.outcome)
    &&& forall|key: DialogKey|
        !(request.dialog_id() matches Some(id) && id.key() == key) ==> #[trigger] agree_on(
            step.sessions,
            before,
            key,
        )
}

proof fn lemma_run_in_order(
    config: ProxyConfig,
    before: Sessions,
    request: RequestView,
    from: Step,
    events: Seq<CallEventView>,
)
    requires
        in_order(before, request, from),
    ensures
        run(config, request, from, events) matches Some(step) ==> in_order(before, request, step),
    decreases events.len(),
{
    if events.len() > 0 && from.outcome.0.expects(events.first()) {
        let event = events.first();
        let state = from.outcome.0;
        let next = stepped(config, from.sessions, request, state, event);
        states_keep_to_the_method(config, from.sessions, request, state, event, 0);
        transactions_stay_in_their_dialog(config, from.sessions, request, state, event, 0);
        actions_fit_states(config, from.sessions, request, state, event, 0);
        assert forall|key: DialogKey|
            !(request.dialog_id() matches Some(id) && id.key() == key) implies #[trigger] agree_on(
            next.sessions,
            before,
            key,
        ) by {
            steps_leave_other_dialogs_alone(config, from.sessions, request, state, event, 0, key);
            assert(agree_on(from.sessions, before, key));
        }
        lemma_run_in_order(config, before, request, next, events.drop_first());
    }
}

/// From its beginning, and whatever comes, a transaction keeps to the states of its method and to
/// the dialog that its request names, asks for exactly what can come next, and leaves the sessions
/// of all other dialogs as they were.
pub proof fn transactions_stay_in_order(
    config: ProxyConfig,
    sessions: Sessions,
    request: RequestView,
    now: nat,
    events: Seq<CallEventView>,
)
    ensures
        run(config, request, begun(sessions, request, now), events) matches Some(step) ==> in_order(
            sessions,
            request,
            step,
        ),
{
    let first = begun(sessions, request, now);
    assert(handles(request.method, first.outcome.0));
    assert(in_own_dialog(request, first.outcome.0));
    actions_fit_states(
        config,
        sessions,
        request,
        CallStateView::FinalReply,
        CallEventView::Replied(Ok(())),
        now,
    );
    lemma_run_in_order(config, sessions, request, first, events);
}

/// The actions that a transaction asks for when the events come one after the other, from the given
/// step on, up to an event that cannot come in the state it meets.
pub open spec fn trail(
    config: ProxyConfig,
    request: RequestView,
    from: Step,
    events: Seq<CallEventView>,
) -> Seq<CallActionView>
    decreases events.len(),
{
    if events.len() > 0 && from.outcome.0.expects(events.first()) {
        let next = stepped(config, from.sessions, request, from.outcome.0, events.first());
        seq![next.outcome.1] + trail(config, request, next, events.drop_first())
    } else {
        seq![]
    }
}

/// A response of the callee, and when it came.
pub type Answer = (ResponseView, nat);

/// The responses of the callee among the events, in order.
pub open spec fn answers_in(events: Seq<CallEventView>) -> Seq<Answer>
    decreases events.len(),
{
    if events.len() == 0 {
        seq![]
    } else {
        let later = answers_in(events.drop_first());
        match events.first() {
            CallEventView::ClientMessage(Some(MessageView::Response(response)), now) => {
                seq![(response, now)] + later
            },
            _ => later,
        }
    }
}

/// The responses that the actions pass on, in order.
pub open spec fn passed_on(actions: Seq<CallActionView>) -> Seq<ResponseView>
    decreases actions.len(),
{
    if actions.len() == 0 {
        seq![]
    } else {
        let later = passed_on(actions.drop_first());
        match actions.first() {
            CallActionView::Respond(response) => seq![response] + later,
            _ => later,
        }
    }
}

/// The responses as they go back to the caller.
pub open spec fn all_relayed(answers: Seq<Answer>) -> Seq<ResponseView> {
    answers.map_values(|answer: Answer| answer.0.relayed())
}

/// When the last response came that accepts the call, if one does.
pub open spec fn last_accepted(answers: Seq<Answer>) -> Option<nat>
    decreases answers.len(),
{
    if answers.len() == 0 {
        None
    } else if answers.last().0.successful() {
        Some(answers.last().1)
    } else {
        last_accepted(answers.drop_last())
    }
}

/// The sessions after the responses to a call of the parties in the dialog: the call is a session
/// from the last response on that accepts it, if one does.
pub open spec fn recorded(
    sessions: Sessions,
    id: DialogIdView,
    caller: Seq<char>,
    callee: Seq<char>,
    answers: Seq<Answer>,
) -> Sessions {
    match last_accepted(answers) {
        Some(now) => sessions.insert(
            id.key(),
            SessionView { dialog_id: id, last_activity: now, caller, callee },
        ),
        None => sessions,
    }
}

proof fn lemma_last_accepted_first(answer: Answer, later: Seq<Answer>)
    ensures
        last_accepted(seq![answer] + later) == match last_accepted(later) {
            Some(now) => Some(now),
            None => if answer.0.successful() {
                Some(answer.1)
            } else {
                None
            },
        },
    decreases later.len(),
{
    let all = seq![answer] + later;
    if later.len() == 0 {
        assert(all.last() == answer);
        assert(all.drop_last() =~= later);
        assert(last_accepted(later) is None);
    } else {
        assert(all.last() == later.last());
        assert(all.drop_last() =~= seq![answer] + later.drop_last());
        lemma_last_accepted_first(answer, later.drop_last());
    }
}

/// The first response counts, and then the others.
proof fn lemma_recorded_first(
    sessions: Sessions,
    id: DialogIdView,
    caller: Seq<char>,
    callee: Seq<char>,
    answer: Answer,
    later: Seq<Answer>,
)
    ensures
        recorded(sessions, id, caller, callee, seq![answer] + later) == recorded(
            if answer.0.successful() {
                sessions.insert(
                    id.key(),
                    SessionView { dialog_id: id, last_activity: answer.1, caller, callee },
                )
            } else {
                sessions
            },
            id,
            caller,
            callee,
            later,
        ),
{
    lemma_last_accepted_first(answer, later);
    assert(recorded(sessions, id, caller, callee, seq![answer] + later) =~= recorded(
        if answer.0.successful() {
            sessions.insert(
                id.key(),
                SessionView { dialog_id: id, last_activity: answer.1, caller, callee },
            )
        } else {
            sessions
        },
        id,
        caller,
        callee,
        later,
    ));
}

/// In every transaction, whatever comes, the responses of the callee are passed on one for one and
/// in order, each without its first `Via` header, and no other response is passed on.
pub proof fn every_response_is_passed_on(
    config: ProxyConfig,
    request: RequestView,
    from: Step,
    events: Seq<CallEventView>,
)
    requires
        run(config, request, from, events) is Some,
    ensures
        passed_on(trail(config, request, from, events)) == all_relayed(answers_in(events)),
    decreases events.len(),
{
    if events.len() == 0 {
        assert(all_relayed(answers_in(events)) =~= seq![]);
    } else {
        let event = events.first();
        let later = events.drop_first();
        let next = stepped(config, from.sessions, request, from.outcome.0, event);
        every_response_is_passed_on(config, request, next, later);
        let rest = trail(config, request, next, later);
        let actions = trail(config, request, from, events);
        assert(actions == seq![next.outcome.1] + rest);
        assert(actions.drop_first() =~= rest);
        match event {
            CallEventView::ClientMessage(Some(MessageView::Response(response)), now) => {
                assert(next.outcome.1 == CallActionView::Respond(response.relayed()));
                assert(all_relayed(answers_in(events)) =~= seq![response.relayed()] + all_relayed(
                    answers_in(later),
                ));
            },
            _ => {
                assert(!(next.outcome.1 is Respond));
            },
        }
    }
}

/// Whether the state is one of an INVITE of the parties, in the dialog that the request names.
pub open spec fn is_of_call(
    request: RequestView,
    parties: PartiesView,
    state: CallStateView,
) -> bool {
    &&& handles(Method::Invite, state)
    &&& in_own_dialog(request, state)
    &&& leg_in(state) matches Some(leg) ==> leg.caller == parties.caller && leg.callee
        == parties.callee
    &&& state matches CallStateView::InviteRealm(p) ==> p == parties
    &&& state matches CallStateView::InviteLookup(p) ==> p == parties
}

proof fn lemma_invite_records(
    config: ProxyConfig,
    request: RequestView,
    parties: PartiesView,
    id: DialogIdView,
    from: Step,
    events: Seq<CallEventView>,
)
    requires
        is_of_call(request, parties, from.outcome.0),
        request.dialog_id() == Some(id),
    ensures
        run(config, request, from, events) matches Some(step) ==> step.sessions == recorded(
            from.sessions,
            id,
            parties.caller,
            parties.callee,
            answers_in(events),
        ),
    decreases events.len(),
{
    if events.len() > 0 && from.outcome.0.expects(events.first()) {
        let event = events.first();
        let later = events.drop_first();
        let next = stepped(config, from.sessions, request, from.outcome.0, event);
        assert(is_of_call(request, parties, next.outcome.0));
        lemma_invite_records(config, request, parties, id, next, later);
        match event {
            CallEventView::ClientMessage(Some(MessageView::Response(response)), now) => {
                lemma_recorded_first(
                    from.sessions,
                    id,
                    parties.caller,
                    parties.callee,
                    (response, now),
                    answers_in(later),
                );
            },
            _ => {},
        }
    }
}

/// Whatever comes in an INVITE, acknowledgements and failures too, the call is a session of the
/// caller and the callee exactly if some response accepted it, with the last such response as its
/// last activity.
pub proof fn invite_records_the_last_acceptance(
    config: ProxyConfig,
    sessions: Sessions,
    request: RequestView,
    parties: PartiesView,
    id: DialogIdView,
    began: nat,
    events: Seq<CallEventView>,
)
    requires
        request.method == Method::Invite,
        steps::parties(caller_of(request), callee_of(request)) == Ok::<_, CallErrorView>(parties),
        request.dialog_id() == Some(id),
    ensures
        run(config, request, begun(sessions, request, began), events) matches Some(step)
            ==> step.sessions == recorded(
            sessions,
            id,
            parties.caller,
            parties.callee,
            answers_in(events),
        ),
{
    let first = begun(sessions, request, began);
    lemma_invite_records(config, request, parties, id, first, events);
}

/// The events of an INVITE up to where the request for the callee is made. The session description
/// is looked through only where that is needed.
pub open spec fn forwarding_events(
    config: ProxyConfig,
    request: RequestView,
    locations: Seq<LocationView>,
    private: Option<bool>,
    via: Seq<char>,
    record_route: Option<Seq<char>>,
) -> Seq<CallEventView> {
    let inspected = if sdp_to_inspect(config.media_proxy.mode, request) is Some {
        seq![CallEventView::MediaInspected(private)]
    } else {
        seq![]
    };
    seq![CallEventView::RealmChecked(true), CallEventView::Located(Some(locations))] + inspected
        + seq![CallEventView::RouteBuilt(Ok(via), record_route)]
}

/// The events of responses that come one after the other, each of which can be passed on.
pub open spec fn relaying_events(answers: Seq<Answer>) -> Seq<CallEventView>
    decreases answers.len(),
{
    if answers.len() == 0 {
        seq![]
    } else {
        seq![
            CallEventView::ClientMessage(
                Some(MessageView::Response(answers.first().0)),
                answers.first().1,
            ),
            CallEventView::Responded(Ok(())),
        ] + relaying_events(answers.drop_first())
    }
}

proof fn lemma_relaying(
    config: ProxyConfig,
    request: RequestView,
    id: DialogIdView,
    leg: LegView,
    sessions: Sessions,
    answers: Seq<Answer>,
)
    ensures
        run(
            config,
            request,
            Step {
                sessions,
                outcome: (CallStateView::InviteRelay(id, leg), CallActionView::AwaitEither),
            },
            relaying_events(answers),
        ) == Some(
            Step {
                sessions: recorded(sessions, id, leg.caller, leg.callee, answers),
                outcome: (CallStateView::InviteRelay(id, leg), CallActionView::AwaitEither),
            },
        ),
    decreases answers.len(),
{
    if answers.len() > 0 {
        let from = Step {
            sessions,
            outcome: (CallStateView::InviteRelay(id, leg), CallActionView::AwaitEither),
        };
        let answer = answers.first();
        let later = relaying_events(answers.drop_first());
        let came = CallEventView::ClientMessage(
            Some(MessageView::Response(answer.0)),
            answer.1,
        );
        let responded = CallEventView::Responded(Ok(()));
        let passing = stepped(config, sessions, request, from.outcome.0, came);
        let next = stepped(config, passing.sessions, request, passing.outcome.0, responded);
        assert(relaying_events(answers) =~= seq![came] + (seq![responded] + later));
        lemma_run_step(config, request, from, came, seq![responded] + later);
        lemma_run_step(config, request, passing, responded, later);
        lemma_relaying(config, request, id, leg, next.sessions, answers.drop_first());
        assert(answers =~= seq![answer] + answers.drop_first());
        lemma_recorded_first(
            sessions,
            id,
            leg.caller,
            leg.callee,
            answer,
            answers.drop_first(),
        );
    }
}

proof fn lemma_answers_concat(first: Seq<CallEventView>, rest: Seq<CallEventView>)
    ensures
        answers_in(first + rest) == answers_in(first) + answers_in(rest),
    decreases first.len(),
{
    if first.len() == 0 {
        assert(first + rest =~= rest);
        assert(answers_in(first) + answers_in(rest) =~= answers_in(rest));
    } else {
        assert((first + rest).drop_first() =~= first.drop_first() + rest);
        assert((first + rest).first() == first.first());
        lemma_answers_concat(first.drop_first(), rest);
        assert(answers_in(first + rest) =~= answers_in(first) + answers_in(rest));
    }
}

proof fn lemma_relaying_answers(answers: Seq<Answer>)
    ensures
        answers_in(relaying_events(answers)) == answers,
    decreases answers.len(),
{
    if answers.len() > 0 {
        let events = relaying_events(answers);
        let later = relaying_events(answers.drop_first());
        lemma_relaying_answers(answers.drop_first());
        assert(events.drop_first().drop_first() =~= later);
        assert(events.drop_first().first() == CallEventView::Responded(Ok(())));
        assert(answers_in(events.drop_first()) == answers_in(later));
        assert(answers_in(events) =~= answers);
    }
}

/// Where none of the events is a response of the callee, there are no responses.
proof fn lemma_no_answers(events: Seq<CallEventView>)
    requires
        forall|i: int| 0 <= i < events.len() ==> !((#[trigger] events[i]) is ClientMessage),
    ensures
        answers_in(events) == Seq::<Answer>::empty(),
    decreases events.len(),
{
    if events.len() > 0 {
        assert(!(events[0] is ClientMessage));
        let later = events.drop_first();
        assert forall|i: int| 0 <= i < later.len() implies !((#[trigger] later[i])
            is ClientMessage) by {
            assert(later[i] == events[i + 1]);
        }
        lemma_no_answers(later);
    }
}

/// An INVITE for a callee of the realm goes to the first place at which the callee is found. All
/// responses go back one for one and in order, each without the `Via` header of the proxy, until
/// the transaction with the callee is over. The call is then a session of the caller and the callee
/// exactly if some response accepted it, with the last such response as its last activity.
pub proof fn invite_reaches_the_callee(
    config: ProxyConfig,
    sessions: Sessions,
    request: RequestView,
    parties: PartiesView,
    id: DialogIdView,
    locations: Seq<LocationView>,
    private: Option<bool>,
    via: Seq<char>,
    record_route: Option<Seq<char>>,
    answers: Seq<Answer>,
    began: nat,
)
    requires
        request.method == Method::Invite,
        steps::parties(caller_of(request), callee_of(request)) == Ok::<_, CallErrorView>(parties),
        request.dialog_id() == Some(id),
        locations.len() > 0,
        request.routed(via, record_route).client_key() is Ok,
    ensures
        ({
            let leg = LegView {
                caller: parties.caller,
                callee: parties.callee,
                destination: locations[0].destination,
            };
            let forwarding = forwarding_events(
                config,
                request,
                locations,
                private,
                via,
                record_route,
            );
            let whole = forwarding + seq![CallEventView::Sent(Ok(()))] + relaying_events(answers)
                + seq![CallEventView::ClientTerminated];
            let first = begun(sessions, request, began);
            &&& run(config, request, first, forwarding) == Some(
                Step {
                    sessions,
                    outcome: (
                        CallStateView::InviteSend(leg),
                        CallActionView::Forward(
                            OutgoingView {
                                request: request.routed(via, record_route),
                                key: request.routed(via, record_route).client_key()->Ok_0,
                                destination: locations[0].destination,
                            },
                        ),
                    ),
                },
            )
            &&& run(config, request, first, whole) == Some(
                Step {
                    sessions: match last_accepted(answers) {
                        Some(now) => sessions.insert(id.key(), answered_session(id, leg, now)),
                        None => sessions,
                    },
                    outcome: aborted(),
                },
            )
            &&& passed_on(trail(config, request, first, whole)) == all_relayed(answers)
        }),
{
    let leg = LegView {
        caller: parties.caller,
        callee: parties.callee,
        destination: locations[0].destination,
    };
    let forwarding = forwarding_events(config, request, locations, private, via, record_route);
    let first = begun(sessions, request, began);
    let realm = CallEventView::RealmChecked(true);
    let located = CallEventView::Located(Some(locations));
    let inspected = CallEventView::MediaInspected(private);
    let built = CallEventView::RouteBuilt(Ok(via), record_route);
    let sent = CallEventView::Sent(Ok(()));
    let over = CallEventView::ClientTerminated;
    let looked_up = stepped(config, sessions, request, first.outcome.0, realm);
    let found = stepped(config, sessions, request, looked_up.outcome.0, located);
    let end = seq![built] + seq![];
    if sdp_to_inspect(config.media_proxy.mode, request) is Some {
        let seen = stepped(config, sessions, request, CallStateView::InviteMedia(leg), inspected);
        assert(forwarding =~= seq![realm] + (seq![located] + (seq![inspected] + end)));
        lemma_run_step(config, request, first, realm, seq![located] + (seq![inspected] + end));
        lemma_run_step(config, request, looked_up, located, seq![inspected] + end);
        lemma_run_step(config, request, found, inspected, end);
        lemma_run_step(config, request, seen, built, seq![]);
    } else {
        assert(forwarding =~= seq![realm] + (seq![located] + end));
        lemma_run_step(config, request, first, realm, seq![located] + end);
        lemma_run_step(config, request, looked_up, located, end);
        lemma_run_step(config, request, found, built, seq![]);
    }
    let ready = stepped(config, sessions, request, CallStateView::InviteRoute(leg), built);
    let relaying = stepped(config, sessions, request, CallStateView::InviteSend(leg), sent);
    let relayed = relaying_events(answers);
    let done = Step {
        sessions: recorded(sessions, id, leg.caller, leg.callee, answers),
        outcome: relaying.outcome,
    };
    let whole = forwarding + seq![sent] + relayed + seq![over];
    assert(whole =~= forwarding + (seq![sent] + (relayed + (seq![over] + seq![]))));
    lemma_run_concat(
        config,
        request,
        first,
        forwarding,
        seq![sent] + (relayed + (seq![over] + seq![])),
    );
    lemma_run_step(config, request, ready, sent, relayed + (seq![over] + seq![]));
    lemma_relaying(config, request, id, leg, sessions, answers);
    lemma_run_concat(config, request, relaying, relayed, seq![over] + seq![]);
    lemma_run_step(config, request, done, over, seq![]);
    every_response_is_passed_on(config, request, first, whole);
    assert(answers_in(whole) == answers) by {
        lemma_no_answers(forwarding + seq![sent]);
        lemma_no_answers(seq![over]);
        lemma_relaying_answers(answers);
        lemma_answers_concat(forwarding + seq![sent] + relayed, seq![over]);
        lemma_answers_concat(forwarding + seq![sent], relayed);
        assert(answers_in(whole) =~= answers);
    }
}

/// An INVITE for a callee of another realm makes no session. A caller that has had no response is
/// told that requests are not passed on, with the reason.
pub proof fn invite_for_another_realm_is_refused(
    config: ProxyConfig,
    sessions: Sessions,
    request: RequestView,
    parties: PartiesView,
    began: nat,
)
    requires
        request.method == Method::Invite,
        steps::parties(caller_of(request), callee_of(request)) == Ok::<_, CallErrorView>(parties),
    ensures
        run(
            config,
            request,
            begun(sessions, request, began),
            seq![CallEventView::RealmChecked(false), CallEventView::Answered(false)],
        ) == Some(
            Step {
                sessions,
                outcome: (
                    CallStateView::InviteFailedReply(forwarding_error(config)),
                    CallActionView::Reply(
                        StatusCode::ServerInternalError,
                        Some(
                            if config.enable_forwarding == Some(true) {
                                "External proxy forwarding not implemented"@
                            } else {
                                "External proxy forwarding is disabled"@
                            },
                        ),
                    ),
                ),
            },
        ),
{
    let first = begun(sessions, request, began);
    let foreign = CallEventView::RealmChecked(false);
    let unanswered = CallEventView::Answered(false);
    let refused = stepped(config, sessions, request, first.outcome.0, foreign);
    assert(seq![foreign] + (seq![unanswered] + seq![]) =~= seq![foreign, unanswered]);
    lemma_run_step(config, request, first, foreign, seq![unanswered] + seq![]);
    lemma_run_step(config, request, refused, unanswered, seq![]);
}

/// An INVITE for a callee of the realm who is not found makes no session. The caller is told so,
/// and the handling is over once that has been acknowledged.
pub proof fn invite_for_an_unknown_callee_is_refused(
    config: ProxyConfig,
    sessions: Sessions,
    request: RequestView,
    parties: PartiesView,
    ack: RequestView,
    began: nat,
)
    requires
        request.method == Method::Invite,
        steps::parties(caller_of(request), callee_of(request)) == Ok::<_, CallErrorView>(parties),
        ack.method == Method::Ack,
    ensures
        ({
            let first = begun(sessions, request, began);
            let unknown = seq![CallEventView::RealmChecked(true), CallEventView::Located(None)];
            let acknowledged = seq![
                CallEventView::Replied(Ok(())),
                CallEventView::ServerMessage(Some(MessageView::Request(ack))),
            ];
            &&& run(config, request, first, unknown) == Some(
                Step {
                    sessions,
                    outcome: (
                        CallStateView::InviteNotFoundReply,
                        CallActionView::Reply(StatusCode::NotFound, None),
                    ),
                },
            )
            &&& run(config, request, first, unknown + acknowledged) == Some(
                Step { sessions, outcome: aborted() },
            )
        }),
{
    let first = begun(sessions, request, began);
    let realm = CallEventView::RealmChecked(true);
    let missing = CallEventView::Located(None);
    let replied = CallEventView::Replied(Ok(()));
    let came = CallEventView::ServerMessage(Some(MessageView::Request(ack)));
    let end = seq![replied] + (seq![came] + seq![]);
    let looked_up = stepped(config, sessions, request, first.outcome.0, realm);
    let not_found = stepped(config, sessions, request, looked_up.outcome.0, missing);
    let told = stepped(config, sessions, request, not_found.outcome.0, replied);
    assert(seq![realm] + (seq![missing] + seq![]) =~= seq![realm, missing]);
    assert(seq![realm] + (seq![missing] + end) =~= seq![realm, missing] + seq![replied, came]);
    lemma_run_step(config, request, first, realm, seq![missing] + seq![]);
    lemma_run_step(config, request, first, realm, seq![missing] + end);
    lemma_run_step(config, request, looked_up, missing, seq![]);
    lemma_run_step(config, request, looked_up, missing, end);
    lemma_run_step(config, request, not_found, replied, seq![came] + seq![]);
    lemma_run_step(config, request, told, came, seq![]);
}

/// A BYE in the dialog of a session goes to the first place at which the callee of the session is
/// found, the response goes back without the `Via` header of the proxy, and with that the session
/// is over.
pub proof fn bye_reaches_the_callee(
    config: ProxyConfig,
    sessions: Sessions,
    request: RequestView,
    id: DialogIdView,
    locations: Seq<LocationView>,
    via: Seq<char>,
    record_route: Option<Seq<char>>,
    response: ResponseView,
    began: nat,
    now: nat,
)
    requires
        request.method == Method::Bye,
        request.dialog_id() == Some(id),
        sessions.contains_key(id.key()),
        locations.len() > 0,
        request.routed(via, None).client_key() is Ok,
    ensures
        ({
            let first = begun(sessions, request, began);
            let sending = seq![
                CallEventView::Located(Some(locations)),
                CallEventView::RouteBuilt(Ok(via), record_route),
            ];
            let answering = seq![
                CallEventView::Sent(Ok(())),
                CallEventView::ClientMessage(Some(MessageView::Response(response)), now),
            ];
            &&& first.outcome.1 == CallActionView::Lookup(sessions[id.key()].callee, None)
            &&& run(config, request, first, sending) == Some(
                Step {
                    sessions,
                    outcome: (
                        CallStateView::ByeSend(id),
                        CallActionView::Forward(
                            OutgoingView {
                                request: request.routed(via, None),
                                key: request.routed(via, None).client_key()->Ok_0,
                                destination: locations[0].destination,
                            },
                        ),
                    ),
                },
            )
            &&& run(config, request, first, sending + answering) == Some(
                Step {
                    sessions,
                    outcome: (
                        CallStateView::ByeRespond(id),
                        CallActionView::Respond(response.relayed()),
                    ),
                },
            )
            &&& run(
                config,
                request,
                first,
                sending + answering + seq![CallEventView::Responded(Ok(()))],
            ) == Some(Step { sessions: sessions.remove(id.key()), outcome: aborted() })
        }),
{
    let first = begun(sessions, request, began);
    let located = CallEventView::Located(Some(locations));
    let built = CallEventView::RouteBuilt(Ok(via), record_route);
    let sent = CallEventView::Sent(Ok(()));
    let came = CallEventView::ClientMessage(Some(MessageView::Response(response)), now);
    let passed = CallEventView::Responded(Ok(()));
    let sending = seq![located, built];
    let answering = seq![sent, came];
    let end = seq![sent] + (seq![came] + seq![]);
    let whole = seq![sent] + (seq![came] + (seq![passed] + seq![]));
    let found = stepped(config, sessions, request, first.outcome.0, located);
    let ready = stepped(config, sessions, request, found.outcome.0, built);
    let awaiting = stepped(config, sessions, request, ready.outcome.0, sent);
    let passing = stepped(config, sessions, request, awaiting.outcome.0, came);
    assert(seq![located] + (seq![built] + seq![]) =~= sending);
    assert(seq![located] + (seq![built] + end) =~= sending + answering);
    assert(seq![located] + (seq![built] + whole) =~= sending + answering + seq![passed]);
    lemma_run_step(config, request, first, located, seq![built] + seq![]);
    lemma_run_step(config, request, first, located, seq![built] + end);
    lemma_run_step(config, request, first, located, seq![built] + whole);
    lemma_run_step(config, request, found, built, seq![]);
    lemma_run_step(config, request, found, built, end);
    lemma_run_step(config, request, found, built, whole);
    lemma_run_step(config, request, ready, sent, seq![came] + seq![]);
    lemma_run_step(config, request, ready, sent, seq![came] + (seq![passed] + seq![]));
    lemma_run_step(config, request, awaiting, came, seq![]);
    lemma_run_step(config, request, awaiting, came, seq![passed] + seq![]);
    lemma_run_step(config, request, passing, passed, seq![]);
}

/// A BYE that goes on to the callee and fails, because no `Via` header or no key can be made, or
/// the request cannot be sent, or the response cannot be passed on, ends with that error, and its
/// session stays as it was.
pub proof fn failed_bye_keeps_the_session(
    config: ProxyConfig,
    sessions: Sessions,
    request: RequestView,
    id: DialogIdView,
    locations: Seq<LocationView>,
    via: Seq<char>,
    record_route: Option<Seq<char>>,
    response: ResponseView,
    error: Seq<char>,
    began: nat,
    now: nat,
)
    requires
        request.method == Method::Bye,
        request.dialog_id() == Some(id),
        sessions.contains_key(id.key()),
        locations.len() > 0,
    ensures
        ({
            let first = begun(sessions, request, began);
            let located = CallEventView::Located(Some(locations));
            let built = CallEventView::RouteBuilt(Ok(via), record_route);
            let sent = CallEventView::Sent(Ok(()));
            let came = CallEventView::ClientMessage(Some(MessageView::Response(response)), now);
            let failure = |e: Seq<char>|
                Some(Step { sessions, outcome: given_up(CallErrorView::Stack(e)) });
            &&& run(
                config,
                request,
                first,
                seq![located, CallEventView::RouteBuilt(Err(error), record_route)],
            ) == failure(error)
            &&& match request.routed(via, None).client_key() {
                Err(e) => run(config, request, first, seq![located, built]) == failure(e),
                Ok(_) => {
                    &&& run(
                        config,
                        request,
                        first,
                        seq![located, built, CallEventView::Sent(Err(error))],
                    ) == failure(error)
                    &&& run(
                        config,
                        request,
                        first,
                        seq![located, built, sent, came, CallEventView::Responded(Err(error))],
                    ) == failure(error)
                },
            }
        }),
{
    let first = begun(sessions, request, began);
    let located = CallEventView::Located(Some(locations));
    let built = CallEventView::RouteBuilt(Ok(via), record_route);
    let not_built = CallEventView::RouteBuilt(Err(error), record_route);
    let sent = CallEventView::Sent(Ok(()));
    let not_sent = CallEventView::Sent(Err(error));
    let came = CallEventView::ClientMessage(Some(MessageView::Response(response)), now);
    let not_passed = CallEventView::Responded(Err(error));
    let found = stepped(config, sessions, request, first.outcome.0, located);
    let ready = stepped(config, sessions, request, found.outcome.0, built);
    assert(seq![located] + (seq![not_built] + seq![]) =~= seq![located, not_built]);
    lemma_run_step(config, request, first, located, seq![not_built] + seq![]);
    lemma_run_step(config, request, found, not_built, seq![]);
    assert(seq![located] + (seq![built] + seq![]) =~= seq![located, built]);
    lemma_run_step(config, request, first, located, seq![built] + seq![]);
    lemma_run_step(config, request, found, built, seq![]);
    if request.routed(via, None).client_key() is Ok {
        let awaiting = stepped(config, sessions, request, ready.outcome.0, sent);
        let passing = stepped(config, sessions, request, awaiting.outcome.0, came);
        let end = seq![came] + (seq![not_passed] + seq![]);
        lemma_run_concat(config, request, first, seq![located, built], seq![not_sent] + seq![]);
        assert(seq![located, built] + (seq![not_sent] + seq![]) =~= seq![located, built, not_sent]);
        lemma_run_step(config, request, ready, not_sent, seq![]);
        lemma_run_concat(config, request, first, seq![located, built], seq![sent] + end);
        assert(seq![located, built] + (seq![sent] + end) =~= seq![
            located,
            built,
            sent,
            came,
            not_passed,
        ]);
        lemma_run_step(config, request, ready, sent, end);
        lemma_run_step(config, request, awaiting, came, seq![not_passed] + seq![]);
        lemma_run_step(config, request, passing, not_passed, seq![]);
    }
}

/// One answer ends the handling, which fails exactly if the answer could not be sent.
proof fn lemma_answered(
    config: ProxyConfig,
    request: RequestView,
    sessions: Sessions,
    status: StatusCode,
    result: Result<(), Seq<char>>,
)
    ensures
        run(
            config,
            request,
            Step { sessions, outcome: answered(status) },
            seq![CallEventView::Replied(result)],
        ) == Some(Step { sessions, outcome: concluded(result) }),
{
    let replied = CallEventView::Replied(result);
    let from = Step { sessions, outcome: answered(status) };
    assert(seq![replied] + seq![] =~= seq![replied]);
    lemma_run_step(config, request, from, replied, seq![]);
}

/// A BYE that names no dialog is answered with 400, and one in a dialog without a session with 481.
/// That is all, the sessions stay as they were, and the handling fails exactly if the answer could
/// not be sent.
pub proof fn bye_outside_of_a_session_is_refused(
    config: ProxyConfig,
    sessions: Sessions,
    request: RequestView,
    result: Result<(), Seq<char>>,
    began: nat,
)
    requires
        request.method == Method::Bye,
        request.dialog_id() matches Some(id) ==> !sessions.contains_key(id.key()),
    ensures
        ({
            let first = begun(sessions, request, began);
            &&& first == (Step {
                sessions,
                outcome: answered(
                    if request.dialog_id() is None {
                        StatusCode::BadRequest
                    } else {
                        StatusCode::CallTransactionDoesNotExist
                    },
                ),
            })
            &&& run(config, request, first, seq![CallEventView::Replied(result)]) == Some(
                Step { sessions, outcome: concluded(result) },
            )
        }),
{
    let status = if request.dialog_id() is None {
        StatusCode::BadRequest
    } else {
        StatusCode::CallTransactionDoesNotExist
    };
    lemma_answered(config, request, sessions, status, result);
}

/// A BYE in the dialog of a session whose callee is not found is answered with 404. That is all, the
/// session stays, and the handling fails exactly if the answer could not be sent.
pub proof fn bye_for_an_unknown_callee_is_refused(
    config: ProxyConfig,
    sessions: Sessions,
    request: RequestView,
    id: DialogIdView,
    result: Result<(), Seq<char>>,
    began: nat,
)
    requires
        request.method == Method::Bye,
        request.dialog_id() == Some(id),
        sessions.contains_key(id.key()),
    ensures
        ({
            let first = begun(sessions, request, began);
            let missing = CallEventView::Located(None);
            &&& first == (Step {
                sessions,
                outcome: (
                    CallStateView::ByeLookup(id),
                    CallActionView::Lookup(sessions[id.key()].callee, None),
                ),
            })
            &&& run(config, request, first, seq![missing]) == Some(
                Step { sessions, outcome: answered(StatusCode::NotFound) },
            )
            &&& run(config, request, first, seq![missing, CallEventView::Replied(result)]) == Some(
                Step { sessions, outcome: concluded(result) },
            )
        }),
{
    let first = begun(sessions, request, began);
    let missing = CallEventView::Located(None);
    let replied = CallEventView::Replied(result);
    assert(seq![missing] + seq![] =~= seq![missing]);
    assert(seq![missing] + seq![replied] =~= seq![missing, replied]);
    lemma_run_step(config, request, first, missing, seq![]);
    lemma_run_step(config, request, first, missing, seq![replied]);
    lemma_answered(config, request, sessions, StatusCode::NotFound, result);
}

/// An OPTIONS is answered with 200, and that is all. The session of its dialog, if there is one, has
/// its last activity then, whether or not the answer could be sent; all else stays as it was. The
/// handling fails exactly if the answer could not be sent.
pub proof fn options_is_accepted(
    config: ProxyConfig,
    sessions: Sessions,
    request: RequestView,
    result: Result<(), Seq<char>>,
    now: nat,
)
    requires
        request.method == Method::Options,
    ensures
        ({
            let first = begun(sessions, request, now);
            let after = options_noted(sessions, request.dialog_id(), now);
            &&& first == (Step { sessions: after, outcome: answered(StatusCode::OK) })
            &&& run(config, request, first, seq![CallEventView::Replied(result)]) == Some(
                Step { sessions: after, outcome: concluded(result) },
            )
            &&& after.dom() == sessions.dom()
            &&& forall|key: DialogKey| #[trigger]
                after.contains_key(key) ==> after[key] == if request.dialog_id() matches Some(id)
                    && id.key() == key {
                    sessions[key].touched(now)
                } else {
                    sessions[key]
                }
        }),
{
    let after = options_noted(sessions, request.dialog_id(), now);
    assert(after.dom() =~= sessions.dom());
    lemma_answered(config, request, after, StatusCode::OK, result);
}

/// A CANCEL is answered with 200, and that is all: nothing is sent on, and the sessions stay as they
/// were. The handling fails exactly if the answer could not be sent.
pub proof fn cancel_is_accepted(
    config: ProxyConfig,
    sessions: Sessions,
    request: RequestView,
    result: Result<(), Seq<char>>,
    now: nat,
)
    requires
        request.method == Method::Cancel,
    ensures
        ({
            let first = begun(sessions, request, now);
            &&& first == (Step { sessions, outcome: answered(StatusCode::OK) })
            &&& run(config, request, first, seq![CallEventView::Replied(result)]) == Some(
                Step { sessions, outcome: concluded(result) },
            )
        }),
{
    lemma_answered(config, request, sessions, StatusCode::OK, result);
}

} // verus!
