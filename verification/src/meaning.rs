//! What the mathematical values say of the values that they stand for, and what the words of the
//! model mean, each told in terms of its parts.

use crate::call::{
    callee_view, caller_view, dialog_view, outcome_view, parties_view, CallModule, CallModuleView,
    OPTIONS_INTERVAL, SESSION_TIMEOUT,
};
use crate::dialog::{same_dialog, DialogId, DialogIdView, DialogKey};
use crate::outside::{client_key_text, dialog_id_parts};
use crate::protocol::{
    is_ack, locations_view, message_view, sending_view, CallAction, CallActionView, CallError,
    CallErrorView, CallEvent, CallEventView, CallState, CallStateView, Leg, LegView, Location,
    Outgoing, OutgoingView, Parties, PartiesView, ProxyAction, StatusCode,
};
use crate::sessions::{elapsed, named, surviving, touched, Session, SessionView};
use crate::sip::{
    first_index, first_value, headers_view, is_first, lemma_first_index, record_route_header,
    via_header, without_first, Header, HeaderKind, HeaderView, Message, MessageView, Method,
    Request, RequestView, Response, ResponseView, SipAddr,
};
use crate::steps::{answered_session, options_noted, Sessions};
use crate::text::{occurs_at, occurs_in, option_text, owned_text, result_text};
use vstd::prelude::*;

verus! {

/// A text that may be missing, or an error in its place, is missing or an error in the model too,
/// and is the same text there.
pub proof fn texts_are_kept(text: String, error: String, part: &str)
    ensures
        option_text(Some(part)) == Some(part@),
        option_text(None) is None,
        owned_text(Some(text)) == Some(text@),
        owned_text(None) is None,
        result_text(Ok(text)) == Ok::<_, Seq<char>>(text@),
        result_text(Err(error)) == Err::<Seq<char>, _>(error@),
        sending_view(Ok(())) == Ok::<_, Seq<char>>(()),
        sending_view(Err(error)) == Err::<(), _>(error@),
{
}

/// Whether the text is the part with something, or nothing, before and after it.
pub open spec fn is_around(
    text: Seq<char>,
    before: Seq<char>,
    part: Seq<char>,
    after: Seq<char>,
) -> bool {
    text == before + part + after
}

/// A part occurs in a text exactly if the text is something, the part, and something.
pub proof fn occurring_is_standing_between(part: Seq<char>, text: Seq<char>)
    ensures
        occurs_in(part, text) <==> exists|before: Seq<char>, after: Seq<char>|
            is_around(text, before, part, after),
{
    if occurs_in(part, text) {
        let i = choose|i: int| occurs_at(part, text, i);
        let before = text.take(i);
        let after = text.skip(i + part.len());
        assert(text =~= before + part + after);
        assert(is_around(text, before, part, after));
    }
    if exists|before: Seq<char>, after: Seq<char>| is_around(text, before, part, after) {
        let (before, after) = choose|before: Seq<char>, after: Seq<char>|
            is_around(text, before, part, after);
        let i = before.len() as int;
        assert(text.subrange(i, i + part.len()) =~= part);
        assert(occurs_at(part, text, i));
    }
}

/// A header has the kind of its variant and its own value; only a header of another kind has a name.
pub proof fn headers_are_kept(name: String, value: String)
    ensures
        Header::CSeq(value)@ == (HeaderView {
            kind: HeaderKind::CSeq,
            name: seq![],
            value: value@,
        }),
        Header::CallId(value)@ == (HeaderView {
            kind: HeaderKind::CallId,
            name: seq![],
            value: value@,
        }),
        Header::ContentType(value)@ == (HeaderView {
            kind: HeaderKind::ContentType,
            name: seq![],
            value: value@,
        }),
        Header::From(value)@ == (HeaderView {
            kind: HeaderKind::From,
            name: seq![],
            value: value@,
        }),
        Header::RecordRoute(value)@ == (HeaderView {
            kind: HeaderKind::RecordRoute,
            name: seq![],
            value: value@,
        }),
        Header::To(value)@ == (HeaderView { kind: HeaderKind::To, name: seq![], value: value@ }),
        Header::Via(value)@ == (HeaderView { kind: HeaderKind::Via, name: seq![], value: value@ }),
        Header::Other(name, value)@ == (HeaderView {
            kind: HeaderKind::Other,
            name: name@,
            value: value@,
        }),
        via_header(value@) == Header::Via(value)@,
        record_route_header(value@) == Header::RecordRoute(value)@,
{
}

/// A list of headers is the list of what its headers stand for, one for one and in order.
pub proof fn header_lists_are_kept(headers: Seq<Header>)
    ensures
        headers_view(headers).len() == headers.len(),
        forall|i: int| 0 <= i < headers.len() ==> #[trigger] headers_view(headers)[i] == headers[i]@,
{
}

/// Whether none of the headers is of the kind.
pub open spec fn lacks(headers: Seq<HeaderView>, kind: HeaderKind) -> bool {
    forall|i: int| 0 <= i < headers.len() ==> (#[trigger] headers[i]).kind != kind
}

/// The first header of a kind is the one with none of the kind before it: its value counts, and it
/// is what is taken away, with the headers before it and after it left in their order.
pub proof fn the_first_header_counts(
    kind: HeaderKind,
    before: Seq<HeaderView>,
    header: HeaderView,
    after: Seq<HeaderView>,
)
    requires
        lacks(before, kind),
        header.kind == kind,
    ensures
        first_index(before + seq![header] + after, kind) == Some(before.len() as int),
        first_value(before + seq![header] + after, kind) == Some(header.value),
        without_first(before + seq![header] + after, kind) == before + after,
{
    let headers = before + seq![header] + after;
    let i = before.len() as int;
    assert forall|j: int| 0 <= j < i implies (#[trigger] headers[j]).kind != kind by {
        assert(headers[j] == before[j]);
    }
    assert(is_first(headers, kind, i));
    lemma_first_index(headers, kind, i);
    assert(headers.remove(i) =~= before + after);
}

/// Where no header is of the kind, none is found, and none is taken away.
pub proof fn a_missing_header_is_missing(headers: Seq<HeaderView>, kind: HeaderKind)
    requires
        lacks(headers, kind),
    ensures
        first_index(headers, kind) is None,
        first_value(headers, kind) is None,
        without_first(headers, kind) == headers,
{
}

/// A header of another kind in front changes nothing for the headers of a kind.
pub proof fn lemma_first_value_behind(
    header: HeaderView,
    headers: Seq<HeaderView>,
    kind: HeaderKind,
)
    requires
        header.kind != kind,
    ensures
        first_value(seq![header] + headers, kind) == first_value(headers, kind),
{
    let all = seq![header] + headers;
    if exists|i: int| is_first(headers, kind, i) {
        let i = choose|i: int| is_first(headers, kind, i);
        lemma_first_index(headers, kind, i);
        assert forall|j: int| 0 <= j < i + 1 implies (#[trigger] all[j]).kind != kind by {
            if j > 0 {
                assert(all[j] == headers[j - 1]);
            }
        }
        assert(is_first(all, kind, i + 1));
        lemma_first_index(all, kind, i + 1);
    } else if exists|i: int| is_first(all, kind, i) {
        let i = choose|i: int| is_first(all, kind, i);
        assert(all[i].kind == kind);
        assert forall|j: int| 0 <= j < i - 1 implies (#[trigger] headers[j]).kind != kind by {
            assert(all[j + 1] == headers[j]);
        }
        assert(is_first(headers, kind, i - 1));
    }
}

/// A request that is routed has the `Via` header in front, and in front of that the `Record-Route`
/// header where there is one; the headers it had follow, and nothing else is changed.
pub proof fn routing_is_putting_in_front(
    request: RequestView,
    via: Seq<char>,
    record_route: Seq<char>,
)
    ensures
        request.routed(via, None) == (RequestView {
            method: request.method,
            uri: request.uri,
            headers: seq![HeaderView { kind: HeaderKind::Via, name: seq![], value: via }]
                + request.headers,
            body: request.body,
        }),
        request.routed(via, Some(record_route)) == (RequestView {
            method: request.method,
            uri: request.uri,
            headers: seq![
                HeaderView { kind: HeaderKind::RecordRoute, name: seq![], value: record_route },
                HeaderView { kind: HeaderKind::Via, name: seq![], value: via },
            ] + request.headers,
            body: request.body,
        }),
{
}

/// The key of a request that is routed is made of its method, of the `Via` header that was put in
/// front, and of the first `From`, `Call-ID` and `CSeq` headers that it had before; the
/// `Record-Route` header plays no part.
pub proof fn keys_go_by_the_new_via(
    request: RequestView,
    via: Seq<char>,
    record_route: Option<Seq<char>>,
)
    ensures
        request.routed(via, record_route).client_key() == client_key_text(
            request.method.token(),
            Some(via),
            request.header(HeaderKind::From),
            request.header(HeaderKind::CallId),
            request.header(HeaderKind::CSeq),
        ),
{
    let own = HeaderView { kind: HeaderKind::Via, name: Seq::<char>::empty(), value: via };
    let behind = seq![own] + request.headers;
    assert(lacks(Seq::<HeaderView>::empty(), HeaderKind::Via));
    the_first_header_counts(HeaderKind::Via, seq![], own, request.headers);
    assert(seq![] + seq![own] + request.headers =~= behind);
    lemma_first_value_behind(own, request.headers, HeaderKind::From);
    lemma_first_value_behind(own, request.headers, HeaderKind::CallId);
    lemma_first_value_behind(own, request.headers, HeaderKind::CSeq);
    if let Some(route) = record_route {
        let added = HeaderView {
            kind: HeaderKind::RecordRoute,
            name: Seq::<char>::empty(),
            value: route,
        };
        assert(request.routed(via, record_route).headers =~= seq![added] + behind);
        lemma_first_value_behind(added, behind, HeaderKind::Via);
        lemma_first_value_behind(added, behind, HeaderKind::From);
        lemma_first_value_behind(added, behind, HeaderKind::CallId);
        lemma_first_value_behind(added, behind, HeaderKind::CSeq);
    } else {
        assert(request.routed(via, record_route).headers =~= behind);
    }
}

/// The key of a request is made of its method and of its first `Via`, `From`, `Call-ID` and `CSeq`
/// headers: requests that agree on these have the same key, whatever else they hold.
pub proof fn keys_go_by_five_things(request: RequestView, other: RequestView)
    ensures
        request.client_key() == client_key_text(
            request.method.token(),
            request.header(HeaderKind::Via),
            request.header(HeaderKind::From),
            request.header(HeaderKind::CallId),
            request.header(HeaderKind::CSeq),
        ),
        request.method == other.method && request.header(HeaderKind::Via) == other.header(
            HeaderKind::Via,
        ) && request.header(HeaderKind::From) == other.header(HeaderKind::From) && request.header(
            HeaderKind::CallId,
        ) == other.header(HeaderKind::CallId) && request.header(HeaderKind::CSeq) == other.header(
            HeaderKind::CSeq,
        ) ==> request.client_key() == other.client_key(),
{
}

/// The value of the first header of a kind is that of the first such header in the list.
pub proof fn requests_are_read_by_their_first_headers(request: RequestView, kind: HeaderKind)
    ensures
        request.header(kind) == first_value(request.headers, kind),
{
}

/// A response accepts the call exactly if its status is at least 200 and below 300, whatever it
/// holds.
pub proof fn success_is_a_matter_of_the_status(response: ResponseView)
    ensures
        response.successful() <==> 200 <= response.status && response.status < 300,
{
}

/// A response goes back as it came but for its first `Via` header.
pub proof fn responses_go_back_without_the_first_via(
    status: u16,
    body: Seq<u8>,
    before: Seq<HeaderView>,
    own: HeaderView,
    after: Seq<HeaderView>,
)
    requires
        lacks(before, HeaderKind::Via),
        own.kind == HeaderKind::Via,
    ensures
        (ResponseView { status, headers: before + seq![own] + after, body }).relayed() == (
        ResponseView { status, headers: before + after, body }),
        (ResponseView { status, headers: before, body }).relayed() == (ResponseView {
            status,
            headers: before,
            body,
        }),
{
    the_first_header_counts(HeaderKind::Via, before, own, after);
}

/// Messages and addresses are kept part by part.
pub proof fn messages_are_kept(request: Request, response: Response, addr: SipAddr)
    ensures
        request@ == (RequestView {
            method: request.method,
            uri: request.uri@,
            headers: headers_view(request.headers@),
            body: request.body@,
        }),
        response@ == (ResponseView {
            status: response.status,
            headers: headers_view(response.headers@),
            body: response.body@,
        }),
        Message::Request(request)@ == MessageView::Request(request@),
        Message::Response(response)@ == MessageView::Response(response@),
        message_view(Some(Message::Request(request))) == Some(MessageView::Request(request@)),
        message_view(Some(Message::Response(response))) == Some(MessageView::Response(response@)),
        message_view(None) is None,
        addr@.addr == addr.addr@,
        match addr.transport {
            Some(transport) => addr@.transport == Some(transport@),
            None => addr@.transport is None,
        },
{
}

/// A message is an acknowledgement exactly if it is a request with the method ACK.
pub proof fn acknowledgements_are_ack_requests(request: RequestView, response: ResponseView)
    ensures
        is_ack(MessageView::Request(request)) <==> request.method == Method::Ack,
        !is_ack(MessageView::Response(response)),
{
}

/// Different methods have different tokens, and each is the one that a request line has for it.
pub proof fn methods_have_their_tokens()
    ensures
        Method::Ack.token() == "ACK"@,
        Method::Bye.token() == "BYE"@,
        Method::Cancel.token() == "CANCEL"@,
        Method::Info.token() == "INFO"@,
        Method::Invite.token() == "INVITE"@,
        Method::Message.token() == "MESSAGE"@,
        Method::Notify.token() == "NOTIFY"@,
        Method::Options.token() == "OPTIONS"@,
        Method::PRack.token() == "PRACK"@,
        Method::Publish.token() == "PUBLISH"@,
        Method::Refer.token() == "REFER"@,
        Method::Register.token() == "REGISTER"@,
        Method::Subscribe.token() == "SUBSCRIBE"@,
        Method::Update.token() == "UPDATE"@,
        forall|a: Method, b: Method| #[trigger] a.token() == #[trigger] b.token() ==> a == b,
{
    reveal_strlit("ACK");
    reveal_strlit("BYE");
    reveal_strlit("CANCEL");
    reveal_strlit("INFO");
    reveal_strlit("INVITE");
    reveal_strlit("MESSAGE");
    reveal_strlit("NOTIFY");
    reveal_strlit("OPTIONS");
    reveal_strlit("PRACK");
    reveal_strlit("PUBLISH");
    reveal_strlit("REFER");
    reveal_strlit("REGISTER");
    reveal_strlit("SUBSCRIBE");
    reveal_strlit("UPDATE");
    assert forall|a: Method, b: Method| #[trigger] a.token() == #[trigger] b.token() implies a
        == b by {
        let (x, y) = (a.token(), b.token());
        assert(x.len() == y.len() && x[0] == y[0] && x[1] == y[1] && x[2] == y[2]);
    }
}

/// A name keeps the call id and the two tags of the dialog, and names the dialog of that call id
/// and those tags, in whichever order.
pub proof fn dialog_names_are_kept(id: DialogId, a: DialogIdView, b: DialogIdView)
    ensures
        id@ == (DialogIdView {
            call_id: id.call_id@,
            from_tag: id.from_tag@,
            to_tag: id.to_tag@,
        }),
        a.key() == (DialogKey { call_id: a.call_id, tags: set![a.from_tag, a.to_tag] }),
        a.swapped() == (DialogIdView {
            call_id: a.call_id,
            from_tag: a.to_tag,
            to_tag: a.from_tag,
        }),
        same_dialog(a, b) <==> a.call_id == b.call_id && (a.from_tag == b.from_tag && a.to_tag
            == b.to_tag || a.from_tag == b.to_tag && a.to_tag == b.from_tag),
        dialog_view(Some(id)) == Some(id@),
        dialog_view(None) is None,
{
}

/// A request names a dialog exactly if one can be read in its first `Call-ID`, `From` and `To`
/// headers, and the name is what is read there. Requests that agree on these three name the same
/// dialog, whatever their method, their other headers and their body are.
pub proof fn dialogs_go_by_three_headers(request: RequestView, other: RequestView)
    ensures
        match dialog_id_parts(
            request.header(HeaderKind::CallId),
            request.header(HeaderKind::From),
            request.header(HeaderKind::To),
        ) {
            Some((call_id, from_tag, to_tag)) => request.dialog_id() == Some(
                DialogIdView { call_id, from_tag, to_tag },
            ),
            None => request.dialog_id() is None,
        },
        request.header(HeaderKind::CallId) == other.header(HeaderKind::CallId) && request.header(
            HeaderKind::From,
        ) == other.header(HeaderKind::From) && request.header(HeaderKind::To) == other.header(
            HeaderKind::To,
        ) ==> request.dialog_id() == other.dialog_id(),
{
}

/// A session is kept part by part: its dialog, its last activity, its caller, its callee.
pub proof fn sessions_are_kept(session: Session)
    ensures
        session@.dialog_id == session.dialog_id@,
        session@.last_activity == session.last_activity,
        session@.caller == session.parties.0@,
        session@.callee == session.parties.1@,
{
}

/// The session of an accepted call is in its dialog, is alive at that moment, and has the caller
/// and the callee of the call.
pub proof fn accepted_calls_keep_their_parties(id: DialogIdView, leg: LegView, now: nat)
    ensures
        answered_session(id, leg, now).dialog_id == id,
        answered_session(id, leg, now).last_activity == now,
        answered_session(id, leg, now).caller == leg.caller,
        answered_session(id, leg, now).callee == leg.callee,
{
}

/// A session has expired exactly if its last activity and the time allowed lie before the present.
pub proof fn expiry_is_silence(session: SessionView, now: nat, timeout: nat)
    ensures
        session.expired(now, timeout) <==> session.last_activity + timeout < now,
        elapsed(now, session.last_activity) == if now >= session.last_activity {
            now - session.last_activity
        } else {
            0
        },
{
}

/// After a look through the sessions exactly those are left whose last activity lies no longer ago
/// than the time allowed, each one as it was.
pub proof fn checking_leaves_the_rest(
    sessions: Sessions,
    now: nat,
    timeout: nat,
    key: DialogKey,
)
    ensures
        surviving(sessions, now, timeout).contains_key(key) <==> sessions.contains_key(key) && now
            <= sessions[key].last_activity + timeout,
        surviving(sessions, now, timeout).contains_key(key) ==> surviving(
            sessions,
            now,
            timeout,
        )[key] == sessions[key],
{
}

/// Activity in a dialog changes the last activity of its session and nothing else: the dialog, the
/// caller and the callee of the session stay, and so do all other sessions. Where the dialog has
/// no session, none comes up.
pub proof fn activity_changes_the_time_only(
    sessions: Sessions,
    session: SessionView,
    key: DialogKey,
    id: DialogIdView,
    now: nat,
)
    ensures
        session.touched(now) == (SessionView {
            dialog_id: session.dialog_id,
            last_activity: now,
            caller: session.caller,
            callee: session.callee,
        }),
        touched(sessions, key, now).dom() == sessions.dom(),
        sessions.contains_key(key) ==> touched(sessions, key, now)[key] == (SessionView {
            dialog_id: sessions[key].dialog_id,
            last_activity: now,
            caller: sessions[key].caller,
            callee: sessions[key].callee,
        }),
        touched(sessions, key, now).remove(key) == sessions.remove(key),
        options_noted(sessions, Some(id), now) == touched(sessions, id.key(), now),
        options_noted(sessions, None, now) == sessions,
{
    assert(touched(sessions, key, now).dom() =~= sessions.dom());
    assert(touched(sessions, key, now).remove(key) =~= sessions.remove(key));
}

/// A list of names names exactly the dialogs of its members.
pub proof fn lists_name_their_members(ids: Seq<DialogId>, key: DialogKey)
    ensures
        forall|i: int| 0 <= i < ids.len() ==> named(ids, #[trigger] ids[i]@.key()),
        named(ids, key) ==> exists|i: int| 0 <= i < ids.len() && #[trigger] ids[i]@.key() == key,
{
}

/// Every error is kept with its text, and has the text that the caller is told: that of the stack
/// where the stack gave one.
pub proof fn errors_are_kept(text: String, e: Seq<char>)
    ensures
        CallError::MissingFrom@ == CallErrorView::MissingFrom,
        CallError::MissingTo@ == CallErrorView::MissingTo,
        CallError::Header(text)@ == CallErrorView::Header(text@),
        CallError::ForwardingDisabled@ == CallErrorView::ForwardingDisabled,
        CallError::ForwardingNotImplemented@ == CallErrorView::ForwardingNotImplemented,
        CallError::Stack(text)@ == CallErrorView::Stack(text@),
        CallErrorView::MissingFrom.text() == "rsip error: missing header: From"@,
        CallErrorView::MissingTo.text() == "rsip error: missing header: To"@,
        CallErrorView::Header(e).text() == e,
        CallErrorView::ForwardingDisabled.text() == "External proxy forwarding is disabled"@,
        CallErrorView::ForwardingNotImplemented.text()
            == "External proxy forwarding not implemented"@,
        CallErrorView::Stack(e).text() == e,
{
}

/// Each status has its number.
pub proof fn statuses_have_their_numbers()
    ensures
        StatusCode::OK.number() == 200,
        StatusCode::BadRequest.number() == 400,
        StatusCode::NotFound.number() == 404,
        StatusCode::CallTransactionDoesNotExist.number() == 481,
        StatusCode::ServerInternalError.number() == 500,
{
}

/// What is found out about a call is kept part by part.
pub proof fn calls_are_kept(
    locations: Seq<Location>,
    location: Location,
    parties: Parties,
    leg: Leg,
    outgoing: Outgoing,
)
    ensures
        location@.destination == location.destination@,
        locations_view(locations).len() == locations.len(),
        forall|i: int|
            0 <= i < locations.len() ==> #[trigger] locations_view(locations)[i] == locations[i]@,
        parties@ == (PartiesView {
            caller: parties.caller@,
            callee: parties.callee@,
            realm: parties.realm@,
        }),
        leg@ == (LegView {
            caller: leg.caller@,
            callee: leg.callee@,
            destination: leg.destination@,
        }),
        outgoing@ == (OutgoingView {
            request: outgoing.request@,
            key: outgoing.key@,
            destination: outgoing.destination@,
        }),
{
}

/// Who calls and who is called is kept, and so is each error in its place.
pub proof fn parties_are_kept(
    caller: String,
    user: Option<String>,
    realm: String,
    parties: Parties,
    error: CallError,
)
    ensures
        caller_view(Ok(caller)) == Ok::<_, CallErrorView>(caller@),
        caller_view(Err(error)) == Err::<Seq<char>, _>(error@),
        callee_view(Ok((user, realm))) == Ok::<_, CallErrorView>((owned_text(user), realm@)),
        callee_view(Err(error)) == Err::<(Option<Seq<char>>, Seq<char>), _>(error@),
        parties_view(Ok(parties)) == Ok::<_, CallErrorView>(parties@),
        parties_view(Err(error)) == Err::<PartiesView, _>(error@),
{
}

/// A state is kept with all that it holds.
pub proof fn states_are_kept(
    parties: Parties,
    leg: Leg,
    id: DialogId,
    request: Request,
    error: CallError,
    addr: SipAddr,
)
    ensures
        CallState::InviteRealm(parties)@ == CallStateView::InviteRealm(parties@),
        CallState::InviteLookup(parties)@ == CallStateView::InviteLookup(parties@),
        CallState::InviteNotFoundReply@ == CallStateView::InviteNotFoundReply,
        CallState::InviteNotFoundAck@ == CallStateView::InviteNotFoundAck,
        CallState::InviteMedia(leg)@ == CallStateView::InviteMedia(leg@),
        CallState::InviteRoute(leg)@ == CallStateView::InviteRoute(leg@),
        CallState::InviteSend(leg)@ == CallStateView::InviteSend(leg@),
        CallState::InviteNoDialogReply@ == CallStateView::InviteNoDialogReply,
        CallState::InviteRelay(id, leg)@ == CallStateView::InviteRelay(id@, leg@),
        CallState::InviteRespond(id, leg)@ == CallStateView::InviteRespond(id@, leg@),
        CallState::InviteAckRoute(id, leg, request)@ == CallStateView::InviteAckRoute(
            id@,
            leg@,
            request@,
        ),
        CallState::InviteAckSend(id, leg)@ == CallStateView::InviteAckSend(id@, leg@),
        CallState::InviteFailed(error)@ == CallStateView::InviteFailed(error@),
        CallState::InviteFailedReply(error)@ == CallStateView::InviteFailedReply(error@),
        CallState::ByeLookup(id)@ == CallStateView::ByeLookup(id@),
        CallState::ByeRoute(id, addr)@ == CallStateView::ByeRoute(id@, addr@),
        CallState::ByeSend(id)@ == CallStateView::ByeSend(id@),
        CallState::ByeResponse(id)@ == CallStateView::ByeResponse(id@),
        CallState::ByeRespond(id)@ == CallStateView::ByeRespond(id@),
        CallState::FinalReply@ == CallStateView::FinalReply,
        CallState::Finished@ == CallStateView::Finished,
{
}

/// An event is kept with all that it tells.
pub proof fn events_are_kept(
    flag: bool,
    locations: Vec<Location>,
    private: Option<bool>,
    via: Result<String, String>,
    record_route: Option<String>,
    result: Result<(), String>,
    message: Option<Message>,
    now: u128,
)
    ensures
        CallEvent::RealmChecked(flag)@ == CallEventView::RealmChecked(flag),
        CallEvent::Located(Some(locations))@ == CallEventView::Located(
            Some(locations_view(locations@)),
        ),
        CallEvent::Located(None)@ == CallEventView::Located(None),
        CallEvent::MediaInspected(private)@ == CallEventView::MediaInspected(private),
        CallEvent::RouteBuilt(via, record_route)@ == CallEventView::RouteBuilt(
            result_text(via),
            owned_text(record_route),
        ),
        CallEvent::Sent(result)@ == CallEventView::Sent(sending_view(result)),
        CallEvent::Replied(result)@ == CallEventView::Replied(sending_view(result)),
        CallEvent::Responded(result)@ == CallEventView::Responded(sending_view(result)),
        CallEvent::ServerMessage(message)@ == CallEventView::ServerMessage(message_view(message)),
        CallEvent::ClientMessage(message, now)@ == CallEventView::ClientMessage(
            message_view(message),
            now as nat,
        ),
        CallEvent::ClientTerminated@ == CallEventView::ClientTerminated,
        CallEvent::Answered(flag)@ == CallEventView::Answered(flag),
{
}

/// An action is kept with all that it asks for.
pub proof fn actions_are_kept(
    text: String,
    realm: Option<String>,
    flag: bool,
    outgoing: Outgoing,
    status: StatusCode,
    response: Response,
    result: ProxyAction,
    error: CallError,
    failure: CallError,
)
    ensures
        CallAction::CheckRealm(text)@ == CallActionView::CheckRealm(text@),
        CallAction::Lookup(text, realm)@ == CallActionView::Lookup(text@, owned_text(realm)),
        CallAction::InspectMedia(text)@ == CallActionView::InspectMedia(text@),
        CallAction::RouteInvite(flag)@ == CallActionView::RouteInvite(flag),
        CallAction::RouteVia@ == CallActionView::RouteVia,
        CallAction::Forward(outgoing)@ == CallActionView::Forward(outgoing@),
        CallAction::ForwardAck(outgoing)@ == CallActionView::ForwardAck(outgoing@),
        CallAction::Reply(status, realm)@ == CallActionView::Reply(status, owned_text(realm)),
        CallAction::Respond(response)@ == CallActionView::Respond(response@),
        CallAction::AwaitServer@ == CallActionView::AwaitServer,
        CallAction::AwaitClient@ == CallActionView::AwaitClient,
        CallAction::AwaitEither@ == CallActionView::AwaitEither,
        CallAction::CheckAnswered@ == CallActionView::CheckAnswered,
        CallAction::Finish(Ok(result), None)@ == CallActionView::Finish(Ok(result), None),
        CallAction::Finish(Ok(result), Some(failure))@ == CallActionView::Finish(
            Ok(result),
            Some(failure@),
        ),
        CallAction::Finish(Err(error), None)@ == CallActionView::Finish(Err(error@), None),
        CallAction::Finish(Err(error), Some(failure))@ == CallActionView::Finish(
            Err(error@),
            Some(failure@),
        ),
{
}

/// The module is kept part by part, and only its sessions ever change. A session may be silent for
/// five minutes, and the sessions are looked through every thirty seconds.
pub proof fn modules_are_kept(
    module: CallModule,
    before: CallModuleView,
    sessions: Sessions,
    outcome: (CallState, CallAction),
)
    ensures
        module@ == (CallModuleView {
            config: module.inner.config,
            sessions: module.inner.sessions@,
            session_timeout: module.inner.session_timeout as nat,
            options_interval: module.inner.options_interval as nat,
        }),
        before.with_sessions(sessions) == (CallModuleView {
            config: before.config,
            sessions,
            session_timeout: before.session_timeout,
            options_interval: before.options_interval,
        }),
        outcome_view(outcome) == (outcome.0@, outcome.1@),
        SESSION_TIMEOUT == 300 * 1_000_000_000,
        OPTIONS_INTERVAL == 30 * 1_000_000_000,
{
}

} // verus!
