use call_proxy::call::{
    begin_invite, forward_ack, forward_bye, forward_invite, join_parties, read_callee, read_caller,
    relay_invite, CallModule, SESSION_TIMEOUT,
};
use call_proxy::config::{MediaProxyConfig, MediaProxyMode, ProxyConfig};
use call_proxy::dialog::DialogId;
use call_proxy::protocol::{
    CallAction, CallError, CallEvent, CallState, Leg, Location, Outgoing, Parties, ProxyAction,
    StatusCode,
};
use call_proxy::sessions::Session;
use call_proxy::sip::{Header, Message, Method, Request, Response, SipAddr};

const NOW: u128 = 1_000_000_000_000;
const VIA: &str = "SIP/2.0/UDP 10.0.0.2:5060;branch=z9hG4bKours";
const ROUTE: &str = "<sip:10.0.0.2:5060;lr>";

fn module_with(mode: MediaProxyMode, enable_forwarding: Option<bool>) -> CallModule {
    CallModule::new(ProxyConfig { media_proxy: MediaProxyConfig { mode }, enable_forwarding })
}

fn module() -> CallModule {
    module_with(MediaProxyMode::Off, None)
}

fn request(method: Method, from: &str, to: &str) -> Request {
    Request {
        method,
        uri: "sip:alice@example.com".to_string(),
        headers: vec![
            Header::Via("SIP/2.0/UDP 10.0.0.1:5060;branch=z9hG4bKtheirs".to_string()),
            Header::CSeq(format!("3 {}", method.name())),
            Header::From(from.to_string()),
            Header::To(to.to_string()),
            Header::CallId("call-1".to_string()),
        ],
        body: b"hello".to_vec(),
    }
}

const CALLER: &str = "Bob <sip:bob@example.org>;tag=tb";
const CALLEE: &str = "<sip:alice@example.com>;tag=ta";
const CALLEE_UNTAGGED: &str = "<sip:alice@example.com>";

fn invite() -> Request {
    request(Method::Invite, CALLER, CALLEE)
}

fn bye() -> Request {
    request(Method::Bye, CALLER, CALLEE)
}

fn dialog() -> DialogId {
    DialogId {
        call_id: "call-1".to_string(),
        from_tag: "tb".to_string(),
        to_tag: "ta".to_string(),
    }
}

fn place() -> SipAddr {
    SipAddr { transport: None, addr: "192.168.1.100:5060".to_string() }
}

fn locations() -> Option<Vec<Location>> {
    let other = SipAddr { transport: Some("TCP".to_string()), addr: "192.168.1.101".to_string() };
    Some(vec![Location { destination: place() }, Location { destination: other }])
}

fn leg() -> Leg {
    Leg {
        caller: "sip:bob@example.org".to_string(),
        callee: "alice".to_string(),
        destination: place(),
    }
}

fn response(status: u16) -> Response {
    Response {
        status,
        headers: vec![
            Header::Via(VIA.to_string()),
            Header::Via("SIP/2.0/UDP 10.0.0.1:5060;branch=z9hG4bKtheirs".to_string()),
            Header::CallId("call-1".to_string()),
        ],
        body: Vec::new(),
    }
}

fn relayed(status: u16) -> Response {
    let mut relayed = response(status);
    relayed.headers.remove(0);
    relayed
}

fn client(status: u16, now: u128) -> CallEvent {
    CallEvent::ClientMessage(Some(Message::Response(response(status))), now)
}

fn stack_error() -> Result<(), String> {
    Err("transport error".to_string())
}

fn built(record_route: Option<&str>) -> CallEvent {
    CallEvent::RouteBuilt(Ok(VIA.to_string()), record_route.map(|route| route.to_string()))
}

/// Hands the events to the module one after the other.
fn run(module: &mut CallModule, request: &Request, events: Vec<CallEvent>) -> (CallState, CallAction) {
    let mut outcome = module.on_transaction_begin(request, NOW);
    for event in events {
        assert!(outcome.0.accepts(&event), "{:?} in {:?}", event, outcome.0);
        outcome = module.on_event(request, outcome.0, event);
    }
    outcome
}

fn located() -> Vec<CallEvent> {
    vec![CallEvent::RealmChecked(true), CallEvent::Located(locations())]
}

fn relaying() -> Vec<CallEvent> {
    let mut events = located();
    events.push(built(Some(ROUTE)));
    events.push(CallEvent::Sent(Ok(())));
    events
}

fn session(last_activity: u128) -> Session {
    Session {
        dialog_id: dialog(),
        last_activity,
        parties: ("sip:bob@example.org".to_string(), "alice".to_string()),
    }
}

fn module_with_session() -> CallModule {
    let mut module = module();
    module.inner.sessions.insert(dialog(), session(NOW));
    module
}

fn is_done(outcome: &(CallState, CallAction)) -> bool {
    matches!(outcome, (CallState::Finished, CallAction::Finish(Ok(ProxyAction::Abort), None)))
}

fn gave_up_with(outcome: &(CallState, CallAction), expected: &CallError) -> bool {
    matches!(
        outcome,
        (CallState::Finished, CallAction::Finish(Ok(ProxyAction::Abort), Some(error)))
            if error == expected
    )
}

fn transport_error() -> CallError {
    CallError::Stack("transport error".to_string())
}

fn failed_with(outcome: &(CallState, CallAction), expected: &CallError) -> bool {
    matches!(outcome, (CallState::InviteFailed(error), CallAction::CheckAnswered) if error == expected)
}

#[test]
fn the_caller_is_the_uri_of_the_from_header() {
    assert_eq!(read_caller(&invite()), Ok("sip:bob@example.org".to_string()));
    let mut none = invite();
    none.headers.remove(2);
    assert_eq!(read_caller(&none), Err(CallError::MissingFrom));
    let unreadable = request(Method::Invite, "<sip:", CALLEE);
    assert!(matches!(read_caller(&unreadable), Err(CallError::Header(_))));
}

#[test]
fn the_callee_is_the_user_and_the_realm_of_the_to_header() {
    let callee = |to: &str| read_callee(&request(Method::Invite, CALLER, to));
    let named = Ok((Some("alice".to_string()), "example.com".to_string()));
    assert_eq!(callee(CALLEE), named);
    assert_eq!(callee("Alice <sip:alice@example.com:5080;transport=tcp>"), named);
    assert_eq!(callee("<sip:example.com>"), Ok((None, "example.com".to_string())));
    assert!(matches!(callee("<sip:"), Err(CallError::Header(_))));
    let mut none = invite();
    none.headers.remove(3);
    assert_eq!(read_callee(&none), Err(CallError::MissingTo));
}

#[test]
fn errors_in_headers_are_printed_as_the_stack_prints_them() {
    for value in ["<sip:", "", ";tag=t", "<sip:bob@example.org"] {
        let theirs = rsip::headers::From::from(value).uri();
        let ours = read_caller(&request(Method::Invite, value, CALLEE));
        match theirs {
            Ok(uri) => assert_eq!(ours, Ok(uri.to_string())),
            Err(error) => assert_eq!(ours, Err(CallError::Header(error.to_string()))),
        }
    }
}

#[test]
fn an_error_in_the_caller_comes_first() {
    let ok = || Ok((None, "example.com".to_string()));
    assert_eq!(
        join_parties(Err(CallError::MissingFrom), Err(CallError::MissingTo)),
        Err(CallError::MissingFrom)
    );
    assert_eq!(
        join_parties(Ok("sip:b".to_string()), Err(CallError::MissingTo)),
        Err(CallError::MissingTo)
    );
    assert_eq!(
        join_parties(Ok("sip:b".to_string()), ok()),
        Ok(Parties {
            caller: "sip:b".to_string(),
            callee: String::new(),
            realm: "example.com".to_string(),
        })
    );
}

#[test]
fn an_invite_begins_with_the_realm() {
    let outcome = module().on_transaction_begin(&invite(), NOW);
    let parties = match outcome {
        (CallState::InviteRealm(parties), CallAction::CheckRealm(realm)) => {
            assert_eq!(realm, "example.com");
            parties
        }
        other => panic!("{:?}", other),
    };
    assert_eq!(parties.caller, "sip:bob@example.org");
    assert_eq!(parties.callee, "alice");
    assert_eq!(parties.realm, "example.com");
    let failure = begin_invite(Err(CallError::MissingTo));
    assert!(failed_with(&failure, &CallError::MissingTo));
}

#[test]
fn an_invite_without_from_or_to_fails() {
    let mut headless = invite();
    headless.headers.remove(2);
    let outcome = run(&mut module(), &headless, vec![]);
    assert!(failed_with(&outcome, &CallError::MissingFrom));
    let outcome = run(&mut module(), &headless, vec![CallEvent::Answered(false)]);
    match outcome {
        (CallState::InviteFailedReply(_), CallAction::Reply(status, Some(text))) => {
            assert_eq!(status, StatusCode::ServerInternalError);
            assert_eq!(text, "rsip error: missing header: From");
        }
        other => panic!("{:?}", other),
    }
}

#[test]
fn test_local_realm_invite() {
    let mut module = module();
    let request = request(Method::Invite, CALLER, "<sip:alice@example.com>");

    let local_realm = "example.com";
    let (state, action) = module.on_transaction_begin(&request, NOW);
    let callee_realm = match action {
        CallAction::CheckRealm(realm) => realm,
        other => panic!("{:?}", other),
    };
    assert_eq!(local_realm, callee_realm);

    let event = CallEvent::RealmChecked(local_realm == callee_realm);
    let (state, action) = module.on_event(&request, state, event);
    match action {
        CallAction::Lookup(user, realm) => {
            assert_eq!(user, "alice");
            assert_eq!(realm, Some("example.com".to_string()));
        }
        other => panic!("{:?}", other),
    }

    let found = vec![Location { destination: place() }];
    assert_eq!(found.len(), 1);
    let (state, _) = module.on_event(&request, state, CallEvent::Located(Some(found)));
    match module.on_event(&request, state, built(None)) {
        (_, CallAction::Forward(outgoing)) => {
            assert_eq!(outgoing.destination.addr, "192.168.1.100:5060");
        }
        other => panic!("{:?}", other),
    }
}

#[test]
fn an_invite_is_sent_to_the_first_location() {
    let mut events = located();
    events.push(built(Some(ROUTE)));
    let mut routed = invite();
    routed.headers.insert(0, Header::Via(VIA.to_string()));
    routed.headers.insert(0, Header::RecordRoute(ROUTE.to_string()));
    match run(&mut module(), &invite(), events) {
        (CallState::InviteSend(on_the_way), CallAction::Forward(outgoing)) => {
            assert_eq!(on_the_way, leg());
            assert_eq!(
                outgoing,
                Outgoing {
                    request: routed,
                    key: "c.INVITE_3_call-1_tb_z9hG4bKours".to_string(),
                    destination: place(),
                }
            );
        }
        other => panic!("{:?}", other),
    }
}

#[test]
fn an_invite_without_record_route_gets_a_via_only() {
    let mut events = located();
    events.push(built(None));
    match run(&mut module(), &invite(), events) {
        (_, CallAction::Forward(outgoing)) => {
            assert_eq!(outgoing.request.headers.len(), invite().headers.len() + 1);
            assert_eq!(outgoing.request.headers[0], Header::Via(VIA.to_string()));
            assert_eq!(outgoing.request.headers[1..], invite().headers[..]);
            assert_eq!(outgoing.request.body, b"hello");
        }
        other => panic!("{:?}", other),
    }
}

#[test]
fn an_accepted_call_is_a_session_until_it_is_silent_or_ended() {
    let mut module = module();
    let mut events = relaying();
    events.push(client(180, NOW + 1));
    events.push(CallEvent::Responded(Ok(())));
    let outcome = run(&mut module, &invite(), events);
    assert!(matches!(outcome, (CallState::InviteRelay(_, _), CallAction::AwaitEither)));
    assert_eq!(module.inner.sessions.len(), 0);

    let outcome = module.on_event(&invite(), outcome.0, client(200, NOW + 7));
    match &outcome {
        (CallState::InviteRespond(id, on_the_way), CallAction::Respond(passed_on)) => {
            assert!(*id == dialog());
            assert_eq!(*on_the_way, leg());
            assert_eq!(*passed_on, relayed(200));
        }
        other => panic!("{:?}", other),
    }
    let kept = module.inner.sessions.get(&dialog()).unwrap();
    assert_eq!(kept.last_activity, NOW + 7);
    assert_eq!(kept.parties, ("sip:bob@example.org".to_string(), "alice".to_string()));
    assert!(kept.dialog_id == dialog());

    let outcome = module.on_event(&invite(), outcome.0, CallEvent::Responded(Ok(())));
    let outcome = module.on_event(&invite(), outcome.0, CallEvent::ClientTerminated);
    assert!(is_done(&outcome));

    module.check_sessions(NOW + 7 + SESSION_TIMEOUT);
    assert_eq!(module.inner.sessions.len(), 1);
    module.check_sessions(NOW + 8 + SESSION_TIMEOUT);
    assert_eq!(module.inner.sessions.len(), 0);
}

#[test]
fn a_call_that_is_not_accepted_is_no_session() {
    for status in [100, 180, 199, 300, 404, 486, 500, 603] {
        let mut module = module();
        let mut events = relaying();
        events.push(client(status, NOW));
        match run(&mut module, &invite(), events) {
            (_, CallAction::Respond(passed_on)) => assert_eq!(passed_on, relayed(status)),
            other => panic!("{:?}", other),
        }
        assert_eq!(module.inner.sessions.len(), 0);
    }
}

#[test]
fn a_call_that_is_accepted_is_a_session_whatever_the_status() {
    for status in [200, 202, 299] {
        let mut module = module();
        let mut events = relaying();
        events.push(client(status, NOW));
        run(&mut module, &invite(), events);
        assert_eq!(module.inner.sessions.len(), 1);
    }
}

#[test]
fn every_response_goes_back_and_the_last_acceptance_counts() {
    let answers = [(100, 1), (180, 2), (200, 3), (183, 4), (202, 5), (486, 6)];
    let mut module = module();
    let mut outcome = run(&mut module, &invite(), relaying());
    let mut passed_on = Vec::new();
    for (status, time) in answers {
        outcome = module.on_event(&invite(), outcome.0, client(status, NOW + time));
        match outcome.1 {
            CallAction::Respond(response) => passed_on.push(response),
            other => panic!("{:?}", other),
        }
        outcome = module.on_event(&invite(), outcome.0, CallEvent::Responded(Ok(())));
    }
    assert!(is_done(&module.on_event(&invite(), outcome.0, CallEvent::ClientTerminated)));
    let expected: Vec<Response> = answers.iter().map(|(status, _)| relayed(*status)).collect();
    assert_eq!(passed_on, expected);
    assert_eq!(module.inner.sessions.len(), 1);
    assert_eq!(module.inner.sessions.get(&dialog()).unwrap().last_activity, NOW + 5);
}

#[test]
fn an_ack_goes_to_the_callee() {
    let ack = request(Method::Ack, CALLER, CALLEE);
    let mut events = relaying();
    events.push(CallEvent::ServerMessage(Some(Message::Request(ack.clone()))));
    match run(&mut module(), &invite(), events) {
        (CallState::InviteAckRoute(_, _, kept), CallAction::RouteVia) => assert_eq!(kept, ack),
        other => panic!("{:?}", other),
    }

    let mut events = relaying();
    events.push(CallEvent::ServerMessage(Some(Message::Request(ack.clone()))));
    events.push(built(Some(ROUTE)));
    let mut routed = ack.clone();
    routed.headers.insert(0, Header::Via(VIA.to_string()));
    let mut module = module();
    let outcome = run(&mut module, &invite(), events);
    match &outcome {
        (CallState::InviteAckSend(_, _), CallAction::ForwardAck(outgoing)) => {
            assert_eq!(outgoing.request, routed);
            assert_eq!(outgoing.key, "c.ACK_3_call-1_tb_z9hG4bKours");
            assert_eq!(outgoing.destination, place());
        }
        other => panic!("{:?}", other),
    }
    let outcome = module.on_event(&invite(), outcome.0, CallEvent::Sent(Ok(())));
    assert!(matches!(outcome, (CallState::InviteRelay(_, _), CallAction::AwaitEither)));
}

#[test]
fn other_messages_are_let_go_by_while_a_call_is_relayed() {
    let quiet = vec![
        CallEvent::ServerMessage(None),
        CallEvent::ServerMessage(Some(Message::Request(request(Method::Info, CALLER, CALLEE)))),
        CallEvent::ServerMessage(Some(Message::Response(response(200)))),
        CallEvent::ClientMessage(None, NOW),
        CallEvent::ClientMessage(Some(Message::Request(invite())), NOW),
    ];
    let mut module = module();
    let mut events = relaying();
    events.extend(quiet);
    let outcome = run(&mut module, &invite(), events);
    assert!(matches!(outcome, (CallState::InviteRelay(_, _), CallAction::AwaitEither)));
    assert_eq!(module.inner.sessions.len(), 0);
}

#[test]
fn an_unknown_callee_is_told_to_the_caller() {
    let mut module = module();
    let outcome = run(
        &mut module,
        &invite(),
        vec![CallEvent::RealmChecked(true), CallEvent::Located(None)],
    );
    assert!(matches!(
        outcome,
        (CallState::InviteNotFoundReply, CallAction::Reply(StatusCode::NotFound, None))
    ));
    let told = module.on_event(&invite(), outcome.0, CallEvent::Replied(Ok(())));
    assert!(matches!(told, (CallState::InviteNotFoundAck, CallAction::AwaitServer)));
    let again = CallEvent::ServerMessage(Some(Message::Request(invite())));
    let told = module.on_event(&invite(), told.0, again);
    let stray = CallEvent::ServerMessage(Some(Message::Response(response(200))));
    let told = module.on_event(&invite(), told.0, stray);
    assert!(matches!(told, (CallState::InviteNotFoundAck, CallAction::AwaitServer)));
    let ack = CallEvent::ServerMessage(Some(Message::Request(request(
        Method::Ack,
        CALLER,
        CALLEE,
    ))));
    assert!(is_done(&module.on_event(&invite(), told.0, ack)));
    let gone = CallEvent::ServerMessage(None);
    assert!(is_done(&module.on_event(&invite(), CallState::InviteNotFoundAck, gone)));
}

#[test]
fn a_callee_in_another_realm_is_refused() {
    let cases = [
        (None, CallError::ForwardingDisabled, "External proxy forwarding is disabled"),
        (Some(false), CallError::ForwardingDisabled, "External proxy forwarding is disabled"),
        (
            Some(true),
            CallError::ForwardingNotImplemented,
            "External proxy forwarding not implemented",
        ),
    ];
    for (allowed, error, expected) in cases {
        let mut module = module_with(MediaProxyMode::Off, allowed);
        assert_eq!(module.forward_to_proxy(), Err(error));
        let events = vec![CallEvent::RealmChecked(false), CallEvent::Answered(false)];
        match run(&mut module, &invite(), events) {
            (CallState::InviteFailedReply(_), CallAction::Reply(status, Some(text))) => {
                assert_eq!(status, StatusCode::ServerInternalError);
                assert_eq!(text, expected);
            }
            other => panic!("{:?}", other),
        }
    }
}

#[test]
fn a_failure_is_told_to_a_caller_without_a_response() {
    let failure = || {
        let mut module = module();
        let events = vec![CallEvent::RealmChecked(false)];
        let outcome = run(&mut module, &invite(), events);
        assert!(failed_with(&outcome, &CallError::ForwardingDisabled));
        (module, outcome.0)
    };
    let error = CallError::ForwardingDisabled;
    let (mut module, state) = failure();
    let outcome = module.on_event(&invite(), state, CallEvent::Answered(true));
    assert!(gave_up_with(&outcome, &error));
    let (mut module, state) = failure();
    let (state, _) = module.on_event(&invite(), state, CallEvent::Answered(false));
    let outcome = module.on_event(&invite(), state, CallEvent::Replied(Ok(())));
    assert!(gave_up_with(&outcome, &error));
    let (mut module, state) = failure();
    let (state, _) = module.on_event(&invite(), state, CallEvent::Answered(false));
    match module.on_event(&invite(), state, CallEvent::Replied(stack_error())) {
        (CallState::Finished, CallAction::Finish(Err(told), Some(failure))) => {
            assert_eq!(told, transport_error());
            assert_eq!(failure, error);
        }
        other => panic!("{:?}", other),
    }
}

#[test]
fn errors_of_the_stack_fail_an_invite() {
    let error = CallError::Stack("transport error".to_string());
    let no_via = || CallEvent::RouteBuilt(Err("transport error".to_string()), None);
    let ack = || {
        CallEvent::ServerMessage(Some(Message::Request(request(Method::Ack, CALLER, CALLEE))))
    };
    let unknown = vec![CallEvent::RealmChecked(true), CallEvent::Located(None)];
    let sent = {
        let mut events = located();
        events.push(built(None));
        events
    };
    let responding = {
        let mut events = relaying();
        events.push(client(200, NOW));
        events
    };
    let acknowledging = {
        let mut events = relaying();
        events.push(ack());
        events
    };
    let sending_ack = {
        let mut events = relaying();
        events.push(ack());
        events.push(built(None));
        events
    };
    let cases = vec![
        (unknown, CallEvent::Replied(stack_error())),
        (located(), no_via()),
        (sent, CallEvent::Sent(stack_error())),
        (responding, CallEvent::Responded(stack_error())),
        (acknowledging, no_via()),
        (sending_ack, CallEvent::Sent(stack_error())),
    ];
    for (mut events, last) in cases {
        events.push(last);
        let outcome = run(&mut module(), &invite(), events);
        assert!(failed_with(&outcome, &error), "{:?}", outcome);
    }
}

#[test]
fn an_invite_without_a_key_or_a_dialog_fails() {
    let untagged = request(Method::Invite, "<sip:bob@example.org>", CALLEE);
    let mut events = located();
    events.push(built(None));
    let outcome = run(&mut module(), &untagged, events);
    assert!(matches!(outcome, (CallState::InviteFailed(CallError::Stack(_)), _)));

    let outcome = relay_invite(leg(), None);
    assert!(matches!(
        outcome,
        (
            CallState::InviteNoDialogReply,
            CallAction::Reply(StatusCode::ServerInternalError, None)
        )
    ));
    let mut module = module();
    let done = module.on_event(
        &untagged,
        CallState::InviteNoDialogReply,
        CallEvent::Replied(Ok(())),
    );
    assert!(is_done(&done));
    let failed = module.on_event(
        &untagged,
        CallState::InviteNoDialogReply,
        CallEvent::Replied(stack_error()),
    );
    assert!(failed_with(&failed, &CallError::Stack("transport error".to_string())));
}

#[test]
fn keys_decide_whether_requests_are_sent() {
    let key = || Ok("key".to_string());
    let none = || Err("no key".to_string());
    let error = CallError::Stack("no key".to_string());
    match forward_invite(leg(), invite(), key()) {
        (CallState::InviteSend(_), CallAction::Forward(outgoing)) => {
            assert_eq!(outgoing.key, "key");
            assert_eq!(outgoing.request, invite());
            assert_eq!(outgoing.destination, place());
        }
        other => panic!("{:?}", other),
    }
    assert!(failed_with(&forward_invite(leg(), invite(), none()), &error));
    match forward_ack(dialog(), leg(), bye(), key()) {
        (CallState::InviteAckSend(_, _), CallAction::ForwardAck(outgoing)) => {
            assert_eq!(outgoing.key, "key");
            assert_eq!(outgoing.destination, place());
        }
        other => panic!("{:?}", other),
    }
    assert!(failed_with(&forward_ack(dialog(), leg(), bye(), none()), &error));
    match forward_bye(dialog(), place(), bye(), key()) {
        (CallState::ByeSend(id), CallAction::Forward(outgoing)) => {
            assert!(id == dialog());
            assert_eq!(outgoing.request, bye());
            assert_eq!(outgoing.destination, place());
        }
        other => panic!("{:?}", other),
    }
    assert!(gave_up_with(&forward_bye(dialog(), place(), bye(), none()), &error));
}

#[test]
fn media_are_relayed_as_the_settings_say() {
    let flag = |mode, private: Option<Option<bool>>, sdp: bool| {
        let mut module = module_with(mode, None);
        let mut invite = invite();
        if sdp {
            invite.headers.push(Header::ContentType("application/sdp".to_string()));
        }
        let mut events = located();
        if let Some(private) = private {
            events.push(CallEvent::MediaInspected(private));
        }
        match run(&mut module, &invite, events) {
            (CallState::InviteRoute(_), CallAction::RouteInvite(flag)) => flag,
            other => panic!("{:?}", other),
        }
    };
    assert!(!flag(MediaProxyMode::Off, None, true));
    assert!(flag(MediaProxyMode::All, None, false));
    assert!(!flag(MediaProxyMode::NatOnly, None, false));
    assert!(flag(MediaProxyMode::NatOnly, Some(Some(true)), true));
    assert!(!flag(MediaProxyMode::NatOnly, Some(Some(false)), true));
    assert!(!flag(MediaProxyMode::NatOnly, Some(None), true));

    let mut module = module_with(MediaProxyMode::NatOnly, None);
    let mut invite = invite();
    invite.headers.push(Header::ContentType("application/sdp".to_string()));
    match run(&mut module, &invite, located()) {
        (CallState::InviteMedia(_), CallAction::InspectMedia(sdp)) => assert_eq!(sdp, "hello"),
        other => panic!("{:?}", other),
    }
}

#[test]
fn a_bye_ends_the_call() {
    let mut module = module_with_session();
    let outcome = module.on_transaction_begin(&bye(), NOW);
    match &outcome {
        (CallState::ByeLookup(id), CallAction::Lookup(user, None)) => {
            assert!(*id == dialog());
            assert_eq!(user, "alice");
        }
        other => panic!("{:?}", other),
    }
    let outcome = module.on_event(&bye(), outcome.0, CallEvent::Located(locations()));
    assert!(matches!(outcome, (CallState::ByeRoute(_, _), CallAction::RouteVia)));
    let outcome = module.on_event(&bye(), outcome.0, built(Some(ROUTE)));
    let mut routed = bye();
    routed.headers.insert(0, Header::Via(VIA.to_string()));
    match &outcome {
        (CallState::ByeSend(_), CallAction::Forward(outgoing)) => {
            assert_eq!(outgoing.request, routed);
            assert_eq!(outgoing.key, "c.BYE_3_call-1_tb_z9hG4bKours");
            assert_eq!(outgoing.destination, place());
        }
        other => panic!("{:?}", other),
    }
    let outcome = module.on_event(&bye(), outcome.0, CallEvent::Sent(Ok(())));
    assert!(matches!(outcome, (CallState::ByeResponse(_), CallAction::AwaitClient)));
    let stray = CallEvent::ClientMessage(Some(Message::Request(bye())), NOW);
    let outcome = module.on_event(&bye(), outcome.0, stray);
    let outcome = module.on_event(&bye(), outcome.0, client(200, NOW));
    match &outcome {
        (CallState::ByeRespond(_), CallAction::Respond(passed_on)) => {
            assert_eq!(*passed_on, relayed(200));
        }
        other => panic!("{:?}", other),
    }
    assert_eq!(module.inner.sessions.len(), 1);
    let outcome = module.on_event(&bye(), outcome.0, CallEvent::Responded(Ok(())));
    assert!(is_done(&outcome));
    assert_eq!(module.inner.sessions.len(), 0);

    let again = module.on_transaction_begin(&bye(), NOW);
    assert!(matches!(
        again,
        (CallState::FinalReply, CallAction::Reply(StatusCode::CallTransactionDoesNotExist, None))
    ));
}

#[test]
fn the_callee_can_end_the_call() {
    let mut module = module_with_session();
    let other_side = request(Method::Bye, CALLEE, CALLER);
    let events = vec![
        CallEvent::Located(locations()),
        built(None),
        CallEvent::Sent(Ok(())),
        CallEvent::ClientMessage(None, NOW),
    ];
    assert!(is_done(&run(&mut module, &other_side, events)));
    assert_eq!(module.inner.sessions.len(), 0);
}

#[test]
fn a_bye_that_gets_nowhere_leaves_the_call() {
    let no_via = CallEvent::RouteBuilt(Err("transport error".to_string()), None);
    let cases = vec![
        vec![CallEvent::Located(locations()), no_via],
        vec![CallEvent::Located(locations()), built(None), CallEvent::Sent(stack_error())],
        vec![
            CallEvent::Located(locations()),
            built(None),
            CallEvent::Sent(Ok(())),
            client(200, NOW),
            CallEvent::Responded(stack_error()),
        ],
    ];
    for events in cases {
        let mut module = module_with_session();
        assert!(gave_up_with(&run(&mut module, &bye(), events), &transport_error()));
        assert_eq!(module.inner.sessions.len(), 1);
    }
    let mut module = module_with_session();
    let outcome = run(&mut module, &bye(), vec![CallEvent::Located(None)]);
    assert!(matches!(
        outcome,
        (CallState::FinalReply, CallAction::Reply(StatusCode::NotFound, None))
    ));
    let outcome = module.on_event(&bye(), outcome.0, CallEvent::Replied(stack_error()));
    assert!(gave_up_with(&outcome, &transport_error()));
    assert_eq!(module.inner.sessions.len(), 1);
    let told = vec![CallEvent::Located(None), CallEvent::Replied(Ok(()))];
    assert!(is_done(&run(&mut module, &bye(), told)));
    assert_eq!(module.inner.sessions.len(), 1);
}

#[test]
fn a_bye_outside_of_a_dialog_is_a_bad_request() {
    let mut module = module_with_session();
    let untagged = request(Method::Bye, "<sip:bob@example.org>", CALLEE);
    let outcome = module.on_transaction_begin(&untagged, NOW);
    assert!(matches!(
        outcome,
        (CallState::FinalReply, CallAction::Reply(StatusCode::BadRequest, None))
    ));
    let told = vec![CallEvent::Replied(Ok(()))];
    assert!(is_done(&run(&mut module, &untagged, told)));
    let untold = vec![CallEvent::Replied(stack_error())];
    assert!(gave_up_with(&run(&mut module, &untagged, untold), &transport_error()));
    assert_eq!(module.inner.sessions.len(), 1);
    let outcome = module.begin_bye(None);
    assert!(matches!(
        outcome,
        (CallState::FinalReply, CallAction::Reply(StatusCode::BadRequest, None))
    ));
}

#[test]
fn a_first_invite_and_a_later_bye_name_different_dialogs() {
    let mut module = module();
    let first = request(Method::Invite, CALLER, CALLEE_UNTAGGED);
    let mut events = relaying();
    events.push(client(200, NOW));
    run(&mut module, &first, events);
    assert_eq!(module.inner.sessions.len(), 1);
    let outcome = module.on_transaction_begin(&bye(), NOW);
    assert!(matches!(
        outcome,
        (CallState::FinalReply, CallAction::Reply(StatusCode::CallTransactionDoesNotExist, None))
    ));
    let same = request(Method::Bye, CALLER, CALLEE_UNTAGGED);
    let outcome = module.on_transaction_begin(&same, NOW);
    assert!(matches!(outcome, (CallState::ByeLookup(_), CallAction::Lookup(_, None))));
}

#[test]
fn options_keep_the_call_alive() {
    for (from, to) in [(CALLER, CALLEE), (CALLEE, CALLER)] {
        let mut module = module_with_session();
        let options = request(Method::Options, from, to);
        let outcome = module.on_transaction_begin(&options, NOW + 100);
        assert!(matches!(
            outcome,
            (CallState::FinalReply, CallAction::Reply(StatusCode::OK, None))
        ));
        assert_eq!(module.inner.sessions.get(&dialog()).unwrap().last_activity, NOW + 100);
        assert!(is_done(&module.on_event(&options, outcome.0, CallEvent::Replied(Ok(())))));
        let untold = CallEvent::Replied(stack_error());
        let outcome = module.on_event(&options, CallState::FinalReply, untold);
        assert!(gave_up_with(&outcome, &transport_error()));
        assert_eq!(module.inner.sessions.get(&dialog()).unwrap().last_activity, NOW + 100);
    }
    let mut module = module_with_session();
    let elsewhere = request(Method::Options, "<sip:bob@example.org>;tag=other", CALLEE);
    module.handle_options(&elsewhere, NOW + 100);
    let nowhere = request(Method::Options, "<sip:bob@example.org>", CALLEE);
    module.handle_options(&nowhere, NOW + 100);
    assert_eq!(module.inner.sessions.get(&dialog()).unwrap().last_activity, NOW);
}

#[test]
fn ack_and_cancel_change_nothing() {
    let mut module = module_with_session();
    let ack = request(Method::Ack, CALLER, CALLEE);
    assert!(is_done(&module.on_transaction_begin(&ack, NOW + 1)));
    let cancel = request(Method::Cancel, CALLER, CALLEE);
    let outcome = module.on_transaction_begin(&cancel, NOW + 1);
    assert!(matches!(
        outcome,
        (CallState::FinalReply, CallAction::Reply(StatusCode::OK, None))
    ));
    let outcome = module.on_event(&cancel, outcome.0, CallEvent::Replied(stack_error()));
    assert!(gave_up_with(&outcome, &transport_error()));
    assert!(is_done(&run(&mut module, &cancel, vec![CallEvent::Replied(Ok(()))])));
    assert_eq!(module.inner.sessions.get(&dialog()).unwrap().last_activity, NOW);
}

#[test]
fn other_methods_are_left_to_the_next_module() {
    for method in [
        Method::Info,
        Method::Message,
        Method::Notify,
        Method::PRack,
        Method::Publish,
        Method::Refer,
        Method::Register,
        Method::Subscribe,
        Method::Update,
    ] {
        let mut module = module_with_session();
        let outcome = module.on_transaction_begin(&request(method, CALLER, CALLEE), NOW + 1);
        assert!(matches!(
            outcome,
            (CallState::Finished, CallAction::Finish(Ok(ProxyAction::Continue), None))
        ));
    }
}

#[test]
fn a_transaction_leaves_other_calls_alone() {
    let mut module = module_with_session();
    let other = DialogId { call_id: "call-2".to_string(), ..dialog() };
    let kept = Session { dialog_id: other.clone(), ..session(NOW - 5) };
    module.inner.sessions.insert(other.clone(), kept);
    let events = vec![
        CallEvent::Located(locations()),
        built(None),
        CallEvent::Sent(Ok(())),
        CallEvent::ClientMessage(None, NOW),
    ];
    run(&mut module, &bye(), events);
    let options = request(Method::Options, CALLER, CALLEE);
    module.on_transaction_begin(&options, NOW + 100);
    assert_eq!(module.inner.sessions.len(), 1);
    assert_eq!(module.inner.sessions.get(&other).unwrap().last_activity, NOW - 5);
}

#[test]
fn only_what_was_asked_for_is_accepted() {
    let state = || CallState::InviteRelay(dialog(), leg());
    assert!(state().accepts(&CallEvent::ClientTerminated));
    assert!(state().accepts(&CallEvent::ServerMessage(None)));
    assert!(!state().accepts(&CallEvent::Answered(true)));
    let lookup = CallState::ByeLookup(dialog());
    assert!(lookup.accepts(&CallEvent::Located(None)));
    assert!(lookup.accepts(&CallEvent::Located(locations())));
    assert!(!lookup.accepts(&CallEvent::Located(Some(vec![]))));
    assert!(!CallState::Finished.accepts(&CallEvent::Replied(Ok(()))));
}
