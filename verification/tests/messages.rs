use call_proxy::dialog::DialogId;
use call_proxy::protocol::{CallError, StatusCode};
use call_proxy::sessions::{Session, SessionTable};
use call_proxy::sip::{header_pop, header_value, push_front, Header, HeaderKind, Method, Request, Response};

fn request(method: Method, headers: Vec<Header>) -> Request {
    Request { method, uri: "sip:bob@example.com".to_string(), headers, body: b"body".to_vec() }
}

fn via(value: &str) -> Header {
    Header::Via(value.to_string())
}

fn id(call_id: &str, from_tag: &str, to_tag: &str) -> DialogId {
    DialogId {
        call_id: call_id.to_string(),
        from_tag: from_tag.to_string(),
        to_tag: to_tag.to_string(),
    }
}

fn dialog_headers(call_id: &str, from: &str, to: &str) -> Vec<Header> {
    vec![
        Header::To(to.to_string()),
        Header::From(from.to_string()),
        Header::CallId(call_id.to_string()),
    ]
}

#[test]
fn method_names_are_those_of_the_stack() {
    let methods = [
        (Method::Ack, rsip::Method::Ack),
        (Method::Bye, rsip::Method::Bye),
        (Method::Cancel, rsip::Method::Cancel),
        (Method::Info, rsip::Method::Info),
        (Method::Invite, rsip::Method::Invite),
        (Method::Message, rsip::Method::Message),
        (Method::Notify, rsip::Method::Notify),
        (Method::Options, rsip::Method::Options),
        (Method::PRack, rsip::Method::PRack),
        (Method::Publish, rsip::Method::Publish),
        (Method::Refer, rsip::Method::Refer),
        (Method::Register, rsip::Method::Register),
        (Method::Subscribe, rsip::Method::Subscribe),
        (Method::Update, rsip::Method::Update),
    ];
    for (ours, theirs) in methods {
        assert_eq!(ours.name(), theirs.to_string());
        assert_eq!(ours.name().parse::<rsip::Method>().unwrap(), theirs);
    }
}

#[test]
fn success_is_what_the_stack_calls_success() {
    for status in 0..1000u16 {
        let response = Response { status, headers: vec![], body: vec![] };
        let kind = rsip::StatusCode::from(status).kind();
        assert_eq!(response.is_successful(), kind == rsip::StatusCodeKind::Successful);
    }
}

#[test]
fn status_numbers_are_those_of_the_stack() {
    let codes = [
        (StatusCode::OK, rsip::StatusCode::OK),
        (StatusCode::BadRequest, rsip::StatusCode::BadRequest),
        (StatusCode::NotFound, rsip::StatusCode::NotFound),
        (
            StatusCode::CallTransactionDoesNotExist,
            rsip::StatusCode::CallTransactionDoesNotExist,
        ),
        (StatusCode::ServerInternalError, rsip::StatusCode::ServerInternalError),
    ];
    for (ours, theirs) in codes {
        assert_eq!(ours.code(), theirs.code());
    }
}

#[test]
fn errors_are_told_as_the_stack_tells_them() {
    let missing = |name| rsip::Error::missing_header(name).to_string();
    assert_eq!(CallError::MissingFrom.text(), missing("From"));
    assert_eq!(CallError::MissingTo.text(), missing("To"));
    assert_eq!(CallError::Header("h".to_string()).text(), "h");
    assert_eq!(CallError::Stack("s".to_string()).text(), "s");
    assert_eq!(
        CallError::ForwardingDisabled.text(),
        "External proxy forwarding is disabled"
    );
    assert_eq!(
        CallError::ForwardingNotImplemented.text(),
        "External proxy forwarding not implemented"
    );
}

#[test]
fn the_first_header_of_a_kind_counts() {
    let headers = vec![
        Header::Other("X-A".to_string(), "1".to_string()),
        via("first"),
        via("second"),
        Header::ContentType("application/sdp".to_string()),
    ];
    assert_eq!(header_value(&headers, HeaderKind::Via), Some("first"));
    assert_eq!(header_value(&headers, HeaderKind::ContentType), Some("application/sdp"));
    assert_eq!(header_value(&headers, HeaderKind::Other), Some("1"));
    assert_eq!(header_value(&headers, HeaderKind::To), None);
    assert_eq!(headers[0].kind(), HeaderKind::Other);
    assert_eq!(headers[1].value(), "first");
}

#[test]
fn popping_undoes_pushing() {
    let mut headers = vec![via("SIP/2.0/TCP"), via("SIP/2.0/UDP"), via("SIP/2.0/WSS")];
    push_front(&mut headers, via("SIP/2.0/TLS"));
    assert_eq!(headers.len(), 4);
    header_pop(&mut headers, HeaderKind::Via);
    assert_eq!(headers, vec![via("SIP/2.0/TCP"), via("SIP/2.0/UDP"), via("SIP/2.0/WSS")]);

    let mut none = vec![Header::To("t".to_string())];
    header_pop(&mut none, HeaderKind::Via);
    assert_eq!(none, vec![Header::To("t".to_string())]);
}

#[test]
fn a_response_goes_on_without_the_first_via() {
    let mut response = Response {
        status: 180,
        headers: vec![
            Header::RecordRoute("<sip:proxy;lr>".to_string()),
            via("ours"),
            via("theirs"),
        ],
        body: b"x".to_vec(),
    };
    response.pop_via();
    assert_eq!(
        response,
        Response {
            status: 180,
            headers: vec![Header::RecordRoute("<sip:proxy;lr>".to_string()), via("theirs")],
            body: b"x".to_vec(),
        }
    );
}

#[test]
fn a_request_goes_on_with_route_headers_in_front() {
    let mut with_both = request(Method::Invite, vec![via("theirs")]);
    with_both.route("ours".to_string(), Some("<sip:proxy;lr>".to_string()));
    assert_eq!(
        with_both,
        request(
            Method::Invite,
            vec![Header::RecordRoute("<sip:proxy;lr>".to_string()), via("ours"), via("theirs")],
        )
    );
    let mut with_via = request(Method::Bye, vec![via("theirs")]);
    with_via.route("ours".to_string(), None);
    assert_eq!(with_via, request(Method::Bye, vec![via("ours"), via("theirs")]));
}

#[test]
fn the_client_key_names_method_sequence_call_and_branch() {
    let mut headers = dialog_headers("call-1", "Alice <sip:alice@a.org>;tag=t1", "<sip:bob@b.org>");
    headers.push(Header::CSeq("7 INVITE".to_string()));
    headers.push(via("SIP/2.0/UDP 10.0.0.1:5060;branch=z9hG4bKold"));
    let mut invite = request(Method::Invite, headers);
    invite.route("SIP/2.0/UDP 10.0.0.2:5060;branch=z9hG4bKnew".to_string(), None);
    assert_eq!(invite.client_key(), Ok("c.INVITE_7_call-1_t1_z9hG4bKnew".to_string()));

    let mut ack = invite.clone();
    ack.method = Method::Ack;
    assert_eq!(ack.client_key(), Ok("c.ACK_7_call-1_t1_z9hG4bKnew".to_string()));
}

#[test]
fn the_client_key_needs_its_headers() {
    let complete = || {
        let mut headers = dialog_headers("c", "<sip:a@a.org>;tag=t1", "<sip:bob@b.org>");
        headers.push(Header::CSeq("7 BYE".to_string()));
        headers.push(via("SIP/2.0/UDP 10.0.0.1:5060;branch=z9hG4bK1"));
        headers
    };
    assert!(request(Method::Bye, complete()).client_key().is_ok());
    for kind in [HeaderKind::CSeq, HeaderKind::CallId, HeaderKind::From, HeaderKind::Via] {
        let mut headers = complete();
        header_pop(&mut headers, kind);
        assert!(request(Method::Bye, headers).client_key().is_err());
    }
    let mut headers = complete();
    header_pop(&mut headers, HeaderKind::CSeq);
    assert_eq!(
        request(Method::Bye, headers).client_key(),
        Err("SIP message error: rsip error: missing header: CSeq".to_string())
    );
}

#[test]
fn a_request_names_its_dialog() {
    let headers = dialog_headers("c1", "Alice <sip:alice@a.org>;tag=aa", "<sip:bob@b.org>;tag=bb");
    let read = DialogId::from_request(&request(Method::Bye, headers)).unwrap();
    assert_eq!(read.call_id, "c1");
    assert_eq!(read.from_tag, "aa");
    assert_eq!(read.to_tag, "bb");
}

#[test]
fn the_other_side_names_the_same_dialog() {
    let (a, b) = ("Alice <sip:alice@a.org>;tag=aa", "sip:bob@b.org;tag=bb");
    let one = DialogId::from_request(&request(Method::Bye, dialog_headers("c1", a, b))).unwrap();
    let two = DialogId::from_request(&request(Method::Bye, dialog_headers("c1", b, a))).unwrap();
    assert_eq!(two.from_tag, "bb");
    assert_eq!(two.to_tag, "aa");
    assert!(one.same_dialog(&two));
    assert!(one == two);
}

#[test]
fn a_first_request_has_no_second_tag() {
    let headers = dialog_headers("c1", "<sip:alice@a.org>;tag=aa", "<sip:bob@b.org>");
    let read = DialogId::from_request(&request(Method::Invite, headers)).unwrap();
    assert_eq!(read.to_tag, "");
    assert!(read != id("c1", "aa", "bb"));
}

#[test]
fn a_request_without_its_dialog_headers_names_no_dialog() {
    let headers = || dialog_headers("c1", "<sip:a@a.org>;tag=aa", "<sip:bob@b.org>;tag=bb");
    for kind in [HeaderKind::CallId, HeaderKind::From, HeaderKind::To] {
        let mut some = headers();
        header_pop(&mut some, kind);
        assert!(DialogId::from_request(&request(Method::Bye, some)).is_none());
    }
    let untagged = dialog_headers("c1", "<sip:a@a.org>", "<sip:bob@b.org>;tag=bb");
    assert!(DialogId::from_request(&request(Method::Bye, untagged)).is_none());
}

#[test]
fn dialogs_are_told_apart_as_the_stack_does() {
    let texts = ["", "x", "y"];
    let mut ids = Vec::new();
    for call_id in texts {
        for from_tag in texts {
            for to_tag in texts {
                ids.push((call_id, from_tag, to_tag));
            }
        }
    }
    let theirs = |(call_id, from_tag, to_tag): (&str, &str, &str)| rsipstack::dialog::DialogId {
        call_id: call_id.to_string(),
        from_tag: from_tag.to_string(),
        to_tag: to_tag.to_string(),
    };
    for a in &ids {
        for b in &ids {
            let same = id(a.0, a.1, a.2).same_dialog(&id(b.0, b.1, b.2));
            assert_eq!(same, theirs(*a) == theirs(*b));
        }
    }
}

fn session(dialog_id: DialogId, last_activity: u128) -> Session {
    Session {
        dialog_id,
        last_activity,
        parties: ("alice".to_string(), "bob".to_string()),
    }
}

#[test]
fn a_dialog_has_one_session() {
    let mut table = SessionTable::new();
    table.insert(id("c", "a", "b"), session(id("c", "a", "b"), 1));
    table.insert(id("d", "a", "b"), session(id("d", "a", "b"), 2));
    table.insert(id("c", "b", "a"), session(id("c", "b", "a"), 3));
    assert_eq!(table.len(), 2);
    assert_eq!(table.get(&id("c", "a", "b")).unwrap().last_activity, 3);
    assert_eq!(table.get(&id("d", "b", "a")).unwrap().last_activity, 2);
    assert!(table.get(&id("e", "a", "b")).is_none());

    table.touch(&id("e", "a", "b"), 9);
    assert_eq!(table.len(), 2);
    table.remove(&id("e", "a", "b"));
    assert_eq!(table.len(), 2);
    table.remove(&id("c", "a", "b"));
    assert_eq!(table.len(), 1);
    assert!(!table.contains_key(&id("c", "b", "a")));
    assert!(table.contains_key(&id("d", "a", "b")));
}

#[test]
fn the_silent_sessions_are_named() {
    let mut table = SessionTable::new();
    for (call_id, time) in [("c", 10), ("d", 20), ("e", 30)] {
        table.insert(id(call_id, "a", "b"), session(id(call_id, "a", "b"), time));
    }
    table.insert(id("c", "b", "a"), session(id("c", "b", "a"), 10));
    let silent = table.expired(31, 10);
    assert_eq!(silent.len(), 2);
    assert!(silent.contains(&id("c", "a", "b")));
    assert!(silent.contains(&id("d", "a", "b")));
    assert_eq!(table.len(), 3);
    table.remove_expired(31, 10);
    assert_eq!(table.len(), 1);
    assert!(table.contains_key(&id("e", "a", "b")));
}
