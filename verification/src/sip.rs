//! SIP messages, as far as a call-stateful proxy reads and rewrites them.

use crate::outside;
use crate::outside::client_key_text;
use crate::text::{option_text, owned_text, result_text};
use vstd::prelude::*;

verus! {

/// The method of a SIP request.
#[derive(Clone, Copy, Debug, PartialEq, Eq, Structural)]
pub enum Method {
    Ack,
    Bye,
    Cancel,
    Info,
    Invite,
    Message,
    Notify,
    Options,
    PRack,
    Publish,
    Refer,
    Register,
    Subscribe,
    Update,
}

impl Method {
    /// The token that stands for the method in a request line.
    pub open spec fn token(self) -> Seq<char> {
        match self {
            Method::Ack => "ACK"@,
            Method::Bye => "BYE"@,
            Method::Cancel => "CANCEL"@,
            Method::Info => "INFO"@,
            Method::Invite => "INVITE"@,
            Method::Message => "MESSAGE"@,
            Method::Notify => "NOTIFY"@,
            Method::Options => "OPTIONS"@,
            Method::PRack => "PRACK"@,
            Method::Publish => "PUBLISH"@,
            Method::Refer => "REFER"@,
            Method::Register => "REGISTER"@,
            Method::Subscribe => "SUBSCRIBE"@,
            Method::Update => "UPDATE"@,
        }
    }

    /// The token that stands for the method in a request line.
    pub fn name(self) -> (r: &'static str)
        ensures
            r@ == self.token(),
    {
        match self {
            Method::Ack => "ACK",
            Method::Bye => "BYE",
            Method::Cancel => "CANCEL",
            Method::Info => "INFO",
            Method::Invite => "INVITE",
            Method::Message => "MESSAGE",
            Method::Notify => "NOTIFY",
            Method::Options => "OPTIONS",
            Method::PRack => "PRACK",
            Method::Publish => "PUBLISH",
            Method::Refer => "REFER",
            Method::Register => "REGISTER",
            Method::Subscribe => "SUBSCRIBE",
            Method::Update => "UPDATE",
        }
    }
}

/// The kinds of header that the proxy tells apart.
#[derive(Clone, Copy, Debug, PartialEq, Eq, Structural)]
pub enum HeaderKind {
    CSeq,
    CallId,
    ContentType,
    From,
    RecordRoute,
    To,
    Via,
    Other,
}

/// A header with its value, which is not parsed. A header of any other kind has its name with it.
#[derive(Debug, PartialEq, Eq)]
pub enum Header {
    CSeq(String),
    CallId(String),
    ContentType(String),
    From(String),
    RecordRoute(String),
    To(String),
    Via(String),
    Other(String, String),
}

/// The mathematical value of a [`Header`].
pub struct HeaderView {
    pub kind: HeaderKind,
    /// Empty but for a header of the kind `Other`.
    pub name: Seq<char>,
    pub value: Seq<char>,
}

impl View for Header {
    type V = HeaderView;

    open spec fn view(&self) -> HeaderView {
        let known = |kind: HeaderKind, value: String| HeaderView { kind, name: Seq::empty(), value: value@ };
        match *self {
            Header::CSeq(value) => known(HeaderKind::CSeq, value),
            Header::CallId(value) => known(HeaderKind::CallId, value),
            Header::ContentType(value) => known(HeaderKind::ContentType, value),
            Header::From(value) => known(HeaderKind::From, value),
            Header::RecordRoute(value) => known(HeaderKind::RecordRoute, value),
            Header::To(value) => known(HeaderKind::To, value),
            Header::Via(value) => known(HeaderKind::Via, value),
            Header::Other(name, value) => HeaderView {
                kind: HeaderKind::Other,
                name: name@,
                value: value@,
            },
        }
    }
}

impl Clone for Header {
    fn clone(&self) -> (r: Self)
        ensures
            r@ == self@,
    {
        match self {
            Header::CSeq(value) => Header::CSeq(value.clone()),
            Header::CallId(value) => Header::CallId(value.clone()),
            Header::ContentType(value) => Header::ContentType(value.clone()),
            Header::From(value) => Header::From(value.clone()),
            Header::RecordRoute(value) => Header::RecordRoute(value.clone()),
            Header::To(value) => Header::To(value.clone()),
            Header::Via(value) => Header::Via(value.clone()),
            Header::Other(name, value) => Header::Other(name.clone(), value.clone()),
        }
    }
}

impl Header {
    /// The kind of the header.
    pub fn kind(&self) -> (r: HeaderKind)
        ensures
            r == self@.kind,
    {
        match self {
            Header::CSeq(_) => HeaderKind::CSeq,
            Header::CallId(_) => HeaderKind::CallId,
            Header::ContentType(_) => HeaderKind::ContentType,
            Header::From(_) => HeaderKind::From,
            Header::RecordRoute(_) => HeaderKind::RecordRoute,
            Header::To(_) => HeaderKind::To,
            Header::Via(_) => HeaderKind::Via,
            Header::Other(_, _) => HeaderKind::Other,
        }
    }

    /// The value of the header.
    pub fn value(&self) -> (r: &str)
        ensures
            r@ == self@.value,
    {
        match self {
            Header::CSeq(value) => value.as_str(),
            Header::CallId(value) => value.as_str(),
            Header::ContentType(value) => value.as_str(),
            Header::From(value) => value.as_str(),
            Header::RecordRoute(value) => value.as_str(),
            Header::To(value) => value.as_str(),
            Header::Via(value) => value.as_str(),
            Header::Other(_, value) => value.as_str(),
        }
    }
}

/// The mathematical value of a list of headers.
pub open spec fn headers_view(headers: Seq<Header>) -> Seq<HeaderView> {
    headers.map_values(|header: Header| header@)
}

/// Whether the first header of the given kind stands at position `i`.
pub open spec fn is_first(headers: Seq<HeaderView>, kind: HeaderKind, i: int) -> bool {
    &&& 0 <= i < headers.len()
    &&& headers[i].kind == kind
    &&& forall|j: int| 0 <= j < i ==> (#[trigger] headers[j]).kind != kind
}

/// The position of the first header of the given kind.
pub open spec fn first_index(headers: Seq<HeaderView>, kind: HeaderKind) -> Option<int> {
    if exists|i: int| is_first(headers, kind, i) {
        Some(choose|i: int| is_first(headers, kind, i))
    } else {
        None
    }
}

/// The value of the first header of the given kind.
pub open spec fn first_value(headers: Seq<HeaderView>, kind: HeaderKind) -> Option<Seq<char>> {
    match first_index(headers, kind) {
        Some(i) => Some(headers[i].value),
        None => None,
    }
}

/// The headers without the first one of the given kind.
pub open spec fn without_first(headers: Seq<HeaderView>, kind: HeaderKind) -> Seq<HeaderView> {
    match first_index(headers, kind) {
        Some(i) => headers.remove(i),
        None => headers,
    }
}

/// A `Via` header with the given value.
pub open spec fn via_header(value: Seq<char>) -> HeaderView {
    HeaderView { kind: HeaderKind::Via, name: Seq::empty(), value }
}

/// A `Record-Route` header with the given value.
pub open spec fn record_route_header(value: Seq<char>) -> HeaderView {
    HeaderView { kind: HeaderKind::RecordRoute, name: Seq::empty(), value }
}

/// There is at most one position at which the first header of a kind stands.
pub proof fn lemma_first_index(headers: Seq<HeaderView>, kind: HeaderKind, i: int)
    requires
        is_first(headers, kind, i),
    ensures
        first_index(headers, kind) == Some(i),
{
    let c = choose|c: int| is_first(headers, kind, c);
    if c < i {
        assert(headers[c].kind != kind);
    } else if i < c {
        assert(headers[i].kind != kind);
    }
}

/// The position of the first header of the given kind.
fn position(headers: &Vec<Header>, kind: HeaderKind) -> (r: Option<usize>)
    ensures
        first_index(headers_view(headers@), kind) == match r {
            Some(i) => Some(i as int),
            None => None,
        },
        r matches Some(i) ==> i < headers@.len(),
{
    let mut i: usize = 0;
    while i < headers.len()
        invariant
            i <= headers@.len(),
            forall|j: int| 0 <= j < i ==> (#[trigger] headers_view(headers@)[j]).kind != kind,
        decreases headers@.len() - i,
    {
        assert(headers_view(headers@)[i as int] == headers@[i as int]@);
        if headers[i].kind() == kind {
            proof {
                lemma_first_index(headers_view(headers@), kind, i as int);
            }
            return Some(i);
        }
        i += 1;
    }
    None
}

/// The value of the first header of the given kind.
pub fn header_value(headers: &Vec<Header>, kind: HeaderKind) -> (r: Option<&str>)
    ensures
        option_text(r) == first_value(headers_view(headers@), kind),
{
    match position(headers, kind) {
        Some(i) => Some(headers[i].value()),
        None => None,
    }
}

/// Puts a header in front of all others.
pub fn push_front(headers: &mut Vec<Header>, header: Header)
    ensures
        headers_view(final(headers)@) == seq![header@] + headers_view(old(headers)@),
{
    headers.insert(0, header);
    assert(headers_view(headers@) =~= seq![header@] + headers_view(old(headers)@));
}

/// Takes the first header of the given kind away, if there is one.
pub fn header_pop(headers: &mut Vec<Header>, kind: HeaderKind)
    ensures
        headers_view(final(headers)@) == without_first(headers_view(old(headers)@), kind),
{
    if let Some(i) = position(headers, kind) {
        let _removed = headers.remove(i);
        assert(headers_view(headers@) =~= headers_view(old(headers)@).remove(i as int));
    }
}

/// A SIP request.
#[derive(Debug, PartialEq, Eq)]
pub struct Request {
    pub method: Method,
    pub uri: String,
    pub headers: Vec<Header>,
    pub body: Vec<u8>,
}

/// The mathematical value of a [`Request`].
pub struct RequestView {
    pub method: Method,
    pub uri: Seq<char>,
    pub headers: Seq<HeaderView>,
    pub body: Seq<u8>,
}

impl View for Request {
    type V = RequestView;

    open spec fn view(&self) -> RequestView {
        RequestView {
            method: self.method,
            uri: self.uri@,
            headers: headers_view(self.headers@),
            body: self.body@,
        }
    }
}

impl Clone for Request {
    fn clone(&self) -> (r: Self)
        ensures
            r@ == self@,
    {
        let headers = self.headers.clone();
        let body = self.body.clone();
        assert(headers_view(headers@) =~= headers_view(self.headers@));
        assert(body@ =~= self.body@);
        Request { method: self.method, uri: self.uri.clone(), headers, body }
    }
}

impl RequestView {
    /// The value of the first header of the given kind.
    pub open spec fn header(self, kind: HeaderKind) -> Option<Seq<char>> {
        first_value(self.headers, kind)
    }

    /// The request with a `Via` header in front, and in front of that a `Record-Route` header, if
    /// one is given.
    pub open spec fn routed(self, via: Seq<char>, record_route: Option<Seq<char>>) -> RequestView {
        let added = match record_route {
            Some(route) => seq![record_route_header(route), via_header(via)],
            None => seq![via_header(via)],
        };
        RequestView { headers: added + self.headers, ..self }
    }

    /// The key of the client transaction that sends the request, printed, or the printed error.
    pub open spec fn client_key(self) -> Result<Seq<char>, Seq<char>> {
        client_key_text(
            self.method.token(),
            self.header(HeaderKind::Via),
            self.header(HeaderKind::From),
            self.header(HeaderKind::CallId),
            self.header(HeaderKind::CSeq),
        )
    }
}

impl Request {
    /// The value of the first header of the given kind.
    pub fn header(&self, kind: HeaderKind) -> (r: Option<&str>)
        ensures
            option_text(r) == self@.header(kind),
    {
        header_value(&self.headers, kind)
    }

    /// Puts a `Via` header in front of the others, and a `Record-Route` header, if one is given, in
    /// front of that.
    pub fn route(&mut self, via: String, record_route: Option<String>)
        ensures
            final(self)@ == old(self)@.routed(via@, owned_text(record_route)),
    {
        push_front(&mut self.headers, Header::Via(via));
        if let Some(route) = record_route {
            push_front(&mut self.headers, Header::RecordRoute(route));
        }
        assert(self@.headers =~= old(self)@.routed(via@, owned_text(record_route)).headers);
    }

    /// The key of the client transaction that sends the request, printed, or the printed error.
    pub fn client_key(&self) -> (r: Result<String, String>)
        ensures
            result_text(r) == self@.client_key(),
    {
        outside::client_key(
            self.method.name(),
            self.header(HeaderKind::Via),
            self.header(HeaderKind::From),
            self.header(HeaderKind::CallId),
            self.header(HeaderKind::CSeq),
        )
    }
}

/// A SIP response.
#[derive(Debug, PartialEq, Eq)]
pub struct Response {
    pub status: u16,
    pub headers: Vec<Header>,
    pub body: Vec<u8>,
}

/// The mathematical value of a [`Response`].
pub struct ResponseView {
    pub status: u16,
    pub headers: Seq<HeaderView>,
    pub body: Seq<u8>,
}

impl View for Response {
    type V = ResponseView;

    open spec fn view(&self) -> ResponseView {
        ResponseView {
            status: self.status,
            headers: headers_view(self.headers@),
            body: self.body@,
        }
    }
}

impl ResponseView {
    /// Whether the status is of the class 2xx.
    pub open spec fn successful(self) -> bool {
        200 <= self.status < 300
    }

    /// The response as it goes on to the previous hop: without the first `Via` header, which is the
    /// proxy's own.
    pub open spec fn relayed(self) -> ResponseView {
        ResponseView { headers: without_first(self.headers, HeaderKind::Via), ..self }
    }
}

impl Response {
    /// Whether the status is of the class 2xx.
    pub fn is_successful(&self) -> (r: bool)
        ensures
            r == self@.successful(),
            r == (200 <= self.status < 300),
    {
        200 <= self.status && self.status < 300
    }

    /// Takes the first `Via` header away.
    pub fn pop_via(&mut self)
        ensures
            final(self)@ == old(self)@.relayed(),
    {
        header_pop(&mut self.headers, HeaderKind::Via);
    }
}

/// A SIP message.
#[derive(Debug, PartialEq, Eq)]
pub enum Message {
    Request(Request),
    Response(Response),
}

/// The mathematical value of a [`Message`].
pub enum MessageView {
    Request(RequestView),
    Response(ResponseView),
}

impl View for Message {
    type V = MessageView;

    open spec fn view(&self) -> MessageView {
        match *self {
            Message::Request(request) => MessageView::Request(request@),
            Message::Response(response) => MessageView::Response(response@),
        }
    }
}

/// Where a request is sent: a host with an optional port, and the transport to use, if one is
/// asked for.
#[derive(Debug, PartialEq, Eq)]
pub struct SipAddr {
    pub transport: Option<String>,
    pub addr: String,
}

/// The mathematical value of a [`SipAddr`].
pub struct SipAddrView {
    pub transport: Option<Seq<char>>,
    pub addr: Seq<char>,
}

impl View for SipAddr {
    type V = SipAddrView;

    open spec fn view(&self) -> SipAddrView {
        SipAddrView { transport: owned_text(self.transport), addr: self.addr@ }
    }
}

impl Clone for SipAddr {
    fn clone(&self) -> (r: Self)
        ensures
            r@ == self@,
    {
        let transport = match &self.transport {
            Some(transport) => Some(transport.clone()),
            None => None,
        };
        SipAddr { transport, addr: self.addr.clone() }
    }
}

} // verus!
