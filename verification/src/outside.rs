//! The calls into `rsip`, `rsipstack` and the standard library whose contracts are trusted.
//!
//! Every item takes and returns plain text. What a call computes from its arguments by rules that
//! fill pages (the SIP grammar, UTF-8 repair) is given a name; the contract of the call says that
//! its result is that name applied to its arguments.

use crate::text::{occurs_in, option_text, owned_text, result_text};
use rsip::prelude::UntypedHeader;
use rsip::{headers, Header, Method, Request, Uri, Version};
use rsipstack::dialog::DialogId;
use rsipstack::transaction::key::{TransactionKey, TransactionRole};
use vstd::prelude::*;
use vstd::utf8::{decode_utf8, valid_utf8};

verus! {

/// What `String::from_utf8_lossy` makes of `bytes`.
pub uninterp spec fn lossy_text(bytes: Seq<u8>) -> Seq<char>;

/// What `rsip::headers::From::uri` reads in the value of a `From` header: the URI, printed, or the
/// printed error.
pub uninterp spec fn from_uri_text(value: Seq<char>) -> Result<Seq<char>, Seq<char>>;

/// What `rsip::headers::To::uri` reads in the value of a `To` header: the user part of the URI, if
/// it has one, and its host, printed; or the printed error.
pub uninterp spec fn to_uri_parts(value: Seq<char>) -> Result<
    (Option<Seq<char>>, Seq<char>),
    Seq<char>,
>;

/// What `rsipstack::dialog::DialogId::try_from` reads in a request whose first `Call-ID`, `From`
/// and `To` headers have the given values: call id, tag of `From`, tag of `To`.
pub uninterp spec fn dialog_id_parts(
    call_id: Option<Seq<char>>,
    from: Option<Seq<char>>,
    to: Option<Seq<char>>,
) -> Option<(Seq<char>, Seq<char>, Seq<char>)>;

/// What `rsipstack::transaction::key::TransactionKey::from_request` makes, in the client role, of a
/// request with the given method whose first `Via`, `From`, `Call-ID` and `CSeq` headers have the
/// given values: the key, printed, or the printed error.
pub uninterp spec fn client_key_text(
    method: Seq<char>,
    via: Option<Seq<char>>,
    from: Option<Seq<char>>,
    call_id: Option<Seq<char>>,
    cseq: Option<Seq<char>>,
) -> Result<Seq<char>, Seq<char>>;

/// `String::from_utf8_lossy`: the text that the bytes encode, with every sequence that is not
/// UTF-8 replaced. Bytes that are valid UTF-8 are decoded as they stand.
#[verifier::external_body]
pub(crate) fn lossy(bytes: &Vec<u8>) -> (r: String)
    ensures
        r@ == lossy_text(bytes@),
        valid_utf8(bytes@) ==> r@ == decode_utf8(bytes@),
{
    String::from_utf8_lossy(bytes).into_owned()
}

/// `str::contains` with a string pattern: whether the pattern occurs in the text.
#[verifier::external_body]
pub(crate) fn contains(text: &str, part: &str) -> (r: bool)
    ensures
        r == occurs_in(part@, text@),
{
    text.contains(part)
}

/// `rsip::headers::From::uri`, with the URI and the error printed.
#[verifier::external_body]
pub(crate) fn from_uri(value: &str) -> (r: Result<String, String>)
    ensures
        result_text(r) == from_uri_text(value@),
{
    let header = headers::From::new(value);
    header.uri().map(|uri| uri.to_string()).map_err(|e| e.to_string())
}

/// `rsip::headers::To::uri`, with the user and the printed host of the URI, and the error printed.
#[verifier::external_body]
pub(crate) fn to_uri(value: &str) -> (r: Result<(Option<String>, String), String>)
    ensures
        match r {
            Ok(parts) => to_uri_parts(value@) == Ok::<_, Seq<char>>(
                (owned_text(parts.0), parts.1@),
            ),
            Err(e) => to_uri_parts(value@) == Err::<(Option<Seq<char>>, Seq<char>), _>(e@),
        },
{
    let header = headers::To::new(value);
    let uri = header.uri().map_err(|e| e.to_string())?;
    Ok((uri.user().map(|user| user.to_string()), uri.host().to_string()))
}

/// `rsipstack::dialog::DialogId::try_from` on a request that holds the given headers.
///
/// An identifier is read only where all three headers are there, and its call id is the value of
/// the `Call-ID` header as it stands. `From` and `To` are read by the same rules, so a request of
/// the other side, which names the two the other way round, gives the two tags the other way
/// round; this is said where the `To` header has a tag, because `From` must have one.
#[verifier::external_body]
pub(crate) fn dialog_id(call_id: Option<&str>, from: Option<&str>, to: Option<&str>) -> (r: Option<
    (String, String, String),
>)
    ensures
        dialog_id_parts(option_text(call_id), option_text(from), option_text(to)) == match r {
            Some(id) => Some((id.0@, id.1@, id.2@)),
            None => None,
        },
        r matches Some(id) ==> option_text(call_id) == Some(id.0@) && from is Some && to is Some,
        r matches Some(id) ==> id.2@.len() > 0 ==> dialog_id_parts(
            option_text(call_id),
            option_text(to),
            option_text(from),
        ) == Some((id.0@, id.2@, id.1@)),
{
    let headers: Vec<Header> = [
        call_id.map(|value| Header::CallId(value.into())),
        from.map(|value| Header::From(value.into())),
        to.map(|value| Header::To(value.into())),
    ].into_iter().flatten().collect();
    let request = Request {
        method: Method::Bye,
        uri: Uri::default(),
        version: Version::V2,
        headers: headers.into(),
        body: Vec::new(),
    };
    let id = DialogId::try_from(&request).ok()?;
    Some((id.call_id, id.from_tag, id.to_tag))
}

/// `rsipstack::transaction::key::TransactionKey::from_request`, in the client role, on a request
/// with the given method that holds the given headers, with the key and the error printed.
#[verifier::external_body]
pub(crate) fn client_key(
    method: &str,
    via: Option<&str>,
    from: Option<&str>,
    call_id: Option<&str>,
    cseq: Option<&str>,
) -> (r: Result<String, String>)
    ensures
        result_text(r) == client_key_text(
            method@,
            option_text(via),
            option_text(from),
            option_text(call_id),
            option_text(cseq),
        ),
{
    let headers: Vec<Header> = [
        via.map(headers::Via::from).map(Header::from),
        from.map(headers::From::from).map(Header::from),
        call_id.map(headers::CallId::from).map(Header::from),
        cseq.map(headers::CSeq::from).map(Header::from),
    ].into_iter().flatten().collect();
    let request = Request {
        method: method.parse::<Method>().map_err(|e| e.to_string())?,
        uri: Uri::default(),
        version: Version::V2,
        headers: headers.into(),
        body: Vec::new(),
    };
    let key = TransactionKey::from_request(&request, TransactionRole::Client);
    Ok(key.map_err(|e| e.to_string())?.to_string())
}

} // verus!
