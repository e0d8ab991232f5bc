//! Dialogs and how a request names the one it belongs to.

use crate::outside;
use crate::outside::dialog_id_parts;
use crate::sip::{HeaderKind, Request, RequestView};
use vstd::prelude::*;

verus! {

/// What names a dialog: the call id and the tags that the two sides chose.
#[derive(Debug)]
pub struct DialogId {
    pub call_id: String,
    pub from_tag: String,
    pub to_tag: String,
}

/// The mathematical value of a [`DialogId`].
pub struct DialogIdView {
    pub call_id: Seq<char>,
    pub from_tag: Seq<char>,
    pub to_tag: Seq<char>,
}

/// What a dialog is, whichever side names it: the two tags have no order.
#[verifier::ext_equal]
pub struct DialogKey {
    pub call_id: Seq<char>,
    pub tags: Set<Seq<char>>,
}

impl View for DialogId {
    type V = DialogIdView;

    open spec fn view(&self) -> DialogIdView {
        DialogIdView {
            call_id: self.call_id@,
            from_tag: self.from_tag@,
            to_tag: self.to_tag@,
        }
    }
}

impl DialogIdView {
    /// The dialog that is named.
    pub open spec fn key(self) -> DialogKey {
        DialogKey { call_id: self.call_id, tags: set![self.from_tag, self.to_tag] }
    }

    /// The name that the other side has for the dialog.
    pub open spec fn swapped(self) -> DialogIdView {
        DialogIdView { call_id: self.call_id, from_tag: self.to_tag, to_tag: self.from_tag }
    }
}

/// Whether two names stand for the same dialog: the call ids are equal, and so are the tags, in the
/// same order or the other way round.
pub open spec fn same_dialog(a: DialogIdView, b: DialogIdView) -> bool {
    &&& a.call_id == b.call_id
    &&& ({
        ||| a.from_tag == b.from_tag && a.to_tag == b.to_tag
        ||| a.from_tag == b.to_tag && a.to_tag == b.from_tag
    })
}

/// Two names stand for the same dialog exactly when they have the same key.
pub proof fn lemma_same_dialog_is_same_key(a: DialogIdView, b: DialogIdView)
    ensures
        same_dialog(a, b) <==> a.key() == b.key(),
{
    if same_dialog(a, b) {
        assert(a.key().tags =~= b.key().tags);
    }
    if a.key() == b.key() {
        assert(a.key().tags.contains(a.from_tag) && a.key().tags.contains(a.to_tag));
        assert(b.key().tags.contains(b.from_tag) && b.key().tags.contains(b.to_tag));
    }
}

impl PartialEq for DialogId {
    fn eq(&self, other: &DialogId) -> (r: bool) {
        self.same_dialog(other)
    }
}

impl Eq for DialogId {

}

impl vstd::std_specs::cmp::PartialEqSpecImpl for DialogId {
    open spec fn obeys_eq_spec() -> bool {
        true
    }

    open spec fn eq_spec(&self, other: &DialogId) -> bool {
        same_dialog(self@, other@)
    }
}

impl Clone for DialogId {
    fn clone(&self) -> (r: Self)
        ensures
            r@ == self@,
    {
        DialogId {
            call_id: self.call_id.clone(),
            from_tag: self.from_tag.clone(),
            to_tag: self.to_tag.clone(),
        }
    }
}

impl DialogId {
    /// Whether two names stand for the same dialog.
    pub fn same_dialog(&self, other: &DialogId) -> (r: bool)
        ensures
            r == same_dialog(self@, other@),
            r == (self@.key() == other@.key()),
    {
        proof {
            lemma_same_dialog_is_same_key(self@, other@);
        }
        if self.call_id != other.call_id {
            return false;
        }
        if self.from_tag == other.from_tag && self.to_tag == other.to_tag {
            return true;
        }
        self.from_tag == other.to_tag && self.to_tag == other.from_tag
    }

    /// Reads the name of the dialog that a request belongs to. A request that starts a dialog has
    /// no tag in its `To` header yet; the tag is empty in the name. Once both sides have a tag, a
    /// request of the other side names the same dialog, with the tags the other way round.
    pub fn from_request(request: &Request) -> (r: Option<DialogId>)
        ensures
            request@.dialog_id() == match r {
                Some(id) => Some(id@),
                None => None,
            },
            match dialog_id_parts(
                request@.header(HeaderKind::CallId),
                request@.header(HeaderKind::From),
                request@.header(HeaderKind::To),
            ) {
                Some(parts) => r matches Some(id) && id.call_id@ == parts.0 && id.from_tag@
                    == parts.1 && id.to_tag@ == parts.2,
                None => r is None,
            },
            r matches Some(id) ==> request@.header(HeaderKind::CallId) == Some(id@.call_id)
                && request@.header(HeaderKind::From) is Some && request@.header(HeaderKind::To) is Some,
            r matches Some(id) ==> id@.to_tag.len() > 0 ==> forall|other: RequestView|
                answers(other, request@) ==> #[trigger] other.dialog_id() == Some(id@.swapped()),
    {
        let parts = outside::dialog_id(
            request.header(HeaderKind::CallId),
            request.header(HeaderKind::From),
            request.header(HeaderKind::To),
        );
        match parts {
            Some((call_id, from_tag, to_tag)) => Some(DialogId { call_id, from_tag, to_tag }),
            None => None,
        }
    }
}

/// Whether a request has the dialog headers of another one with `From` and `To` exchanged, as a
/// request of the other side has.
pub open spec fn answers(other: RequestView, request: RequestView) -> bool {
    &&& other.header(HeaderKind::CallId) == request.header(HeaderKind::CallId)
    &&& other.header(HeaderKind::From) == request.header(HeaderKind::To)
    &&& other.header(HeaderKind::To) == request.header(HeaderKind::From)
}

impl RequestView {
    /// The name of the dialog that the request belongs to.
    pub open spec fn dialog_id(self) -> Option<DialogIdView> {
        match dialog_id_parts(
            self.header(HeaderKind::CallId),
            self.header(HeaderKind::From),
            self.header(HeaderKind::To),
        ) {
            Some((call_id, from_tag, to_tag)) => Some(DialogIdView { call_id, from_tag, to_tag }),
            None => None,
        }
    }
}

} // verus!
