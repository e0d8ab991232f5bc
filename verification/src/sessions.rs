//! The sessions that the proxy knows of, one for each dialog.

use crate::dialog::{DialogId, DialogIdView, DialogKey};
use vstd::prelude::*;

verus! {

/// An established call.
#[derive(Debug)]
pub struct Session {
    pub dialog_id: DialogId,
    /// When the call was last heard of, in nanoseconds since some fixed moment.
    pub last_activity: u128,
    /// The caller and the callee.
    pub parties: (String, String),
}

/// The mathematical value of a [`Session`].
pub struct SessionView {
    pub dialog_id: DialogIdView,
    pub last_activity: nat,
    pub caller: Seq<char>,
    pub callee: Seq<char>,
}

impl View for Session {
    type V = SessionView;

    open spec fn view(&self) -> SessionView {
        SessionView {
            dialog_id: self.dialog_id@,
            last_activity: self.last_activity as nat,
            caller: self.parties.0@,
            callee: self.parties.1@,
        }
    }
}

impl Clone for Session {
    fn clone(&self) -> (r: Self)
        ensures
            r@ == self@,
    {
        Session {
            dialog_id: self.dialog_id.clone(),
            last_activity: self.last_activity,
            parties: (self.parties.0.clone(), self.parties.1.clone()),
        }
    }
}

/// How long ago `earlier` was, at `now`. A moment that has not come yet counts as no time ago.
pub open spec fn elapsed(now: nat, earlier: nat) -> nat {
    if now >= earlier {
        (now - earlier) as nat
    } else {
        0
    }
}

impl SessionView {
    /// Whether the session has been silent for longer than `timeout`.
    pub open spec fn expired(self, now: nat, timeout: nat) -> bool {
        elapsed(now, self.last_activity) > timeout
    }

    /// The session with its last activity at `now`.
    pub open spec fn touched(self, now: nat) -> SessionView {
        SessionView { last_activity: now, ..self }
    }
}

/// The sessions that have not expired.
pub open spec fn surviving(
    sessions: Map<DialogKey, SessionView>,
    now: nat,
    timeout: nat,
) -> Map<DialogKey, SessionView> {
    Map::new(
        |key: DialogKey| sessions.contains_key(key) && !sessions[key].expired(now, timeout),
        |key: DialogKey| sessions[key],
    )
}

/// The sessions after activity in the given dialog: its session, if there is one, has its last
/// activity at `now`.
pub open spec fn touched(
    sessions: Map<DialogKey, SessionView>,
    key: DialogKey,
    now: nat,
) -> Map<DialogKey, SessionView> {
    if sessions.contains_key(key) {
        sessions.insert(key, sessions[key].touched(now))
    } else {
        sessions
    }
}

/// The sessions by dialog.
#[derive(Debug)]
pub struct SessionTable {
    entries: Vec<(DialogId, Session)>,
}

/// The map that a list of entries stands for.
spec fn entries_map(entries: Seq<(DialogId, Session)>) -> Map<DialogKey, SessionView>
    decreases entries.len(),
{
    if entries.len() == 0 {
        Map::empty()
    } else {
        entries_map(entries.drop_last()).insert(entries.last().0@.key(), entries.last().1@)
    }
}

/// Whether no two entries are of the same dialog.
spec fn distinct(entries: Seq<(DialogId, Session)>) -> bool {
    forall|i: int, j: int|
        0 <= i < j < entries.len() ==> #[trigger] entries[i].0@.key() != #[trigger] entries[j].0@.key()
}

/// Whether some entry is of the dialog.
spec fn listed(entries: Seq<(DialogId, Session)>, key: DialogKey) -> bool {
    exists|i: int| 0 <= i < entries.len() && #[trigger] entries[i].0@.key() == key
}

proof fn lemma_entries_map(entries: Seq<(DialogId, Session)>)
    requires
        distinct(entries),
    ensures
        entries_map(entries).dom().finite(),
        entries_map(entries).len() == entries.len(),
        forall|key: DialogKey| #[trigger] entries_map(entries).contains_key(key) <==> listed(entries, key),
        forall|i: int|
            0 <= i < entries.len() ==> entries_map(entries)[#[trigger] entries[i].0@.key()] == entries[i].1@,
    decreases entries.len(),
{
    if entries.len() > 0 {
        let front = entries.drop_last();
        let last = entries.last();
        lemma_entries_map(front);
        assert(!listed(front, last.0@.key())) by {
            if listed(front, last.0@.key()) {
                let i = choose|i: int| 0 <= i < front.len() && #[trigger] front[i].0@.key() == last.0@.key();
                assert(entries[i].0@.key() != entries[entries.len() - 1].0@.key());
            }
        }
        assert forall|key: DialogKey| #[trigger] entries_map(entries).contains_key(key) <==> listed(
            entries,
            key,
        ) by {
            if listed(front, key) {
                let i = choose|i: int| 0 <= i < front.len() && #[trigger] front[i].0@.key() == key;
                assert(entries[i].0@.key() == key);
            }
            if key == last.0@.key() {
                assert(entries[entries.len() - 1].0@.key() == key);
            }
            if listed(entries, key) {
                let i = choose|i: int| 0 <= i < entries.len() && #[trigger] entries[i].0@.key() == key;
                if i < front.len() {
                    assert(front[i].0@.key() == key);
                }
            }
        }
        assert forall|i: int| 0 <= i < entries.len() implies entries_map(
            entries,
        )[#[trigger] entries[i].0@.key()] == entries[i].1@ by {
            if i < front.len() {
                assert(front[i].0@.key() == entries[i].0@.key());
                assert(listed(front, front[i].0@.key()));
            }
        }
    }
}

/// A map that has the dialogs of the entries, each with the session of its entry, is the map that
/// the entries stand for.
proof fn lemma_is_entries_map(entries: Seq<(DialogId, Session)>, map: Map<DialogKey, SessionView>)
    requires
        distinct(entries),
        forall|key: DialogKey| #[trigger] map.contains_key(key) <==> listed(entries, key),
        forall|i: int|
            0 <= i < entries.len() ==> map[#[trigger] entries[i].0@.key()] == entries[i].1@,
    ensures
        entries_map(entries) == map,
{
    lemma_entries_map(entries);
    assert forall|key: DialogKey| map.contains_key(key) implies entries_map(entries)[key]
        == map[key] by {
        let i = choose|i: int| 0 <= i < entries.len() && #[trigger] entries[i].0@.key() == key;
        assert(entries[i].0@.key() == key);
    }
    assert(entries_map(entries) =~= map);
}

/// Another session in one entry is another session of that dialog.
proof fn lemma_replaced(
    before: Seq<(DialogId, Session)>,
    after: Seq<(DialogId, Session)>,
    i: int,
)
    requires
        distinct(before),
        0 <= i < before.len(),
        after == before.update(i, (before[i].0, after[i].1)),
    ensures
        distinct(after),
        entries_map(after) == entries_map(before).insert(before[i].0@.key(), after[i].1@),
{
    lemma_entries_map(before);
    assert forall|j: int| 0 <= j < before.len() implies #[trigger] after[j].0 == before[j].0 by {}
    let map = entries_map(before).insert(before[i].0@.key(), after[i].1@);
    assert forall|key: DialogKey| #[trigger] map.contains_key(key) <==> listed(after, key) by {
        if listed(before, key) {
            let j = choose|j: int| 0 <= j < before.len() && #[trigger] before[j].0@.key() == key;
            assert(after[j].0@.key() == key);
        }
        if listed(after, key) {
            let j = choose|j: int| 0 <= j < after.len() && #[trigger] after[j].0@.key() == key;
            assert(before[j].0@.key() == key);
        }
        assert(after[i].0@.key() == before[i].0@.key());
    }
    assert forall|j: int| 0 <= j < after.len() implies map[#[trigger] after[j].0@.key()]
        == after[j].1@ by {
        assert(before[j].0@.key() == after[j].0@.key());
    }
    lemma_is_entries_map(after, map);
}

/// An entry of a new dialog is a session more.
proof fn lemma_pushed(entries: Seq<(DialogId, Session)>, entry: (DialogId, Session))
    requires
        distinct(entries),
        !listed(entries, entry.0@.key()),
    ensures
        distinct(entries.push(entry)),
        entries_map(entries.push(entry)) == entries_map(entries).insert(
            entry.0@.key(),
            entry.1@,
        ),
{
    let after = entries.push(entry);
    assert(after.drop_last() =~= entries);
    assert forall|a: int, b: int| 0 <= a < b < after.len() implies #[trigger] after[a].0@.key()
        != #[trigger] after[b].0@.key() by {
        assert(after[a] == entries[a]);
        assert(entries[a].0@.key() == after[a].0@.key());
        if b < entries.len() {
            assert(entries[b].0@.key() == after[b].0@.key());
        }
    }
}

/// An entry less is a session less.
proof fn lemma_removed(entries: Seq<(DialogId, Session)>, i: int)
    requires
        distinct(entries),
        0 <= i < entries.len(),
    ensures
        distinct(entries.remove(i)),
        entries_map(entries.remove(i)) == entries_map(entries).remove(entries[i].0@.key()),
{
    lemma_entries_map(entries);
    let after = entries.remove(i);
    let key_of = |j: int| if j < i { j } else { j + 1 };
    assert forall|a: int, b: int| 0 <= a < b < after.len() implies #[trigger] after[a].0@.key()
        != #[trigger] after[b].0@.key() by {
        assert(after[a].0@.key() == entries[key_of(a)].0@.key());
        assert(after[b].0@.key() == entries[key_of(b)].0@.key());
    }
    let map = entries_map(entries).remove(entries[i].0@.key());
    assert forall|key: DialogKey| #[trigger] map.contains_key(key) <==> listed(after, key) by {
        if listed(entries, key) && key != entries[i].0@.key() {
            let j = choose|j: int| 0 <= j < entries.len() && #[trigger] entries[j].0@.key() == key;
            let k = if j < i { j } else { j - 1 };
            assert(after[k].0@.key() == key);
        }
        if listed(after, key) {
            let j = choose|j: int| 0 <= j < after.len() && #[trigger] after[j].0@.key() == key;
            assert(entries[key_of(j)].0@.key() == key);
            assert(entries[key_of(j)].0@.key() != entries[i].0@.key());
        }
    }
    assert forall|j: int| 0 <= j < after.len() implies map[#[trigger] after[j].0@.key()]
        == after[j].1@ by {
        assert(entries[key_of(j)].0@.key() == after[j].0@.key());
        assert(entries[key_of(j)].0@.key() != entries[i].0@.key());
    }
    lemma_is_entries_map(after, map);
}

/// Whether one of the names stands for the dialog.
pub open spec fn named(ids: Seq<DialogId>, key: DialogKey) -> bool {
    exists|i: int| 0 <= i < ids.len() && #[trigger] ids[i]@.key() == key
}

/// One name more stands for one dialog more.
proof fn lemma_named_push(ids: Seq<DialogId>, id: DialogId, key: DialogKey)
    ensures
        named(ids.push(id), key) <==> named(ids, key) || id@.key() == key,
{
    let after = ids.push(id);
    if named(ids, key) {
        let i = choose|i: int| 0 <= i < ids.len() && #[trigger] ids[i]@.key() == key;
        assert(after[i]@.key() == key);
    }
    if id@.key() == key {
        assert(after[ids.len() as int]@.key() == key);
    }
    if named(after, key) {
        let i = choose|i: int| 0 <= i < after.len() && #[trigger] after[i]@.key() == key;
        if i < ids.len() {
            assert(ids[i]@.key() == key);
        }
    }
}

impl View for SessionTable {
    type V = Map<DialogKey, SessionView>;

    closed spec fn view(&self) -> Map<DialogKey, SessionView> {
        entries_map(self.entries@)
    }
}

impl SessionTable {
    /// No dialog has two sessions.
    pub closed spec fn wf(&self) -> bool {
        distinct(self.entries@)
    }

    /// A table without sessions.
    pub fn new() -> (r: SessionTable)
        ensures
            r.wf(),
            r@ == Map::<DialogKey, SessionView>::empty(),
    {
        SessionTable { entries: Vec::new() }
    }

    fn position(&self, dialog_id: &DialogId) -> (r: Option<usize>)
        requires
            self.wf(),
        ensures
            match r {
                Some(i) => i < self.entries@.len() && self.entries@[i as int].0@.key() == dialog_id@.key(),
                None => !listed(self.entries@, dialog_id@.key()),
            },
    {
        let mut i: usize = 0;
        while i < self.entries.len()
            invariant
                i <= self.entries@.len(),
                forall|j: int| 0 <= j < i ==> #[trigger] self.entries@[j].0@.key() != dialog_id@.key(),
            decreases self.entries@.len() - i,
        {
            if self.entries[i].0.same_dialog(dialog_id) {
                return Some(i);
            }
            i += 1;
        }
        None
    }

    /// The number of sessions.
    pub fn len(&self) -> (r: usize)
        requires
            self.wf(),
        ensures
            r == self@.len(),
    {
        proof {
            lemma_entries_map(self.entries@);
        }
        self.entries.len()
    }

    /// Whether the dialog has a session.
    pub fn contains_key(&self, dialog_id: &DialogId) -> (r: bool)
        requires
            self.wf(),
        ensures
            r == self@.contains_key(dialog_id@.key()),
    {
        proof {
            lemma_entries_map(self.entries@);
        }
        self.position(dialog_id).is_some()
    }

    /// The session of the dialog.
    pub fn get(&self, dialog_id: &DialogId) -> (r: Option<&Session>)
        requires
            self.wf(),
        ensures
            match r {
                Some(session) => self@.contains_key(dialog_id@.key()) && session@ == self@[dialog_id@.key()],
                None => !self@.contains_key(dialog_id@.key()),
            },
    {
        proof {
            lemma_entries_map(self.entries@);
        }
        match self.position(dialog_id) {
            Some(i) => Some(&self.entries[i].1),
            None => None,
        }
    }

    /// Gives the dialog a session, in place of the one that it had, if it had one.
    pub fn insert(&mut self, dialog_id: DialogId, session: Session)
        requires
            old(self).wf(),
        ensures
            final(self).wf(),
            final(self)@ == old(self)@.insert(dialog_id@.key(), session@),
    {
        match self.position(&dialog_id) {
            Some(i) => {
                self.entries[i].1 = session;
                proof {
                    lemma_replaced(old(self).entries@, self.entries@, i as int);
                }
            },
            None => {
                proof {
                    lemma_pushed(self.entries@, (dialog_id, session));
                }
                self.entries.push((dialog_id, session));
            },
        }
    }

    /// Notes activity in the dialog at `now`, if the dialog has a session.
    pub fn touch(&mut self, dialog_id: &DialogId, now: u128)
        requires
            old(self).wf(),
        ensures
            final(self).wf(),
            final(self)@ == touched(old(self)@, dialog_id@.key(), now as nat),
            final(self)@.dom() == old(self)@.dom(),
            old(self)@.contains_key(dialog_id@.key()) ==> final(self)@ == old(self)@.insert(
                dialog_id@.key(),
                SessionView {
                    dialog_id: old(self)@[dialog_id@.key()].dialog_id,
                    last_activity: now as nat,
                    caller: old(self)@[dialog_id@.key()].caller,
                    callee: old(self)@[dialog_id@.key()].callee,
                },
            ),
            !old(self)@.contains_key(dialog_id@.key()) ==> final(self)@ == old(self)@,
    {
        proof {
            lemma_entries_map(self.entries@);
        }
        if let Some(i) = self.position(dialog_id) {
            self.entries[i].1.last_activity = now;
            proof {
                lemma_replaced(old(self).entries@, self.entries@, i as int);
            }
        }
    }

    /// Takes the session of the dialog away, if it has one.
    pub fn remove(&mut self, dialog_id: &DialogId)
        requires
            old(self).wf(),
        ensures
            final(self).wf(),
            final(self)@ == old(self)@.remove(dialog_id@.key()),
    {
        match self.position(dialog_id) {
            Some(i) => {
                let _removed = self.entries.remove(i);
                proof {
                    lemma_removed(old(self).entries@, i as int);
                }
            },
            None => {
                proof {
                    lemma_entries_map(self.entries@);
                    assert(self@ =~= self@.remove(dialog_id@.key()));
                }
            },
        }
    }

    /// Names the dialogs whose sessions have been silent for longer than `timeout`, each one once.
    pub fn expired(&self, now: u128, timeout: u128) -> (r: Vec<DialogId>)
        requires
            self.wf(),
        ensures
            forall|key: DialogKey| #[trigger] named(r@, key) <==> self@.contains_key(key) && self@[key].expired(
                now as nat,
                timeout as nat,
            ),
            forall|i: int, j: int| 0 <= i < j < r@.len() ==> r@[i]@.key() != r@[j]@.key(),
    {
        let mut ids: Vec<DialogId> = Vec::new();
        let mut i: usize = 0;
        proof {
            lemma_entries_map(self.entries@);
        }
        while i < self.entries.len()
            invariant
                i <= self.entries@.len(),
                distinct(self.entries@),
                forall|a: int, b: int| 0 <= a < b < ids@.len() ==> ids@[a]@.key() != ids@[b]@.key(),
                forall|key: DialogKey| #[trigger] named(ids@, key) <==> exists|j: int|
                    0 <= j < i && #[trigger] self.entries@[j].0@.key() == key && self.entries@[j].1@.expired(
                        now as nat,
                        timeout as nat,
                    ),
            decreases self.entries@.len() - i,
        {
            let ghost before = ids@;
            let last_activity: u128 = self.entries[i].1.last_activity;
            let silent: u128 = if now >= last_activity { now - last_activity } else { 0 };
            if silent > timeout {
                let id = self.entries[i].0.clone();
                ids.push(id);
            }
            proof {
                let id = self.entries@[i as int].0;
                assert(!named(before, id@.key()));
                assert forall|a: int, b: int| 0 <= a < b < ids@.len() implies ids@[a]@.key()
                    != ids@[b]@.key() by {
                    assert(ids@[a] == before[a]);
                    assert(named(before, before[a]@.key()));
                }
                let late = self.entries@[i as int].1@.expired(now as nat, timeout as nat);
                assert forall|key: DialogKey| #[trigger] named(ids@, key) <==> named(before, key)
                    || late && id@.key() == key by {
                    if late {
                        lemma_named_push(before, ids@.last(), key);
                        assert(ids@ =~= before.push(ids@.last()));
                    }
                }
                assert(id@.key() == self.entries@[i as int].0@.key());
            }
            i += 1;
        }
        proof {
            assert forall|key: DialogKey| #[trigger] named(ids@, key) <==> self@.contains_key(key)
                && self@[key].expired(now as nat, timeout as nat) by {
                if self@.contains_key(key) {
                    assert(listed(self.entries@, key));
                    let j = choose|j: int|
                        0 <= j < self.entries@.len() && #[trigger] self.entries@[j].0@.key() == key;
                    assert(self.entries@[j].0@.key() == key);
                }
                if named(ids@, key) {
                    let j = choose|j: int|
                        0 <= j < self.entries@.len() && #[trigger] self.entries@[j].0@.key() == key
                            && self.entries@[j].1@.expired(now as nat, timeout as nat);
                    assert(self.entries@[j].0@.key() == key);
                }
            }
        }
        ids
    }

    /// Takes away the sessions that have been silent for longer than `timeout`.
    pub fn remove_expired(&mut self, now: u128, timeout: u128)
        requires
            old(self).wf(),
        ensures
            final(self).wf(),
            final(self)@ == surviving(old(self)@, now as nat, timeout as nat),
    {
        let ids = self.expired(now, timeout);
        let mut i: usize = 0;
        while i < ids.len()
            invariant
                i <= ids@.len(),
                self.wf(),
                forall|key: DialogKey| #[trigger] self@.contains_key(key) <==> old(self)@.contains_key(key)
                    && !named(ids@.take(i as int), key),
                forall|key: DialogKey| #[trigger] self@.contains_key(key) ==> self@[key] == old(self)@[key],
            decreases ids@.len() - i,
        {
            self.remove(&ids[i]);
            proof {
                assert(ids@.take(i + 1) =~= ids@.take(i as int).push(ids@[i as int]));
                assert forall|key: DialogKey| #[trigger] named(ids@.take(i + 1), key) <==> named(
                    ids@.take(i as int),
                    key,
                ) || ids@[i as int]@.key() == key by {
                    lemma_named_push(ids@.take(i as int), ids@[i as int], key);
                }
            }
            i += 1;
        }
        proof {
            assert(ids@.take(i as int) =~= ids@);
            assert(self@ =~= surviving(old(self)@, now as nat, timeout as nat));
        }
    }
}

} // verus!
