//! Sessions that a Pi process runs for.

use vstd::prelude::*;

use crate::index::{SessionView, StoredSession};
use crate::json::{opt_json, Json, JsonView};
use crate::pi_rpc::{PiProcess, PiView};
use crate::text::{is_digit, opt_string, same_text};

verus! {

/// A session with its Pi process, and what Pi last said of it.
pub struct LiveSession {
    pub pi: PiProcess,
    pub cwd: String,
    pub session_file: String,
    pub state: Json,
    pub models: Json,
    pub cancelled: bool,
    /// Whether a prompt has the turn.
    pub busy: bool,
    /// The id that the client knows the session by, once it knows it.
    pub known_as: Option<String>,
}

/// What a [`LiveSession`] is.
pub struct LiveView {
    pub pi: PiView,
    pub cwd: Seq<char>,
    pub session_file: Seq<char>,
    pub state: JsonView,
    pub models: JsonView,
    pub cancelled: bool,
    pub busy: bool,
    pub known_as: Option<Seq<char>>,
}

impl View for LiveSession {
    type V = LiveView;

    open spec fn view(&self) -> LiveView {
        LiveView {
            pi: self.pi@,
            cwd: self.cwd@,
            session_file: self.session_file@,
            state: self.state@,
            models: self.models@,
            cancelled: self.cancelled,
            busy: self.busy,
            known_as: opt_string(self.known_as),
        }
    }
}

/// What the index keeps of a session, at a time.
pub open spec fn stored_at(
    id: Seq<char>,
    cwd: Seq<char>,
    file: Seq<char>,
    state: JsonView,
    now: Option<Seq<char>>,
) -> SessionView {
    SessionView {
        session_id: id,
        cwd,
        session_file: file,
        title: state.str_at("sessionName"@),
        updated_at: now,
    }
}

/// What the index keeps of a session, at a time.
pub fn stored_session(id: &str, cwd: &str, file: &str, state: &Json, now: Option<String>) -> (r:
    StoredSession)
    ensures
        r@ == stored_at(id@, cwd@, file@, state@, opt_string(now)),
{
    StoredSession {
        session_id: id.to_owned(),
        cwd: cwd.to_owned(),
        session_file: file.to_owned(),
        title: match state.str_at("sessionName") {
            Some(title) => Some(title.to_owned()),
            None => None,
        },
        updated_at: now,
    }
}

/// The form of a time as a text: the date, the time of day to the second or with up to nine
/// digits of a fraction, and `Z`.
pub open spec fn is_time(text: Seq<char>) -> bool {
    &&& text.len() == 20 || 22 <= text.len() <= 30
    &&& text.last() == 'Z'
    &&& forall|i: int|
        0 <= i < text.len() - 1 ==> if i == 4 || i == 7 {
            #[trigger] text[i] == '-'
        } else if i == 10 {
            text[i] == 'T'
        } else if i == 13 || i == 16 {
            text[i] == ':'
        } else if i == 19 {
            text[i] == '.'
        } else {
            is_digit(text[i])
        }
}

/// `time::OffsetDateTime::now_utc` and its `format` for RFC 3339: the time now, in UTC, `None`
/// where it cannot be written. Which time it is, is not stated.
#[verifier::external_body]
pub(crate) fn now() -> (r: Option<String>)
    ensures
        r matches Some(text) ==> is_time(text@),
{
    time::OffsetDateTime::now_utc().format(&time::format_description::well_known::Rfc3339).ok()
}

/// The form of a UUID as a text: hexadecimal digits in five groups with hyphens between them.
pub open spec fn is_uuid(text: Seq<char>) -> bool {
    &&& text.len() == 36
    &&& forall|i: int|
        0 <= i < 36 ==> if i == 8 || i == 13 || i == 18 || i == 23 {
            #[trigger] text[i] == '-'
        } else {
            '0' <= text[i] <= '9' || 'a' <= text[i] <= 'f'
        }
}

/// `uuid::Uuid::new_v4` and its `Display` impl: a random UUID, in lower case and with hyphens.
#[verifier::external_body]
pub(crate) fn fresh_id() -> (r: String)
    ensures
        is_uuid(r@),
{
    uuid::Uuid::new_v4().to_string()
}

/// The text under a key of what a client says beside its request.
pub open spec fn meta_text(meta: Option<JsonView>, key: Seq<char>) -> Option<Seq<char>> {
    match meta {
        Some(meta) => meta.str_at(key),
        None => None,
    }
}

/// The text under a key of what a client says beside its request.
pub fn meta_string(meta: Option<&Json>, key: &str) -> (r: Option<String>)
    ensures
        opt_string(r) == meta_text(opt_json(meta), key@),
{
    match meta {
        Some(meta) => match meta.str_at(key) {
            Some(text) => Some(text.to_owned()),
            None => None,
        },
        None => None,
    }
}

/// Which session each id stands for.
pub struct Table {
    entries: Vec<(String, usize)>,
}

/// The keys and values of a table.
pub open spec fn rows(entries: Seq<(String, usize)>) -> Seq<(Seq<char>, usize)> {
    entries.map_values(|e: (String, usize)| (e.0@, e.1))
}

/// What a table maps: a key to the value that stands beside it.
pub open spec fn mapped(rows: Seq<(Seq<char>, usize)>) -> Map<Seq<char>, usize>
    decreases rows.len(),
{
    if rows.len() == 0 {
        Map::empty()
    } else {
        mapped(rows.drop_last()).insert(rows.last().0, rows.last().1)
    }
}

/// Whether any id stands for a session.
pub open spec fn leads(table: Map<Seq<char>, usize>, session: usize) -> bool {
    exists|id: Seq<char>| #[trigger] table.contains_key(id) && table[id] == session
}

/// Whether no key stands twice in a table.
spec fn distinct(rows: Seq<(Seq<char>, usize)>) -> bool {
    forall|i: int, j: int| 0 <= i < j < rows.len() ==> #[trigger] rows[i].0 != #[trigger] rows[j].0
}

/// A table with distinct keys maps each of them to its value, and nothing else.
proof fn lemma_mapped(rows: Seq<(Seq<char>, usize)>)
    requires
        distinct(rows),
    ensures
        forall|i: int|
            0 <= i < rows.len() ==> mapped(rows).contains_key(#[trigger] rows[i].0)
                && mapped(rows)[rows[i].0] == rows[i].1,
        forall|key: Seq<char>| #[trigger]
            mapped(rows).contains_key(key) ==> exists|i: int|
                0 <= i < rows.len() && #[trigger] rows[i].0 == key,
    decreases rows.len(),
{
    if rows.len() > 0 {
        let front = rows.drop_last();
        lemma_mapped(front);
        assert forall|i: int| 0 <= i < rows.len() implies mapped(rows).contains_key(
            #[trigger] rows[i].0,
        ) && mapped(rows)[rows[i].0] == rows[i].1 by {
            if i < front.len() {
                assert(front[i] == rows[i]);
            }
        }
        assert forall|key: Seq<char>| #[trigger] mapped(rows).contains_key(key) implies exists|
            i: int,
        |
            0 <= i < rows.len() && #[trigger] rows[i].0 == key by {
            if key == rows.last().0 {
                assert(rows[rows.len() - 1].0 == key);
            } else {
                assert(mapped(front).contains_key(key));
                let i = choose|i: int| 0 <= i < front.len() && #[trigger] front[i].0 == key;
                assert(rows[i].0 == key);
            }
        }
    }
}

/// Two tables with distinct keys that hold the same rows map the same.
proof fn lemma_same_map(rows: Seq<(Seq<char>, usize)>, map: Map<Seq<char>, usize>)
    requires
        distinct(rows),
        forall|i: int|
            0 <= i < rows.len() ==> map.contains_key(#[trigger] rows[i].0) && map[rows[i].0]
                == rows[i].1,
        forall|key: Seq<char>| #[trigger]
            map.contains_key(key) ==> exists|i: int|
                0 <= i < rows.len() && #[trigger] rows[i].0 == key,
    ensures
        mapped(rows) == map,
{
    lemma_mapped(rows);
    assert(mapped(rows) =~= map) by {
        assert forall|key: Seq<char>| #[trigger] mapped(rows).contains_key(key) <==> (
        #[trigger] map.contains_key(key)) by {
            if mapped(rows).contains_key(key) {
                let i = choose|i: int| 0 <= i < rows.len() && #[trigger] rows[i].0 == key;
                assert(map.contains_key(rows[i].0));
            }
            if map.contains_key(key) {
                let i = choose|i: int| 0 <= i < rows.len() && #[trigger] rows[i].0 == key;
                assert(mapped(rows).contains_key(rows[i].0));
            }
        }
        assert forall|key: Seq<char>| #[trigger] mapped(rows).contains_key(key) implies mapped(
            rows,
        )[key] == map[key] by {
            let i = choose|i: int| 0 <= i < rows.len() && #[trigger] rows[i].0 == key;
            assert(mapped(rows)[rows[i].0] == rows[i].1);
            assert(map[rows[i].0] == rows[i].1);
        }
    }
}

impl View for Table {
    type V = Map<Seq<char>, usize>;

    closed spec fn view(&self) -> Map<Seq<char>, usize> {
        mapped(rows(self.entries@))
    }
}

impl Table {
    /// No id stands twice in a table.
    pub closed spec fn wf(&self) -> bool {
        distinct(rows(self.entries@))
    }

    /// A table without ids.
    pub fn new() -> (r: Table)
        ensures
            r.wf(),
            r@ == Map::<Seq<char>, usize>::empty(),
    {
        Table { entries: Vec::new() }
    }

    /// Where an id stands.
    fn position(&self, id: &str) -> (r: Option<usize>)
        requires
            self.wf(),
        ensures
            match r {
                Some(i) => i < self.entries.len() && rows(self.entries@)[i as int].0 == id@
                    && self@.contains_key(id@) && self@[id@] == self.entries[i as int].1,
                None => !self@.contains_key(id@),
            },
    {
        let ghost all = rows(self.entries@);
        proof {
            lemma_mapped(all);
        }
        let mut i: usize = 0;
        while i < self.entries.len()
            invariant
                i <= self.entries.len(),
                all == rows(self.entries@),
                distinct(all),
                forall|k: int| 0 <= k < i ==> (#[trigger] all[k]).0 != id@,
            decreases self.entries.len() - i,
        {
            assert(all[i as int].0 == self.entries@[i as int].0@);
            if same_text(self.entries[i].0.as_str(), id) {
                proof {
                    lemma_mapped(all);
                }
                return Some(i);
            }
            i = i + 1;
        }
        None
    }

    /// The session that an id stands for.
    pub fn get(&self, id: &str) -> (r: Option<usize>)
        requires
            self.wf(),
        ensures
            r == (if self@.contains_key(id@) {
                Some(self@[id@])
            } else {
                None::<usize>
            }),
    {
        match self.position(id) {
            Some(i) => Some(self.entries[i].1),
            None => None,
        }
    }

    /// Lets an id stand for a session from now on.
    pub fn insert(&mut self, id: &str, session: usize)
        requires
            old(self).wf(),
        ensures
            final(self).wf(),
            final(self)@ == old(self)@.insert(id@, session),
    {
        let ghost before = rows(self.entries@);
        match self.position(id) {
            Some(i) => {
                let key: String = id.to_owned();
                self.entries.set(i, (key, session));
                proof {
                    let after = rows(self.entries@);
                    lemma_mapped(before);
                    assert(after =~= before.update(i as int, (id@, session)));
                    assert forall|j: int, k: int| 0 <= j < k < after.len() implies #[trigger] after[j].0
                        != #[trigger] after[k].0 by {
                        assert(after[j].0 == before[j].0);
                        assert(after[k].0 == before[k].0);
                    }
                    let map = mapped(before).insert(id@, session);
                    assert forall|j: int| 0 <= j < after.len() implies map.contains_key(
                        #[trigger] after[j].0,
                    ) && map[after[j].0] == after[j].1 by {
                        assert(after[j].0 == before[j].0);
                        if j != i {
                            assert(before[j].0 != before[i as int].0) by {
                                if j < i {
                                    assert(before[j].0 != before[i as int].0);
                                } else {
                                    assert(before[i as int].0 != before[j].0);
                                }
                            }
                        }
                    }
                    assert forall|key: Seq<char>| #[trigger] map.contains_key(key) implies exists|
                        j: int,
                    |
                        0 <= j < after.len() && #[trigger] after[j].0 == key by {
                        if key == id@ {
                            assert(after[i as int].0 == key);
                        } else {
                            let j = choose|j: int|
                                0 <= j < before.len() && #[trigger] before[j].0 == key;
                            assert(after[j].0 == key);
                        }
                    }
                    lemma_same_map(after, map);
                }
            },
            None => {
                self.entries.push((id.to_owned(), session));
                proof {
                    let after = rows(self.entries@);
                    lemma_mapped(before);
                    assert(after =~= before.push((id@, session)));
                    assert(after.drop_last() =~= before);
                    assert forall|j: int, k: int| 0 <= j < k < after.len() implies #[trigger] after[j].0
                        != #[trigger] after[k].0 by {
                        assert(after[j] == before[j]);
                        assert(mapped(before).contains_key(before[j].0));
                        if k < before.len() {
                            assert(after[k] == before[k]);
                        }
                    }
                }
            },
        }
    }

    /// Lets an id stand for nothing. Returns what it stood for.
    pub fn remove(&mut self, id: &str) -> (r: Option<usize>)
        requires
            old(self).wf(),
        ensures
            final(self).wf(),
            final(self)@ == old(self)@.remove(id@),
            r == (if old(self)@.contains_key(id@) {
                Some(old(self)@[id@])
            } else {
                None::<usize>
            }),
    {
        let ghost before = rows(self.entries@);
        match self.position(id) {
            Some(i) => {
                let session: usize = self.entries[i].1;
                self.entries.remove(i);
                proof {
                    let after = rows(self.entries@);
                    lemma_mapped(before);
                    assert(after =~= before.remove(i as int));
                    assert forall|j: int, k: int| 0 <= j < k < after.len() implies #[trigger] after[j].0
                        != #[trigger] after[k].0 by {
                        let p = if j < i {
                            j
                        } else {
                            j + 1
                        };
                        let q = if k < i {
                            k
                        } else {
                            k + 1
                        };
                        assert(after[j] == before[p]);
                        assert(after[k] == before[q]);
                        assert(before[p].0 != before[q].0);
                    }
                    let map = mapped(before).remove(id@);
                    assert forall|j: int| 0 <= j < after.len() implies map.contains_key(
                        #[trigger] after[j].0,
                    ) && map[after[j].0] == after[j].1 by {
                        let p = if j < i {
                            j
                        } else {
                            j + 1
                        };
                        assert(after[j] == before[p]);
                        if p < i {
                            assert(before[p].0 != before[i as int].0);
                        } else {
                            assert(before[i as int].0 != before[p].0);
                        }
                        assert(mapped(before).contains_key(before[p].0));
                    }
                    assert forall|key: Seq<char>| #[trigger] map.contains_key(key) implies exists|
                        j: int,
                    |
                        0 <= j < after.len() && #[trigger] after[j].0 == key by {
                        assert(mapped(before).contains_key(key));
                        let p = choose|p: int|
                            0 <= p < before.len() && #[trigger] before[p].0 == key;
                        let j = if p < i {
                            p
                        } else {
                            p - 1
                        };
                        assert(after[j] == before[p]);
                        assert(after[j].0 == key);
                    }
                    lemma_same_map(after, map);
                }
                Some(session)
            },
            None => {
                assert(self@.remove(id@) =~= self@);
                None
            },
        }
    }

    /// Whether any id stands for a session.
    pub fn leads_to(&self, session: usize) -> (r: bool)
        requires
            self.wf(),
        ensures
            r == leads(self@, session),
    {
        let ghost all = rows(self.entries@);
        proof {
            lemma_mapped(all);
        }
        let mut i: usize = 0;
        while i < self.entries.len()
            invariant
                i <= self.entries.len(),
                all == rows(self.entries@),
                distinct(all),
                forall|k: int| 0 <= k < i ==> (#[trigger] all[k]).1 != session,
            decreases self.entries.len() - i,
        {
            assert(all[i as int].1 == self.entries@[i as int].1);
            if self.entries[i].1 == session {
                proof {
                    lemma_mapped(all);
                    assert(self@.contains_key(all[i as int].0));
                }
                return true;
            }
            i = i + 1;
        }
        proof {
            lemma_mapped(all);
            assert forall|id: Seq<char>| #[trigger] self@.contains_key(id) implies self@[id]
                != session by {
                let k = choose|k: int| 0 <= k < all.len() && #[trigger] all[k].0 == id;
                assert(self@[all[k].0] == all[k].1);
            }
        }
        false
    }

    /// Takes all ids out of the table. Returns what they stood for.
    pub fn clear(&mut self) -> (r: Vec<usize>)
        requires
            old(self).wf(),
        ensures
            final(self).wf(),
            final(self)@ == Map::<Seq<char>, usize>::empty(),
            forall|session: usize| #[trigger] r@.contains(session) <==> leads(old(self)@, session),
    {
        let mut entries: Vec<(String, usize)> = Vec::new();
        std::mem::swap(&mut entries, &mut self.entries);
        let ghost all = rows(entries@);
        let mut list: Vec<usize> = Vec::new();
        let mut i: usize = 0;
        while i < entries.len()
            invariant
                i <= entries.len(),
                all == rows(entries@),
                list@.len() == i,
                forall|k: int| 0 <= k < i ==> #[trigger] list@[k] == all[k].1,
            decreases entries.len() - i,
        {
            list.push(entries[i].1);
            assert(all[i as int].1 == entries@[i as int].1);
            i = i + 1;
        }
        proof {
            lemma_mapped(all);
            let map = old(self)@;
            assert(map == mapped(all));
            assert forall|session: usize| #[trigger] list@.contains(session) <==> leads(
                map,
                session,
            ) by {
                if list@.contains(session) {
                    let k = choose|k: int| 0 <= k < list@.len() && list@[k] == session;
                    assert(map.contains_key(all[k].0) && map[all[k].0] == session);
                }
                if leads(map, session) {
                    let id = choose|id: Seq<char>| #[trigger] map.contains_key(id) && map[id]
                        == session;
                    let k = choose|k: int| 0 <= k < all.len() && #[trigger] all[k].0 == id;
                    assert(map[all[k].0] == all[k].1);
                    assert(list@[k] == session);
                }
            }
        }
        list
    }
}

} // verus!
