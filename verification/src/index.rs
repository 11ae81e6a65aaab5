//! The index of the sessions that were ever opened.

use vstd::prelude::*;

use crate::paths::{is_portable, same_parts, same_path};
use crate::text::{
    comes_before, decimal, decimal_reads_back, decimal_text, lemma_before_irreflexive,
    lemma_before_total, lemma_before_transitive, opt_string, opt_text, parse_index, parsed_index,
    same_text, text_less,
};

verus! {

/// How many sessions a page of a listing holds.
pub const LIST_PAGE_SIZE: usize = 100;

/// A session as the index keeps it.
pub struct StoredSession {
    pub session_id: String,
    pub cwd: String,
    pub session_file: String,
    pub title: Option<String>,
    pub updated_at: Option<String>,
}

/// What a [`StoredSession`] is.
pub struct SessionView {
    pub session_id: Seq<char>,
    pub cwd: Seq<char>,
    pub session_file: Seq<char>,
    pub title: Option<Seq<char>>,
    pub updated_at: Option<Seq<char>>,
}

impl View for StoredSession {
    type V = SessionView;

    open spec fn view(&self) -> SessionView {
        SessionView {
            session_id: self.session_id@,
            cwd: self.cwd@,
            session_file: self.session_file@,
            title: opt_string(self.title),
            updated_at: opt_string(self.updated_at),
        }
    }
}

/// The view of an optional session.
pub open spec fn opt_session(session: Option<StoredSession>) -> Option<SessionView> {
    match session {
        Some(session) => Some(session@),
        None => None,
    }
}

/// The views of a list of sessions.
pub open spec fn session_views(list: Seq<StoredSession>) -> Seq<SessionView> {
    list.map_values(|s: StoredSession| s@)
}

impl StoredSession {
    /// A copy of the session.
    pub fn copy(&self) -> (r: StoredSession)
        ensures
            r@ == self@,
    {
        StoredSession {
            session_id: self.session_id.clone(),
            cwd: self.cwd.clone(),
            session_file: self.session_file.clone(),
            title: copy_option(&self.title),
            updated_at: copy_option(&self.updated_at),
        }
    }
}

/// A copy of an optional string.
pub fn copy_option(s: &Option<String>) -> (r: Option<String>)
    ensures
        opt_string(r) == opt_string(*s),
{
    match s {
        Some(s) => Some(s.clone()),
        None => None,
    }
}

/// The sessions by their key.
pub open spec fn by_key(entries: Seq<(Seq<char>, SessionView)>) -> Map<Seq<char>, SessionView>
    decreases entries.len(),
{
    if entries.len() == 0 {
        Map::empty()
    } else {
        by_key(entries.drop_last()).insert(entries.last().0, entries.last().1)
    }
}

/// Whether the keys are in order, each once.
pub open spec fn in_order(entries: Seq<(Seq<char>, SessionView)>) -> bool {
    forall|i: int, j: int|
        0 <= i < j < entries.len() ==> comes_before(
            #[trigger] entries[i].0,
            #[trigger] entries[j].0,
        )
}

/// Which keys there are, and what stands under them.
proof fn lemma_by_key(entries: Seq<(Seq<char>, SessionView)>)
    ensures
        forall|key: Seq<char>| #[trigger]
            by_key(entries).contains_key(key) <==> exists|i: int|
                0 <= i < entries.len() && #[trigger] entries[i].0 == key,
        in_order(entries) ==> forall|i: int|
            0 <= i < entries.len() ==> by_key(entries)[(#[trigger] entries[i]).0] == entries[i].1,
    decreases entries.len(),
{
    if entries.len() > 0 {
        let front = entries.drop_last();
        let last = entries.last();
        lemma_by_key(front);
        assert forall|key: Seq<char>| #[trigger] by_key(entries).contains_key(key) <==> exists|
            i: int,
        |
            0 <= i < entries.len() && #[trigger] entries[i].0 == key by {
            if key == last.0 {
                assert(entries[entries.len() - 1].0 == key);
            } else if by_key(front).contains_key(key) {
                let i = choose|i: int| 0 <= i < front.len() && #[trigger] front[i].0 == key;
                assert(entries[i].0 == key);
            } else if exists|i: int| 0 <= i < entries.len() && #[trigger] entries[i].0 == key {
                let i = choose|i: int| 0 <= i < entries.len() && #[trigger] entries[i].0 == key;
                assert(front[i].0 == key);
            }
        }
        if in_order(entries) {
            assert forall|i: int, j: int| 0 <= i < j < front.len() implies comes_before(
                #[trigger] front[i].0,
                #[trigger] front[j].0,
            ) by {
                assert(comes_before(entries[i].0, entries[j].0));
            }
            assert forall|i: int| 0 <= i < entries.len() implies by_key(entries)[(
            #[trigger] entries[i]).0] == entries[i].1 by {
                if i < entries.len() - 1 {
                    assert(comes_before(entries[i].0, entries[entries.len() - 1].0));
                    lemma_before_irreflexive(last.0);
                    assert(front[i] == entries[i]);
                }
            }
        }
    }
}

/// Two ways to list the same keys with the same sessions give the same sessions by key.
proof fn lemma_by_key_is(entries: Seq<(Seq<char>, SessionView)>, map: Map<Seq<char>, SessionView>)
    requires
        in_order(entries),
        forall|i: int| 0 <= i < entries.len() ==> map.contains_key((#[trigger] entries[i]).0),
        forall|i: int| 0 <= i < entries.len() ==> map[(#[trigger] entries[i]).0] == entries[i].1,
        forall|key: Seq<char>| #[trigger]
            map.contains_key(key) ==> exists|i: int|
                0 <= i < entries.len() && #[trigger] entries[i].0 == key,
    ensures
        by_key(entries) == map,
{
    lemma_by_key(entries);
    assert forall|key: Seq<char>| #[trigger] by_key(entries).contains_key(key) implies by_key(
        entries,
    )[key] == map[key] by {
        let i = choose|i: int| 0 <= i < entries.len() && #[trigger] entries[i].0 == key;
        assert(entries[i].0 == key);
    }
    assert(by_key(entries) =~= map);
}

/// Whether a session with the first time is older than one with the second. One without a time
/// is the oldest.
pub open spec fn older(a: Option<Seq<char>>, b: Option<Seq<char>>) -> bool {
    match (a, b) {
        (None, Some(_)) => true,
        (Some(a), Some(b)) => comes_before(a, b),
        _ => false,
    }
}

/// `list` with a session before the first that is older.
pub open spec fn placed(list: Seq<SessionView>, session: SessionView) -> Seq<SessionView>
    decreases list.len(),
{
    if list.len() == 0 || older(list[0].updated_at, session.updated_at) {
        seq![session] + list
    } else {
        seq![list[0]] + placed(list.drop_first(), session)
    }
}

/// The sessions with the newest first; those of the same age stay in their order.
pub open spec fn recent_first(list: Seq<SessionView>) -> Seq<SessionView>
    decreases list.len(),
{
    if list.len() == 0 {
        Seq::empty()
    } else {
        placed(recent_first(list.drop_last()), list.last())
    }
}

/// The sessions that are marked, in their order.
pub open spec fn marked(
    entries: Seq<(Seq<char>, SessionView)>,
    marks: Seq<bool>,
) -> Seq<SessionView>
    decreases entries.len(),
{
    if entries.len() == 0 {
        Seq::empty()
    } else if marks[entries.len() - 1] {
        marked(entries.drop_last(), marks).push(entries.last().1)
    } else {
        marked(entries.drop_last(), marks)
    }
}

/// Whether a session is marked that works in `dir` when those of `cwd` are wanted. The same text
/// names the same directory, and portable paths do where they have the same parts. Which other
/// texts do is up to the operating system.
pub open spec fn may_mark(cwd: Option<Seq<char>>, dir: Seq<char>, mark: bool) -> bool {
    match cwd {
        None => mark,
        Some(cwd) => {
            &&& dir == cwd ==> mark
            &&& is_portable(dir) && is_portable(cwd) ==> mark == same_parts(dir, cwd)
        },
    }
}

/// The sessions that work in `cwd`, or all of them, in their order.
pub open spec fn of_directory(
    entries: Seq<(Seq<char>, SessionView)>,
    cwd: Option<Seq<char>>,
) -> Seq<SessionView>
    decreases entries.len(),
{
    if entries.len() == 0 {
        Seq::empty()
    } else if cwd matches Some(cwd) && !same_parts(entries.last().1.cwd, cwd) {
        of_directory(entries.drop_last(), cwd)
    } else {
        of_directory(entries.drop_last(), cwd).push(entries.last().1)
    }
}

/// Whether all directories are portable paths.
pub open spec fn all_portable(
    entries: Seq<(Seq<char>, SessionView)>,
    cwd: Option<Seq<char>>,
) -> bool {
    &&& cwd matches Some(cwd) ==> is_portable(cwd)
    &&& forall|i: int| 0 <= i < entries.len() ==> is_portable((#[trigger] entries[i]).1.cwd)
}

/// Where all directories are portable paths, the marked sessions are those of the directory.
proof fn lemma_marked(
    entries: Seq<(Seq<char>, SessionView)>,
    cwd: Option<Seq<char>>,
    marks: Seq<bool>,
)
    requires
        entries.len() <= marks.len(),
        cwd is None || all_portable(entries, cwd),
        forall|i: int|
            0 <= i < entries.len() ==> may_mark(cwd, entries[i].1.cwd, #[trigger] marks[i]),
    ensures
        marked(entries, marks) == of_directory(entries, cwd),
    decreases entries.len(),
{
    if entries.len() > 0 {
        let n = entries.len() - 1;
        assert(may_mark(cwd, entries[n].1.cwd, marks[n]));
        lemma_marked(entries.drop_last(), cwd, marks);
    }
}

/// The sessions that were ever opened.
pub struct SessionIndex {
    entries: Vec<(String, StoredSession)>,
}

impl View for SessionIndex {
    type V = Seq<(Seq<char>, SessionView)>;

    /// The keys and their sessions, in the order of the keys.
    closed spec fn view(&self) -> Seq<(Seq<char>, SessionView)> {
        self.entries@.map_values(|e: (String, StoredSession)| (e.0@, e.1@))
    }
}

/// Whether one time is older than another.
fn is_older(a: &Option<String>, b: &Option<String>) -> (r: bool)
    ensures
        r == older(opt_string(*a), opt_string(*b)),
{
    match (a, b) {
        (None, Some(_)) => true,
        (Some(a), Some(b)) => text_less(a.as_str(), b.as_str()),
        _ => false,
    }
}

/// Puts a session before the first that is older.
fn place(list: &mut Vec<StoredSession>, session: StoredSession)
    ensures
        session_views(final(list)@) == placed(session_views(old(list)@), session@),
{
    let ghost start = session_views(list@);
    let mut i: usize = 0;
    assert(start.skip(0) =~= start);
    assert(placed(start, session@) =~= start.take(0) + placed(start, session@));
    while i < list.len() && !is_older(&list[i].updated_at, &session.updated_at)
        invariant
            i <= list.len(),
            list@ == old(list)@,
            start == session_views(list@),
            placed(start, session@) == start.take(i as int) + placed(
                start.skip(i as int),
                session@,
            ),
        decreases list.len() - i,
    {
        assert(start.skip(i as int)[0] == list@[i as int]@);
        assert(start.skip(i as int).drop_first() =~= start.skip(i + 1));
        assert(placed(start, session@) =~= start.take(i + 1) + placed(start.skip(i + 1), session@));
        i = i + 1;
    }
    list.insert(i, session);
    proof {
        if i < old(list).len() {
            assert(start.skip(i as int)[0] == old(list)@[i as int]@);
        }
        assert(session_views(list@) =~= start.take(i as int) + placed(
            start.skip(i as int),
            session@,
        ));
    }
}

impl SessionIndex {
    /// The keys are in order, each once.
    pub open spec fn wf(&self) -> bool {
        in_order(self@)
    }

    /// The index without sessions.
    pub fn new() -> (r: SessionIndex)
        ensures
            r.wf(),
            r@ == Seq::<(Seq<char>, SessionView)>::empty(),
            by_key(r@) == Map::<Seq<char>, SessionView>::empty(),
    {
        let r = SessionIndex { entries: Vec::new() };
        assert(r@ =~= Seq::<(Seq<char>, SessionView)>::empty());
        r
    }

    /// How many keys come before `key`.
    fn position(&self, key: &str) -> (r: usize)
        requires
            self.wf(),
        ensures
            r <= self.entries.len(),
            self@.len() == self.entries.len(),
            forall|i: int| 0 <= i < r ==> comes_before((#[trigger] self@[i]).0, key@),
            forall|i: int| r <= i < self@.len() ==> !comes_before((#[trigger] self@[i]).0, key@),
            by_key(self@).contains_key(key@) <==> r < self@.len() && self@[r as int].0 == key@,
            r < self@.len() && self@[r as int].0 == key@ ==> by_key(self@)[key@]
                == self@[r as int].1,
    {
        let mut i: usize = 0;
        while i < self.entries.len() && text_less(self.entries[i].0.as_str(), key)
            invariant
                i <= self.entries.len(),
                self@.len() == self.entries.len(),
                forall|k: int| 0 <= k < i ==> comes_before((#[trigger] self@[k]).0, key@),
            decreases self.entries.len() - i,
        {
            assert(self@[i as int].0 == self.entries@[i as int].0@);
            i = i + 1;
        }
        proof {
            let all = self@;
            if i < all.len() {
                assert(all[i as int].0 == self.entries@[i as int].0@);
            }
            assert forall|k: int| i <= k < all.len() implies !comes_before(
                (#[trigger] all[k]).0,
                key@,
            ) by {
                if k > i && comes_before(all[k].0, key@) {
                    assert(comes_before(all[i as int].0, all[k].0));
                    lemma_before_transitive(all[i as int].0, all[k].0, key@);
                }
            }
            lemma_by_key(all);
            if by_key(all).contains_key(key@) {
                let k = choose|k: int| 0 <= k < all.len() && #[trigger] all[k].0 == key@;
                lemma_before_irreflexive(key@);
                if k > i {
                    assert(comes_before(all[i as int].0, all[k].0));
                }
            }
            if i < all.len() && all[i as int].0 == key@ {
                assert(by_key(all).contains_key(key@));
            }
        }
        i
    }

    /// Enters a session under a key.
    pub fn put(&mut self, key: String, session: StoredSession)
        requires
            old(self).wf(),
        ensures
            final(self).wf(),
            by_key(final(self)@) == by_key(old(self)@).insert(key@, session@),
    {
        let i: usize = self.position(key.as_str());
        let ghost before = self@;
        let ghost name = key@;
        let ghost value = session@;
        if i < self.entries.len() && same_text(self.entries[i].0.as_str(), key.as_str()) {
            assert(before[i as int].0 == self.entries@[i as int].0@);
            self.entries.remove(i);
            self.entries.insert(i, (key, session));
            proof {
                assert(self@ =~= before.update(i as int, (name, value)));
                lemma_put(before, i as int, name, value, true);
            }
        } else {
            if i < self.entries.len() {
                assert(before[i as int].0 == self.entries@[i as int].0@);
            }
            self.entries.insert(i, (key, session));
            proof {
                assert(self@ =~= before.insert(i as int, (name, value)));
                lemma_put(before, i as int, name, value, false);
            }
        }
    }

    /// The session under a key.
    pub fn get(&self, id: &str) -> (r: Option<StoredSession>)
        requires
            self.wf(),
        ensures
            opt_session(r) == (if by_key(self@).contains_key(id@) {
                Some(by_key(self@)[id@])
            } else {
                None
            }),
    {
        let i: usize = self.position(id);
        if i < self.entries.len() && same_text(self.entries[i].0.as_str(), id) {
            assert(self@[i as int].1 == self.entries@[i as int].1@);
            Some(self.entries[i].1.copy())
        } else {
            if i < self.entries.len() {
                assert(self@[i as int].0 == self.entries@[i as int].0@);
            }
            None
        }
    }

    /// Enters a session under its id.
    pub fn upsert(&mut self, session: StoredSession)
        requires
            old(self).wf(),
        ensures
            final(self).wf(),
            by_key(final(self)@) == by_key(old(self)@).insert(session@.session_id, session@),
    {
        self.put(session.session_id.clone(), session);
    }

    /// Removes the session under a key.
    pub fn delete(&mut self, id: &str) -> (r: Option<StoredSession>)
        requires
            old(self).wf(),
        ensures
            final(self).wf(),
            by_key(final(self)@) == by_key(old(self)@).remove(id@),
            opt_session(r) == (if by_key(old(self)@).contains_key(id@) {
                Some(by_key(old(self)@)[id@])
            } else {
                None
            }),
    {
        let i: usize = self.position(id);
        let ghost before = self@;
        if i < self.entries.len() && same_text(self.entries[i].0.as_str(), id) {
            assert(before[i as int].0 == self.entries@[i as int].0@);
            assert(before[i as int].1 == self.entries@[i as int].1@);
            let entry = self.entries.remove(i);
            proof {
                assert(self@ =~= before.remove(i as int));
                lemma_removed(before, i as int);
            }
            Some(entry.1)
        } else {
            if i < self.entries.len() {
                assert(before[i as int].0 == self.entries@[i as int].0@);
            }
            assert(by_key(before).remove(id@) =~= by_key(before));
            None
        }
    }

    /// The entries, in the order of their keys.
    pub fn entries(&self) -> (r: &Vec<(String, StoredSession)>)
        ensures
            r@.map_values(|e: (String, StoredSession)| (e.0@, e.1@)) == self@,
    {
        &self.entries
    }

    /// The marked sessions, the newest first.
    pub fn list_marked(&self, marks: &Vec<bool>) -> (r: Vec<StoredSession>)
        requires
            marks.len() == self@.len(),
        ensures
            session_views(r@) == recent_first(marked(self@, marks@)),
    {
        let mut list: Vec<StoredSession> = Vec::new();
        let mut i: usize = 0;
        let ghost all = self@;
        assert(session_views(list@) =~= recent_first(marked(all.take(0), marks@)));
        while i < self.entries.len()
            invariant
                i <= self.entries.len(),
                all == self@,
                all.len() == self.entries.len(),
                marks.len() == all.len(),
                session_views(list@) == recent_first(marked(all.take(i as int), marks@)),
            decreases self.entries.len() - i,
        {
            assert(all.take(i + 1).drop_last() =~= all.take(i as int));
            if marks[i] {
                let ghost before = marked(all.take(i as int), marks@);
                assert(all[i as int].1 == self.entries@[i as int].1@);
                place(&mut list, self.entries[i].1.copy());
                assert(marked(all.take(i + 1), marks@).drop_last() =~= before);
            }
            i = i + 1;
        }
        assert(all.take(i as int) =~= all);
        list
    }

    /// The sessions, the newest first: all of them, or those with the working directory `cwd`.
    pub fn list(&self, cwd: Option<&str>) -> (r: Vec<StoredSession>)
        ensures
            exists|marks: Seq<bool>|
                {
                    &&& marks.len() == self@.len()
                    &&& forall|i: int|
                        0 <= i < marks.len() ==> may_mark(
                            opt_text(cwd),
                            self@[i].1.cwd,
                            #[trigger] marks[i],
                        )
                    &&& session_views(r@) == #[trigger] recent_first(marked(self@, marks))
                },
            cwd is None || all_portable(self@, opt_text(cwd)) ==> session_views(r@)
                == recent_first(of_directory(self@, opt_text(cwd))),
    {
        let mut marks: Vec<bool> = Vec::new();
        let mut i: usize = 0;
        while i < self.entries.len()
            invariant
                i <= self.entries.len(),
                marks.len() == i,
                self@.len() == self.entries.len(),
                forall|k: int|
                    0 <= k < i ==> may_mark(opt_text(cwd), self@[k].1.cwd, #[trigger] marks@[k]),
            decreases self.entries.len() - i,
        {
            assert(self@[i as int].1.cwd == self.entries@[i as int].1.cwd@);
            let mark: bool = match cwd {
                Some(cwd) => same_path(self.entries[i].1.cwd.as_str(), cwd),
                None => true,
            };
            marks.push(mark);
            i = i + 1;
        }
        proof {
            if cwd is None || all_portable(self@, opt_text(cwd)) {
                lemma_marked(self@, opt_text(cwd), marks@);
            }
        }
        self.list_marked(&marks)
    }
}

/// A session put at its place keeps the keys in order.
proof fn lemma_put(
    before: Seq<(Seq<char>, SessionView)>,
    i: int,
    key: Seq<char>,
    session: SessionView,
    replaces: bool,
)
    requires
        in_order(before),
        0 <= i <= before.len(),
        forall|k: int| 0 <= k < i ==> comes_before((#[trigger] before[k]).0, key),
        forall|k: int| i <= k < before.len() ==> !comes_before((#[trigger] before[k]).0, key),
        replaces ==> i < before.len() && before[i].0 == key,
        !replaces ==> (i < before.len() ==> before[i].0 != key),
    ensures
        replaces ==> in_order(before.update(i, (key, session))) && by_key(
            before.update(i, (key, session)),
        ) == by_key(before).insert(key, session),
        !replaces ==> in_order(before.insert(i, (key, session))) && by_key(
            before.insert(i, (key, session)),
        ) == by_key(before).insert(key, session),
{
    let after = if replaces {
        before.update(i, (key, session))
    } else {
        before.insert(i, (key, session))
    };
    let shift = if replaces {
        0int
    } else {
        1int
    };
    assert forall|a: int, b: int| 0 <= a < b < after.len() implies comes_before(
        #[trigger] after[a].0,
        #[trigger] after[b].0,
    ) by {
        let x = if a <= i {
            a
        } else {
            a - shift
        };
        let y = if b <= i {
            b
        } else {
            b - shift
        };
        if a == i {
            assert(after[b] == before[y]);
            if replaces {
                assert(comes_before(before[i].0, before[y].0));
            } else {
                lemma_before_total(before[y].0, key);
                if before[y].0 == key {
                    assert(y != i);
                    lemma_before_total(before[i].0, key);
                    assert(comes_before(before[i].0, before[y].0));
                }
            }
        } else if b == i {
            assert(after[a] == before[x]);
            assert(comes_before(before[x].0, key));
        } else {
            assert(comes_before(before[x].0, before[y].0));
        }
    }
    lemma_by_key(before);
    let map = by_key(before).insert(key, session);
    assert forall|k: int| 0 <= k < after.len() implies map.contains_key((#[trigger] after[k]).0)
        && map[after[k].0] == after[k].1 by {
        if k != i {
            let x = if k < i {
                k
            } else {
                k - shift
            };
            assert(after[k] == before[x]);
            assert(by_key(before).contains_key(before[x].0));
            lemma_before_irreflexive(key);
            if k < i {
                assert(comes_before(after[k].0, after[i].0));
            } else {
                assert(comes_before(after[i].0, after[k].0));
            }
        }
    }
    assert forall|name: Seq<char>| #[trigger] map.contains_key(name) implies exists|k: int|
        0 <= k < after.len() && #[trigger] after[k].0 == name by {
        if name == key {
            assert(after[i].0 == name);
        } else {
            let x = choose|x: int| 0 <= x < before.len() && #[trigger] before[x].0 == name;
            let k = if x < i {
                x
            } else {
                x + shift
            };
            assert(after[k].0 == name);
        }
    }
    lemma_by_key_is(after, map);
}

/// A session taken out leaves the keys in order.
proof fn lemma_removed(before: Seq<(Seq<char>, SessionView)>, i: int)
    requires
        in_order(before),
        0 <= i < before.len(),
    ensures
        in_order(before.remove(i)),
        by_key(before.remove(i)) == by_key(before).remove(before[i].0),
{
    let after = before.remove(i);
    let key = before[i].0;
    assert forall|a: int, b: int| 0 <= a < b < after.len() implies comes_before(
        #[trigger] after[a].0,
        #[trigger] after[b].0,
    ) by {
        let x = if a < i {
            a
        } else {
            a + 1
        };
        let y = if b < i {
            b
        } else {
            b + 1
        };
        assert(comes_before(before[x].0, before[y].0));
    }
    lemma_by_key(before);
    let map = by_key(before).remove(key);
    assert forall|k: int| 0 <= k < after.len() implies map.contains_key((#[trigger] after[k]).0)
        && map[after[k].0] == after[k].1 by {
        let x = if k < i {
            k
        } else {
            k + 1
        };
        assert(after[k] == before[x]);
        assert(by_key(before).contains_key(before[x].0));
        lemma_before_irreflexive(key);
        if x < i {
            assert(comes_before(before[x].0, before[i].0));
        } else {
            assert(comes_before(before[i].0, before[x].0));
        }
    }
    assert forall|name: Seq<char>| #[trigger] map.contains_key(name) implies exists|k: int|
        0 <= k < after.len() && #[trigger] after[k].0 == name by {
        let x = choose|x: int| 0 <= x < before.len() && #[trigger] before[x].0 == name;
        let k = if x < i {
            x
        } else {
            x - 1
        };
        assert(after[k].0 == name);
    }
    lemma_by_key_is(after, map);
}

/// A session as a listing shows it.
pub struct SessionInfo {
    pub session_id: String,
    pub cwd: String,
    pub title: Option<String>,
    pub updated_at: Option<String>,
}

/// What a [`SessionInfo`] is.
pub struct InfoView {
    pub session_id: Seq<char>,
    pub cwd: Seq<char>,
    pub title: Option<Seq<char>>,
    pub updated_at: Option<Seq<char>>,
}

impl View for SessionInfo {
    type V = InfoView;

    open spec fn view(&self) -> InfoView {
        InfoView {
            session_id: self.session_id@,
            cwd: self.cwd@,
            title: opt_string(self.title),
            updated_at: opt_string(self.updated_at),
        }
    }
}

/// What a listing shows of a session.
pub open spec fn info_of(session: SessionView) -> InfoView {
    InfoView {
        session_id: session.session_id,
        cwd: session.cwd,
        title: session.title,
        updated_at: session.updated_at,
    }
}

/// A page of a listing, and where the next one starts.
pub struct Page {
    pub sessions: Vec<SessionInfo>,
    pub next_cursor: Option<String>,
}

/// What a [`Page`] is.
pub struct PageView {
    pub sessions: Seq<InfoView>,
    pub next_cursor: Option<Seq<char>>,
}

impl View for Page {
    type V = PageView;

    open spec fn view(&self) -> PageView {
        PageView {
            sessions: self.sessions@.map_values(|s: SessionInfo| s@),
            next_cursor: opt_string(self.next_cursor),
        }
    }
}

/// Where a page starts: at the number that the cursor is, and at the start where it is none.
pub open spec fn page_start(cursor: Option<Seq<char>>) -> usize {
    match cursor {
        Some(text) => match parsed_index(text) {
            Some(start) => start,
            None => 0,
        },
        None => 0,
    }
}

/// The page that starts at `start`.
pub open spec fn page_at(sessions: Seq<SessionView>, start: int) -> PageView {
    let end = start + LIST_PAGE_SIZE;
    PageView {
        sessions: if start >= sessions.len() {
            Seq::empty()
        } else if end < sessions.len() {
            sessions.subrange(start, end).map_values(|s: SessionView| info_of(s))
        } else {
            sessions.skip(start).map_values(|s: SessionView| info_of(s))
        },
        next_cursor: if end < sessions.len() {
            Some(decimal(end as nat))
        } else {
            None
        },
    }
}

/// The page of a listing that a cursor points to.
pub fn page(sessions: &Vec<StoredSession>, cursor: Option<&str>) -> (r: Page)
    ensures
        r@ == page_at(session_views(sessions@), page_start(opt_text(cursor)) as int),
{
    let start: usize = match cursor {
        Some(text) => match parse_index(text) {
            Some(start) => start,
            None => 0,
        },
        None => 0,
    };
    let count: usize = sessions.len();
    let more: bool = start < count && count - start > LIST_PAGE_SIZE;
    let end: usize = if more {
        start + LIST_PAGE_SIZE
    } else {
        count
    };
    let ghost all = session_views(sessions@);
    let mut shown: Vec<SessionInfo> = Vec::new();
    let mut i: usize = start;
    while i < end
        invariant
            end <= sessions.len(),
            start <= i,
            start < sessions.len() ==> i <= end,
            start >= sessions.len() ==> i == start,
            shown.len() == i - start,
            all == session_views(sessions@),
            forall|k: int|
                0 <= k < shown.len() ==> (#[trigger] shown[k])@ == info_of(all[start + k]),
        decreases end - i,
    {
        let session: &StoredSession = &sessions[i];
        assert(all[i as int] == session@);
        shown.push(
            SessionInfo {
                session_id: session.session_id.clone(),
                cwd: session.cwd.clone(),
                title: copy_option(&session.title),
                updated_at: copy_option(&session.updated_at),
            },
        );
        i = i + 1;
    }
    let next_cursor: Option<String> = if more {
        Some(decimal_text(end as u64))
    } else {
        None
    };
    let r = Page { sessions: shown, next_cursor };
    proof {
        let expected = page_at(all, start as int).sessions;
        assert forall|k: int| 0 <= k < shown.len() implies #[trigger] r@.sessions[k]
            == expected[k] by {
            assert(r@.sessions[k] == shown@[k]@);
        }
        assert(r@.sessions =~= expected);
    }
    r
}

/// Whether no session stands behind one that is older.
pub open spec fn newest_first(list: Seq<SessionView>) -> bool {
    forall|i: int, j: int|
        0 <= i < j < list.len() ==> !older(
            #[trigger] list[i].updated_at,
            #[trigger] list[j].updated_at,
        )
}

/// What is not older than something is not older than all that this is not older than.
proof fn lemma_not_older(a: Option<Seq<char>>, b: Option<Seq<char>>, c: Option<Seq<char>>)
    requires
        !older(a, b),
        !older(b, c),
    ensures
        !older(a, c),
{
    if older(a, c) {
        if let (Some(x), Some(z)) = (a, c) {
            if let Some(y) = b {
                lemma_before_total(x, y);
                if comes_before(y, x) {
                    lemma_before_transitive(y, x, z);
                }
            }
        }
    }
}

/// An age is not both older and younger than another.
proof fn lemma_older_asymmetric(a: Option<Seq<char>>, b: Option<Seq<char>>)
    requires
        older(a, b),
    ensures
        !older(b, a),
{
    if let (Some(x), Some(y)) = (a, b) {
        if comes_before(y, x) {
            lemma_before_transitive(x, y, x);
            lemma_before_irreflexive(x);
        }
    }
}

/// A session put before the first that is older keeps the newest first and all others.
proof fn lemma_placed(list: Seq<SessionView>, session: SessionView)
    requires
        newest_first(list),
    ensures
        newest_first(placed(list, session)),
        placed(list, session).to_multiset() == list.to_multiset().insert(session),
        forall|i: int|
            0 <= i < placed(list, session).len() ==> #[trigger] placed(list, session)[i] == session
                || list.contains(placed(list, session)[i]),
    decreases list.len(),
{
    broadcast use vstd::seq_lib::group_to_multiset_ensures;

    let after = placed(list, session);
    if list.len() == 0 || older(list[0].updated_at, session.updated_at) {
        assert(after =~= list.insert(0, session));
        assert forall|i: int, j: int| 0 <= i < j < after.len() implies !older(
            #[trigger] after[i].updated_at,
            #[trigger] after[j].updated_at,
        ) by {
            assert(after[j] == list[j - 1]);
            if i == 0 {
                lemma_older_asymmetric(list[0].updated_at, session.updated_at);
                if j > 1 {
                    assert(!older(list[0].updated_at, list[j - 1].updated_at));
                    lemma_not_older(
                        session.updated_at,
                        list[0].updated_at,
                        list[j - 1].updated_at,
                    );
                }
            } else {
                assert(after[i] == list[i - 1]);
            }
        }
        assert forall|i: int| 0 <= i < after.len() implies #[trigger] after[i] == session
            || list.contains(after[i]) by {
            if i > 0 {
                assert(after[i] == list[i - 1]);
            }
        }
    } else {
        let rest = list.drop_first();
        assert forall|i: int, j: int| 0 <= i < j < rest.len() implies !older(
            #[trigger] rest[i].updated_at,
            #[trigger] rest[j].updated_at,
        ) by {
            assert(!older(list[i + 1].updated_at, list[j + 1].updated_at));
        }
        lemma_placed(rest, session);
        let tail = placed(rest, session);
        assert(after =~= tail.insert(0, list[0]));
        assert(list =~= rest.insert(0, list[0]));
        assert(after.to_multiset() =~= list.to_multiset().insert(session));
        assert forall|i: int, j: int| 0 <= i < j < after.len() implies !older(
            #[trigger] after[i].updated_at,
            #[trigger] after[j].updated_at,
        ) by {
            assert(after[j] == tail[j - 1]);
            if i == 0 {
                if tail[j - 1] != session {
                    assert(rest.contains(tail[j - 1]));
                    let k = choose|k: int| 0 <= k < rest.len() && rest[k] == tail[j - 1];
                    assert(!older(list[0].updated_at, list[k + 1].updated_at));
                }
            } else {
                assert(after[i] == tail[i - 1]);
            }
        }
        assert forall|i: int| 0 <= i < after.len() implies #[trigger] after[i] == session
            || list.contains(after[i]) by {
            if i == 0 {
                assert(after[0] == list[0]);
            } else {
                assert(after[i] == tail[i - 1]);
                if tail[i - 1] != session {
                    let k = choose|k: int| 0 <= k < rest.len() && rest[k] == tail[i - 1];
                    assert(list[k + 1] == after[i]);
                }
            }
        }
    }
}

/// The sessions of a time, in their order.
pub open spec fn of_time(list: Seq<SessionView>, time: Option<Seq<char>>) -> Seq<SessionView>
    decreases list.len(),
{
    if list.len() == 0 {
        Seq::empty()
    } else if list[0].updated_at == time {
        seq![list[0]] + of_time(list.drop_first(), time)
    } else {
        of_time(list.drop_first(), time)
    }
}

/// A session at the end of a list is the last of its time.
proof fn lemma_of_time_push(list: Seq<SessionView>, session: SessionView, time: Option<Seq<char>>)
    ensures
        of_time(list.push(session), time) == (if session.updated_at == time {
            of_time(list, time).push(session)
        } else {
            of_time(list, time)
        }),
    decreases list.len(),
{
    let more = list.push(session);
    if list.len() == 0 {
        assert(more.drop_first() =~= list);
        assert(of_time(more.drop_first(), time) =~= Seq::empty());
        assert(of_time(more, time) =~= if session.updated_at == time {
            of_time(list, time).push(session)
        } else {
            of_time(list, time)
        });
    } else {
        assert(more.drop_first() =~= list.drop_first().push(session));
        lemma_of_time_push(list.drop_first(), session, time);
        assert(of_time(more, time) =~= if session.updated_at == time {
            of_time(list, time).push(session)
        } else {
            of_time(list, time)
        });
    }
}

/// No session has a time where all are older.
proof fn lemma_none_of_time(list: Seq<SessionView>, time: Option<Seq<char>>)
    requires
        forall|i: int| 0 <= i < list.len() ==> older(#[trigger] list[i].updated_at, time),
    ensures
        of_time(list, time) == Seq::<SessionView>::empty(),
    decreases list.len(),
{
    if list.len() > 0 {
        assert(older(list[0].updated_at, time));
        lemma_older_asymmetric(list[0].updated_at, time);
        let rest = list.drop_first();
        assert forall|i: int| 0 <= i < rest.len() implies older(
            #[trigger] rest[i].updated_at,
            time,
        ) by {
            assert(rest[i] == list[i + 1]);
        }
        lemma_none_of_time(rest, time);
    }
}

/// A session put before the first that is older is the last of its time.
proof fn lemma_placed_last(list: Seq<SessionView>, session: SessionView, time: Option<Seq<char>>)
    requires
        newest_first(list),
    ensures
        of_time(placed(list, session), time) == (if session.updated_at == time {
            of_time(list, time).push(session)
        } else {
            of_time(list, time)
        }),
    decreases list.len(),
{
    let after = placed(list, session);
    if list.len() == 0 || older(list[0].updated_at, session.updated_at) {
        assert(after.drop_first() =~= list);
        assert forall|i: int| 0 <= i < list.len() implies older(
            #[trigger] list[i].updated_at,
            session.updated_at,
        ) by {
            if i > 0 {
                assert(!older(list[0].updated_at, list[i].updated_at));
                if !older(list[i].updated_at, session.updated_at) {
                    lemma_not_older(
                        list[0].updated_at,
                        list[i].updated_at,
                        session.updated_at,
                    );
                }
            }
        }
        if session.updated_at == time {
            lemma_none_of_time(list, time);
        }
    } else {
        let rest = list.drop_first();
        assert forall|i: int, j: int| 0 <= i < j < rest.len() implies !older(
            #[trigger] rest[i].updated_at,
            #[trigger] rest[j].updated_at,
        ) by {
            assert(!older(list[i + 1].updated_at, list[j + 1].updated_at));
        }
        lemma_placed_last(rest, session, time);
        assert(after.drop_first() =~= placed(rest, session));
    }
    assert(of_time(after, time) =~= if session.updated_at == time {
        of_time(list, time).push(session)
    } else {
        of_time(list, time)
    });
}

/// A listing holds each of the sessions as often as it is among them, the newest first, and
/// those of the same time in the order that they had.
pub proof fn listing_is_sorted(list: Seq<SessionView>)
    ensures
        newest_first(recent_first(list)),
        recent_first(list).to_multiset() == list.to_multiset(),
        forall|time: Option<Seq<char>>| #[trigger]
            of_time(recent_first(list), time) == of_time(list, time),
    decreases list.len(),
{
    broadcast use vstd::seq_lib::group_to_multiset_ensures;

    if list.len() > 0 {
        let front = list.drop_last();
        listing_is_sorted(front);
        lemma_placed(recent_first(front), list.last());
        assert(list =~= front.push(list.last()));
        assert forall|time: Option<Seq<char>>| #[trigger]
            of_time(recent_first(list), time) == of_time(list, time) by {
            lemma_placed_last(recent_first(front), list.last(), time);
            lemma_of_time_push(front, list.last(), time);
            assert(of_time(recent_first(front), time) == of_time(front, time));
        }
    } else {
        assert(recent_first(list) =~= list);
    }
}

/// Whether every session stands under its own id.
pub open spec fn keyed_by_id(entries: Seq<(Seq<char>, SessionView)>) -> bool {
    forall|i: int| 0 <= i < entries.len() ==> (#[trigger] entries[i]).0 == entries[i].1.session_id
}

/// Whether sessions are in the order of their ids.
pub open spec fn ids_in_order(list: Seq<SessionView>) -> bool {
    forall|i: int, j: int|
        0 <= i < j < list.len() ==> comes_before(
            #[trigger] list[i].session_id,
            #[trigger] list[j].session_id,
        )
}

/// The marked sessions are in the order of their ids.
proof fn lemma_marked_in_order(entries: Seq<(Seq<char>, SessionView)>, marks: Seq<bool>)
    requires
        in_order(entries),
        keyed_by_id(entries),
    ensures
        ids_in_order(marked(entries, marks)),
        forall|i: int|
            0 <= i < marked(entries, marks).len() ==> exists|j: int|
                0 <= j < entries.len() && (#[trigger] entries[j]).1 == #[trigger] marked(
                    entries,
                    marks,
                )[i],
    decreases entries.len(),
{
    if entries.len() > 0 {
        let front = entries.drop_last();
        let last = entries.last();
        assert forall|i: int, j: int| 0 <= i < j < front.len() implies comes_before(
            #[trigger] front[i].0,
            #[trigger] front[j].0,
        ) by {
            assert(comes_before(entries[i].0, entries[j].0));
        }
        assert forall|i: int| 0 <= i < front.len() implies (#[trigger] front[i]).0
            == front[i].1.session_id by {
            assert(entries[i].0 == entries[i].1.session_id);
        }
        lemma_marked_in_order(front, marks);
        let before = marked(front, marks);
        let after = marked(entries, marks);
        assert forall|i: int| 0 <= i < after.len() implies exists|j: int|
            0 <= j < entries.len() && (#[trigger] entries[j]).1 == #[trigger] after[i] by {
            if i < before.len() {
                let j = choose|j: int|
                    0 <= j < front.len() && (#[trigger] front[j]).1 == before[i];
                assert(entries[j].1 == after[i]);
            } else {
                assert(entries[entries.len() - 1].1 == after[i]);
            }
        }
        assert forall|i: int, j: int| 0 <= i < j < after.len() implies comes_before(
            #[trigger] after[i].session_id,
            #[trigger] after[j].session_id,
        ) by {
            if j < before.len() {
                assert(comes_before(before[i].session_id, before[j].session_id));
            } else {
                let k = choose|k: int|
                    0 <= k < front.len() && (#[trigger] front[k]).1 == before[i];
                assert(entries[k].0 == entries[k].1.session_id);
                assert(entries[entries.len() - 1].0 == last.1.session_id);
                assert(comes_before(entries[k].0, entries[entries.len() - 1].0));
            }
        }
    }
}

/// The sessions of a time keep their order of ids.
proof fn lemma_of_time_in_order(list: Seq<SessionView>, time: Option<Seq<char>>)
    requires
        ids_in_order(list),
    ensures
        ids_in_order(of_time(list, time)),
        forall|i: int|
            0 <= i < of_time(list, time).len() ==> list.contains(#[trigger] of_time(list, time)[i]),
    decreases list.len(),
{
    if list.len() > 0 {
        let rest = list.drop_first();
        assert forall|i: int, j: int| 0 <= i < j < rest.len() implies comes_before(
            #[trigger] rest[i].session_id,
            #[trigger] rest[j].session_id,
        ) by {
            assert(comes_before(list[i + 1].session_id, list[j + 1].session_id));
        }
        lemma_of_time_in_order(rest, time);
        let tail = of_time(rest, time);
        let all = of_time(list, time);
        let shift: int = all.len() - tail.len();
        assert forall|i: int| 0 <= i < all.len() implies list.contains(#[trigger] all[i]) by {
            if i < shift {
                assert(list[0] == all[i]);
            } else {
                assert(all[i] == tail[i - shift]);
                assert(rest.contains(tail[i - shift]));
                let k = choose|k: int| 0 <= k < rest.len() && rest[k] == tail[i - shift];
                assert(list[k + 1] == all[i]);
            }
        }
        assert forall|i: int, j: int| 0 <= i < j < all.len() implies comes_before(
            #[trigger] all[i].session_id,
            #[trigger] all[j].session_id,
        ) by {
            assert(all[j] == tail[j - shift]);
            if i < shift {
                assert(rest.contains(tail[j - shift]));
                let k = choose|k: int| 0 <= k < rest.len() && rest[k] == tail[j - shift];
                assert(comes_before(list[0].session_id, list[k + 1].session_id));
            } else {
                assert(all[i] == tail[i - shift]);
            }
        }
    }
}

/// In a listing of an index in which each session stands under its id, the sessions of the same
/// time are in the order of their ids.
pub proof fn same_times_are_in_order_of_ids(
    entries: Seq<(Seq<char>, SessionView)>,
    marks: Seq<bool>,
    time: Option<Seq<char>>,
)
    requires
        in_order(entries),
        keyed_by_id(entries),
    ensures
        ids_in_order(of_time(recent_first(marked(entries, marks)), time)),
{
    let list = marked(entries, marks);
    lemma_marked_in_order(entries, marks);
    listing_is_sorted(list);
    assert(of_time(recent_first(list), time) == of_time(list, time));
    lemma_of_time_in_order(list, time);
}

/// The page that a next cursor points to starts where the page before it ended, and a page
/// without a next cursor ends the listing: nothing is left out and nothing comes twice.
pub proof fn pages_follow_each_other(sessions: Seq<SessionView>, cursor: Option<Seq<char>>)
    requires
        sessions.len() <= usize::MAX,
    ensures
        ({
            let start = page_start(cursor) as int;
            let shown = page_at(sessions, start);
            match shown.next_cursor {
                Some(next) => {
                    &&& page_start(Some(next)) == start + shown.sessions.len()
                    &&& shown.sessions.len() == LIST_PAGE_SIZE
                    &&& shown.sessions == sessions.subrange(
                        start,
                        page_start(Some(next)) as int,
                    ).map_values(|s: SessionView| info_of(s))
                },
                None => start <= sessions.len() ==> shown.sessions == sessions.skip(
                    start,
                ).map_values(|s: SessionView| info_of(s)),
            }
        }),
{
    let start = page_start(cursor) as int;
    let end = start + LIST_PAGE_SIZE;
    if end < sessions.len() {
        decimal_reads_back(end as usize);
    } else if start <= sessions.len() {
        assert(page_at(sessions, start).sessions =~= sessions.skip(start).map_values(
            |s: SessionView| info_of(s),
        ));
    }
}

/// What a client sees that starts at a cursor and follows each next cursor to the end.
pub open spec fn walked(sessions: Seq<SessionView>, cursor: Option<Seq<char>>) -> Seq<InfoView>
    decreases sessions.len() - page_start(cursor),
    when sessions.len() <= usize::MAX
    via walked_decreases
{
    let shown = page_at(sessions, page_start(cursor) as int);
    match shown.next_cursor {
        Some(next) => shown.sessions + walked(sessions, Some(next)),
        None => shown.sessions,
    }
}

#[via_fn]
proof fn walked_decreases(sessions: Seq<SessionView>, cursor: Option<Seq<char>>) {
    pages_follow_each_other(sessions, cursor);
}

/// From any cursor on, the pages show every session of the listing once, in its order.
pub proof fn pages_show_everything(sessions: Seq<SessionView>, cursor: Option<Seq<char>>)
    requires
        sessions.len() <= usize::MAX,
        page_start(cursor) <= sessions.len(),
    ensures
        walked(sessions, cursor) == sessions.skip(page_start(cursor) as int).map_values(
            |s: SessionView| info_of(s),
        ),
    decreases sessions.len() - page_start(cursor),
{
    pages_follow_each_other(sessions, cursor);
    let start = page_start(cursor) as int;
    let shown = page_at(sessions, start);
    if let Some(next) = shown.next_cursor {
        pages_show_everything(sessions, Some(next));
        assert(walked(sessions, cursor) =~= sessions.skip(start).map_values(
            |s: SessionView| info_of(s),
        ));
    }
}

} // verus!
