//! Laws on what is kept of sessions, and how it is listed.

use vstd::prelude::*;

use crate::index::{
    listing_is_sorted, marked, may_mark, newest_first, of_directory, older, page_at, page_start,
    recent_first, SessionView,
};
use crate::json::JsonView;
use crate::paths::{is_portable, same_parts};
use crate::session::{leads, meta_text, stored_at};
use crate::text::{comes_before, decimal, parsed_index};

verus! {

/// What is kept of a session is its id, where it works, its file, the name that Pi knows it by and
/// the time.
pub proof fn sessions_are_kept_as_they_are(
    id: Seq<char>,
    cwd: Seq<char>,
    file: Seq<char>,
    state: JsonView,
    now: Option<Seq<char>>,
)
    ensures
        ({
            let kept = stored_at(id, cwd, file, state, now);
            &&& kept.session_id == id
            &&& kept.cwd == cwd
            &&& kept.session_file == file
            &&& kept.title == state.str_at("sessionName"@)
            &&& kept.updated_at == now
        }),
{
}

/// What a client says beside its request is found under its key where it is a text.
pub proof fn asides_are_found(meta: JsonView, key: Seq<char>)
    ensures
        meta_text(None, key) is None,
        meta_text(Some(meta), key) matches Some(text) ==> meta.get(key) == Some(
            JsonView::String(text),
        ),
        meta_text(Some(meta), key) is None ==> !(meta.get(key) matches Some(JsonView::String(_))),
{
}

/// The order of a listing: a session that was changed later stands before one that was changed
/// earlier, and one without a time stands behind all that have one.
pub proof fn latest_sessions_are_listed_first(list: Seq<SessionView>, i: int, j: int)
    requires
        0 <= i < j < recent_first(list).len(),
    ensures
        ({
            let sorted = recent_first(list);
            let first = sorted[i].updated_at;
            let second = sorted[j].updated_at;
            &&& first is None ==> second is None
            &&& first is Some && second is Some ==> !comes_before(first->0, second->0)
        }),
{
    listing_is_sorted(list);
    let sorted = recent_first(list);
    assert(newest_first(sorted));
    assert(!older(sorted[i].updated_at, sorted[j].updated_at));
}

/// The sessions of a directory are those that work in it, and without a directory all are
/// listed, in their order.
pub proof fn sessions_are_listed_by_directory(
    entries: Seq<(Seq<char>, SessionView)>,
    cwd: Seq<char>,
)
    ensures
        of_directory(entries, None) == entries.map_values(
            |entry: (Seq<char>, SessionView)| entry.1,
        ),
        of_directory(entries, Some(cwd)) == entries.filter(
            |entry: (Seq<char>, SessionView)| same_parts(entry.1.cwd, cwd),
        ).map_values(|entry: (Seq<char>, SessionView)| entry.1),
    decreases entries.len(),
{
    reveal(Seq::filter);
    let all = entries.map_values(|entry: (Seq<char>, SessionView)| entry.1);
    let some = entries.filter(
        |entry: (Seq<char>, SessionView)| same_parts(entry.1.cwd, cwd),
    ).map_values(|entry: (Seq<char>, SessionView)| entry.1);
    if entries.len() > 0 {
        sessions_are_listed_by_directory(entries.drop_last(), cwd);
        assert(of_directory(entries, None) =~= all);
        assert(of_directory(entries, Some(cwd)) =~= some);
    } else {
        assert(all =~= Seq::empty());
        assert(some =~= Seq::empty());
    }
}

/// Of sessions that are marked one by one, the marked ones are listed, in their order.
pub proof fn marked_sessions_are_listed(
    entries: Seq<(Seq<char>, SessionView)>,
    marks: Seq<bool>,
)
    requires
        entries.len() <= marks.len(),
    ensures
        marked(entries, marks) == Seq::new(
            entries.len(),
            |i: int| (entries[i].1, marks[i]),
        ).filter(|both: (SessionView, bool)| both.1).map_values(
            |both: (SessionView, bool)| both.0,
        ),
    decreases entries.len(),
{
    reveal(Seq::filter);
    let both = Seq::new(entries.len(), |i: int| (entries[i].1, marks[i]));
    let listed = both.filter(|both: (SessionView, bool)| both.1).map_values(
        |both: (SessionView, bool)| both.0,
    );
    if entries.len() > 0 {
        let front = entries.drop_last();
        marked_sessions_are_listed(front, marks);
        assert(both.drop_last() =~= Seq::new(front.len(), |i: int| (front[i].1, marks[i])));
        assert(marked(entries, marks) =~= listed);
    } else {
        assert(listed =~= Seq::empty());
    }
}

/// Where all sessions are wanted each is marked, and where those of a directory are, one that
/// works in it is, by its name or by the parts of it, and one that works elsewhere is not.
pub proof fn marks_go_by_directory(cwd: Seq<char>, dir: Seq<char>, mark: bool)
    ensures
        may_mark(None, dir, mark) ==> mark,
        may_mark(Some(cwd), cwd, mark) ==> mark,
        may_mark(Some(cwd), dir, mark) && is_portable(cwd) && is_portable(dir) ==> (mark
            <==> same_parts(dir, cwd)),
{
}

/// A page starts where its cursor says, and at the beginning where there is no cursor or it is no
/// number.
pub proof fn cursors_are_numbers(cursor: Seq<char>)
    ensures
        page_start(None) == 0,
        parsed_index(cursor) is Some ==> Some(page_start(Some(cursor))) == parsed_index(cursor),
        parsed_index(cursor) is None ==> page_start(Some(cursor)) == 0,
{
}

/// A page shows a hundred sessions, or as many as are left, in the order of the listing, each with
/// its id, its directory, its title and its time. It names a next page only where more follow.
pub proof fn pages_show_a_hundred(sessions: Seq<SessionView>, start: int)
    requires
        0 <= start,
    ensures
        ({
            let page = page_at(sessions, start);
            let left = sessions.len() - start;
            &&& left <= 0 ==> page.sessions.len() == 0
            &&& 0 < left <= 100 ==> page.sessions.len() == left
            &&& left > 100 ==> page.sessions.len() == 100
            &&& forall|i: int|
                0 <= i < page.sessions.len() ==> {
                    &&& (#[trigger] page.sessions[i]).session_id == sessions[start + i].session_id
                    &&& page.sessions[i].cwd == sessions[start + i].cwd
                    &&& page.sessions[i].title == sessions[start + i].title
                    &&& page.sessions[i].updated_at == sessions[start + i].updated_at
                }
            &&& left > 100 ==> page.next_cursor == Some(decimal((start + 100) as nat))
            &&& left <= 100 ==> page.next_cursor is None
        }),
{
}

/// A session is listed from when an id stands for it until no id does any more.
pub proof fn ids_lead_to_sessions(
    table: Map<Seq<char>, usize>,
    id: Seq<char>,
    session: usize,
    other: usize,
)
    ensures
        !leads(Map::empty(), session),
        leads(table.insert(id, session), session),
        other != session && leads(table.insert(id, session), other) ==> leads(table, other),
        leads(table.remove(id), other) ==> leads(table, other),
        leads(table, other) && !leads(table.remove(id), other) ==> table.contains_key(id)
            && table[id] == other,
{
    let more = table.insert(id, session);
    let fewer = table.remove(id);
    assert(more.contains_key(id) && more[id] == session);
    if other != session && leads(more, other) {
        let name = choose|name: Seq<char>| #[trigger]
            more.contains_key(name) && more[name] == other;
        assert(table.contains_key(name) && table[name] == other);
    }
    if leads(fewer, other) {
        let name = choose|name: Seq<char>| #[trigger]
            fewer.contains_key(name) && fewer[name] == other;
        assert(table.contains_key(name) && table[name] == other);
    } else if leads(table, other) {
        let name = choose|name: Seq<char>| #[trigger]
            table.contains_key(name) && table[name] == other;
        if name != id {
            assert(fewer.contains_key(name) && fewer[name] == other);
        }
    }
}

} // verus!
