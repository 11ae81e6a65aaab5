use pi_acp::index::{page, SessionIndex, StoredSession};

fn session(id: &str, cwd: &str, updated_at: Option<&str>) -> StoredSession {
    StoredSession {
        session_id: id.to_owned(),
        cwd: cwd.to_owned(),
        session_file: format!("/files/{id}.jsonl"),
        title: None,
        updated_at: updated_at.map(str::to_owned),
    }
}

fn ids(sessions: &[StoredSession]) -> Vec<&str> {
    sessions.iter().map(|s| s.session_id.as_str()).collect()
}

#[test]
fn a_session_that_was_put_in_is_found() {
    let mut index = SessionIndex::new();
    assert!(index.get("a").is_none());
    index.upsert(session("a", "/w", Some("2025-01-01T00:00:00Z")));
    index.upsert(session("b", "/w", None));
    assert_eq!(index.get("a").unwrap().session_file, "/files/a.jsonl");
    index.upsert(session("a", "/x", Some("2025-02-01T00:00:00Z")));
    assert_eq!(index.get("a").unwrap().cwd, "/x");
    assert_eq!(index.entries().len(), 2);
}

#[test]
fn a_session_that_was_deleted_is_not_found() {
    let mut index = SessionIndex::new();
    index.upsert(session("a", "/w", None));
    index.upsert(session("b", "/w", None));
    assert_eq!(index.delete("a").unwrap().session_id, "a");
    assert!(index.delete("a").is_none());
    assert!(index.get("a").is_none());
    assert!(index.get("b").is_some());
}

#[test]
fn entries_are_kept_in_the_order_of_their_keys() {
    let mut index = SessionIndex::new();
    for id in ["m", "z", "a", "é", "Z"] {
        index.put(id.to_owned(), session(id, "/w", None));
    }
    let keys: Vec<&str> = index.entries().iter().map(|(key, _)| key.as_str()).collect();
    assert_eq!(keys, vec!["Z", "a", "m", "z", "é"]);
}

#[test]
fn listings_show_the_latest_first() {
    let mut index = SessionIndex::new();
    index.upsert(session("old", "/w", Some("2024-01-01T00:00:00Z")));
    index.upsert(session("never", "/w", None));
    index.upsert(session("new", "/w", Some("2025-01-01T00:00:00Z")));
    index.upsert(session("other", "/x", Some("2026-01-01T00:00:00Z")));
    assert_eq!(ids(&index.list(None)), vec!["other", "new", "old", "never"]);
    assert_eq!(ids(&index.list(Some("/w"))), vec!["new", "old", "never"]);
    assert!(index.list(Some("/nowhere")).is_empty());
}

#[test]
fn sessions_of_the_same_time_stay_in_the_order_of_their_keys() {
    let mut index = SessionIndex::new();
    for id in ["c", "a", "b"] {
        index.upsert(session(id, "/w", Some("2025-01-01T00:00:00Z")));
    }
    assert_eq!(ids(&index.list(None)), vec!["a", "b", "c"]);
}

#[test]
fn a_directory_is_compared_as_a_path() {
    let mut index = SessionIndex::new();
    index.upsert(session("a", "/w/x", None));
    assert_eq!(index.list(Some("/w//x/")).len(), 1);
    assert_eq!(index.list(Some("/w/./x")).len(), 1);
    assert_eq!(index.list(Some("/w/../w/x")).len(), 0);
    assert_eq!(index.list(Some("w/x")).len(), 0);
    index.upsert(session("b", "./w", None));
    assert_eq!(index.list(Some("./w/.")).len(), 1);
    assert_eq!(index.list(Some("w")).len(), 0);
    assert_eq!(index.list(Some("/w/x/y")).len(), 0);
}

fn many(count: usize) -> Vec<StoredSession> {
    (0..count).map(|n| session(&format!("s{n:03}"), "/w", None)).collect()
}

#[test]
fn pages_hold_a_hundred_sessions() {
    let sessions = many(250);
    let first = page(&sessions, None);
    assert_eq!(first.sessions.len(), 100);
    assert_eq!(first.sessions[0].session_id, "s000");
    assert_eq!(first.next_cursor.as_deref(), Some("100"));
    let last = page(&sessions, Some("200"));
    assert_eq!(last.sessions.len(), 50);
    assert_eq!(last.sessions[0].session_id, "s200");
    assert!(last.next_cursor.is_none());
}

#[test]
fn pages_show_every_session_once() {
    let sessions = many(230);
    let mut seen = Vec::new();
    let mut cursor: Option<String> = None;
    loop {
        let shown = page(&sessions, cursor.as_deref());
        seen.extend(shown.sessions.iter().map(|s| s.session_id.clone()));
        cursor = shown.next_cursor;
        if cursor.is_none() {
            break;
        }
    }
    let expected: Vec<String> = sessions.iter().map(|s| s.session_id.clone()).collect();
    assert_eq!(seen, expected);
}

#[test]
fn a_cursor_that_is_no_number_starts_at_the_beginning() {
    let sessions = many(3);
    assert_eq!(page(&sessions, Some("x")).sessions.len(), 3);
    assert_eq!(page(&sessions, Some("-1")).sessions.len(), 3);
    assert_eq!(page(&sessions, Some("+2")).sessions.len(), 1);
    assert_eq!(page(&sessions, Some("3")).sessions.len(), 0);
    assert_eq!(page(&sessions, Some("99999999999999999999")).sessions.len(), 3);
}

#[test]
fn a_full_last_page_has_no_next_one() {
    let shown = page(&many(100), None);
    assert_eq!(shown.sessions.len(), 100);
    assert!(shown.next_cursor.is_none());
}
