use std::collections::HashMap;

use joi::config::Config;
use joi::history::file::{
    current_conversation_path, log_line, log_lines, log_text, parsed_turns, JsonlHistory,
};
use joi::history::memory::InMemoryHistory;
use joi::history::session::{
    index_path, log_path, SessionIndex, SessionMeta, SessionStore, SessionSummary,
};
use joi::history::{
    estimate_tokens, newest_first_within, HistoryTurn, Role, TokenBudget, TURN_FRAMING_TOKENS,
};
use joi::manager::{Command, Effect, SessionManager};
use joi::providers::MockSession;

fn record(turn: &HistoryTurn) -> String {
    let mut fields = serde_json::Map::new();
    let role = if turn.role == Role::User { "user" } else { "assistant" };
    fields.insert("role".to_string(), serde_json::Value::from(role));
    fields.insert("text".to_string(), serde_json::Value::from(turn.text.as_str()));
    fields.insert("ts_ms".to_string(), serde_json::Value::from(turn.ts_ms));
    serde_json::Value::Object(fields).to_string()
}

fn read_record(line: &str) -> Option<HistoryTurn> {
    let value: serde_json::Value = serde_json::from_str(line).ok()?;
    let role = if value["role"] == "user" { Role::User } else { Role::Assistant };
    Some(HistoryTurn::new(role, value["text"].as_str()?, value["ts_ms"].as_u64()?))
}

/// Files by their paths.
type Disk = HashMap<String, String>;

fn write_turn(disk: &mut Disk, path: String, turn: &HistoryTurn) {
    disk.entry(path).or_default().push_str(&log_line(&record(turn)));
}

fn read_turns(disk: &Disk, path: &str) -> Vec<HistoryTurn> {
    let contents = disk.get(path).map_or("", String::as_str);
    let parsed: Vec<Option<HistoryTurn>> =
        log_lines(contents).iter().map(|l| read_record(l)).collect();
    parsed_turns(&parsed)
}

#[test]
fn estimate_is_at_least_one() {
    assert_eq!(estimate_tokens(""), 1);
    assert_eq!(estimate_tokens("12345678"), 2);
}

#[test]
fn token_estimate_adds_turn_framing() {
    let turn = HistoryTurn::new(Role::User, "12345678", 0);
    assert_eq!(estimate_tokens(&turn.text), 2);
    assert_eq!(turn.token_estimate(), 2 + TURN_FRAMING_TOKENS);
}

#[test]
fn newest_first_respects_budget_and_order() {
    let per_turn = 1 + TURN_FRAMING_TOKENS;
    let turns: Vec<HistoryTurn> =
        (0..10).map(|i| HistoryTurn::new(Role::User, "abcd", i)).collect();
    let got = newest_first_within(&turns, TokenBudget(per_turn * 3));
    assert_eq!(got.len(), 3);
    assert_eq!(got[0].ts_ms, 9);
    assert_eq!(got[2].ts_ms, 7);
    let total: u32 = got.iter().map(|t| t.token_estimate()).sum();
    assert!(total <= per_turn * 3);
}

#[test]
fn append_and_load_roundtrip() {
    let mut h = InMemoryHistory::new();
    h.append(HistoryTurn::new(Role::User, "one", 1));
    h.append(HistoryTurn::new(Role::Assistant, "two", 2));
    let loaded = h.load_within_budget(TokenBudget(1_000));
    assert_eq!(loaded.len(), 2);
    assert_eq!(loaded[0].text, "two");
    assert_eq!(loaded[1].text, "one");
    h.clear();
    assert!(h.load_within_budget(TokenBudget(1_000)).is_empty());
}

#[test]
fn meta_counts_turns() {
    let mut h = InMemoryHistory::new();
    h.append(HistoryTurn::new(Role::User, "12345678", 1));
    let meta = h.meta(TokenBudget(100));
    assert_eq!(meta.turns, 1);
    assert_eq!(meta.token_estimate, 2 + TURN_FRAMING_TOKENS);
    assert_eq!(meta.budget, 100);
}

#[test]
fn corrupt_lines_are_skipped_not_panicked() {
    let contents = "good\n\nnot json at all\n{partial\n";
    let lines = log_lines(contents);
    assert_eq!(lines, vec!["good", "not json at all", "{partial"]);
    let parsed = vec![Some(HistoryTurn::new(Role::User, "ok", 1)), None, None];
    let turns = parsed_turns(&parsed);
    assert_eq!(turns.len(), 1);
    assert_eq!(turns[0].text, "ok");
}

#[test]
fn written_records_read_back() {
    let records = vec!["{\"a\":1}".to_string(), "{\"b\":2}".to_string()];
    let text = log_text(&records);
    assert_eq!(text, "{\"a\":1}\n{\"b\":2}\n");
    assert_eq!(log_lines(&text), records);
    assert_eq!(log_line("x"), "x\n");
}

#[test]
fn append_never_exceeds_budget() {
    for budget in [1u32, 5, 13, 49] {
        let store = JsonlHistory::new(current_conversation_path("/d"), TokenBudget(budget));
        let mut turns: Vec<HistoryTurn> = Vec::new();
        for i in 0..40u64 {
            let text = "abc def ".repeat((i % 6) as usize);
            turns = store.append(turns, HistoryTurn::new(Role::User, &text, i));
            let total: u32 = turns.iter().map(|t| t.token_estimate()).sum();
            assert!(total <= budget, "stored estimate {total} exceeded budget {budget}");
        }
        let loaded = newest_first_within(&turns, TokenBudget(budget));
        let total: u32 = loaded.iter().map(|t| t.token_estimate()).sum();
        assert!(total <= budget);
    }
}

#[test]
fn paths_of_a_store() {
    assert_eq!(current_conversation_path("/data/history"), "/data/history/current.jsonl");
    assert_eq!(log_path("/s", "abc"), "/s/abc.jsonl");
    assert_eq!(index_path("/s/"), "/s/index.json");
}

#[test]
fn new_session_persists_turns_and_index() {
    let mut index = SessionIndex::new();
    let mut store = SessionStore::create_new("/s", &mut index, 1_000);
    let hello = HistoryTurn::new(Role::User, "hello", 1);
    let hi = HistoryTurn::new(Role::Assistant, "hi there", 2);
    store.append(&hello, &mut index, 1_000);
    store.append(&hi, &mut index, 1_000);

    let turns = vec![hello, hi];
    let loaded = newest_first_within(&turns, TokenBudget(1_000));
    assert_eq!(loaded.len(), 2);
    assert_eq!(loaded[0].text, "hi there");

    let summaries = SessionStore::list(&index);
    assert_eq!(summaries.len(), 1);
    let cur = store.current_summary();
    assert_eq!(summaries[0].id, cur.id);
    assert_eq!(store.current_log(), format!("/s/{}.jsonl", cur.id));

    let session = store.current(turns);
    assert_eq!(session.id, cur.id);
    assert_eq!(session.turns.len(), 2);
    assert_eq!(session.turns[0].text, "hello");
}

#[test]
fn a_new_session_has_a_uuid() {
    let mut index = SessionIndex::new();
    let a = SessionStore::create_new("/s", &mut index, 1).current_summary().id;
    let b = SessionStore::create_new("/s", &mut index, 1).current_summary().id;
    assert_ne!(a, b);
    for id in [&a, &b] {
        assert_eq!(id.len(), 36);
        let dashes: Vec<usize> =
            id.char_indices().filter(|(_, c)| *c == '-').map(|(i, _)| i).collect();
        assert_eq!(dashes, vec![8, 13, 18, 23]);
        assert!(id.chars().all(|c| c == '-' || c.is_ascii_digit() || ('a'..='f').contains(&c)));
    }
}

#[test]
fn append_refreshes_last_updated() {
    let mut index = SessionIndex::new();
    let mut store = SessionStore::create_new("/s", &mut index, 1_000);
    let created = store.current_summary().meta.last_updated;
    store.append(&HistoryTurn::new(Role::User, "later", 9), &mut index, 6_000);
    let after = store.current_summary().meta.last_updated;
    assert!(after > created, "append must bump last_updated: {after} > {created}");
    let listed = SessionStore::list(&index);
    assert_eq!(listed[0].meta.last_updated, after);
}

#[test]
fn load_resumes_turns_and_refreshes_last_opened() {
    let mut index = SessionIndex::new();
    let mut disk = Disk::new();
    let id = {
        let mut store = SessionStore::create_new("/s", &mut index, 1_000);
        let turn = HistoryTurn::new(Role::User, "remember me", 1);
        write_turn(&mut disk, store.current_log(), &turn);
        store.append(&turn, &mut index, 1_000);
        store.current_summary().id
    };
    let store = SessionStore::load("/s", &id, &mut index, 9_000);
    let summary = store.current_summary();
    assert_eq!(summary.id, id);
    assert_eq!(summary.meta.last_opened, 9_000, "load refreshes last_opened");
    assert_eq!(summary.meta.created_at, 1_000);
    let turns = read_turns(&disk, &store.current_log());
    let loaded = newest_first_within(&turns, TokenBudget(1_000));
    assert_eq!(loaded.len(), 1);
    assert_eq!(loaded[0].text, "remember me");
}

#[test]
fn rename_persists_to_index() {
    let mut index = SessionIndex::new();
    let mut store = SessionStore::create_new("/s", &mut index, 1_000);
    store.rename(Some("Morning chat".to_string()), &mut index);
    let listed = SessionStore::list(&index);
    assert_eq!(listed[0].meta.name.as_deref(), Some("Morning chat"));
}

#[test]
fn sessions_persist_list_and_switch() {
    let mut index = SessionIndex::new();
    let mut disk = Disk::new();
    let mut store = SessionStore::create_new("/s", &mut index, 1_000);
    let mut manager = SessionManager::new(Config::default(), 1_000, false);
    let mut session = MockSession::new();
    let _ = manager.handle_command(Command::Start { resume: false });
    let _ = manager.connect_finished(session.connect(), 1_000);
    for event in session.send_text("first conversation topic").unwrap() {
        for effect in manager.handle_event(event, 1_001) {
            if let Effect::Append(turn, _) = effect {
                write_turn(&mut disk, store.current_log(), &turn);
                store.append(&turn, &mut index, 1_001);
            }
        }
    }
    let current = store.current_summary();
    assert_eq!(current.meta.name.as_deref(), Some("first conversation topic"));
    assert_eq!(SessionStore::list(&index).len(), 1);

    let fresh = store.start_new(&mut index, 2_000);
    assert_ne!(fresh.id, current.id);
    assert_eq!(SessionStore::list(&index).len(), 2);

    let resumed = store.switch_to(&current.id, &mut index, 3_000);
    assert_eq!(resumed.id, current.id);
    assert_eq!(store.current_summary().id, current.id);

    let turns = read_turns(&disk, &log_path("/s", &current.id));
    assert!(turns.len() >= 2, "expected user + agent turns, got {turns:?}");
    assert_eq!(turns[0].role, Role::User);
    assert_eq!(turns[0].text, "first conversation topic");
    assert_eq!(turns[1].role, Role::Assistant);
    assert!(
        turns[1].text.contains("echo: first conversation topic"),
        "agent turn should be the mock's echoed reply, got {:?}",
        turns[1].text
    );
    assert!(read_turns(&disk, &log_path("/s", &fresh.id)).is_empty());
}

#[test]
fn a_list_is_newest_first_and_then_by_id() {
    let mut index = SessionIndex::new();
    let meta = |t: u64| SessionMeta { name: None, created_at: 0, last_opened: 0, last_updated: t };
    index.insert("b", meta(5));
    index.insert("c", meta(9));
    index.insert("a", meta(5));
    index.insert("b", meta(5));
    let ids: Vec<String> = SessionStore::list(&index).into_iter().map(|s| s.id).collect();
    assert_eq!(ids, vec!["c", "a", "b"]);
    assert_eq!(index.get("c").unwrap().last_updated, 9);
    assert!(index.get("zzz").is_none());
}

#[test]
fn a_written_session_leads_the_list() {
    let mut index = SessionIndex::new();
    let mut old = SessionStore::create_with_id("/s", "old".to_string(), &mut index, 10);
    let _new = SessionStore::create_with_id("/s", "new".to_string(), &mut index, 20);
    let first = |index: &SessionIndex| -> SessionSummary { SessionStore::list(index).remove(0) };
    assert_eq!(first(&index).id, "new");
    old.append(&HistoryTurn::new(Role::User, "hi", 1), &mut index, 30);
    assert_eq!(first(&index).id, "old");
}

#[test]
fn append_load_clear_roundtrip() {
    let store = JsonlHistory::new(current_conversation_path("/h"), TokenBudget(1_000));
    let turns = store.append(Vec::new(), HistoryTurn::new(Role::User, "hello there", 1));
    let turns = store.append(turns, HistoryTurn::new(Role::Assistant, "general kenobi", 2));
    let loaded = newest_first_within(&turns, TokenBudget(1_000));
    assert_eq!(loaded.len(), 2);
    assert_eq!(loaded[0].ts_ms, 2);
    assert!(newest_first_within(&[], TokenBudget(1_000)).is_empty());
}

#[test]
fn missing_file_loads_empty() {
    assert!(log_lines("").is_empty());
    assert!(newest_first_within(&parsed_turns(&[]), TokenBudget(1_000)).is_empty());
}
