use valedesk_core::records::{
    delete_others, truncate_history_after, update_session, SqlValue, UpdateSessionParams,
};
use valedesk_core::sessions::generate_session_title;

fn shown(values: &[SqlValue]) -> Vec<String> {
    values
        .iter()
        .map(|v| match v {
            SqlValue::Integer(n) => format!("i:{}", n),
            SqlValue::Text(t) => format!("t:{}", t),
        })
        .collect()
}

#[test]
fn an_update_without_fields_sets_the_time() {
    let s = update_session("s1", &UpdateSessionParams::default(), 99);
    assert_eq!(s.sql, "UPDATE sessions SET updated_at = ?1 WHERE id = ?2");
    assert_eq!(shown(&s.values), vec!["i:99", "t:s1"]);
}

#[test]
fn an_update_sets_the_fields_that_are_given() {
    let p = UpdateSessionParams {
        status: Some("running".to_string()),
        model: Some("m".to_string()),
        output_tokens: Some(12),
        ..Default::default()
    };
    let s = update_session("s1", &p, 5);
    assert_eq!(
        s.sql,
        "UPDATE sessions SET updated_at = ?1, status = ?2, model = ?3, output_tokens = ?4 WHERE id = ?5"
    );
    assert_eq!(shown(&s.values), vec!["i:5", "t:running", "t:m", "i:12", "t:s1"]);
}

#[test]
fn an_update_of_every_field() {
    let p = UpdateSessionParams {
        title: Some("t".to_string()),
        status: Some("s".to_string()),
        cwd: Some("c".to_string()),
        model: Some("m".to_string()),
        last_prompt: Some("p".to_string()),
        claude_session_id: Some("x".to_string()),
        input_tokens: Some(1),
        output_tokens: Some(2),
    };
    let s = update_session("id", &p, 0);
    assert_eq!(
        s.sql,
        "UPDATE sessions SET updated_at = ?1, title = ?2, status = ?3, cwd = ?4, model = ?5, last_prompt = ?6, claude_session_id = ?7, input_tokens = ?8, output_tokens = ?9 WHERE id = ?10"
    );
    assert_eq!(
        shown(&s.values),
        vec!["i:0", "t:t", "t:s", "t:c", "t:m", "t:p", "t:x", "i:1", "i:2", "t:id"]
    );
}

#[test]
fn titles_are_the_first_three_words() {
    for s in ["", "   ", "hello", "  hello   world ", "one two three four", "a\tb\nc d", "x \u{3000} y", "one  two", "é→ b"] {
        assert_eq!(generate_session_title(s), reference_title(s), "{:?}", s);
    }
    assert_eq!(generate_session_title("fix the login bug today"), "fix the login");
    assert_eq!(generate_session_title(" \n "), "New Chat");
}

fn reference_title(input: &str) -> String {
    let trimmed = input.trim();
    if trimmed.is_empty() {
        return "New Chat".to_string();
    }
    let words: Vec<&str> = trimmed.split_whitespace().take(3).collect();
    words.join(" ")
}

#[test]
fn history_is_cut_off_after_a_message() {
    let ids: Vec<String> = vec!["a".to_string(), "b".to_string(), "c".to_string()];
    let s = truncate_history_after("s1", &ids, 1);
    assert_eq!(s.sql, "DELETE FROM messages WHERE session_id = ?1 AND id NOT IN (?2,?3)");
    assert_eq!(shown(&s.values), vec!["t:s1", "t:a", "t:b"]);
    let s = truncate_history_after("s1", &ids, 0);
    assert_eq!(s.sql, "DELETE FROM messages WHERE session_id = ?1 AND id NOT IN (?2)");
    assert_eq!(shown(&s.values), vec!["t:s1", "t:a"]);
    let s = truncate_history_after("s1", &ids, 7);
    assert_eq!(s.sql, "DELETE FROM messages WHERE session_id = ?1 AND id NOT IN (?2,?3,?4)");
    assert_eq!(shown(&s.values), vec!["t:s1", "t:a", "t:b", "t:c"]);
    let s = truncate_history_after("s1", &ids, usize::MAX);
    assert_eq!(shown(&s.values), vec!["t:s1", "t:a", "t:b", "t:c"]);
    let s = truncate_history_after("s1", &vec![], 2);
    assert_eq!(s.sql, "DELETE FROM messages WHERE session_id = ?1");
    assert_eq!(shown(&s.values), vec!["t:s1"]);
}

#[test]
fn rows_that_are_not_listed_are_deleted() {
    let ids: Vec<String> = (1..=11).map(|i| format!("p{}", i)).collect();
    let s = delete_others("providers", &ids);
    assert_eq!(
        s.sql,
        "DELETE FROM providers WHERE id NOT IN (?1, ?2, ?3, ?4, ?5, ?6, ?7, ?8, ?9, ?10, ?11)"
    );
    assert_eq!(s.values.len(), 11);
    assert_eq!(shown(&s.values)[10], "t:p11");
    let s = delete_others("models", &vec![]);
    assert_eq!(s.sql, "DELETE FROM models");
    assert!(s.values.is_empty());
}
