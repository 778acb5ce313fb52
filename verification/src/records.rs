//! Records of the session store, and the statement that updates a session.

use crate::errors::strings_view;
use crate::events::text_option_view;
use crate::text::{decimal, decimal_string, decimal_string_wide};
use vstd::prelude::*;

verus! {

/// What of a session is to change: each field that is given.
#[derive(Clone, Debug, Default)]
pub struct UpdateSessionParams {
    pub title: Option<String>,
    pub status: Option<String>,
    pub cwd: Option<String>,
    pub model: Option<String>,
    pub last_prompt: Option<String>,
    pub claude_session_id: Option<String>,
    pub input_tokens: Option<i64>,
    pub output_tokens: Option<i64>,
}

/// One item of a session's list of things to do.
#[derive(Clone, Debug)]
pub struct TodoItem {
    pub id: String,
    pub content: String,
    pub status: String,
    pub created_at: Option<i64>,
    pub updated_at: Option<i64>,
}

/// What a session changed in one file.
#[derive(Clone, Debug)]
pub struct FileChange {
    pub path: String,
    pub additions: i32,
    pub deletions: i32,
    pub status: Option<String>,
}

/// The settings of the interface to the language model.
#[derive(Clone, Debug)]
pub struct ApiSettings {
    pub base_url: Option<String>,
    pub api_key: Option<String>,
    pub permission_mode: Option<String>,
    pub web_search_provider: Option<String>,
    pub tavily_api_key: Option<String>,
    pub enable_memory: Option<bool>,
    pub enable_todos: Option<bool>,
}

/// A value bound to a placeholder of a statement.
#[derive(Clone, Debug)]
pub enum SqlValue {
    Integer(i64),
    Text(String),
}

/// What a `SqlValue` stands for.
pub enum SqlValueView {
    Integer(i64),
    Text(Seq<char>),
}

impl View for SqlValue {
    type V = SqlValueView;

    open spec fn view(&self) -> SqlValueView {
        match self {
            SqlValue::Integer(n) => SqlValueView::Integer(*n),
            SqlValue::Text(s) => SqlValueView::Text(s@),
        }
    }
}

/// What a list of values stands for.
pub open spec fn values_view(v: Seq<SqlValue>) -> Seq<SqlValueView> {
    v.map_values(|x: SqlValue| x@)
}

/// A statement with the values for its placeholders `?1`, `?2` and so on.
#[derive(Clone, Debug)]
pub struct Statement {
    pub sql: String,
    pub values: Vec<SqlValue>,
}

/// What a `Statement` stands for.
pub struct StatementView {
    pub sql: Seq<char>,
    pub values: Seq<SqlValueView>,
}

impl View for Statement {
    type V = StatementView;

    open spec fn view(&self) -> StatementView {
        StatementView { sql: self.sql@, values: values_view(self.values@) }
    }
}

/// A column with the value that it is set to.
pub struct Assignment {
    pub column: Seq<char>,
    pub value: SqlValueView,
}

/// The assignment of a text, where one is given.
pub open spec fn text_set(column: Seq<char>, value: Option<Seq<char>>) -> Seq<Assignment> {
    match value {
        Some(text) => seq![Assignment { column, value: SqlValueView::Text(text) }],
        None => seq![],
    }
}

/// The assignment of a number, where one is given.
pub open spec fn number_set(column: Seq<char>, value: Option<i64>) -> Seq<Assignment> {
    match value {
        Some(n) => seq![Assignment { column, value: SqlValueView::Integer(n) }],
        None => seq![],
    }
}

/// The assignments that an update makes, in the order of the columns.
pub open spec fn assignments_of(p: UpdateSessionParams) -> Seq<Assignment> {
    text_set("title"@, text_option_view(p.title)) + text_set(
        "status"@,
        text_option_view(p.status),
    ) + text_set("cwd"@, text_option_view(p.cwd)) + text_set("model"@, text_option_view(p.model))
        + text_set("last_prompt"@, text_option_view(p.last_prompt)) + text_set(
        "claude_session_id"@,
        text_option_view(p.claude_session_id),
    ) + number_set("input_tokens"@, p.input_tokens) + number_set(
        "output_tokens"@,
        p.output_tokens,
    )
}

/// The assignments as they stand in the statement: after the time of the
/// update, which is `?1`, each column with the next placeholder.
pub open spec fn set_clause(sets: Seq<Assignment>) -> Seq<char>
    decreases sets.len(),
{
    if sets.len() == 0 {
        "updated_at = ?1"@
    } else {
        set_clause(sets.drop_last()) + ", "@ + sets.last().column + " = ?"@ + decimal(
            sets.len() + 1,
        )
    }
}

/// The values of the assignments, in order.
pub open spec fn set_values(sets: Seq<Assignment>) -> Seq<SqlValueView> {
    sets.map_values(|a: Assignment| a.value)
}

/// The statement that updates the session `id` at the time `now`.
pub open spec fn update_of(id: Seq<char>, p: UpdateSessionParams, now: i64) -> StatementView {
    let sets = assignments_of(p);
    StatementView {
        sql: "UPDATE sessions SET "@ + set_clause(sets) + " WHERE id = ?"@ + decimal(
            sets.len() + 2,
        ),
        values: seq![SqlValueView::Integer(now)] + set_values(sets) + seq![
            SqlValueView::Text(id),
        ],
    }
}

/// A statement under construction.
struct Builder {
    clause: String,
    values: Vec<SqlValue>,
    sets: Ghost<Seq<Assignment>>,
}

impl Builder {
    spec fn wf(self, now: i64) -> bool {
        &&& self.clause@ == set_clause(self.sets@)
        &&& values_view(self.values@) == seq![SqlValueView::Integer(now)] + set_values(self.sets@)
        &&& self.sets@.len() <= 8
    }

    fn set(&mut self, column: &str, value: SqlValue, Ghost(now): Ghost<i64>)
        requires
            old(self).wf(now),
            old(self).sets@.len() < 8,
        ensures
            final(self).wf(now),
            final(self).sets@ == old(self).sets@.push(Assignment { column: column@, value: value@ }),
    {
        let ghost before = self.sets@;
        let ghost added = Assignment { column: column@, value: value@ };
        let ghost listed = self.values@;
        assert(values_view(listed).len() == listed.len());
        let index: usize = self.values.len() + 1;
        let number = decimal_string(index as u64);
        self.clause.append(", ");
        self.clause.append(column);
        self.clause.append(" = ?");
        self.clause.append(number.as_str());
        self.values.push(value);
        self.sets = Ghost(before.push(added));
        proof {
            let after = before.push(added);
            assert(after.drop_last() =~= before);
            assert(after.last() == added);
            assert(index == after.len() + 1);
            assert(values_view(self.values@) =~= values_view(listed).push(value@));
            assert(set_values(after) =~= set_values(before).push(value@));
            assert(seq![SqlValueView::Integer(now)] + set_values(after) =~= (seq![
                SqlValueView::Integer(now),
            ] + set_values(before)).push(value@));
        }
    }

    fn set_text(&mut self, column: &str, value: &Option<String>, Ghost(now): Ghost<i64>)
        requires
            old(self).wf(now),
            old(self).sets@.len() < 8,
        ensures
            final(self).wf(now),
            final(self).sets@ == old(self).sets@ + text_set(column@, text_option_view(*value)),
    {
        match value {
            Some(text) => {
                self.set(column, SqlValue::Text(text.clone()), Ghost(now));
                assert(self.sets@ =~= old(self).sets@ + text_set(
                    column@,
                    text_option_view(*value),
                ));
            },
            None => {
                assert(self.sets@ =~= old(self).sets@ + text_set(
                    column@,
                    text_option_view(*value),
                ));
            },
        }
    }

    fn set_number(&mut self, column: &str, value: Option<i64>, Ghost(now): Ghost<i64>)
        requires
            old(self).wf(now),
            old(self).sets@.len() < 8,
        ensures
            final(self).wf(now),
            final(self).sets@ == old(self).sets@ + number_set(column@, value),
    {
        match value {
            Some(n) => {
                self.set(column, SqlValue::Integer(n), Ghost(now));
                assert(self.sets@ =~= old(self).sets@ + number_set(column@, value));
            },
            None => {
                assert(self.sets@ =~= old(self).sets@ + number_set(column@, value));
            },
        }
    }
}

/// Makes the statement that updates the session `id` at the time `now`: it
/// sets the time of the update and each field that is given, and no other.
pub fn update_session(id: &str, params: &UpdateSessionParams, now: i64) -> (statement: Statement)
    ensures
        statement@ == update_of(id@, *params, now),
{
    let mut values: Vec<SqlValue> = Vec::new();
    values.push(SqlValue::Integer(now));
    let mut b = Builder { clause: "updated_at = ?1".to_owned(), values, sets: Ghost(Seq::empty()) };
    proof {
        assert(values_view(b.values@) =~= seq![SqlValueView::Integer(now)] + set_values(b.sets@));
    }
    b.set_text("title", &params.title, Ghost(now));
    b.set_text("status", &params.status, Ghost(now));
    b.set_text("cwd", &params.cwd, Ghost(now));
    b.set_text("model", &params.model, Ghost(now));
    b.set_text("last_prompt", &params.last_prompt, Ghost(now));
    b.set_text("claude_session_id", &params.claude_session_id, Ghost(now));
    b.set_number("input_tokens", params.input_tokens, Ghost(now));
    b.set_number("output_tokens", params.output_tokens, Ghost(now));
    let Builder { clause, mut values, sets } = b;
    assert(sets@ =~= assignments_of(*params));
    let ghost listed = values@;
    assert(values_view(listed).len() == listed.len());
    let last: usize = values.len() + 1;
    let number = decimal_string(last as u64);
    let mut sql = "UPDATE sessions SET ".to_owned();
    sql.append(clause.as_str());
    sql.append(" WHERE id = ?");
    sql.append(number.as_str());
    let key = SqlValue::Text(id.to_owned());
    values.push(key);
    proof {
        assert(values_view(values@) =~= values_view(listed).push(key@));
        assert(values_view(listed).push(key@) =~= seq![SqlValueView::Integer(now)] + set_values(
            sets@,
        ) + seq![SqlValueView::Text(id@)]);
    }
    Statement { sql, values }
}

/// The placeholders `?first`, `?first+1` and so on, `count` of them, with
/// `sep` between each two.
pub open spec fn placeholders(first: nat, count: nat, sep: Seq<char>) -> Seq<char>
    decreases count,
{
    if count == 0 {
        seq![]
    } else if count == 1 {
        "?"@ + decimal(first)
    } else {
        placeholders(first, (count - 1) as nat, sep) + sep + "?"@ + decimal(
            (first + count - 1) as nat,
        )
    }
}

/// The texts as values.
pub open spec fn text_values(items: Seq<Seq<char>>) -> Seq<SqlValueView> {
    items.map_values(|t: Seq<char>| SqlValueView::Text(t))
}

/// Writes `count` placeholders from `?first` on, and binds the texts
/// `items[from..from + count]` to them.
fn bind_texts(
    sql: &mut String,
    values: &mut Vec<SqlValue>,
    items: &Vec<String>,
    count: usize,
    first: usize,
    sep: &str,
)
    requires
        count <= items.len(),
    ensures
        final(sql)@ == old(sql)@ + placeholders(first as nat, count as nat, sep@),
        values_view(final(values)@) == values_view(old(values)@) + text_values(
            strings_view(items@).take(count as int),
        ),
{
    let ghost base = sql@;
    let ghost bound = values_view(values@);
    let ghost texts = strings_view(items@);
    let mut i: usize = 0;
    proof {
        assert(base + placeholders(first as nat, 0, sep@) =~= base);
        assert(bound + text_values(texts.take(0)) =~= bound);
    }
    while i < count
        invariant
            i <= count <= items.len(),
            texts == strings_view(items@),
            sql@ == base + placeholders(first as nat, i as nat, sep@),
            values_view(values@) == bound + text_values(texts.take(i as int)),
        decreases count - i,
    {
        let number = decimal_string_wide(first as u128 + i as u128);
        let ghost before = sql@;
        if i > 0 {
            sql.append(sep);
        }
        sql.append("?");
        sql.append(number.as_str());
        let value = SqlValue::Text(items[i].clone());
        let ghost listed = values@;
        values.push(value);
        proof {
            if i == 0 {
                assert(placeholders(first as nat, 0, sep@) =~= Seq::<char>::empty());
                assert(sql@ =~= base + placeholders(first as nat, 1, sep@));
            } else {
                assert(sql@ =~= base + placeholders(first as nat, (i + 1) as nat, sep@));
            }
            assert(values_view(values@) =~= values_view(listed).push(value@));
            assert(texts.take(i + 1) =~= texts.take(i as int).push(items@[i as int]@));
            assert(text_values(texts.take(i + 1)) =~= text_values(texts.take(i as int)).push(
                value@,
            ));
        }
        i += 1;
    }
}

/// The statement that keeps the first `message_index + 1` of a session's
/// messages, of which `ids` are the ids in order, and deletes the others.
pub open spec fn truncate_of(session_id: Seq<char>, ids: Seq<Seq<char>>, message_index: usize) -> StatementView {
    let kept = if message_index + 1 < ids.len() {
        ids.take(message_index + 1)
    } else {
        ids
    };
    if kept.len() == 0 {
        StatementView {
            sql: "DELETE FROM messages WHERE session_id = ?1"@,
            values: seq![SqlValueView::Text(session_id)],
        }
    } else {
        StatementView {
            sql: "DELETE FROM messages WHERE session_id = ?1 AND id NOT IN ("@ + placeholders(
                2,
                kept.len(),
                ","@,
            ) + ")"@,
            values: seq![SqlValueView::Text(session_id)] + text_values(kept),
        }
    }
}

/// Makes the statement that cuts a session's messages off after the one at
/// `message_index`.
pub fn truncate_history_after(session_id: &str, ids: &Vec<String>, message_index: usize) -> (statement:
    Statement)
    ensures
        statement@ == truncate_of(session_id@, strings_view(ids@), message_index),
{
    let count: usize = if message_index < ids.len() && message_index + 1 < ids.len() {
        message_index + 1
    } else {
        ids.len()
    };
    let mut values: Vec<SqlValue> = Vec::new();
    let key = SqlValue::Text(session_id.to_owned());
    values.push(key);
    assert(values_view(values@) =~= seq![key@]);
    assert(strings_view(ids@).len() == ids@.len());
    if count == 0 {
        return Statement { sql: "DELETE FROM messages WHERE session_id = ?1".to_owned(), values };
    }
    let mut sql = "DELETE FROM messages WHERE session_id = ?1 AND id NOT IN (".to_owned();
    bind_texts(&mut sql, &mut values, ids, count, 2, ",");
    sql.append(")");
    proof {
        assert(strings_view(ids@).take(count as int) =~= if message_index + 1 < ids.len() {
            strings_view(ids@).take(message_index + 1)
        } else {
            strings_view(ids@)
        });
    }
    Statement { sql, values }
}

/// The statement that deletes from a table every row whose id is not among
/// `ids`.
pub open spec fn delete_others_of(table: Seq<char>, ids: Seq<Seq<char>>) -> StatementView {
    if ids.len() == 0 {
        StatementView { sql: "DELETE FROM "@ + table, values: seq![] }
    } else {
        StatementView {
            sql: "DELETE FROM "@ + table + " WHERE id NOT IN ("@ + placeholders(
                1,
                ids.len(),
                ", "@,
            ) + ")"@,
            values: text_values(ids),
        }
    }
}

/// Makes the statement that deletes from a table every row whose id is not
/// among `ids`.
pub fn delete_others(table: &str, ids: &Vec<String>) -> (statement: Statement)
    ensures
        statement@ == delete_others_of(table@, strings_view(ids@)),
{
    let mut values: Vec<SqlValue> = Vec::new();
    assert(values_view(values@) =~= Seq::<SqlValueView>::empty());
    assert(strings_view(ids@).len() == ids@.len());
    let mut sql = "DELETE FROM ".to_owned();
    sql.append(table);
    if ids.len() == 0 {
        return Statement { sql, values };
    }
    sql.append(" WHERE id NOT IN (");
    bind_texts(&mut sql, &mut values, ids, ids.len(), 1, ", ");
    sql.append(")");
    proof {
        assert(strings_view(ids@).take(ids@.len() as int) =~= strings_view(ids@));
        assert(Seq::<SqlValueView>::empty() + text_values(strings_view(ids@)) =~= text_values(
            strings_view(ids@),
        ));
    }
    Statement { sql, values }
}

} // verus!
