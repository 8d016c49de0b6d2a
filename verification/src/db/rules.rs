//! The rules the repositories apply around their SQL: how roles are stored, which values are
//! accepted, and the statements whose text depends on the input.
use vstd::prelude::*;
use crate::error::AppError;
use crate::models::chat::ChatRole;
use crate::models::plugin::{CustomToolRecord, CustomToolType};
use crate::text::{decimal, decimal_text, same_text};

verus! {

/// How a message role is stored.
pub open spec fn role_text(r: ChatRole) -> Seq<char> {
    match r {
        ChatRole::User => "user"@,
        ChatRole::Assistant => "assistant"@,
        ChatRole::Spontaneous => "spontaneous"@,
        ChatRole::Tool => "tool"@,
    }
}

/// Roles are stored by their names, the values that the schema's `role` column accepts, and
/// each name reads back as its role; any other text reads as the user's.
pub proof fn lemma_stored_role_names(s: Seq<char>)
    ensures
        role_text(ChatRole::User) == "user"@,
        role_text(ChatRole::Assistant) == "assistant"@,
        role_text(ChatRole::Spontaneous) == "spontaneous"@,
        role_text(ChatRole::Tool) == "tool"@,
        role_of_text("assistant"@) == ChatRole::Assistant,
        role_of_text("spontaneous"@) == ChatRole::Spontaneous,
        role_of_text("tool"@) == ChatRole::Tool,
        s != "assistant"@ && s != "spontaneous"@ && s != "tool"@ ==> role_of_text(s) == ChatRole::User,
{
    reveal_strlit("assistant");
    reveal_strlit("spontaneous");
    reveal_strlit("tool");
    assert("assistant"@.len() == 9 && "spontaneous"@.len() == 11 && "tool"@.len() == 4);
}

/// The role a stored text stands for; an unknown text is read as the user's.
pub open spec fn role_of_text(s: Seq<char>) -> ChatRole {
    if s == "assistant"@ {
        ChatRole::Assistant
    } else if s == "spontaneous"@ {
        ChatRole::Spontaneous
    } else if s == "tool"@ {
        ChatRole::Tool
    } else {
        ChatRole::User
    }
}

/// How a message role is stored.
pub fn chat_role_text(r: ChatRole) -> (s: &'static str)
    ensures
        s@ == role_text(r),
{
    match r {
        ChatRole::User => "user",
        ChatRole::Assistant => "assistant",
        ChatRole::Spontaneous => "spontaneous",
        ChatRole::Tool => "tool",
    }
}

/// The role a stored text stands for.
pub fn chat_role_of_text(s: &str) -> (r: ChatRole)
    ensures
        r == role_of_text(s@),
{
    if same_text(s, "assistant") {
        ChatRole::Assistant
    } else if same_text(s, "spontaneous") {
        ChatRole::Spontaneous
    } else if same_text(s, "tool") {
        ChatRole::Tool
    } else {
        ChatRole::User
    }
}

/// A stored role reads back as the role that was stored.
pub proof fn lemma_role_round_trip(r: ChatRole)
    ensures
        role_of_text(role_text(r)) == r,
{
    reveal_strlit("user");
    reveal_strlit("assistant");
    reveal_strlit("spontaneous");
    reveal_strlit("tool");
    assert("user"@.len() == 4 && "tool"@.len() == 4 && "assistant"@.len() == 9
        && "spontaneous"@.len() == 11);
    assert("user"@[0] != "tool"@[0]);
}

/// The largest knowledge content accepted, in bytes (512 KiB).
pub const MAX_CONTENT_SIZE: usize = 524288;

/// Knowledge content is accepted up to 512 KiB of UTF-8; more is a validation error.
pub fn check_knowledge_size(content: &str) -> (r: Result<(), AppError>)
    ensures
        content.len() <= 524288 ==> r is Ok,
        content.len() > 524288 ==> (r matches Err(AppError::Validation(m)) && m@
            == "ファイルサイズが上限(512KB)を超えている"@),
{
    if content.len() > MAX_CONTENT_SIZE {
        Err(AppError::Validation(String::from_str("ファイルサイズが上限(512KB)を超えている")))
    } else {
        Ok(())
    }
}

/// A knowledge file is injected into the system prompt or offered through a tool; any other
/// mode is a validation error.
pub fn check_injection_mode(mode: &str) -> (r: Result<(), AppError>)
    ensures
        (mode@ == "system_prompt"@ || mode@ == "tool_reference"@) ==> r is Ok,
        !(mode@ == "system_prompt"@ || mode@ == "tool_reference"@) ==> (r matches Err(
            AppError::Validation(m),
        ) && m@ == "injection_modeは'system_prompt'または'tool_reference'のみ許可"@),
{
    if !same_text(mode, "system_prompt") && !same_text(mode, "tool_reference") {
        Err(
            AppError::Validation(
                String::from_str("injection_modeは'system_prompt'または'tool_reference'のみ許可"),
            ),
        )
    } else {
        Ok(())
    }
}

/// The error of an update or delete of a knowledge entry that matched no row.
pub fn knowledge_not_found() -> (e: AppError)
    ensures
        e matches AppError::NotFound(m) && m@ == "指定されたナレッジエントリが見つからない"@,
{
    AppError::NotFound(String::from_str("指定されたナレッジエントリが見つからない"))
}

/// The error of a message that does not exist: `Message not found: {id}`.
pub fn message_not_found(id: &str) -> (e: AppError)
    ensures
        e matches AppError::NotFound(m) && m@ == "Message not found: "@ + id@,
{
    let mut m = String::from_str("Message not found: ");
    m.append(id);
    AppError::NotFound(m)
}

/// The error of an update or delete of a user-defined tool that matched no row:
/// `Custom tool '{id}' not found`.
pub fn custom_tool_not_found(id: &str) -> (e: AppError)
    ensures
        e matches AppError::NotFound(m) && m@ == "Custom tool '"@ + id@ + "' not found"@,
{
    let mut m = String::from_str("Custom tool '");
    m.append(id);
    m.append("' not found");
    AppError::NotFound(m)
}

/// The query of a character's thoughts, newest first, with at most `limit` rows when a limit
/// is given.
pub fn thoughts_query(limit: Option<u32>) -> (q: String)
    ensures
        q@ == "SELECT id, character_id, content, context, created_at\n             FROM thoughts WHERE character_id = ?1\n             ORDER BY created_at DESC"@
            + match limit {
            Some(n) => " LIMIT "@ + decimal(n as nat),
            None => Seq::empty(),
        },
{
    let mut q = String::from_str(
        "SELECT id, character_id, content, context, created_at\n             FROM thoughts WHERE character_id = ?1\n             ORDER BY created_at DESC",
    );
    match limit {
        Some(n) => {
            q.append(" LIMIT ");
            let d = decimal_text(n as usize);
            q.append(d.as_str());
        },
        None => {
            assert(q@ + Seq::<char>::empty() =~= q@);
        },
    }
    q
}

/// The fields of a character that an update sets.
#[derive(Debug, Clone, Copy)]
pub struct CharacterFields {
    pub name: bool,
    pub description: bool,
    pub system_prompt: bool,
    pub avatar_path: bool,
    pub tts_config: bool,
}

/// The `SET` clauses of the fields that are set, in the order of the table's columns.
pub open spec fn set_clauses(f: CharacterFields) -> Seq<Seq<char>> {
    (if f.name {
        seq!["name = ?"@]
    } else {
        Seq::empty()
    }) + (if f.description {
        seq!["description = ?"@]
    } else {
        Seq::empty()
    }) + (if f.system_prompt {
        seq!["system_prompt = ?"@]
    } else {
        Seq::empty()
    }) + (if f.avatar_path {
        seq!["avatar_path = ?"@]
    } else {
        Seq::empty()
    }) + (if f.tts_config {
        seq!["tts_config = ?"@]
    } else {
        Seq::empty()
    })
}

/// The `SET` clause of each updatable column of `characters`, in the table's column order:
/// name, description, system prompt, avatar path, speech settings.
pub open spec fn column_clause(i: int) -> Seq<char> {
    seq!["name = ?"@, "description = ?"@, "system_prompt = ?"@, "avatar_path = ?"@, "tts_config = ?"@][i]
}

/// Whether an update sets the column at position `i` of that order.
pub open spec fn column_set(f: CharacterFields, i: int) -> bool {
    if i == 0 {
        f.name
    } else if i == 1 {
        f.description
    } else if i == 2 {
        f.system_prompt
    } else if i == 3 {
        f.avatar_path
    } else {
        f.tts_config
    }
}

/// How many of the columns before position `i` an update sets.
pub open spec fn columns_set_before(f: CharacterFields, i: int) -> int
    decreases i,
{
    if i <= 0 {
        0
    } else {
        columns_set_before(f, i - 1) + if column_set(f, i - 1) {
            1int
        } else {
            0int
        }
    }
}

/// The clauses of an update follow the column order, which is the order in which the caller
/// binds the new values: there is one clause per column that is set, and the clause of a set
/// column comes after the clauses of all set columns before it and before all those after it.
pub proof fn lemma_set_clauses_in_column_order(f: CharacterFields)
    ensures
        set_clauses(f).len() == columns_set_before(f, 5),
        forall|i: int|
            0 <= i < 5 && column_set(f, i) ==> set_clauses(f)[#[trigger] columns_set_before(f, i)]
                == column_clause(i),
{
    reveal_with_fuel(columns_set_before, 6);
    let cs = set_clauses(f);
    assert forall|i: int| 0 <= i < 5 && column_set(f, i) implies cs[#[trigger] columns_set_before(f, i)]
        == column_clause(i) by {
        if i == 0 {
        } else if i == 1 {
        } else if i == 2 {
        } else if i == 3 {
        } else {
        }
    }
}

/// Clauses joined by `, `.
pub open spec fn comma_joined(cs: Seq<Seq<char>>) -> Seq<char>
    decreases cs.len(),
{
    if cs.len() == 0 {
        Seq::empty()
    } else if cs.len() == 1 {
        cs[0]
    } else {
        comma_joined(cs.drop_last()) + ", "@ + cs.last()
    }
}

fn push_clause(sql: &mut String, count: &mut usize, clause: &str, on: bool)
    requires
        *old(count) < 5,
    ensures
        on ==> *final(count) == *old(count) + 1,
        !on ==> *final(count) == *old(count),
        on && *old(count) == 0 ==> final(sql)@ == old(sql)@ + clause@,
        on && *old(count) > 0 ==> final(sql)@ == old(sql)@ + ", "@ + clause@,
        !on ==> final(sql)@ == old(sql)@,
{
    if on {
        if *count > 0 {
            sql.append(", ");
        }
        sql.append(clause);
        *count = *count + 1;
    }
}

proof fn lemma_comma_push(cs: Seq<Seq<char>>, c: Seq<char>)
    ensures
        cs.len() == 0 ==> comma_joined(cs.push(c)) == c,
        cs.len() > 0 ==> comma_joined(cs.push(c)) == comma_joined(cs) + ", "@ + c,
{
    assert(cs.push(c).drop_last() =~= cs);
    if cs.len() == 0 {
        assert(cs.push(c)[0] == c);
    }
}

/// The statement of a partial character update: the `SET` clauses of the fields that are set
/// and `updated_at = ?`, then `WHERE id = ?`; `None` when no field is set (nothing is
/// updated).
pub fn character_update_sql(f: CharacterFields) -> (q: Option<String>)
    ensures
        set_clauses(f).len() == 0 ==> q is None,
        set_clauses(f).len() > 0 ==> (q matches Some(s) && s@ == "UPDATE characters SET "@
            + comma_joined(set_clauses(f).push("updated_at = ?"@)) + " WHERE id = ?"@),
{
    let mut body = String::new();
    let mut count: usize = 0;
    let ghost mut cs: Seq<Seq<char>> = Seq::empty();
    proof {
        reveal_strlit("name = ?");
        reveal_strlit("description = ?");
        reveal_strlit("system_prompt = ?");
        reveal_strlit("avatar_path = ?");
        reveal_strlit("tts_config = ?");
        reveal_strlit("updated_at = ?");
        reveal_strlit(", ");
    }
    push_clause(&mut body, &mut count, "name = ?", f.name);
    proof {
        if f.name {
            lemma_comma_push(cs, "name = ?"@);
            cs = cs.push("name = ?"@);
        }
        assert(body@ == comma_joined(cs) && count == cs.len());
    }
    push_clause(&mut body, &mut count, "description = ?", f.description);
    proof {
        if f.description {
            lemma_comma_push(cs, "description = ?"@);
            cs = cs.push("description = ?"@);
        }
        assert(body@ == comma_joined(cs) && count == cs.len());
    }
    push_clause(&mut body, &mut count, "system_prompt = ?", f.system_prompt);
    proof {
        if f.system_prompt {
            lemma_comma_push(cs, "system_prompt = ?"@);
            cs = cs.push("system_prompt = ?"@);
        }
        assert(body@ == comma_joined(cs) && count == cs.len());
    }
    push_clause(&mut body, &mut count, "avatar_path = ?", f.avatar_path);
    proof {
        if f.avatar_path {
            lemma_comma_push(cs, "avatar_path = ?"@);
            cs = cs.push("avatar_path = ?"@);
        }
        assert(body@ == comma_joined(cs) && count == cs.len());
    }
    push_clause(&mut body, &mut count, "tts_config = ?", f.tts_config);
    proof {
        if f.tts_config {
            lemma_comma_push(cs, "tts_config = ?"@);
            cs = cs.push("tts_config = ?"@);
        }
        assert(body@ == comma_joined(cs) && count == cs.len());
        assert(cs =~= set_clauses(f));
    }
    if count == 0 {
        return None;
    }
    body.append(", updated_at = ?");
    proof {
        lemma_comma_push(cs, "updated_at = ?"@);
        reveal_strlit(", updated_at = ?");
        assert(", updated_at = ?"@ =~= ", "@ + "updated_at = ?"@);
        assert(body@ =~= comma_joined(cs) + ", "@ + "updated_at = ?"@);
    }
    let mut q = String::from_str("UPDATE characters SET ");
    q.append(body.as_str());
    q.append(" WHERE id = ?");
    Some(q)
}

/// A fresh random identifier (`uuid::Uuid::new_v4`, as text).
///
/// Trusted, with nothing stated: the identifier is random.
#[verifier::external_body]
fn new_id() -> String {
    uuid::Uuid::new_v4().to_string()
}

/// The current time in RFC 3339 (`chrono::Utc::now().to_rfc3339()`).
///
/// Trusted, with nothing stated: the result is the clock's reading.
#[verifier::external_body]
fn now_rfc3339() -> String {
    chrono::Utc::now().to_rfc3339()
}

/// A new user-defined tool record: a fresh id, enabled, created now, with the given name,
/// kind, description, parameter schema and settings.
pub fn new_custom_tool_record(
    name: String,
    tool_type: CustomToolType,
    description: String,
    parameters_schema: serde_json::Value,
    config_json: serde_json::Value,
) -> (r: CustomToolRecord)
    ensures
        r.name == name,
        r.tool_type == tool_type,
        r.description == description,
        r.parameters_schema == parameters_schema,
        r.config_json == config_json,
        r.enabled,
{
    CustomToolRecord {
        id: new_id(),
        name,
        tool_type,
        description,
        parameters_schema,
        config_json,
        enabled: true,
        created_at: now_rfc3339(),
    }
}

} // verus!
