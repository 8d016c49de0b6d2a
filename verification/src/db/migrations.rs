//! The database schema: table and index definitions, each statement idempotent.
use vstd::prelude::*;

verus! {

/// SQL that creates every table of the schema (`IF NOT EXISTS`, so it can run on every start).
pub const CREATE_TABLES_SQL: &'static str = r#"
CREATE TABLE IF NOT EXISTS characters (
  id TEXT PRIMARY KEY,
  name TEXT NOT NULL,
  description TEXT NOT NULL,
  system_prompt TEXT NOT NULL,
  avatar_path TEXT,
  tts_config TEXT,
  created_at TEXT NOT NULL,
  updated_at TEXT NOT NULL
);

CREATE TABLE IF NOT EXISTS chat_sessions (
  id TEXT PRIMARY KEY,
  character_id TEXT NOT NULL REFERENCES characters(id) ON DELETE CASCADE,
  title TEXT,
  last_message_at TEXT,
  last_message_preview TEXT,
  created_at TEXT NOT NULL
);

CREATE TABLE IF NOT EXISTS chat_messages (
  id TEXT PRIMARY KEY,
  session_id TEXT NOT NULL REFERENCES chat_sessions(id) ON DELETE CASCADE,
  role TEXT NOT NULL CHECK(role IN ('user', 'assistant', 'spontaneous', 'tool')),
  content TEXT NOT NULL,
  attachments TEXT,
  tool_calls TEXT,
  tool_call_id TEXT,
  thinking_content TEXT,
  created_at TEXT NOT NULL
);

CREATE TABLE IF NOT EXISTS memories (
  id TEXT PRIMARY KEY,
  character_id TEXT NOT NULL REFERENCES characters(id) ON DELETE CASCADE,
  content TEXT NOT NULL,
  source_session_id TEXT REFERENCES chat_sessions(id),
  source_message_from TEXT,
  source_message_to TEXT,
  created_at TEXT NOT NULL,
  updated_at TEXT NOT NULL
);

CREATE TABLE IF NOT EXISTS thoughts (
  id TEXT PRIMARY KEY,
  character_id TEXT NOT NULL REFERENCES characters(id) ON DELETE CASCADE,
  content TEXT NOT NULL,
  context TEXT,
  created_at TEXT NOT NULL
);

CREATE TABLE IF NOT EXISTS plugins (
  name TEXT PRIMARY KEY,
  description TEXT NOT NULL,
  version TEXT NOT NULL,
  enabled INTEGER NOT NULL DEFAULT 1,
  config TEXT,
  created_at TEXT NOT NULL,
  updated_at TEXT NOT NULL
);

CREATE TABLE IF NOT EXISTS attachments (
  id TEXT PRIMARY KEY,
  message_id TEXT NOT NULL REFERENCES chat_messages(id) ON DELETE CASCADE,
  file_name TEXT NOT NULL,
  attachment_type TEXT NOT NULL CHECK(attachment_type IN ('text', 'pdf', 'image')),
  file_path TEXT NOT NULL,
  size_bytes INTEGER NOT NULL,
  extracted_text TEXT,
  created_at TEXT NOT NULL
);

CREATE TABLE IF NOT EXISTS chat_tool_permissions (
  id TEXT PRIMARY KEY,
  session_id TEXT NOT NULL REFERENCES chat_sessions(id) ON DELETE CASCADE,
  tool_name TEXT NOT NULL,
  is_enabled INTEGER NOT NULL DEFAULT 1,
  created_at TEXT NOT NULL,
  UNIQUE(session_id, tool_name)
);

CREATE TABLE IF NOT EXISTS custom_tools (
  id TEXT PRIMARY KEY,
  name TEXT NOT NULL UNIQUE,
  tool_type TEXT NOT NULL CHECK(tool_type IN ('http', 'cli')),
  description TEXT NOT NULL,
  parameters_schema TEXT NOT NULL,
  config_json TEXT NOT NULL,
  enabled INTEGER NOT NULL DEFAULT 1,
  created_at TEXT NOT NULL
);

CREATE TABLE IF NOT EXISTS chat_plugin_configs (
  id TEXT PRIMARY KEY,
  session_id TEXT NOT NULL,
  plugin_name TEXT NOT NULL,
  config_json TEXT NOT NULL,
  updated_at TEXT NOT NULL,
  FOREIGN KEY(session_id) REFERENCES chat_sessions(id) ON DELETE CASCADE,
  UNIQUE(session_id, plugin_name)
);

CREATE TABLE IF NOT EXISTS session_knowledge (
  id TEXT PRIMARY KEY,
  session_id TEXT NOT NULL,
  file_name TEXT NOT NULL,
  content TEXT NOT NULL,
  size_bytes INTEGER NOT NULL,
  enabled INTEGER NOT NULL DEFAULT 1,
  injection_mode TEXT NOT NULL DEFAULT 'system_prompt'
    CHECK(injection_mode IN ('system_prompt', 'tool_reference')),
  created_at TEXT NOT NULL,
  FOREIGN KEY(session_id) REFERENCES chat_sessions(id) ON DELETE CASCADE,
  UNIQUE(session_id, file_name)
);
"#;

/// SQL that creates every index of the schema (`IF NOT EXISTS`).
pub const CREATE_INDEXES_SQL: &'static str = r#"
CREATE INDEX IF NOT EXISTS idx_chat_sessions_character ON chat_sessions(character_id);
CREATE INDEX IF NOT EXISTS idx_chat_messages_session ON chat_messages(session_id);
CREATE INDEX IF NOT EXISTS idx_memories_character ON memories(character_id);
CREATE INDEX IF NOT EXISTS idx_thoughts_character ON thoughts(character_id);
CREATE INDEX IF NOT EXISTS idx_attachments_message ON attachments(message_id);
CREATE INDEX IF NOT EXISTS idx_chat_tool_permissions_session ON chat_tool_permissions(session_id);
CREATE INDEX IF NOT EXISTS idx_custom_tools_name ON custom_tools(name);
CREATE INDEX IF NOT EXISTS idx_chat_plugin_configs_session ON chat_plugin_configs(session_id);
CREATE INDEX IF NOT EXISTS idx_session_knowledge_session ON session_knowledge(session_id);
"#;

/// A table of the schema: its name, and its column and constraint definitions in order.
pub type TableDef = (Seq<char>, Seq<Seq<char>>);

/// Definitions, each on a line of its own, indented and separated by commas.
pub open spec fn definition_lines(items: Seq<Seq<char>>) -> Seq<char>
    decreases items.len(),
{
    if items.len() == 0 {
        Seq::empty()
    } else if items.len() == 1 {
        "  "@ + items[0]
    } else {
        definition_lines(items.drop_last()) + ",\n  "@ + items.last()
    }
}

/// The statement that creates a table unless it exists.
pub open spec fn table_statement(t: TableDef) -> Seq<char> {
    "CREATE TABLE IF NOT EXISTS "@ + t.0 + " (\n"@ + definition_lines(t.1) + "\n);\n"@
}

/// Table statements, each after an empty line.
pub open spec fn table_statements(ts: Seq<TableDef>) -> Seq<char>
    decreases ts.len(),
{
    if ts.len() == 0 {
        Seq::empty()
    } else {
        table_statements(ts.drop_last()) + "\n"@ + table_statement(ts.last())
    }
}

/// The tables of the schema.
pub open spec fn schema_tables() -> Seq<TableDef> {
    seq![
        (
            "characters"@,
            seq![
                "id TEXT PRIMARY KEY"@,
                "name TEXT NOT NULL"@,
                "description TEXT NOT NULL"@,
                "system_prompt TEXT NOT NULL"@,
                "avatar_path TEXT"@,
                "tts_config TEXT"@,
                "created_at TEXT NOT NULL"@,
                "updated_at TEXT NOT NULL"@,
            ],
        ),
        (
            "chat_sessions"@,
            seq![
                "id TEXT PRIMARY KEY"@,
                "character_id TEXT NOT NULL REFERENCES characters(id) ON DELETE CASCADE"@,
                "title TEXT"@,
                "last_message_at TEXT"@,
                "last_message_preview TEXT"@,
                "created_at TEXT NOT NULL"@,
            ],
        ),
        (
            "chat_messages"@,
            seq![
                "id TEXT PRIMARY KEY"@,
                "session_id TEXT NOT NULL REFERENCES chat_sessions(id) ON DELETE CASCADE"@,
                "role TEXT NOT NULL CHECK(role IN ('user', 'assistant', 'spontaneous', 'tool'))"@,
                "content TEXT NOT NULL"@,
                "attachments TEXT"@,
                "tool_calls TEXT"@,
                "tool_call_id TEXT"@,
                "thinking_content TEXT"@,
                "created_at TEXT NOT NULL"@,
            ],
        ),
        (
            "memories"@,
            seq![
                "id TEXT PRIMARY KEY"@,
                "character_id TEXT NOT NULL REFERENCES characters(id) ON DELETE CASCADE"@,
                "content TEXT NOT NULL"@,
                "source_session_id TEXT REFERENCES chat_sessions(id)"@,
                "source_message_from TEXT"@,
                "source_message_to TEXT"@,
                "created_at TEXT NOT NULL"@,
                "updated_at TEXT NOT NULL"@,
            ],
        ),
        (
            "thoughts"@,
            seq![
                "id TEXT PRIMARY KEY"@,
                "character_id TEXT NOT NULL REFERENCES characters(id) ON DELETE CASCADE"@,
                "content TEXT NOT NULL"@,
                "context TEXT"@,
                "created_at TEXT NOT NULL"@,
            ],
        ),
        (
            "plugins"@,
            seq![
                "name TEXT PRIMARY KEY"@,
                "description TEXT NOT NULL"@,
                "version TEXT NOT NULL"@,
                "enabled INTEGER NOT NULL DEFAULT 1"@,
                "config TEXT"@,
                "created_at TEXT NOT NULL"@,
                "updated_at TEXT NOT NULL"@,
            ],
        ),
        (
            "attachments"@,
            seq![
                "id TEXT PRIMARY KEY"@,
                "message_id TEXT NOT NULL REFERENCES chat_messages(id) ON DELETE CASCADE"@,
                "file_name TEXT NOT NULL"@,
                "attachment_type TEXT NOT NULL CHECK(attachment_type IN ('text', 'pdf', 'image'))"@,
                "file_path TEXT NOT NULL"@,
                "size_bytes INTEGER NOT NULL"@,
                "extracted_text TEXT"@,
                "created_at TEXT NOT NULL"@,
            ],
        ),
        (
            "chat_tool_permissions"@,
            seq![
                "id TEXT PRIMARY KEY"@,
                "session_id TEXT NOT NULL REFERENCES chat_sessions(id) ON DELETE CASCADE"@,
                "tool_name TEXT NOT NULL"@,
                "is_enabled INTEGER NOT NULL DEFAULT 1"@,
                "created_at TEXT NOT NULL"@,
                "UNIQUE(session_id, tool_name)"@,
            ],
        ),
        (
            "custom_tools"@,
            seq![
                "id TEXT PRIMARY KEY"@,
                "name TEXT NOT NULL UNIQUE"@,
                "tool_type TEXT NOT NULL CHECK(tool_type IN ('http', 'cli'))"@,
                "description TEXT NOT NULL"@,
                "parameters_schema TEXT NOT NULL"@,
                "config_json TEXT NOT NULL"@,
                "enabled INTEGER NOT NULL DEFAULT 1"@,
                "created_at TEXT NOT NULL"@,
            ],
        ),
        (
            "chat_plugin_configs"@,
            seq![
                "id TEXT PRIMARY KEY"@,
                "session_id TEXT NOT NULL"@,
                "plugin_name TEXT NOT NULL"@,
                "config_json TEXT NOT NULL"@,
                "updated_at TEXT NOT NULL"@,
                "FOREIGN KEY(session_id) REFERENCES chat_sessions(id) ON DELETE CASCADE"@,
                "UNIQUE(session_id, plugin_name)"@,
            ],
        ),
        (
            "session_knowledge"@,
            seq![
                "id TEXT PRIMARY KEY"@,
                "session_id TEXT NOT NULL"@,
                "file_name TEXT NOT NULL"@,
                "content TEXT NOT NULL"@,
                "size_bytes INTEGER NOT NULL"@,
                "enabled INTEGER NOT NULL DEFAULT 1"@,
                "injection_mode TEXT NOT NULL DEFAULT 'system_prompt'\n    CHECK(injection_mode IN ('system_prompt', 'tool_reference'))"@,
                "created_at TEXT NOT NULL"@,
                "FOREIGN KEY(session_id) REFERENCES chat_sessions(id) ON DELETE CASCADE"@,
                "UNIQUE(session_id, file_name)"@,
            ],
        ),
    ]
}

/// The table statements are the schema's tables, each created unless it exists.
#[verifier::rlimit(100)]
proof fn lemma_tables_text()
    ensures
        CREATE_TABLES_SQL@ == table_statements(schema_tables()),
{
    reveal_strlit(r#"
CREATE TABLE IF NOT EXISTS characters (
  id TEXT PRIMARY KEY,
  name TEXT NOT NULL,
  description TEXT NOT NULL,
  system_prompt TEXT NOT NULL,
  avatar_path TEXT,
  tts_config TEXT,
  created_at TEXT NOT NULL,
  updated_at TEXT NOT NULL
);

CREATE TABLE IF NOT EXISTS chat_sessions (
  id TEXT PRIMARY KEY,
  character_id TEXT NOT NULL REFERENCES characters(id) ON DELETE CASCADE,
  title TEXT,
  last_message_at TEXT,
  last_message_preview TEXT,
  created_at TEXT NOT NULL
);

CREATE TABLE IF NOT EXISTS chat_messages (
  id TEXT PRIMARY KEY,
  session_id TEXT NOT NULL REFERENCES chat_sessions(id) ON DELETE CASCADE,
  role TEXT NOT NULL CHECK(role IN ('user', 'assistant', 'spontaneous', 'tool')),
  content TEXT NOT NULL,
  attachments TEXT,
  tool_calls TEXT,
  tool_call_id TEXT,
  thinking_content TEXT,
  created_at TEXT NOT NULL
);

CREATE TABLE IF NOT EXISTS memories (
  id TEXT PRIMARY KEY,
  character_id TEXT NOT NULL REFERENCES characters(id) ON DELETE CASCADE,
  content TEXT NOT NULL,
  source_session_id TEXT REFERENCES chat_sessions(id),
  source_message_from TEXT,
  source_message_to TEXT,
  created_at TEXT NOT NULL,
  updated_at TEXT NOT NULL
);

CREATE TABLE IF NOT EXISTS thoughts (
  id TEXT PRIMARY KEY,
  character_id TEXT NOT NULL REFERENCES characters(id) ON DELETE CASCADE,
  content TEXT NOT NULL,
  context TEXT,
  created_at TEXT NOT NULL
);

CREATE TABLE IF NOT EXISTS plugins (
  name TEXT PRIMARY KEY,
  description TEXT NOT NULL,
  version TEXT NOT NULL,
  enabled INTEGER NOT NULL DEFAULT 1,
  config TEXT,
  created_at TEXT NOT NULL,
  updated_at TEXT NOT NULL
);

CREATE TABLE IF NOT EXISTS attachments (
  id TEXT PRIMARY KEY,
  message_id TEXT NOT NULL REFERENCES chat_messages(id) ON DELETE CASCADE,
  file_name TEXT NOT NULL,
  attachment_type TEXT NOT NULL CHECK(attachment_type IN ('text', 'pdf', 'image')),
  file_path TEXT NOT NULL,
  size_bytes INTEGER NOT NULL,
  extracted_text TEXT,
  created_at TEXT NOT NULL
);

CREATE TABLE IF NOT EXISTS chat_tool_permissions (
  id TEXT PRIMARY KEY,
  session_id TEXT NOT NULL REFERENCES chat_sessions(id) ON DELETE CASCADE,
  tool_name TEXT NOT NULL,
  is_enabled INTEGER NOT NULL DEFAULT 1,
  created_at TEXT NOT NULL,
  UNIQUE(session_id, tool_name)
);

CREATE TABLE IF NOT EXISTS custom_tools (
  id TEXT PRIMARY KEY,
  name TEXT NOT NULL UNIQUE,
  tool_type TEXT NOT NULL CHECK(tool_type IN ('http', 'cli')),
  description TEXT NOT NULL,
  parameters_schema TEXT NOT NULL,
  config_json TEXT NOT NULL,
  enabled INTEGER NOT NULL DEFAULT 1,
  created_at TEXT NOT NULL
);

CREATE TABLE IF NOT EXISTS chat_plugin_configs (
  id TEXT PRIMARY KEY,
  session_id TEXT NOT NULL,
  plugin_name TEXT NOT NULL,
  config_json TEXT NOT NULL,
  updated_at TEXT NOT NULL,
  FOREIGN KEY(session_id) REFERENCES chat_sessions(id) ON DELETE CASCADE,
  UNIQUE(session_id, plugin_name)
);

CREATE TABLE IF NOT EXISTS session_knowledge (
  id TEXT PRIMARY KEY,
  session_id TEXT NOT NULL,
  file_name TEXT NOT NULL,
  content TEXT NOT NULL,
  size_bytes INTEGER NOT NULL,
  enabled INTEGER NOT NULL DEFAULT 1,
  injection_mode TEXT NOT NULL DEFAULT 'system_prompt'
    CHECK(injection_mode IN ('system_prompt', 'tool_reference')),
  created_at TEXT NOT NULL,
  FOREIGN KEY(session_id) REFERENCES chat_sessions(id) ON DELETE CASCADE,
  UNIQUE(session_id, file_name)
);
"#);
    reveal_strlit("\n");
    reveal_strlit("\n);\n");
    reveal_strlit("  ");
    reveal_strlit(" (\n");
    reveal_strlit(",\n  ");
    reveal_strlit("CREATE TABLE IF NOT EXISTS ");
    reveal_strlit("FOREIGN KEY(session_id) REFERENCES chat_sessions(id) ON DELETE CASCADE");
    reveal_strlit("UNIQUE(session_id, file_name)");
    reveal_strlit("UNIQUE(session_id, plugin_name)");
    reveal_strlit("UNIQUE(session_id, tool_name)");
    reveal_strlit("attachment_type TEXT NOT NULL CHECK(attachment_type IN ('text', 'pdf', 'image'))");
    reveal_strlit("attachments");
    reveal_strlit("attachments TEXT");
    reveal_strlit("avatar_path TEXT");
    reveal_strlit("character_id TEXT NOT NULL REFERENCES characters(id) ON DELETE CASCADE");
    reveal_strlit("characters");
    reveal_strlit("chat_messages");
    reveal_strlit("chat_plugin_configs");
    reveal_strlit("chat_sessions");
    reveal_strlit("chat_tool_permissions");
    reveal_strlit("config TEXT");
    reveal_strlit("config_json TEXT NOT NULL");
    reveal_strlit("content TEXT NOT NULL");
    reveal_strlit("context TEXT");
    reveal_strlit("created_at TEXT NOT NULL");
    reveal_strlit("custom_tools");
    reveal_strlit("description TEXT NOT NULL");
    reveal_strlit("enabled INTEGER NOT NULL DEFAULT 1");
    reveal_strlit("extracted_text TEXT");
    reveal_strlit("file_name TEXT NOT NULL");
    reveal_strlit("file_path TEXT NOT NULL");
    reveal_strlit("id TEXT PRIMARY KEY");
    reveal_strlit("injection_mode TEXT NOT NULL DEFAULT 'system_prompt'\n    CHECK(injection_mode IN ('system_prompt', 'tool_reference'))");
    reveal_strlit("is_enabled INTEGER NOT NULL DEFAULT 1");
    reveal_strlit("last_message_at TEXT");
    reveal_strlit("last_message_preview TEXT");
    reveal_strlit("memories");
    reveal_strlit("message_id TEXT NOT NULL REFERENCES chat_messages(id) ON DELETE CASCADE");
    reveal_strlit("name TEXT NOT NULL");
    reveal_strlit("name TEXT NOT NULL UNIQUE");
    reveal_strlit("name TEXT PRIMARY KEY");
    reveal_strlit("parameters_schema TEXT NOT NULL");
    reveal_strlit("plugin_name TEXT NOT NULL");
    reveal_strlit("plugins");
    reveal_strlit("role TEXT NOT NULL CHECK(role IN ('user', 'assistant', 'spontaneous', 'tool'))");
    reveal_strlit("session_id TEXT NOT NULL");
    reveal_strlit("session_id TEXT NOT NULL REFERENCES chat_sessions(id) ON DELETE CASCADE");
    reveal_strlit("session_knowledge");
    reveal_strlit("size_bytes INTEGER NOT NULL");
    reveal_strlit("source_message_from TEXT");
    reveal_strlit("source_message_to TEXT");
    reveal_strlit("source_session_id TEXT REFERENCES chat_sessions(id)");
    reveal_strlit("system_prompt TEXT NOT NULL");
    reveal_strlit("thinking_content TEXT");
    reveal_strlit("thoughts");
    reveal_strlit("title TEXT");
    reveal_strlit("tool_call_id TEXT");
    reveal_strlit("tool_calls TEXT");
    reveal_strlit("tool_name TEXT NOT NULL");
    reveal_strlit("tool_type TEXT NOT NULL CHECK(tool_type IN ('http', 'cli'))");
    reveal_strlit("tts_config TEXT");
    reveal_strlit("updated_at TEXT NOT NULL");
    reveal_strlit("version TEXT NOT NULL");
    reveal_with_fuel(table_statements, 12);
    reveal_with_fuel(definition_lines, 10);
    assert(CREATE_TABLES_SQL@ =~= table_statements(schema_tables()));
}

/// The statement that creates index `name` on `column` of `table` unless it exists.
pub open spec fn index_statement(name: Seq<char>, table: Seq<char>, column: Seq<char>) -> Seq<char> {
    "CREATE INDEX IF NOT EXISTS "@ + name + " ON "@ + table + "("@ + column + ");\n"@
}

/// Index statements, one per line.
pub open spec fn index_statements(ixs: Seq<(Seq<char>, Seq<char>, Seq<char>)>) -> Seq<char>
    decreases ixs.len(),
{
    if ixs.len() == 0 {
        Seq::empty()
    } else {
        index_statements(ixs.drop_last()) + index_statement(ixs.last().0, ixs.last().1, ixs.last().2)
    }
}

/// The indexes of the schema: name, table and column of each.
pub open spec fn schema_indexes() -> Seq<(Seq<char>, Seq<char>, Seq<char>)> {
    seq![
        ("idx_chat_sessions_character"@, "chat_sessions"@, "character_id"@),
        ("idx_chat_messages_session"@, "chat_messages"@, "session_id"@),
        ("idx_memories_character"@, "memories"@, "character_id"@),
        ("idx_thoughts_character"@, "thoughts"@, "character_id"@),
        ("idx_attachments_message"@, "attachments"@, "message_id"@),
        ("idx_chat_tool_permissions_session"@, "chat_tool_permissions"@, "session_id"@),
        ("idx_custom_tools_name"@, "custom_tools"@, "name"@),
        ("idx_chat_plugin_configs_session"@, "chat_plugin_configs"@, "session_id"@),
        ("idx_session_knowledge_session"@, "session_knowledge"@, "session_id"@),
    ]
}

/// The index statements are the schema's indexes, each created unless it exists.
proof fn lemma_indexes_text()
    ensures
        CREATE_INDEXES_SQL@ == "\n"@ + index_statements(schema_indexes()),
{
    reveal_strlit(r#"
CREATE INDEX IF NOT EXISTS idx_chat_sessions_character ON chat_sessions(character_id);
CREATE INDEX IF NOT EXISTS idx_chat_messages_session ON chat_messages(session_id);
CREATE INDEX IF NOT EXISTS idx_memories_character ON memories(character_id);
CREATE INDEX IF NOT EXISTS idx_thoughts_character ON thoughts(character_id);
CREATE INDEX IF NOT EXISTS idx_attachments_message ON attachments(message_id);
CREATE INDEX IF NOT EXISTS idx_chat_tool_permissions_session ON chat_tool_permissions(session_id);
CREATE INDEX IF NOT EXISTS idx_custom_tools_name ON custom_tools(name);
CREATE INDEX IF NOT EXISTS idx_chat_plugin_configs_session ON chat_plugin_configs(session_id);
CREATE INDEX IF NOT EXISTS idx_session_knowledge_session ON session_knowledge(session_id);
"#);
    reveal_strlit("\n");
    reveal_strlit(" ON ");
    reveal_strlit("(");
    reveal_strlit(");\n");
    reveal_strlit("CREATE INDEX IF NOT EXISTS ");
    reveal_strlit("attachments");
    reveal_strlit("character_id");
    reveal_strlit("chat_messages");
    reveal_strlit("chat_plugin_configs");
    reveal_strlit("chat_sessions");
    reveal_strlit("chat_tool_permissions");
    reveal_strlit("custom_tools");
    reveal_strlit("idx_attachments_message");
    reveal_strlit("idx_chat_messages_session");
    reveal_strlit("idx_chat_plugin_configs_session");
    reveal_strlit("idx_chat_sessions_character");
    reveal_strlit("idx_chat_tool_permissions_session");
    reveal_strlit("idx_custom_tools_name");
    reveal_strlit("idx_memories_character");
    reveal_strlit("idx_session_knowledge_session");
    reveal_strlit("idx_thoughts_character");
    reveal_strlit("memories");
    reveal_strlit("message_id");
    reveal_strlit("name");
    reveal_strlit("session_id");
    reveal_strlit("session_knowledge");
    reveal_strlit("thoughts");
    reveal_with_fuel(index_statements, 10);
    assert(CREATE_INDEXES_SQL@ =~= "\n"@ + index_statements(schema_indexes()));
}

/// Definition `k` of table `t` defines the column `column`: it starts with the column's name
/// and a space.
pub open spec fn defines_column(t: TableDef, k: int, column: Seq<char>) -> bool {
    0 <= k < t.1.len() && t.1[k].len() > column.len() && t.1[k].subrange(0, column.len() + 1int)
        == column + " "@
}

/// The schema has a table `table` with a column `column`.
pub open spec fn schema_has_column(table: Seq<char>, column: Seq<char>) -> bool {
    exists|j: int, k: int|
        0 <= j < schema_tables().len() && schema_tables()[j].0 == table && #[trigger] defines_column(
            schema_tables()[j],
            k,
            column,
        )
}

/// Every index of the schema is on a column of a table that the schema creates.
pub proof fn lemma_indexes_on_schema_columns()
    ensures
        forall|i: int|
            0 <= i < schema_indexes().len() ==> schema_has_column(
                #[trigger] schema_indexes()[i].1,
                schema_indexes()[i].2,
            ),
{
    reveal_strlit(" ");
    reveal_strlit("character_id");
    reveal_strlit("character_id TEXT NOT NULL REFERENCES characters(id) ON DELETE CASCADE");
    reveal_strlit("message_id");
    reveal_strlit("message_id TEXT NOT NULL REFERENCES chat_messages(id) ON DELETE CASCADE");
    reveal_strlit("name");
    reveal_strlit("name TEXT NOT NULL UNIQUE");
    reveal_strlit("session_id");
    reveal_strlit("session_id TEXT NOT NULL");
    reveal_strlit("session_id TEXT NOT NULL REFERENCES chat_sessions(id) ON DELETE CASCADE");
    let ts = schema_tables();
    let ixs = schema_indexes();
    assert forall|i: int| 0 <= i < ixs.len() implies schema_has_column(#[trigger] ixs[i].1, ixs[i].2) by {
        if i == 0 {
            assert(ts[1].0 == ixs[i].1);
            assert(ts[1].1[1].subrange(0, ixs[i].2.len() + 1int) =~= ixs[i].2 + " "@);
            assert(defines_column(ts[1], 1, ixs[i].2));
        } else if i == 1 {
            assert(ts[2].0 == ixs[i].1);
            assert(ts[2].1[1].subrange(0, ixs[i].2.len() + 1int) =~= ixs[i].2 + " "@);
            assert(defines_column(ts[2], 1, ixs[i].2));
        } else if i == 2 {
            assert(ts[3].0 == ixs[i].1);
            assert(ts[3].1[1].subrange(0, ixs[i].2.len() + 1int) =~= ixs[i].2 + " "@);
            assert(defines_column(ts[3], 1, ixs[i].2));
        } else if i == 3 {
            assert(ts[4].0 == ixs[i].1);
            assert(ts[4].1[1].subrange(0, ixs[i].2.len() + 1int) =~= ixs[i].2 + " "@);
            assert(defines_column(ts[4], 1, ixs[i].2));
        } else if i == 4 {
            assert(ts[6].0 == ixs[i].1);
            assert(ts[6].1[1].subrange(0, ixs[i].2.len() + 1int) =~= ixs[i].2 + " "@);
            assert(defines_column(ts[6], 1, ixs[i].2));
        } else if i == 5 {
            assert(ts[7].0 == ixs[i].1);
            assert(ts[7].1[1].subrange(0, ixs[i].2.len() + 1int) =~= ixs[i].2 + " "@);
            assert(defines_column(ts[7], 1, ixs[i].2));
        } else if i == 6 {
            assert(ts[8].0 == ixs[i].1);
            assert(ts[8].1[1].subrange(0, ixs[i].2.len() + 1int) =~= ixs[i].2 + " "@);
            assert(defines_column(ts[8], 1, ixs[i].2));
        } else if i == 7 {
            assert(ts[9].0 == ixs[i].1);
            assert(ts[9].1[1].subrange(0, ixs[i].2.len() + 1int) =~= ixs[i].2 + " "@);
            assert(defines_column(ts[9], 1, ixs[i].2));
        } else if i == 8 {
            assert(ts[10].0 == ixs[i].1);
            assert(ts[10].1[1].subrange(0, ixs[i].2.len() + 1int) =~= ixs[i].2 + " "@);
            assert(defines_column(ts[10], 1, ixs[i].2));
        }
    }
}

/// The statements that create all tables: one `CREATE TABLE IF NOT EXISTS` statement for each
/// table of the schema, so running them again changes nothing.
pub fn create_tables_sql() -> (sql: &'static str)
    ensures
        sql@ == CREATE_TABLES_SQL@,
        sql@ == table_statements(schema_tables()),
{
    proof {
        lemma_tables_text();
    }
    CREATE_TABLES_SQL
}

/// The statements that create all indexes: one `CREATE INDEX IF NOT EXISTS` statement for
/// each index of the schema, each on a column of a table of the schema.
pub fn create_indexes_sql() -> (sql: &'static str)
    ensures
        sql@ == CREATE_INDEXES_SQL@,
        sql@ == "\n"@ + index_statements(schema_indexes()),
{
    proof {
        lemma_indexes_text();
    }
    CREATE_INDEXES_SQL
}

} // verus!
