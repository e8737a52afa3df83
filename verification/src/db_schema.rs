//! The database schema and the SQL that brings an existing database to it:
//! missing columns are added (non-null ones with a default, after which the
//! table is rebuilt without defaults) and columns no longer in the schema dropped.
use vstd::prelude::*;
use crate::text::{join_with, push_str, spec_join};

verus! {

/// A column: its type, whether it is NOT NULL, and a key clause used when the table is created.
pub struct ColumnSchema {
    pub name: String,
    pub column_type: String,
    pub not_null: bool,
    pub suffix: String,
}

/// A table with the indexes that depend on it.
pub struct TableSchema {
    pub name: String,
    pub columns: Vec<ColumnSchema>,
    pub indexes: Vec<String>,
}

pub open spec fn column_names(cols: Seq<ColumnSchema>) -> Seq<Seq<char>> {
    cols.map_values(|c: ColumnSchema| c.name@)
}

/// "name TYPE[ NOT NULL][ suffix]".
pub open spec fn spec_fragment(c: ColumnSchema) -> Seq<char> {
    c.name@ + " "@ + c.column_type@ + (if c.not_null {
        " NOT NULL"@
    } else {
        Seq::empty()
    }) + (if c.suffix@.len() > 0 {
        " "@ + c.suffix@
    } else {
        Seq::empty()
    })
}

pub open spec fn fragments(cols: Seq<ColumnSchema>) -> Seq<Seq<char>> {
    cols.map_values(|c: ColumnSchema| spec_fragment(c))
}

/// The column definition used in CREATE TABLE.
pub fn column_fragment(c: &ColumnSchema) -> (r: String)
    ensures
        r@ == spec_fragment(*c),
{
    let mut f = c.name.clone();
    push_str(&mut f, " ");
    push_str(&mut f, c.column_type.as_str());
    if c.not_null {
        push_str(&mut f, " NOT NULL");
    }
    if !c.suffix.as_str().is_empty() {
        push_str(&mut f, " ");
        push_str(&mut f, c.suffix.as_str());
    }
    f
}

fn fragments_exec(cols: &Vec<ColumnSchema>) -> (r: Vec<String>)
    ensures
        r@.map_values(|s: String| s@) == fragments(cols@),
{
    let mut out: Vec<String> = Vec::new();
    let mut i: usize = 0;
    while i < cols.len()
        invariant
            i <= cols.len(),
            out@.map_values(|s: String| s@) == fragments(cols@).take(i as int),
        decreases cols.len() - i,
    {
        let f = column_fragment(&cols[i]);
        let ghost before = out@;
        out.push(f);
        assert(out@.map_values(|s: String| s@) =~= before.map_values(|s: String| s@).push(f@));
        assert(fragments(cols@).take(i + 1) =~= fragments(cols@).take(i as int).push(spec_fragment(cols@[i as int])));
        i += 1;
    }
    assert(fragments(cols@).take(cols.len() as int) =~= fragments(cols@));
    out
}

/// "CREATE TABLE IF NOT EXISTS <name> (<fragments, comma separated>)".
pub open spec fn spec_create_sql(t: TableSchema) -> Seq<char> {
    "CREATE TABLE IF NOT EXISTS "@ + t.name@ + " ("@ + spec_join(fragments(t.columns@), ", "@) + ")"@
}

/// The statement that creates a table when it does not exist.
pub fn create_table_sql(t: &TableSchema) -> (r: String)
    ensures
        r@ == spec_create_sql(*t),
{
    let frags = fragments_exec(&t.columns);
    let mut s = "CREATE TABLE IF NOT EXISTS ".to_string();
    push_str(&mut s, t.name.as_str());
    push_str(&mut s, " (");
    let j = join_with(&frags, ", ");
    push_str(&mut s, j.as_str());
    push_str(&mut s, ")");
    s
}

/// The default a non-null column gets when it is added: 0 for numbers, '' otherwise.
pub open spec fn default_value(column_type: Seq<char>) -> Seq<char> {
    if column_type == "INTEGER"@ || column_type == "REAL"@ {
        "0"@
    } else {
        "''"@
    }
}

/// The statement adding a missing column.
pub open spec fn spec_add_sql(table: Seq<char>, c: ColumnSchema) -> Seq<char> {
    "ALTER TABLE "@ + table + " ADD COLUMN "@ + c.name@ + " "@ + c.column_type@ + if c.not_null {
        " NOT NULL DEFAULT "@ + default_value(c.column_type@)
    } else {
        Seq::empty()
    }
}

/// The schema columns missing from `existing`, in schema order.
pub open spec fn missing_columns(cols: Seq<ColumnSchema>, existing: Seq<Seq<char>>) -> Seq<ColumnSchema>
    decreases cols.len(),
{
    if cols.len() == 0 {
        Seq::empty()
    } else {
        let rest = missing_columns(cols.drop_last(), existing);
        if existing.contains(cols.last().name@) {
            rest
        } else {
            rest.push(cols.last())
        }
    }
}

/// The existing columns that the schema no longer has, in their order.
pub open spec fn extra_columns(existing: Seq<Seq<char>>, names: Seq<Seq<char>>) -> Seq<Seq<char>>
    decreases existing.len(),
{
    if existing.len() == 0 {
        Seq::empty()
    } else {
        let rest = extra_columns(existing.drop_last(), names);
        if names.contains(existing.last()) {
            rest
        } else {
            rest.push(existing.last())
        }
    }
}

/// What a table needs: statements adding the missing columns, statements
/// dropping the extra ones, and whether a non-null column was added (so
/// the table must be rebuilt to lose the defaults).
pub struct ColumnPlan {
    pub add: Vec<String>,
    pub drop: Vec<String>,
    pub need_rebuild: bool,
}

pub open spec fn strs(v: Seq<String>) -> Seq<Seq<char>> {
    v.map_values(|s: String| s@)
}

pub open spec fn spec_plan_add(t: TableSchema, existing: Seq<Seq<char>>) -> Seq<Seq<char>> {
    missing_columns(t.columns@, existing).map_values(|c: ColumnSchema| spec_add_sql(t.name@, c))
}

pub open spec fn spec_plan_drop(t: TableSchema, existing: Seq<Seq<char>>) -> Seq<Seq<char>> {
    extra_columns(existing, column_names(t.columns@)).map_values(
        |n: Seq<char>| "ALTER TABLE "@ + t.name@ + " DROP COLUMN "@ + n,
    )
}

pub open spec fn spec_need_rebuild(t: TableSchema, existing: Seq<Seq<char>>) -> bool {
    exists|k: int|
        0 <= k < missing_columns(t.columns@, existing).len() && (#[trigger] missing_columns(
            t.columns@,
            existing,
        )[k]).not_null
}

fn contains_str(v: &Vec<String>, s: &String) -> (r: bool)
    ensures
        r == strs(v@).contains(s@),
{
    let mut i: usize = 0;
    while i < v.len()
        invariant
            i <= v.len(),
            forall|k: int| 0 <= k < i ==> strs(v@)[k] != s@,
        decreases v.len() - i,
    {
        if v[i] == *s {
            assert(strs(v@)[i as int] == s@);
            return true;
        }
        i += 1;
    }
    proof {
        if strs(v@).contains(s@) {
            let k = choose|k: int| 0 <= k < strs(v@).len() && strs(v@)[k] == s@;
            assert(strs(v@)[k] != s@);
        }
    }
    false
}

fn has_column(cols: &Vec<ColumnSchema>, s: &String) -> (r: bool)
    ensures
        r == column_names(cols@).contains(s@),
{
    let mut i: usize = 0;
    while i < cols.len()
        invariant
            i <= cols.len(),
            forall|k: int| 0 <= k < i ==> column_names(cols@)[k] != s@,
        decreases cols.len() - i,
    {
        if cols[i].name == *s {
            assert(column_names(cols@)[i as int] == s@);
            return true;
        }
        i += 1;
    }
    proof {
        if column_names(cols@).contains(s@) {
            let k = choose|k: int| 0 <= k < column_names(cols@).len() && column_names(cols@)[k] == s@;
            assert(column_names(cols@)[k] != s@);
        }
    }
    false
}

/// Plans the column changes of a table given the names of its existing columns.
pub fn plan_columns(t: &TableSchema, existing: &Vec<String>) -> (r: ColumnPlan)
    ensures
        strs(r.add@) == spec_plan_add(*t, strs(existing@)),
        strs(r.drop@) == spec_plan_drop(*t, strs(existing@)),
        r.need_rebuild == spec_need_rebuild(*t, strs(existing@)),
{
    let ghost ev = strs(existing@);
    let ghost cols = t.columns@;
    let mut add: Vec<String> = Vec::new();
    let mut need_rebuild = false;
    let mut i: usize = 0;
    while i < t.columns.len()
        invariant
            i <= t.columns.len(),
            ev == strs(existing@),
            cols == t.columns@,
            strs(add@) == missing_columns(cols.take(i as int), ev).map_values(|c: ColumnSchema| spec_add_sql(t.name@, c)),
            need_rebuild == exists|k: int|
                0 <= k < missing_columns(cols.take(i as int), ev).len() && (#[trigger] missing_columns(
                    cols.take(i as int),
                    ev,
                )[k]).not_null,
        decreases t.columns.len() - i,
    {
        let c = &t.columns[i];
        let ghost prev_missing = missing_columns(cols.take(i as int), ev);
        assert(cols.take(i + 1).drop_last() =~= cols.take(i as int));
        assert(cols.take(i + 1).last() == *c);
        if !contains_str(existing, &c.name) {
            let mut sql = "ALTER TABLE ".to_string();
            push_str(&mut sql, t.name.as_str());
            push_str(&mut sql, " ADD COLUMN ");
            push_str(&mut sql, c.name.as_str());
            push_str(&mut sql, " ");
            push_str(&mut sql, c.column_type.as_str());
            if c.not_null {
                need_rebuild = true;
                push_str(&mut sql, " NOT NULL DEFAULT ");
                if c.column_type == "INTEGER".to_string() || c.column_type == "REAL".to_string() {
                    push_str(&mut sql, "0");
                } else {
                    push_str(&mut sql, "''");
                }
            }
            assert(sql@ =~= spec_add_sql(t.name@, *c));
            let ghost before = add@;
            add.push(sql);
            let ghost now_missing = missing_columns(cols.take(i + 1), ev);
            assert(now_missing == prev_missing.push(*c));
            assert(strs(add@) =~= strs(before).push(spec_add_sql(t.name@, *c)));
            assert(now_missing.map_values(|x: ColumnSchema| spec_add_sql(t.name@, x)) =~= prev_missing.map_values(
                |x: ColumnSchema| spec_add_sql(t.name@, x),
            ).push(spec_add_sql(t.name@, *c)));
            proof {
                if c.not_null {
                    assert(now_missing[now_missing.len() - 1].not_null);
                } else {
                    assert forall|k: int| 0 <= k < now_missing.len() && (#[trigger] now_missing[k]).not_null implies 0 <= k
                        < prev_missing.len() && prev_missing[k].not_null by {
                        if k == now_missing.len() - 1 {
                            assert(now_missing[k] == *c);
                        } else {
                            assert(now_missing[k] == prev_missing[k]);
                        }
                    }
                    if need_rebuild {
                        let k = choose|k: int| 0 <= k < prev_missing.len() && (#[trigger] prev_missing[k]).not_null;
                        assert(now_missing[k] == prev_missing[k]);
                    }
                }
            }
        } else {
            assert(missing_columns(cols.take(i + 1), ev) == prev_missing);
        }
        i += 1;
    }
    assert(cols.take(t.columns.len() as int) =~= cols);
    let mut drop: Vec<String> = Vec::new();
    let mut j: usize = 0;
    while j < existing.len()
        invariant
            j <= existing.len(),
            ev == strs(existing@),
            strs(drop@) == extra_columns(ev.take(j as int), column_names(t.columns@)).map_values(
                |n: Seq<char>| "ALTER TABLE "@ + t.name@ + " DROP COLUMN "@ + n,
            ),
        decreases existing.len() - j,
    {
        assert(ev.take(j + 1).drop_last() =~= ev.take(j as int));
        assert(ev.take(j + 1).last() == existing@[j as int]@);
        if !has_column(&t.columns, &existing[j]) {
            let mut sql = "ALTER TABLE ".to_string();
            push_str(&mut sql, t.name.as_str());
            push_str(&mut sql, " DROP COLUMN ");
            push_str(&mut sql, existing[j].as_str());
            let ghost before = drop@;
            drop.push(sql);
            assert(strs(drop@) =~= strs(before).push(sql@));
        }
        j += 1;
    }
    assert(ev.take(existing.len() as int) =~= ev);
    ColumnPlan { add, drop, need_rebuild }
}

/// The schema columns present in `latest`, in schema order (the columns whose data is kept).
pub open spec fn kept_columns(cols: Seq<ColumnSchema>, latest: Seq<Seq<char>>) -> Seq<Seq<char>>
    decreases cols.len(),
{
    if cols.len() == 0 {
        Seq::empty()
    } else {
        let rest = kept_columns(cols.drop_last(), latest);
        if latest.contains(cols.last().name@) {
            rest.push(cols.last().name@)
        } else {
            rest
        }
    }
}

/// The four statements of a rebuild: create the table afresh under a
/// temporary name, copy the kept columns, drop the old table, rename.
pub open spec fn spec_rebuild_sqls(t: TableSchema, latest: Seq<Seq<char>>) -> Seq<Seq<char>> {
    let temp = t.name@ + "__migrate"@;
    let cols = spec_join(kept_columns(t.columns@, latest), ", "@);
    seq![
        "CREATE TABLE "@ + temp + " ("@ + spec_join(fragments(t.columns@), ", "@) + ")"@,
        "INSERT INTO "@ + temp + " ("@ + cols + ") SELECT "@ + cols + " FROM "@ + t.name@,
        "DROP TABLE "@ + t.name@,
        "ALTER TABLE "@ + temp + " RENAME TO "@ + t.name@,
    ]
}

/// The statements that rebuild a table (see `spec_rebuild_sqls`).
pub fn rebuild_sqls(t: &TableSchema, latest: &Vec<String>) -> (r: Vec<String>)
    ensures
        strs(r@) == spec_rebuild_sqls(*t, strs(latest@)),
{
    let ghost lv = strs(latest@);
    let ghost cols = t.columns@;
    let mut kept: Vec<String> = Vec::new();
    let mut i: usize = 0;
    while i < t.columns.len()
        invariant
            i <= t.columns.len(),
            lv == strs(latest@),
            cols == t.columns@,
            strs(kept@) == kept_columns(cols.take(i as int), lv),
        decreases t.columns.len() - i,
    {
        assert(cols.take(i + 1).drop_last() =~= cols.take(i as int));
        assert(cols.take(i + 1).last() == t.columns@[i as int]);
        if contains_str(latest, &t.columns[i].name) {
            let ghost before = kept@;
            let n = t.columns[i].name.clone();
            kept.push(n);
            assert(strs(kept@) =~= strs(before).push(t.columns@[i as int].name@));
        }
        i += 1;
    }
    assert(cols.take(t.columns.len() as int) =~= cols);
    let mut temp = t.name.clone();
    push_str(&mut temp, "__migrate");
    let colstr = join_with(&kept, ", ");
    let frags = fragments_exec(&t.columns);
    let fj = join_with(&frags, ", ");
    let mut a = "CREATE TABLE ".to_string();
    push_str(&mut a, temp.as_str());
    push_str(&mut a, " (");
    push_str(&mut a, fj.as_str());
    push_str(&mut a, ")");
    let mut b = "INSERT INTO ".to_string();
    push_str(&mut b, temp.as_str());
    push_str(&mut b, " (");
    push_str(&mut b, colstr.as_str());
    push_str(&mut b, ") SELECT ");
    push_str(&mut b, colstr.as_str());
    push_str(&mut b, " FROM ");
    push_str(&mut b, t.name.as_str());
    let mut c = "DROP TABLE ".to_string();
    push_str(&mut c, t.name.as_str());
    let mut d = "ALTER TABLE ".to_string();
    push_str(&mut d, temp.as_str());
    push_str(&mut d, " RENAME TO ");
    push_str(&mut d, t.name.as_str());
    let mut out: Vec<String> = Vec::new();
    out.push(a);
    out.push(b);
    out.push(c);
    out.push(d);
    assert(strs(out@) =~= spec_rebuild_sqls(*t, lv));
    out
}

proof fn lemma_push_contains<A>(s: Seq<A>, x: A, n: A)
    ensures
        s.push(x).contains(n) <==> (s.contains(n) || x == n),
{
    if s.push(x).contains(n) {
        let k = choose|k: int| 0 <= k < s.push(x).len() && s.push(x)[k] == n;
        if k < s.len() {
            assert(s[k] == n);
        }
    }
    if s.contains(n) {
        let k = choose|k: int| 0 <= k < s.len() && s[k] == n;
        assert(s.push(x)[k] == n);
    }
    if x == n {
        assert(s.push(x)[s.len() as int] == n);
    }
}

proof fn lemma_missing_contains(cols: Seq<ColumnSchema>, existing: Seq<Seq<char>>, n: Seq<char>)
    ensures
        missing_columns(cols, existing).map_values(|c: ColumnSchema| c.name@).contains(n) <==> (column_names(
            cols,
        ).contains(n) && !existing.contains(n)),
    decreases cols.len(),
{
    if cols.len() > 0 {
        lemma_missing_contains(cols.drop_last(), existing, n);
        let rest = missing_columns(cols.drop_last(), existing);
        assert(column_names(cols) =~= column_names(cols.drop_last()).push(cols.last().name@));
        lemma_push_contains(column_names(cols.drop_last()), cols.last().name@, n);
        if !existing.contains(cols.last().name@) {
            assert(rest.push(cols.last()).map_values(|c: ColumnSchema| c.name@) =~= rest.map_values(
                |c: ColumnSchema| c.name@,
            ).push(cols.last().name@));
            lemma_push_contains(rest.map_values(|c: ColumnSchema| c.name@), cols.last().name@, n);
        }
    } else {
        assert(missing_columns(cols, existing).map_values(|c: ColumnSchema| c.name@) =~= Seq::<Seq<char>>::empty());
    }
}

proof fn lemma_extra_contains(existing: Seq<Seq<char>>, names: Seq<Seq<char>>, n: Seq<char>)
    ensures
        extra_columns(existing, names).contains(n) <==> (existing.contains(n) && !names.contains(n)),
    decreases existing.len(),
{
    if existing.len() > 0 {
        lemma_extra_contains(existing.drop_last(), names, n);
        assert(existing =~= existing.drop_last().push(existing.last()));
        lemma_push_contains(existing.drop_last(), existing.last(), n);
        lemma_push_contains(extra_columns(existing.drop_last(), names), existing.last(), n);
    }
}

/// After the planned changes a table has exactly the schema's columns: a
/// name is among the existing columns that are not dropped or among the
/// added columns exactly when the schema has it.
pub proof fn lemma_plan_reaches_schema(t: TableSchema, existing: Seq<Seq<char>>, n: Seq<char>)
    ensures
        ((existing.contains(n) && !extra_columns(existing, column_names(t.columns@)).contains(n)) || missing_columns(
            t.columns@,
            existing,
        ).map_values(|c: ColumnSchema| c.name@).contains(n)) <==> column_names(t.columns@).contains(n),
{
    lemma_missing_contains(t.columns@, existing, n);
    lemma_extra_contains(existing, column_names(t.columns@), n);
}

/// A column as plain values: name, type, NOT NULL, suffix.
pub type ColumnView = (Seq<char>, Seq<char>, bool, Seq<char>);

/// A table as plain values: name, columns, index statements.
pub type TableView = (Seq<char>, Seq<ColumnView>, Seq<Seq<char>>);

pub open spec fn column_view(c: ColumnSchema) -> ColumnView {
    (c.name@, c.column_type@, c.not_null, c.suffix@)
}

pub open spec fn table_view(t: TableSchema) -> TableView {
    (
        t.name@,
        t.columns@.map_values(|c: ColumnSchema| column_view(c)),
        t.indexes@.map_values(|i: String| i@),
    )
}

/// The auto-increment primary key `id`.
pub open spec fn id_column() -> ColumnView {
    ("id"@, "INTEGER"@, false, "PRIMARY KEY AUTOINCREMENT"@)
}

/// A `TEXT NOT NULL` column.
pub open spec fn text_column(name: Seq<char>) -> ColumnView {
    (name, "TEXT"@, true, ""@)
}

/// A nullable `TEXT` column.
pub open spec fn nullable_text_column(name: Seq<char>) -> ColumnView {
    (name, "TEXT"@, false, ""@)
}

/// The `create_time` and `update_time` columns every table ends with.
pub open spec fn time_columns() -> Seq<ColumnView> {
    seq![text_column("create_time"@), text_column("update_time"@)]
}

pub open spec fn model_provider_table() -> TableView {
    (
        "t_model_provider"@,
        seq![
            id_column(),
            text_column("name"@),
            text_column("protocol_type"@),
            text_column("base_url"@),
            text_column("api_key"@),
        ] + time_columns(),
        seq![],
    )
}

pub open spec fn agent_table() -> TableView {
    (
        "t_agent"@,
        seq![
            id_column(),
            text_column("name"@),
            text_column("description"@),
            text_column("prompt"@),
            (
                "model_provider_id"@,
                "INTEGER"@,
                true,
                "REFERENCES t_model_provider(id) ON DELETE RESTRICT"@,
            ),
            text_column("model"@),
            ("thinking"@, "INTEGER"@, true, ""@),
        ] + time_columns(),
        seq![],
    )
}

pub open spec fn task_table() -> TableView {
    (
        "t_task"@,
        seq![
            id_column(),
            text_column("title"@),
            text_column("content"@),
            text_column("agent_ids"@),
            text_column("work_dir"@),
            text_column("status"@),
        ] + time_columns(),
        seq![],
    )
}

pub open spec fn schedule_table() -> TableView {
    (
        "t_schedule"@,
        seq![
            id_column(),
            text_column("name"@),
            text_column("content"@),
            text_column("work_dir"@),
            text_column("cron_expr"@),
            ("agent_id"@, "INTEGER"@, false, "REFERENCES t_agent(id) ON DELETE RESTRICT"@),
            ("enabled"@, "INTEGER"@, true, ""@),
        ] + time_columns(),
        seq![],
    )
}

pub open spec fn conversation_table() -> TableView {
    (
        "t_conversation"@,
        seq![
            id_column(),
            ("task_id"@, "INTEGER"@, false, "REFERENCES t_task(id) ON DELETE CASCADE"@),
            ("schedule_id"@, "INTEGER"@, false, "REFERENCES t_schedule(id) ON DELETE RESTRICT"@),
            ("agent_id"@, "INTEGER"@, false, "REFERENCES t_agent(id) ON DELETE RESTRICT"@),
            text_column("title"@),
            text_column("work_dir"@),
            text_column("system_prompt"@),
        ] + time_columns(),
        seq!["CREATE INDEX IF NOT EXISTS idx_conversation_task ON t_conversation(task_id)"@],
    )
}

pub open spec fn message_table() -> TableView {
    (
        "t_message"@,
        seq![
            id_column(),
            (
                "conversation_id"@,
                "INTEGER"@,
                true,
                "REFERENCES t_conversation(id) ON DELETE CASCADE"@,
            ),
            text_column("content"@),
        ] + time_columns(),
        seq!["CREATE INDEX IF NOT EXISTS idx_message_conversation ON t_message(conversation_id)"@],
    )
}

pub open spec fn mcp_server_table() -> TableView {
    (
        "t_mcp_server"@,
        seq![
            id_column(),
            text_column("name"@),
            text_column("description"@),
            text_column("protocol_type"@),
            nullable_text_column("url"@),
            nullable_text_column("headers"@),
            nullable_text_column("command"@),
            nullable_text_column("args"@),
        ] + time_columns(),
        seq![],
    )
}

pub open spec fn web_storage_table() -> TableView {
    (
        "t_web_storage"@,
        seq![("key"@, "TEXT"@, false, "PRIMARY KEY"@), text_column("value"@)] + time_columns(),
        seq![],
    )
}

/// The application's schema: every table, in creation order, with its
/// columns (name, type, NOT NULL, suffix) and its indexes.
pub open spec fn spec_tables() -> Seq<TableView> {
    seq![
        model_provider_table(),
        agent_table(),
        task_table(),
        schedule_table(),
        conversation_table(),
        message_table(),
        mcp_server_table(),
        web_storage_table(),
    ]
}

fn col(name: &str, column_type: &str, not_null: bool, suffix: &str) -> (r: ColumnSchema)
    ensures
        column_view(r) == (name@, column_type@, not_null, suffix@),
{
    ColumnSchema { name: name.to_string(), column_type: column_type.to_string(), not_null, suffix: suffix.to_string() }
}

fn id_col() -> (r: ColumnSchema)
    ensures
        column_view(r) == id_column(),
{
    col("id", "INTEGER", false, "PRIMARY KEY AUTOINCREMENT")
}

fn text_col(name: &str) -> (r: ColumnSchema)
    ensures
        column_view(r) == text_column(name@),
{
    col(name, "TEXT", true, "")
}

fn push_time_columns(c: &mut Vec<ColumnSchema>)
    ensures
        final(c)@.map_values(|x: ColumnSchema| column_view(x)) == old(c)@.map_values(
            |x: ColumnSchema| column_view(x),
        ) + time_columns(),
{
    c.push(text_col("create_time"));
    c.push(text_col("update_time"));
    assert(c@.map_values(|x: ColumnSchema| column_view(x)) =~= old(c)@.map_values(
        |x: ColumnSchema| column_view(x),
    ) + time_columns());
}

fn table(name: &str, columns: Vec<ColumnSchema>, index: Option<&str>) -> (r: TableSchema)
    ensures
        r.name@ == name@,
        r.columns@ == columns@,
        r.indexes@.map_values(|i: String| i@) == (match index {
            Some(i) => seq![i@],
            None => Seq::<Seq<char>>::empty(),
        }),
{
    let mut indexes: Vec<String> = Vec::new();
    match index {
        Some(i) => indexes.push(i.to_string()),
        None => {},
    }
    assert(indexes@.map_values(|i: String| i@) =~= (match index {
        Some(i) => seq![i@],
        None => Seq::<Seq<char>>::empty(),
    }));
    TableSchema { name: name.to_string(), columns, indexes }
}

fn model_provider_schema() -> (r: TableSchema)
    ensures
        table_view(r) == model_provider_table(),
{
    let mut c: Vec<ColumnSchema> = Vec::new();
    c.push(id_col());
    c.push(text_col("name"));
    c.push(text_col("protocol_type"));
    c.push(text_col("base_url"));
    c.push(text_col("api_key"));
    let ghost head = c@.map_values(|x: ColumnSchema| column_view(x));
    assert(head =~= seq![
        id_column(),
        text_column("name"@),
        text_column("protocol_type"@),
        text_column("base_url"@),
        text_column("api_key"@),
    ]);
    push_time_columns(&mut c);
    let r = table("t_model_provider", c, None);
    assert(table_view(r) =~= model_provider_table());
    r
}

fn agent_schema() -> (r: TableSchema)
    ensures
        table_view(r) == agent_table(),
{
    let mut c: Vec<ColumnSchema> = Vec::new();
    c.push(id_col());
    c.push(text_col("name"));
    c.push(text_col("description"));
    c.push(text_col("prompt"));
    c.push(col("model_provider_id", "INTEGER", true, "REFERENCES t_model_provider(id) ON DELETE RESTRICT"));
    c.push(text_col("model"));
    c.push(col("thinking", "INTEGER", true, ""));
    let ghost head = c@.map_values(|x: ColumnSchema| column_view(x));
    assert(head =~= seq![
        id_column(),
        text_column("name"@),
        text_column("description"@),
        text_column("prompt"@),
        ("model_provider_id"@, "INTEGER"@, true, "REFERENCES t_model_provider(id) ON DELETE RESTRICT"@),
        text_column("model"@),
        ("thinking"@, "INTEGER"@, true, ""@),
    ]);
    push_time_columns(&mut c);
    let r = table("t_agent", c, None);
    assert(table_view(r) =~= agent_table());
    r
}

fn task_schema() -> (r: TableSchema)
    ensures
        table_view(r) == task_table(),
{
    let mut c: Vec<ColumnSchema> = Vec::new();
    c.push(id_col());
    c.push(text_col("title"));
    c.push(text_col("content"));
    c.push(text_col("agent_ids"));
    c.push(text_col("work_dir"));
    c.push(text_col("status"));
    let ghost head = c@.map_values(|x: ColumnSchema| column_view(x));
    assert(head =~= seq![
        id_column(),
        text_column("title"@),
        text_column("content"@),
        text_column("agent_ids"@),
        text_column("work_dir"@),
        text_column("status"@),
    ]);
    push_time_columns(&mut c);
    let r = table("t_task", c, None);
    assert(table_view(r) =~= task_table());
    r
}

fn schedule_schema() -> (r: TableSchema)
    ensures
        table_view(r) == schedule_table(),
{
    let mut c: Vec<ColumnSchema> = Vec::new();
    c.push(id_col());
    c.push(text_col("name"));
    c.push(text_col("content"));
    c.push(text_col("work_dir"));
    c.push(text_col("cron_expr"));
    c.push(col("agent_id", "INTEGER", false, "REFERENCES t_agent(id) ON DELETE RESTRICT"));
    c.push(col("enabled", "INTEGER", true, ""));
    let ghost head = c@.map_values(|x: ColumnSchema| column_view(x));
    assert(head =~= seq![
        id_column(),
        text_column("name"@),
        text_column("content"@),
        text_column("work_dir"@),
        text_column("cron_expr"@),
        ("agent_id"@, "INTEGER"@, false, "REFERENCES t_agent(id) ON DELETE RESTRICT"@),
        ("enabled"@, "INTEGER"@, true, ""@),
    ]);
    push_time_columns(&mut c);
    let r = table("t_schedule", c, None);
    assert(table_view(r) =~= schedule_table());
    r
}

fn conversation_schema() -> (r: TableSchema)
    ensures
        table_view(r) == conversation_table(),
{
    let mut c: Vec<ColumnSchema> = Vec::new();
    c.push(id_col());
    c.push(col("task_id", "INTEGER", false, "REFERENCES t_task(id) ON DELETE CASCADE"));
    c.push(col("schedule_id", "INTEGER", false, "REFERENCES t_schedule(id) ON DELETE RESTRICT"));
    c.push(col("agent_id", "INTEGER", false, "REFERENCES t_agent(id) ON DELETE RESTRICT"));
    c.push(text_col("title"));
    c.push(text_col("work_dir"));
    c.push(text_col("system_prompt"));
    let ghost head = c@.map_values(|x: ColumnSchema| column_view(x));
    assert(head =~= seq![
        id_column(),
        ("task_id"@, "INTEGER"@, false, "REFERENCES t_task(id) ON DELETE CASCADE"@),
        ("schedule_id"@, "INTEGER"@, false, "REFERENCES t_schedule(id) ON DELETE RESTRICT"@),
        ("agent_id"@, "INTEGER"@, false, "REFERENCES t_agent(id) ON DELETE RESTRICT"@),
        text_column("title"@),
        text_column("work_dir"@),
        text_column("system_prompt"@),
    ]);
    push_time_columns(&mut c);
    let r = table(
        "t_conversation",
        c,
        Some("CREATE INDEX IF NOT EXISTS idx_conversation_task ON t_conversation(task_id)"),
    );
    assert(table_view(r) =~= conversation_table());
    r
}

fn message_schema() -> (r: TableSchema)
    ensures
        table_view(r) == message_table(),
{
    let mut c: Vec<ColumnSchema> = Vec::new();
    c.push(id_col());
    c.push(col("conversation_id", "INTEGER", true, "REFERENCES t_conversation(id) ON DELETE CASCADE"));
    c.push(text_col("content"));
    let ghost head = c@.map_values(|x: ColumnSchema| column_view(x));
    assert(head =~= seq![
        id_column(),
        ("conversation_id"@, "INTEGER"@, true, "REFERENCES t_conversation(id) ON DELETE CASCADE"@),
        text_column("content"@),
    ]);
    push_time_columns(&mut c);
    let r = table(
        "t_message",
        c,
        Some("CREATE INDEX IF NOT EXISTS idx_message_conversation ON t_message(conversation_id)"),
    );
    assert(table_view(r) =~= message_table());
    r
}

fn mcp_server_schema() -> (r: TableSchema)
    ensures
        table_view(r) == mcp_server_table(),
{
    let mut c: Vec<ColumnSchema> = Vec::new();
    c.push(id_col());
    c.push(text_col("name"));
    c.push(text_col("description"));
    c.push(text_col("protocol_type"));
    c.push(col("url", "TEXT", false, ""));
    c.push(col("headers", "TEXT", false, ""));
    c.push(col("command", "TEXT", false, ""));
    c.push(col("args", "TEXT", false, ""));
    let ghost head = c@.map_values(|x: ColumnSchema| column_view(x));
    assert(head =~= seq![
        id_column(),
        text_column("name"@),
        text_column("description"@),
        text_column("protocol_type"@),
        nullable_text_column("url"@),
        nullable_text_column("headers"@),
        nullable_text_column("command"@),
        nullable_text_column("args"@),
    ]);
    push_time_columns(&mut c);
    let r = table("t_mcp_server", c, None);
    assert(table_view(r) =~= mcp_server_table());
    r
}

fn web_storage_schema() -> (r: TableSchema)
    ensures
        table_view(r) == web_storage_table(),
{
    let mut c: Vec<ColumnSchema> = Vec::new();
    c.push(col("key", "TEXT", false, "PRIMARY KEY"));
    c.push(text_col("value"));
    let ghost head = c@.map_values(|x: ColumnSchema| column_view(x));
    assert(head =~= seq![("key"@, "TEXT"@, false, "PRIMARY KEY"@), text_column("value"@)]);
    push_time_columns(&mut c);
    let r = table("t_web_storage", c, None);
    assert(table_view(r) =~= web_storage_table());
    r
}

/// The application's tables, in creation order.
pub fn tables() -> (r: Vec<TableSchema>)
    ensures
        r@.map_values(|t: TableSchema| table_view(t)) == spec_tables(),
{
    let mut v: Vec<TableSchema> = Vec::new();
    v.push(model_provider_schema());
    v.push(agent_schema());
    v.push(task_schema());
    v.push(schedule_schema());
    v.push(conversation_schema());
    v.push(message_schema());
    v.push(mcp_server_schema());
    v.push(web_storage_schema());
    assert(v@.map_values(|t: TableSchema| table_view(t)) =~= spec_tables());
    v
}

} // verus!
