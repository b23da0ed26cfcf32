use vstd::prelude::*;

use crate::record::{Commit, CommitModel};
use crate::schema::{create_table, names_of, Schema};
use crate::text::{append, chars_of, decimal, decimal_digits, join, join_chars, push_str, string_from_chars, views};

verus! {

/// The models of a list of commits.
pub open spec fn models(cs: Seq<Commit>) -> Seq<CommitModel> {
    cs.map_values(|c: Commit| c@)
}

/// The views of a list of strings.
pub open spec fn string_views(ls: Seq<String>) -> Seq<Seq<char>> {
    ls.map_values(|l: String| l@)
}

/// A delimited-text row: each field's display form in schema order, joined
/// by `sep`, without escaping.
pub open spec fn csv_row(c: CommitModel, sep: Seq<char>) -> Seq<char> {
    c.hash + sep + c.author_date + sep + c.author_email + sep + c.commit_date + sep + decimal(
        c.files_changed as nat,
    ) + sep + decimal(c.insertions as nat) + sep + decimal(c.deletions as nat)
}

/// The header row of field names, then one row per commit.
pub open spec fn csv_lines(
    fields: Seq<(Seq<char>, crate::schema::FieldType)>,
    cs: Seq<CommitModel>,
    sep: Seq<char>,
) -> Seq<Seq<char>> {
    seq![join(names_of(fields), sep)] + cs.map_values(|c: CommitModel| csv_row(c, sep))
}

/// The value tuple of an insert statement; strings are quoted, not escaped.
pub open spec fn sql_values(c: CommitModel) -> Seq<char> {
    "('"@ + c.hash + "', '"@ + c.author_date + "', '"@ + c.author_email + "', '"@ + c.commit_date
        + "', "@ + decimal(c.files_changed as nat) + ", "@ + decimal(c.insertions as nat) + ", "@
        + decimal(c.deletions as nat) + ")"@
}

/// The statement that inserts `c` into `table`.
pub open spec fn insert_statement(
    fields: Seq<(Seq<char>, crate::schema::FieldType)>,
    table: Seq<char>,
    c: CommitModel,
) -> Seq<char> {
    "insert into "@ + table + " ("@ + join(names_of(fields), ", "@) + ") values "@ + sql_values(c)
        + ";"@
}

/// The statement that inserts `c` into `table`, with `values` on a line of
/// its own, indented by two spaces.
pub open spec fn script_insert_statement(
    fields: Seq<(Seq<char>, crate::schema::FieldType)>,
    table: Seq<char>,
    c: CommitModel,
) -> Seq<char> {
    "insert into "@ + table + " ("@ + join(names_of(fields), ", "@) + ")\n  values "@ + sql_values(c)
        + ";"@
}

/// The table definition, then one two-line insert statement per commit.
pub open spec fn script_lines(
    fields: Seq<(Seq<char>, crate::schema::FieldType)>,
    cs: Seq<CommitModel>,
    table: Seq<char>,
) -> Seq<Seq<char>> {
    seq![create_table(fields, table)] + cs.map_values(|c: CommitModel| script_insert_statement(fields, table, c))
}

/// The table definition, then one insert statement per commit.
pub open spec fn sql_lines(
    fields: Seq<(Seq<char>, crate::schema::FieldType)>,
    cs: Seq<CommitModel>,
    table: Seq<char>,
) -> Seq<Seq<char>> {
    seq![create_table(fields, table)] + cs.map_values(|c: CommitModel| insert_statement(fields, table, c))
}

fn csv_row_chars(c: &Commit, sep: &Vec<char>) -> (r: Vec<char>)
    ensures
        r@ == csv_row(c@, sep@),
{
    let mut out: Vec<char> = Vec::new();
    push_str(&mut out, c.hash.as_str());
    append(&mut out, sep);
    push_str(&mut out, c.author_date.as_str());
    append(&mut out, sep);
    push_str(&mut out, c.author_email.as_str());
    append(&mut out, sep);
    push_str(&mut out, c.commit_date.as_str());
    append(&mut out, sep);
    decimal_digits(&mut out, c.files_changed);
    append(&mut out, sep);
    decimal_digits(&mut out, c.insertions);
    append(&mut out, sep);
    decimal_digits(&mut out, c.deletions);
    assert(out@ =~= csv_row(c@, sep@));
    out
}

fn csv_line_chars(schema: &Schema, commits: &Vec<Commit>, sep: &Vec<char>) -> (r: Vec<Vec<char>>)
    ensures
        views(r@) == csv_lines(schema@, models(commits@), sep@),
{
    let names = schema.name_chars();
    let mut lines: Vec<Vec<char>> = Vec::new();
    lines.push(join_chars(&names, sep));
    let mut i: usize = 0;
    while i < commits.len()
        invariant
            i <= commits@.len(),
            lines@.len() == i + 1,
            lines@[0]@ == join(names_of(schema@), sep@),
            forall|j: int| 1 <= j <= i ==> (#[trigger] lines@[j])@ == csv_row(commits@[j - 1]@, sep@),
        decreases commits@.len() - i,
    {
        lines.push(csv_row_chars(&commits[i], sep));
        i = i + 1;
    }
    assert(views(lines@) =~= csv_lines(schema@, models(commits@), sep@));
    lines
}

fn to_strings(lines: &Vec<Vec<char>>) -> (r: Vec<String>)
    ensures
        string_views(r@) == views(lines@),
{
    let mut r: Vec<String> = Vec::new();
    let mut i: usize = 0;
    while i < lines.len()
        invariant
            i <= lines@.len(),
            r@.len() == i,
            forall|j: int| 0 <= j < i ==> (#[trigger] r@[j])@ == lines@[j]@,
        decreases lines@.len() - i,
    {
        r.push(string_from_chars(&lines[i]));
        i = i + 1;
    }
    assert(string_views(r@) =~= views(lines@));
    r
}

/// Delimited-text lines: the comma-joined field names, then one
/// comma-joined row per commit, in order.
pub fn to_csv(schema: &Schema, commits: &Vec<Commit>) -> (r: Vec<String>)
    ensures
        string_views(r@) == csv_lines(schema@, models(commits@), ","@),
{
    let lines = csv_line_chars(schema, commits, &chars_of(","));
    to_strings(&lines)
}

/// The delimited-text document: header and rows joined by `sep`, lines
/// joined by line feeds.
pub fn commits_to_csv(schema: &Schema, commits: &Vec<Commit>, sep: &str) -> (r: String)
    ensures
        r@ == join(csv_lines(schema@, models(commits@), sep@), "\n"@),
{
    let lines = csv_line_chars(schema, commits, &chars_of(sep));
    string_from_chars(&join_chars(&lines, &chars_of("\n")))
}

fn insert_chars(columns: &Vec<char>, table: &str, c: &Commit, two_lines: bool) -> (r: Vec<char>)
    ensures
        forall|fields: Seq<(Seq<char>, crate::schema::FieldType)>|
            columns@ == join(#[trigger] names_of(fields), ", "@) ==> r@ == (if two_lines {
                script_insert_statement(fields, table@, c@)
            } else {
                insert_statement(fields, table@, c@)
            }),
{
    let mut out: Vec<char> = Vec::new();
    push_str(&mut out, "insert into ");
    push_str(&mut out, table);
    push_str(&mut out, " (");
    append(&mut out, columns);
    if two_lines {
        push_str(&mut out, ")\n  values ('");
    } else {
        push_str(&mut out, ") values ('");
    }
    push_str(&mut out, c.hash.as_str());
    push_str(&mut out, "', '");
    push_str(&mut out, c.author_date.as_str());
    push_str(&mut out, "', '");
    push_str(&mut out, c.author_email.as_str());
    push_str(&mut out, "', '");
    push_str(&mut out, c.commit_date.as_str());
    push_str(&mut out, "', ");
    decimal_digits(&mut out, c.files_changed);
    push_str(&mut out, ", ");
    decimal_digits(&mut out, c.insertions);
    push_str(&mut out, ", ");
    decimal_digits(&mut out, c.deletions);
    push_str(&mut out, ");");
    proof {
        reveal_strlit(") values ('");
        reveal_strlit(") values ");
        reveal_strlit(")\n  values ('");
        reveal_strlit(")\n  values ");
        reveal_strlit("('");
        reveal_strlit(");");
        reveal_strlit(")");
        reveal_strlit(";");
    }
    assert forall|fields: Seq<(Seq<char>, crate::schema::FieldType)>|
        columns@ == join(#[trigger] names_of(fields), ", "@) implies out@ == (if two_lines {
        script_insert_statement(fields, table@, c@)
    } else {
        insert_statement(fields, table@, c@)
    }) by {
        if two_lines {
            assert(out@ =~= script_insert_statement(fields, table@, c@));
        } else {
            assert(out@ =~= insert_statement(fields, table@, c@));
        }
    }
    out
}

fn sql_line_chars(schema: &Schema, commits: &Vec<Commit>, table: &str, two_lines: bool) -> (r: Vec<Vec<char>>)
    ensures
        views(r@) == (if two_lines {
            script_lines(schema@, models(commits@), table@)
        } else {
            sql_lines(schema@, models(commits@), table@)
        }),
{
    let names = schema.name_chars();
    let columns = join_chars(&names, &chars_of(", "));
    let mut lines: Vec<Vec<char>> = Vec::new();
    lines.push(chars_of(schema.script_create_table(table).as_str()));
    let mut i: usize = 0;
    while i < commits.len()
        invariant
            i <= commits@.len(),
            columns@ == join(names_of(schema@), ", "@),
            lines@.len() == i + 1,
            lines@[0]@ == create_table(schema@, table@),
            forall|j: int|
                1 <= j <= i ==> (#[trigger] lines@[j])@ == (if two_lines {
                    script_insert_statement(schema@, table@, commits@[j - 1]@)
                } else {
                    insert_statement(schema@, table@, commits@[j - 1]@)
                }),
        decreases commits@.len() - i,
    {
        let line = insert_chars(&columns, table, &commits[i], two_lines);
        assert(line@ == (if two_lines {
            script_insert_statement(schema@, table@, commits@[i as int]@)
        } else {
            insert_statement(schema@, table@, commits@[i as int]@)
        }));
        lines.push(line);
        i = i + 1;
    }
    if two_lines {
        assert(views(lines@) =~= script_lines(schema@, models(commits@), table@));
    } else {
        assert(views(lines@) =~= sql_lines(schema@, models(commits@), table@));
    }
    lines
}

/// Relational-script lines: the table definition, then one insert
/// statement per commit, in order.
pub fn to_postgres(schema: &Schema, commits: &Vec<Commit>, table_name: &str) -> (r: Vec<String>)
    ensures
        string_views(r@) == sql_lines(schema@, models(commits@), table_name@),
{
    let lines = sql_line_chars(schema, commits, table_name, false);
    to_strings(&lines)
}

/// The relational script as one text: the table definition, then each
/// insert statement with its values on a second line, joined by line feeds.
pub fn commits_to_postgres(schema: &Schema, commits: &Vec<Commit>, table_name: &str) -> (r: String)
    ensures
        r@ == join(script_lines(schema@, models(commits@), table_name@), "\n"@),
{
    let lines = sql_line_chars(schema, commits, table_name, true);
    string_from_chars(&join_chars(&lines, &chars_of("\n")))
}

} // verus!
