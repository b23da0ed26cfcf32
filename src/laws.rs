use vstd::prelude::*;

use crate::diffstat::{count_of, first_phrase, phrase_at, Quantity};
use crate::error::ErrorKind;
use crate::record::{parse_record, token, trim, CommitModel};
use crate::schema::{column_lines, commit_fields, create_table, names_of};
use crate::serialize::{csv_lines, insert_statement, script_insert_statement, script_lines, sql_lines, sql_values};
use crate::decode::{decode_json, lemma_decode_json};
use crate::json::{json_of, json_string};
use crate::timestamp::is_timestamp;
use crate::text::{decimal, join, lemma_join_prefix, lemma_join_single_line};
use crate::width::Width;

verus! {

/// A parsed record's hash is forty characters long, and a record whose
/// leading token has any other length is rejected as an invalid hash,
/// carrying that token.
pub proof fn lemma_hash_length(s: Seq<char>, w: Width)
    ensures
        parse_record(s, w) matches Ok(c) ==> c.hash.len() == 40,
        trim(token(s, 0)).len() != 40 <==> parse_record(s, w) == Err::<CommitModel, _>(
            (ErrorKind::InvalidHash, trim(token(s, 0))),
        ),
{
}

proof fn lemma_no_phrase_from(t: Seq<char>, i: int, q: Quantity)
    requires
        forall|k: int| !#[trigger] phrase_at(t, k, q),
    ensures
        first_phrase(t, i, q) is None,
    decreases t.len() - i,
{
    if 0 <= i < t.len() {
        lemma_no_phrase_from(t, i + 1, q);
    }
}

/// A trailer that names no quantity yields zero for all three counts, and
/// cannot overflow.
pub proof fn lemma_no_phrase_zero_counts(s: Seq<char>, w: Width)
    requires
        forall|k: int, q: Quantity| !#[trigger] phrase_at(token(s, 4), k, q),
    ensures
        count_of(token(s, 4), Quantity::FilesChanged) == 0,
        count_of(token(s, 4), Quantity::Insertions) == 0,
        count_of(token(s, 4), Quantity::Deletions) == 0,
        parse_record(s, w) matches Ok(c) ==> c.files_changed == 0 && c.insertions == 0 && c.deletions == 0,
        !(parse_record(s, w) matches Err((kind, _)) && kind == ErrorKind::NumericOverflow),
{
    let t = token(s, 4);
    assert forall|k: int| !#[trigger] phrase_at(t, k, Quantity::FilesChanged) by {
        assert(!phrase_at(t, k, Quantity::FilesChanged));
    }
    assert forall|k: int| !#[trigger] phrase_at(t, k, Quantity::Insertions) by {
        assert(!phrase_at(t, k, Quantity::Insertions));
    }
    assert forall|k: int| !#[trigger] phrase_at(t, k, Quantity::Deletions) by {
        assert(!phrase_at(t, k, Quantity::Deletions));
    }
    lemma_no_phrase_from(t, 0, Quantity::FilesChanged);
    lemma_no_phrase_from(t, 0, Quantity::Insertions);
    lemma_no_phrase_from(t, 0, Quantity::Deletions);
    assert(crate::diffstat::count_digits(t, Quantity::FilesChanged) =~= Seq::<char>::empty());
    assert(crate::diffstat::count_digits(t, Quantity::Insertions) =~= Seq::<char>::empty());
    assert(crate::diffstat::count_digits(t, Quantity::Deletions) =~= Seq::<char>::empty());
}

/// Every format lists the fields in the schema's order: the delimited-text
/// header joins the schema's names, the i-th column of the table definition
/// is the schema's i-th field, and each insert statement lists the schema's
/// names as its columns.
pub proof fn lemma_field_order(w: Width, cs: Seq<CommitModel>, sep: Seq<char>, table: Seq<char>)
    ensures
        names_of(commit_fields(w)) == seq![
            "hash"@,
            "author_date"@,
            "author_email"@,
            "commit_date"@,
            "files_changed"@,
            "insertions"@,
            "deletions"@,
        ],
        csv_lines(commit_fields(w), cs, sep)[0] == join(names_of(commit_fields(w)), sep),
        column_lines(commit_fields(w)).len() == names_of(commit_fields(w)).len(),
        forall|i: int|
            0 <= i < names_of(commit_fields(w)).len() ==> (#[trigger] column_lines(commit_fields(w))[i]).subrange(
                2,
                2 + names_of(commit_fields(w))[i].len() as int,
            ) == names_of(commit_fields(w))[i],
        forall|c: CommitModel|
            #[trigger] insert_statement(commit_fields(w), table, c) == "insert into "@ + table + " ("@
                + join(names_of(commit_fields(w)), ", "@) + ") values "@ + sql_values(c) + ";"@,
{
    let fs = commit_fields(w);
    assert(names_of(fs) =~= seq![
        "hash"@,
        "author_date"@,
        "author_email"@,
        "commit_date"@,
        "files_changed"@,
        "insertions"@,
        "deletions"@,
    ]);
    assert forall|i: int| 0 <= i < names_of(fs).len() implies (#[trigger] column_lines(fs)[i]).subrange(
        2,
        2 + names_of(fs)[i].len() as int,
    ) == names_of(fs)[i] by {
        reveal_strlit("  ");
        let line = column_lines(fs)[i];
        assert(line.subrange(2, 2 + names_of(fs)[i].len() as int) =~= names_of(fs)[i]);
    }
}

pub open spec fn json_member(name: Seq<char>, value: Seq<char>) -> Seq<char> {
    seq!['"'] + name + seq!['"', ':'] + value
}

/// The JSON object of a record names its members by the schema's field
/// names, in the schema's order.
pub proof fn lemma_json_keys_follow_schema(w: Width, c: CommitModel)
    ensures
        ({
            let n = names_of(commit_fields(w));
            json_of(c) == seq!['{'] + json_member(n[0], json_string(c.hash)) + seq![','] + json_member(
                n[1],
                json_string(c.author_date),
            ) + seq![','] + json_member(n[2], json_string(c.author_email)) + seq![','] + json_member(
                n[3],
                json_string(c.commit_date),
            ) + seq![','] + json_member(n[4], decimal(c.files_changed as nat)) + seq![','] + json_member(
                n[5],
                decimal(c.insertions as nat),
            ) + seq![','] + json_member(n[6], decimal(c.deletions as nat)) + seq!['}']
        }),
{
    reveal_strlit("hash");
    reveal_strlit("author_date");
    reveal_strlit("author_email");
    reveal_strlit("commit_date");
    reveal_strlit("files_changed");
    reveal_strlit("insertions");
    reveal_strlit("deletions");
    reveal_strlit("{\"hash\":");
    reveal_strlit(",\"author_date\":");
    reveal_strlit(",\"author_email\":");
    reveal_strlit(",\"commit_date\":");
    reveal_strlit(",\"files_changed\":");
    reveal_strlit(",\"insertions\":");
    reveal_strlit(",\"deletions\":");
    reveal_strlit("}");
    let n = names_of(commit_fields(w));
    assert(json_of(c) =~= seq!['{'] + json_member(n[0], json_string(c.hash)) + seq![','] + json_member(
        n[1],
        json_string(c.author_date),
    ) + seq![','] + json_member(n[2], json_string(c.author_email)) + seq![','] + json_member(
        n[3],
        json_string(c.commit_date),
    ) + seq![','] + json_member(n[4], decimal(c.files_changed as nat)) + seq![','] + json_member(
        n[5],
        decimal(c.insertions as nat),
    ) + seq![','] + json_member(n[6], decimal(c.deletions as nat)) + seq!['}']);
}

/// Serializing commits to JSON lines and reading each line back gives the
/// same commits, in order: strings verbatim, whatever they hold, timestamps
/// with their offsets, and the counts.
pub proof fn lemma_json_round_trip(cs: Seq<CommitModel>, lines: Seq<Seq<char>>)
    requires
        lines.len() == cs.len(),
        forall|i: int|
            0 <= i < cs.len() ==> {
                &&& is_timestamp((#[trigger] cs[i]).author_date)
                &&& is_timestamp(cs[i].commit_date)
                &&& 0 <= cs[i].files_changed <= u64::MAX
                &&& 0 <= cs[i].insertions <= u64::MAX
                &&& 0 <= cs[i].deletions <= u64::MAX
            },
        forall|i: int| 0 <= i < cs.len() ==> #[trigger] lines[i] == json_of(cs[i]),
    ensures
        forall|i: int| 0 <= i < cs.len() ==> #[trigger] decode_json(lines[i]) == Some(cs[i]),
{
    assert forall|i: int| 0 <= i < cs.len() implies #[trigger] decode_json(lines[i]) == Some(cs[i]) by {
        assert(lines[i] == json_of(cs[i]));
        lemma_decode_json(cs[i]);
    }
}

/// The table definition depends on the schema and table name alone: every
/// run emits the same statement, which creates the table only if it does not
/// exist. The insert statements are emitted anew on every run, one per
/// commit, so running the script twice inserts every row twice.
pub proof fn lemma_create_statement_stable(
    fields: Seq<(Seq<char>, crate::schema::FieldType)>,
    first: Seq<CommitModel>,
    second: Seq<CommitModel>,
    table: Seq<char>,
)
    ensures
        sql_lines(fields, first, table)[0] == sql_lines(fields, second, table)[0],
        sql_lines(fields, first, table)[0] == create_table(fields, table),
        create_table(fields, table).subrange(0, 27) == "create table if not exists "@,
        sql_lines(fields, first, table).len() == first.len() + 1,
        forall|i: int|
            0 <= i < first.len() ==> #[trigger] sql_lines(fields, first, table)[i + 1] == insert_statement(
                fields,
                table,
                first[i],
            ),
{
    reveal_strlit("create table if not exists ");
    let ct = create_table(fields, table);
    assert(ct.subrange(0, 27) =~= "create table if not exists "@);
}

/// In the delimited-text document the header, the schema's field names
/// joined by the separator, is the whole first line, when neither the names
/// nor the separator hold a line feed.
pub proof fn lemma_csv_first_line(
    fields: Seq<(Seq<char>, crate::schema::FieldType)>,
    cs: Seq<CommitModel>,
    sep: Seq<char>,
)
    requires
        !sep.contains('\n'),
        forall|i: int| 0 <= i < names_of(fields).len() ==> !(#[trigger] names_of(fields)[i]).contains('\n'),
    ensures
        ({
            let doc = join(csv_lines(fields, cs, sep), "\n"@);
            let header = join(names_of(fields), sep);
            &&& !header.contains('\n')
            &&& doc.len() >= header.len()
            &&& doc.subrange(0, header.len() as int) == header
            &&& cs.len() == 0 ==> doc == header
            &&& cs.len() > 0 ==> doc.len() > header.len() && doc[header.len() as int] == '\n'
        }),
{
    reveal_strlit("\n");
    let lines = csv_lines(fields, cs, sep);
    lemma_join_single_line(names_of(fields), sep);
    lemma_join_prefix(lines, "\n"@);
    let header = join(names_of(fields), sep);
    let doc = join(lines, "\n"@);
    if cs.len() > 0 {
        assert(doc.subrange(header.len() as int, header.len() + 1 as int)[0] == doc[header.len() as int]);
    } else {
        assert(lines.len() == 1);
    }
}

/// The relational script as one text begins with the table definition, which
/// is the whole script when there are no commits; one insert statement
/// follows per commit, in order, repeated commits included.
pub proof fn lemma_script_begins_with_table(
    fields: Seq<(Seq<char>, crate::schema::FieldType)>,
    cs: Seq<CommitModel>,
    table: Seq<char>,
)
    ensures
        ({
            let doc = join(script_lines(fields, cs, table), "\n"@);
            let ddl = create_table(fields, table);
            &&& doc.len() >= ddl.len()
            &&& doc.subrange(0, ddl.len() as int) == ddl
            &&& join(script_lines(fields, Seq::empty(), table), "\n"@) == ddl
        }),
        script_lines(fields, cs, table).len() == cs.len() + 1,
        forall|i: int|
            0 <= i < cs.len() ==> #[trigger] script_lines(fields, cs, table)[i + 1] == script_insert_statement(
                fields,
                table,
                cs[i],
            ),
{
    lemma_join_prefix(script_lines(fields, cs, table), "\n"@);
    assert(script_lines(fields, Seq::empty(), table).len() == 1);
}

} // verus!
