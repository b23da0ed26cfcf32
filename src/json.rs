use vstd::prelude::*;

use crate::record::{Commit, CommitModel};
use crate::serialize::{models, string_views};
use crate::text::{chars_of, decimal, decimal_digits, join, join_chars, push_str, string_from_chars, views};

verus! {

/// A lowercase hexadecimal digit.
pub open spec fn hex_digit(n: nat) -> char {
    if n < 10 {
        (n + '0' as nat) as char
    } else {
        (n - 10 + 'a' as nat) as char
    }
}

/// How one character is written inside a JSON string literal: quotation
/// mark, backslash, backspace, tab, line feed, form feed and carriage return
/// get a two-character escape, the other control characters `\u00XX`, and
/// every other character stands for itself.
pub open spec fn escape_char(c: char) -> Seq<char> {
    if c == '"' {
        seq!['\\', '"']
    } else if c == '\\' {
        seq!['\\', '\\']
    } else if c == '\u{8}' {
        seq!['\\', 'b']
    } else if c == '\t' {
        seq!['\\', 't']
    } else if c == '\n' {
        seq!['\\', 'n']
    } else if c == '\u{c}' {
        seq!['\\', 'f']
    } else if c == '\r' {
        seq!['\\', 'r']
    } else if ' ' > c {
        seq!['\\', 'u', '0', '0', hex_digit((c as nat) / 16), hex_digit((c as nat) % 16)]
    } else {
        seq![c]
    }
}

/// The escaped contents of a JSON string literal for `s`.
pub open spec fn escape(s: Seq<char>) -> Seq<char>
    decreases s.len(),
{
    if s.len() == 0 {
        Seq::empty()
    } else {
        escape(s.drop_last()) + escape_char(s.last())
    }
}

/// The JSON string literal that serde_json writes for `s`.
pub open spec fn json_string(s: Seq<char>) -> Seq<char> {
    seq!['"'] + escape(s) + seq!['"']
}

/// Relies on `serde_json::to_string` for a `str`: the string literal with
/// the escapes of serde_json's compact formatter. Writing into a `Vec`
/// cannot fail, so the call always succeeds.
#[verifier::external_body]
fn quote_json(s: &str) -> (r: String)
    ensures
        r@ == json_string(s@),
{
    serde_json::to_string(s).expect("serializing a str into memory cannot fail")
}

/// A JSON object with the record's keys in schema order, given the string
/// values already as JSON literals.
pub open spec fn json_text(
    hash: Seq<char>,
    author_date: Seq<char>,
    author_email: Seq<char>,
    commit_date: Seq<char>,
    files_changed: nat,
    insertions: nat,
    deletions: nat,
) -> Seq<char> {
    "{\"hash\":"@ + hash + ",\"author_date\":"@ + author_date + ",\"author_email\":"@ + author_email
        + ",\"commit_date\":"@ + commit_date + ",\"files_changed\":"@ + decimal(files_changed)
        + ",\"insertions\":"@ + decimal(insertions) + ",\"deletions\":"@ + decimal(deletions) + "}"@
}

/// The JSON object of a commit: strings as JSON string literals, counts as
/// numbers.
pub open spec fn json_of(c: CommitModel) -> Seq<char> {
    json_text(
        json_string(c.hash),
        json_string(c.author_date),
        json_string(c.author_email),
        json_string(c.commit_date),
        c.files_changed as nat,
        c.insertions as nat,
        c.deletions as nat,
    )
}

/// Builds the JSON object of a record from its string values, each given
/// already as a JSON string literal, and its counts.
pub fn json_object(
    hash: &str,
    author_date: &str,
    author_email: &str,
    commit_date: &str,
    files_changed: u64,
    insertions: u64,
    deletions: u64,
) -> (r: String)
    ensures
        r@ == json_text(
            hash@,
            author_date@,
            author_email@,
            commit_date@,
            files_changed as nat,
            insertions as nat,
            deletions as nat,
        ),
{
    let mut out: Vec<char> = Vec::new();
    push_str(&mut out, "{\"hash\":");
    push_str(&mut out, hash);
    push_str(&mut out, ",\"author_date\":");
    push_str(&mut out, author_date);
    push_str(&mut out, ",\"author_email\":");
    push_str(&mut out, author_email);
    push_str(&mut out, ",\"commit_date\":");
    push_str(&mut out, commit_date);
    push_str(&mut out, ",\"files_changed\":");
    decimal_digits(&mut out, files_changed);
    push_str(&mut out, ",\"insertions\":");
    decimal_digits(&mut out, insertions);
    push_str(&mut out, ",\"deletions\":");
    decimal_digits(&mut out, deletions);
    push_str(&mut out, "}");
    assert(out@ =~= json_text(
        hash@,
        author_date@,
        author_email@,
        commit_date@,
        files_changed as nat,
        insertions as nat,
        deletions as nat,
    ));
    string_from_chars(&out)
}

/// The JSON object of `c`.
pub fn commit_to_json(c: &Commit) -> (r: String)
    ensures
        r@ == json_of(c@),
{
    let hash = quote_json(c.hash.as_str());
    let author_date = quote_json(c.author_date.as_str());
    let author_email = quote_json(c.author_email.as_str());
    let commit_date = quote_json(c.commit_date.as_str());
    json_object(
        hash.as_str(),
        author_date.as_str(),
        author_email.as_str(),
        commit_date.as_str(),
        c.files_changed,
        c.insertions,
        c.deletions,
    )
}

/// One JSON object per commit, in order.
pub fn to_json(commits: &Vec<Commit>) -> (r: Vec<String>)
    ensures
        string_views(r@) == models(commits@).map_values(|c: CommitModel| json_of(c)),
{
    let mut r: Vec<String> = Vec::new();
    let mut i: usize = 0;
    while i < commits.len()
        invariant
            i <= commits@.len(),
            r@.len() == i,
            forall|j: int| 0 <= j < i ==> (#[trigger] r@[j])@ == json_of(commits@[j]@),
        decreases commits@.len() - i,
    {
        let line = commit_to_json(&commits[i]);
        r.push(line);
        i = i + 1;
    }
    assert(string_views(r@) =~= models(commits@).map_values(|c: CommitModel| json_of(c)));
    r
}

/// A commit as an element of a pretty-printed array: two-space indents, one
/// member per line, `": "` between key and value.
pub open spec fn pretty_object(c: CommitModel) -> Seq<char> {
    "  {\n    \"hash\": "@ + json_string(c.hash) + ",\n    \"author_date\": "@ + json_string(c.author_date)
        + ",\n    \"author_email\": "@ + json_string(c.author_email) + ",\n    \"commit_date\": "@
        + json_string(c.commit_date) + ",\n    \"files_changed\": "@ + decimal(c.files_changed as nat)
        + ",\n    \"insertions\": "@ + decimal(c.insertions as nat) + ",\n    \"deletions\": "@
        + decimal(c.deletions as nat) + "\n  }"@
}

/// The pretty-printed JSON array of the commits: `[]` when there are none,
/// else one object after another, separated by `,` and a line feed.
pub open spec fn pretty_array(cs: Seq<CommitModel>) -> Seq<char> {
    if cs.len() == 0 {
        "[]"@
    } else {
        "[\n"@ + join(cs.map_values(|c: CommitModel| pretty_object(c)), ",\n"@) + "\n]"@
    }
}

fn pretty_object_chars(c: &Commit) -> (r: Vec<char>)
    ensures
        r@ == pretty_object(c@),
{
    let mut out: Vec<char> = Vec::new();
    push_str(&mut out, "  {\n    \"hash\": ");
    push_str(&mut out, quote_json(c.hash.as_str()).as_str());
    push_str(&mut out, ",\n    \"author_date\": ");
    push_str(&mut out, quote_json(c.author_date.as_str()).as_str());
    push_str(&mut out, ",\n    \"author_email\": ");
    push_str(&mut out, quote_json(c.author_email.as_str()).as_str());
    push_str(&mut out, ",\n    \"commit_date\": ");
    push_str(&mut out, quote_json(c.commit_date.as_str()).as_str());
    push_str(&mut out, ",\n    \"files_changed\": ");
    decimal_digits(&mut out, c.files_changed);
    push_str(&mut out, ",\n    \"insertions\": ");
    decimal_digits(&mut out, c.insertions);
    push_str(&mut out, ",\n    \"deletions\": ");
    decimal_digits(&mut out, c.deletions);
    push_str(&mut out, "\n  }");
    assert(out@ =~= pretty_object(c@));
    out
}

/// The commits as one pretty-printed JSON array, in order.
pub fn commits_to_json(commits: &Vec<Commit>) -> (r: String)
    ensures
        r@ == pretty_array(models(commits@)),
{
    if commits.len() == 0 {
        return string_from_chars(&chars_of("[]"));
    }
    let mut objects: Vec<Vec<char>> = Vec::new();
    let mut i: usize = 0;
    while i < commits.len()
        invariant
            i <= commits@.len(),
            objects@.len() == i,
            forall|j: int| 0 <= j < i ==> (#[trigger] objects@[j])@ == pretty_object(commits@[j]@),
        decreases commits@.len() - i,
    {
        objects.push(pretty_object_chars(&commits[i]));
        i = i + 1;
    }
    assert(views(objects@) =~= models(commits@).map_values(|c: CommitModel| pretty_object(c)));
    let mut out: Vec<char> = Vec::new();
    push_str(&mut out, "[\n");
    let body = join_chars(&objects, &chars_of(",\n"));
    crate::text::append(&mut out, &body);
    push_str(&mut out, "\n]");
    string_from_chars(&out)
}

} // verus!
