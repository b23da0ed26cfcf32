use git2json::{
    commit_to_json, commits_to_csv, commits_to_json, commits_to_postgres, json_object, parse_log,
    to_csv, to_json, to_postgres, Commit, FieldType, Schema, Width,
};

const H1: &str = "0123456789abcdef0123456789abcdef01234567";
const H2: &str = "fedcba9876543210fedcba9876543210fedcba98";

fn sample() -> Vec<Commit> {
    let text = format!(
        "\0{} 2021-05-01T12:00:00+00:00 dev@example.com 2021-05-01T12:05:00+02:00\n2 files changed, 5 insertions(+), 1 deletion(-)\n\0{} 2020-01-01T00:00:00Z x@y.org 2020-01-02T00:00:00-03:30\n",
        H1, H2
    );
    parse_log(&text, Width::Bits32).unwrap()
}

const NAMES: [&str; 7] = [
    "hash",
    "author_date",
    "author_email",
    "commit_date",
    "files_changed",
    "insertions",
    "deletions",
];

#[test]
fn schema_fields_in_fixed_order() {
    let s = Schema::new(Width::Bits16);
    assert_eq!(s.field_names(), NAMES.to_vec());
    let types: Vec<&str> = s.fields().iter().map(|f| f.ty.sql_name()).collect();
    assert_eq!(
        types,
        vec![
            "char(40)",
            "timestamp with time zone",
            "varchar(254)",
            "timestamp with time zone",
            "smallint",
            "smallint",
            "smallint"
        ]
    );
    assert_eq!(FieldType::Unsigned(Width::Bits32).sql_name(), "integer");
    assert_eq!(FieldType::Unsigned(Width::Bits64).sql_name(), "bigint");
}

#[test]
fn csv_header_follows_schema() {
    let s = Schema::new(Width::Bits32);
    let lines = to_csv(&s, &sample());
    assert_eq!(lines[0], NAMES.join(","));
    assert_eq!(lines[0], s.field_names().join(","));
    assert_eq!(lines.len(), 3);
    assert_eq!(
        lines[2],
        format!("{},2020-01-01T00:00:00Z,x@y.org,2020-01-02T00:00:00-03:30,0,0,0", H2)
    );
}

#[test]
fn csv_document_with_separator() {
    let s = Schema::new(Width::Bits32);
    let doc = commits_to_csv(&s, &sample(), ";");
    let expected = format!(
        "{}\n{};2021-05-01T12:00:00+00:00;dev@example.com;2021-05-01T12:05:00+02:00;2;5;1\n{};2020-01-01T00:00:00Z;x@y.org;2020-01-02T00:00:00-03:30;0;0;0",
        NAMES.join(";"),
        H1,
        H2
    );
    assert_eq!(doc, expected);
    assert_eq!(commits_to_csv(&s, &Vec::new(), ","), NAMES.join(","));
}

const CREATE: &str = "create table if not exists commits (\n  hash          char(40)                 primary key,\n  author_date   timestamp with time zone ,\n  author_email  varchar(254)             ,\n  commit_date   timestamp with time zone ,\n  files_changed integer                  ,\n  insertions    integer                  ,\n  deletions     integer                  \n);";

#[test]
fn create_table_statement() {
    let s = Schema::new(Width::Bits32);
    assert_eq!(s.script_create_table("commits"), CREATE);
}

#[test]
fn create_table_is_stable_but_inserts_repeat() {
    let s = Schema::new(Width::Bits32);
    let first = to_postgres(&s, &sample(), "commits");
    let second = to_postgres(&s, &sample(), "commits");
    assert_eq!(first[0], second[0]);
    assert_eq!(first[0], CREATE);
    assert_eq!(to_postgres(&s, &Vec::new(), "commits")[0], CREATE);
    assert_eq!(first[1], second[1]);
    assert_eq!(first.len(), 3);
    assert_eq!(
        first[1],
        format!(
            "insert into commits (hash, author_date, author_email, commit_date, files_changed, insertions, deletions) values ('{}', '2021-05-01T12:00:00+00:00', 'dev@example.com', '2021-05-01T12:05:00+02:00', 2, 5, 1);",
            H1
        )
    );
}

#[test]
fn postgres_document_puts_values_on_second_line() {
    let s = Schema::new(Width::Bits64);
    let lines = to_postgres(&s, &sample(), "git_commits");
    assert!(lines[0].contains("bigint"));
    let doc = commits_to_postgres(&s, &sample(), "git_commits");
    let expected = format!(
        "{}\ninsert into git_commits (hash, author_date, author_email, commit_date, files_changed, insertions, deletions)\n  values ('{}', '2021-05-01T12:00:00+00:00', 'dev@example.com', '2021-05-01T12:05:00+02:00', 2, 5, 1);\ninsert into git_commits (hash, author_date, author_email, commit_date, files_changed, insertions, deletions)\n  values ('{}', '2020-01-01T00:00:00Z', 'x@y.org', '2020-01-02T00:00:00-03:30', 0, 0, 0);",
        lines[0], H1, H2
    );
    assert_eq!(doc, expected);
    assert_eq!(commits_to_postgres(&s, &Vec::new(), "git_commits"), lines[0]);
}

#[test]
fn json_object_layout() {
    let o = json_object("\"h\"", "\"a\"", "\"e\"", "\"c\"", 1, 22, 333);
    assert_eq!(
        o,
        "{\"hash\":\"h\",\"author_date\":\"a\",\"author_email\":\"e\",\"commit_date\":\"c\",\"files_changed\":1,\"insertions\":22,\"deletions\":333}"
    );
}

#[test]
fn json_lines_round_trip() {
    let commits = sample();
    let lines = to_json(&commits);
    assert_eq!(lines.len(), commits.len());
    for (line, c) in lines.iter().zip(commits.iter()) {
        let v: serde_json::Value = serde_json::from_str(line).unwrap();
        let keys: Vec<&String> = v.as_object().unwrap().keys().collect();
        assert_eq!(keys.len(), 7);
        assert_eq!(v["hash"], c.hash.as_str());
        assert_eq!(v["author_date"], c.author_date.as_str());
        assert_eq!(v["author_email"], c.author_email.as_str());
        assert_eq!(v["commit_date"], c.commit_date.as_str());
        assert_eq!(v["files_changed"], c.files_changed);
        assert_eq!(v["insertions"], c.insertions);
        assert_eq!(v["deletions"], c.deletions);
    }
    assert_eq!(
        lines[0],
        format!(
            "{{\"hash\":\"{}\",\"author_date\":\"2021-05-01T12:00:00+00:00\",\"author_email\":\"dev@example.com\",\"commit_date\":\"2021-05-01T12:05:00+02:00\",\"files_changed\":2,\"insertions\":5,\"deletions\":1}}",
            H1
        )
    );
}

#[test]
fn json_escapes_email() {
    let text = format!("\0{} 2021-05-01T12:00:00Z \"q\\b\" 2021-05-01T12:00:00Z", H1);
    let commits = parse_log(&text, Width::Bits32).unwrap();
    let line = commit_to_json(&commits[0]);
    assert!(line.contains("\"author_email\":\"\\\"q\\\\b\\\"\""));
    let v: serde_json::Value = serde_json::from_str(&line).unwrap();
    assert_eq!(v["author_email"], "\"q\\b\"");
    let back = git2json::from_json(&line).unwrap();
    assert_eq!(back.author_email, "\"q\\b\"");
    assert_eq!(back.hash, H1);
}

#[test]
fn json_array_document() {
    let commits = sample();
    let doc = commits_to_json(&commits);
    let expected = format!(
        "[\n  {{\n    \"hash\": \"{}\",\n    \"author_date\": \"2021-05-01T12:00:00+00:00\",\n    \"author_email\": \"dev@example.com\",\n    \"commit_date\": \"2021-05-01T12:05:00+02:00\",\n    \"files_changed\": 2,\n    \"insertions\": 5,\n    \"deletions\": 1\n  }},\n  {{\n    \"hash\": \"{}\",\n    \"author_date\": \"2020-01-01T00:00:00Z\",\n    \"author_email\": \"x@y.org\",\n    \"commit_date\": \"2020-01-02T00:00:00-03:30\",\n    \"files_changed\": 0,\n    \"insertions\": 0,\n    \"deletions\": 0\n  }}\n]",
        H1, H2
    );
    assert_eq!(doc, expected);
    let v: serde_json::Value = serde_json::from_str(&doc).unwrap();
    assert_eq!(v.as_array().unwrap().len(), 2);
    assert_eq!(v[0]["author_date"], "2021-05-01T12:00:00+00:00");
    assert_eq!(commits_to_json(&Vec::new()), "[]");
}

#[test]
fn json_escapes_control_characters() {
    let text = format!("\0{} 2021-05-01T12:00:00Z a\u{1}\u{8}\u{c}\r\tz\u{7f} 2021-05-01T12:00:00Z", H1);
    let commits = parse_log(&text, Width::Bits32).unwrap();
    let line = commit_to_json(&commits[0]);
    assert!(line.contains("\"author_email\":\"a\\u0001\\b\\f\\r\\tz\u{7f}\""), "{}", line);
    let back = git2json::from_json(&line).unwrap();
    assert_eq!(back.author_email, commits[0].author_email);
    let v: serde_json::Value = serde_json::from_str(&line).unwrap();
    assert_eq!(v["author_email"], commits[0].author_email.as_str());
}

#[test]
fn json_lines_read_back() {
    let commits = sample();
    let lines = to_json(&commits);
    for (line, c) in lines.iter().zip(commits.iter()) {
        let back = git2json::from_json(line).unwrap();
        assert_eq!(back.hash, c.hash);
        assert_eq!(back.author_date.as_str(), c.author_date.as_str());
        assert_eq!(back.author_email, c.author_email);
        assert_eq!(back.commit_date.as_str(), c.commit_date.as_str());
        assert_eq!(
            (back.files_changed, back.insertions, back.deletions),
            (c.files_changed, c.insertions, c.deletions)
        );
    }
    assert!(git2json::from_json("{\"hash\":\"x\"}").is_none());
    assert!(git2json::from_json(&lines[0][..lines[0].len() - 1]).is_none());
}
