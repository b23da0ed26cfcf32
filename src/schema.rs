use vstd::prelude::*;

use crate::text::{append, chars_of, join, join_chars, push_str, views};
use crate::width::Width;

verus! {

/// The abstract type of a record field.
#[derive(Clone, Copy, Debug, PartialEq, Eq, Structural)]
pub enum FieldType {
    /// A string of exactly forty characters.
    FixedString,
    /// A string of any length.
    FreeString,
    /// A timestamp with its offset.
    Timestamp,
    /// An unsigned integer of the given width.
    Unsigned(Width),
}

/// The SQL column type of each abstract type.
pub open spec fn sql_type(t: FieldType) -> Seq<char> {
    match t {
        FieldType::FixedString => "char(40)"@,
        FieldType::FreeString => "varchar(254)"@,
        FieldType::Timestamp => "timestamp with time zone"@,
        FieldType::Unsigned(Width::Bits16) => "smallint"@,
        FieldType::Unsigned(Width::Bits32) => "integer"@,
        FieldType::Unsigned(Width::Bits64) => "bigint"@,
    }
}

impl FieldType {
    /// The SQL column type of this abstract type.
    pub fn sql_name(self) -> (r: &'static str)
        ensures
            r@ == sql_type(self),
    {
        match self {
            FieldType::FixedString => "char(40)",
            FieldType::FreeString => "varchar(254)",
            FieldType::Timestamp => "timestamp with time zone",
            FieldType::Unsigned(Width::Bits16) => "smallint",
            FieldType::Unsigned(Width::Bits32) => "integer",
            FieldType::Unsigned(Width::Bits64) => "bigint",
        }
    }
}

/// One named, typed field of a record.
#[derive(Clone, Copy, Debug)]
pub struct Field {
    pub name: &'static str,
    pub ty: FieldType,
}

/// The record fields in their fixed order, with counts of width `w`.
pub open spec fn commit_fields(w: Width) -> Seq<(Seq<char>, FieldType)> {
    seq![
        ("hash"@, FieldType::FixedString),
        ("author_date"@, FieldType::Timestamp),
        ("author_email"@, FieldType::FreeString),
        ("commit_date"@, FieldType::Timestamp),
        ("files_changed"@, FieldType::Unsigned(w)),
        ("insertions"@, FieldType::Unsigned(w)),
        ("deletions"@, FieldType::Unsigned(w)),
    ]
}

pub open spec fn names_of(fields: Seq<(Seq<char>, FieldType)>) -> Seq<Seq<char>> {
    fields.map_values(|f: (Seq<char>, FieldType)| f.0)
}

/// The longest field name.
pub open spec fn name_width(fields: Seq<(Seq<char>, FieldType)>) -> nat
    decreases fields.len(),
{
    if fields.len() == 0 {
        0
    } else {
        let w = name_width(fields.drop_last());
        if fields.last().0.len() > w { fields.last().0.len() } else { w }
    }
}

/// The longest SQL type name.
pub open spec fn type_width(fields: Seq<(Seq<char>, FieldType)>) -> nat
    decreases fields.len(),
{
    if fields.len() == 0 {
        0
    } else {
        let w = type_width(fields.drop_last());
        if sql_type(fields.last().1).len() > w { sql_type(fields.last().1).len() } else { w }
    }
}

/// `s` followed by spaces up to `w` characters.
pub open spec fn pad(s: Seq<char>, w: nat) -> Seq<char> {
    s + Seq::new((if w > s.len() { w - s.len() } else { 0 }) as nat, |i: int| ' ')
}

/// A column line of the table definition: two spaces, the name and the type
/// each padded one past the widest, then `primary key` for `hash`.
pub open spec fn column_line(f: (Seq<char>, FieldType), nw: nat, tw: nat) -> Seq<char> {
    "  "@ + pad(f.0, nw + 1) + pad(sql_type(f.1), tw + 1) + (if f.0 == "hash"@ {
        "primary key"@
    } else {
        Seq::empty()
    })
}

pub open spec fn column_lines(fields: Seq<(Seq<char>, FieldType)>) -> Seq<Seq<char>> {
    fields.map_values(|f: (Seq<char>, FieldType)| column_line(f, name_width(fields), type_width(fields)))
}

/// The table definition, created only if it does not exist yet.
pub open spec fn create_table(fields: Seq<(Seq<char>, FieldType)>, table: Seq<char>) -> Seq<char> {
    "create table if not exists "@ + table + " (\n"@ + join(column_lines(fields), ",\n"@) + "\n);"@
}

/// The ordered field list shared by every serializer.
pub struct Schema {
    fields: Vec<Field>,
}

impl Schema {
    #[verifier::type_invariant]
    spec fn inv(&self) -> bool {
        forall|i: int|
            0 <= i < self@.len() ==> #[trigger] self@[i].0.len() <= 64 && sql_type(self@[i].1).len() <= 64
    }

    pub closed spec fn view(&self) -> Seq<(Seq<char>, FieldType)> {
        self.fields@.map_values(|f: Field| (f.name@, f.ty))
    }

    /// The record's fields, with counts of width `width`.
    pub fn new(width: Width) -> (r: Schema)
        ensures
            r@ == commit_fields(width),
    {
        let fields = vec![
            Field { name: "hash", ty: FieldType::FixedString },
            Field { name: "author_date", ty: FieldType::Timestamp },
            Field { name: "author_email", ty: FieldType::FreeString },
            Field { name: "commit_date", ty: FieldType::Timestamp },
            Field { name: "files_changed", ty: FieldType::Unsigned(width) },
            Field { name: "insertions", ty: FieldType::Unsigned(width) },
            Field { name: "deletions", ty: FieldType::Unsigned(width) },
        ];
        proof {
            reveal_strlit("hash");
            reveal_strlit("author_date");
            reveal_strlit("author_email");
            reveal_strlit("commit_date");
            reveal_strlit("files_changed");
            reveal_strlit("insertions");
            reveal_strlit("deletions");
            reveal_strlit("char(40)");
            reveal_strlit("varchar(254)");
            reveal_strlit("timestamp with time zone");
            reveal_strlit("smallint");
            reveal_strlit("integer");
            reveal_strlit("bigint");
        }
        assert(fields@.map_values(|f: Field| (f.name@, f.ty)) =~= commit_fields(width));
        let r = Schema { fields };
        r
    }

    /// The fields in order.
    pub fn fields(&self) -> (r: &Vec<Field>)
        ensures
            r@.map_values(|f: Field| (f.name@, f.ty)) == self@,
    {
        &self.fields
    }

    /// The field names in order.
    pub fn field_names(&self) -> (r: Vec<&'static str>)
        ensures
            r@.map_values(|s: &'static str| s@) == names_of(self@),
    {
        let mut r: Vec<&'static str> = Vec::new();
        let mut i: usize = 0;
        while i < self.fields.len()
            invariant
                i <= self@.len(),
                self@ == self.fields@.map_values(|f: Field| (f.name@, f.ty)),
                r@.len() == i,
                forall|j: int| 0 <= j < i ==> (#[trigger] r@[j])@ == names_of(self@)[j],
            decreases self@.len() - i,
        {
            assert(names_of(self@)[i as int] == self.fields@[i as int].name@);
            r.push(self.fields[i].name);
            i = i + 1;
        }
        assert(r@.map_values(|s: &'static str| s@) =~= names_of(self@));
        r
    }

    /// The characters of each field name, in order.
    pub(crate) fn name_chars(&self) -> (r: Vec<Vec<char>>)
        ensures
            views(r@) == names_of(self@),
    {
        let mut r: Vec<Vec<char>> = Vec::new();
        let mut i: usize = 0;
        while i < self.fields.len()
            invariant
                i <= self@.len(),
                self@ == self.fields@.map_values(|f: Field| (f.name@, f.ty)),
                r@.len() == i,
                forall|j: int| 0 <= j < i ==> (#[trigger] r@[j])@ == names_of(self@)[j],
            decreases self@.len() - i,
        {
            assert(names_of(self@)[i as int] == self.fields@[i as int].name@);
            r.push(chars_of(self.fields[i].name));
            i = i + 1;
        }
        assert(views(r@) =~= names_of(self@));
        r
    }

    /// The statement that creates table `table_name` with this schema's
    /// columns, unless it exists already.
    pub fn script_create_table(&self, table_name: &str) -> (r: String)
        ensures
            r@ == create_table(self@, table_name@),
    {
        proof {
            use_type_invariant(self);
        }
        let n = self.fields.len();
        let ghost fs = self@;
        let mut nw: usize = 0;
        let mut tw: usize = 0;
        let mut i: usize = 0;
        while i < n
            invariant
                n == fs.len(),
                i <= n,
                fs == self.fields@.map_values(|f: Field| (f.name@, f.ty)),
                nw == name_width(fs.take(i as int)),
                tw == type_width(fs.take(i as int)),
                nw <= 64 && tw <= 64,
                forall|j: int| 0 <= j < fs.len() ==> #[trigger] fs[j].0.len() <= 64 && sql_type(fs[j].1).len() <= 64,
            decreases n - i,
        {
            let f = self.fields[i];
            assert(fs[i as int].0 == f.name@ && fs[i as int].1 == f.ty);
            let name_len = chars_of(f.name).len();
            let type_len = chars_of(f.ty.sql_name()).len();
            assert(fs.take(i + 1).drop_last() =~= fs.take(i as int));
            if name_len > nw {
                nw = name_len;
            }
            if type_len > tw {
                tw = type_len;
            }
            i = i + 1;
        }
        assert(fs.take(n as int) =~= fs);
        let mut lines: Vec<Vec<char>> = Vec::new();
        let mut k: usize = 0;
        while k < n
            invariant
                n == fs.len(),
                k <= n,
                fs == self.fields@.map_values(|f: Field| (f.name@, f.ty)),
                nw == name_width(fs),
                tw == type_width(fs),
                nw <= 64 && tw <= 64,
                lines@.len() == k,
                forall|j: int| 0 <= j < k ==> (#[trigger] lines@[j])@ == column_lines(fs)[j],
            decreases n - k,
        {
            let f = self.fields[k];
            assert(fs[k as int].0 == f.name@ && fs[k as int].1 == f.ty);
            let mut line: Vec<char> = Vec::new();
            push_str(&mut line, "  ");
            push_padded(&mut line, f.name, nw + 1);
            push_padded(&mut line, f.ty.sql_name(), tw + 1);
            if crate::text::same_chars(&chars_of(f.name), &chars_of("hash")) {
                push_str(&mut line, "primary key");
            }
            assert(line@ =~= column_line(fs[k as int], nw as nat, tw as nat));
            lines.push(line);
            k = k + 1;
        }
        assert(views(lines@) =~= column_lines(fs));
        let mut out: Vec<char> = Vec::new();
        push_str(&mut out, "create table if not exists ");
        push_str(&mut out, table_name);
        push_str(&mut out, " (\n");
        let body = join_chars(&lines, &chars_of(",\n"));
        append(&mut out, &body);
        push_str(&mut out, "\n);");
        assert(out@ =~= create_table(fs, table_name@));
        crate::text::string_from_chars(&out)
    }
}

/// Appends `s`, then spaces up to `w` characters.
fn push_padded(out: &mut Vec<char>, s: &str, w: usize)
    ensures
        final(out)@ == old(out)@ + pad(s@, w as nat),
{
    let v = chars_of(s);
    append(out, &v);
    let mut k: usize = v.len();
    while k < w
        invariant
            v@ == s@,
            v@.len() <= k,
            k <= w || k == v@.len(),
            out@ == old(out)@ + s@ + Seq::new((k - v@.len()) as nat, |i: int| ' '),
        decreases w - k,
    {
        out.push(' ');
        k = k + 1;
        assert(Seq::new((k - v@.len()) as nat, |i: int| ' ') =~= Seq::new((k - 1 - v@.len()) as nat, |i: int| ' ').push(' '));
    }
    assert(Seq::new((k - v@.len()) as nat, |i: int| ' ') =~= Seq::new((if w > s@.len() { w - s@.len() } else { 0 }) as nat, |i: int| ' '));
}

} // verus!
