use vstd::prelude::*;

use crate::diffstat::{digits_end, digits_to_count, digits_value, lemma_digits_end_bounds, occurs_at};
use crate::json::{escape, escape_char, hex_digit, json_string};
use crate::record::{Commit, CommitModel};
use crate::text::{chars_of, decimal, digit_char};
use crate::timestamp::{is_digit, is_timestamp, Timestamp};

verus! {

/// The value of a hexadecimal digit.
pub open spec fn hex_value(c: char) -> Option<nat> {
    if '0' <= c <= '9' {
        Some((c as nat - '0' as nat) as nat)
    } else if 'a' <= c <= 'f' {
        Some((c as nat - 'a' as nat + 10) as nat)
    } else if 'A' <= c <= 'F' {
        Some((c as nat - 'A' as nat + 10) as nat)
    } else {
        None
    }
}

/// The character that a backslash followed by `c` stands for, for the
/// two-character escapes.
pub open spec fn unescaped(c: char) -> Option<char> {
    if c == '"' {
        Some('"')
    } else if c == '\\' {
        Some('\\')
    } else if c == '/' {
        Some('/')
    } else if c == 'b' {
        Some('\u{8}')
    } else if c == 't' {
        Some('\t')
    } else if c == 'n' {
        Some('\n')
    } else if c == 'f' {
        Some('\u{c}')
    } else if c == 'r' {
        Some('\r')
    } else {
        None
    }
}

/// `acc` put before the text of a read, if the read succeeded.
pub open spec fn prepend(acc: Seq<char>, o: Option<(Seq<char>, int)>) -> Option<(Seq<char>, int)> {
    match o {
        Some((r, e)) => Some((acc + r, e)),
        None => None,
    }
}

/// Reads the contents of a JSON string literal from `i` up to its closing
/// quotation mark: the characters it stands for, and where the mark is.
/// Escapes are the two-character ones and `\u00XX`.
pub open spec fn unescape_from(s: Seq<char>, i: int) -> Option<(Seq<char>, int)>
    decreases s.len() - i,
{
    if i < 0 || i >= s.len() {
        None
    } else if s[i] == '"' {
        Some((Seq::empty(), i))
    } else if s[i] == '\\' {
        if i + 5 < s.len() && s[i + 1] == 'u' && s[i + 2] == '0' && s[i + 3] == '0' && hex_value(
            s[i + 4],
        ) is Some && hex_value(s[i + 5]) is Some {
            prepend(
                seq![(16 * hex_value(s[i + 4])->0 + hex_value(s[i + 5])->0) as char],
                unescape_from(s, i + 6),
            )
        } else if i + 1 < s.len() && unescaped(s[i + 1]) is Some {
            prepend(seq![unescaped(s[i + 1])->0], unescape_from(s, i + 2))
        } else {
            None
        }
    } else {
        prepend(seq![s[i]], unescape_from(s, i + 1))
    }
}

/// After `key` at `p`, a JSON string literal: the characters it stands for
/// and the position after it.
#[verifier::opaque]
pub open spec fn string_member(s: Seq<char>, p: int, key: Seq<char>) -> Option<(Seq<char>, int)> {
    let q = p + key.len();
    if occurs_at(s, p, key) && q < s.len() && s[q] == '"' {
        match unescape_from(s, q + 1) {
            Some((v, e)) => Some((v, e + 1)),
            None => None,
        }
    } else {
        None
    }
}

/// After `key` at `p`, a decimal number: its value and the position after it.
#[verifier::opaque]
pub open spec fn number_member(s: Seq<char>, p: int, key: Seq<char>) -> Option<(int, int)> {
    let q = p + key.len();
    if occurs_at(s, p, key) && q < s.len() && is_digit(s[q]) {
        Some((digits_value(s.subrange(q, digits_end(s, q))), digits_end(s, q)))
    } else {
        None
    }
}

/// Reads back a JSON object in the layout that the JSON serializer writes,
/// with string values that hold no escape; both timestamps must follow the
/// grammar and the counts must fit 64 bits.
pub open spec fn decode_json(s: Seq<char>) -> Option<CommitModel> {
    match string_member(s, 0, "{\"hash\":"@) {
        None => None,
        Some((hash, at1)) => match string_member(s, at1, ",\"author_date\":"@) {
            None => None,
            Some((author_date, at2)) => match string_member(s, at2, ",\"author_email\":"@) {
                None => None,
                Some((author_email, at3)) => match string_member(s, at3, ",\"commit_date\":"@) {
                    None => None,
                    Some((commit_date, at4)) => match number_member(s, at4, ",\"files_changed\":"@) {
                        None => None,
                        Some((files_changed, at5)) => match number_member(s, at5, ",\"insertions\":"@) {
                            None => None,
                            Some((insertions, at6)) => match number_member(s, at6, ",\"deletions\":"@) {
                                None => None,
                                Some((deletions, at7)) => {
                                    if at7 + 1 == s.len() && s[at7] == '}' && is_timestamp(author_date)
                                        && is_timestamp(commit_date) && files_changed <= u64::MAX
                                        && insertions <= u64::MAX && deletions <= u64::MAX {
                                        Some(
                                            CommitModel {
                                                hash,
                                                author_date,
                                                author_email,
                                                commit_date,
                                                files_changed,
                                                insertions,
                                                deletions,
                                            },
                                        )
                                    } else {
                                        None
                                    }
                                },
                            },
                        },
                    },
                },
            },
        },
    }
}

proof fn lemma_decimal(n: nat)
    ensures
        decimal(n).len() >= 1,
        forall|i: int| 0 <= i < decimal(n).len() ==> is_digit(#[trigger] decimal(n)[i]),
        digits_value(decimal(n)) == n,
    decreases n,
{
    if n >= 10 {
        lemma_decimal(n / 10);
        assert(decimal(n).drop_last() =~= decimal(n / 10));
        assert(crate::timestamp::digit_value(digit_char(n % 10)) == n % 10);
        assert((n / 10) * 10 + n % 10 == n);
        assert(decimal(n).last() == digit_char(n % 10));
    } else {
        assert(decimal(n).drop_last() =~= Seq::<char>::empty());
        assert(crate::timestamp::digit_value(digit_char(n)) == n);
        assert(decimal(n).last() == digit_char(n));
        assert(digits_value(Seq::<char>::empty()) == 0);
    }
}

proof fn lemma_digits_end_run(s: Seq<char>, i: int, e: int)
    requires
        0 <= i <= e < s.len(),
        !is_digit(s[e]),
        forall|k: int| i <= k < e ==> is_digit(#[trigger] s[k]),
    ensures
        digits_end(s, i) == e,
    decreases e - i,
{
    if i < e {
        lemma_digits_end_run(s, i + 1, e);
    }
}

proof fn lemma_escape_append(a: Seq<char>, b: Seq<char>)
    ensures
        escape(a + b) == escape(a) + escape(b),
    decreases b.len(),
{
    if b.len() == 0 {
        assert(a + b =~= a);
        assert(escape(a) + escape(b) =~= escape(a));
    } else {
        lemma_escape_append(a, b.drop_last());
        assert((a + b).drop_last() =~= a + b.drop_last());
        assert((a + b).last() == b.last());
        assert(escape(a) + escape(b.drop_last()) + escape_char(b.last()) =~= escape(a) + (escape(b.drop_last())
            + escape_char(b.last())));
    }
}

proof fn lemma_hex(n: nat)
    requires
        n < 16,
    ensures
        hex_value(hex_digit(n)) == Some(n),
{
}

proof fn lemma_unescape_char(s: Seq<char>, i: int, c: char)
    requires
        0 <= i,
        i + escape_char(c).len() <= s.len(),
        s.subrange(i, i + escape_char(c).len()) == escape_char(c),
    ensures
        unescape_from(s, i) == prepend(seq![c], unescape_from(s, i + escape_char(c).len())),
{
    let k = escape_char(c).len() as int;
    let e = escape_char(c);
    assert(s[i] == e[0]) by {
        assert(s.subrange(i, i + k)[0] == s[i]);
    }
    if k >= 2 {
        assert(s[i + 1] == e[1]) by {
            assert(s.subrange(i, i + k)[1] == s[i + 1]);
        }
    }
    if k >= 6 {
        assert(s[i + 2] == e[2]) by {
            assert(s.subrange(i, i + k)[2] == s[i + 2]);
        }
        assert(s[i + 3] == e[3]) by {
            assert(s.subrange(i, i + k)[3] == s[i + 3]);
        }
        assert(s[i + 4] == e[4]) by {
            assert(s.subrange(i, i + k)[4] == s[i + 4]);
        }
        assert(s[i + 5] == e[5]) by {
            assert(s.subrange(i, i + k)[5] == s[i + 5]);
        }
    }
    if c == '"' || c == '\\' || c == '\u{8}' || c == '\t' || c == '\n' || c == '\u{c}' || c == '\r' {
        assert(s[i] == '\\');
    } else if ' ' > c {
        let n = c as nat;
        lemma_hex(n / 16);
        lemma_hex(n % 16);
        assert(16 * (n / 16) + n % 16 == n);
        assert(s[i + 4] == hex_digit(n / 16));
        assert(s[i + 5] == hex_digit(n % 16));
        assert((n as char) == c);
    } else {
        assert(s[i] == c);
    }
}

proof fn lemma_unescape_escape(s: Seq<char>, i: int, x: Seq<char>)
    requires
        0 <= i,
        i + escape(x).len() < s.len(),
        s.subrange(i, i + escape(x).len()) == escape(x),
        s[i + escape(x).len()] == '"',
    ensures
        unescape_from(s, i) == Some((x, i + escape(x).len())),
    decreases x.len(),
{
    if x.len() == 0 {
        assert(x =~= Seq::<char>::empty());
    } else {
        let x0 = x[0];
        let rest = x.drop_first();
        assert(x =~= seq![x0] + rest);
        lemma_escape_append(seq![x0], rest);
        assert(seq![x0].drop_last() =~= Seq::<char>::empty());
        assert(escape(Seq::<char>::empty()) == Seq::<char>::empty());
        assert(seq![x0].last() == x0);
        assert(escape(seq![x0]) =~= escape_char(x0));
        let k = escape_char(x0).len() as int;
        let whole = s.subrange(i, i + escape(x).len());
        assert(escape(x) == escape_char(x0) + escape(rest));
        assert(whole.subrange(0, k) =~= escape_char(x0));
        assert(whole.subrange(k, k + escape(rest).len()) =~= escape(rest));
        assert(s.subrange(i, i + k) =~= whole.subrange(0, k));
        assert(s.subrange(i + k, i + k + escape(rest).len()) =~= whole.subrange(k, k + escape(rest).len()));
        lemma_unescape_char(s, i, x0);
        lemma_unescape_escape(s, i + k, rest);
        assert(seq![x0] + rest =~= x);
    }
}

proof fn lemma_string_member(pre: Seq<char>, key: Seq<char>, x: Seq<char>, post: Seq<char>)
    ensures
        string_member(pre + key + json_string(x) + post, pre.len() as int, key) == Some(
            (x, (pre.len() + key.len() + json_string(x).len()) as int),
        ),
{
    reveal(string_member);
    let s = pre + key + json_string(x) + post;
    let q: int = (pre.len() + key.len()) as int;
    let n = escape(x).len() as int;
    assert(s.subrange(pre.len() as int, q) =~= key);
    assert(s[q] == '"');
    assert(s.subrange(q + 1, q + 1 + n) =~= escape(x));
    assert(s[q + 1 + n] == '"');
    lemma_unescape_escape(s, q + 1, x);
}

proof fn lemma_number_member(pre: Seq<char>, key: Seq<char>, n: nat, post: Seq<char>)
    requires
        post.len() > 0,
        !is_digit(post[0]),
    ensures
        number_member(pre + key + decimal(n) + post, pre.len() as int, key) == Some(
            (n as int, (pre.len() + key.len() + decimal(n).len()) as int),
        ),
{
    reveal(number_member);
    let s = pre + key + decimal(n) + post;
    let q: int = (pre.len() + key.len()) as int;
    let d = decimal(n);
    lemma_decimal(n);
    assert(s.subrange(pre.len() as int, q) =~= key);
    assert(s[q] == d[0]);
    assert forall|k: int| q <= k < q + d.len() as int implies is_digit(#[trigger] s[k]) by {
        assert(s[k] == d[k - q]);
    }
    assert(s[q + d.len() as int] == post[0]);
    lemma_digits_end_run(s, q, q + d.len() as int);
    assert(s.subrange(q, q + d.len() as int) =~= d);
}

/// Reading back the JSON object of a commit gives the commit.
pub proof fn lemma_decode_json(c: CommitModel)
    requires
        is_timestamp(c.author_date),
        is_timestamp(c.commit_date),
        0 <= c.files_changed <= u64::MAX,
        0 <= c.insertions <= u64::MAX,
        0 <= c.deletions <= u64::MAX,
    ensures
        decode_json(crate::json::json_of(c)) == Some(c),
{
    let k0 = "{\"hash\":"@;
    let k1 = ",\"author_date\":"@;
    let k2 = ",\"author_email\":"@;
    let k3 = ",\"commit_date\":"@;
    let k4 = ",\"files_changed\":"@;
    let k5 = ",\"insertions\":"@;
    let k6 = ",\"deletions\":"@;
    let close = "}"@;
    reveal_strlit(",\"insertions\":");
    reveal_strlit(",\"deletions\":");
    reveal_strlit("}");
    let f = c.files_changed as nat;
    let i = c.insertions as nat;
    let d = c.deletions as nat;
    let s = crate::json::json_of(c);
    let a1 = k0 + json_string(c.hash);
    let a2 = a1 + k1 + json_string(c.author_date);
    let a3 = a2 + k2 + json_string(c.author_email);
    let a4 = a3 + k3 + json_string(c.commit_date);
    let a5 = a4 + k4 + decimal(f);
    let a6 = a5 + k5 + decimal(i);
    let a7 = a6 + k6 + decimal(d);
    let r7 = close;
    let r6 = k6 + decimal(d) + r7;
    let r5 = k5 + decimal(i) + r6;
    let r4 = k4 + decimal(f) + r5;
    let r3 = k3 + json_string(c.commit_date) + r4;
    let r2 = k2 + json_string(c.author_email) + r3;
    let r1 = k1 + json_string(c.author_date) + r2;
    assert(s == a7 + r7);
    lemma_number_member(a6, k6, d, r7);
    lemma_regroup(a6, k6, decimal(d), r7);
    lemma_number_member(a5, k5, i, r6);
    lemma_regroup(a5, k5, decimal(i), r6);
    lemma_number_member(a4, k4, f, r5);
    lemma_regroup(a4, k4, decimal(f), r5);
    lemma_string_member(a3, k3, c.commit_date, r4);
    lemma_regroup(a3, k3, json_string(c.commit_date), r4);
    lemma_string_member(a2, k2, c.author_email, r3);
    lemma_regroup(a2, k2, json_string(c.author_email), r3);
    lemma_string_member(a1, k1, c.author_date, r2);
    lemma_regroup(a1, k1, json_string(c.author_date), r2);
    assert(Seq::<char>::empty() + k0 =~= k0);
    lemma_string_member(Seq::<char>::empty(), k0, c.hash, r1);
    assert(s[a7.len() as int] == '}');
}

/// `x + a + b + r`, regrouped.
proof fn lemma_regroup(x: Seq<char>, a: Seq<char>, b: Seq<char>, r: Seq<char>)
    ensures
        x + a + b + r == x + (a + b + r),
{
    assert(x + a + b + r =~= x + (a + b + r));
}

proof fn lemma_prepend(acc: Seq<char>, more: Seq<char>, o: Option<(Seq<char>, int)>)
    ensures
        prepend(acc, prepend(more, o)) == prepend(acc + more, o),
{
    if let Some((r, e)) = o {
        assert(acc + (more + r) =~= acc + more + r);
    }
}

proof fn lemma_unescape_bounds(s: Seq<char>, i: int)
    ensures
        unescape_from(s, i) matches Some((_, e)) ==> i <= e < s.len(),
    decreases s.len() - i,
{
    if 0 <= i < s.len() && s[i] != '"' {
        lemma_unescape_bounds(s, i + 1);
        if i + 2 <= s.len() {
            lemma_unescape_bounds(s, i + 2);
        }
        if i + 6 <= s.len() {
            lemma_unescape_bounds(s, i + 6);
        }
    }
}

fn hex_value_exec(c: char) -> (r: Option<u32>)
    ensures
        match hex_value(c) {
            Some(v) => r == Some(v as u32),
            None => r is None,
        },
{
    if '0' <= c && c <= '9' {
        Some((c as u32) - ('0' as u32))
    } else if 'a' <= c && c <= 'f' {
        Some((c as u32) - ('a' as u32) + 10)
    } else if 'A' <= c && c <= 'F' {
        Some((c as u32) - ('A' as u32) + 10)
    } else {
        None
    }
}

fn unescaped_exec(c: char) -> (r: Option<char>)
    ensures
        r == unescaped(c),
{
    if c == '"' {
        Some('"')
    } else if c == '\\' {
        Some('\\')
    } else if c == '/' {
        Some('/')
    } else if c == 'b' {
        Some('\u{8}')
    } else if c == 't' {
        Some('\t')
    } else if c == 'n' {
        Some('\n')
    } else if c == 'f' {
        Some('\u{c}')
    } else if c == 'r' {
        Some('\r')
    } else {
        None
    }
}

/// Reads the contents of a string literal from `i`, as `unescape_from`.
fn read_string_body(s: &Vec<char>, i: usize) -> (r: Option<(Vec<char>, usize)>)
    ensures
        match unescape_from(s@, i as int) {
            Some((v, e)) => r matches Some((rv, re)) && rv@ == v && re == e,
            None => r is None,
        },
{
    let mut acc: Vec<char> = Vec::new();
    let mut j = i;
    assert(acc@ + Seq::<char>::empty() =~= Seq::<char>::empty());
    proof {
        lemma_prepend(Seq::<char>::empty(), Seq::<char>::empty(), unescape_from(s@, i as int));
        if let Some((v, e)) = unescape_from(s@, i as int) {
            assert(Seq::<char>::empty() + v =~= v);
        }
    }
    loop
        invariant
            unescape_from(s@, i as int) == prepend(acc@, unescape_from(s@, j as int)),
        decreases s@.len() - j,
    {
        if j >= s.len() {
            return None;
        }
        let c = s[j];
        if c == '"' {
            assert(acc@ + Seq::<char>::empty() =~= acc@);
            return Some((acc, j));
        }
        let ghost before = acc@;
        if c == '\\' {
            if s.len() - j > 5 && s[j + 1] == 'u' && s[j + 2] == '0' && s[j + 3] == '0' {
                match (hex_value_exec(s[j + 4]), hex_value_exec(s[j + 5])) {
                    (Some(h), Some(l)) => {
                        let v: u32 = 16 * h + l;
                        let ch = (v as u8) as char;
                        assert(ch == (16 * hex_value(s@[j + 4])->0 + hex_value(s@[j + 5])->0) as char);
                        acc.push(ch);
                        proof {
                            lemma_prepend(before, seq![ch], unescape_from(s@, j + 6));
                            assert(before + seq![ch] =~= acc@);
                        }
                        j = j + 6;
                        continue;
                    },
                    _ => {},
                }
            }
            if s.len() - j > 1 {
                match unescaped_exec(s[j + 1]) {
                    Some(u) => {
                        acc.push(u);
                        proof {
                            lemma_prepend(before, seq![u], unescape_from(s@, j + 2));
                            assert(before + seq![u] =~= acc@);
                        }
                        j = j + 2;
                        continue;
                    },
                    None => {},
                }
            }
            return None;
        }
        acc.push(c);
        proof {
            lemma_prepend(before, seq![c], unescape_from(s@, j + 1));
            assert(before + seq![c] =~= acc@);
        }
        j = j + 1;
    }
}

fn occurs(s: &Vec<char>, p: usize, key: &str) -> (r: bool)
    ensures
        r == occurs_at(s@, p as int, key@),
{
    let k = chars_of(key);
    if p > s.len() || k.len() > s.len() - p {
        return false;
    }
    let mut i: usize = 0;
    while i < k.len()
        invariant
            k@ == key@,
            s@.len() <= usize::MAX,
            p + k@.len() <= s@.len(),
            i <= k@.len(),
            s@.subrange(p as int, p + i) == k@.subrange(0, i as int),
        decreases k@.len() - i,
    {
        if s[p + i] != k[i] {
            assert(s@.subrange(p as int, p + k@.len())[i as int] != k@[i as int]);
            return false;
        }
        i = i + 1;
        assert(s@.subrange(p as int, p + i) =~= k@.subrange(0, i as int));
    }
    assert(k@.subrange(0, i as int) =~= k@);
    true
}

fn read_string_member(s: &Vec<char>, p: usize, key: &str) -> (r: Option<(Vec<char>, usize)>)
    requires
        p <= s@.len(),
    ensures
        match string_member(s@, p as int, key@) {
            Some((v, q)) => r matches Some((rv, rq)) && rv@ == v && rq == q,
            None => r is None,
        },
        r matches Some((_, rq)) ==> rq <= s@.len(),
{
    reveal(string_member);
    if !occurs(s, p, key) {
        return None;
    }
    let klen = chars_of(key).len();
    if klen > s.len() - p {
        return None;
    }
    let q = p + klen;
    if q >= s.len() || s[q] != '"' {
        return None;
    }
    let (v, e) = read_string_body(s, q + 1)?;
    proof {
        lemma_unescape_bounds(s@, q + 1);
    }
    Some((v, e + 1))
}

fn read_number_member(s: &Vec<char>, p: usize, key: &str) -> (r: Option<(Option<u64>, usize)>)
    requires
        p <= s@.len(),
    ensures
        match number_member(s@, p as int, key@) {
            Some((n, q)) => r matches Some((rn, rq)) && rq == q && (n <= u64::MAX <==> rn is Some) && (
            rn matches Some(m) ==> m == n),
            None => r is None,
        },
        r matches Some((_, rq)) ==> rq <= s@.len(),
{
    reveal(number_member);
    if !occurs(s, p, key) {
        return None;
    }
    let klen = chars_of(key).len();
    if klen > s.len() - p {
        return None;
    }
    let q = p + klen;
    if q >= s.len() || !('0' <= s[q] && s[q] <= '9') {
        return None;
    }
    proof {
        lemma_digits_end_bounds(s@, q as int);
    }
    let mut e = q;
    while e < s.len() && '0' <= s[e] && s[e] <= '9'
        invariant
            q <= e <= s@.len(),
            digits_end(s@, e as int) == digits_end(s@, q as int),
        decreases s@.len() - e,
    {
        e = e + 1;
    }
    let n = digits_to_count(s, q, e, 0xffff_ffff_ffff_ffff);
    Some((n, e))
}

/// Reads back one JSON object in the layout that `to_json` writes, as long
/// as its string values hold no escapes; `None` for anything else.
pub fn from_json(line: &str) -> (r: Option<Commit>)
    ensures
        match decode_json(line@) {
            Some(m) => r matches Some(c) && c@ == m,
            None => r is None,
        },
{
    let s = chars_of(line);
    let (hash, at1) = read_string_member(&s, 0, "{\"hash\":")?;
    let (author_date, at2) = read_string_member(&s, at1, ",\"author_date\":")?;
    let (author_email, at3) = read_string_member(&s, at2, ",\"author_email\":")?;
    let (commit_date, at4) = read_string_member(&s, at3, ",\"commit_date\":")?;
    let (files_changed, at5) = read_number_member(&s, at4, ",\"files_changed\":")?;
    let (insertions, at6) = read_number_member(&s, at5, ",\"insertions\":")?;
    let (deletions, at7) = read_number_member(&s, at6, ",\"deletions\":")?;
    if at7 >= s.len() || at7 + 1 != s.len() || s[at7] != '}' {
        return None;
    }
    let author_date = match Timestamp::from_chars(&author_date) {
        Ok(t) => t,
        Err(_) => return None,
    };
    let commit_date = match Timestamp::from_chars(&commit_date) {
        Ok(t) => t,
        Err(_) => return None,
    };
    Some(
        Commit {
            hash: crate::text::string_from_chars(&hash),
            author_date,
            author_email: crate::text::string_from_chars(&author_email),
            commit_date,
            files_changed: files_changed?,
            insertions: insertions?,
            deletions: deletions?,
        },
    )
}

} // verus!
