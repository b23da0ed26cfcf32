use vstd::prelude::*;

use crate::diffstat::{count_digits, count_of, extract_count, Quantity};
use crate::error::{ErrorKind, ParseError};
use crate::timestamp::{is_timestamp, Timestamp};
use crate::width::{max_count, Width};

verus! {

/// Unicode `White_Space`, the characters that `trim` removes.
pub open spec fn is_space(c: char) -> bool {
    ||| c == ' '
    ||| '\t' <= c <= '\r'
    ||| c == '\u{85}' || c == '\u{a0}' || c == '\u{1680}'
    ||| '\u{2000}' <= c <= '\u{200a}'
    ||| c == '\u{2028}' || c == '\u{2029}' || c == '\u{202f}' || c == '\u{205f}'
    ||| c == '\u{3000}'
}

/// The first position at or after `i` that holds no white space.
pub open spec fn skip_space(t: Seq<char>, i: int) -> int
    decreases t.len() - i,
{
    if 0 <= i < t.len() && is_space(t[i]) {
        skip_space(t, i + 1)
    } else {
        i
    }
}

/// The end of `t[..j]` once trailing white space is removed.
pub open spec fn skip_space_back(t: Seq<char>, j: int) -> int
    decreases j,
{
    if 0 < j <= t.len() && is_space(t[j - 1]) {
        skip_space_back(t, j - 1)
    } else {
        j
    }
}

/// `t` without leading and trailing white space.
pub open spec fn trim(t: Seq<char>) -> Seq<char> {
    let a = skip_space(t, 0);
    let b = skip_space_back(t, t.len() as int);
    if a < b {
        t.subrange(a, b)
    } else {
        Seq::empty()
    }
}

/// Record tokens are separated by a space or a line feed.
pub open spec fn is_separator(c: char) -> bool {
    c == ' ' || c == '\n'
}

/// The first separator at or after `i`, or the end of `s`.
pub open spec fn separator_from(s: Seq<char>, i: int) -> int
    decreases s.len() - i,
{
    if 0 <= i < s.len() && !is_separator(s[i]) {
        separator_from(s, i + 1)
    } else {
        i
    }
}

/// Where token `k` of `s` starts, if `s` has that many tokens.
pub open spec fn token_start(s: Seq<char>, k: nat) -> Option<int>
    decreases k,
{
    if k == 0 {
        Some(0)
    } else {
        match token_start(s, (k - 1) as nat) {
            Some(p) => if separator_from(s, p) < s.len() {
                Some(separator_from(s, p) + 1)
            } else {
                None
            },
            None => None,
        }
    }
}

/// Token `k` of a record cut into at most five pieces: the first four end at
/// a separator, the fifth holds the rest. A missing token is empty.
pub open spec fn token(s: Seq<char>, k: nat) -> Seq<char> {
    match token_start(s, k) {
        Some(p) => s.subrange(p, if k >= 4 { s.len() as int } else { separator_from(s, p) }),
        None => Seq::empty(),
    }
}

/// What a record holds once parsed.
pub ghost struct CommitModel {
    pub hash: Seq<char>,
    pub author_date: Seq<char>,
    pub author_email: Seq<char>,
    pub commit_date: Seq<char>,
    pub files_changed: int,
    pub insertions: int,
    pub deletions: int,
}

/// The result of parsing record `s` with counts of width `w`: the hash must
/// be forty characters, both timestamps must follow the grammar, and each
/// count must fit `w`; the first failure in that order is reported.
pub open spec fn parse_record(s: Seq<char>, w: Width) -> Result<CommitModel, (ErrorKind, Seq<char>)> {
    let hash = trim(token(s, 0));
    let author_date = trim(token(s, 1));
    let author_email = trim(token(s, 2));
    let commit_date = trim(token(s, 3));
    let trailer = token(s, 4);
    if hash.len() != 40 {
        Err((ErrorKind::InvalidHash, hash))
    } else if !is_timestamp(author_date) {
        Err((ErrorKind::InvalidTimestamp, author_date))
    } else if !is_timestamp(commit_date) {
        Err((ErrorKind::InvalidTimestamp, commit_date))
    } else if count_of(trailer, Quantity::FilesChanged) > max_count(w) {
        Err((ErrorKind::NumericOverflow, count_digits(trailer, Quantity::FilesChanged)))
    } else if count_of(trailer, Quantity::Insertions) > max_count(w) {
        Err((ErrorKind::NumericOverflow, count_digits(trailer, Quantity::Insertions)))
    } else if count_of(trailer, Quantity::Deletions) > max_count(w) {
        Err((ErrorKind::NumericOverflow, count_digits(trailer, Quantity::Deletions)))
    } else {
        Ok(
            CommitModel {
                hash,
                author_date,
                author_email,
                commit_date,
                files_changed: count_of(trailer, Quantity::FilesChanged),
                insertions: count_of(trailer, Quantity::Insertions),
                deletions: count_of(trailer, Quantity::Deletions),
            },
        )
    }
}

/// One parsed history entry.
#[derive(Clone, Debug)]
pub struct Commit {
    pub hash: String,
    pub author_date: Timestamp,
    pub author_email: String,
    pub commit_date: Timestamp,
    pub files_changed: u64,
    pub insertions: u64,
    pub deletions: u64,
}

impl Commit {
    pub open spec fn view(&self) -> CommitModel {
        CommitModel {
            hash: self.hash@,
            author_date: self.author_date@,
            author_email: self.author_email@,
            commit_date: self.commit_date@,
            files_changed: self.files_changed as int,
            insertions: self.insertions as int,
            deletions: self.deletions as int,
        }
    }

    /// Parses one record: hash, author timestamp, author email and committer
    /// timestamp, then an optional diffstat trailer.
    pub fn parse(record: &str, width: Width) -> (r: Result<Commit, ParseError>)
        ensures
            outcome(r) == parse_record(record@, width),
    {
        let v = crate::text::chars_of(record);
        parse_chars(&v, width)
    }
}

pub open spec fn outcome(r: Result<Commit, ParseError>) -> Result<CommitModel, (ErrorKind, Seq<char>)> {
    match r {
        Ok(c) => Ok(c@),
        Err(e) => Err(e@),
    }
}

pub proof fn lemma_skip_space_bounds(t: Seq<char>, i: int)
    requires
        0 <= i <= t.len(),
    ensures
        i <= skip_space(t, i) <= t.len(),
    decreases t.len() - i,
{
    if i < t.len() && is_space(t[i]) {
        lemma_skip_space_bounds(t, i + 1);
    }
}

pub proof fn lemma_skip_space_back_bounds(t: Seq<char>, j: int)
    requires
        0 <= j <= t.len(),
    ensures
        0 <= skip_space_back(t, j) <= j,
    decreases j,
{
    if 0 < j && is_space(t[j - 1]) {
        lemma_skip_space_back_bounds(t, j - 1);
    }
}

pub proof fn lemma_separator_bounds(s: Seq<char>, i: int)
    requires
        0 <= i <= s.len(),
    ensures
        i <= separator_from(s, i) <= s.len(),
    decreases s.len() - i,
{
    if i < s.len() && !is_separator(s[i]) {
        lemma_separator_bounds(s, i + 1);
    }
}

fn is_space_exec(c: char) -> (r: bool)
    ensures
        r == is_space(c),
{
    c == ' ' || ('\t' <= c && c <= '\r') || c == '\u{85}' || c == '\u{a0}' || c == '\u{1680}'
        || ('\u{2000}' <= c && c <= '\u{200a}') || c == '\u{2028}' || c == '\u{2029}'
        || c == '\u{202f}' || c == '\u{205f}' || c == '\u{3000}'
}

/// The characters `s[a..b]`.
fn slice_chars(s: &Vec<char>, a: usize, b: usize) -> (r: Vec<char>)
    requires
        a <= b <= s@.len(),
    ensures
        r@ == s@.subrange(a as int, b as int),
{
    let mut r: Vec<char> = Vec::new();
    let mut i = a;
    while i < b
        invariant
            a <= i <= b <= s@.len(),
            r@ == s@.subrange(a as int, i as int),
        decreases b - i,
    {
        r.push(s[i]);
        i = i + 1;
        assert(r@ =~= s@.subrange(a as int, i as int));
    }
    r
}

/// `t` without leading and trailing white space.
pub fn trim_chars(t: &Vec<char>) -> (r: Vec<char>)
    ensures
        r@ == trim(t@),
{
    let mut a: usize = 0;
    while a < t.len() && is_space_exec(t[a])
        invariant
            a <= t@.len(),
            skip_space(t@, a as int) == skip_space(t@, 0),
        decreases t@.len() - a,
    {
        a = a + 1;
    }
    let mut b: usize = t.len();
    while b > 0 && is_space_exec(t[b - 1])
        invariant
            b <= t@.len(),
            skip_space_back(t@, b as int) == skip_space_back(t@, t@.len() as int),
        decreases b,
    {
        b = b - 1;
    }
    if a < b {
        slice_chars(t, a, b)
    } else {
        Vec::new()
    }
}

fn separator_index(s: &Vec<char>, i: usize) -> (r: usize)
    requires
        i <= s@.len(),
    ensures
        r == separator_from(s@, i as int),
        i <= r <= s@.len(),
{
    proof {
        lemma_separator_bounds(s@, i as int);
    }
    let mut j = i;
    while j < s.len() && s[j] != ' ' && s[j] != '\n'
        invariant
            i <= j <= s@.len(),
            separator_from(s@, j as int) == separator_from(s@, i as int),
        decreases s@.len() - j,
    {
        j = j + 1;
    }
    j
}

/// The token that starts at `start` (running to the end when `last`), and
/// where the next one starts.
fn token_at(s: &Vec<char>, start: Option<usize>, last: bool) -> (r: (Vec<char>, Option<usize>))
    requires
        start matches Some(p) ==> p <= s@.len(),
    ensures
        start is None ==> r.0@ == Seq::<char>::empty() && r.1 is None,
        start matches Some(p) ==> {
            &&& r.0@ == s@.subrange(p as int, if last { s@.len() as int } else { separator_from(s@, p as int) })
            &&& (r.1 is Some <==> separator_from(s@, p as int) < s@.len())
            &&& r.1 matches Some(q) ==> q == separator_from(s@, p as int) + 1
        },
        r.1 matches Some(q) ==> q <= s@.len(),
{
    match start {
        None => (Vec::new(), None),
        Some(p) => {
            let e = separator_index(s, p);
            let t = if last { slice_chars(s, p, s.len()) } else { slice_chars(s, p, e) };
            if e < s.len() {
                (t, Some(e + 1))
            } else {
                (t, None)
            }
        },
    }
}

spec fn starts_at(p: Option<usize>) -> Option<int> {
    match p {
        Some(q) => Some(q as int),
        None => None,
    }
}

/// As `Commit::parse`, on the characters of a record.
pub fn parse_chars(s: &Vec<char>, width: Width) -> (r: Result<Commit, ParseError>)
    ensures
        outcome(r) == parse_record(s@, width),
{
    reveal_with_fuel(token_start, 5);
    let (t0, st1) = token_at(s, Some(0), false);
    assert(token_start(s@, 1) == starts_at(st1));
    let (t1, st2) = token_at(s, st1, false);
    assert(token_start(s@, 2) == starts_at(st2));
    let (t2, st3) = token_at(s, st2, false);
    assert(token_start(s@, 3) == starts_at(st3));
    let (t3, st4) = token_at(s, st3, false);
    assert(token_start(s@, 4) == starts_at(st4));
    let (t4, _) = token_at(s, st4, true);
    assert(t0@ == token(s@, 0));
    assert(t1@ == token(s@, 1));
    assert(t2@ == token(s@, 2));
    assert(t3@ == token(s@, 3));
    assert(t4@ == token(s@, 4));
    let hash = trim_chars(&t0);
    if hash.len() != 40 {
        return Err(ParseError { kind: ErrorKind::InvalidHash, text: crate::text::string_from_chars(&hash) });
    }
    let author_date = Timestamp::from_chars(&trim_chars(&t1))?;
    let author_email = trim_chars(&t2);
    let commit_date = Timestamp::from_chars(&trim_chars(&t3))?;
    let max = width.max_value();
    let files_changed = match extract_count(&t4, Quantity::FilesChanged, max) {
        Some(n) => n,
        None => return Err(overflow(&t4, Quantity::FilesChanged)),
    };
    let insertions = match extract_count(&t4, Quantity::Insertions, max) {
        Some(n) => n,
        None => return Err(overflow(&t4, Quantity::Insertions)),
    };
    let deletions = match extract_count(&t4, Quantity::Deletions, max) {
        Some(n) => n,
        None => return Err(overflow(&t4, Quantity::Deletions)),
    };
    Ok(
        Commit {
            hash: crate::text::string_from_chars(&hash),
            author_date,
            author_email: crate::text::string_from_chars(&author_email),
            commit_date,
            files_changed,
            insertions,
            deletions,
        },
    )
}

fn overflow(t: &Vec<char>, q: Quantity) -> (e: ParseError)
    ensures
        e@ == (ErrorKind::NumericOverflow, count_digits(t@, q)),
{
    let digits = crate::diffstat::count_digit_chars(t, q);
    ParseError { kind: ErrorKind::NumericOverflow, text: crate::text::string_from_chars(&digits) }
}

} // verus!
