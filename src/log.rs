use vstd::prelude::*;

use crate::error::{ErrorKind, ParseError};
use crate::record::{outcome, parse_chars, parse_record, trim, trim_chars, Commit, CommitModel};
use crate::serialize::models;
use crate::text::views;
use crate::width::Width;

verus! {

/// Reading `s` left to right, cut at each NUL: the pieces completed so far
/// and the piece still open.
pub open spec fn cut_state(s: Seq<char>) -> (Seq<Seq<char>>, Seq<char>)
    decreases s.len(),
{
    if s.len() == 0 {
        (Seq::empty(), Seq::empty())
    } else {
        let (done, open) = cut_state(s.drop_last());
        if s.last() == '\0' {
            (done.push(open), Seq::empty())
        } else {
            (done, open.push(s.last()))
        }
    }
}

/// The NUL-separated pieces of `s`.
pub open spec fn pieces(s: Seq<char>) -> Seq<Seq<char>> {
    cut_state(s).0.push(cut_state(s).1)
}

/// The pieces, trimmed, without the empty ones.
pub open spec fn records(ps: Seq<Seq<char>>) -> Seq<Seq<char>>
    decreases ps.len(),
{
    if ps.len() == 0 {
        Seq::empty()
    } else {
        let rest = records(ps.drop_last());
        if trim(ps.last()).len() > 0 {
            rest.push(trim(ps.last()))
        } else {
            rest
        }
    }
}

/// Every record parsed in order, or the first failure.
pub open spec fn parse_records(rs: Seq<Seq<char>>, w: Width) -> Result<Seq<CommitModel>, (ErrorKind, Seq<char>)>
    decreases rs.len(),
{
    if rs.len() == 0 {
        Ok(Seq::empty())
    } else {
        match parse_records(rs.drop_last(), w) {
            Err(e) => Err(e),
            Ok(cs) => match parse_record(rs.last(), w) {
                Ok(c) => Ok(cs.push(c)),
                Err(e) => Err(e),
            },
        }
    }
}

/// The result of parsing a whole log text.
pub open spec fn parse_log_text(s: Seq<char>, w: Width) -> Result<Seq<CommitModel>, (ErrorKind, Seq<char>)> {
    parse_records(records(pieces(s)), w)
}

proof fn lemma_failure_persists(rs: Seq<Seq<char>>, w: Width, j: int, n: int)
    requires
        0 <= j <= n <= rs.len(),
        parse_records(rs.take(j), w) is Err,
    ensures
        parse_records(rs.take(n), w) == parse_records(rs.take(j), w),
    decreases n - j,
{
    if n > j {
        lemma_failure_persists(rs, w, j, n - 1);
        assert(rs.take(n).drop_last() =~= rs.take(n - 1));
    }
}

fn cut_at_nul(v: &Vec<char>) -> (r: Vec<Vec<char>>)
    ensures
        views(r@) == pieces(v@),
{
    let mut done: Vec<Vec<char>> = Vec::new();
    let mut open: Vec<char> = Vec::new();
    let mut i: usize = 0;
    while i < v.len()
        invariant
            i <= v@.len(),
            views(done@) == cut_state(v@.take(i as int)).0,
            open@ == cut_state(v@.take(i as int)).1,
        decreases v@.len() - i,
    {
        assert(v@.take(i + 1).drop_last() =~= v@.take(i as int));
        if v[i] == '\0' {
            let piece = open;
            open = Vec::new();
            done.push(piece);
            assert(views(done@) =~= cut_state(v@.take(i + 1)).0);
        } else {
            open.push(v[i]);
        }
        i = i + 1;
    }
    assert(v@.take(i as int) =~= v@);
    done.push(open);
    assert(views(done@) =~= pieces(v@));
    done
}

/// Parses a whole log: NUL-separated records, each trimmed; empty ones are
/// skipped, and the first record that fails to parse stops the run.
pub fn parse_log(text: &str, width: Width) -> (r: Result<Vec<Commit>, ParseError>)
    ensures
        match r {
            Ok(cs) => parse_log_text(text@, width) == Ok::<_, (ErrorKind, Seq<char>)>(models(cs@)),
            Err(e) => parse_log_text(text@, width) == Err::<Seq<CommitModel>, _>(e@),
        },
{
    let v = crate::text::chars_of(text);
    let ps = cut_at_nul(&v);
    let mut recs: Vec<Vec<char>> = Vec::new();
    let mut k: usize = 0;
    while k < ps.len()
        invariant
            k <= ps@.len(),
            views(recs@) == records(views(ps@).take(k as int)),
        decreases ps@.len() - k,
    {
        let t = trim_chars(&ps[k]);
        assert(views(ps@).take(k + 1).drop_last() =~= views(ps@).take(k as int));
        if t.len() > 0 {
            recs.push(t);
            assert(views(recs@) =~= records(views(ps@).take(k + 1)));
        }
        k = k + 1;
    }
    assert(views(ps@).take(k as int) =~= views(ps@));
    let ghost rs = views(recs@);
    let mut commits: Vec<Commit> = Vec::new();
    let mut j: usize = 0;
    assert(rs.take(0) =~= Seq::<Seq<char>>::empty());
    assert(models(commits@) =~= Seq::<CommitModel>::empty());
    while j < recs.len()
        invariant
            j <= recs@.len(),
            rs == views(recs@),
            rs == records(pieces(text@)),
            parse_records(rs.take(j as int), width) == Ok::<_, (ErrorKind, Seq<char>)>(models(commits@)),
        decreases recs@.len() - j,
    {
        let parsed = parse_chars(&recs[j], width);
        assert(rs.take(j + 1).drop_last() =~= rs.take(j as int));
        assert(rs.take(j + 1).last() == recs@[j as int]@);
        match parsed {
            Ok(c) => {
                let ghost before = commits@;
                assert(outcome(Ok(c)) == parse_record(rs[j as int], width));
                commits.push(c);
                assert(models(commits@) =~= models(before).push(c@));
            },
            Err(e) => {
                proof {
                    lemma_failure_persists(rs, width, j + 1, rs.len() as int);
                    assert(rs.take(rs.len() as int) =~= rs);
                }
                return Err(e);
            },
        }
        j = j + 1;
    }
    assert(rs.take(j as int) =~= rs);
    Ok(commits)
}

} // verus!
