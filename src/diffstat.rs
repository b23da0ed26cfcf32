use vstd::prelude::*;

use crate::timestamp::{digit_value, is_digit};

verus! {

/// The three quantities of a diffstat trailer.
#[derive(Clone, Copy, Debug, PartialEq, Eq, Structural)]
pub enum Quantity {
    FilesChanged,
    Insertions,
    Deletions,
}

/// The end of the run of digits that starts at `i`.
pub open spec fn digits_end(t: Seq<char>, i: int) -> int
    decreases t.len() - i,
{
    if 0 <= i < t.len() && is_digit(t[i]) {
        digits_end(t, i + 1)
    } else {
        i
    }
}

/// Whether `w` occurs in `t` at position `j`.
pub open spec fn occurs_at(t: Seq<char>, j: int, w: Seq<char>) -> bool {
    0 <= j && j + w.len() <= t.len() && t.subrange(j, j + w.len()) == w
}

/// Whether the phrase that names `q` follows a number that ends at `j`:
/// ` file changed` or ` files changed`, ` insertion(s)`, ` deletion(s)`.
pub open spec fn names_quantity(t: Seq<char>, j: int, q: Quantity) -> bool {
    match q {
        Quantity::FilesChanged => occurs_at(t, j, " file changed"@) || occurs_at(t, j, " files changed"@),
        Quantity::Insertions => occurs_at(t, j, " insertion"@),
        Quantity::Deletions => occurs_at(t, j, " deletion"@),
    }
}

/// A phrase for `q` starts at `i`: digits, then the words that name `q`.
pub open spec fn phrase_at(t: Seq<char>, i: int, q: Quantity) -> bool {
    0 <= i < t.len() && is_digit(t[i]) && names_quantity(t, digits_end(t, i), q)
}

/// The first position at or after `i` where a phrase for `q` starts.
pub open spec fn first_phrase(t: Seq<char>, i: int, q: Quantity) -> Option<int>
    decreases t.len() - i,
{
    if i < 0 || i >= t.len() {
        None
    } else if phrase_at(t, i, q) {
        Some(i)
    } else {
        first_phrase(t, i + 1, q)
    }
}

/// The digits of the first phrase for `q` in `t`; empty when there is none.
pub open spec fn count_digits(t: Seq<char>, q: Quantity) -> Seq<char> {
    match first_phrase(t, 0, q) {
        Some(p) => t.subrange(p, digits_end(t, p)),
        None => Seq::empty(),
    }
}

/// The value of a string of decimal digits (zero for the empty string).
pub open spec fn digits_value(d: Seq<char>) -> int
    decreases d.len(),
{
    if d.len() == 0 {
        0
    } else {
        digits_value(d.drop_last()) * 10 + digit_value(d.last())
    }
}

/// The count that `t` reports for `q`: zero when no phrase names it.
pub open spec fn count_of(t: Seq<char>, q: Quantity) -> int {
    digits_value(count_digits(t, q))
}

pub proof fn lemma_digits_end_bounds(t: Seq<char>, i: int)
    requires
        0 <= i <= t.len(),
    ensures
        i <= digits_end(t, i) <= t.len(),
        forall|k: int| i <= k < digits_end(t, i) ==> is_digit(#[trigger] t[k]),
    decreases t.len() - i,
{
    if i < t.len() && is_digit(t[i]) {
        lemma_digits_end_bounds(t, i + 1);
    }
}

pub proof fn lemma_digits_value_monotone(d: Seq<char>, k: int)
    requires
        0 <= k <= d.len(),
        forall|i: int| 0 <= i < d.len() ==> is_digit(#[trigger] d[i]),
    ensures
        0 <= digits_value(d.subrange(0, k)) <= digits_value(d),
    decreases d.len(),
{
    if k < d.len() {
        lemma_digits_value_monotone(d.drop_last(), k);
        assert(d.drop_last().subrange(0, k) =~= d.subrange(0, k));
    } else {
        assert(d.subrange(0, k) =~= d);
        if d.len() > 0 {
            lemma_digits_value_monotone(d.drop_last(), k - 1);
            assert(d.drop_last().subrange(0, k - 1) =~= d.drop_last());
        }
    }
}

fn digits_end_from(t: &Vec<char>, i: usize) -> (r: usize)
    requires
        i <= t@.len(),
    ensures
        r == digits_end(t@, i as int),
        i <= r <= t@.len(),
{
    proof {
        lemma_digits_end_bounds(t@, i as int);
    }
    let mut j = i;
    while j < t.len() && '0' <= t[j] && t[j] <= '9'
        invariant
            i <= j <= t@.len(),
            digits_end(t@, j as int) == digits_end(t@, i as int),
        decreases t@.len() - j,
    {
        j = j + 1;
    }
    j
}

fn occurs_at_exec(t: &Vec<char>, j: usize, w: &Vec<char>) -> (r: bool)
    ensures
        r == occurs_at(t@, j as int, w@),
{
    if j > t.len() || w.len() > t.len() - j {
        return false;
    }
    let mut k: usize = 0;
    while k < w.len()
        invariant
            t@.len() <= usize::MAX,
            j + w@.len() <= t@.len(),
            k <= w@.len(),
            t@.subrange(j as int, j + k) == w@.subrange(0, k as int),
        decreases w@.len() - k,
    {
        if t[j + k] != w[k] {
            assert(t@.subrange(j as int, j + w@.len())[k as int] != w@[k as int]);
            return false;
        }
        k = k + 1;
        assert(t@.subrange(j as int, j + k) =~= w@.subrange(0, k as int));
    }
    assert(w@.subrange(0, k as int) =~= w@);
    true
}

fn names_quantity_exec(t: &Vec<char>, j: usize, q: Quantity) -> (r: bool)
    ensures
        r == names_quantity(t@, j as int, q),
{
    match q {
        Quantity::FilesChanged => {
            let one = crate::text::chars_of(" file changed");
            let many = crate::text::chars_of(" files changed");
            occurs_at_exec(t, j, &one) || occurs_at_exec(t, j, &many)
        },
        Quantity::Insertions => {
            let w = crate::text::chars_of(" insertion");
            occurs_at_exec(t, j, &w)
        },
        Quantity::Deletions => {
            let w = crate::text::chars_of(" deletion");
            occurs_at_exec(t, j, &w)
        },
    }
}

/// Where the digits of the first phrase for `q` in `t` start and end.
fn find_phrase(t: &Vec<char>, q: Quantity) -> (r: Option<(usize, usize)>)
    ensures
        first_phrase(t@, 0, q) is None <==> r is None,
        r matches Some((a, b)) ==> {
            &&& first_phrase(t@, 0, q) == Some(a as int)
            &&& b == digits_end(t@, a as int)
            &&& a < b <= t@.len()
        },
{
    let mut i: usize = 0;
    while i < t.len()
        invariant
            i <= t@.len(),
            first_phrase(t@, i as int, q) == first_phrase(t@, 0, q),
        decreases t@.len() - i,
    {
        if '0' <= t[i] && t[i] <= '9' {
            let e = digits_end_from(t, i);
            if names_quantity_exec(t, e, q) {
                proof {
                    lemma_digits_end_bounds(t@, i as int);
                    lemma_digits_end_bounds(t@, i as int + 1);
                }
                return Some((i, e));
            }
        }
        i = i + 1;
    }
    None
}

/// The value of the digits `t[a..b]`, or `None` when it exceeds `max`.
pub(crate) fn digits_to_count(t: &Vec<char>, a: usize, b: usize, max: u64) -> (r: Option<u64>)
    requires
        a <= b <= t@.len(),
        forall|k: int| a <= k < b ==> is_digit(#[trigger] t@[k]),
    ensures
        digits_value(t@.subrange(a as int, b as int)) <= max <==> r is Some,
        r matches Some(v) ==> v == digits_value(t@.subrange(a as int, b as int)),
{
    let ghost d = t@.subrange(a as int, b as int);
    let mut acc: u64 = 0;
    let mut k: usize = a;
    assert(d.subrange(0, 0) =~= Seq::<char>::empty());
    while k < b
        invariant
            a <= k <= b <= t@.len(),
            d == t@.subrange(a as int, b as int),
            forall|i: int| 0 <= i < d.len() ==> is_digit(#[trigger] d[i]),
            acc <= max,
            acc == digits_value(d.subrange(0, k - a)),
        decreases b - k,
    {
        assert(is_digit(d[k - a]));
        let digit = (t[k] as u64) - ('0' as u64);
        let ghost next = d.subrange(0, k - a + 1);
        assert(next.drop_last() =~= d.subrange(0, k - a));
        assert(next.last() == t@[k as int]);
        proof {
            lemma_digits_value_monotone(d, k - a + 1);
        }
        match acc.checked_mul(10) {
            None => return None,
            Some(m) => match m.checked_add(digit) {
                None => return None,
                Some(n) => {
                    if n > max {
                        return None;
                    }
                    acc = n;
                },
            },
        }
        k = k + 1;
    }
    assert(d.subrange(0, k - a) =~= d);
    Some(acc)
}

/// The digits of the first phrase for `q` in `t`.
pub fn count_digit_chars(t: &Vec<char>, q: Quantity) -> (r: Vec<char>)
    ensures
        r@ == count_digits(t@, q),
{
    match find_phrase(t, q) {
        None => Vec::new(),
        Some((a, b)) => {
            let mut r: Vec<char> = Vec::new();
            let mut i = a;
            while i < b
                invariant
                    a <= i <= b <= t@.len(),
                    r@ == t@.subrange(a as int, i as int),
                decreases b - i,
            {
                r.push(t[i]);
                i = i + 1;
                assert(r@ =~= t@.subrange(a as int, i as int));
            }
            r
        },
    }
}

/// The count that `t` reports for `q`, or `None` when it exceeds `max`.
pub fn extract_count(t: &Vec<char>, q: Quantity, max: u64) -> (r: Option<u64>)
    ensures
        count_of(t@, q) <= max <==> r is Some,
        r matches Some(v) ==> v == count_of(t@, q),
{
    match find_phrase(t, q) {
        None => {
            assert(count_digits(t@, q) =~= Seq::<char>::empty());
            Some(0)
        },
        Some((a, b)) => {
            proof {
                lemma_digits_end_bounds(t@, a as int);
            }
            digits_to_count(t, a, b, max)
        },
    }
}

} // verus!
