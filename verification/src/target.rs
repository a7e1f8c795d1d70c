//! Policy selectors: the expression that one token denotes, and the policies
//! that it selects among those that are known.

use crate::error::{failure, Error, ErrorView, Fault};
use crate::text::{
    char_views, chars_of, find_char, first_index, is_unsigned, is_word, lemma_first_index, lowered,
    parse_u32, pieces, same_chars, slice_of, split_at_each, unsigned_value,
};
use vstd::prelude::*;

verus! {

/// A policy selector: every policy, one policy number, the numbers from a
/// start to an end, or the numbers of a list.
#[derive(Clone, Debug, PartialEq, Eq)]
pub enum TargetExpression {
    All,
    Single(u32),
    Range(u32, u32),
    List(Vec<u32>),
}

/// A policy selector as contracts speak of it.
pub enum TargetView {
    All,
    Single(u32),
    Range(u32, u32),
    List(Seq<u32>),
}

impl View for TargetExpression {
    type V = TargetView;

    open spec fn view(&self) -> TargetView {
        match self {
            TargetExpression::All => TargetView::All,
            TargetExpression::Single(n) => TargetView::Single(*n),
            TargetExpression::Range(start, end) => TargetView::Range(*start, *end),
            TargetExpression::List(numbers) => TargetView::List(numbers@),
        }
    }
}

/// The policy number that a text denotes, if it is an unsigned decimal
/// number that fits in 32 bits.
pub open spec fn policy_number(text: Seq<char>) -> Option<u32> {
    if is_unsigned(text) && unsigned_value(text) <= u32::MAX {
        Some(unsigned_value(text) as u32)
    } else {
        None
    }
}

/// The policy numbers that the parts of a list denote, or the failure that
/// names the first part that denotes none.
pub open spec fn listed_numbers(parts: Seq<Seq<char>>) -> Result<Seq<u32>, ErrorView>
    decreases parts.len(),
{
    if parts.len() == 0 {
        Ok(seq![])
    } else {
        match listed_numbers(parts.drop_last()) {
            Err(e) => Err(e),
            Ok(numbers) => match policy_number(parts.last()) {
                Some(n) => Ok(numbers.push(n)),
                None => Err(failure(Fault::InvalidTarget, parts.last())),
            },
        }
    }
}

/// The range that the two texts around a colon denote: each must be a
/// policy number, the start is read first, and the end must not be below
/// the start.
pub open spec fn range_of(token: Seq<char>) -> Result<TargetView, ErrorView> {
    let start = token.take(first_index(token, ':'));
    let end = token.skip(first_index(token, ':') + 1);
    match policy_number(start) {
        None => Err(failure(Fault::InvalidTarget, start)),
        Some(a) => match policy_number(end) {
            None => Err(failure(Fault::InvalidTarget, end)),
            Some(b) => if b < a {
                Err(failure(Fault::InvertedRange { start: a, end: b }, token))
            } else {
                Ok(TargetView::Range(a, b))
            },
        },
    }
}

/// What a selector token means: `*`, or `all` in any case, is every policy;
/// a token with a colon is a range; one with a comma is a list; any other
/// is a single policy number.
pub open spec fn target(token: Seq<char>) -> Result<TargetView, ErrorView> {
    if token == "*"@ || lowered(token) == "all"@ {
        Ok(TargetView::All)
    } else if token.contains(':') {
        range_of(token)
    } else if token.contains(',') {
        match listed_numbers(pieces(token, ',')) {
            Ok(numbers) => Ok(TargetView::List(numbers)),
            Err(e) => Err(e),
        }
    } else {
        match policy_number(token) {
            Some(n) => Ok(TargetView::Single(n)),
            None => Err(failure(Fault::InvalidTarget, token)),
        }
    }
}

/// The positions in `known` that hold the number `n`, in ascending order.
pub open spec fn positions_of(known: Seq<u32>, n: u32) -> Seq<usize>
    decreases known.len(),
{
    if known.len() == 0 {
        seq![]
    } else if known.last() == n {
        positions_of(known.drop_last(), n).push((known.len() - 1) as usize)
    } else {
        positions_of(known.drop_last(), n)
    }
}

/// The positions in `known` of the numbers from `start` to `end`, both
/// included, taken number by number in ascending order.
pub open spec fn positions_between(known: Seq<u32>, start: int, end: int) -> Seq<usize>
    decreases end - start + 1,
{
    if end < start {
        seq![]
    } else {
        positions_between(known, start, end - 1) + positions_of(known, end as u32)
    }
}

/// The positions in `known` of the numbers of a list, taken number by
/// number in the order of the list. A number that occurs twice in the list
/// is taken twice.
pub open spec fn positions_listed(known: Seq<u32>, numbers: Seq<u32>) -> Seq<usize>
    decreases numbers.len(),
{
    if numbers.len() == 0 {
        seq![]
    } else {
        positions_listed(known, numbers.drop_last()) + positions_of(known, numbers.last())
    }
}

/// The positions in `known` that a selector selects: all of them for
/// `All`, in the order of `known`; else those of the selector's numbers.
/// A number that `known` does not hold selects nothing.
pub open spec fn selection(expression: TargetView, known: Seq<u32>) -> Seq<usize> {
    match expression {
        TargetView::All => Seq::new(known.len(), |i: int| i as usize),
        TargetView::Single(n) => positions_of(known, n),
        TargetView::Range(start, end) => positions_between(known, start as int, end as int),
        TargetView::List(numbers) => positions_listed(known, numbers),
    }
}

/// The numbers that `known` holds at the given positions.
pub open spec fn numbers_at(known: Seq<u32>, positions: Seq<usize>) -> Seq<u32> {
    Seq::new(positions.len(), |i: int| known[positions[i] as int])
}

/// Whether every position is one of `known`.
pub open spec fn within(positions: Seq<usize>, length: nat) -> bool {
    forall|i: int| 0 <= i < positions.len() ==> (#[trigger] positions[i]) < length
}

/// The positions of a number are positions of `known`, and hold that number.
pub proof fn lemma_positions_of(known: Seq<u32>, n: u32)
    requires
        known.len() <= usize::MAX,
    ensures
        within(positions_of(known, n), known.len()),
        forall|i: int|
            0 <= i < positions_of(known, n).len() ==> known[(#[trigger] positions_of(
                known,
                n,
            )[i]) as int] == n,
        !known.contains(n) ==> positions_of(known, n).len() == 0,
    decreases known.len(),
{
    if known.len() > 0 {
        let prefix = known.drop_last();
        lemma_positions_of(prefix, n);
        let p = positions_of(prefix, n);
        assert forall|i: int| 0 <= i < positions_of(known, n).len() implies (
        #[trigger] positions_of(known, n)[i]) < known.len() && known[positions_of(known, n)[i] as int]
            == n by {
            if i < p.len() {
                assert(positions_of(known, n)[i] == p[i]);
                assert(prefix[p[i] as int] == known[p[i] as int]);
            } else {
                assert(known.last() == n);
                assert(positions_of(known, n)[i] == (known.len() - 1) as usize);
                assert(known[known.len() - 1] == known.last());
            }
        }
        if !known.contains(n) {
            assert(known.last() != n) by {
                assert(known[known.len() - 1] == known.last());
            }
            assert forall|j: int| 0 <= j < prefix.len() implies prefix[j] != n by {
                assert(prefix[j] == known[j]);
            }
        }
    }
}

/// Every selected position is a position of `known`.
pub proof fn lemma_selection_within(expression: TargetView, known: Seq<u32>)
    requires
        known.len() <= usize::MAX,
    ensures
        within(selection(expression, known), known.len()),
{
    match expression {
        TargetView::All => {},
        TargetView::Single(n) => {
            lemma_positions_of(known, n);
        },
        TargetView::Range(start, end) => {
            lemma_between_within(known, start as int, end as int);
        },
        TargetView::List(numbers) => {
            lemma_listed_within(known, numbers);
        },
    }
}

proof fn lemma_between_within(known: Seq<u32>, start: int, end: int)
    requires
        known.len() <= usize::MAX,
        0 <= start,
        end <= u32::MAX,
    ensures
        within(positions_between(known, start, end), known.len()),
    decreases end - start + 1,
{
    if end >= start {
        lemma_between_within(known, start, end - 1);
        lemma_positions_of(known, end as u32);
    }
}

proof fn lemma_listed_within(known: Seq<u32>, numbers: Seq<u32>)
    requires
        known.len() <= usize::MAX,
    ensures
        within(positions_listed(known, numbers), known.len()),
    decreases numbers.len(),
{
    if numbers.len() > 0 {
        lemma_listed_within(known, numbers.drop_last());
        lemma_positions_of(known, numbers.last());
    }
}

/// Adds to `out` the positions in `known` that hold `n`.
fn push_positions(out: &mut Vec<usize>, known: &Vec<u32>, n: u32)
    ensures
        final(out)@ == old(out)@ + positions_of(known@, n),
{
    let mut i: usize = 0;
    assert(known@.take(0) == Seq::<u32>::empty());
    assert(out@ + Seq::<usize>::empty() == out@);
    while i < known.len()
        invariant
            i <= known.len(),
            out@ == old(out)@ + positions_of(known@.take(i as int), n),
        decreases known.len() - i,
    {
        assert(known@.take(i + 1).drop_last() == known@.take(i as int));
        assert(known@.take(i + 1).last() == known@[i as int]);
        if known[i] == n {
            out.push(i);
            assert(old(out)@ + positions_of(known@.take(i as int), n).push(i) == (old(out)@
                + positions_of(known@.take(i as int), n)).push(i));
        }
        i = i + 1;
    }
    assert(known@.take(known.len() as int) == known@);
}

/// Numbers that `known` does not hold add nothing to the positions of a
/// range.
proof fn lemma_gap(known: Seq<u32>, start: int, from: int, to: int)
    requires
        known.len() <= usize::MAX,
        0 <= start <= from <= to <= u32::MAX + 1,
        forall|x: u32| from <= x < to ==> !known.contains(x),
    ensures
        positions_between(known, start, to - 1) == positions_between(known, start, from - 1),
    decreases to - from,
{
    if from < to {
        lemma_gap(known, start, from, to - 1);
        lemma_positions_of(known, (to - 1) as u32);
        assert(!known.contains((to - 1) as u32));
        assert(positions_between(known, start, to - 1) == positions_between(known, start, to - 2)
            + positions_of(known, (to - 1) as u32));
    }
}

/// The least number from `low` to `high` that `known` holds, if it holds one.
fn least_between(known: &Vec<u32>, low: u32, high: u32) -> (r: Option<u32>)
    ensures
        match r {
            Some(n) => low <= n <= high && known@.contains(n) && forall|x: u32|
                low <= x < n ==> !known@.contains(x),
            None => forall|x: u32| low <= x <= high ==> !known@.contains(x),
        },
{
    let mut best: Option<u32> = None;
    let mut i: usize = 0;
    while i < known.len()
        invariant
            i <= known.len(),
            best matches Some(b) ==> low <= b <= high && known@.contains(b),
            forall|j: int|
                0 <= j < i && low <= (#[trigger] known@[j]) <= high ==> best is Some && best->0
                    <= known@[j],
        decreases known.len() - i,
    {
        let n = known[i];
        if low <= n && n <= high {
            let better = match best {
                Some(b) => n < b,
                None => true,
            };
            if better {
                best = Some(n);
            }
        }
        i = i + 1;
    }
    match best {
        Some(n) => {
            assert forall|x: u32| low <= x < n implies !known@.contains(x) by {
                if known@.contains(x) {
                    let j = choose|j: int| 0 <= j < known@.len() && known@[j] == x;
                    assert(low <= known@[j] <= high);
                }
            }
        },
        None => {
            assert forall|x: u32| low <= x <= high implies !known@.contains(x) by {
                if known@.contains(x) {
                    let j = choose|j: int| 0 <= j < known@.len() && known@[j] == x;
                    assert(low <= known@[j] <= high);
                }
            }
        },
    }
    best
}

/// Reads a policy number, or names `text` as none.
fn read_number(text: &Vec<char>) -> (r: Result<u32, Error>)
    ensures
        match r {
            Ok(n) => policy_number(text@) == Some(n),
            Err(e) => policy_number(text@) is None && e@ == failure(Fault::InvalidTarget, text@),
        },
{
    match parse_u32(text) {
        Some(n) => Ok(n),
        None => Err(Error::about(Fault::InvalidTarget, text)),
    }
}

impl TargetExpression {
    /// Reads a selector token: `*`, `all`, `3`, `1:3`, `0,2,5`.
    pub fn parse(token: &str) -> (r: Result<TargetExpression, Error>)
        ensures
            match r {
                Ok(expression) => target(token@) == Ok::<TargetView, ErrorView>(expression@),
                Err(e) => target(token@) == Err::<TargetView, ErrorView>(e@),
            },
    {
        let t = chars_of(token);
        let star = chars_of("*");
        if same_chars(&t, &star) || is_word(&t, "all") {
            return Ok(TargetExpression::All);
        }
        proof {
            lemma_first_index(t@, ':');
        }
        if let Some(colon) = find_char(&t, ':') {
            let first = slice_of(&t, 0, colon);
            let second = slice_of(&t, colon + 1, t.len());
            assert(first@ == t@.take(colon as int));
            assert(second@ == t@.skip(colon + 1));
            let a = match read_number(&first) {
                Ok(a) => a,
                Err(e) => {
                    return Err(e);
                },
            };
            let b = match read_number(&second) {
                Ok(b) => b,
                Err(e) => {
                    return Err(e);
                },
            };
            if b < a {
                return Err(Error::about(Fault::InvertedRange { start: a, end: b }, &t));
            }
            return Ok(TargetExpression::Range(a, b));
        }
        if find_char(&t, ',').is_some() {
            let parts = split_at_each(&t, ',');
            let mut numbers: Vec<u32> = Vec::new();
            let mut i: usize = 0;
            assert(char_views(parts@).take(0) == Seq::<Seq<char>>::empty());
            while i < parts.len()
                invariant
                    i <= parts.len(),
                    listed_numbers(char_views(parts@).take(i as int)) == Ok::<Seq<u32>, ErrorView>(
                        numbers@,
                    ),
                    char_views(parts@) == pieces(t@, ','),
                    t@ == token@,
                    !(t@ == "*"@ || lowered(t@) == "all"@),
                    !t@.contains(':'),
                    t@.contains(','),
                decreases parts.len() - i,
            {
                let ghost all = char_views(parts@);
                assert(all.take(i + 1).drop_last() == all.take(i as int));
                assert(all.take(i + 1).last() == parts@[i as int]@);
                match read_number(&parts[i]) {
                    Ok(n) => {
                        numbers.push(n);
                    },
                    Err(e) => {
                        proof {
                            lemma_listed_failure(all, i + 1);
                        }
                        return Err(e);
                    },
                }
                i = i + 1;
            }
            assert(char_views(parts@).take(parts.len() as int) == char_views(parts@));
            return Ok(TargetExpression::List(numbers));
        }
        match read_number(&t) {
            Ok(n) => Ok(TargetExpression::Single(n)),
            Err(e) => Err(e),
        }
    }

    /// The positions in `known` of the policies that the selector selects.
    pub fn positions(&self, known: &Vec<u32>) -> (r: Vec<usize>)
        ensures
            r@ == selection(self@, known@),
            within(r@, known@.len()),
    {
        let length: usize = known.len();
        proof {
            assert(known@.len() == length);
            lemma_selection_within(self@, known@);
        }
        let mut out: Vec<usize> = Vec::new();
        match self {
            TargetExpression::All => {
                let mut i: usize = 0;
                while i < known.len()
                    invariant
                        i <= known.len(),
                        out@ == Seq::new(i as nat, |j: int| j as usize),
                    decreases known.len() - i,
                {
                    out.push(i);
                    i = i + 1;
                }
            },
            TargetExpression::Single(n) => {
                push_positions(&mut out, known, *n);
            },
            TargetExpression::Range(start, end) => {
                if *end >= *start {
                    let mut from: u64 = *start as u64;
                    let last: u64 = *end as u64;
                    while from <= last
                        invariant
                            *start <= from <= last + 1,
                            last == *end,
                            known@.len() == length,
                            out@ == positions_between(known@, *start as int, from - 1),
                        decreases last + 1 - from,
                    {
                        match least_between(known, from as u32, *end) {
                            Some(n) => {
                                proof {
                                    lemma_gap(known@, *start as int, from as int, n as int);
                                }
                                push_positions(&mut out, known, n);
                                from = n as u64 + 1;
                            },
                            None => {
                                proof {
                                    lemma_gap(known@, *start as int, from as int, last + 1);
                                }
                                from = last + 1;
                            },
                        }
                    }
                }
            },
            TargetExpression::List(numbers) => {
                let mut i: usize = 0;
                assert(numbers@.take(0) == Seq::<u32>::empty());
                while i < numbers.len()
                    invariant
                        i <= numbers.len(),
                        out@ == positions_listed(known@, numbers@.take(i as int)),
                    decreases numbers.len() - i,
                {
                    assert(numbers@.take(i + 1).drop_last() == numbers@.take(i as int));
                    assert(numbers@.take(i + 1).last() == numbers@[i as int]);
                    push_positions(&mut out, known, numbers[i]);
                    i = i + 1;
                }
                assert(numbers@.take(numbers.len() as int) == numbers@);
            },
        }
        out
    }

    /// The known policy numbers that the selector selects, in the order in
    /// which they are to be visited.
    pub fn resolve(&self, known: &Vec<u32>) -> (r: Vec<u32>)
        ensures
            r@ == numbers_at(known@, selection(self@, known@)),
    {
        let positions = self.positions(known);
        let mut out: Vec<u32> = Vec::new();
        let mut i: usize = 0;
        while i < positions.len()
            invariant
                i <= positions.len(),
                within(positions@, known@.len()),
                out@ == numbers_at(known@, positions@.take(i as int)),
            decreases positions.len() - i,
        {
            assert(positions@[i as int] < known@.len());
            out.push(known[positions[i]]);
            assert(numbers_at(known@, positions@.take(i + 1)) == numbers_at(
                known@,
                positions@.take(i as int),
            ).push(known@[positions@[i as int] as int]));
            i = i + 1;
        }
        assert(positions@.take(positions.len() as int) == positions@);
        out
    }
}

/// Once the parts up to some point hold one that is no number, the whole
/// list fails as that prefix does.
proof fn lemma_listed_failure(parts: Seq<Seq<char>>, upto: int)
    requires
        0 <= upto <= parts.len(),
        listed_numbers(parts.take(upto)) is Err,
    ensures
        listed_numbers(parts) == listed_numbers(parts.take(upto)),
    decreases parts.len() - upto,
{
    if upto == parts.len() {
        assert(parts.take(upto) == parts);
    } else {
        assert(parts.take(upto + 1).drop_last() == parts.take(upto));
        lemma_listed_failure(parts, upto + 1);
    }
}

/// The policy numbers, among those known, that the selector token selects;
/// a token that is no selector is a failure.
pub open spec fn resolved(token: Seq<char>, known: Seq<u32>) -> Result<Seq<u32>, ErrorView> {
    match target(token) {
        Ok(expression) => Ok(numbers_at(known, selection(expression, known))),
        Err(e) => Err(e),
    }
}

/// Resolves a selector token against the known policy numbers.
pub fn resolve(token: &str, known: &Vec<u32>) -> (r: Result<Vec<u32>, Error>)
    ensures
        match r {
            Ok(numbers) => resolved(token@, known@) == Ok::<Seq<u32>, ErrorView>(numbers@),
            Err(e) => resolved(token@, known@) == Err::<Seq<u32>, ErrorView>(e@),
        },
{
    match TargetExpression::parse(token) {
        Ok(expression) => Ok(expression.resolve(known)),
        Err(e) => Err(e),
    }
}

} // verus!
