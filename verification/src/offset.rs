//! Where a color stop lies on the line of its gradient, and where the stops
//! come to lie that were written without a place.

use vstd::prelude::*;
use crate::number::Number;

verus! {

/// A fixed point on the line of a gradient.
#[derive(Debug, PartialEq, Eq, Clone, Copy)]
pub enum Anchor<'a> {
    /// Where the line starts: 0 percent of the way.
    Start,
    /// Where the line ends: 100 percent of the way.
    End,
    /// So many percent of the way.
    Percent(Number<'a>),
}

/// What an `Anchor` stands for.
pub ghost enum AnchorPoint {
    Start,
    End,
    Percent(Seq<char>),
}

impl<'a> View for Anchor<'a> {
    type V = AnchorPoint;

    open spec fn view(&self) -> AnchorPoint {
        match *self {
            Anchor::Start => AnchorPoint::Start,
            Anchor::End => AnchorPoint::End,
            Anchor::Percent(p) => AnchorPoint::Percent(p@),
        }
    }
}

/// Where a stop lies on the line of its gradient: `step` of `steps` equal
/// steps on the way from one anchor to another. As a fraction of the line,
/// this is `from + (to - from) * step / steps`, with 0 for the start, 1 for
/// the end and a hundredth of its number for a percentage.
#[derive(Debug, PartialEq, Eq, Clone, Copy)]
pub struct StopOffset<'a> {
    pub from: Anchor<'a>,
    pub to: Anchor<'a>,
    pub step: usize,
    pub steps: usize,
}

/// What a `StopOffset` stands for.
pub ghost struct Position {
    pub from: AnchorPoint,
    pub to: AnchorPoint,
    pub step: nat,
    pub steps: nat,
}

impl<'a> View for StopOffset<'a> {
    type V = Position;

    open spec fn view(&self) -> Position {
        Position { from: self.from@, to: self.to@, step: self.step as nat, steps: self.steps as nat }
    }
}

impl Position {
    /// The position at `percent` percent of the way.
    pub open spec fn at(percent: Seq<char>) -> Position {
        Position {
            from: AnchorPoint::Percent(percent),
            to: AnchorPoint::Percent(percent),
            step: 0,
            steps: 1,
        }
    }

    /// Whether the position counts its steps properly: there is one step at
    /// least, and no more are taken than there are.
    pub open spec fn well_formed(self) -> bool {
        1 <= self.steps && self.step <= self.steps
    }

    /// Whether the position is that of its first anchor.
    pub open spec fn is_at_from(self) -> bool {
        self.step == 0
    }

    /// Whether the position is that of its second anchor.
    pub open spec fn is_at_to(self) -> bool {
        self.step == self.steps
    }
}

impl<'a> StopOffset<'a> {
    /// The position at `percent` percent of the way.
    pub fn at(percent: Number<'a>) -> (o: StopOffset<'a>)
        ensures
            o@ == Position::at(percent@),
    {
        StopOffset { from: Anchor::Percent(percent), to: Anchor::Percent(percent), step: 0, steps: 1 }
    }
}

/// What an optional numeral stands for.
pub open spec fn numeral_view(o: Option<Number>) -> Option<Seq<char>> {
    match o {
        Some(n) => Some(n@),
        None => None,
    }
}

/// Where the run of stops without a place that holds stop `i` starts: the
/// least index from which on all stops up to `i` are without a place.
pub open spec fn run_start(given: Seq<Option<Seq<char>>>, i: int) -> int
    decreases i,
{
    if i <= 0 || i > given.len() || given[i - 1] is Some {
        i
    } else {
        run_start(given, i - 1)
    }
}

/// Where the run of stops without a place that holds stop `i` ends: the first
/// index after `i` of a stop with a place, or the number of stops.
pub open spec fn run_end(given: Seq<Option<Seq<char>>>, i: int) -> int
    decreases given.len() - i,
{
    if i < 0 || i >= given.len() || given[i] is Some {
        i
    } else {
        run_end(given, i + 1)
    }
}

/// Where stop `i` comes to lie, given the percentages that were written.
///
/// A stop with a percentage lies there. The others lie in runs. A run is
/// spread evenly between the stop before it and the stop after it; where the
/// run starts the list, its first stop lies at the start of the line, and
/// where it ends the list, its last stop lies at the end of the line. One
/// case is apart: a single stop without a place that ends the list lies where
/// the stop before it lies.
pub open spec fn placed(given: Seq<Option<Seq<char>>>, i: int) -> Position {
    match given[i] {
        Some(p) => Position::at(p),
        None => {
            let a = run_start(given, i);
            let b = run_end(given, i);
            let from = if a == 0 {
                AnchorPoint::Start
            } else {
                AnchorPoint::Percent(given[a - 1]->0)
            };
            let to = if b == given.len() {
                AnchorPoint::End
            } else {
                AnchorPoint::Percent(given[b]->0)
            };
            let first = if a == 0 {
                0
            } else {
                a - 1
            };
            let last = if b == given.len() {
                given.len() - 1
            } else {
                b
            };
            if b == given.len() && b - a == 1 {
                Position { from, to, step: 0, steps: 1 }
            } else {
                Position { from, to, step: (i - first) as nat, steps: (last - first) as nat }
            }
        },
    }
}

/// Where each stop comes to lie, given the percentages that were written.
pub open spec fn normalized(given: Seq<Option<Seq<char>>>) -> Seq<Position> {
    Seq::new(given.len(), |i: int| placed(given, i))
}

/// Within a run of stops without a place, every stop sees the same run.
pub proof fn lemma_run_bounds(given: Seq<Option<Seq<char>>>, a: int, b: int, i: int)
    requires
        0 <= a <= i < b <= given.len(),
        a == 0 || given[a - 1] is Some,
        b == given.len() || given[b] is Some,
        forall|k: int| a <= k < b ==> (#[trigger] given[k]) is None,
    ensures
        run_start(given, i) == a,
        run_end(given, i) == b,
    decreases b - a,
{
    lemma_run_start(given, a, i);
    lemma_run_end(given, b, i);
}

/// A run starts where the stop before it has a place.
proof fn lemma_run_start(given: Seq<Option<Seq<char>>>, a: int, i: int)
    requires
        0 <= a <= i <= given.len(),
        a == 0 || given[a - 1] is Some,
        forall|k: int| a <= k < i ==> (#[trigger] given[k]) is None,
    ensures
        run_start(given, i) == a,
    decreases i - a,
{
    if i > a {
        lemma_run_start(given, a, i - 1);
    }
}

/// A run ends where a stop has a place.
proof fn lemma_run_end(given: Seq<Option<Seq<char>>>, b: int, i: int)
    requires
        0 <= i <= b <= given.len(),
        b == given.len() || given[b] is Some,
        forall|k: int| i <= k < b ==> (#[trigger] given[k]) is None,
    ensures
        run_end(given, i) == b,
    decreases b - i,
{
    if i < b {
        lemma_run_end(given, b, i + 1);
    }
}

/// The run that holds a stop without a place: it holds the stop, all its
/// stops are without a place, and it cannot be made longer at either end.
pub proof fn lemma_run_is_maximal(given: Seq<Option<Seq<char>>>, i: int)
    requires
        0 <= i < given.len(),
        given[i] is None,
    ensures
        0 <= run_start(given, i) <= i < run_end(given, i) <= given.len(),
        run_start(given, i) == 0 || given[run_start(given, i) - 1] is Some,
        run_end(given, i) == given.len() || given[run_end(given, i)] is Some,
        forall|k: int|
            run_start(given, i) <= k < run_end(given, i) ==> (#[trigger] given[k]) is None,
{
    lemma_run_start_maximal(given, i);
    lemma_run_end_maximal(given, i);
}

/// From the start of its run up to a stop, no stop has a place.
proof fn lemma_run_start_maximal(given: Seq<Option<Seq<char>>>, i: int)
    requires
        0 <= i <= given.len(),
    ensures
        0 <= run_start(given, i) <= i,
        run_start(given, i) == 0 || given[run_start(given, i) - 1] is Some,
        forall|k: int| run_start(given, i) <= k < i ==> (#[trigger] given[k]) is None,
    decreases i,
{
    if i > 0 && given[i - 1] is None {
        lemma_run_start_maximal(given, i - 1);
    }
}

/// From a stop up to the end of its run, no stop has a place.
proof fn lemma_run_end_maximal(given: Seq<Option<Seq<char>>>, i: int)
    requires
        0 <= i <= given.len(),
    ensures
        i <= run_end(given, i) <= given.len(),
        run_end(given, i) == given.len() || given[run_end(given, i)] is Some,
        forall|k: int| i <= k < run_end(given, i) ==> (#[trigger] given[k]) is None,
    decreases given.len() - i,
{
    if i < given.len() && given[i] is None {
        lemma_run_end_maximal(given, i + 1);
    }
}

/// What holds of the places that the stops are given.
///
/// A percentage that was written is kept. Every place counts its steps
/// properly. A first stop without a place lies at the start of the line. A
/// last stop without a place lies at the end of the line, unless it alone
/// follows a stop with a place. Two stops without a place that follow one
/// another lie one step apart, between the same anchors.
pub proof fn lemma_normalized(given: Seq<Option<Seq<char>>>, i: int)
    requires
        0 <= i < given.len(),
    ensures
        normalized(given).len() == given.len(),
        normalized(given)[i].well_formed(),
        given[i] matches Some(p) ==> normalized(given)[i] == Position::at(p),
        i == 0 && given[i] is None ==> normalized(given)[i].from == AnchorPoint::Start
            && normalized(given)[i].is_at_from(),
        i == given.len() - 1 && i >= 1 && given[i] is None && given[i - 1] is None ==> normalized(
            given,
        )[i].to == AnchorPoint::End && normalized(given)[i].is_at_to(),
        i == given.len() - 1 && i >= 1 && given[i] is None && given[i - 1] is Some ==> normalized(
            given,
        )[i].from == AnchorPoint::Percent(given[i - 1]->0) && normalized(given)[i].is_at_from(),
        i + 1 < given.len() && given[i] is None && given[i + 1] is None ==> {
            &&& normalized(given)[i + 1].from == normalized(given)[i].from
            &&& normalized(given)[i + 1].to == normalized(given)[i].to
            &&& normalized(given)[i + 1].steps == normalized(given)[i].steps
            &&& normalized(given)[i + 1].step == normalized(given)[i].step + 1
        },
        i >= 1 && given[i] is None && given[i - 1] is Some && !(i == given.len() - 1) ==> {
            &&& normalized(given)[i].from == AnchorPoint::Percent(given[i - 1]->0)
            &&& normalized(given)[i].step == 1
        },
        i + 1 < given.len() && given[i] is None && given[i + 1] is Some ==> {
            &&& normalized(given)[i].to == AnchorPoint::Percent(given[i + 1]->0)
            &&& normalized(given)[i].step + 1 == normalized(given)[i].steps
        },
{
    if given[i] is None {
        lemma_run_is_maximal(given, i);
        let a = run_start(given, i);
        let b = run_end(given, i);
        if i + 1 < given.len() && given[i + 1] is None {
            lemma_run_bounds(given, a, b, i + 1);
        }
        if i >= 1 && given[i - 1] is Some {
            lemma_run_bounds(given, i, b, i);
        }
        if i + 1 < given.len() && given[i + 1] is Some {
            lemma_run_bounds(given, a, i + 1, i);
        }
        if i == given.len() - 1 {
            lemma_run_bounds(given, a, given.len() as int, i);
        }
        if i == 0 {
            lemma_run_bounds(given, 0, b, i);
        }
    }
}

/// What a list of optional numerals stands for.
pub open spec fn numerals_view(v: Seq<Option<Number>>) -> Seq<Option<Seq<char>>> {
    v.map_values(|o: Option<Number>| numeral_view(o))
}

/// What a list of places stands for.
pub open spec fn positions(v: Seq<StopOffset>) -> Seq<Position> {
    v.map_values(|o: StopOffset| o@)
}

/// Where each stop comes to lie, given the percentages that were written:
/// nothing for a stop that was written without one.
pub fn normalize_offsets<'a>(given: &Vec<Option<Number<'a>>>) -> (r: Vec<StopOffset<'a>>)
    ensures
        positions(r@) == normalized(numerals_view(given@)),
        r@.len() == given@.len(),
        forall|i: int| 0 <= i < r@.len() ==> (#[trigger] r@[i])@.well_formed(),
{
    let n = given.len();
    let ghost g = numerals_view(given@);
    let mut out: Vec<StopOffset<'a>> = Vec::new();
    let mut i: usize = 0;
    while i < n
        invariant
            n == given@.len(),
            g == numerals_view(given@),
            i <= n,
            out@.len() == i,
            i == 0 || i == n || given@[i as int] is Some || given@[i - 1] is Some,
            forall|k: int| 0 <= k < i ==> (#[trigger] out@[k])@ == placed(g, k),
        decreases n - i,
    {
        match given[i] {
            Some(p) => {
                out.push(StopOffset::at(p));
                i += 1;
            },
            None => {
                let a = i;
                let mut b: usize = i + 1;
                while b < n && given[b].is_none()
                    invariant
                        n == given@.len(),
                        a < b <= n,
                        forall|k: int| a <= k < b ==> (#[trigger] given@[k]) is None,
                    decreases n - b,
                {
                    b += 1;
                }
                let from = if a == 0 {
                    Anchor::Start
                } else {
                    match given[a - 1] {
                        Some(p) => Anchor::Percent(p),
                        None => Anchor::Start,
                    }
                };
                let to = if b == n {
                    Anchor::End
                } else {
                    match given[b] {
                        Some(p) => Anchor::Percent(p),
                        None => Anchor::End,
                    }
                };
                let first: usize = if a == 0 {
                    0
                } else {
                    a - 1
                };
                let last: usize = if b == n {
                    n - 1
                } else {
                    b
                };
                let alone = b == n && b - a == 1;
                let mut j: usize = a;
                while j < b
                    invariant
                        n == given@.len(),
                        g == numerals_view(given@),
                        a <= j <= b <= n,
                        a == 0 || given@[a - 1] is Some,
                        b == n || given@[b as int] is Some,
                        forall|k: int| a <= k < b ==> (#[trigger] given@[k]) is None,
                        first == (if a == 0 { 0 } else { a - 1 }),
                        last == (if b == n { n - 1 } else { b as int }),
                        alone == (b == n && b - a == 1),
                        from@ == (if a == 0 {
                            AnchorPoint::Start
                        } else {
                            AnchorPoint::Percent(g[a - 1]->0)
                        }),
                        to@ == (if b == n {
                            AnchorPoint::End
                        } else {
                            AnchorPoint::Percent(g[b as int]->0)
                        }),
                        out@.len() == j,
                        forall|k: int| 0 <= k < j ==> (#[trigger] out@[k])@ == placed(g, k),
                    decreases b - j,
                {
                    proof {
                        assert forall|k: int| a <= k < b implies (#[trigger] g[k]) is None by {
                            assert(given@[k] is None);
                        }
                        assert(a == 0 || g[a - 1] is Some) by {
                            if a > 0 {
                                assert(given@[a - 1] is Some);
                            }
                        }
                        assert(b == n || g[b as int] is Some) by {
                            if b < n {
                                assert(given@[b as int] is Some);
                            }
                        }
                        lemma_run_bounds(g, a as int, b as int, j as int);
                    }
                    let place = if alone {
                        StopOffset { from, to, step: 0, steps: 1 }
                    } else {
                        StopOffset { from, to, step: j - first, steps: last - first }
                    };
                    out.push(place);
                    j += 1;
                }
                i = b;
            },
        }
    }
    assert(positions(out@) =~= normalized(g));
    assert forall|i: int| 0 <= i < out@.len() implies (#[trigger] out@[i])@.well_formed() by {
        lemma_normalized(g, i);
    }
    out
}

} // verus!
