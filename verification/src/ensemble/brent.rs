//! The bookkeeping of a search for the least value of a function of one number.
//!
//! First three points are found of which the middle one is the lowest; then the interval around the
//! lowest point is narrowed. Where to evaluate the function next is a matter of arithmetic; what is
//! kept of an evaluation is decided here. Numbers are held as the bits of doubles.

use vstd::prelude::*;

use crate::float_bits;

verus! {

/// A place and the function's value there.
#[derive(Debug, Clone, Copy, PartialEq, Eq, Structural)]
pub struct Point {
    pub x: u64,
    pub f: u64,
}

/// Three points of a downhill walk.
#[derive(Debug, Clone, Copy, PartialEq, Eq, Structural)]
pub struct Bracket {
    pub a: Point,
    pub b: Point,
    pub c: Point,
}

/// Where a new point lies: between the last two, ahead of them, at the limit, or a step ahead because
/// it lies nowhere useful.
#[derive(Debug, Clone, Copy, PartialEq, Eq, Structural)]
pub enum Place {
    Between,
    Ahead,
    Limit,
    Step,
}

/// What follows an evaluation.
#[derive(Debug, Clone, Copy, PartialEq, Eq, Structural)]
pub enum Next {
    /// The walk goes on.
    Walk,
    /// One more point, a step ahead of the last, is evaluated and taken.
    Stride,
    /// The lowest point is between the others.
    Done,
}

impl Bracket {
    /// The walk goes down from the first point to the second.
    pub open spec fn descends(self) -> bool {
        !float_bits::greater(self.b.f, self.a.f)
    }

    /// The last point is lower still, so that the walk goes on.
    pub open spec fn falls(self) -> bool {
        float_bits::greater(self.b.f, self.c.f)
    }

    /// The middle point is no higher than the others.
    pub open spec fn encloses(self) -> bool {
        !float_bits::greater(self.b.f, self.a.f) && !float_bits::greater(self.b.f, self.c.f)
    }

    /// The last two points and a new one.
    pub open spec fn shifted(self, u: Point) -> Bracket {
        Bracket { a: self.b, b: self.c, c: u }
    }

    /// Two points, the higher one first.
    pub fn order(a: Point, b: Point) -> (r: (Point, Point))
        ensures
            r == (if float_bits::greater(b.f, a.f) {
                (b, a)
            } else {
                (a, b)
            }),
            !float_bits::greater(r.1.f, r.0.f),
    {
        if float_bits::is_greater(b.f, a.f) {
            (b, a)
        } else {
            (a, b)
        }
    }

    /// Whether the walk goes on.
    pub fn is_falling(&self) -> (r: bool)
        ensures
            r == self.falls(),
    {
        float_bits::is_greater(self.b.f, self.c.f)
    }

    /// Takes a new point.
    pub fn take_point(&mut self, u: Point)
        ensures
            *final(self) == old(self).shifted(u),
    {
        let next = Bracket { a: self.b, b: self.c, c: u };
        *self = next;
    }

    /// What the points are once a new one was evaluated, and what follows.
    pub open spec fn judged(self, place: Place, u: Point) -> (Bracket, Next) {
        match place {
            Place::Between => if float_bits::greater(self.c.f, u.f) {
                (Bracket { a: self.b, b: u, c: self.c }, Next::Done)
            } else if float_bits::greater(u.f, self.b.f) {
                (Bracket { a: self.a, b: self.b, c: u }, Next::Done)
            } else {
                (self, Next::Stride)
            },
            Place::Ahead => if float_bits::greater(self.c.f, u.f) {
                (Bracket { a: self.a, b: self.c, c: u }, Next::Stride)
            } else {
                (self.shifted(u), Next::Walk)
            },
            Place::Limit | Place::Step => (self.shifted(u), Next::Walk),
        }
    }

    /// Judges a new point by where it lies.
    pub fn judge(&mut self, place: Place, u: Point) -> (r: Next)
        ensures
            (*final(self), r) == old(self).judged(place, u),
    {
        match place {
            Place::Between => {
                if float_bits::is_greater(self.c.f, u.f) {
                    let next = Bracket { a: self.b, b: u, c: self.c };
                    *self = next;
                    Next::Done
                } else if float_bits::is_greater(u.f, self.b.f) {
                    let next = Bracket { a: self.a, b: self.b, c: u };
                    *self = next;
                    Next::Done
                } else {
                    Next::Stride
                }
            },
            Place::Ahead => {
                if float_bits::is_greater(self.c.f, u.f) {
                    let next = Bracket { a: self.a, b: self.c, c: u };
                    *self = next;
                    Next::Stride
                } else {
                    self.take_point(u);
                    Next::Walk
                }
            },
            Place::Limit | Place::Step => {
                self.take_point(u);
                Next::Walk
            },
        }
    }

    /// A walk that ends has its lowest point between the others.
    pub proof fn law_done_encloses(self, place: Place, u: Point)
        requires
            self.descends(),
            self.falls(),
            self.judged(place, u).1 == Next::Done,
        ensures
            self.judged(place, u).0.encloses(),
    {
    }

    /// A walk that goes on goes down, and once it falls no more its lowest point is between the others.
    pub proof fn law_walk_descends(self, place: Place, u: Point, further: Point)
        requires
            self.descends(),
            self.falls(),
        ensures
            self.judged(place, u).1 == Next::Walk ==> self.judged(place, u).0.descends() && (
            self.judged(place, u).0.falls() || self.judged(place, u).0.encloses()),
            self.judged(place, u).1 == Next::Stride ==> self.judged(place, u).0.shifted(further).descends() && (
            self.judged(place, u).0.shifted(further).falls() || self.judged(place, u).0.shifted(
                further,
            ).encloses()),
    {
    }
}

/// The interval that is searched, and the three lowest points so far.
#[derive(Debug, Clone, Copy, PartialEq, Eq, Structural)]
pub struct Search {
    pub low: u64,
    pub high: u64,
    pub best: Point,
    pub second: Point,
    pub third: Point,
}

impl Search {
    /// The interval holds the best point.
    pub open spec fn holds_best(self) -> bool {
        float_bits::at_most(self.low, self.best.x) && float_bits::at_most(self.best.x, self.high)
    }

    /// Starts in the interval between the ends of a bracket, with its middle point, of which the value
    /// is given anew.
    pub fn new(bracket: &Bracket, f: u64) -> (r: Self)
        ensures
            r == (Search {
                low: if float_bits::greater(bracket.c.x, bracket.a.x) {
                    bracket.a.x
                } else {
                    bracket.c.x
                },
                high: if float_bits::greater(bracket.c.x, bracket.a.x) {
                    bracket.c.x
                } else {
                    bracket.a.x
                },
                best: Point { x: bracket.b.x, f },
                second: Point { x: bracket.b.x, f },
                third: Point { x: bracket.b.x, f },
            }),
    {
        let (low, high): (u64, u64) = if float_bits::is_greater(bracket.c.x, bracket.a.x) {
            (bracket.a.x, bracket.c.x)
        } else {
            (bracket.c.x, bracket.a.x)
        };
        let p = Point { x: bracket.b.x, f };
        Search { low, high, best: p, second: p, third: p }
    }

    /// What is known once a point was evaluated.
    pub open spec fn narrowed(self, u: Point) -> Search {
        if float_bits::at_most(u.f, self.best.f) {
            let kept = if float_bits::at_most(self.best.x, u.x) {
                Search { low: self.best.x, ..self }
            } else {
                Search { high: self.best.x, ..self }
            };
            Search { best: u, second: self.best, third: self.second, ..kept }
        } else {
            let kept = if float_bits::greater(self.best.x, u.x) {
                Search { low: u.x, ..self }
            } else {
                Search { high: u.x, ..self }
            };
            if float_bits::at_most(u.f, self.second.f) || float_bits::equal(self.second.x, self.best.x) {
                Search { second: u, third: self.second, ..kept }
            } else if float_bits::at_most(u.f, self.third.f) || float_bits::equal(self.third.x, self.best.x)
                || float_bits::equal(self.third.x, self.second.x) {
                Search { third: u, ..kept }
            } else {
                kept
            }
        }
    }

    /// Narrows the interval by a point that was evaluated.
    pub fn narrow(&mut self, u: Point)
        ensures
            *final(self) == old(self).narrowed(u),
    {
        let (best, second, third): (Point, Point, Point) = (self.best, self.second, self.third);
        if float_bits::is_at_most(u.f, best.f) {
            if float_bits::is_at_most(best.x, u.x) {
                self.low = best.x;
            } else {
                self.high = best.x;
            }
            self.third = second;
            self.second = best;
            self.best = u;
        } else {
            if float_bits::is_greater(best.x, u.x) {
                self.low = u.x;
            } else {
                self.high = u.x;
            }
            if float_bits::is_at_most(u.f, second.f) || float_bits::is_equal(second.x, best.x) {
                self.third = second;
                self.second = u;
            } else if float_bits::is_at_most(u.f, third.f) || float_bits::is_equal(third.x, best.x)
                || float_bits::is_equal(third.x, second.x) {
                self.third = u;
            }
        }
    }

    /// The best point never gets worse.
    pub proof fn law_best_improves(self, u: Point)
        ensures
            !float_bits::greater(self.narrowed(u).best.f, self.best.f),
            self.narrowed(u).best == u || self.narrowed(u).best == self.best,
    {
    }

    /// A point of the interval leaves an interval that is no larger and holds the best point.
    pub proof fn law_interval_shrinks(self, u: Point)
        requires
            self.holds_best(),
            float_bits::at_most(self.low, u.x),
            float_bits::at_most(u.x, self.high),
        ensures
            self.narrowed(u).holds_best(),
            float_bits::at_most(self.low, self.narrowed(u).low),
            float_bits::at_most(self.narrowed(u).high, self.high),
    {
    }
}

/// What a point does to a walk: between the last two it either ends the walk on one side of it or
/// asks for a stride; ahead it is taken, and asks for a stride where it is lower than the last; a
/// point at the limit or a step ahead is taken.
pub proof fn law_points_are_judged(b: Bracket, u: Point)
    ensures
        float_bits::greater(b.c.f, u.f) ==> b.judged(Place::Between, u) == (
            Bracket { a: b.b, b: u, c: b.c },
            Next::Done,
        ),
        !float_bits::greater(b.c.f, u.f) && float_bits::greater(u.f, b.b.f) ==> b.judged(Place::Between, u) == (
            Bracket { a: b.a, b: b.b, c: u },
            Next::Done,
        ),
        !float_bits::greater(b.c.f, u.f) && !float_bits::greater(u.f, b.b.f) ==> b.judged(Place::Between, u) == (
            b,
            Next::Stride,
        ),
        float_bits::greater(b.c.f, u.f) ==> b.judged(Place::Ahead, u) == (
            Bracket { a: b.a, b: b.c, c: u },
            Next::Stride,
        ),
        !float_bits::greater(b.c.f, u.f) ==> b.judged(Place::Ahead, u) == (
            Bracket { a: b.b, b: b.c, c: u },
            Next::Walk,
        ),
        b.judged(Place::Limit, u) == (Bracket { a: b.b, b: b.c, c: u }, Next::Walk),
        b.judged(Place::Step, u) == (Bracket { a: b.b, b: b.c, c: u }, Next::Walk),
{
}

/// What a point does to a search: a better one becomes the best and pushes the others back, and the
/// interval ends at the old best; a worse one becomes an end of the interval, and the second or third
/// best where it is good enough.
pub proof fn law_points_narrow(s: Search, u: Point)
    ensures
        float_bits::at_most(u.f, s.best.f) ==> s.narrowed(u).best == u && s.narrowed(u).second == s.best && s.narrowed(
            u,
        ).third == s.second,
        float_bits::at_most(u.f, s.best.f) && float_bits::at_most(s.best.x, u.x) ==> s.narrowed(u).low == s.best.x
            && s.narrowed(u).high == s.high,
        float_bits::at_most(u.f, s.best.f) && !float_bits::at_most(s.best.x, u.x) ==> s.narrowed(u).low == s.low
            && s.narrowed(u).high == s.best.x,
        !float_bits::at_most(u.f, s.best.f) ==> s.narrowed(u).best == s.best,
        !float_bits::at_most(u.f, s.best.f) && float_bits::greater(s.best.x, u.x) ==> s.narrowed(u).low == u.x
            && s.narrowed(u).high == s.high,
        !float_bits::at_most(u.f, s.best.f) && !float_bits::greater(s.best.x, u.x) ==> s.narrowed(u).low == s.low
            && s.narrowed(u).high == u.x,
        !float_bits::at_most(u.f, s.best.f) && (float_bits::at_most(u.f, s.second.f) || float_bits::equal(
            s.second.x,
            s.best.x,
        )) ==> s.narrowed(u).second == u && s.narrowed(u).third == s.second,
        !float_bits::at_most(u.f, s.best.f) && !float_bits::at_most(u.f, s.second.f) && !float_bits::equal(
            s.second.x,
            s.best.x,
        ) ==> s.narrowed(u).second == s.second && s.narrowed(u).third == (if float_bits::at_most(u.f, s.third.f)
            || float_bits::equal(s.third.x, s.best.x) || float_bits::equal(s.third.x, s.second.x) {
            u
        } else {
            s.third
        }),
{
}

} // verus!
