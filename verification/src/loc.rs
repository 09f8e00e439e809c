use vstd::prelude::*;

verus! {

/// A half-open byte range `start..end` in the source buffer.
#[derive(Clone, Copy, PartialEq, Eq, Structural, Debug, Default)]
pub struct Loc {
    pub start: usize,
    pub end: usize,
}

/// Smallest range that covers both `a` and `b`.
pub open spec fn spec_join(a: Loc, b: Loc) -> Loc {
    Loc {
        start: if a.start <= b.start { a.start } else { b.start },
        end: if a.end >= b.end { a.end } else { b.end },
    }
}

/// Decimal digits of `n`, most significant first (`0` is a single `'0'`).
pub open spec fn spec_decimal(n: nat) -> Seq<u8>
    decreases n,
{
    if n < 10 {
        seq![(48 + n) as u8]
    } else {
        spec_decimal(n / 10).push((48 + n % 10) as u8)
    }
}

/// `start...end`, the way a location is printed.
pub open spec fn spec_loc_text(l: Loc) -> Seq<u8> {
    spec_decimal(l.start as nat) + seq![46u8, 46u8, 46u8] + spec_decimal(l.end as nat)
}

/// Appends the decimal digits of `n` to `out`.
pub fn push_decimal(out: &mut Vec<u8>, n: usize)
    ensures
        final(out)@ == old(out)@ + spec_decimal(n as nat),
    decreases n,
{
    if n < 10 {
        out.push((48 + n) as u8);
    } else {
        push_decimal(out, n / 10);
        out.push((48 + n % 10) as u8);
    }
}

impl Loc {
    /// Converts location to a range
    pub fn to_range(&self) -> (r: core::ops::Range<usize>)
        ensures
            r.start == self.start,
            r.end == self.end,
    {
        self.start..self.end
    }

    /// Returns size of the `Loc` (i.e. `end - start`)
    pub fn size(&self) -> (r: usize)
        requires
            self.start <= self.end,
        ensures
            r == self.end - self.start,
    {
        self.end - self.start
    }

    /// Returns a new `Loc` with given `start` and current `end`
    pub fn with_start(&self, start: usize) -> (r: Loc)
        ensures
            r == (Loc { start: start, end: self.end }),
    {
        Loc { start: start, end: self.end }
    }

    /// Returns a new `Loc` with given `end` and current `start`
    pub fn with_end(&self, end: usize) -> (r: Loc)
        ensures
            r == (Loc { start: self.start, end: end }),
    {
        Loc { start: self.start, end: end }
    }

    /// Adds given `delta` to `start`; the start and the result must both fit in an `i32`,
    /// and the result must not be negative.
    pub fn adjust_start(&self, delta: i32) -> (r: Loc)
        requires
            self.start <= i32::MAX,
            0 <= self.start + delta <= i32::MAX,
        ensures
            r.start == self.start + delta,
            r.end == self.end,
    {
        let start: i32 = self.start as i32;
        let moved: i32 = start + delta;
        Loc { start: moved as usize, end: self.end }
    }

    /// Adds given `d` to `end`; the end and the result must both fit in an `i32`,
    /// and the result must not be negative.
    pub fn adjust_end(&self, d: i32) -> (r: Loc)
        requires
            self.end <= i32::MAX,
            0 <= self.end + d <= i32::MAX,
        ensures
            r.start == self.start,
            r.end == self.end + d,
    {
        let end: i32 = self.end as i32;
        let moved: i32 = end + d;
        Loc { start: self.start, end: moved as usize }
    }

    /// Returns a new `Loc` with the same `start`, but adjusted `end`,
    /// so that its size is equal to given `new_size`
    pub fn resize(&self, new_size: usize) -> (r: Loc)
        requires
            self.start + new_size <= usize::MAX,
        ensures
            r.start == self.start,
            r.end == self.start + new_size,
    {
        self.with_end(self.start + new_size)
    }

    /// Joins two `Loc`s by choosing `min(start)` + `max(end)`
    pub fn join(&self, other: &Self) -> (r: Loc)
        ensures
            r == spec_join(*self, *other),
    {
        Loc {
            start: if self.start <= other.start { self.start } else { other.start },
            end: if self.end >= other.end { self.end } else { other.end },
        }
    }

    /// Joins with `other` when there is one, else returns `self` unchanged.
    pub fn maybe_join(&self, other: &Option<Loc>) -> (r: Loc)
        ensures
            r == match other {
                Some(o) => spec_join(*self, *o),
                None => *self,
            },
    {
        match other {
            Some(o) => self.join(o),
            None => *self,
        }
    }

    /// Returns true if `Loc` is empty (i.e. `start` == `end`)
    pub fn is_empty(&self) -> (r: bool)
        ensures
            r == (self.start == self.end),
    {
        self.start == self.end
    }

    /// The location printed as `start...end`.
    pub fn inspect(&self) -> (r: Vec<u8>)
        ensures
            r@ == spec_loc_text(*self),
    {
        let mut out: Vec<u8> = Vec::new();
        push_decimal(&mut out, self.start);
        out.push(46u8);
        out.push(46u8);
        out.push(46u8);
        push_decimal(&mut out, self.end);
        proof {
            assert(out@ =~= spec_decimal(self.start as nat) + seq![46u8, 46u8, 46u8]
                + spec_decimal(self.end as nat));
        }
        out
    }
}

/// Joining is commutative.
pub proof fn law_join_commutative(a: Loc, b: Loc)
    ensures
        spec_join(a, b) == spec_join(b, a),
{
}

/// Joining is associative.
pub proof fn law_join_associative(a: Loc, b: Loc, c: Loc)
    ensures
        spec_join(spec_join(a, b), c) == spec_join(a, spec_join(b, c)),
{
}

/// Joining a location with itself gives it back.
pub proof fn law_join_idempotent(a: Loc)
    ensures
        spec_join(a, a) == a,
{
}

/// The join covers both of its arguments.
pub proof fn law_join_covers(a: Loc, b: Loc)
    ensures
        spec_join(a, b).start <= a.start,
        spec_join(a, b).start <= b.start,
        spec_join(a, b).end >= a.end,
        spec_join(a, b).end >= b.end,
{
}

} // verus!
