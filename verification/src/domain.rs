//! The rectangle of `(t, y)` space that is plotted, its grid resolution and
//! the integration step.

use crate::scalar::Scalar;
use vstd::prelude::*;

verus! {

/// A point of domain space.
#[derive(Clone, Copy, Debug, PartialEq, Eq, Structural)]
pub struct Point {
    pub t: Scalar,
    pub y: Scalar,
}

/// Why a set of bounds cannot be plotted.
#[derive(Clone, Copy, Debug, PartialEq, Eq, Structural)]
pub enum ConfigError {
    /// `t_min < t_max` does not hold.
    TimeBounds,
    /// `y_min < y_max` does not hold.
    ValueBounds,
    /// `t_div` is not positive.
    TimeDivisions,
    /// `y_div` is not positive.
    ValueDivisions,
    /// `dt > 0` does not hold.
    Step,
}

/// The coordinate mapping divides by an extent that is zero.
#[derive(Clone, Copy, Debug, PartialEq, Eq, Structural)]
pub struct DivideByZero;

/// Bounds, grid resolution and step size.
#[derive(Clone, Copy, Debug, PartialEq, Eq, Structural)]
pub struct Bounds {
    pub t_min: Scalar,
    pub t_max: Scalar,
    pub t_div: i32,
    pub y_min: Scalar,
    pub y_max: Scalar,
    pub y_div: i32,
    pub dt: Scalar,
}

impl Bounds {
    /// The first rule that the bounds break, in the order bounds of `t`,
    /// bounds of `y`, divisions of `t`, divisions of `y`, step. A NaN in a
    /// bound or in the step breaks the rule that reads it.
    pub open spec fn fault(self) -> Option<ConfigError> {
        if !self.t_min.below(self.t_max) {
            Some(ConfigError::TimeBounds)
        } else if !self.y_min.below(self.y_max) {
            Some(ConfigError::ValueBounds)
        } else if self.t_div <= 0 {
            Some(ConfigError::TimeDivisions)
        } else if self.y_div <= 0 {
            Some(ConfigError::ValueDivisions)
        } else if !Scalar::zero_value().below(self.dt) {
            Some(ConfigError::Step)
        } else {
            None
        }
    }

    /// `t_min < t_max`, `y_min < y_max`, both divisions and the step positive.
    pub open spec fn valid(self) -> bool {
        self.fault() is None
    }

    /// `t` and `y` both lie within their bounds, ends included. A point with
    /// a NaN coordinate lies nowhere.
    pub open spec fn holds(self, p: Point) -> bool {
        &&& self.t_min.not_above(p.t)
        &&& p.t.not_above(self.t_max)
        &&& self.y_min.not_above(p.y)
        &&& p.y.not_above(self.y_max)
    }

    /// One of the two extents is zero, so the mapping to the display is undefined.
    pub open spec fn flat(self) -> bool {
        self.t_max.equals(self.t_min) || self.y_max.equals(self.y_min)
    }

    /// `t` from -10 to 10 in 40 divisions, `y` from -10 to 10 in 32
    /// divisions, and a step of 0.01, each as its bit pattern.
    pub open spec fn standard_value() -> Bounds {
        Bounds {
            t_min: Scalar { bits: 0xC120_0000 },
            t_max: Scalar { bits: 0x4120_0000 },
            t_div: 40,
            y_min: Scalar { bits: 0xC120_0000 },
            y_max: Scalar { bits: 0x4120_0000 },
            y_div: 32,
            dt: Scalar { bits: 0x3C23_D70A },
        }
    }

    /// The bounds that a plot starts with.
    pub fn standard() -> (b: Bounds)
        ensures
            b.valid(),
            b == Bounds::standard_value(),
    {
        let low = Scalar::from_bits(0xC120_0000);
        let high = Scalar::from_bits(0x4120_0000);
        let dt = Scalar::from_bits(0x3C23_D70A);
        proof {
            low.lemma_rank_orders(high);
            Scalar::zero_value().lemma_rank_orders(dt);
        }
        Bounds { t_min: low, t_max: high, t_div: 40, y_min: low, y_max: high, y_div: 32, dt }
    }

    /// Checks the bounds against every rule and names the first one broken.
    pub fn validate(&self) -> (r: Result<(), ConfigError>)
        ensures
            match r {
                Ok(_) => self.fault() is None,
                Err(e) => self.fault() == Some(e),
            },
    {
        if !self.t_min.less_than(self.t_max) {
            Err(ConfigError::TimeBounds)
        } else if !self.y_min.less_than(self.y_max) {
            Err(ConfigError::ValueBounds)
        } else if self.t_div <= 0 {
            Err(ConfigError::TimeDivisions)
        } else if self.y_div <= 0 {
            Err(ConfigError::ValueDivisions)
        } else if !self.dt.is_positive() {
            Err(ConfigError::Step)
        } else {
            Ok(())
        }
    }

    /// The in-bounds test of the curve tracer.
    pub fn contains(&self, p: Point) -> (r: bool)
        ensures
            r == self.holds(p),
    {
        self.t_min.at_most(p.t) && p.t.at_most(self.t_max) && self.y_min.at_most(p.y)
            && p.y.at_most(self.y_max)
    }

    /// Whether the mapping between domain and display can be computed:
    /// it divides by both extents, so neither may be zero.
    pub fn check_extents(&self) -> (r: Result<(), DivideByZero>)
        ensures
            r is Err <==> self.flat(),
    {
        if self.t_max.same_number(self.t_min) || self.y_max.same_number(self.y_min) {
            Err(DivideByZero)
        } else {
            Ok(())
        }
    }

    /// Valid bounds have two non-zero extents.
    pub proof fn lemma_valid_not_flat(self)
        requires
            self.valid(),
        ensures
            !self.flat(),
    {
    }

    /// A point with a NaN coordinate is out of bounds, whatever the bounds.
    pub proof fn lemma_nan_outside(self, p: Point)
        requires
            p.t.nan() || p.y.nan(),
        ensures
            !self.holds(p),
    {
    }
}

} // verus!
