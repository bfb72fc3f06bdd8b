//! The configuration that a plot is drawn from: bounds and equation,
//! replaced together or not at all.

use crate::cfgtext::Key;
use crate::cfgtext::Line;
use crate::cfgtext::LineView;
use crate::domain::Bounds;
use crate::domain::ConfigError;
use crate::expression::compilation;
use crate::expression::verdict;
use crate::expression::written;
use crate::expression::Expression;
use crate::expression::ParseError;
use crate::scalar::Scalar;
use crate::text::chars_of;
use crate::text::int_in;
use crate::text::int_of;
use crate::text::trim;
use crate::text::trim_range;
use crate::text::trimmed;
use vstd::prelude::*;

verus! {

/// New values for some of the bounds and divisions; what is `None` stays as it is.
#[derive(Clone, Copy, Debug, PartialEq, Eq)]
pub struct Overrides {
    pub t_min: Option<Scalar>,
    pub t_max: Option<Scalar>,
    pub t_div: Option<i32>,
    pub y_min: Option<Scalar>,
    pub y_max: Option<Scalar>,
    pub y_div: Option<i32>,
}

/// The one of two values that counts: the new one where there is one.
pub open spec fn chosen<T>(new: Option<T>, old: T) -> T {
    match new {
        Some(value) => value,
        None => old,
    }
}

fn choose_scalar(new: Option<Scalar>, old: Scalar) -> (r: Scalar)
    ensures
        r == chosen(new, old),
{
    match new {
        Some(value) => value,
        None => old,
    }
}

fn choose_count(new: Option<i32>, old: i32) -> (r: i32)
    ensures
        r == chosen(new, old),
{
    match new {
        Some(value) => value,
        None => old,
    }
}

impl Overrides {
    /// Bounds with each overridden value replaced. The step is never overridden.
    pub open spec fn applied(self, bounds: Bounds) -> Bounds {
        Bounds {
            t_min: chosen(self.t_min, bounds.t_min),
            t_max: chosen(self.t_max, bounds.t_max),
            t_div: chosen(self.t_div, bounds.t_div),
            y_min: chosen(self.y_min, bounds.y_min),
            y_max: chosen(self.y_max, bounds.y_max),
            y_div: chosen(self.y_div, bounds.y_div),
            dt: bounds.dt,
        }
    }

    /// Overrides that name nothing.
    pub open spec fn empty() -> Overrides {
        Overrides { t_min: None, t_max: None, t_div: None, y_min: None, y_max: None, y_div: None }
    }

    /// Overrides that change nothing.
    pub fn none() -> (o: Overrides)
        ensures
            o == Overrides::empty(),
            forall|bounds: Bounds| #[trigger] o.applied(bounds) == bounds,
    {
        Overrides { t_min: None, t_max: None, t_div: None, y_min: None, y_max: None, y_div: None }
    }

    /// The bounds with each overridden value replaced.
    pub fn apply(&self, bounds: Bounds) -> (b: Bounds)
        ensures
            b == self.applied(bounds),
    {
        Bounds {
            t_min: choose_scalar(self.t_min, bounds.t_min),
            t_max: choose_scalar(self.t_max, bounds.t_max),
            t_div: choose_count(self.t_div, bounds.t_div),
            y_min: choose_scalar(self.y_min, bounds.y_min),
            y_max: choose_scalar(self.y_max, bounds.y_max),
            y_div: choose_count(self.y_div, bounds.y_div),
            dt: bounds.dt,
        }
    }
}

/// Why a reload was refused.
#[derive(Debug)]
pub enum ReloadError {
    /// The equation text does not parse.
    Parse(ParseError),
    /// The bounds, with the overrides applied, break a rule.
    Config(ConfigError),
}

/// Bounds that are valid, and the equation that is plotted.
pub struct DomainConfig {
    bounds: Bounds,
    equation: Expression,
}

impl DomainConfig {
    #[verifier::type_invariant]
    spec fn sound(self) -> bool {
        self.bounds.valid()
    }

    /// The bounds, for use in contracts.
    pub closed spec fn spec_bounds(self) -> Bounds {
        self.bounds
    }

    /// The equation, for use in contracts.
    pub closed spec fn spec_equation(self) -> Expression {
        self.equation
    }

    /// A configuration with the given bounds, if they are valid.
    pub fn new(bounds: Bounds, equation: Expression) -> (r: Result<DomainConfig, ConfigError>)
        ensures
            match r {
                Ok(config) => bounds.fault() is None && config.spec_bounds() == bounds
                    && config.spec_equation() == equation,
                Err(e) => bounds.fault() == Some(e),
            },
    {
        match bounds.validate() {
            Ok(_) => Ok(DomainConfig { bounds, equation }),
            Err(e) => Err(e),
        }
    }

    /// A configuration with the standard bounds.
    pub fn standard(equation: Expression) -> (config: DomainConfig)
        ensures
            config.spec_bounds() == Bounds::standard_value(),
            config.spec_equation() == equation,
    {
        DomainConfig { bounds: Bounds::standard(), equation }
    }

    /// The bounds, which are valid in every configuration.
    pub fn bounds(&self) -> (b: Bounds)
        ensures
            b == self.spec_bounds(),
            b.valid(),
    {
        proof {
            use_type_invariant(self);
        }
        self.bounds
    }

    /// The equation that is plotted.
    pub fn equation(&self) -> (e: &Expression)
        ensures
            *e == self.spec_equation(),
    {
        &self.equation
    }

    /// What a reload with `text` and `overrides` owes: the equation text is
    /// judged first, then the bounds; on success both are replaced, the
    /// equation by the text and what it compiles to; after an error nothing
    /// has changed.
    pub open spec fn reloaded(
        before: DomainConfig,
        after: DomainConfig,
        text: Seq<char>,
        overrides: Overrides,
        r: Result<(), ReloadError>,
    ) -> bool {
        match r {
            Ok(_) => {
                &&& verdict(text) is None
                &&& overrides.applied(before.spec_bounds()).fault() is None
                &&& after.spec_bounds() == overrides.applied(before.spec_bounds())
                &&& after.spec_equation().text() == text
                &&& written(after.spec_equation().form()) == compilation(text)
            },
            Err(ReloadError::Parse(e)) => {
                &&& verdict(text) == Some(e@)
                &&& after == before
            },
            Err(ReloadError::Config(e)) => {
                &&& verdict(text) is None
                &&& overrides.applied(before.spec_bounds()).fault() == Some(e)
                &&& after == before
            },
        }
    }

    /// Replaces the equation, and the bounds and divisions that are
    /// overridden, all at once or not at all.
    ///
    /// The equation text is parsed first: if it is refused, that is the
    /// error. Then the new bounds are checked: if they break a rule, that
    /// is the error. After an error the configuration is what it was.
    pub fn reload(&mut self, text: &str, overrides: &Overrides) -> (r: Result<(), ReloadError>)
        ensures
            DomainConfig::reloaded(*old(self), *final(self), text@, *overrides, r),
            text@.len() == 0 ==> r matches Err(ReloadError::Parse(_)),
    {
        let equation = match Expression::parse(text) {
            Ok(equation) => equation,
            Err(e) => {
                return Err(ReloadError::Parse(e));
            },
        };
        let bounds = overrides.apply(self.bounds);
        match bounds.validate() {
            Ok(_) => {
                *self = DomainConfig { bounds, equation };
                Ok(())
            },
            Err(e) => Err(ReloadError::Config(e)),
        }
    }

    /// Reloads from what a configuration text asks for. Where the text
    /// names no equation, the present one is compiled again from its source.
    pub fn apply(&mut self, update: &Update) -> (r: Result<(), ReloadError>)
        ensures
            DomainConfig::reloaded(
                *old(self),
                *final(self),
                chosen(update@.equation, old(self).spec_equation().text()),
                update.overrides,
                r,
            ),
            update@.equation is None ==> !(r matches Err(ReloadError::Parse(_))),
            chosen(update@.equation, old(self).spec_equation().text()).len() == 0 ==> r matches Err(
                ReloadError::Parse(_),
            ),
    {
        let text: String = match &update.equation {
            Some(text) => text.clone(),
            None => self.equation.source().to_owned(),
        };
        self.reload(text.as_str(), &update.overrides)
    }
}

/// What a configuration text asks for.
#[derive(Debug)]
pub struct Update {
    pub overrides: Overrides,
    /// The equation text of the last `eq` line, if there was one.
    pub equation: Option<String>,
    /// The keys that are none of the known ones, in the order met.
    pub unknown: Vec<String>,
    /// The lines without a colon, in the order met.
    pub malformed: Vec<String>,
}

pub struct UpdateView {
    pub overrides: Overrides,
    pub equation: Option<Seq<char>>,
    pub unknown: Seq<Seq<char>>,
    pub malformed: Seq<Seq<char>>,
}

/// The texts of a list of strings.
pub open spec fn texts(list: Seq<String>) -> Seq<Seq<char>> {
    list.map_values(|s: String| s@)
}

impl View for Update {
    type V = UpdateView;

    open spec fn view(&self) -> UpdateView {
        UpdateView {
            overrides: self.overrides,
            equation: match self.equation {
                Some(text) => Some(text@),
                None => None,
            },
            unknown: texts(self.unknown@),
            malformed: texts(self.malformed@),
        }
    }
}

/// The later of two settings: the new one where there is one.
pub open spec fn later<T>(new: Option<T>, old: Option<T>) -> Option<T> {
    if new is Some {
        new
    } else {
        old
    }
}

/// The text that is to be read as a number for a line: the trimmed value
/// of a line that sets a bound, nothing for any other line.
pub open spec fn number_text(line: LineView) -> Option<Seq<char>> {
    match line {
        LineView::Setting { key, value } => match key {
            Key::TMin | Key::TMax | Key::YMin | Key::YMax => Some(trimmed(value)),
            _ => None,
        },
        _ => None,
    }
}

/// An update after one more line. `number` is what the value of a line
/// that sets a bound was read as; a value that does not read as a number
/// leaves the setting as it was, for bounds and divisions alike. An `eq`
/// line sets the equation text to its value as it stands.
pub open spec fn absorbed(update: UpdateView, line: LineView, number: Option<Scalar>) -> UpdateView {
    let o = update.overrides;
    match line {
        LineView::Setting { key, value } => match key {
            Key::TMin => UpdateView {
                overrides: Overrides { t_min: later(number, o.t_min), ..o },
                ..update
            },
            Key::TMax => UpdateView {
                overrides: Overrides { t_max: later(number, o.t_max), ..o },
                ..update
            },
            Key::YMin => UpdateView {
                overrides: Overrides { y_min: later(number, o.y_min), ..o },
                ..update
            },
            Key::YMax => UpdateView {
                overrides: Overrides { y_max: later(number, o.y_max), ..o },
                ..update
            },
            Key::TDiv => UpdateView {
                overrides: Overrides { t_div: later(int_of(trimmed(value)), o.t_div), ..o },
                ..update
            },
            Key::YDiv => UpdateView {
                overrides: Overrides { y_div: later(int_of(trimmed(value)), o.y_div), ..o },
                ..update
            },
            Key::Equation => UpdateView { equation: Some(value), ..update },
        },
        LineView::Unknown { key } => UpdateView { unknown: update.unknown.push(key), ..update },
        LineView::Malformed { text } => UpdateView {
            malformed: update.malformed.push(text),
            ..update
        },
    }
}

/// The `k`-th of a list of numbers, nothing beyond its end.
pub open spec fn number_at(numbers: Seq<Option<Scalar>>, k: int) -> Option<Scalar> {
    if 0 <= k < numbers.len() {
        numbers[k]
    } else {
        None
    }
}

/// The update that the first `n` lines ask for, `numbers[k]` being what
/// the value of line `k` was read as.
pub open spec fn folded(lines: Seq<Line>, numbers: Seq<Option<Scalar>>, n: int) -> UpdateView
    decreases n,
{
    if n <= 0 {
        UpdateView {
            overrides: Overrides::empty(),
            equation: None,
            unknown: Seq::empty(),
            malformed: Seq::empty(),
        }
    } else {
        absorbed(folded(lines, numbers, n - 1), lines[n - 1]@, number_at(numbers, n - 1))
    }
}

fn later_scalar(new: Option<Scalar>, old: Option<Scalar>) -> (r: Option<Scalar>)
    ensures
        r == later(new, old),
{
    if new.is_some() {
        new
    } else {
        old
    }
}

fn later_count(new: Option<i32>, old: Option<i32>) -> (r: Option<i32>)
    ensures
        r == later(new, old),
{
    if new.is_some() {
        new
    } else {
        old
    }
}

/// Reads a value as a count of divisions: a decimal integer, trimmed first.
pub fn read_count(value: &str) -> (r: Option<i32>)
    ensures
        r == int_of(trimmed(value@)),
{
    let chars = chars_of(value);
    let (a, b) = trim_range(&chars, 0, chars.len());
    proof {
        assert(chars@.subrange(0, chars@.len() as int) =~= chars@);
    }
    int_in(&chars, a, b)
}

/// The text that the caller is to read as a number for this line, if any.
pub fn number_text_of(line: &Line) -> (r: Option<String>)
    ensures
        match r {
            Some(text) => number_text(line@) == Some(text@),
            None => number_text(line@) is None,
        },
{
    match line {
        Line::Setting { key, value } => match key {
            Key::TMin | Key::TMax | Key::YMin | Key::YMax => Some(trim(value.as_str())),
            _ => None,
        },
        _ => None,
    }
}

impl Update {
    /// An update that asks for nothing.
    pub fn new() -> (u: Update)
        ensures
            u@ == folded(Seq::empty(), Seq::empty(), 0),
    {
        let u = Update {
            overrides: Overrides::none(),
            equation: None,
            unknown: Vec::new(),
            malformed: Vec::new(),
        };
        proof {
            assert(texts(u.unknown@) =~= Seq::empty());
            assert(texts(u.malformed@) =~= Seq::empty());
        }
        u
    }

    /// Takes in one more line.
    pub fn absorb(&mut self, line: &Line, number: Option<Scalar>)
        ensures
            final(self)@ == absorbed(old(self)@, line@, number),
    {
        match line {
            Line::Setting { key, value } => match key {
                Key::TMin => {
                    self.overrides.t_min = later_scalar(number, self.overrides.t_min);
                },
                Key::TMax => {
                    self.overrides.t_max = later_scalar(number, self.overrides.t_max);
                },
                Key::YMin => {
                    self.overrides.y_min = later_scalar(number, self.overrides.y_min);
                },
                Key::YMax => {
                    self.overrides.y_max = later_scalar(number, self.overrides.y_max);
                },
                Key::TDiv => {
                    self.overrides.t_div = later_count(
                        read_count(value.as_str()),
                        self.overrides.t_div,
                    );
                },
                Key::YDiv => {
                    self.overrides.y_div = later_count(
                        read_count(value.as_str()),
                        self.overrides.y_div,
                    );
                },
                Key::Equation => {
                    self.equation = Some(value.clone());
                },
            },
            Line::Unknown { key } => {
                self.unknown.push(key.clone());
                proof {
                    assert(texts(self.unknown@) =~= texts(old(self).unknown@).push(key@));
                }
            },
            Line::Malformed { text } => {
                self.malformed.push(text.clone());
                proof {
                    assert(texts(self.malformed@) =~= texts(old(self).malformed@).push(text@));
                }
            },
        }
    }
}

/// Gathers what the lines of a configuration text ask for. `numbers[k]`
/// is what the caller read the number text of line `k` as, if anything.
pub fn gather(lines: &Vec<Line>, numbers: &Vec<Option<Scalar>>) -> (update: Update)
    ensures
        update@ == folded(lines@, numbers@, lines@.len() as int),
{
    let mut update = Update::new();
    let mut k: usize = 0;
    while k < lines.len()
        invariant
            k <= lines.len(),
            update@ == folded(lines@, numbers@, k as int),
        decreases lines.len() - k,
    {
        let number: Option<Scalar> = if k < numbers.len() {
            numbers[k]
        } else {
            None
        };
        update.absorb(&lines[k], number);
        k = k + 1;
    }
    update
}

} // verus!
