use fasteval::Evaler;
use slopefield::cfgtext::{find, key_in, read_lines, Key, Line};
use slopefield::config::{
    gather, number_text_of, read_count, DomainConfig, Overrides, ReloadError, Update,
};
use slopefield::domain::{Bounds, ConfigError, Point};
use slopefield::expression::{resolve, Expression, ParseError, ParseFailure, Stop, Symbol};
use slopefield::grid::{axis_count, drop_gaps, grid_size, sample_with, SamplePoint};
use slopefield::scalar::Scalar;
use slopefield::text::chars_of;
use slopefield::trace::{step_budget, trace_with, Cursor, Request, Segment, Side, Tracer};

fn s(x: f32) -> Scalar {
    Scalar::from_bits(x.to_bits())
}

fn f(x: Scalar) -> f32 {
    f32::from_bits(x.to_bits())
}

fn p(t: f32, y: f32) -> Point {
    Point { t: s(t), y: s(y) }
}

fn bounds(t_min: f32, t_max: f32, t_div: i32, y_min: f32, y_max: f32, y_div: i32, dt: f32) -> Bounds {
    Bounds { t_min: s(t_min), t_max: s(t_max), t_div, y_min: s(y_min), y_max: s(y_max), y_div, dt: s(dt) }
}

fn equation(text: &str) -> Expression {
    match Expression::parse(text) {
        Ok(e) => e,
        Err(e) => panic!("{:?}", e),
    }
}

fn evaluate(e: &Expression, t: f32, y: f32) -> Option<f32> {
    let mut names = |name: &str, args: Vec<f64>| -> Option<f64> {
        match resolve(name, args.len()) {
            Some(Symbol::Time) => Some(t as f64),
            Some(Symbol::Value) => Some(y as f64),
            Some(Symbol::Exp) => Some(args[0].exp()),
            Some(Symbol::Sqrt) => Some(args[0].sqrt()),
            None => None,
        }
    };
    let compiled = e.compiled();
    compiled.program.eval(&compiled.slab, &mut names).ok().map(|v| v as f32)
}

fn sample(b: &Bounds, e: &Expression) -> Vec<Option<SamplePoint>> {
    let (t_min, t_max, y_min, y_max) = (f(b.t_min), f(b.t_max), f(b.y_min), f(b.y_max));
    let (t_div, y_div) = (b.t_div, b.y_div);
    sample_with(t_div, y_div, |i: i32, j: i32| {
        let t = (t_max - t_min) / t_div as f32 * i as f32 + t_min;
        let y = (y_max - y_min) / y_div as f32 * j as f32 + y_min;
        evaluate(e, t, y).map(|slope| SamplePoint { t: s(t), y: s(y), slope: s(slope) })
    })
}

fn budget(b: &Bounds) -> u64 {
    let steps = ((f(b.t_max) - f(b.t_min)) / f(b.dt)).ceil();
    step_budget(steps as u64)
}

fn trace(b: &Bounds, e: &Expression, seed: Point) -> Vec<Segment> {
    let dt = f(b.dt);
    trace_with(*b, seed, budget(b), |side: Side, from: Point| {
        let (t, y) = (f(from.t), f(from.y));
        let slope = evaluate(e, t, y)?;
        Some(match side {
            Side::Left => p(t - dt, y - slope * dt),
            Side::Right => p(t + dt, y + slope * dt),
        })
    })
}

#[test]
fn parse_accepts_equations() {
    for text in ["t*y", "0", "t", "1/ (t-5)", " sin(t) + cos(y)^2 ", "-t", "sqrt(abs(y)) * exp(-t)", "log(t)+tan(y)"].iter() {
        let e = equation(text);
        assert_eq!(e.source(), *text);
    }
}

#[test]
fn parse_refuses_a_text_that_is_too_long() {
    let fits = format!("t{}", " ".repeat(4095));
    assert_eq!(fits.len(), 4096);
    assert_eq!(equation(&fits).source(), fits);
    let long = format!("t{}", " ".repeat(4096));
    let e = Expression::parse(&long).err().unwrap();
    assert_eq!(e.message, "the equation is longer than 4096 bytes");
    assert_eq!(e.position, None);
    let e = Expression::parse(&"é".repeat(2049)).err().unwrap();
    assert_eq!(e.message, "the equation is longer than 4096 bytes");
}

#[test]
fn parse_has_room_for_every_term() {
    for terms in [1usize, 2, 63, 64, 65, 66, 200, 1000].iter() {
        let text = vec!["(1)"; *terms].join("+");
        assert_eq!(evaluate(&equation(&text), 0.0, 0.0), Some(*terms as f32), "{}", terms);
    }
    let signs = format!("{}1", "-".repeat(30));
    assert_eq!(evaluate(&equation(&signs), 0.0, 0.0), Some(1.0));
    let nested = format!("{}t{}", "(".repeat(30), ")".repeat(30));
    assert_eq!(evaluate(&equation(&nested), 2.0, 0.0), Some(2.0));
    let e = Expression::parse(&format!("{}t{}", "(".repeat(40), ")".repeat(40))).err().unwrap();
    assert_eq!(e.message, "TooDeep");
    assert_eq!(e.position, None);
}

#[test]
fn the_step_budget_is_twice_the_crossing_and_two() {
    assert_eq!(step_budget(0), 2);
    assert_eq!(step_budget(1), 4);
    assert_eq!(step_budget(2000), 4002);
    assert_eq!(step_budget((u64::MAX - 2) / 2), u64::MAX - 1);
    assert_eq!(step_budget((u64::MAX - 2) / 2 + 1), u64::MAX);
    assert_eq!(step_budget(u64::MAX), u64::MAX);
    assert_eq!(budget(&Bounds::standard()), 4002);
}

#[test]
fn parse_refuses_empty_text() {
    let e: ParseError = Expression::parse("").err().unwrap();
    assert_eq!(e.position, Some(0));
    assert_eq!(e.message, "EofWhileParsing(\"value\")");
    let e = Expression::parse("   ").err().unwrap();
    assert_eq!(e.position, Some(3));
}

#[test]
fn parse_reports_where_it_stopped() {
    let e = Expression::parse("2 $").err().unwrap();
    assert_eq!(e.position, Some(2));
    assert_eq!(e.message, "UnparsedTokensRemaining(\"$\")");
    let e = Expression::parse("t*y é").err().unwrap();
    assert_eq!(e.position, Some(4));
    let e = Expression::parse("(1+2").err().unwrap();
    assert_eq!(e.position, Some(4));
    assert_eq!(e.message, "EofWhileParsing(\"parentheses\")");
    let e = Expression::parse("1 +").err().unwrap();
    assert_eq!(e.position, Some(3));
    let e = Expression::parse(")").err().unwrap();
    assert_eq!(e.position, None);
    assert_eq!(e.message, "InvalidValue");
    let e = Expression::parse("(1+2]").err().unwrap();
    assert_eq!(e.position, None);
    assert_eq!(e.message, "Expected(\")\")");
}

#[test]
fn locate_computes_the_offset() {
    let at = |stop: Stop| {
        ParseError::locate(10, ParseFailure { message: "m".to_string(), stop }).position
    };
    assert_eq!(at(Stop::Rest("abc".to_string())), Some(7));
    assert_eq!(at(Stop::Rest("é".to_string())), Some(8));
    assert_eq!(at(Stop::Rest(String::new())), Some(10));
    assert_eq!(at(Stop::Rest("0123456789".to_string())), Some(0));
    assert_eq!(at(Stop::Rest("0123456789a".to_string())), None);
    assert_eq!(at(Stop::End), Some(10));
    assert_eq!(at(Stop::Unlocated), None);
    let e = ParseError::locate(3, ParseFailure { message: "why".to_string(), stop: Stop::End });
    assert_eq!(e.message, "why");
}

#[test]
fn names_resolve_to_symbols() {
    assert_eq!(resolve("t", 0), Some(Symbol::Time));
    assert_eq!(resolve("y", 0), Some(Symbol::Value));
    assert_eq!(resolve("t", 2), Some(Symbol::Time));
    assert_eq!(resolve("exp", 1), Some(Symbol::Exp));
    assert_eq!(resolve("sqrt", 1), Some(Symbol::Sqrt));
    assert_eq!(resolve("exp", 0), None);
    assert_eq!(resolve("sqrt", 2), None);
    assert_eq!(resolve("x", 0), None);
    assert_eq!(resolve("", 0), None);
    assert_eq!(resolve("T", 0), None);
    assert_eq!(resolve("ty", 0), None);
}

#[test]
fn evaluation_uses_the_symbols() {
    let e = equation("sqrt(t) + exp(y) + abs(-2) + sin(0)");
    let v = evaluate(&e, 9.0, 0.0).unwrap();
    assert!((v - 6.0).abs() < 1e-6);
    assert_eq!(evaluate(&equation("t*y + x"), 1.0, 1.0), None);
    assert!(evaluate(&equation("(t-t)/(y-y)"), 1.0, 1.0).unwrap().is_nan());
    assert_eq!(evaluate(&equation("2^3"), 0.0, 0.0), Some(8.0));
}

#[test]
fn grid_counts() {
    assert_eq!(axis_count(40), 41);
    assert_eq!(axis_count(0), 1);
    assert_eq!(axis_count(-1), 0);
    assert_eq!(axis_count(i32::MAX), 2147483648);
    assert_eq!(grid_size(40, 32), 41 * 33);
    assert_eq!(grid_size(2, 2), 9);
    assert_eq!(grid_size(0, 0), 1);
    assert_eq!(grid_size(-1, 5), 0);
    assert_eq!(grid_size(5, -7), 0);
    assert_eq!(grid_size(i32::MAX, i32::MAX), 1u64 << 62);
}

#[test]
fn sampling_walks_rows_of_equal_y() {
    let seen = sample_with(2, 1, |i: i32, j: i32| {
        Some(SamplePoint { t: Scalar::from_bits(i as u32), y: Scalar::from_bits(j as u32), slope: Scalar::zero() })
    });
    let order: Vec<(u32, u32)> = seen.iter().map(|q| (q.unwrap().t.bits, q.unwrap().y.bits)).collect();
    assert_eq!(order, vec![(0, 0), (1, 0), (2, 0), (0, 1), (1, 1), (2, 1)]);
    assert_eq!(sample_with(-1, 3, |_: i32, _: i32| None).len(), 0);
    assert_eq!(sample_with(3, -1, |_: i32, _: i32| None).len(), 0);
    assert_eq!(sample_with(0, 0, |_: i32, _: i32| None), vec![None]);
}

#[test]
fn sampling_has_one_entry_per_grid_point() {
    let e = equation("t+y");
    for (t_div, y_div) in [(1, 1), (2, 2), (40, 32), (7, 3), (1, 9)].iter() {
        let b = bounds(-10.0, 10.0, *t_div, -10.0, 10.0, *y_div, 0.01);
        let samples = sample(&b, &e);
        assert_eq!(samples.len() as u64, grid_size(*t_div, *y_div));
        assert_eq!(samples.len(), ((t_div + 1) * (y_div + 1)) as usize);
        assert_eq!(drop_gaps(&samples).len(), samples.len());
    }
}

#[test]
fn sampling_t_times_y_on_a_two_by_two_grid() {
    let b = bounds(-10.0, 10.0, 2, -10.0, 10.0, 2, 0.01);
    let samples = drop_gaps(&sample(&b, &equation("t*y")));
    assert_eq!(samples.len(), 9);
    let at = |t: f32, y: f32| {
        let found: Vec<&SamplePoint> =
            samples.iter().filter(|q| f(q.t) == t && f(q.y) == y).collect();
        assert_eq!(found.len(), 1);
        f(found[0].slope)
    };
    assert_eq!(at(0.0, 0.0), 0.0);
    assert_eq!(at(10.0, 10.0), 100.0);
    assert_eq!(at(-10.0, 10.0), -100.0);
    assert_eq!(f(samples[4].t), 0.0);
    assert_eq!(f(samples[8].slope), 100.0);
}

#[test]
fn a_failing_sample_leaves_a_gap() {
    let b = bounds(-10.0, 10.0, 2, -10.0, 10.0, 2, 0.01);
    let samples = sample(&b, &equation("t*unknown"));
    assert_eq!(samples.len(), 9);
    assert!(samples.iter().all(|q| q.is_none()));
    assert_eq!(drop_gaps(&samples).len(), 0);
    let one = SamplePoint { t: s(1.0), y: s(2.0), slope: s(3.0) };
    let two = SamplePoint { t: s(4.0), y: s(5.0), slope: s(6.0) };
    assert_eq!(drop_gaps(&vec![None, Some(one), None, None, Some(two)]), vec![one, two]);
    assert_eq!(drop_gaps(&vec![]), vec![]);
}

#[test]
fn constant_zero_gives_flat_field_and_flat_trace() {
    let b = Bounds::standard();
    let e = equation("0");
    for q in sample(&b, &e) {
        assert_eq!(f(q.unwrap().slope), 0.0);
    }
    for seed in [p(1.0, 2.5), p(-3.0, -0.0), p(0.0, 0.0), p(9.5, -10.0)].iter() {
        let segments = trace(&b, &e, *seed);
        assert!(segments.len() > 1000);
        assert!(segments.iter().any(|q| q.side == Side::Left));
        assert!(segments.iter().any(|q| q.side == Side::Right));
        for segment in segments {
            assert!(segment.from.y.same_number(seed.y));
            assert!(segment.to.y.same_number(seed.y));
            assert_eq!(f(segment.from.y), f(seed.y));
            assert_eq!(f(segment.to.y), f(seed.y));
        }
    }
}

#[test]
fn euler_on_y_prime_equals_t_follows_the_parabola() {
    let b = bounds(-10.0, 10.0, 40, -10.0, 10.0, 32, 0.01);
    let segments = trace(&b, &equation("t"), p(0.0, 5.0));
    let right: Vec<&Segment> = segments.iter().filter(|q| q.side == Side::Right).collect();
    let left: Vec<&Segment> = segments.iter().filter(|q| q.side == Side::Left).collect();
    assert!(right.len() > 300);
    assert_eq!(right[0].from, p(0.0, 5.0));
    assert_eq!(left[0].from, p(0.0, 5.0));
    for pair in right.windows(2) {
        assert_eq!(pair[0].to, pair[1].from);
    }
    for segment in right.iter() {
        let (t, y) = (f(segment.to.t), f(segment.to.y));
        assert!((y - (5.0 + t * t / 2.0)).abs() < 0.05, "t = {}, y = {}", t, y);
    }
    for segment in left.iter() {
        let (t, y) = (f(segment.to.t), f(segment.to.y));
        assert!(t < 0.0);
        assert!((y - (5.0 + t * t / 2.0)).abs() < 0.05, "t = {}, y = {}", t, y);
    }
    // The curve leaves through y = 10 near t = sqrt(10).
    let last = right[right.len() - 1];
    assert!(f(last.to.y) > 10.0);
    assert!((f(last.to.t) - 10.0f32.sqrt()).abs() < 0.05);
    assert!(b.contains(last.from));
    assert!(!b.contains(last.to));
}

#[test]
fn tracing_ends_across_a_pole() {
    let e = equation("1/ (t-5)");
    let b = bounds(0.0, 10.0, 40, -10.0, 10.0, 32, 0.5);
    let segments = trace(&b, &e, p(4.0, 0.0));
    assert!(segments.len() as u64 <= budget(&b));
    let right: Vec<&Segment> = segments.iter().filter(|q| q.side == Side::Right).collect();
    // 4.0 -> 4.5 -> 5.0, and from 5.0 the slope is infinite.
    assert_eq!(right.len(), 3);
    assert_eq!(f(right[2].from.t), 5.0);
    assert!(f(right[2].to.y).is_infinite());
    let b = bounds(0.0, 10.0, 40, -10.0, 10.0, 32, 0.01);
    for seed in [p(4.0, 0.0), p(5.0, 0.0), p(4.995, 9.0), p(6.0, -3.0)].iter() {
        let segments = trace(&b, &e, *seed);
        assert!(segments.len() as u64 <= budget(&b));
        for segment in segments.iter() {
            assert!(b.contains(segment.from));
        }
    }
    let segments = trace(&b, &equation("(t-t)/(y-y)"), p(5.0, 0.0));
    assert_eq!(segments.len(), 2);
    assert!(f(segments[0].to.y).is_nan());
    assert!(f(segments[1].to.y).is_nan());
}

#[test]
fn a_seed_out_of_bounds_traces_nothing() {
    let b = Bounds::standard();
    let e = equation("t");
    assert_eq!(trace(&b, &e, p(11.0, 0.0)), vec![]);
    assert_eq!(trace(&b, &e, p(0.0, -10.5)), vec![]);
    assert_eq!(trace(&b, &e, p(f32::NAN, 0.0)), vec![]);
    assert!(Tracer::start(b, p(11.0, 0.0), 5).finished());
}

#[test]
fn a_failed_evaluation_stops_one_cursor_only() {
    let b = bounds(-10.0, 10.0, 40, -10.0, 10.0, 32, 1.0);
    let segments = trace_with(b, p(0.0, 0.0), 100, |side: Side, from: Point| match side {
        Side::Left => None,
        Side::Right => Some(p(f(from.t) + 1.0, 0.0)),
    });
    assert_eq!(segments.len(), 11);
    assert!(segments.iter().all(|q| q.side == Side::Right));
    assert_eq!(f(segments[10].to.t), 11.0);
}

#[test]
fn the_budget_cuts_a_trace_short() {
    let b = Bounds::standard();
    let still = |_: Side, from: Point| Some(from);
    assert_eq!(trace_with(b, p(0.0, 0.0), 0, still).len(), 0);
    assert_eq!(trace_with(b, p(0.0, 0.0), 7, still).len(), 7);
    let sides: Vec<Side> = trace_with(b, p(0.0, 0.0), 5, still).iter().map(|q| q.side).collect();
    assert_eq!(sides, vec![Side::Left, Side::Right, Side::Left, Side::Right, Side::Left]);
}

#[test]
fn the_tracer_steps_in_turns() {
    let b = bounds(-1.0, 1.0, 2, -1.0, 1.0, 2, 1.0);
    let mut tracer = Tracer::start(b, p(0.0, 0.0), 10);
    assert_eq!(tracer.left, Cursor { at: p(0.0, 0.0), live: true });
    assert_eq!(tracer.right, tracer.left);
    assert_eq!(tracer.pending(), Some(Request { side: Side::Left, from: p(0.0, 0.0) }));
    assert_eq!(
        tracer.advance(Some(p(-1.0, 0.5))),
        Some(Segment { from: p(0.0, 0.0), to: p(-1.0, 0.5), side: Side::Left })
    );
    assert_eq!(tracer.budget, 9);
    assert_eq!(tracer.pending(), Some(Request { side: Side::Right, from: p(0.0, 0.0) }));
    assert_eq!(
        tracer.advance(Some(p(1.0, -0.5))),
        Some(Segment { from: p(0.0, 0.0), to: p(1.0, -0.5), side: Side::Right })
    );
    assert_eq!(tracer.pending(), Some(Request { side: Side::Left, from: p(-1.0, 0.5) }));
    // The left cursor steps out of bounds: the segment is drawn, the cursor dies.
    assert_eq!(
        tracer.advance(Some(p(-2.0, 0.5))),
        Some(Segment { from: p(-1.0, 0.5), to: p(-2.0, 0.5), side: Side::Left })
    );
    assert_eq!(tracer.left, Cursor { at: p(-2.0, 0.5), live: false });
    assert_eq!(tracer.pending(), Some(Request { side: Side::Right, from: p(1.0, -0.5) }));
    // The right cursor cannot be evaluated: no segment, and it dies where it stands.
    assert_eq!(tracer.advance(None), None);
    assert_eq!(tracer.right, Cursor { at: p(1.0, -0.5), live: false });
    assert_eq!(tracer.budget, 6);
    assert!(tracer.finished());
    assert_eq!(tracer.pending(), None);
    let before = tracer;
    assert_eq!(tracer.advance(Some(p(0.0, 0.0))), None);
    assert_eq!(tracer, before);
    assert_eq!(Side::Left.other(), Side::Right);
    assert_eq!(Side::Right.other(), Side::Left);
}

#[test]
fn lines_of_a_configuration_text() {
    let text = "t min: -5\nt max:5\r\nfoo:1\nnocolon\n\neq: t*y:extra\ny div:\n t div:3";
    let lines = read_lines(text);
    let setting = |key: Key, value: &str| Line::Setting { key, value: value.to_string() };
    assert_eq!(
        lines,
        vec![
            setting(Key::TMin, " -5"),
            setting(Key::TMax, "5"),
            Line::Unknown { key: "foo".to_string() },
            Line::Malformed { text: "nocolon".to_string() },
            Line::Malformed { text: String::new() },
            setting(Key::Equation, " t*y"),
            setting(Key::YDiv, ""),
            Line::Unknown { key: " t div".to_string() },
        ]
    );
    assert_eq!(read_lines(""), vec![]);
    assert_eq!(read_lines("\n"), vec![Line::Malformed { text: String::new() }]);
    assert_eq!(read_lines("eq:t\n"), vec![setting(Key::Equation, "t")]);
    assert_eq!(read_lines("eq:t\r"), vec![setting(Key::Equation, "t\r")]);
    assert_eq!(read_lines("y max:1\r\n\r\n").len(), 2);
    assert_eq!(read_lines(":"), vec![Line::Unknown { key: String::new() }]);
    assert_eq!(read_lines("t mín:1"), vec![Line::Unknown { key: "t mín".to_string() }]);
}

#[test]
fn lines_are_split_as_std_splits_them() {
    for text in ["", "\n", "a", "a\n", "a\nb", "a\r\nb\r\n", "\r\n", "a\r", "a\r\r\n", "\n\n\n", "a\n\nb", "é\r\nü", "\r", "a\rb\n"].iter() {
        let ours: Vec<String> = read_lines(text)
            .into_iter()
            .map(|line| match line {
                Line::Malformed { text } => text,
                other => panic!("{:?}", other),
            })
            .collect();
        let theirs: Vec<String> = text.lines().map(|l| l.to_string()).collect();
        assert_eq!(ours, theirs, "{:?}", text);
    }
}

#[test]
fn keys_and_colons_are_found() {
    let chars = chars_of("y div:12:x");
    assert_eq!(find(&chars, 0, chars.len(), ':'), 5);
    assert_eq!(find(&chars, 6, chars.len(), ':'), 8);
    assert_eq!(find(&chars, 9, chars.len(), ':'), 10);
    assert_eq!(find(&chars, 0, 3, ':'), 3);
    assert_eq!(key_in(&chars, 0, 5), Some(Key::YDiv));
    assert_eq!(key_in(&chars, 0, 4), None);
    let keys = [("t min", Key::TMin), ("t max", Key::TMax), ("t div", Key::TDiv), ("y min", Key::YMin), ("y max", Key::YMax), ("y div", Key::YDiv), ("eq", Key::Equation)];
    for (name, key) in keys.iter() {
        let chars = chars_of(name);
        assert_eq!(key_in(&chars, 0, chars.len()), Some(*key));
    }
    for name in ["", "t", "T min", "t  min", "tmin", "eq ", "dt"].iter() {
        let chars = chars_of(name);
        assert_eq!(key_in(&chars, 0, chars.len()), None);
    }
}

fn update_of(text: &str) -> Update {
    let lines = read_lines(text);
    let numbers: Vec<Option<Scalar>> = lines
        .iter()
        .map(|line| number_text_of(line).and_then(|t| t.parse::<f32>().ok()).map(s))
        .collect();
    gather(&lines, &numbers)
}

#[test]
fn a_configuration_text_becomes_an_update() {
    let u = update_of("t min: -5 \nt max:7.5\nt div: 12\ny min:-1e1\ny max:oops\ny div:0x10\nzoom:2\neq:t*y\nbroken\neq: t + y \n");
    assert_eq!(
        u.overrides,
        Overrides { t_min: Some(s(-5.0)), t_max: Some(s(7.5)), t_div: Some(12), y_min: Some(s(-10.0)), y_max: None, y_div: None }
    );
    assert_eq!(u.equation, Some(" t + y ".to_string()));
    assert_eq!(u.unknown, vec!["zoom".to_string()]);
    assert_eq!(u.malformed, vec!["broken".to_string()]);
    let u = update_of("t div:5\nt div:x\nt div: 6\nt div:\ny div:-3\nt min:1\nt min:\n");
    assert_eq!(u.overrides, Overrides { t_div: Some(6), y_div: Some(-3), t_min: Some(s(1.0)), ..Overrides::none() });
    assert_eq!(u.equation, None);
    let u = update_of("");
    assert_eq!(u.overrides, Overrides::none());
    assert!(u.unknown.is_empty() && u.malformed.is_empty() && u.equation.is_none());
}

#[test]
fn gather_reads_missing_numbers_as_none() {
    let lines = read_lines("t min:1\nt max:2\ny min:3\n");
    let u = gather(&lines, &vec![Some(s(1.0)), None]);
    assert_eq!(u.overrides, Overrides { t_min: Some(s(1.0)), ..Overrides::none() });
    let mut u = Update::new();
    u.absorb(&lines[1], Some(s(2.0)));
    u.absorb(&Line::Setting { key: Key::TDiv, value: " 8 ".to_string() }, Some(s(9.0)));
    assert_eq!(u.overrides, Overrides { t_max: Some(s(2.0)), t_div: Some(8), ..Overrides::none() });
}

#[test]
fn number_texts_and_counts() {
    let line = |key: Key, value: &str| Line::Setting { key, value: value.to_string() };
    assert_eq!(number_text_of(&line(Key::TMin, "  -5.5\t")), Some("-5.5".to_string()));
    assert_eq!(number_text_of(&line(Key::YMax, "")), Some(String::new()));
    assert_eq!(number_text_of(&line(Key::TMax, "1")), Some("1".to_string()));
    assert_eq!(number_text_of(&line(Key::YMin, " a b ")), Some("a b".to_string()));
    assert_eq!(number_text_of(&line(Key::TDiv, "5")), None);
    assert_eq!(number_text_of(&line(Key::YDiv, "5")), None);
    assert_eq!(number_text_of(&line(Key::Equation, "5")), None);
    assert_eq!(number_text_of(&Line::Unknown { key: "t min".to_string() }), None);
    assert_eq!(number_text_of(&Line::Malformed { text: "5".to_string() }), None);
    assert_eq!(read_count(" 40 "), Some(40));
    assert_eq!(read_count("\t-2\r"), Some(-2));
    assert_eq!(read_count("4 0"), None);
    assert_eq!(read_count(""), None);
    assert_eq!(read_count("4.0"), None);
}

#[test]
fn overrides_replace_what_they_name() {
    let b = Bounds::standard();
    assert_eq!(Overrides::none().apply(b), b);
    let o = Overrides { t_min: Some(s(-1.0)), t_max: Some(s(1.0)), t_div: Some(4), y_min: Some(s(-2.0)), y_max: Some(s(2.0)), y_div: Some(8) };
    assert_eq!(o.apply(b), bounds(-1.0, 1.0, 4, -2.0, 2.0, 8, 0.01));
    let o = Overrides { y_div: Some(3), ..Overrides::none() };
    assert_eq!(o.apply(b), Bounds { y_div: 3, ..b });
}

#[test]
fn new_configurations_are_validated() {
    let config = DomainConfig::new(bounds(0.0, 1.0, 1, 0.0, 1.0, 1, 0.1), equation("t")).ok().unwrap();
    assert_eq!(config.bounds(), bounds(0.0, 1.0, 1, 0.0, 1.0, 1, 0.1));
    assert_eq!(config.equation().source(), "t");
    assert_eq!(
        DomainConfig::new(bounds(1.0, 1.0, 1, 0.0, 1.0, 1, 0.1), equation("t")).err(),
        Some(ConfigError::TimeBounds)
    );
    assert_eq!(
        DomainConfig::new(bounds(0.0, 1.0, 1, 0.0, 1.0, 1, -0.1), equation("t")).err(),
        Some(ConfigError::Step)
    );
    let config = DomainConfig::standard(equation("1"));
    assert_eq!(config.bounds(), Bounds::standard());
    assert_eq!(evaluate(config.equation(), 3.0, 4.0), Some(1.0));
}

#[test]
fn reload_replaces_equation_and_bounds_together() {
    let mut config = DomainConfig::standard(equation("1"));
    let o = Overrides { t_min: Some(s(-5.0)), y_div: Some(16), ..Overrides::none() };
    assert!(config.reload("t*y", &o).is_ok());
    assert_eq!(config.bounds(), Bounds { t_min: s(-5.0), y_div: 16, ..Bounds::standard() });
    assert_eq!(config.equation().source(), "t*y");
    assert_eq!(evaluate(config.equation(), 3.0, 4.0), Some(12.0));
    assert!(config.reload("t+y", &Overrides::none()).is_ok());
    assert_eq!(config.bounds(), Bounds { t_min: s(-5.0), y_div: 16, ..Bounds::standard() });
    assert_eq!(evaluate(config.equation(), 3.0, 4.0), Some(7.0));
}

#[test]
fn reload_with_a_malformed_equation_changes_nothing() {
    let mut config = DomainConfig::standard(equation("t*y"));
    let o = Overrides { t_min: Some(s(-5.0)), t_div: Some(3), ..Overrides::none() };
    for text in ["t*(", "", "t y", "2 +* 3", "(t", "sin(t"].iter() {
        match config.reload(text, &o) {
            Err(ReloadError::Parse(e)) => assert!(!e.message.is_empty()),
            other => panic!("{:?}", other),
        }
        assert_eq!(config.bounds(), Bounds::standard());
        assert_eq!(config.bounds().t_min.to_bits(), (-10.0f32).to_bits());
        assert_eq!(config.equation().source(), "t*y");
        assert_eq!(evaluate(config.equation(), 3.0, 4.0), Some(12.0));
    }
    match config.reload("t y", &o) {
        Err(ReloadError::Parse(e)) => assert_eq!(e.position, Some(2)),
        other => panic!("{:?}", other),
    }
}

#[test]
fn reload_with_invalid_bounds_changes_nothing() {
    let mut config = DomainConfig::standard(equation("t*y"));
    let cases = [
        (Overrides { t_min: Some(s(10.0)), ..Overrides::none() }, ConfigError::TimeBounds),
        (Overrides { t_max: Some(s(-20.0)), ..Overrides::none() }, ConfigError::TimeBounds),
        (Overrides { y_min: Some(s(f32::NAN)), ..Overrides::none() }, ConfigError::ValueBounds),
        (Overrides { t_div: Some(0), ..Overrides::none() }, ConfigError::TimeDivisions),
        (Overrides { y_div: Some(-1), ..Overrides::none() }, ConfigError::ValueDivisions),
    ];
    for (o, expected) in cases.iter() {
        match config.reload("t+y", o) {
            Err(ReloadError::Config(e)) => assert_eq!(e, *expected),
            other => panic!("{:?}", other),
        }
        assert_eq!(config.bounds(), Bounds::standard());
        assert_eq!(config.equation().source(), "t*y");
    }
    // A refused equation is reported before refused bounds.
    match config.reload("t+", &cases[0].0) {
        Err(ReloadError::Parse(_)) => {}
        other => panic!("{:?}", other),
    }
}

#[test]
fn apply_takes_an_update() {
    let mut config = DomainConfig::standard(equation("t"));
    assert!(config.apply(&update_of("t max: 20\ny div:4\n")).is_ok());
    assert_eq!(config.bounds(), Bounds { t_max: s(20.0), y_div: 4, ..Bounds::standard() });
    assert_eq!(config.equation().source(), "t");
    assert!(config.apply(&update_of("eq: y - t\nt min:0")).is_ok());
    assert_eq!(config.equation().source(), " y - t");
    assert_eq!(evaluate(config.equation(), 1.0, 3.0), Some(2.0));
    let before = config.bounds();
    assert!(config.apply(&update_of("eq: y - \nt min:-1")).is_err());
    assert!(config.apply(&update_of("t min:50")).is_err());
    assert_eq!(config.bounds(), before);
    assert_eq!(config.equation().source(), " y - t");
}
