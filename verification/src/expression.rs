//! Equations `f(t, y)` written as text, compiled by `fasteval`.

use crate::text::same_text;
use fasteval::Compiler;
use vstd::prelude::*;
use vstd::utf8::encode_utf8;

verus! {

#[verifier::external_type_specification]
#[verifier::external_body]
pub struct ExSlab(fasteval::Slab);

#[verifier::external_type_specification]
#[verifier::external_body]
pub struct ExInstruction(fasteval::Instruction);

#[verifier::external_type_specification]
#[verifier::external_body]
pub struct ExExpressionI(fasteval::ExpressionI);

/// Where in the text the parser gave up.
#[derive(Debug)]
pub enum Stop {
    /// An expression was read and this tail of the text was left over.
    Rest(String),
    /// The text ended where more was needed.
    End,
    /// The parser reports no place.
    Unlocated,
}

/// What the parser reported of a text that it refused.
#[derive(Debug)]
pub struct ParseFailure {
    pub message: String,
    pub stop: Stop,
}

pub enum StopView {
    Rest(Seq<char>),
    End,
    Unlocated,
}

pub struct ParseFailureView {
    pub message: Seq<char>,
    pub stop: StopView,
}

impl View for Stop {
    type V = StopView;

    open spec fn view(&self) -> StopView {
        match self {
            Stop::Rest(rest) => StopView::Rest(rest@),
            Stop::End => StopView::End,
            Stop::Unlocated => StopView::Unlocated,
        }
    }
}

impl View for ParseFailure {
    type V = ParseFailureView;

    open spec fn view(&self) -> ParseFailureView {
        ParseFailureView { message: self.message@, stop: self.stop@ }
    }
}

/// A refused equation text: the parser's message and, where it is known,
/// the byte offset at which reading stopped.
#[derive(Debug)]
pub struct ParseError {
    pub message: String,
    pub position: Option<usize>,
}

pub struct ParseErrorView {
    pub message: Seq<char>,
    pub position: Option<int>,
}

impl View for ParseError {
    type V = ParseErrorView;

    open spec fn view(&self) -> ParseErrorView {
        ParseErrorView {
            message: self.message@,
            position: match self.position {
                Some(p) => Some(p as int),
                None => None,
            },
        }
    }
}

/// Length of a text in bytes, as a machine-sized number.
pub open spec fn byte_len(text: Seq<char>) -> int {
    (encode_utf8(text).len() as usize) as int
}

/// The offset at which reading stopped, in a text of `text_len` bytes:
/// the start of the tail left over, the end of the text, or nothing.
pub open spec fn stop_offset(text_len: int, stop: StopView) -> Option<int> {
    match stop {
        StopView::Rest(rest) => if byte_len(rest) <= text_len {
            Some(text_len - byte_len(rest))
        } else {
            None
        },
        StopView::End => Some(text_len),
        StopView::Unlocated => None,
    }
}

/// The error that a failure on a text of `text_len` bytes becomes.
pub open spec fn located(text_len: int, failure: ParseFailureView) -> ParseErrorView {
    ParseErrorView { message: failure.message, position: stop_offset(text_len, failure.stop) }
}

/// The longest equation text, in bytes, that is handed to the parser.
pub const LENGTH_LIMIT: usize = 4096;

/// A parsed equation: the slab that holds its syntax tree, and the root of
/// the tree. The slab holds no instructions yet.
pub struct Parsed {
    slab: fasteval::Slab,
    root: fasteval::ExpressionI,
}

/// A compiled equation together with the slab that its instructions live in.
pub struct Compiled {
    pub slab: fasteval::Slab,
    pub program: fasteval::Instruction,
}

/// What `fasteval`'s parser, with its default limits, makes of a text of
/// at most [`LENGTH_LIMIT`] bytes on a slab that has room for one entry
/// per byte of the text: the syntax tree, written out as `Debug` prints
/// it, or what the parser reported.
pub uninterp spec fn parse_outcome(text: Seq<char>) -> Result<Seq<char>, ParseFailureView>;

/// The syntax tree that a parsed equation holds, written out as `Debug` prints it.
pub uninterp spec fn tree(parsed: Parsed) -> Seq<char>;

/// The instructions that `fasteval` compiles from a syntax tree, both
/// written out as `Debug` prints them.
pub uninterp spec fn compiled_from(tree: Seq<char>) -> Seq<char>;

/// The instructions that a compiled equation holds, written out as `Debug` prints them.
pub uninterp spec fn written(compiled: Compiled) -> Seq<char>;

/// Runs `fasteval::Parser::parse`, with the parser's default limits, on a
/// fresh slab made by `fasteval::Slab::with_capacity` with room for as
/// many expressions and values as the text has bytes.
///
/// The parser stores one expression per expression read and one value per
/// unary sign read, and each of them takes up a byte of the text of its
/// own, so the slab never fills and the outcome is a function of the text
/// alone: it has a name, [`parse_outcome`]. Of that outcome only one fact
/// is stated: an empty text is refused (the parser finds no value to
/// read). The message is the error's own `Display` text; the stop is the
/// tail that `UnparsedTokensRemaining` carries, the end for the two
/// end-of-input errors, and unlocated for every other error.
#[verifier::external_body]
fn parse_text(text: &str) -> (r: Result<Parsed, ParseFailure>)
    requires
        byte_len(text@) <= LENGTH_LIMIT,
    ensures
        match r {
            Ok(parsed) => parse_outcome(text@) == Ok::<Seq<char>, ParseFailureView>(tree(parsed)),
            Err(failure) => parse_outcome(text@) == Err::<Seq<char>, ParseFailureView>(failure@),
        },
        text@.len() == 0 ==> r is Err,
{
    let mut slab = fasteval::Slab::with_capacity(text.len());
    match fasteval::Parser::new().parse(text, &mut slab.ps) {
        Ok(root) => Ok(Parsed { slab, root }),
        Err(e) => Err(ParseFailure {
            message: format!("{}", e),
            stop: match e {
                fasteval::Error::UnparsedTokensRemaining(rest) => Stop::Rest(rest),
                fasteval::Error::EOF | fasteval::Error::EofWhileParsing(_) => Stop::End,
                _ => Stop::Unlocated,
            },
        }),
    }
}

/// Runs `fasteval::Compiler::compile` on the root of a parsed equation,
/// into the slab that holds it. The instructions that come out are a
/// function of the syntax tree: they have a name, [`compiled_from`].
#[verifier::external_body]
fn compile_parsed(parsed: Parsed) -> (compiled: Compiled)
    ensures
        written(compiled) == compiled_from(tree(parsed)),
{
    let Parsed { mut slab, root } = parsed;
    let program = root.from(&slab.ps).compile(&slab.ps, &mut slab.cs);
    Compiled { slab, program }
}

/// The error for a text of more than [`LENGTH_LIMIT`] bytes.
pub open spec fn too_long() -> ParseErrorView {
    ParseErrorView { message: "the equation is longer than 4096 bytes"@, position: None }
}

/// Why a text is refused, or nothing where it is accepted. A text that is
/// too long is refused unread; any other text is the parser's to judge.
pub open spec fn verdict(text: Seq<char>) -> Option<ParseErrorView> {
    if byte_len(text) > LENGTH_LIMIT {
        Some(too_long())
    } else {
        match parse_outcome(text) {
            Ok(_) => None,
            Err(failure) => Some(located(byte_len(text), failure)),
        }
    }
}

/// The instructions that a text compiles to, written out; of no meaning
/// for a text that is refused.
pub open spec fn compilation(text: Seq<char>) -> Seq<char> {
    match parse_outcome(text) {
        Ok(tree) => compiled_from(tree),
        Err(_) => Seq::empty(),
    }
}

impl ParseError {
    /// Turns the parser's report on a text of `text_len` bytes into an error
    /// with a position.
    pub fn locate(text_len: usize, failure: ParseFailure) -> (e: ParseError)
        ensures
            e@ == located(text_len as int, failure@),
    {
        let position: Option<usize> = match &failure.stop {
            Stop::Rest(rest) => {
                let rest_len: usize = rest.as_str().len();
                if rest_len <= text_len {
                    Some(text_len - rest_len)
                } else {
                    None
                }
            },
            Stop::End => Some(text_len),
            Stop::Unlocated => None,
        };
        ParseError { message: failure.message, position }
    }
}

/// An equation ready to be evaluated: its source text and the compiled
/// form of that text. There is no way to change one; a new text makes a
/// new expression.
pub struct Expression {
    source: String,
    compiled: Compiled,
}

impl Expression {
    #[verifier::type_invariant]
    spec fn accepted(self) -> bool {
        &&& verdict(self.source@) is None
        &&& written(self.compiled) == compilation(self.source@)
    }

    /// The text that the expression was compiled from.
    pub closed spec fn text(self) -> Seq<char> {
        self.source@
    }

    /// The compiled form, as the evaluator takes it.
    pub closed spec fn form(self) -> Compiled {
        self.compiled
    }

    /// Compiles an equation text.
    ///
    /// Succeeds exactly on the texts that [`verdict`] has nothing against:
    /// those of at most [`LENGTH_LIMIT`] bytes that the parser accepts; the
    /// empty text is never one of them. The expression then holds the
    /// text and what the text compiles to. On failure the error is the
    /// verdict.
    pub fn parse(text: &str) -> (r: Result<Expression, ParseError>)
        ensures
            match r {
                Ok(expression) => {
                    &&& verdict(text@) is None
                    &&& expression.text() == text@
                    &&& written(expression.form()) == compilation(text@)
                },
                Err(error) => verdict(text@) == Some(error@),
            },
            text@.len() == 0 ==> r is Err,
    {
        if text.len() > LENGTH_LIMIT {
            return Err(
                ParseError {
                    message: "the equation is longer than 4096 bytes".to_owned(),
                    position: None,
                },
            );
        }
        match parse_text(text) {
            Ok(parsed) => Ok(
                Expression { source: text.to_owned(), compiled: compile_parsed(parsed) },
            ),
            Err(failure) => Err(ParseError::locate(text.len(), failure)),
        }
    }

    /// The text that the expression was compiled from; nothing stands against it.
    pub fn source(&self) -> (text: &str)
        ensures
            text@ == self.text(),
            verdict(text@) is None,
    {
        proof {
            use_type_invariant(self);
        }
        self.source.as_str()
    }

    /// The compiled form, for the evaluator: what the source text compiles to.
    pub fn compiled(&self) -> (c: &Compiled)
        ensures
            *c == self.form(),
            written(*c) == compilation(self.text()),
    {
        proof {
            use_type_invariant(self);
        }
        &self.compiled
    }
}

/// What a name in an equation stands for.
#[derive(Clone, Copy, Debug, PartialEq, Eq, Structural)]
pub enum Symbol {
    /// `t`, the independent variable.
    Time,
    /// `y`, the dependent variable.
    Value,
    /// `exp(x)`
    Exp,
    /// `sqrt(x)`
    Sqrt,
}

/// The meaning of a name that the evaluator asks about, given the number
/// of arguments that it comes with. `t` and `y` are known whatever follows
/// them; `exp` and `sqrt` take one argument. Every other name is unknown.
pub open spec fn symbol_of(name: Seq<char>, arity: int) -> Option<Symbol> {
    if name == "t"@ {
        Some(Symbol::Time)
    } else if name == "y"@ {
        Some(Symbol::Value)
    } else if name == "exp"@ && arity == 1 {
        Some(Symbol::Exp)
    } else if name == "sqrt"@ && arity == 1 {
        Some(Symbol::Sqrt)
    } else {
        None
    }
}

/// Resolves a name that the evaluator asks about.
pub fn resolve(name: &str, arity: usize) -> (r: Option<Symbol>)
    ensures
        r == symbol_of(name@, arity as int),
{
    if same_text(name, "t") {
        Some(Symbol::Time)
    } else if same_text(name, "y") {
        Some(Symbol::Value)
    } else if same_text(name, "exp") && arity == 1 {
        Some(Symbol::Exp)
    } else if same_text(name, "sqrt") && arity == 1 {
        Some(Symbol::Sqrt)
    } else {
        None
    }
}

} // verus!
