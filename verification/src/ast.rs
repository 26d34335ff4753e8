//! The abstract syntax the external parser hands to the engine, and spec
//! functions giving each word its text.

use vstd::prelude::*;

verus! {

/// Condition under which a pipeline of a term runs, judged against the status
/// of the most recently run pipeline.
#[derive(Clone, Copy, Debug, PartialEq, Eq, Structural)]
pub enum RunIf {
    /// Joined by `;` (or first in the term): always runs.
    Always,
    /// Joined by `&&`: runs only after exit code 0.
    Success,
    /// Joined by `||`: runs only after a non-zero exit code.
    Failure,
}

/// One fragment of a word as the parser produced it.
#[derive(Clone, Debug)]
pub enum Span {
    Literal(String),
}

/// A word of a simple command: spans whose texts expansion joins in order.
#[derive(Clone, Debug)]
pub struct Word {
    pub spans: Vec<Span>,
}

/// A command of a pipeline.
#[derive(Clone, Debug)]
pub enum Command {
    SimpleCommand { argv: Vec<Word> },
}

/// Commands joined by `|`, guarded by a run condition.
pub struct Pipeline {
    pub run_if: RunIf,
    pub commands: Vec<Command>,
}

/// Pipelines joined by conditional operators, with the original source text
/// and whether the term was sent to the background.
pub struct Term {
    pub code: String,
    pub pipelines: Vec<Pipeline>,
    pub background: bool,
}

/// A parsed script.
pub struct Ast {
    pub terms: Vec<Term>,
}

/// What the external parser handed back for a piece of source text.
pub enum ParsedScript {
    Parsed(Ast),
    Empty,
    Fatal,
}

pub open spec fn span_text(s: Span) -> Seq<char> {
    match s {
        Span::Literal(t) => t@,
    }
}

/// The texts of a word's spans, joined in order.
pub open spec fn spans_text(spans: Seq<Span>) -> Seq<char>
    decreases spans.len(),
{
    if spans.len() == 0 {
        Seq::empty()
    } else {
        spans_text(spans.drop_last()) + span_text(spans.last())
    }
}

/// The text a word expands to.
pub open spec fn word_text(w: Word) -> Seq<char> {
    spans_text(w.spans@)
}

impl Word {
    pub fn spans(&self) -> (r: &Vec<Span>)
        ensures
            r == self.spans,
    {
        &self.spans
    }
}

} // verus!
