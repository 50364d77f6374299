//! Levels and the parser of level definitions.
//!
//! A definition is a metadata block and an instructions block with the
//! delimiter `---` between them. The metadata block is a script that declares
//! a completion rule and, optionally, named captures; both are patterns.

use mlua::Lua;
use vstd::prelude::*;

use crate::pattern::{pattern_compiles, Matcher};
use crate::script::{pair_views, read_metadata, MetadataOutcome, MetadataOutcomeView};
use crate::text::{has_two_sections, sections, split_sections, trim, trimmed};

verus! {

/// Why a definition gave no level.
#[derive(Clone, Debug, PartialEq, Eq)]
pub enum LevelError {
    /// The definition does not consist of exactly two sections.
    MalformedDefinition,
    /// The metadata block did not run to its end; the text is the engine's
    /// message.
    MetadataExecution(String),
    /// The metadata block declared no completion rule that is a string.
    MissingCompletionRule,
    /// A declared pattern does not compile. `capture` names the capture that
    /// declared it, and is `None` for the completion rule.
    InvalidPattern { capture: Option<String>, pattern: String },
    /// The definition could not be read; the text says why.
    Io(String),
}

/// The view of a [`LevelError`].
pub enum LevelErrorView {
    MalformedDefinition,
    MetadataExecution(Seq<char>),
    MissingCompletionRule,
    InvalidPattern { capture: Option<Seq<char>>, pattern: Seq<char> },
    Io(Seq<char>),
}

impl View for LevelError {
    type V = LevelErrorView;

    open spec fn view(&self) -> LevelErrorView {
        match self {
            LevelError::MalformedDefinition => LevelErrorView::MalformedDefinition,
            LevelError::MetadataExecution(message) => LevelErrorView::MetadataExecution(message@),
            LevelError::MissingCompletionRule => LevelErrorView::MissingCompletionRule,
            LevelError::InvalidPattern { capture, pattern } => LevelErrorView::InvalidPattern {
                capture: match capture {
                    Some(name) => Some(name@),
                    None => None,
                },
                pattern: pattern@,
            },
            LevelError::Io(message) => LevelErrorView::Io(message@),
        }
    }
}

/// A named pattern that extracts a value from the edited content once a level
/// is complete. Its view is the pair of its name and its pattern's text.
#[derive(Debug)]
pub struct Capture {
    name: String,
    matcher: Matcher,
}

impl View for Capture {
    type V = (Seq<char>, Seq<char>);

    closed spec fn view(&self) -> (Seq<char>, Seq<char>) {
        (self.name@, self.matcher@)
    }
}

impl Capture {
    /// The name under which the captured value is published.
    pub fn name(&self) -> (r: &str)
        ensures
            r@ == self@.0,
    {
        self.name.as_str()
    }

    /// The compiled pattern of this capture.
    pub fn matcher(&self) -> (r: &Matcher)
        ensures
            r@ == self@.1,
    {
        &self.matcher
    }
}

/// The views of a sequence of captures.
pub open spec fn capture_views(captures: Seq<Capture>) -> Seq<(Seq<char>, Seq<char>)> {
    Seq::new(captures.len(), |i: int| captures[i]@)
}

/// One tutorial exercise: instructions for the user and the rule that decides
/// when the task is done. A level does not change once it is built.
#[derive(Debug)]
pub struct Level {
    source_id: Option<String>,
    instructions: String,
    completion: Matcher,
    captures: Vec<Capture>,
}

/// The view of a [`Level`]: its texts, with each pattern as the text it was
/// compiled from.
pub struct LevelView {
    pub source_id: Option<Seq<char>>,
    pub instructions: Seq<char>,
    pub completion: Seq<char>,
    pub captures: Seq<(Seq<char>, Seq<char>)>,
}

impl View for Level {
    type V = LevelView;

    closed spec fn view(&self) -> LevelView {
        LevelView {
            source_id: match self.source_id {
                Some(id) => Some(id@),
                None => None,
            },
            instructions: self.instructions@,
            completion: self.completion@,
            captures: capture_views(self.captures@),
        }
    }
}

impl Level {
    /// Where the level was loaded from, once that is known.
    pub fn source_id(&self) -> (r: Option<&str>)
        ensures
            r is Some <==> self@.source_id is Some,
            r matches Some(id) ==> self@.source_id == Some(id@),
    {
        match &self.source_id {
            Some(id) => Some(id.as_str()),
            None => None,
        }
    }

    /// The text shown to the user.
    pub fn instructions(&self) -> (r: &str)
        ensures
            r@ == self@.instructions,
    {
        self.instructions.as_str()
    }

    /// The pattern that decides completion.
    pub fn completion(&self) -> (r: &Matcher)
        ensures
            r@ == self@.completion,
    {
        &self.completion
    }

    /// The declared captures, in the order of their declaration.
    pub fn captures(&self) -> (r: &Vec<Capture>)
        ensures
            capture_views(r@) == self@.captures,
    {
        &self.captures
    }

    /// The same level, attributed to the source `id`.
    pub fn with_source_id(self, id: String) -> (r: Level)
        ensures
            r@ == (LevelView { source_id: Some(id@), ..self@ }),
    {
        Level {
            source_id: Some(id),
            instructions: self.instructions,
            completion: self.completion,
            captures: self.captures,
        }
    }
}

/// The view of what parsing a definition returned.
pub open spec fn parsed_view(r: Result<Level, LevelError>) -> Result<LevelView, LevelErrorView> {
    match r {
        Ok(level) => Ok(level@),
        Err(error) => Err(error@),
    }
}

/// The captures that a metadata block declared: the entries of its table, and
/// none where the table is missing or cannot be read. That is no error.
pub open spec fn declared_captures(
    captures: Option<Seq<(Seq<char>, Seq<char>)>>,
) -> Seq<(Seq<char>, Seq<char>)> {
    match captures {
        Some(pairs) => pairs,
        None => Seq::empty(),
    }
}

/// Whether every pattern of `captures` compiles.
pub open spec fn all_compile(captures: Seq<(Seq<char>, Seq<char>)>) -> bool {
    forall|i: int| 0 <= i < captures.len() ==> pattern_compiles((#[trigger] captures[i]).1)
}

/// Whether the capture at position `i` is the first whose pattern does not
/// compile.
pub open spec fn first_invalid(captures: Seq<(Seq<char>, Seq<char>)>, i: int) -> bool {
    &&& 0 <= i < captures.len()
    &&& !pattern_compiles(captures[i].1)
    &&& forall|j: int| 0 <= j < i ==> pattern_compiles((#[trigger] captures[j]).1)
}

/// The level that instructions and the outcome of a metadata block make, or
/// the reason why they make none. The completion rule is compiled first, then
/// the captures in their order; the first pattern that does not compile
/// rejects the definition as a whole. A block without a table of captures
/// declares none. The level has no source yet.
pub open spec fn assembled(instructions: Seq<char>, outcome: MetadataOutcomeView) -> Result<
    LevelView,
    LevelErrorView,
> {
    match outcome {
        MetadataOutcomeView::Fault(message) => Err(LevelErrorView::MetadataExecution(message)),
        MetadataOutcomeView::NoCompletion => Err(LevelErrorView::MissingCompletionRule),
        MetadataOutcomeView::Declared { completion, captures } => {
            let declared = declared_captures(captures);
            if !pattern_compiles(completion) {
                Err(LevelErrorView::InvalidPattern { capture: None, pattern: completion })
            } else if all_compile(declared) {
                Ok(LevelView { source_id: None, instructions, completion, captures: declared })
            } else {
                let i = choose|i: int| first_invalid(declared, i);
                Err(
                    LevelErrorView::InvalidPattern {
                        capture: Some(declared[i].0),
                        pattern: declared[i].1,
                    },
                )
            }
        },
    }
}

/// What parsing the definition `data` comes to when its metadata block has
/// the outcome `outcome`.
pub open spec fn parsed(data: Seq<char>, outcome: MetadataOutcomeView) -> Result<
    LevelView,
    LevelErrorView,
> {
    if has_two_sections(data) {
        assembled(trimmed(sections(data).1), outcome)
    } else {
        Err(LevelErrorView::MalformedDefinition)
    }
}

/// Compiles the declared captures in their order. The error is the position
/// of the first pattern that does not compile.
fn compile_captures(pairs: &Vec<(String, String)>) -> (r: Result<Vec<Capture>, usize>)
    ensures
        match r {
            Ok(captures) => all_compile(pair_views(pairs@)) && capture_views(captures@)
                == pair_views(pairs@),
            Err(i) => first_invalid(pair_views(pairs@), i as int),
        },
{
    let ghost declared = pair_views(pairs@);
    let mut captures: Vec<Capture> = Vec::new();
    let mut i: usize = 0;
    while i < pairs.len()
        invariant
            i <= pairs.len(),
            declared == pair_views(pairs@),
            captures@.len() == i,
            forall|j: int| 0 <= j < i ==> pattern_compiles((#[trigger] declared[j]).1),
            forall|j: int| 0 <= j < i ==> (#[trigger] captures@[j])@ == declared[j],
        decreases pairs.len() - i,
    {
        assert(declared[i as int] == (pairs@[i as int].0@, pairs@[i as int].1@));
        match Matcher::compile(pairs[i].1.as_str()) {
            None => return Err(i),
            Some(matcher) => captures.push(Capture { name: pairs[i].0.clone(), matcher }),
        }
        i += 1;
    }
    assert(capture_views(captures@) =~= declared);
    Ok(captures)
}

/// Builds a level from its instructions and from what its metadata block
/// declared.
pub fn assemble_level(instructions: String, outcome: MetadataOutcome) -> (r: Result<
    Level,
    LevelError,
>)
    ensures
        parsed_view(r) == assembled(instructions@, outcome@),
{
    match outcome {
        MetadataOutcome::Fault(message) => Err(LevelError::MetadataExecution(message)),
        MetadataOutcome::NoCompletion => Err(LevelError::MissingCompletionRule),
        MetadataOutcome::Declared { completion, captures } => {
            match Matcher::compile(completion.as_str()) {
                None => Err(LevelError::InvalidPattern { capture: None, pattern: completion }),
                Some(matcher) => {
                    let pairs = match captures {
                        Some(pairs) => pairs,
                        None => Vec::new(),
                    };
                    let ghost declared = pair_views(pairs@);
                    assert(declared =~= declared_captures(outcome@->Declared_captures));
                    match compile_captures(&pairs) {
                        Ok(compiled) => Ok(
                            Level {
                                source_id: None,
                                instructions,
                                completion: matcher,
                                captures: compiled,
                            },
                        ),
                        Err(i) => {
                            proof {
                                let first = choose|k: int| first_invalid(declared, k);
                                assert(first_invalid(declared, first) && first == i);
                            }
                            Err(
                                LevelError::InvalidPattern {
                                    capture: Some(pairs[i].0.clone()),
                                    pattern: pairs[i].1.clone(),
                                },
                            )
                        },
                    }
                },
            }
        },
    }
}

/// Parses one level definition. The metadata block runs in the scripting
/// context `lua`, and its declarations are read back before anything else can
/// run there. The level that comes back has no source yet.
///
/// What a script does is its own affair, so the contract fixes the result for
/// each outcome that the block can have: [`parsed`] says which level or error
/// belongs to which outcome. A definition without exactly two sections is
/// refused before any of it runs.
pub fn parse_level_file(lua: &Lua, level_data: &str) -> (r: Result<Level, LevelError>)
    ensures
        !has_two_sections(level_data@) ==> parsed_view(r) == Err::<LevelView, LevelErrorView>(
            LevelErrorView::MalformedDefinition,
        ),
        exists|outcome: MetadataOutcomeView| parsed_view(r) == #[trigger] parsed(level_data@, outcome),
        r matches Ok(level) ==> {
            &&& has_two_sections(level_data@)
            &&& level@.source_id is None
            &&& level@.instructions == trimmed(sections(level_data@).1)
            &&& pattern_compiles(level@.completion)
            &&& all_compile(level@.captures)
        },
        !(r matches Err(LevelError::Io(_))),
{
    match split_sections(level_data) {
        None => {
            assert(parsed_view(Err(LevelError::MalformedDefinition)) == parsed(
                level_data@,
                MetadataOutcomeView::NoCompletion,
            ));
            Err(LevelError::MalformedDefinition)
        },
        Some((metadata, tail)) => {
            let instructions = trim(tail).to_owned();
            let outcome = read_metadata(lua, metadata);
            let r = assemble_level(instructions, outcome);
            assert(parsed_view(r) == parsed(level_data@, outcome@));
            r
        },
    }
}

} // verus!
