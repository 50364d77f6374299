//! One session: instructing the user, watching the edit target, and deciding
//! what each notification comes to.
//!
//! The library never blocks and touches no file. A driver performs each
//! [`Directive`] and hands back what happened as an [`Event`]; the decisions
//! are the function [`next`] of the session's phase, its level and the event.

use mlua::Lua;
use vstd::prelude::*;

use crate::level::{capture_views, Level, LevelView};
use crate::pattern::{
    any_line_matches, find_captures_in_lines, first_capture, lemma_first_capture_at,
    lemma_first_capture_none, pattern_group, pattern_matches, some_line_matches,
};
use crate::script::{bind_global, pair_views, BindingError};
use crate::text::{
    blank, is_blank, lemma_blank_iff_trimmed_empty, lines, split_lines, trimmed, views,
};

verus! {

/// Where a session stands.
#[derive(Clone, Copy, Debug, PartialEq, Eq, Structural)]
pub enum Phase {
    /// The instructions are not written yet.
    Instructing,
    /// The session waits for the next notification.
    Watching,
    /// The last content was blank; the session waits on, with the same level.
    EmptyFileRetry,
    /// The completion rule matched. The session is over.
    Completed,
    /// The session cannot watch any longer. It is over, and so is the program.
    WatchError,
}

impl Phase {
    /// Whether the session waits for notifications in this phase.
    pub open spec fn is_watching(self) -> bool {
        self == Phase::Watching || self == Phase::EmptyFileRetry
    }
}

/// The kind of change that a notification reports.
#[derive(Clone, Copy, Debug, PartialEq, Eq, Structural)]
pub enum ChangeKind {
    Any,
    Access,
    Create,
    Modify,
    Remove,
    Other,
}

/// What happened outside since the last directive.
#[derive(Clone, Debug, PartialEq, Eq)]
pub enum Event {
    /// The driver is ready to begin.
    Start,
    /// A notification for the edit target arrived.
    Changed(ChangeKind),
    /// The content of the edit target, read on [`Directive::ReadTarget`].
    Content(String),
    /// The watch mechanism reported an error of its own; the text is its
    /// message.
    WatchFault(String),
    /// The channel of notifications is closed.
    ChannelClosed,
    /// The subscription to changes of the edit target could not be
    /// established; the text says why.
    SetupFailed(String),
    /// The edit target could not be written or read; the text says why.
    TargetFailed(String),
}

/// The view of an [`Event`].
pub enum EventView {
    Start,
    Changed(ChangeKind),
    Content(Seq<char>),
    WatchFault(Seq<char>),
    ChannelClosed,
    SetupFailed(Seq<char>),
    TargetFailed(Seq<char>),
}

impl View for Event {
    type V = EventView;

    open spec fn view(&self) -> EventView {
        match self {
            Event::Start => EventView::Start,
            Event::Changed(kind) => EventView::Changed(*kind),
            Event::Content(content) => EventView::Content(content@),
            Event::WatchFault(message) => EventView::WatchFault(message@),
            Event::ChannelClosed => EventView::ChannelClosed,
            Event::SetupFailed(message) => EventView::SetupFailed(message@),
            Event::TargetFailed(message) => EventView::TargetFailed(message@),
        }
    }
}

/// Why a session, and the program with it, cannot go on.
#[derive(Clone, Debug, PartialEq, Eq)]
pub enum SessionError {
    /// The edit target could not be written or read; the text says why.
    Io(String),
    /// The subscription could not be established; the text says why.
    WatchSetup(String),
    /// The subscription failed after it was established: no notification
    /// will come any more.
    Watch,
    /// The scripting context refused to take the captured value for the
    /// global `name`; the message is the engine's.
    Binding { name: String, message: String },
}

/// The view of a [`SessionError`].
pub enum SessionErrorView {
    Io(Seq<char>),
    WatchSetup(Seq<char>),
    Watch,
    Binding { name: Seq<char>, message: Seq<char> },
}

impl View for SessionError {
    type V = SessionErrorView;

    open spec fn view(&self) -> SessionErrorView {
        match self {
            SessionError::Io(message) => SessionErrorView::Io(message@),
            SessionError::WatchSetup(message) => SessionErrorView::WatchSetup(message@),
            SessionError::Watch => SessionErrorView::Watch,
            SessionError::Binding { name, message } => SessionErrorView::Binding {
                name: name@,
                message: message@,
            },
        }
    }
}

/// What became of one declared capture when the level was completed.
#[derive(Clone, Debug, PartialEq, Eq)]
pub enum CaptureOutcome {
    /// The first line that the pattern matches gave `value` for its first
    /// group; `value` is published under `name`.
    Bound { name: String, value: String },
    /// A line matches, and the first match in it fills no first group.
    /// Nothing is published.
    EmptyGroup { name: String },
    /// No line matches `pattern`. Nothing is published.
    NoMatch { name: String, pattern: String },
}

/// The view of a [`CaptureOutcome`].
pub enum CaptureOutcomeView {
    Bound { name: Seq<char>, value: Seq<char> },
    EmptyGroup { name: Seq<char> },
    NoMatch { name: Seq<char>, pattern: Seq<char> },
}

impl View for CaptureOutcome {
    type V = CaptureOutcomeView;

    open spec fn view(&self) -> CaptureOutcomeView {
        match self {
            CaptureOutcome::Bound { name, value } => CaptureOutcomeView::Bound {
                name: name@,
                value: value@,
            },
            CaptureOutcome::EmptyGroup { name } => CaptureOutcomeView::EmptyGroup { name: name@ },
            CaptureOutcome::NoMatch { name, pattern } => CaptureOutcomeView::NoMatch {
                name: name@,
                pattern: pattern@,
            },
        }
    }
}

/// The views of a sequence of capture outcomes.
pub open spec fn outcome_views(outcomes: Seq<CaptureOutcome>) -> Seq<CaptureOutcomeView> {
    Seq::new(outcomes.len(), |i: int| outcomes[i]@)
}

/// What the driver is to do next.
#[derive(Clone, Debug, PartialEq, Eq)]
pub enum Directive {
    /// Write `instructions` to the edit target in place of what it holds,
    /// tell the user that the level of `source_id` was loaded and where to
    /// edit, subscribe to changes of the target, then wait for a
    /// notification.
    Instruct { instructions: String, source_id: Option<String> },
    /// Wait for the next notification.
    Wait,
    /// Read the edit target and hand its content over.
    ReadTarget,
    /// Tell the user of the watch mechanism's error, then wait.
    ReportFault(String),
    /// Tell the user that the file is empty, then wait.
    RetryEmptyFile,
    /// Tell the user that the pattern is not matched yet, then wait.
    KeepTrying,
    /// Tell the user that the level is complete and what became of each
    /// capture, then end the session.
    Complete(Vec<CaptureOutcome>),
    /// Give up, and end the program with this error.
    Abort(SessionError),
}

/// The view of a [`Directive`].
pub enum DirectiveView {
    Instruct { instructions: Seq<char>, source_id: Option<Seq<char>> },
    Wait,
    ReadTarget,
    ReportFault(Seq<char>),
    RetryEmptyFile,
    KeepTrying,
    Complete(Seq<CaptureOutcomeView>),
    Abort(SessionErrorView),
}

impl View for Directive {
    type V = DirectiveView;

    open spec fn view(&self) -> DirectiveView {
        match self {
            Directive::Instruct { instructions, source_id } => DirectiveView::Instruct {
                instructions: instructions@,
                source_id: match source_id {
                    Some(id) => Some(id@),
                    None => None,
                },
            },
            Directive::Wait => DirectiveView::Wait,
            Directive::ReadTarget => DirectiveView::ReadTarget,
            Directive::ReportFault(message) => DirectiveView::ReportFault(message@),
            Directive::RetryEmptyFile => DirectiveView::RetryEmptyFile,
            Directive::KeepTrying => DirectiveView::KeepTrying,
            Directive::Complete(outcomes) => DirectiveView::Complete(outcome_views(outcomes@)),
            Directive::Abort(error) => DirectiveView::Abort(error@),
        }
    }
}

/// What becomes of the capture `capture`, a pair of name and pattern, on the
/// lines `lines`: the first line that the pattern matches decides.
pub open spec fn capture_outcome(
    capture: (Seq<char>, Seq<char>),
    lines: Seq<Seq<char>>,
) -> CaptureOutcomeView {
    match first_capture(capture.1, lines) {
        None => CaptureOutcomeView::NoMatch { name: capture.0, pattern: capture.1 },
        Some(None) => CaptureOutcomeView::EmptyGroup { name: capture.0 },
        Some(Some(value)) => CaptureOutcomeView::Bound { name: capture.0, value },
    }
}

/// The outcome of each of `captures` on `lines`, in the order of declaration.
pub open spec fn capture_outcomes(
    captures: Seq<(Seq<char>, Seq<char>)>,
    lines: Seq<Seq<char>>,
) -> Seq<CaptureOutcomeView> {
    Seq::new(captures.len(), |i: int| capture_outcome(captures[i], lines))
}

/// What a new content of the edit target comes to. Blank content is never
/// held against the completion rule. Other content completes the level when
/// the rule matches one of its lines.
pub open spec fn evaluation(level: LevelView, content: Seq<char>) -> DirectiveView {
    if blank(content) {
        DirectiveView::RetryEmptyFile
    } else if some_line_matches(level.completion, split_lines(content)) {
        DirectiveView::Complete(capture_outcomes(level.captures, split_lines(content)))
    } else {
        DirectiveView::KeepTrying
    }
}

/// The phase that follows an evaluation.
pub open spec fn phase_after(evaluated: DirectiveView) -> Phase {
    match evaluated {
        DirectiveView::RetryEmptyFile => Phase::EmptyFileRetry,
        DirectiveView::Complete(_) => Phase::Completed,
        _ => Phase::Watching,
    }
}

/// The transition function of a session: the phase that follows `phase` on
/// `event`, and what the driver is to do.
///
/// A session that instructs begins on `Start`, with the level's instructions
/// as the text to write, and ignores everything else.
/// A session that watches reads the target on a modification and on no other
/// change, evaluates content that is handed over, and reports a fault of the
/// watch mechanism and goes on. It fails for good when the channel is closed,
/// when the subscription could not be established, and when the target could
/// not be written or read. A finished session stays as it is.
pub open spec fn next(phase: Phase, level: LevelView, event: EventView) -> (Phase, DirectiveView) {
    match phase {
        Phase::Instructing => match event {
            EventView::Start => (
                Phase::Watching,
                DirectiveView::Instruct {
                    instructions: level.instructions,
                    source_id: level.source_id,
                },
            ),
            _ => (Phase::Instructing, DirectiveView::Wait),
        },
        Phase::Watching | Phase::EmptyFileRetry => match event {
            EventView::Start => (Phase::Watching, DirectiveView::Wait),
            EventView::Changed(kind) => if kind == ChangeKind::Modify {
                (Phase::Watching, DirectiveView::ReadTarget)
            } else {
                (Phase::Watching, DirectiveView::Wait)
            },
            EventView::Content(content) => (
                phase_after(evaluation(level, content)),
                evaluation(level, content),
            ),
            EventView::WatchFault(message) => (Phase::Watching, DirectiveView::ReportFault(message)),
            EventView::ChannelClosed => (
                Phase::WatchError,
                DirectiveView::Abort(SessionErrorView::Watch),
            ),
            EventView::SetupFailed(message) => (
                Phase::WatchError,
                DirectiveView::Abort(SessionErrorView::WatchSetup(message)),
            ),
            EventView::TargetFailed(message) => (
                Phase::WatchError,
                DirectiveView::Abort(SessionErrorView::Io(message)),
            ),
        },
        Phase::Completed => (Phase::Completed, DirectiveView::Complete(Seq::empty())),
        Phase::WatchError => (Phase::WatchError, DirectiveView::Abort(SessionErrorView::Watch)),
    }
}

/// The names of the captures that `outcomes` bind to a value.
pub open spec fn bound_names(outcomes: Seq<CaptureOutcomeView>) -> Set<Seq<char>> {
    Set::new(
        |name: Seq<char>|
            exists|i: int|
                0 <= i < outcomes.len() && (#[trigger] outcomes[i] matches CaptureOutcomeView::Bound {
                    name: bound,
                    ..
                } && bound == name),
    )
}

/// The writes to the scripting context that `outcomes` ask for: the name and
/// the value of each bound capture, in the order of the outcomes. A capture
/// that is not bound asks for none.
pub open spec fn bindings_of(outcomes: Seq<CaptureOutcomeView>) -> Seq<(Seq<char>, Seq<char>)>
    decreases outcomes.len(),
{
    if outcomes.len() == 0 {
        Seq::empty()
    } else {
        let before = bindings_of(outcomes.drop_last());
        match outcomes.last() {
            CaptureOutcomeView::Bound { name, value } => before.push((name, value)),
            _ => before,
        }
    }
}

/// Every write is the write of a name that the outcomes bind.
pub proof fn lemma_binding_is_bound(outcomes: Seq<CaptureOutcomeView>, k: int)
    requires
        0 <= k < bindings_of(outcomes).len(),
    ensures
        bound_names(outcomes).contains(bindings_of(outcomes)[k].0),
    decreases outcomes.len(),
{
    let before = outcomes.drop_last();
    if outcomes.last() is Bound && k == bindings_of(before).len() {
        assert(outcomes[outcomes.len() - 1] == outcomes.last());
    } else {
        lemma_binding_is_bound(before, k);
        let i = choose|i: int|
            0 <= i < before.len() && (#[trigger] before[i] matches CaptureOutcomeView::Bound {
                name: bound,
                ..
            } && bound == bindings_of(before)[k].0);
        assert(outcomes[i] == before[i]);
    }
}

/// Decides what a new content of the edit target comes to for `level`.
pub fn evaluate(level: &Level, content: &str) -> (d: Directive)
    ensures
        d@ == evaluation(level@, content@),
{
    if is_blank(content) {
        return Directive::RetryEmptyFile;
    }
    let rows = lines(content);
    if !any_line_matches(level.completion(), &rows) {
        return Directive::KeepTrying;
    }
    let captures = level.captures();
    let mut outcomes: Vec<CaptureOutcome> = Vec::new();
    let mut i: usize = 0;
    while i < captures.len()
        invariant
            i <= captures.len(),
            outcomes@.len() == i,
            capture_views(captures@) == level@.captures,
            views(rows@) == split_lines(content@),
            forall|j: int|
                0 <= j < i ==> (#[trigger] outcomes@[j])@ == capture_outcome(
                    level@.captures[j],
                    split_lines(content@),
                ),
        decreases captures.len() - i,
    {
        let capture = &captures[i];
        let name = capture.name().to_owned();
        let outcome = match find_captures_in_lines(capture.matcher(), &rows) {
            None => CaptureOutcome::NoMatch {
                name,
                pattern: capture.matcher().pattern().to_owned(),
            },
            Some(None) => CaptureOutcome::EmptyGroup { name },
            Some(Some(value)) => CaptureOutcome::Bound { name, value },
        };
        outcomes.push(outcome);
        i += 1;
    }
    assert(outcome_views(outcomes@) =~= capture_outcomes(
        level@.captures,
        split_lines(content@),
    ));
    Directive::Complete(outcomes)
}

/// The writes that `outcomes` ask for: the name and the value of each bound
/// capture, in the order of the outcomes.
pub fn bindings(outcomes: &Vec<CaptureOutcome>) -> (writes: Vec<(String, String)>)
    ensures
        pair_views(writes@) == bindings_of(outcome_views(outcomes@)),
{
    let ghost all = outcome_views(outcomes@);
    let mut writes: Vec<(String, String)> = Vec::new();
    let mut i: usize = 0;
    while i < outcomes.len()
        invariant
            i <= outcomes.len(),
            all == outcome_views(outcomes@),
            pair_views(writes@) == bindings_of(all.take(i as int)),
        decreases outcomes.len() - i,
    {
        let ghost before = pair_views(writes@);
        assert(all.take(i + 1).drop_last() =~= all.take(i as int));
        assert(all.take(i + 1).last() == outcomes@[i as int]@);
        match &outcomes[i] {
            CaptureOutcome::Bound { name, value } => {
                writes.push((name.clone(), value.clone()));
                assert(pair_views(writes@) =~= before.push((name@, value@)));
            },
            _ => {},
        }
        i += 1;
    }
    assert(all.take(i as int) =~= all);
    writes
}

/// Publishes each bound value as a global of the scripting context: the
/// writes are those of [`bindings`], made in their order up to the first that
/// the engine refuses. Where nothing is bound, nothing is written and nothing
/// can fail.
pub fn publish_captures(lua: &Lua, outcomes: &Vec<CaptureOutcome>) -> (r: Result<(), BindingError>)
    ensures
        r matches Err(e) ==> bound_names(outcome_views(outcomes@)).contains(e.name@),
{
    let writes = bindings(outcomes);
    let mut i: usize = 0;
    while i < writes.len()
        invariant
            i <= writes.len(),
            pair_views(writes@) == bindings_of(outcome_views(outcomes@)),
        decreases writes.len() - i,
    {
        match bind_global(lua, writes[i].0.as_str(), writes[i].1.as_str()) {
            Ok(_) => {},
            Err(error) => {
                proof {
                    assert(pair_views(writes@)[i as int].0 == writes@[i as int].0@);
                    lemma_binding_is_bound(outcome_views(outcomes@), i as int);
                }
                return Err(error);
            },
        }
        i += 1;
    }
    Ok(())
}

/// A session: one level and the phase it is in.
#[derive(Debug)]
pub struct Session {
    level: Level,
    phase: Phase,
}

/// The view of a [`Session`].
pub struct SessionView {
    pub level: LevelView,
    pub phase: Phase,
}

impl View for Session {
    type V = SessionView;

    closed spec fn view(&self) -> SessionView {
        SessionView { level: self.level@, phase: self.phase }
    }
}

impl Session {
    /// A session for `level` that has not begun.
    pub fn new(level: Level) -> (s: Session)
        ensures
            s@ == (SessionView { level: level@, phase: Phase::Instructing }),
    {
        Session { level, phase: Phase::Instructing }
    }

    /// The level of this session.
    pub fn level(&self) -> (r: &Level)
        ensures
            r@ == self@.level,
    {
        &self.level
    }

    /// The phase of this session.
    pub fn phase(&self) -> (r: Phase)
        ensures
            r == self@.phase,
    {
        self.phase
    }

    /// Takes one event and says what to do next. The level never changes.
    pub fn step(&mut self, event: Event) -> (d: Directive)
        ensures
            final(self)@.level == old(self)@.level,
            (final(self)@.phase, d@) == next(old(self)@.phase, old(self)@.level, event@),
    {
        match self.phase {
            Phase::Instructing => match event {
                Event::Start => {
                    self.phase = Phase::Watching;
                    Directive::Instruct {
                        instructions: self.level.instructions().to_owned(),
                        source_id: match self.level.source_id() {
                            Some(id) => Some(id.to_owned()),
                            None => None,
                        },
                    }
                },
                _ => Directive::Wait,
            },
            Phase::Watching | Phase::EmptyFileRetry => match event {
                Event::Start => {
                    self.phase = Phase::Watching;
                    Directive::Wait
                },
                Event::Changed(kind) => {
                    self.phase = Phase::Watching;
                    match kind {
                        ChangeKind::Modify => Directive::ReadTarget,
                        _ => Directive::Wait,
                    }
                },
                Event::Content(content) => {
                    let d = evaluate(&self.level, content.as_str());
                    self.phase = match d {
                        Directive::RetryEmptyFile => Phase::EmptyFileRetry,
                        Directive::Complete(_) => Phase::Completed,
                        _ => Phase::Watching,
                    };
                    d
                },
                Event::WatchFault(message) => {
                    self.phase = Phase::Watching;
                    Directive::ReportFault(message)
                },
                Event::ChannelClosed => {
                    self.phase = Phase::WatchError;
                    Directive::Abort(SessionError::Watch)
                },
                Event::SetupFailed(message) => {
                    self.phase = Phase::WatchError;
                    Directive::Abort(SessionError::WatchSetup(message))
                },
                Event::TargetFailed(message) => {
                    self.phase = Phase::WatchError;
                    Directive::Abort(SessionError::Io(message))
                },
            },
            Phase::Completed => {
                let d = Directive::Complete(Vec::new());
                assert(outcome_views(Seq::<CaptureOutcome>::empty()) =~= Seq::empty());
                d
            },
            Phase::WatchError => Directive::Abort(SessionError::Watch),
        }
    }

    /// Takes one event as [`Session::step`] does and, where that completes
    /// the level, publishes the bound values in the scripting context `lua`.
    /// Where the engine refuses a write, the directive is to give up; the
    /// session has completed all the same.
    pub fn advance(&mut self, lua: &Lua, event: Event) -> (d: Directive)
        ensures
            final(self)@.level == old(self)@.level,
            final(self)@.phase == next(old(self)@.phase, old(self)@.level, event@).0,
            settled(next(old(self)@.phase, old(self)@.level, event@).1, d@),
    {
        let decided = self.step(event);
        let published = match &decided {
            Directive::Complete(outcomes) => publish_captures(lua, outcomes),
            _ => Ok(()),
        };
        conclude(decided, published)
    }
}

/// The directive that comes of `decided` once the scripting context has
/// answered: a write that the engine refused turns completion into giving
/// up, and nothing else changes.
pub open spec fn concluded(
    decided: DirectiveView,
    published: Result<(), BindingError>,
) -> DirectiveView {
    match published {
        Err(error) if decided is Complete => DirectiveView::Abort(
            SessionErrorView::Binding { name: error.name@, message: error.message@ },
        ),
        _ => decided,
    }
}

/// Whether `d` can come of the directive `decided` once its bound values were
/// handed to the scripting context: `decided` itself, or, where it completes a
/// level and binds a value, giving up because the engine refused the write of
/// one of the names it binds.
pub open spec fn settled(decided: DirectiveView, d: DirectiveView) -> bool {
    ||| d == decided
    ||| {
        &&& decided matches DirectiveView::Complete(outcomes)
        &&& d matches DirectiveView::Abort(SessionErrorView::Binding { name, .. })
        &&& bound_names(outcomes).contains(name)
    }
}

/// Turns the answer of the scripting context into the final directive.
pub fn conclude(decided: Directive, published: Result<(), BindingError>) -> (d: Directive)
    ensures
        d@ == concluded(decided@, published),
{
    match published {
        Ok(_) => decided,
        Err(error) => match decided {
            Directive::Complete(_) => Directive::Abort(
                SessionError::Binding { name: error.name, message: error.message },
            ),
            other => other,
        },
    }
}

/// A watching session that is handed content ends up completed if and only
/// if the completion rule matches some line of the content, and goes on
/// watching otherwise. Left out is blank content of which the rule matches a
/// line: blank content is never evaluated.
pub proof fn law_completed_iff_some_line_matches(
    phase: Phase,
    level: LevelView,
    content: Seq<char>,
)
    requires
        phase.is_watching(),
        !(blank(content) && some_line_matches(level.completion, split_lines(content))),
    ensures
        next(phase, level, EventView::Content(content)).0 == Phase::Completed
            <==> some_line_matches(level.completion, split_lines(content)),
        !some_line_matches(level.completion, split_lines(content)) ==> next(
            phase,
            level,
            EventView::Content(content),
        ).0.is_watching(),
{
}

/// Blank content never reaches the completion rule: whatever the level, a
/// watching session answers it with the empty-file retry.
pub proof fn law_blank_content_retries(phase: Phase, level: LevelView, content: Seq<char>)
    requires
        phase.is_watching(),
        blank(content),
    ensures
        next(phase, level, EventView::Content(content)) == (
            Phase::EmptyFileRetry,
            DirectiveView::RetryEmptyFile,
        ),
{
}

/// Content is answered with the empty-file retry exactly when nothing is left
/// of it once the whitespace around it is set aside.
pub proof fn law_retry_iff_empty_after_trimming(
    phase: Phase,
    level: LevelView,
    content: Seq<char>,
)
    requires
        phase.is_watching(),
    ensures
        next(phase, level, EventView::Content(content)).0 == Phase::EmptyFileRetry <==> trimmed(
            content,
        ).len() == 0,
{
    lemma_blank_iff_trimmed_empty(content);
}

/// When a level is completed, each capture is decided by the first line, in
/// the order of the content, that its pattern matches: what the first group
/// holds in that line is the value bound to the capture's name, and later
/// lines have no say. Here `line` is the position of that first line and
/// `capture` the position of the capture.
pub proof fn law_first_matching_line_decides(
    phase: Phase,
    level: LevelView,
    content: Seq<char>,
    capture: int,
    line: int,
)
    requires
        phase.is_watching(),
        !blank(content),
        some_line_matches(level.completion, split_lines(content)),
        0 <= capture < level.captures.len(),
        0 <= line < split_lines(content).len(),
        pattern_matches(level.captures[capture].1, split_lines(content)[line]),
        forall|j: int|
            0 <= j < line ==> !pattern_matches(
                level.captures[capture].1,
                #[trigger] split_lines(content)[j],
            ),
    ensures
        next(phase, level, EventView::Content(content)) == (
            Phase::Completed,
            DirectiveView::Complete(capture_outcomes(level.captures, split_lines(content))),
        ),
        capture_outcomes(level.captures, split_lines(content))[capture] == match pattern_group(
            level.captures[capture].1,
            split_lines(content)[line],
        ) {
            Some(value) => CaptureOutcomeView::Bound { name: level.captures[capture].0, value },
            None => CaptureOutcomeView::EmptyGroup { name: level.captures[capture].0 },
        },
{
    lemma_first_capture_at(level.captures[capture].1, split_lines(content), line);
}

/// A capture whose pattern matches no line of the content binds nothing: its
/// name is bound only if another capture of the same name binds it. That the
/// pattern matched nothing is reported, and the level is completed all the
/// same.
pub proof fn law_unmatched_capture_binds_nothing(
    phase: Phase,
    level: LevelView,
    content: Seq<char>,
    capture: int,
)
    requires
        phase.is_watching(),
        !blank(content),
        some_line_matches(level.completion, split_lines(content)),
        0 <= capture < level.captures.len(),
        !some_line_matches(level.captures[capture].1, split_lines(content)),
    ensures
        next(phase, level, EventView::Content(content)) == (
            Phase::Completed,
            DirectiveView::Complete(capture_outcomes(level.captures, split_lines(content))),
        ),
        capture_outcomes(level.captures, split_lines(content))[capture]
            == (CaptureOutcomeView::NoMatch {
            name: level.captures[capture].0,
            pattern: level.captures[capture].1,
        }),
        bound_names(capture_outcomes(level.captures, split_lines(content))).contains(
            level.captures[capture].0,
        ) ==> exists|other: int|
            0 <= other < level.captures.len() && other != capture && (
            #[trigger] level.captures[other]).0 == level.captures[capture].0,
{
    let outcomes = capture_outcomes(level.captures, split_lines(content));
    lemma_first_capture_none(level.captures[capture].1, split_lines(content));
    if bound_names(outcomes).contains(level.captures[capture].0) {
        let other = choose|i: int|
            0 <= i < outcomes.len() && (#[trigger] outcomes[i] matches CaptureOutcomeView::Bound {
                name: bound,
                ..
            } && bound == level.captures[capture].0);
        assert(level.captures[other].0 == level.captures[capture].0);
    }
}

} // verus!
