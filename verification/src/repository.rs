//! The repository of levels: every candidate definition is parsed, the
//! failures are kept as diagnostics, and one of the levels that parsed is
//! selected at random.

use mlua::Lua;
use rand::seq::SliceRandom;
use vstd::prelude::*;

use crate::level::{
    parse_level_file, parsed, parsed_view, Level, LevelError, LevelErrorView, LevelView,
};
use crate::script::MetadataOutcomeView;

verus! {

/// A candidate definition: the identifier of its source and its text, or the
/// reason why the text could not be read.
#[derive(Debug, PartialEq, Eq)]
pub struct Source {
    pub id: String,
    pub content: Result<String, String>,
}

/// The view of a [`Source`].
pub struct SourceView {
    pub id: Seq<char>,
    pub content: Result<Seq<char>, Seq<char>>,
}

impl View for Source {
    type V = SourceView;

    open spec fn view(&self) -> SourceView {
        SourceView {
            id: self.id@,
            content: match self.content {
                Ok(data) => Ok(data@),
                Err(message) => Err(message@),
            },
        }
    }
}

/// A diagnostic entry: a source that gave no level, and why.
#[derive(Clone, Debug, PartialEq, Eq)]
pub struct Rejection {
    pub id: String,
    pub error: LevelError,
}

/// The view of a [`Rejection`].
pub struct RejectionView {
    pub id: Seq<char>,
    pub error: LevelErrorView,
}

impl View for Rejection {
    type V = RejectionView;

    open spec fn view(&self) -> RejectionView {
        RejectionView { id: self.id@, error: self.error@ }
    }
}

/// Why loading gave no level.
#[derive(Clone, Debug, PartialEq, Eq)]
pub enum LoadError {
    /// No candidate gave a level. There is one diagnostic entry for each
    /// candidate, in the order of the candidates.
    NoValidLevels(Vec<Rejection>),
}

/// The view of a [`LoadError`].
pub enum LoadErrorView {
    NoValidLevels(Seq<RejectionView>),
}

/// The views of a sequence of rejections.
pub open spec fn rejection_views(rejections: Seq<Rejection>) -> Seq<RejectionView> {
    Seq::new(rejections.len(), |i: int| rejections[i]@)
}

/// The views of a sequence of levels.
pub open spec fn level_views(levels: Seq<Level>) -> Seq<LevelView> {
    Seq::new(levels.len(), |i: int| levels[i]@)
}

impl View for LoadError {
    type V = LoadErrorView;

    open spec fn view(&self) -> LoadErrorView {
        match self {
            LoadError::NoValidLevels(rejections) => LoadErrorView::NoValidLevels(
                rejection_views(rejections@),
            ),
        }
    }
}

/// The view of what loading returned.
pub open spec fn loaded_view(r: Result<Level, LoadError>) -> Result<LevelView, LoadErrorView> {
    match r {
        Ok(level) => Ok(level@),
        Err(error) => Err(error@),
    }
}

/// The level `level`, attributed to the source `id`.
pub open spec fn attributed(level: LevelView, id: Seq<char>) -> LevelView {
    LevelView { source_id: Some(id), ..level }
}

/// An attempt: the identifier of a source and what parsing it came to.
pub type Attempt = (Seq<char>, Result<LevelView, LevelErrorView>);

/// The levels among `attempts`, each attributed to its source, in order.
pub open spec fn accepted(attempts: Seq<Attempt>) -> Seq<LevelView>
    decreases attempts.len(),
{
    if attempts.len() == 0 {
        Seq::empty()
    } else {
        let before = accepted(attempts.drop_last());
        match attempts.last().1 {
            Ok(level) => before.push(attributed(level, attempts.last().0)),
            Err(_) => before,
        }
    }
}

/// The failures among `attempts`, each with its source, in order.
pub open spec fn rejected(attempts: Seq<Attempt>) -> Seq<RejectionView>
    decreases attempts.len(),
{
    if attempts.len() == 0 {
        Seq::empty()
    } else {
        let before = rejected(attempts.drop_last());
        match attempts.last().1 {
            Ok(_) => before,
            Err(error) => before.push(RejectionView { id: attempts.last().0, error }),
        }
    }
}

/// The number of failures among `attempts`.
pub open spec fn failures(attempts: Seq<Attempt>) -> nat
    decreases attempts.len(),
{
    if attempts.len() == 0 {
        0
    } else if attempts.last().1 is Err {
        failures(attempts.drop_last()) + 1
    } else {
        failures(attempts.drop_last())
    }
}

/// What loading comes to: the level at position `pick` among those that
/// parsed, or all the diagnostics if none did.
pub open spec fn selection(attempts: Seq<Attempt>, pick: int) -> Result<LevelView, LoadErrorView> {
    if accepted(attempts).len() == 0 {
        Err(LoadErrorView::NoValidLevels(rejected(attempts)))
    } else {
        Ok(accepted(attempts)[pick])
    }
}

/// Whether `attempt` can be what became of `source`: a source that could not
/// be read fails with the reason, and one that could gives what parsing its
/// text comes to on some outcome of its metadata block.
pub open spec fn attempt_of(source: SourceView, attempt: Attempt) -> bool {
    &&& attempt.0 == source.id
    &&& match source.content {
        Err(message) => attempt.1 == Err::<LevelView, LevelErrorView>(LevelErrorView::Io(message)),
        Ok(data) => exists|outcome: MetadataOutcomeView| attempt.1 == #[trigger] parsed(data, outcome),
    }
}

/// Calls `rand::seq::SliceRandom::choose` on the slice of `candidates`, with
/// the generator of `rand::thread_rng`. The contract claims what holds of
/// every draw: an empty slice gives `None`, any other gives one of its items.
#[verifier::external_body]
fn choose_one(candidates: &Vec<usize>) -> (r: Option<usize>)
    ensures
        candidates@.len() == 0 ==> r is None,
        candidates@.len() > 0 ==> r is Some && candidates@.contains(r->0),
{
    candidates.choose(&mut rand::thread_rng()).copied()
}

/// The levels that loaded so far, and the diagnostics of the sources that
/// gave none.
pub struct Repository {
    levels: Vec<Level>,
    rejections: Vec<Rejection>,
}

/// The view of a [`Repository`].
pub struct RepositoryView {
    pub levels: Seq<LevelView>,
    pub rejections: Seq<RejectionView>,
}

impl View for Repository {
    type V = RepositoryView;

    closed spec fn view(&self) -> RepositoryView {
        RepositoryView {
            levels: level_views(self.levels@),
            rejections: rejection_views(self.rejections@),
        }
    }
}

impl Repository {
    /// A repository that has seen no source.
    pub fn new() -> (r: Repository)
        ensures
            r@.levels == Seq::<LevelView>::empty(),
            r@.rejections == Seq::<RejectionView>::empty(),
    {
        let r = Repository { levels: Vec::new(), rejections: Vec::new() };
        assert(r@.levels =~= Seq::empty() && r@.rejections =~= Seq::empty());
        r
    }

    /// Records what parsing the source `id` came to: a level is attributed to
    /// the source and kept, a failure is kept as a diagnostic. Nothing that
    /// was recorded before changes.
    pub fn record(&mut self, id: String, attempt: Result<Level, LevelError>)
        ensures
            final(self)@ == match parsed_view(attempt) {
                Ok(level) => RepositoryView {
                    levels: old(self)@.levels.push(attributed(level, id@)),
                    ..old(self)@
                },
                Err(error) => RepositoryView {
                    rejections: old(self)@.rejections.push(RejectionView { id: id@, error }),
                    ..old(self)@
                },
            },
    {
        match attempt {
            Ok(level) => {
                let ghost before = level_views(self.levels@);
                let level = level.with_source_id(id);
                self.levels.push(level);
                assert(level_views(self.levels@) =~= before.push(level@));
            },
            Err(error) => {
                let ghost before = rejection_views(self.rejections@);
                let rejection = Rejection { id, error };
                self.rejections.push(rejection);
                assert(rejection_views(self.rejections@) =~= before.push(rejection@));
            },
        }
    }

    /// Hands out the level at position `pick`, or all the diagnostics if no
    /// level loaded.
    pub fn select(self, pick: usize) -> (r: Result<Level, LoadError>)
        requires
            self@.levels.len() > 0 ==> pick < self@.levels.len(),
        ensures
            loaded_view(r) == if self@.levels.len() == 0 {
                Err::<LevelView, LoadErrorView>(LoadErrorView::NoValidLevels(self@.rejections))
            } else {
                Ok(self@.levels[pick as int])
            },
    {
        let mut levels = self.levels;
        if levels.len() == 0 {
            Err(LoadError::NoValidLevels(self.rejections))
        } else {
            Ok(levels.swap_remove(pick))
        }
    }

    /// Selects one of the levels that loaded, each with the same chance, or
    /// fails with all the diagnostics if none did.
    pub fn select_random(self) -> (r: Result<Level, LoadError>)
        ensures
            self@.levels.len() == 0 ==> loaded_view(r) == Err::<LevelView, LoadErrorView>(
                LoadErrorView::NoValidLevels(self@.rejections),
            ),
            self@.levels.len() > 0 ==> exists|pick: int|
                0 <= pick < self@.levels.len() && loaded_view(r) == Ok::<LevelView, LoadErrorView>(
                    #[trigger] self@.levels[pick],
                ),
    {
        let count = self.levels.len();
        let mut positions: Vec<usize> = Vec::new();
        let mut i: usize = 0;
        while i < count
            invariant
                i <= count,
                positions@.len() == i,
                forall|j: int| 0 <= j < i ==> #[trigger] positions@[j] == j,
            decreases count - i,
        {
            positions.push(i);
            i += 1;
        }
        match choose_one(&positions) {
            None => self.select(0),
            Some(pick) => {
                assert(pick < count) by {
                    let j = choose|j: int| 0 <= j < positions@.len() && positions@[j] == pick;
                    assert(positions@[j] == j);
                }
                self.select(pick)
            },
        }
    }
}

/// Parses every source in order, in the one scripting context `lua`, and
/// selects one of the levels that came of it at random. A source that fails
/// never keeps another from loading; only when every source has failed does
/// loading fail, with one diagnostic for each.
///
/// The contract fixes the result for whatever the scripts and the draw came
/// to: there is an attempt for each source, as [`attempt_of`] allows it, and a
/// position among the levels, of which the result is the [`selection`].
pub fn load_random_level(lua: &Lua, sources: &Vec<Source>) -> (r: Result<Level, LoadError>)
    ensures
        exists|attempts: Seq<Attempt>, pick: int|
            {
                &&& attempts.len() == sources@.len()
                &&& forall|i: int|
                    0 <= i < attempts.len() ==> attempt_of(sources@[i]@, #[trigger] attempts[i])
                &&& accepted(attempts).len() > 0 ==> 0 <= pick < accepted(attempts).len()
                &&& loaded_view(r) == #[trigger] selection(attempts, pick)
            },
        r matches Ok(level) ==> exists|i: int|
            0 <= i < sources@.len() && (#[trigger] sources@[i]).content is Ok && level@.source_id
                == Some(sources@[i].id@),
        r matches Err(LoadError::NoValidLevels(diagnostics)) ==> {
            &&& diagnostics@.len() == sources@.len()
            &&& forall|i: int|
                0 <= i < diagnostics@.len() ==> (#[trigger] diagnostics@[i]).id@ == sources@[i].id@
        },
{
    let mut repository = Repository::new();
    let ghost mut attempts: Seq<Attempt> = Seq::empty();
    let mut i: usize = 0;
    while i < sources.len()
        invariant
            i <= sources.len(),
            attempts.len() == i,
            forall|j: int| 0 <= j < i ==> attempt_of(sources@[j]@, #[trigger] attempts[j]),
            repository@.levels == accepted(attempts),
            repository@.rejections == rejected(attempts),
        decreases sources.len() - i,
    {
        let source = &sources[i];
        let attempt = match &source.content {
            Ok(data) => parse_level_file(lua, data.as_str()),
            Err(message) => Err(LevelError::Io(message.clone())),
        };
        proof {
            let entry: Attempt = (source.id@, parsed_view(attempt));
            assert(attempt_of(source@, entry));
            assert(attempts.push(entry).drop_last() =~= attempts);
            attempts = attempts.push(entry);
        }
        repository.record(source.id.clone(), attempt);
        i += 1;
    }
    let ghost levels = repository@.levels;
    let r = repository.select_random();
    proof {
        if levels.len() == 0 {
            assert(loaded_view(r) == selection(attempts, 0));
            lemma_all_rejected(attempts);
            let diagnostics = r->Err_0->NoValidLevels_0;
            assert forall|i: int| 0 <= i < diagnostics@.len() implies (
            #[trigger] diagnostics@[i]).id@ == sources@[i].id@ by {
                assert(rejection_views(diagnostics@)[i] == diagnostics@[i]@);
                assert(attempt_of(sources@[i]@, attempts[i]));
            }
        } else {
            let pick = choose|pick: int|
                0 <= pick < levels.len() && loaded_view(r) == Ok::<LevelView, LoadErrorView>(
                    #[trigger] levels[pick],
                );
            assert(loaded_view(r) == selection(attempts, pick));
            lemma_accepted_has_source(attempts, pick);
            let i = choose|i: int|
                0 <= i < attempts.len() && ((#[trigger] attempts[i]).1 matches Ok(level)
                    && accepted(attempts)[pick] == attributed(level, attempts[i].0));
            assert(attempt_of(sources@[i]@, attempts[i]));
            assert(sources@[i].content is Ok);
        }
    }
    r
}

/// Every attempt is either a level or a failure: with `N` attempts of which
/// `M` failed, `N - M` levels are accepted and `M` diagnostics are kept.
pub proof fn lemma_attempts_partition(attempts: Seq<Attempt>)
    ensures
        rejected(attempts).len() == failures(attempts),
        accepted(attempts).len() == attempts.len() - failures(attempts),
        failures(attempts) <= attempts.len(),
    decreases attempts.len(),
{
    if attempts.len() > 0 {
        lemma_attempts_partition(attempts.drop_last());
    }
}

/// Where no attempt gave a level, there is one diagnostic for each attempt, in
/// the order of the attempts, with its source and its failure.
pub proof fn lemma_all_rejected(attempts: Seq<Attempt>)
    requires
        accepted(attempts).len() == 0,
    ensures
        rejected(attempts).len() == attempts.len(),
        forall|i: int|
            0 <= i < attempts.len() ==> (#[trigger] rejected(attempts)[i]).id == attempts[i].0
                && attempts[i].1 == Err::<LevelView, LevelErrorView>(rejected(attempts)[i].error),
    decreases attempts.len(),
{
    if attempts.len() > 0 {
        lemma_all_rejected(attempts.drop_last());
    }
}

/// Loading `N` definitions of which `M` fail gives a level if and only if
/// `N - M >= 1`, whatever the draw. With `N - M == 0` it fails with
/// `NoValidLevels` and surfaces `M` diagnostic entries.
pub proof fn law_loads_iff_some_definition_is_valid(attempts: Seq<Attempt>, pick: int)
    ensures
        selection(attempts, pick) is Ok <==> attempts.len() - failures(attempts) >= 1,
        attempts.len() - failures(attempts) == 0 ==> (selection(attempts, pick) matches Err(
            LoadErrorView::NoValidLevels(diagnostics),
        ) && diagnostics.len() == failures(attempts)),
{
    lemma_attempts_partition(attempts);
}

/// A level that is selected comes from a source that parsed, and carries the
/// identifier of that source.
pub proof fn lemma_accepted_has_source(attempts: Seq<Attempt>, pick: int)
    requires
        0 <= pick < accepted(attempts).len(),
    ensures
        exists|i: int|
            0 <= i < attempts.len() && ((#[trigger] attempts[i]).1 matches Ok(level)
                && accepted(attempts)[pick] == attributed(level, attempts[i].0)),
    decreases attempts.len(),
{
    let before = attempts.drop_last();
    if attempts.last().1 is Ok && pick == accepted(before).len() {
        assert(attempts[attempts.len() - 1] == attempts.last());
    } else {
        lemma_accepted_has_source(before, pick);
        let i = choose|i: int|
            0 <= i < before.len() && ((#[trigger] before[i]).1 matches Ok(level) && accepted(
                before,
            )[pick] == attributed(level, before[i].0));
        assert(attempts[i] == before[i]);
    }
}

} // verus!
