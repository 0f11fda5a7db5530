//! Moving the clips of a batch into a directory, one after the other.
use crate::clips;
use crate::errors::{MoveError, MoveFault};
use crate::paths;
use crate::paths::UnixPath;
use vstd::prelude::*;

verus! {

/// One file to be moved.
#[derive(Debug, PartialEq, Eq)]
pub struct Move {
    pub from: UnixPath,
    pub to: UnixPath,
}

impl View for Move {
    type V = (Seq<u8>, Seq<u8>);

    open spec fn view(&self) -> (Seq<u8>, Seq<u8>) {
        (self.from@, self.to@)
    }
}

/// The files of a batch that are to be moved, one after the other.
#[derive(Debug, PartialEq, Eq)]
pub struct MovePlan {
    pub dest_dir: UnixPath,
    pub moves: Vec<Move>,
    /// The first path without a file name: behind it nothing is moved.
    pub nameless: Option<UnixPath>,
}

/// What a [`MovePlan`] says.
pub struct PlanView {
    pub dest_dir: Seq<u8>,
    pub moves: Seq<(Seq<u8>, Seq<u8>)>,
    pub nameless: Option<Seq<u8>>,
}

/// What a list of moves says.
pub open spec fn move_views(moves: Seq<Move>) -> Seq<(Seq<u8>, Seq<u8>)> {
    Seq::new(moves.len(), |i: int| moves[i]@)
}

impl View for MovePlan {
    type V = PlanView;

    open spec fn view(&self) -> PlanView {
        PlanView {
            dest_dir: self.dest_dir@,
            moves: move_views(self.moves@),
            nameless: match self.nameless {
                Some(path) => Some(path@),
                None => None,
            },
        }
    }
}

/// The plan that moves each file into a directory, under its own name, up to the first path that
/// has no file name.
pub open spec fn plan_of(inputs: Seq<Seq<u8>>, dest_dir: Seq<u8>) -> PlanView
    decreases inputs.len(),
{
    if inputs.len() == 0 {
        PlanView { dest_dir, moves: Seq::empty(), nameless: None }
    } else {
        let before = plan_of(inputs.drop_last(), dest_dir);
        if before.nameless is Some {
            before
        } else {
            match paths::file_name(inputs.last()) {
                Some(name) => PlanView {
                    dest_dir,
                    moves: before.moves.push((inputs.last(), paths::join(dest_dir, name))),
                    nameless: None,
                },
                None => PlanView {
                    dest_dir,
                    moves: before.moves,
                    nameless: Some(inputs.last()),
                },
            }
        }
    }
}

/// The plan that moves the clips of a batch into a directory.
pub fn move_batch(inputs: &[UnixPath], dest_dir: &UnixPath) -> (plan: MovePlan)
    ensures
        plan@ == plan_of(paths::path_bytes(inputs@), dest_dir@),
{
    let ghost all = paths::path_bytes(inputs@);
    let mut moves: Vec<Move> = Vec::new();
    let mut i: usize = 0;
    proof {
        assert(all.take(0) =~= Seq::<Seq<u8>>::empty());
        assert(move_views(moves@) =~= Seq::<(Seq<u8>, Seq<u8>)>::empty());
    }
    while i < inputs.len()
        invariant
            i <= inputs@.len(),
            all == paths::path_bytes(inputs@),
            plan_of(all.take(i as int), dest_dir@) == (PlanView {
                dest_dir: dest_dir@,
                moves: move_views(moves@),
                nameless: None,
            }),
        decreases inputs@.len() - i,
    {
        proof {
            assert(all.take(i + 1).drop_last() =~= all.take(i as int));
            assert(all.take(i + 1).last() == inputs@[i as int]@);
        }
        let input = &inputs[i];
        match input.file_name() {
            Some(name) => {
                let ghost before = move_views(moves@);
                let to = dest_dir.join(name.as_slice());
                let ghost target = to@;
                moves.push(Move { from: input.duplicate(), to });
                assert(move_views(moves@) =~= before.push((input@, target)));
            },
            None => {
                proof {
                    nameless_stays(all, dest_dir@, i + 1);
                }
                return MovePlan {
                    dest_dir: dest_dir.duplicate(),
                    moves,
                    nameless: Some(input.duplicate()),
                };
            },
        }
        i = i + 1;
    }
    assert(all.take(all.len() as int) =~= all);
    MovePlan { dest_dir: dest_dir.duplicate(), moves, nameless: None }
}

/// Behind a path without a file name the plan does not change.
proof fn nameless_stays(inputs: Seq<Seq<u8>>, dest_dir: Seq<u8>, n: int)
    requires
        0 <= n <= inputs.len(),
        plan_of(inputs.take(n), dest_dir).nameless is Some,
    ensures
        plan_of(inputs, dest_dir) == plan_of(inputs.take(n), dest_dir),
    decreases inputs.len() - n,
{
    if n < inputs.len() {
        assert(inputs.take(n + 1).drop_last() =~= inputs.take(n));
        nameless_stays(inputs, dest_dir, n + 1);
    } else {
        assert(inputs.take(n) =~= inputs);
    }
}

/// What a move waits for: the work that is to be done next, or how the move ended.
#[derive(Debug, PartialEq, Eq)]
pub enum MoveState {
    /// The directory is to be created, with the ones above it.
    CreateDir { plan: MovePlan },
    /// A file is to be renamed, with the rest of the plan behind it.
    Rename { file: Move, rest: MovePlan },
    /// All files were moved.
    Moved,
    /// The move stopped. What was renamed before stays where it is.
    Failed { dest_dir: UnixPath, error: MoveError },
}

/// What a [`MoveState`] says.
pub enum MovePhase {
    CreateDir { plan: PlanView },
    Rename { file: (Seq<u8>, Seq<u8>), rest: PlanView },
    Moved,
    Failed { dest_dir: Seq<u8>, fault: MoveFault },
}

impl View for MoveState {
    type V = MovePhase;

    open spec fn view(&self) -> MovePhase {
        match self {
            MoveState::CreateDir { plan } => MovePhase::CreateDir { plan: plan@ },
            MoveState::Rename { file, rest } => MovePhase::Rename { file: file@, rest: rest@ },
            MoveState::Moved => MovePhase::Moved,
            MoveState::Failed { dest_dir, error } => MovePhase::Failed {
                dest_dir: dest_dir@,
                fault: error@,
            },
        }
    }
}

/// How a piece of work ended.
#[derive(Debug, PartialEq, Eq)]
pub enum MoveEvent {
    DirCreated,
    DirNotCreated { reason: String },
    Renamed,
    NotRenamed { reason: String },
}

/// What a [`MoveEvent`] says.
pub enum MoveNews {
    DirCreated,
    DirNotCreated { reason: Seq<char> },
    Renamed,
    NotRenamed { reason: Seq<char> },
}

impl View for MoveEvent {
    type V = MoveNews;

    open spec fn view(&self) -> MoveNews {
        match self {
            MoveEvent::DirCreated => MoveNews::DirCreated,
            MoveEvent::DirNotCreated { reason } => MoveNews::DirNotCreated { reason: reason@ },
            MoveEvent::Renamed => MoveNews::Renamed,
            MoveEvent::NotRenamed { reason } => MoveNews::NotRenamed { reason: reason@ },
        }
    }
}

/// What a move waits for before the next file of a plan: that it is renamed; with none left the
/// move is over, and has failed where a path without a file name comes next.
pub open spec fn next_file(plan: PlanView) -> MovePhase {
    if plan.moves.len() > 0 {
        MovePhase::Rename {
            file: plan.moves[0],
            rest: PlanView {
                dest_dir: plan.dest_dir,
                moves: plan.moves.drop_first(),
                nameless: plan.nameless,
            },
        }
    } else {
        match plan.nameless {
            Some(path) => MovePhase::Failed {
                dest_dir: plan.dest_dir,
                fault: MoveFault::NamelessInput { path },
            },
            None => MovePhase::Moved,
        }
    }
}

/// What a move waits for once a piece of work has ended. News that does not answer what the move
/// waits for changes nothing.
pub open spec fn next_move(phase: MovePhase, news: MoveNews) -> MovePhase {
    match (phase, news) {
        (MovePhase::CreateDir { plan }, MoveNews::DirCreated) => next_file(plan),
        (MovePhase::CreateDir { plan }, MoveNews::DirNotCreated { reason }) => MovePhase::Failed {
            dest_dir: plan.dest_dir,
            fault: MoveFault::DirNotCreated { dir: plan.dest_dir, reason },
        },
        (MovePhase::Rename { file, rest }, MoveNews::Renamed) => next_file(rest),
        (MovePhase::Rename { file, rest }, MoveNews::NotRenamed { reason }) => MovePhase::Failed {
            dest_dir: rest.dest_dir,
            fault: MoveFault::NotRenamed { path: file.0, dest_dir: rest.dest_dir, reason },
        },
        _ => phase,
    }
}

/// Whether a move is over.
pub open spec fn has_ended(phase: MovePhase) -> bool {
    phase is Moved || phase is Failed
}

impl MoveState {
    /// Whether the move is over.
    pub fn is_over(&self) -> (over: bool)
        ensures
            over == has_ended(self@),
    {
        match self {
            MoveState::Moved => true,
            MoveState::Failed { dest_dir: _, error: _ } => true,
            _ => false,
        }
    }

    /// What a move waits for before the next file of a plan.
    fn next_file(plan: MovePlan) -> (next: MoveState)
        ensures
            next@ == next_file(plan@),
    {
        let MovePlan { dest_dir, moves, nameless } = plan;
        if moves.len() == 0 {
            return match nameless {
                Some(path) => MoveState::Failed {
                    dest_dir,
                    error: MoveError::NamelessInput { path },
                },
                None => MoveState::Moved,
            };
        }
        let ghost all = move_views(moves@);
        let mut left = moves;
        let file = left.remove(0);
        assert(move_views(left@) =~= all.drop_first());
        MoveState::Rename { file, rest: MovePlan { dest_dir, moves: left, nameless } }
    }

    /// What the move waits for once a piece of work has ended.
    ///
    /// The first failure stops the move, and nothing is moved back: what was renamed before stays
    /// in the directory, and the file that failed stays with all behind it where they were.
    pub fn step(self, event: MoveEvent) -> (next: MoveState)
        ensures
            next@ == next_move(self@, event@),
    {
        match (self, event) {
            (MoveState::CreateDir { plan }, MoveEvent::DirCreated) => MoveState::next_file(plan),
            (MoveState::CreateDir { plan }, MoveEvent::DirNotCreated { reason }) => {
                let error = MoveError::DirNotCreated { dir: plan.dest_dir.duplicate(), reason };
                MoveState::Failed { dest_dir: plan.dest_dir, error }
            },
            (MoveState::Rename { file: _, rest }, MoveEvent::Renamed) => MoveState::next_file(rest),
            (MoveState::Rename { file, rest }, MoveEvent::NotRenamed { reason }) => {
                let error = MoveError::NotRenamed {
                    path: file.from,
                    dest_dir: rest.dest_dir.duplicate(),
                    reason,
                };
                MoveState::Failed { dest_dir: rest.dest_dir, error }
            },
            (state, _) => state,
        }
    }
}

/// Each file keeps its name, and lies directly in the directory.
pub proof fn moves_keep_names(inputs: Seq<Seq<u8>>, dest_dir: Seq<u8>)
    ensures
        plan_of(inputs, dest_dir).dest_dir == dest_dir,
        forall|i: int|
            0 <= i < plan_of(inputs, dest_dir).moves.len() ==> {
                let (from, to) = #[trigger] plan_of(inputs, dest_dir).moves[i];
                &&& i < inputs.len()
                &&& from == inputs[i]
                &&& paths::file_name(to) == paths::file_name(from)
                &&& paths::file_name(from) matches Some(name) && paths::components(to)
                    == paths::components(dest_dir).push(paths::Component::Normal(name))
            },
    decreases inputs.len(),
{
    if inputs.len() > 0 {
        moves_keep_names(inputs.drop_last(), dest_dir);
        let before = plan_of(inputs.drop_last(), dest_dir);
        let plan = plan_of(inputs, dest_dir);
        paths::file_name_is_plain(inputs.last());
        if let Some(name) = paths::file_name(inputs.last()) {
            paths::join_appends_component(dest_dir, name);
        }
        plans_stop_at_the_first_nameless(inputs.drop_last(), dest_dir);
        assert forall|i: int| 0 <= i < plan.moves.len() implies {
            let (from, to) = #[trigger] plan.moves[i];
            &&& i < inputs.len()
            &&& from == inputs[i]
            &&& paths::file_name(to) == paths::file_name(from)
            &&& paths::file_name(from) matches Some(name) && paths::components(to)
                == paths::components(dest_dir).push(paths::Component::Normal(name))
        } by {
            if i < before.moves.len() {
                assert(plan.moves[i] == before.moves[i]);
            }
        }
    }
}

/// A plan holds a move for each file up to the first without a name.
pub proof fn plans_stop_at_the_first_nameless(inputs: Seq<Seq<u8>>, dest_dir: Seq<u8>)
    ensures
        ({
            let plan = plan_of(inputs, dest_dir);
            &&& plan.moves.len() <= inputs.len()
            &&& forall|i: int|
                0 <= i < plan.moves.len() ==> paths::file_name(#[trigger] inputs[i]) is Some
            &&& match plan.nameless {
                None => plan.moves.len() == inputs.len(),
                Some(path) => plan.moves.len() < inputs.len() && path
                    == inputs[plan.moves.len() as int] && paths::file_name(path) is None,
            }
        }),
    decreases inputs.len(),
{
    if inputs.len() > 0 {
        let before = inputs.drop_last();
        plans_stop_at_the_first_nameless(before, dest_dir);
        assert forall|i: int| 0 <= i < plan_of(inputs, dest_dir).moves.len() implies paths::file_name(
            #[trigger] inputs[i],
        ) is Some by {
            if i < before.len() {
                assert(inputs[i] == before[i]);
            }
        }
    }
}

/// Files of different names are never moved onto one another.
pub proof fn moves_do_not_collide(inputs: Seq<Seq<u8>>, dest_dir: Seq<u8>, i: int, j: int)
    requires
        0 <= i < plan_of(inputs, dest_dir).moves.len(),
        0 <= j < plan_of(inputs, dest_dir).moves.len(),
        paths::file_name(inputs[i]) != paths::file_name(inputs[j]),
    ensures
        plan_of(inputs, dest_dir).moves[i].1 != plan_of(inputs, dest_dir).moves[j].1,
{
    moves_keep_names(inputs, dest_dir);
}

/// Every file of a batch of clips is moved.
pub proof fn clips_are_all_moved(inputs: Seq<Seq<u8>>, dest_dir: Seq<u8>)
    requires
        forall|i: int| 0 <= i < inputs.len() ==> clips::is_clip(#[trigger] inputs[i]),
    ensures
        plan_of(inputs, dest_dir).nameless is None,
        plan_of(inputs, dest_dir).moves.len() == inputs.len(),
    decreases inputs.len(),
{
    if inputs.len() > 0 {
        assert forall|i: int| 0 <= i < inputs.drop_last().len() implies clips::is_clip(
            #[trigger] inputs.drop_last()[i],
        ) by {
            assert(inputs.drop_last()[i] == inputs[i]);
        }
        clips_are_all_moved(inputs.drop_last(), dest_dir);
        assert(clips::is_clip(inputs[inputs.len() - 1]));
    }
}

/// What a move waits for after a run of news.
pub open spec fn move_after(phase: MovePhase, news: Seq<MoveNews>) -> MovePhase
    decreases news.len(),
{
    if news.len() == 0 {
        phase
    } else {
        next_move(move_after(phase, news.drop_last()), news.last())
    }
}

/// The renames that were made in a run of news, in order.
pub open spec fn renames(phase: MovePhase, news: Seq<MoveNews>) -> Seq<(Seq<u8>, Seq<u8>)>
    decreases news.len(),
{
    if news.len() == 0 {
        Seq::empty()
    } else {
        let before = renames(phase, news.drop_last());
        match (move_after(phase, news.drop_last()), news.last()) {
            (MovePhase::Rename { file, .. }, MoveNews::Renamed) => before.push(file),
            _ => before,
        }
    }
}

/// A move that is over stays as it is, and makes no more renames.
pub proof fn ended_moves_stay(phase: MovePhase, news: Seq<MoveNews>, more: Seq<MoveNews>)
    requires
        has_ended(move_after(phase, news)),
    ensures
        move_after(phase, news + more) == move_after(phase, news),
        renames(phase, news + more) == renames(phase, news),
    decreases more.len(),
{
    if more.len() == 0 {
        assert(news + more =~= news);
    } else {
        ended_moves_stay(phase, news, more.drop_last());
        assert((news + more).drop_last() =~= news + more.drop_last());
    }
}

/// No rename is ever undone: what was made stays made, whatever happens later.
pub proof fn renames_are_never_undone(phase: MovePhase, news: Seq<MoveNews>, more: Seq<MoveNews>)
    ensures
        renames(phase, news).is_prefix_of(renames(phase, news + more)),
    decreases more.len(),
{
    if more.len() == 0 {
        assert(news + more =~= news);
    } else {
        renames_are_never_undone(phase, news, more.drop_last());
        assert((news + more).drop_last() =~= news + more.drop_last());
    }
}

/// What is left of a plan behind its first moves.
pub open spec fn plan_behind(plan: PlanView, n: int) -> PlanView {
    PlanView { dest_dir: plan.dest_dir, moves: plan.moves.skip(n), nameless: plan.nameless }
}

/// Whether renames are those of a plan up to where its move stands: none before the directory is
/// there or where it could not be created; the ones before the file that is next, or that could
/// not be renamed; and all once the move has come to the end of the plan.
pub open spec fn are_the_first(
    plan: PlanView,
    phase: MovePhase,
    made: Seq<(Seq<u8>, Seq<u8>)>,
) -> bool {
    let n = made.len() as int;
    &&& n <= plan.moves.len()
    &&& made == plan.moves.take(n)
    &&& match phase {
        MovePhase::CreateDir { plan: p } => p == plan && n == 0,
        MovePhase::Rename { file, rest } => n < plan.moves.len() && file == plan.moves[n] && rest
            == plan_behind(plan, n + 1),
        MovePhase::Moved => n == plan.moves.len() && plan.nameless is None,
        MovePhase::Failed { dest_dir, fault } => dest_dir == plan.dest_dir && match fault {
            MoveFault::DirNotCreated { dir, .. } => n == 0 && dir == dest_dir,
            MoveFault::NamelessInput { path } => n == plan.moves.len() && plan.nameless == Some(
                path,
            ),
            MoveFault::NotRenamed { path, dest_dir: to, .. } => n < plan.moves.len() && path
                == plan.moves[n].0 && to == dest_dir,
        },
    }
}

proof fn next_files_follow(plan: PlanView, made: Seq<(Seq<u8>, Seq<u8>)>)
    requires
        made.len() <= plan.moves.len(),
        made == plan.moves.take(made.len() as int),
    ensures
        are_the_first(plan, next_file(plan_behind(plan, made.len() as int)), made),
{
    let n = made.len() as int;
    if n < plan.moves.len() {
        assert(plan.moves.skip(n).drop_first() =~= plan.moves.skip(n + 1));
    }
}

/// Whatever happens to a move, exactly the renames before the file at which it stands were made,
/// in the order of the plan; where it failed, those before the file that failed, and without a
/// directory none.
pub proof fn failed_moves_stop_there(plan: PlanView, news: Seq<MoveNews>)
    ensures
        are_the_first(
            plan,
            move_after(MovePhase::CreateDir { plan }, news),
            renames(MovePhase::CreateDir { plan }, news),
        ),
    decreases news.len(),
{
    let start = MovePhase::CreateDir { plan };
    if news.len() == 0 {
        assert(renames(start, news) =~= plan.moves.take(0));
    } else {
        let before = renames(start, news.drop_last());
        failed_moves_stop_there(plan, news.drop_last());
        match (move_after(start, news.drop_last()), news.last()) {
            (MovePhase::CreateDir { .. }, MoveNews::DirCreated) => {
                assert(plan.moves.skip(0) =~= plan.moves);
                next_files_follow(plan, before);
            },
            (MovePhase::Rename { file, .. }, MoveNews::Renamed) => {
                assert(before.push(file) =~= plan.moves.take(before.len() as int + 1));
                next_files_follow(plan, before.push(file));
            },
            _ => {},
        }
    }
}

/// The news of a move whose directory and renames come out in the given way: a reason for each
/// that failed.
pub open spec fn answers(outcomes: Seq<Option<Seq<char>>>) -> Seq<MoveNews> {
    Seq::new(
        outcomes.len(),
        |i: int|
            match outcomes[i] {
                None => if i == 0 {
                    MoveNews::DirCreated
                } else {
                    MoveNews::Renamed
                },
                Some(reason) => if i == 0 {
                    MoveNews::DirNotCreated { reason }
                } else {
                    MoveNews::NotRenamed { reason }
                },
            },
    )
}

/// Whether a file can be moved: it has a name, and its rename does not fail.
pub open spec fn is_movable(
    inputs: Seq<Seq<u8>>,
    outcomes: Seq<Option<Seq<char>>>,
    i: int,
) -> bool {
    paths::file_name(inputs[i]) is Some && outcomes[i + 1] is None
}

/// A move fails exactly where the directory cannot be created, some file has no name or some
/// rename fails. It moves each file before the first that cannot be moved into the directory,
/// under its own name, and none behind; without a directory it moves none.
pub proof fn moves_end_at_the_first_failure(
    inputs: Seq<Seq<u8>>,
    dest_dir: Seq<u8>,
    outcomes: Seq<Option<Seq<char>>>,
)
    requires
        outcomes.len() == inputs.len() + 1,
    ensures
        ({
            let start = MovePhase::CreateDir { plan: plan_of(inputs, dest_dir) };
            let phase = move_after(start, answers(outcomes));
            let made = renames(start, answers(outcomes));
            let n = made.len() as int;
            &&& has_ended(phase)
            &&& phase is Failed <==> outcomes[0] is Some || exists|i: int|
                0 <= i < inputs.len() && !#[trigger] is_movable(inputs, outcomes, i)
            &&& outcomes[0] is Some ==> n == 0
            &&& n <= inputs.len()
            &&& forall|i: int|
                0 <= i < n ==> is_movable(inputs, outcomes, i) && #[trigger] made[i] == (
                    inputs[i],
                    paths::join(dest_dir, paths::file_name(inputs[i])->0),
                )
            &&& outcomes[0] is None && n < inputs.len() ==> !is_movable(inputs, outcomes, n)
        }),
{
    let plan = plan_of(inputs, dest_dir);
    let start = MovePhase::CreateDir { plan };
    let news = answers(outcomes);
    let made = renames(start, news);
    let n = made.len() as int;
    failed_moves_stop_there(plan, news);
    answers_are_followed(inputs, dest_dir, outcomes, news.len() as int);
    assert(news.take(news.len() as int) =~= news);
    plans_stop_at_the_first_nameless(inputs, dest_dir);
    plans_join_names(inputs, dest_dir);
    if outcomes[0] is None {
        assert(n < inputs.len() ==> !is_movable(inputs, outcomes, n));
        assert forall|i: int|
            0 <= i < n implies is_movable(inputs, outcomes, i) && #[trigger] made[i] == (
            inputs[i],
            paths::join(dest_dir, paths::file_name(inputs[i])->0),
        ) by {
            assert(made[i] == plan.moves[i]);
            assert(is_movable(inputs, outcomes, i));
        }
    }
}

/// How a move stands after its first answers.
proof fn answers_are_followed(
    inputs: Seq<Seq<u8>>,
    dest_dir: Seq<u8>,
    outcomes: Seq<Option<Seq<char>>>,
    j: int,
)
    requires
        outcomes.len() == inputs.len() + 1,
        1 <= j <= outcomes.len(),
    ensures
        ({
            let plan = plan_of(inputs, dest_dir);
            let start = MovePhase::CreateDir { plan };
            let phase = move_after(start, answers(outcomes).take(j));
            let n = renames(start, answers(outcomes).take(j)).len() as int;
            if outcomes[0] is Some {
                phase is Failed && n == 0
            } else {
                &&& forall|i: int| 0 <= i < n ==> #[trigger] is_movable(inputs, outcomes, i)
                &&& if n == j - 1 {
                    phase == next_file(plan_behind(plan, n))
                } else {
                    phase is Failed && n < j - 1 && !is_movable(inputs, outcomes, n)
                }
            }
        }),
    decreases j,
{
    let plan = plan_of(inputs, dest_dir);
    let start = MovePhase::CreateDir { plan };
    let news = answers(outcomes).take(j);
    let before = news.drop_last();
    assert(before =~= answers(outcomes).take(j - 1));
    assert(plan.moves.skip(0) =~= plan.moves);
    if j == 1 {
        assert(move_after(start, before) == start);
        assert(renames(start, before).len() == 0);
    } else {
        answers_are_followed(inputs, dest_dir, outcomes, j - 1);
        plans_stop_at_the_first_nameless(inputs, dest_dir);
        failed_moves_stop_there(plan, before);
        let n = renames(start, before).len() as int;
        if outcomes[0] is None && n == j - 2 && n < plan.moves.len() {
            assert(paths::file_name(inputs[n]) is Some);
            assert(plan.moves.skip(n).drop_first() =~= plan.moves.skip(n + 1));
        }
    }
}

/// The targets of a plan are the names of its files in the directory.
proof fn plans_join_names(inputs: Seq<Seq<u8>>, dest_dir: Seq<u8>)
    ensures
        forall|i: int|
            0 <= i < plan_of(inputs, dest_dir).moves.len() ==> i < inputs.len() && #[trigger] plan_of(
                inputs,
                dest_dir,
            ).moves[i] == (inputs[i], paths::join(dest_dir, paths::file_name(inputs[i])->0)),
    decreases inputs.len(),
{
    if inputs.len() > 0 {
        let before = inputs.drop_last();
        plans_join_names(before, dest_dir);
        plans_stop_at_the_first_nameless(before, dest_dir);
        assert forall|i: int| 0 <= i < plan_of(inputs, dest_dir).moves.len() implies i < inputs.len()
            && #[trigger] plan_of(inputs, dest_dir).moves[i] == (
            inputs[i],
            paths::join(dest_dir, paths::file_name(inputs[i])->0),
        ) by {
            if i < plan_of(before, dest_dir).moves.len() {
                assert(plan_of(inputs, dest_dir).moves[i] == plan_of(before, dest_dir).moves[i]);
                assert(inputs[i] == before[i]);
            }
        }
    }
}

/// A move begins with its directory and then takes its files in order: what each answer leads to.
/// The reason of a failure is the one that was given, and the file that failed the one that was
/// next.
pub proof fn answers_lead_a_move_on(
    plan: PlanView,
    done: (Seq<u8>, Seq<u8>),
    file: (Seq<u8>, Seq<u8>),
    after: Seq<(Seq<u8>, Seq<u8>)>,
    dest_dir: Seq<u8>,
    nameless: Option<Seq<u8>>,
    reason: Seq<char>,
)
    ensures
        next_move(MovePhase::CreateDir { plan }, MoveNews::DirNotCreated { reason }) == (
        MovePhase::Failed {
            dest_dir: plan.dest_dir,
            fault: MoveFault::DirNotCreated { dir: plan.dest_dir, reason },
        }),
        next_move(
            MovePhase::CreateDir {
                plan: PlanView { dest_dir, moves: seq![file] + after, nameless },
            },
            MoveNews::DirCreated,
        ) == (MovePhase::Rename { file, rest: PlanView { dest_dir, moves: after, nameless } }),
        next_move(
            MovePhase::CreateDir {
                plan: PlanView { dest_dir, moves: Seq::empty(), nameless: None },
            },
            MoveNews::DirCreated,
        ) == MovePhase::Moved,
        nameless matches Some(path) ==> next_move(
            MovePhase::CreateDir { plan: PlanView { dest_dir, moves: Seq::empty(), nameless } },
            MoveNews::DirCreated,
        ) == (MovePhase::Failed { dest_dir, fault: MoveFault::NamelessInput { path } }),
        next_move(MovePhase::Rename { file, rest: plan }, MoveNews::NotRenamed { reason }) == (
        MovePhase::Failed {
            dest_dir: plan.dest_dir,
            fault: MoveFault::NotRenamed { path: file.0, dest_dir: plan.dest_dir, reason },
        }),
        next_move(
            MovePhase::Rename {
                file: done,
                rest: PlanView { dest_dir, moves: seq![file] + after, nameless },
            },
            MoveNews::Renamed,
        ) == (MovePhase::Rename { file, rest: PlanView { dest_dir, moves: after, nameless } }),
        next_move(
            MovePhase::Rename {
                file,
                rest: PlanView { dest_dir, moves: Seq::empty(), nameless: None },
            },
            MoveNews::Renamed,
        ) == MovePhase::Moved,
        nameless matches Some(path) ==> next_move(
            MovePhase::Rename { file, rest: PlanView { dest_dir, moves: Seq::empty(), nameless } },
            MoveNews::Renamed,
        ) == (MovePhase::Failed { dest_dir, fault: MoveFault::NamelessInput { path } }),
{
    assert((seq![file] + after).drop_first() =~= after);
}

/// News of the directory means nothing to a rename, nor news of a rename to the directory, and
/// nothing means anything to a move that is over.
pub proof fn unasked_news_changes_no_move(
    plan: PlanView,
    file: (Seq<u8>, Seq<u8>),
    dest_dir: Seq<u8>,
    fault: MoveFault,
    news: MoveNews,
)
    ensures
        news is Renamed || news is NotRenamed ==> next_move(MovePhase::CreateDir { plan }, news)
            == (MovePhase::CreateDir { plan }),
        news is DirCreated || news is DirNotCreated ==> next_move(
            MovePhase::Rename { file, rest: plan },
            news,
        ) == (MovePhase::Rename { file, rest: plan }),
        next_move(MovePhase::Moved, news) == MovePhase::Moved,
        next_move(MovePhase::Failed { dest_dir, fault }, news) == (MovePhase::Failed {
            dest_dir,
            fault,
        }),
{
}

/// Plans are made file by file: a file with a name is moved into the directory behind those
/// before it, one without a name ends the plan, and nothing is added to a plan that has ended.
pub proof fn plans_grow_file_by_file(inputs: Seq<Seq<u8>>, input: Seq<u8>, dest_dir: Seq<u8>)
    ensures
        ({
            let before = plan_of(inputs, dest_dir);
            let plan = plan_of(inputs.push(input), dest_dir);
            &&& plan_of(Seq::empty(), dest_dir) == (PlanView {
                dest_dir,
                moves: Seq::empty(),
                nameless: None,
            })
            &&& plan.dest_dir == dest_dir
            &&& before.nameless is Some ==> plan == before
            &&& before.nameless is None ==> match paths::file_name(input) {
                Some(name) => plan.moves == before.moves.push((input, paths::join(dest_dir, name)))
                    && plan.nameless is None,
                None => plan.moves == before.moves && plan.nameless == Some(input),
            }
        }),
{
    assert(inputs.push(input).drop_last() =~= inputs);
    moves_keep_names(inputs.push(input), dest_dir);
}

/// The views of a move hold what they are views of.
pub proof fn move_views_are_faithful(
    file: Move,
    plan: MovePlan,
    state: MoveState,
    event: MoveEvent,
    i: int,
)
    ensures
        file@ == (file.from@, file.to@),
        plan@.dest_dir == plan.dest_dir@,
        plan@.moves.len() == plan.moves@.len(),
        0 <= i < plan.moves@.len() ==> plan@.moves[i] == (plan.moves@[i].from@, plan.moves@[i].to@),
        plan.nameless is None <==> plan@.nameless is None,
        plan.nameless matches Some(path) ==> plan@.nameless == Some(path@),
        match state {
            MoveState::CreateDir { plan } => state@ == (MovePhase::CreateDir { plan: plan@ }),
            MoveState::Rename { file, rest } => state@ == (MovePhase::Rename {
                file: file@,
                rest: rest@,
            }),
            MoveState::Moved => state@ == MovePhase::Moved,
            MoveState::Failed { dest_dir, error } => state@ == (MovePhase::Failed {
                dest_dir: dest_dir@,
                fault: error@,
            }),
        },
        match event {
            MoveEvent::DirCreated => event@ == MoveNews::DirCreated,
            MoveEvent::DirNotCreated { reason } => event@ == (MoveNews::DirNotCreated {
                reason: reason@,
            }),
            MoveEvent::Renamed => event@ == MoveNews::Renamed,
            MoveEvent::NotRenamed { reason } => event@ == (MoveNews::NotRenamed { reason: reason@ }),
        },
{
}

/// A move is over where all files were moved or one failed, and at no other point.
pub proof fn moves_end_in_two_ways(phase: MovePhase)
    ensures
        has_ended(phase) <==> match phase {
            MovePhase::Moved => true,
            MovePhase::Failed { .. } => true,
            _ => false,
        },
{
}

} // verus!
