//! The goal state machine: the one piece of state kept across turns, and
//! the decision it makes from each turn's snapshot.
use vstd::prelude::*;
use crate::carried_by::CarriedBy;
use crate::command::Command;
use crate::input_reading::{
    lemma_samples_of_prefix, line_carrier, line_sample, parse_sample_line, sample_line_ok,
    samples_of,
};
use crate::connect_options::ConnectOptions;
use crate::module::{zone_of_name, Module};
use crate::token::int_in;
use crate::molecules::{token_counts, Counts, Molecules};
use crate::robot::{
    by_priority, can_eventually_afford, completes_all, first_ready, first_unresearched,
    derefs, is_discardable, next_molecule, rank_for_expertise, robot_tokens_ok, Robot, MAX_MOLECULES, MAX_SAMPLES,
};
use crate::sample::Sample;

verus! {

/// The robot's coarse intent.
#[derive(Clone, Copy, Debug, PartialEq, Eq, Structural)]
pub enum GameGoals {
    TakeSamples,
    ResearchSamples,
    GatherMolecules,
    ProduceMedicine,
    DropSamples,
}

/// What a goal makes of a snapshot: a command to emit, or another goal to
/// take up and decide with in the same turn.
#[derive(Clone, Copy, Debug, PartialEq, Eq, Structural)]
pub enum Step {
    Emit(Command),
    Switch(GameGoals),
}

/// Why a turn's input was refused.
#[derive(Clone, Copy, Debug, PartialEq, Eq, Structural)]
pub enum TurnInputError {
    /// The line of this robot is malformed.
    MyRobot,
    /// The line of the opponent's robot is malformed.
    EnemyRobot,
    /// The line of molecules in the shared pool is malformed.
    Available,
    /// The sample line with this index is the first malformed one.
    SampleLine(usize),
    /// A robot would hold more samples than it can.
    TooManySamples,
}

/// The tokens of each line.
pub open spec fn line_views(lines: Seq<Vec<&str>>) -> Seq<Seq<&str>> {
    lines.map_values(|l: Vec<&str>| l@)
}

/// The index of the first malformed sample line, if any.
pub open spec fn first_bad_line(lines: Seq<Seq<&str>>) -> Option<int>
    decreases lines.len(),
{
    if lines.len() == 0 {
        None
    } else {
        match first_bad_line(lines.drop_last()) {
            Some(i) => Some(i),
            None => if sample_line_ok(lines.last()) {
                None
            } else {
                Some(lines.len() - 1)
            },
        }
    }
}

/// The outcome of reading a turn's input: the first of the lines, in input
/// order, that is malformed, else whether either robot holds too many
/// samples.
pub open spec fn turn_input_check(
    mine: Seq<&str>,
    enemy: Seq<&str>,
    available: Seq<&str>,
    lines: Seq<Seq<&str>>,
) -> Result<(), TurnInputError> {
    if !robot_tokens_ok(mine) {
        Err(TurnInputError::MyRobot)
    } else if !robot_tokens_ok(enemy) {
        Err(TurnInputError::EnemyRobot)
    } else if token_counts(available) is None {
        Err(TurnInputError::Available)
    } else if first_bad_line(lines) is Some {
        Err(TurnInputError::SampleLine(first_bad_line(lines)->0 as usize))
    } else if samples_of(lines, CarriedBy::Me).len() > MAX_SAMPLES || samples_of(
        lines,
        CarriedBy::Other,
    ).len() > MAX_SAMPLES {
        Err(TurnInputError::TooManySamples)
    } else {
        Ok(())
    }
}

proof fn lemma_first_bad_line_prefix(lines: Seq<Seq<&str>>, i: int)
    requires
        0 <= i <= lines.len(),
        first_bad_line(lines.subrange(0, i)) is Some,
    ensures
        first_bad_line(lines) == first_bad_line(lines.subrange(0, i)),
    decreases lines.len() - i,
{
    if i < lines.len() {
        let next = lines.subrange(0, i + 1);
        assert(next.drop_last() =~= lines.subrange(0, i));
        lemma_first_bad_line_prefix(lines, i + 1);
    } else {
        assert(lines.subrange(0, i) =~= lines);
    }
}

proof fn lemma_first_bad_line_bounds(lines: Seq<Seq<&str>>)
    ensures
        first_bad_line(lines) matches Some(i) ==> 0 <= i < lines.len(),
    decreases lines.len(),
{
    if lines.len() > 0 {
        lemma_first_bad_line_bounds(lines.drop_last());
    }
}

/// The number of goals, and so the most goals one turn can pass through.
pub const GOAL_COUNT: usize = 5;

/// The held samples to discard, in held order.
pub open spec fn discard_candidates(robot: Robot, available: Counts, projects: Seq<Molecules>) -> Seq<
    Sample,
> {
    robot.held().filter(
        |s: Sample| is_discardable(s, robot.inventory(), robot.expertise(), available, projects),
    )
}

/// One evaluation of `goal` on a snapshot.
pub open spec fn step(
    goal: GameGoals,
    robot: Robot,
    available: Counts,
    projects: Seq<Molecules>,
) -> Step {
    let held = robot.held();
    let order = by_priority(held);
    match goal {
        GameGoals::TakeSamples => {
            if held.len() >= MAX_SAMPLES {
                Step::Switch(GameGoals::ResearchSamples)
            } else if robot.location() != Module::Sample {
                Step::Emit(Command::Goto(Module::Sample))
            } else {
                Step::Emit(
                    Command::Connect(
                        ConnectOptions::SampleRank(rank_for_expertise(robot.expertise().total())),
                    ),
                )
            }
        },
        GameGoals::ResearchSamples => {
            match first_unresearched(held) {
                Some(s) => if robot.location() != Module::Diagnosis {
                    Step::Emit(Command::Goto(Module::Diagnosis))
                } else {
                    Step::Emit(Command::Connect(ConnectOptions::SampleId(s.spec_id())))
                },
                None => Step::Switch(GameGoals::DropSamples),
            }
        },
        GameGoals::GatherMolecules => {
            if !(exists|i: int|
                0 <= i < held.len() && can_eventually_afford(
                    #[trigger] held[i],
                    robot.inventory(),
                    robot.expertise(),
                    available,
                )) {
                if held.len() >= MAX_SAMPLES {
                    Step::Switch(GameGoals::DropSamples)
                } else {
                    Step::Switch(GameGoals::TakeSamples)
                }
            } else if robot.inventory().total() == MAX_MOLECULES as int || completes_all(
                order,
                robot.inventory(),
                robot.expertise(),
            ) {
                Step::Switch(GameGoals::ProduceMedicine)
            } else if robot.location() != Module::Molecule {
                Step::Emit(Command::Goto(Module::Molecule))
            } else {
                match next_molecule(
                    order,
                    robot.inventory(),
                    robot.expertise(),
                    robot.inventory().total(),
                    available,
                ) {
                    Some(k) => Step::Emit(Command::Connect(ConnectOptions::MoleculeType(k))),
                    None => Step::Switch(GameGoals::ProduceMedicine),
                }
            }
        },
        GameGoals::ProduceMedicine => {
            match first_ready(order, robot.inventory(), robot.expertise()) {
                Some(s) => if robot.location() != Module::Laboratory {
                    Step::Emit(Command::Goto(Module::Laboratory))
                } else {
                    Step::Emit(Command::Connect(ConnectOptions::SampleId(s.spec_id())))
                },
                None => if held.len() > 0 {
                    Step::Switch(GameGoals::GatherMolecules)
                } else {
                    Step::Switch(GameGoals::TakeSamples)
                },
            }
        },
        GameGoals::DropSamples => {
            let candidates = discard_candidates(robot, available, projects);
            if candidates.len() == 0 {
                if held.len() >= 2 {
                    Step::Switch(GameGoals::GatherMolecules)
                } else {
                    Step::Switch(GameGoals::TakeSamples)
                }
            } else if robot.location() != Module::Diagnosis {
                Step::Emit(Command::Goto(Module::Diagnosis))
            } else {
                Step::Emit(Command::Connect(ConnectOptions::SampleId(candidates[0].spec_id())))
            }
        },
    }
}

/// Evaluates goals from `goal` on, switching as they ask, for at most `fuel`
/// evaluations; gives the command and the goal it was emitted under. A
/// turn that runs out of evaluations waits.
pub open spec fn decide(
    goal: GameGoals,
    robot: Robot,
    available: Counts,
    projects: Seq<Molecules>,
    fuel: nat,
) -> (Command, GameGoals)
    decreases fuel,
{
    if fuel == 0 {
        (Command::Wait, goal)
    } else {
        match step(goal, robot, available, projects) {
            Step::Emit(c) => (c, goal),
            Step::Switch(g) => decide(g, robot, available, projects, (fuel - 1) as nat),
        }
    }
}

/// The full decision of a turn: wait while in transit, else evaluate goals.
pub open spec fn turn_decision(
    goal: GameGoals,
    robot: Robot,
    available: Counts,
    projects: Seq<Molecules>,
) -> (Command, GameGoals) {
    if robot.eta() > 0 {
        (Command::Wait, goal)
    } else {
        decide(goal, robot, available, projects, GOAL_COUNT as nat)
    }
}

/// The engine: the current goal and the latest snapshot of the world.
#[derive(Debug)]
pub struct Memory {
    goal: GameGoals,
    my_robot: Robot,
    enemy_robot: Robot,
    available: Molecules,
    cloud: Vec<Sample>,
    projects: Vec<Molecules>,
}

impl Memory {
    pub closed spec fn spec_goal(&self) -> GameGoals {
        self.goal
    }

    pub closed spec fn my_robot(&self) -> Robot {
        self.my_robot
    }

    pub closed spec fn enemy_robot(&self) -> Robot {
        self.enemy_robot
    }

    pub closed spec fn available(&self) -> Counts {
        self.available@
    }

    pub closed spec fn cloud(&self) -> Seq<Sample> {
        self.cloud@
    }

    pub closed spec fn projects(&self) -> Seq<Molecules> {
        self.projects@
    }

    /// The snapshot carries values a turn's input can hold.
    pub open spec fn wf(&self) -> bool {
        &&& self.my_robot().wf()
        &&& self.available().in_i8_range()
        &&& forall|i: int|
            0 <= i < self.projects().len() ==> (#[trigger] self.projects()[i])@.in_i8_range()
    }

    /// A fresh engine: taking samples, with an empty snapshot and no projects.
    pub fn new() -> (r: Self)
        ensures
            r.wf(),
            r.spec_goal() == GameGoals::TakeSamples,
            r.my_robot().held().len() == 0,
            r.my_robot().eta() == 0,
            r.available() == Counts::zero(),
            r.projects().len() == 0,
            r.cloud().len() == 0,
    {
        Memory {
            goal: GameGoals::TakeSamples,
            my_robot: Robot::new(),
            enemy_robot: Robot::new(),
            available: Molecules::new(),
            cloud: Vec::new(),
            projects: Vec::new(),
        }
    }

    pub fn goal(&self) -> (r: GameGoals)
        ensures
            r == self.spec_goal(),
    {
        self.goal
    }

    pub fn set_goal(&mut self, goal: GameGoals)
        ensures
            old(self).wf() ==> final(self).wf(),
            final(self).spec_goal() == goal,
            final(self).my_robot() == old(self).my_robot(),
            final(self).enemy_robot() == old(self).enemy_robot(),
            final(self).available() == old(self).available(),
            final(self).cloud() == old(self).cloud(),
            final(self).projects() == old(self).projects(),
    {
        self.goal = goal;
        assert(self.my_robot() == old(self).my_robot());
        assert(self.projects() == old(self).projects());
    }

    pub fn get_my_robot(&self) -> (r: &Robot)
        ensures
            *r == self.my_robot(),
    {
        &self.my_robot
    }

    /// Records the expertise thresholds of the game's projects.
    pub fn set_projects(&mut self, projects: Vec<Molecules>)
        requires
            forall|i: int| 0 <= i < projects@.len() ==> (#[trigger] projects@[i])@.in_i8_range(),
        ensures
            old(self).wf() ==> final(self).wf(),
            final(self).projects() == projects@,
            final(self).spec_goal() == old(self).spec_goal(),
            final(self).my_robot() == old(self).my_robot(),
            final(self).enemy_robot() == old(self).enemy_robot(),
            final(self).available() == old(self).available(),
            final(self).cloud() == old(self).cloud(),
    {
        self.projects = projects;
    }

    /// Replaces the snapshot with this turn's; the goal is kept.
    pub fn set_turn_input(
        &mut self,
        my_robot: Robot,
        enemy_robot: Robot,
        cloud: Vec<Sample>,
        available: Molecules,
    )
        requires
            my_robot.wf(),
            available@.in_i8_range(),
        ensures
            old(self).wf() ==> final(self).wf(),
            final(self).my_robot() == my_robot,
            final(self).enemy_robot() == enemy_robot,
            final(self).cloud() == cloud@,
            final(self).available() == available@,
            final(self).spec_goal() == old(self).spec_goal(),
            final(self).projects() == old(self).projects(),
    {
        self.my_robot = my_robot;
        self.enemy_robot = enemy_robot;
        self.cloud = cloud;
        self.available = available;
        assert(self.my_robot().wf());
        assert(self.available().in_i8_range());
        assert(self.projects() == old(self).projects());
    }
}


impl Memory {
    fn take_samples(&self) -> (r: Step)
        requires
            self.wf(),
        ensures
            r == step(GameGoals::TakeSamples, self.my_robot(), self.available(), self.projects()),
    {
        if self.my_robot.has_maximum_samples() {
            return Step::Switch(GameGoals::ResearchSamples);
        }
        if *self.my_robot.get_location() != Module::Sample {
            return Step::Emit(Command::Goto(Module::Sample));
        }
        let best_sample = self.my_robot.pick_sample_based_on_expertise();
        Step::Emit(Command::Connect(ConnectOptions::SampleRank(best_sample)))
    }

    fn research_samples(&self) -> (r: Step)
        requires
            self.wf(),
        ensures
            r == step(GameGoals::ResearchSamples, self.my_robot(), self.available(), self.projects()),
    {
        match self.my_robot.get_unresearched_sample() {
            Some(sample) => {
                if *self.my_robot.get_location() != Module::Diagnosis {
                    Step::Emit(Command::Goto(Module::Diagnosis))
                } else {
                    Step::Emit(Command::Connect(ConnectOptions::SampleId(sample.get_id())))
                }
            },
            None => Step::Switch(GameGoals::DropSamples),
        }
    }

    fn gather_molecules(&self) -> (r: Step)
        requires
            self.wf(),
        ensures
            r == step(GameGoals::GatherMolecules, self.my_robot(), self.available(), self.projects()),
    {
        if !self.my_robot.can_produce_one_held_sample(&self.available) {
            if self.my_robot.has_maximum_samples() {
                return Step::Switch(GameGoals::DropSamples);
            } else {
                return Step::Switch(GameGoals::TakeSamples);
            }
        }
        if self.my_robot.has_maximum_molecules() || self.my_robot.has_enough_molecules() {
            return Step::Switch(GameGoals::ProduceMedicine);
        }
        if *self.my_robot.get_location() != Module::Molecule {
            return Step::Emit(Command::Goto(Module::Molecule));
        }
        match self.my_robot.pick_best_molecule(&self.available) {
            Some(next_molecule) => Step::Emit(
                Command::Connect(ConnectOptions::MoleculeType(next_molecule)),
            ),
            None => Step::Switch(GameGoals::ProduceMedicine),
        }
    }

    fn produce_medicine(&self) -> (r: Step)
        requires
            self.wf(),
        ensures
            r == step(GameGoals::ProduceMedicine, self.my_robot(), self.available(), self.projects()),
    {
        match self.my_robot.get_most_interesting_ready_sample() {
            Some(sample) => {
                if *self.my_robot.get_location() != Module::Laboratory {
                    Step::Emit(Command::Goto(Module::Laboratory))
                } else {
                    Step::Emit(Command::Connect(ConnectOptions::SampleId(sample.get_id())))
                }
            },
            None => {
                if self.my_robot.get_held_samples().len() > 0 {
                    Step::Switch(GameGoals::GatherMolecules)
                } else {
                    Step::Switch(GameGoals::TakeSamples)
                }
            },
        }
    }

    fn drop_samples(&self) -> (r: Step)
        requires
            self.wf(),
        ensures
            r == step(GameGoals::DropSamples, self.my_robot(), self.available(), self.projects()),
    {
        let samples_to_drop = self.my_robot.get_discardable_samples(
            &self.available,
            &self.projects,
        );
        assert(derefs(samples_to_drop@) == discard_candidates(
            self.my_robot(),
            self.available(),
            self.projects(),
        ));
        if samples_to_drop.len() == 0 {
            if self.my_robot.has_enough_samples() {
                return Step::Switch(GameGoals::GatherMolecules);
            } else {
                return Step::Switch(GameGoals::TakeSamples);
            }
        }
        if *self.my_robot.get_location() != Module::Diagnosis {
            return Step::Emit(Command::Goto(Module::Diagnosis));
        }
        Step::Emit(Command::Connect(ConnectOptions::SampleId(samples_to_drop[0].get_id())))
    }

    fn evaluate_goal(&self) -> (r: Step)
        requires
            self.wf(),
        ensures
            r == step(self.spec_goal(), self.my_robot(), self.available(), self.projects()),
    {
        match self.goal {
            GameGoals::TakeSamples => self.take_samples(),
            GameGoals::ResearchSamples => self.research_samples(),
            GameGoals::GatherMolecules => self.gather_molecules(),
            GameGoals::ProduceMedicine => self.produce_medicine(),
            GameGoals::DropSamples => self.drop_samples(),
        }
    }

    /// Decides this turn's command. While the robot is in transit it waits;
    /// otherwise the current goal is evaluated, and each switch it asks for
    /// is recorded and evaluated in turn, at most as many times as there are
    /// goals.
    pub fn process_turn(&mut self) -> (r: Command)
        requires
            old(self).wf(),
        ensures
            final(self).wf(),
            (r, final(self).spec_goal()) == turn_decision(
                old(self).spec_goal(),
                old(self).my_robot(),
                old(self).available(),
                old(self).projects(),
            ),
            final(self).my_robot() == old(self).my_robot(),
            final(self).enemy_robot() == old(self).enemy_robot(),
            final(self).available() == old(self).available(),
            final(self).cloud() == old(self).cloud(),
            final(self).projects() == old(self).projects(),
    {
        if self.my_robot.get_eta() > 0 {
            return Command::Wait;
        }
        let mut fuel: usize = GOAL_COUNT;
        while fuel > 0
            invariant
                self.wf(),
                old(self).my_robot().eta() == 0,
                fuel <= GOAL_COUNT,
                self.my_robot() == old(self).my_robot(),
                self.enemy_robot() == old(self).enemy_robot(),
                self.available() == old(self).available(),
                self.cloud() == old(self).cloud(),
                self.projects() == old(self).projects(),
                decide(
                    old(self).spec_goal(),
                    old(self).my_robot(),
                    old(self).available(),
                    old(self).projects(),
                    GOAL_COUNT as nat,
                ) == decide(
                    self.spec_goal(),
                    self.my_robot(),
                    self.available(),
                    self.projects(),
                    fuel as nat,
                ),
            decreases fuel,
        {
            match self.evaluate_goal() {
                Step::Emit(command) => {
                    return command;
                },
                Step::Switch(goal) => {
                    self.goal = goal;
                },
            }
            fuel -= 1;
        }
        Command::Wait
    }
}


/// While the robot is in transit the turn's decision is to wait, whatever
/// the goal and the rest of the snapshot, and the goal is kept.
pub proof fn lemma_in_transit_waits(
    goal: GameGoals,
    robot: Robot,
    available: Counts,
    projects: Seq<Molecules>,
)
    requires
        robot.eta() > 0,
    ensures
        turn_decision(goal, robot, available, projects) == (Command::Wait, goal),
{
}

/// Without projects, no sample that can eventually be produced is among the
/// samples to discard.
pub proof fn lemma_no_false_discard(
    robot: Robot,
    available: Counts,
    projects: Seq<Molecules>,
    s: Sample,
)
    requires
        projects.len() == 0,
        can_eventually_afford(s, robot.inventory(), robot.expertise(), available),
    ensures
        !discard_candidates(robot, available, projects).contains(s),
{
    let pred = |x: Sample|
        is_discardable(x, robot.inventory(), robot.expertise(), available, projects);
    broadcast use vstd::seq_lib::group_filter_ensures;

    if discard_candidates(robot, available, projects).contains(s) {
        let i = choose|i: int|
            0 <= i < discard_candidates(robot, available, projects).len()
                && discard_candidates(robot, available, projects)[i] == s;
        assert(pred(discard_candidates(robot, available, projects)[i]));
    }
}


impl Memory {
    /// Reads a turn's input, given as the tokens of each line: this robot,
    /// the opponent's robot, the shared pool, and one line per visible
    /// sample. Each sample goes to its holder in line order. On success the
    /// snapshot is replaced and the goal kept; on failure nothing changes.
    pub fn parse_turn_input(
        &mut self,
        my_tokens: Vec<&str>,
        enemy_tokens: Vec<&str>,
        available_tokens: Vec<&str>,
        sample_lines: Vec<Vec<&str>>,
    ) -> (r: Result<(), TurnInputError>)
        requires
            old(self).wf(),
        ensures
            r == turn_input_check(
                my_tokens@,
                enemy_tokens@,
                available_tokens@,
                line_views(sample_lines@),
            ),
            r is Err ==> *final(self) == *old(self),
            r is Ok ==> {
                let lines = line_views(sample_lines@);
                &&& final(self).wf()
                &&& final(self).spec_goal() == old(self).spec_goal()
                &&& final(self).projects() == old(self).projects()
                &&& final(self).available() == token_counts(available_tokens@)->0@
                &&& Some(final(self).my_robot().location()) == zone_of_name(my_tokens@[0]@)
                &&& int_in(my_tokens@[1]@, u8::MIN as int, u8::MAX as int) == Some(
                    final(self).my_robot().eta() as int,
                )
                &&& final(self).my_robot().inventory() == token_counts(
                    my_tokens@.subrange(3, 8),
                )->0@
                &&& final(self).my_robot().expertise() == token_counts(
                    my_tokens@.subrange(8, 13),
                )->0@
                &&& final(self).my_robot().held() == samples_of(lines, CarriedBy::Me)
                &&& final(self).enemy_robot().held() == samples_of(lines, CarriedBy::Other)
                &&& final(self).cloud() == samples_of(lines, CarriedBy::Cloud)
            },
    {
        let ghost lines = line_views(sample_lines@);
        let ghost mine = my_tokens@;
        let ghost enemy = enemy_tokens@;
        let ghost avail = available_tokens@;
        let mut my_robot = match Robot::new_from_inputs(my_tokens) {
            Some(robot) => robot,
            None => {
                return Err(TurnInputError::MyRobot);
            },
        };
        let mut enemy_robot = match Robot::new_from_inputs(enemy_tokens) {
            Some(robot) => robot,
            None => {
                return Err(TurnInputError::EnemyRobot);
            },
        };
        let available = match Molecules::from_slice(available_tokens.as_slice()) {
            Some(m) => m,
            None => {
                return Err(TurnInputError::Available);
            },
        };
        let n = sample_lines.len();
        let mut parsed: Vec<(CarriedBy, Sample)> = Vec::new();
        let mut i: usize = 0;
        assert(lines.subrange(0, 0) =~= Seq::<Seq<&str>>::empty());
        while i < n
            invariant
                i <= n,
                n == sample_lines@.len() == lines.len(),
                lines == line_views(sample_lines@),
                parsed@.len() == i,
                first_bad_line(lines.subrange(0, i as int)) is None,
                robot_tokens_ok(mine),
                robot_tokens_ok(enemy),
                token_counts(avail) is Some,
                mine == my_tokens@,
                enemy == enemy_tokens@,
                avail == available_tokens@,
                forall|j: int|
                    0 <= j < i ==> (#[trigger] parsed@[j]).0 == line_carrier(lines[j])
                        && parsed@[j].1 == line_sample(lines[j]) && parsed@[j].1.wf(),
            decreases n - i,
        {
            let ghost next = lines.subrange(0, i + 1);
            assert(next.drop_last() =~= lines.subrange(0, i as int));
            assert(next.last() == lines[i as int]);
            assert(sample_lines[i as int]@ == lines[i as int]);
            match parse_sample_line(sample_lines[i].as_slice()) {
                Some(entry) => {
                    parsed.push(entry);
                },
                None => {
                    proof {
                        lemma_first_bad_line_prefix(lines, i + 1);
                    }
                    return Err(TurnInputError::SampleLine(i));
                },
            }
            i += 1;
        }
        assert(lines.subrange(0, n as int) =~= lines);
        let mut cloud: Vec<Sample> = Vec::new();
        let ghost location = my_robot.location();
        let ghost eta = my_robot.eta();
        let ghost inventory = my_robot.inventory();
        let ghost expertise = my_robot.expertise();
        let mut k: usize = 0;
        while k < n
            invariant
                k <= n,
                n == lines.len() == parsed@.len(),
                lines == line_views(sample_lines@),
                first_bad_line(lines) is None,
                robot_tokens_ok(mine),
                robot_tokens_ok(enemy),
                token_counts(avail) is Some,
                mine == my_tokens@,
                enemy == enemy_tokens@,
                avail == available_tokens@,
                forall|j: int|
                    0 <= j < n ==> (#[trigger] parsed@[j]).0 == line_carrier(lines[j])
                        && parsed@[j].1 == line_sample(lines[j]) && parsed@[j].1.wf(),
                my_robot.wf(),
                enemy_robot.wf(),
                my_robot.location() == location,
                my_robot.eta() == eta,
                my_robot.inventory() == inventory,
                my_robot.expertise() == expertise,
                my_robot.held() == samples_of(lines.subrange(0, k as int), CarriedBy::Me),
                enemy_robot.held() == samples_of(lines.subrange(0, k as int), CarriedBy::Other),
                cloud@ == samples_of(lines.subrange(0, k as int), CarriedBy::Cloud),
            decreases n - k,
        {
            let ghost next = lines.subrange(0, k + 1);
            assert(next.drop_last() =~= lines.subrange(0, k as int));
            assert(next.last() == lines[k as int]);
            let (carried_by, sample) = parsed[k];
            match carried_by {
                CarriedBy::Me => {
                    if my_robot.has_maximum_samples() {
                        proof {
                            assert(samples_of(next, CarriedBy::Me).len() > MAX_SAMPLES);
                            lemma_samples_of_prefix(lines, k + 1, CarriedBy::Me);
                        }
                        return Err(TurnInputError::TooManySamples);
                    }
                    my_robot.append_sample(sample);
                },
                CarriedBy::Other => {
                    if enemy_robot.has_maximum_samples() {
                        proof {
                            assert(samples_of(next, CarriedBy::Other).len() > MAX_SAMPLES);
                            lemma_samples_of_prefix(lines, k + 1, CarriedBy::Other);
                        }
                        return Err(TurnInputError::TooManySamples);
                    }
                    enemy_robot.append_sample(sample);
                },
                CarriedBy::Cloud => {
                    cloud.push(sample);
                },
            }
            k += 1;
        }
        assert(lines.subrange(0, n as int) =~= lines);
        self.my_robot = my_robot;
        self.enemy_robot = enemy_robot;
        self.cloud = cloud;
        self.available = available;
        assert(self.projects() == old(self).projects());
        Ok(())
    }
}

} // verus!
