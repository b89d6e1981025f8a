use code4life::command::Command;
use code4life::connect_options::ConnectOptions;
use code4life::memory::{GameGoals, Memory};
use code4life::module::Module;
use code4life::molecules::{Molecule, Molecules};
use code4life::robot::Robot;
use code4life::sample::{Sample, SampleHealth, SampleRank};

fn mol(a: i32, b: i32, c: i32, d: i32, e: i32) -> Molecules {
    Molecules { a, b, c, d, e }
}

fn researched(id: u8, health: u8, cost: Molecules) -> Sample {
    Sample::new(id, SampleRank::LittleHealth, SampleHealth::Researched(health), cost, mol(1, 0, 0, 0, 0))
}

fn unresearched(id: u8) -> Sample {
    Sample::new(id, SampleRank::LittleHealth, SampleHealth::Unresearched, mol(-1, -1, -1, -1, -1), mol(0, 0, 0, 0, 0))
}

fn robot(location: Module, eta: u8, inventory: Molecules, expertise: Molecules, held: Vec<Sample>) -> Robot {
    let mut r = Robot::from_state(location, eta, 0, inventory, expertise);
    for s in held {
        r.append_sample(s);
    }
    r
}

fn memory(goal: GameGoals, me: Robot, available: Molecules) -> Memory {
    let mut m = Memory::new();
    m.set_turn_input(me, Robot::new(), Vec::new(), available);
    m.set_goal(goal);
    m
}

#[test]
fn take_samples_goes_to_sample_zone() {
    let me = robot(Module::Spawn, 0, Molecules::new(), Molecules::new(), vec![unresearched(1)]);
    let mut m = memory(GameGoals::TakeSamples, me, mol(5, 5, 5, 5, 5));
    assert_eq!(m.process_turn(), Command::Goto(Module::Sample));
    assert_eq!(m.goal(), GameGoals::TakeSamples);
}

#[test]
fn take_samples_with_three_held_switches_to_research() {
    let held = vec![unresearched(1), unresearched(2), unresearched(3)];
    let me = robot(Module::Sample, 0, Molecules::new(), Molecules::new(), held);
    let mut m = memory(GameGoals::TakeSamples, me, mol(5, 5, 5, 5, 5));
    assert_eq!(m.process_turn(), Command::Goto(Module::Diagnosis));
    assert_eq!(m.goal(), GameGoals::ResearchSamples);
}

#[test]
fn take_samples_asks_rank_by_expertise() {
    let cases = [(mol(0, 1, 0, 1, 0), SampleRank::LittleHealth), (mol(1, 1, 1, 0, 0), SampleRank::SomeHealth), (mol(2, 2, 2, 2, 0), SampleRank::SomeHealth), (mol(2, 2, 2, 2, 1), SampleRank::LotsOfHealth)];
    for (expertise, rank) in cases.iter() {
        let me = robot(Module::Sample, 0, Molecules::new(), *expertise, vec![]);
        let mut m = memory(GameGoals::TakeSamples, me, mol(5, 5, 5, 5, 5));
        assert_eq!(m.process_turn(), Command::Connect(ConnectOptions::SampleRank(*rank)));
    }
}

#[test]
fn research_connects_first_unresearched_in_held_order() {
    let held = vec![researched(7, 10, mol(1, 0, 0, 0, 0)), unresearched(8), unresearched(9)];
    let me = robot(Module::Diagnosis, 0, Molecules::new(), Molecules::new(), held);
    let mut m = memory(GameGoals::ResearchSamples, me, mol(5, 5, 5, 5, 5));
    assert_eq!(m.process_turn(), Command::Connect(ConnectOptions::SampleId(8)));
}

#[test]
fn fetch_then_produce_scenario() {
    let sample = researched(4, 10, mol(2, 0, 0, 0, 0));
    let me = robot(Module::Molecule, 0, mol(1, 0, 0, 0, 0), Molecules::new(), vec![sample]);
    assert_eq!(me.pick_best_molecule(&mol(5, 5, 5, 5, 5)), Some(Molecule::A));
    let mut m = memory(GameGoals::GatherMolecules, me, mol(5, 5, 5, 5, 5));
    assert_eq!(m.process_turn(), Command::Connect(ConnectOptions::MoleculeType(Molecule::A)));
    assert_eq!(m.goal(), GameGoals::GatherMolecules);

    // After the fetch the inventory holds two A.
    let me = robot(Module::Molecule, 0, mol(2, 0, 0, 0, 0), Molecules::new(), vec![sample]);
    assert_eq!(me.get_most_interesting_ready_sample(), Some(&sample));
    assert!(me.has_enough_molecules());
    m.set_turn_input(me, Robot::new(), Vec::new(), mol(4, 5, 5, 5, 5));
    assert_eq!(m.process_turn(), Command::Goto(Module::Laboratory));
    assert_eq!(m.goal(), GameGoals::ProduceMedicine);
}

#[test]
fn full_inventory_produces_the_completable_sample() {
    let stuck = researched(1, 50, mol(0, 0, 0, 5, 0));
    let ready = researched(2, 10, mol(2, 0, 0, 0, 0));
    let me = robot(Module::Molecule, 0, mol(4, 3, 3, 0, 0), Molecules::new(), vec![stuck, ready]);
    assert!(me.has_maximum_molecules());
    let mut m = memory(GameGoals::GatherMolecules, me, mol(5, 5, 5, 5, 5));
    assert_eq!(m.process_turn(), Command::Goto(Module::Laboratory));
    assert_eq!(m.goal(), GameGoals::ProduceMedicine);

    let me = robot(Module::Laboratory, 0, mol(4, 3, 3, 0, 0), Molecules::new(), vec![stuck, ready]);
    m.set_turn_input(me, Robot::new(), Vec::new(), mol(5, 5, 5, 5, 5));
    assert_eq!(m.process_turn(), Command::Connect(ConnectOptions::SampleId(2)));
}

#[test]
fn in_transit_always_waits() {
    let goals = [GameGoals::TakeSamples, GameGoals::ResearchSamples, GameGoals::GatherMolecules, GameGoals::ProduceMedicine, GameGoals::DropSamples];
    for goal in goals.iter() {
        let held = vec![unresearched(1), researched(2, 20, mol(1, 1, 0, 0, 0))];
        let me = robot(Module::Diagnosis, 2, mol(1, 0, 0, 0, 0), Molecules::new(), held);
        let mut m = memory(*goal, me, mol(5, 5, 5, 5, 5));
        assert_eq!(m.process_turn(), Command::Wait);
        assert_eq!(m.goal(), *goal);
    }
}

#[test]
fn gather_without_producible_sample_and_max_samples_discards() {
    let held = vec![
        researched(1, 10, mol(9, 0, 0, 0, 0)),
        researched(2, 10, mol(0, 9, 0, 0, 0)),
        researched(3, 10, mol(0, 0, 0, 0, 9)),
    ];
    let me = robot(Module::Molecule, 0, Molecules::new(), Molecules::new(), held);
    let mut m = memory(GameGoals::GatherMolecules, me, mol(5, 5, 5, 5, 5));
    assert_eq!(m.process_turn(), Command::Goto(Module::Diagnosis));
    assert_eq!(m.goal(), GameGoals::DropSamples);
}

#[test]
fn discard_connects_first_impossible_sample() {
    let held = vec![
        researched(1, 10, mol(1, 0, 0, 0, 0)),
        researched(2, 10, mol(0, 9, 0, 0, 0)),
        researched(3, 10, mol(0, 0, 0, 0, 9)),
    ];
    let me = robot(Module::Diagnosis, 0, Molecules::new(), Molecules::new(), held);
    let mut m = memory(GameGoals::DropSamples, me, mol(5, 5, 5, 5, 5));
    assert_eq!(m.process_turn(), Command::Connect(ConnectOptions::SampleId(2)));
}

#[test]
fn discard_with_nothing_to_discard_goes_gathering() {
    let held = vec![researched(1, 10, mol(1, 0, 0, 0, 0)), researched(2, 10, mol(0, 2, 0, 0, 0))];
    let me = robot(Module::Diagnosis, 0, Molecules::new(), Molecules::new(), held);
    let mut m = memory(GameGoals::DropSamples, me, mol(5, 5, 5, 5, 5));
    assert_eq!(m.process_turn(), Command::Goto(Module::Molecule));
    assert_eq!(m.goal(), GameGoals::GatherMolecules);
}

#[test]
fn producible_sample_is_never_discarded() {
    let producible = researched(1, 10, mol(2, 0, 0, 0, 0));
    let too_big = researched(2, 10, mol(0, 6, 6, 0, 0));
    let short_pool = researched(3, 10, mol(0, 0, 0, 4, 0));
    let me = robot(Module::Diagnosis, 0, mol(1, 0, 0, 0, 0), Molecules::new(), vec![producible, too_big, short_pool]);
    let available = mol(5, 5, 5, 3, 5);
    assert!(me.can_produce_sample(&producible, &available));
    let impossible = me.get_impossible_samples(&available);
    assert_eq!(impossible, vec![&too_big, &short_pool]);
    let discard = me.get_discardable_samples(&available, &Vec::new());
    assert_eq!(discard, vec![&too_big, &short_pool]);
}

#[test]
fn project_irrelevant_sample_is_discarded() {
    // The projects still need three A; a sample whose gain the unmet
    // requirement absorbs whole is irrelevant.
    let gains_a = Sample::new(1, SampleRank::LittleHealth, SampleHealth::Researched(10), mol(1, 0, 0, 0, 0), mol(1, 0, 0, 0, 0));
    let gains_b = Sample::new(2, SampleRank::LittleHealth, SampleHealth::Researched(10), mol(1, 0, 0, 0, 0), mol(0, 1, 0, 0, 0));
    let me = robot(Module::Diagnosis, 0, Molecules::new(), Molecules::new(), vec![gains_a, gains_b]);
    let projects = vec![mol(3, 0, 0, 0, 0), mol(-2, 0, 0, 0, 0)];
    assert!(me.is_irrelevant_to_projects(&gains_a, &projects));
    assert!(!me.is_irrelevant_to_projects(&gains_b, &projects));
    assert!(!me.is_irrelevant_to_projects(&gains_a, &Vec::new()));
    assert_eq!(me.get_discardable_samples(&mol(5, 5, 5, 5, 5), &projects), vec![&gains_a]);

    let mut m = memory(GameGoals::DropSamples, me, mol(5, 5, 5, 5, 5));
    m.set_projects(projects);
    assert_eq!(m.process_turn(), Command::Connect(ConnectOptions::SampleId(1)));
}

#[test]
fn produce_without_ready_sample_and_no_samples_takes_samples() {
    let me = robot(Module::Laboratory, 0, Molecules::new(), Molecules::new(), vec![]);
    let mut m = memory(GameGoals::ProduceMedicine, me, mol(5, 5, 5, 5, 5));
    assert_eq!(m.process_turn(), Command::Goto(Module::Sample));
    assert_eq!(m.goal(), GameGoals::TakeSamples);
}

#[test]
fn endless_switching_ends_in_wait() {
    // An unresearched sample counts as completable but is never produced:
    // gathering and producing hand the turn to each other.
    let me = robot(Module::Molecule, 0, mol(1, 0, 0, 0, 0), Molecules::new(), vec![unresearched(5), researched(6, 3, mol(0, 0, 0, 0, 9))]);
    let mut m = memory(GameGoals::GatherMolecules, me, mol(0, 0, 0, 0, 0));
    assert_eq!(m.process_turn(), Command::Wait);
}
