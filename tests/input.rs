use code4life::carried_by::CarriedBy;
use code4life::command::Command;
use code4life::input_reading::parse_sample_line;
use code4life::memory::{GameGoals, Memory, TurnInputError};
use code4life::module::Module;
use code4life::molecules::Molecules;
use code4life::robot::Robot;
use code4life::sample::{SampleHealth, SampleRank};

fn tokens(line: &str) -> Vec<&str> {
    line.split_whitespace().collect()
}

#[test]
fn robot_line() {
    let r = Robot::new_from_inputs(tokens("MOLECULES 0 12 1 2 0 0 3 0 1 0 0 2")).unwrap();
    assert_eq!(*r.get_location(), Module::Molecule);
    assert_eq!(r.get_eta(), 0);
    assert_eq!(*r.get_inventory(), Molecules { a: 1, b: 2, c: 0, d: 0, e: 3 });
    assert_eq!(*r.get_expertise(), Molecules { a: 0, b: 1, c: 0, d: 0, e: 2 });
    assert!(r.get_held_samples().is_empty());
    assert!(Robot::new_from_inputs(tokens("MOLECULES 0 12 1 2 0 0 3 0 1 0 0")).is_none());
    assert!(Robot::new_from_inputs(tokens("NOWHERE 0 12 1 2 0 0 3 0 1 0 0 2")).is_none());
    assert!(Robot::new_from_inputs(tokens("MOLECULES 300 12 1 2 0 0 3 0 1 0 0 2")).is_none());
}

#[test]
fn sample_line() {
    let line = tokens("5 0 2 C 10 1 0 3 0 2");
    let (holder, s) = parse_sample_line(&line).unwrap();
    assert_eq!(holder, CarriedBy::Me);
    assert_eq!(s.get_id(), 5);
    assert_eq!(s.get_rank(), SampleRank::SomeHealth);
    assert_eq!(*s.get_health(), SampleHealth::Researched(10));
    assert_eq!(*s.get_cost(), Molecules { a: 1, b: 0, c: 3, d: 0, e: 2 });
    assert_eq!(*s.get_expertise_gain(), Molecules { a: 0, b: 0, c: 1, d: 0, e: 0 });

    let (holder, s) = parse_sample_line(&tokens("9 -1 1 0 -1 -1 -1 -1 -1 -1")).unwrap();
    assert_eq!(holder, CarriedBy::Cloud);
    assert_eq!(*s.get_health(), SampleHealth::Unresearched);
    assert_eq!(*s.get_expertise_gain(), Molecules::new());

    assert!(parse_sample_line(&tokens("5 2 2 C 10 1 0 3 0 2")).is_none());
    assert!(parse_sample_line(&tokens("5 0 4 C 10 1 0 3 0 2")).is_none());
    assert!(parse_sample_line(&tokens("5 0 2 C 10 1 0 3 0")).is_none());
}

fn turn(lines: &[&'static str]) -> Vec<Vec<&'static str>> {
    lines.iter().map(|l| l.split_whitespace().collect()).collect()
}

#[test]
fn whole_turn() {
    let mut m = Memory::new();
    let samples = turn(&["1 0 1 A 10 2 0 0 0 0", "2 1 1 B -1 -1 -1 -1 -1 -1", "3 -1 2 E 20 0 0 4 0 0", "4 0 1 D -1 -1 -1 -1 -1 -1"]);
    let r = m.parse_turn_input(
        tokens("SAMPLES 0 0 0 0 0 0 0 0 0 0 0 0"),
        tokens("DIAGNOSIS 3 5 0 0 0 0 0 0 0 0 0 0"),
        tokens("5 5 5 5 5"),
        samples,
    );
    assert_eq!(r, Ok(()));
    let me = m.get_my_robot();
    let ids: Vec<u8> = me.get_held_samples().iter().map(|s| s.get_id()).collect();
    assert_eq!(ids, vec![1, 4]);
    assert_eq!(*me.get_location(), Module::Sample);
    assert_eq!(m.goal(), GameGoals::TakeSamples);
    assert_eq!(m.process_turn(), Command::Connect(code4life::connect_options::ConnectOptions::SampleRank(SampleRank::LittleHealth)));
}

#[test]
fn turn_input_errors() {
    let ok_robot = "SAMPLES 0 0 0 0 0 0 0 0 0 0 0 0";
    let mut m = Memory::new();
    assert_eq!(m.parse_turn_input(tokens("SAMPLES 0"), tokens(ok_robot), tokens("5 5 5 5 5"), vec![]), Err(TurnInputError::MyRobot));
    assert_eq!(m.parse_turn_input(tokens(ok_robot), tokens("X 0 0 0 0 0 0 0 0 0 0 0 0"), tokens("5 5 5 5 5"), vec![]), Err(TurnInputError::EnemyRobot));
    assert_eq!(m.parse_turn_input(tokens(ok_robot), tokens(ok_robot), tokens("5 5 5 5"), vec![]), Err(TurnInputError::Available));
    let bad = turn(&["1 0 1 A 10 2 0 0 0 0", "2 0 1 A 10 2 0 0", "3 0 1 A 10 2 0 0 0 0"]);
    assert_eq!(m.parse_turn_input(tokens(ok_robot), tokens(ok_robot), tokens("5 5 5 5 5"), bad), Err(TurnInputError::SampleLine(1)));
    let four = turn(&["1 0 1 A 10 2 0 0 0 0", "2 0 1 A 10 2 0 0 0 0", "3 0 1 A 10 2 0 0 0 0", "4 0 1 A 10 2 0 0 0 0"]);
    assert_eq!(m.parse_turn_input(tokens(ok_robot), tokens(ok_robot), tokens("5 5 5 5 5"), four), Err(TurnInputError::TooManySamples));
    // Nothing was taken from the refused input.
    assert!(m.get_my_robot().get_held_samples().is_empty());
}
