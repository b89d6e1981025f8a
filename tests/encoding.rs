use code4life::carried_by::CarriedBy;
use code4life::command::Command;
use code4life::connect_options::{decimal_string, ConnectOptions};
use code4life::module::Module;
use code4life::molecules::Molecule;
use code4life::sample::{SampleHealth, SampleRank};
use code4life::token::{parse_int_in, str_eq};

#[test]
fn command_wire_text() {
    assert_eq!(Command::Goto(Module::Sample).to_string(), "GOTO SAMPLES");
    assert_eq!(Command::Goto(Module::Laboratory).to_string(), "GOTO LABORATORY");
    assert_eq!(Command::Connect(ConnectOptions::SampleRank(SampleRank::SomeHealth)).to_string(), "CONNECT 2");
    assert_eq!(Command::Connect(ConnectOptions::MoleculeType(Molecule::D)).to_string(), "CONNECT D");
    assert_eq!(Command::Connect(ConnectOptions::SampleId(123)).to_string(), "CONNECT 123");
    assert_eq!(Command::Wait.to_string(), "WAIT");
}

#[test]
fn connect_option_text() {
    assert_eq!(ConnectOptions::SampleId(0).to_string(), "0");
    assert_eq!(ConnectOptions::SampleId(42).to_string(), "42");
    assert_eq!(ConnectOptions::SampleRank(SampleRank::LotsOfHealth).to_string(), "3");
    assert_eq!(ConnectOptions::SampleRank(SampleRank::LittleHealth).to_string(), "1");
    assert_eq!(ConnectOptions::MoleculeType(Molecule::A).to_string(), "A");
}

#[test]
fn decimal_text_of_bytes() {
    for n in [0u8, 7, 10, 99, 100, 205, 255].iter() {
        assert_eq!(decimal_string(*n), n.to_string());
    }
}

#[test]
fn zone_names_round_trip() {
    for m in [Module::Sample, Module::Diagnosis, Module::Molecule, Module::Laboratory, Module::Spawn].iter() {
        assert_eq!(Module::from_str(m.as_str()), Ok(*m));
    }
    assert_eq!(Module::Spawn.as_str(), "START_POS");
    assert!(Module::from_str("samples").is_err());
    assert!(Module::from_str("").is_err());
    assert!(Module::from_str("SAMPLESX").is_err());
}

#[test]
fn holder_from_integer() {
    assert_eq!(CarriedBy::from_integer(0), Some(CarriedBy::Me));
    assert_eq!(CarriedBy::from_integer(1), Some(CarriedBy::Other));
    assert_eq!(CarriedBy::from_integer(-1), Some(CarriedBy::Cloud));
    assert_eq!(CarriedBy::from_integer(2), None);
}

#[test]
fn rank_and_health_from_integer() {
    assert_eq!(SampleRank::from_integer(1), Some(SampleRank::LittleHealth));
    assert_eq!(SampleRank::from_integer(3), Some(SampleRank::LotsOfHealth));
    assert_eq!(SampleRank::from_integer(0), None);
    assert_eq!(SampleRank::from_integer(4), None);
    assert_eq!(SampleRank::SomeHealth.as_value(), 2);
    assert_eq!(SampleHealth::from_integer(-1), SampleHealth::Unresearched);
    assert_eq!(SampleHealth::from_integer(0), SampleHealth::Researched(0));
    assert_eq!(SampleHealth::from_integer(30), SampleHealth::Researched(30));
}

#[test]
fn integer_tokens() {
    assert_eq!(parse_int_in("42", 0, 255), Some(42));
    assert_eq!(parse_int_in("-7", -128, 127), Some(-7));
    assert_eq!(parse_int_in("+7", -128, 127), Some(7));
    assert_eq!(parse_int_in("007", -128, 127), Some(7));
    assert_eq!(parse_int_in("256", 0, 255), None);
    assert_eq!(parse_int_in("-129", -128, 127), None);
    assert_eq!(parse_int_in("99999999999999", 0, 255), None);
    assert_eq!(parse_int_in("", 0, 255), None);
    assert_eq!(parse_int_in("-", -1, 1), None);
    assert_eq!(parse_int_in("1a", 0, 255), None);
    assert_eq!(parse_int_in("a1", 0, 255), None);
}

#[test]
fn string_equality() {
    assert!(str_eq("MOLECULES", "MOLECULES"));
    assert!(!str_eq("MOLECULES", "MOLECULE"));
    assert!(!str_eq("ABC", "ABD"));
    assert!(str_eq("", ""));
}
