use code4life::module::Module;
use code4life::molecules::{Molecule, Molecules};
use code4life::robot::Robot;
use code4life::sample::{Sample, SampleHealth, SampleRank};

fn mol(a: i32, b: i32, c: i32, d: i32, e: i32) -> Molecules {
    Molecules { a, b, c, d, e }
}

fn sample(id: u8, health: SampleHealth, cost: Molecules, gain: Molecules) -> Sample {
    Sample::new(id, SampleRank::LittleHealth, health, cost, gain)
}

fn robot(inventory: Molecules, expertise: Molecules, held: Vec<Sample>) -> Robot {
    let mut r = Robot::from_state(Module::Molecule, 0, 0, inventory, expertise);
    for s in held {
        r.append_sample(s);
    }
    r
}

#[test]
fn sorted_by_descending_health_and_stable() {
    let held = vec![
        sample(1, SampleHealth::Unresearched, mol(0, 0, 0, 0, 0), mol(0, 0, 0, 0, 0)),
        sample(2, SampleHealth::Researched(10), mol(0, 0, 0, 0, 0), mol(0, 0, 0, 0, 0)),
        sample(3, SampleHealth::Researched(0), mol(0, 0, 0, 0, 0), mol(0, 0, 0, 0, 0)),
    ];
    let r = robot(Molecules::new(), Molecules::new(), held);
    let ids: Vec<u8> = r.get_sorted_samples().iter().map(|s| s.get_id()).collect();
    assert_eq!(ids, vec![2, 1, 3]);

    let held = vec![
        sample(4, SampleHealth::Researched(20), mol(0, 0, 0, 0, 0), mol(0, 0, 0, 0, 0)),
        sample(5, SampleHealth::Researched(30), mol(0, 0, 0, 0, 0), mol(0, 0, 0, 0, 0)),
        sample(6, SampleHealth::Researched(20), mol(0, 0, 0, 0, 0), mol(0, 0, 0, 0, 0)),
    ];
    let r = robot(Molecules::new(), Molecules::new(), held);
    let ids: Vec<u8> = r.get_sorted_samples().iter().map(|s| s.get_id()).collect();
    assert_eq!(ids, vec![5, 4, 6]);
}

#[test]
fn unaffordable_high_priority_sample_is_skipped() {
    // The valuable sample needs more D than the pool has; the next one gets
    // its first missing kind.
    let held = vec![
        sample(1, SampleHealth::Researched(40), mol(0, 0, 0, 6, 0), mol(0, 0, 0, 0, 0)),
        sample(2, SampleHealth::Researched(10), mol(0, 1, 2, 0, 0), mol(0, 0, 0, 0, 0)),
    ];
    let r = robot(Molecules::new(), Molecules::new(), held);
    assert_eq!(r.pick_best_molecule(&mol(5, 5, 5, 5, 5)), Some(Molecule::B));
    assert_eq!(r.pick_best_molecule(&mol(5, 5, 5, 6, 5)), Some(Molecule::D));
}

#[test]
fn reserved_molecules_are_not_counted_twice() {
    // Both samples need two A; the inventory covers only the first.
    let held = vec![
        sample(1, SampleHealth::Researched(20), mol(2, 0, 0, 0, 0), mol(0, 0, 0, 0, 0)),
        sample(2, SampleHealth::Researched(10), mol(2, 0, 0, 0, 0), mol(0, 0, 0, 0, 0)),
    ];
    let r = robot(mol(2, 0, 0, 0, 0), Molecules::new(), held);
    assert!(!r.has_enough_molecules());
    assert_eq!(r.pick_best_molecule(&mol(5, 5, 5, 5, 5)), Some(Molecule::A));

    let held = vec![
        sample(1, SampleHealth::Researched(20), mol(2, 0, 0, 0, 0), mol(0, 0, 0, 0, 0)),
        sample(2, SampleHealth::Researched(10), mol(2, 0, 0, 0, 0), mol(0, 0, 0, 0, 0)),
    ];
    let r = robot(mol(4, 0, 0, 0, 0), Molecules::new(), held);
    assert!(r.has_enough_molecules());
    assert_eq!(r.pick_best_molecule(&mol(5, 5, 5, 5, 5)), None);
}

#[test]
fn gain_of_a_completed_sample_discounts_the_next() {
    // The first sample completes and teaches one B, which covers the
    // second sample's B.
    let held = vec![
        sample(1, SampleHealth::Researched(20), mol(1, 0, 0, 0, 0), mol(0, 1, 0, 0, 0)),
        sample(2, SampleHealth::Researched(10), mol(0, 1, 1, 0, 0), mol(0, 0, 0, 0, 0)),
    ];
    let r = robot(mol(1, 0, 1, 0, 0), Molecules::new(), held);
    assert!(r.has_enough_molecules());
}

#[test]
fn eventual_affordability_respects_capacity_and_pool() {
    let r = robot(mol(3, 3, 0, 0, 0), mol(1, 0, 0, 0, 0), vec![]);
    let fits = sample(1, SampleHealth::Researched(10), mol(4, 3, 2, 0, 0), mol(0, 0, 0, 0, 0));
    let too_many = sample(2, SampleHealth::Researched(10), mol(0, 0, 5, 0, 0), mol(0, 0, 0, 0, 0));
    assert!(r.can_produce_sample(&fits, &mol(5, 5, 2, 5, 5)));
    assert!(!r.can_produce_sample(&fits, &mol(5, 5, 1, 5, 5)));
    assert!(!r.can_produce_sample(&too_many, &mol(5, 5, 5, 5, 5)));
}

#[test]
fn unresearched_sample_is_found_in_held_order() {
    let held = vec![
        sample(1, SampleHealth::Researched(20), mol(1, 0, 0, 0, 0), mol(0, 0, 0, 0, 0)),
        sample(2, SampleHealth::Unresearched, mol(0, 0, 0, 0, 0), mol(0, 0, 0, 0, 0)),
        sample(3, SampleHealth::Unresearched, mol(0, 0, 0, 0, 0), mol(0, 0, 0, 0, 0)),
    ];
    let r = robot(Molecules::new(), Molecules::new(), held);
    assert_eq!(r.get_unresearched_sample().map(|s| s.get_id()), Some(2));
    assert!(r.has_maximum_samples());
    assert!(r.has_enough_samples());
    let r = robot(Molecules::new(), Molecules::new(), vec![]);
    assert!(r.get_unresearched_sample().is_none());
    assert!(!r.has_enough_samples());
    assert!(!r.can_produce_one_held_sample(&mol(5, 5, 5, 5, 5)));
}
