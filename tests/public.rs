use ocean::beach::Beach;
use ocean::color::Color;
use ocean::cookbook::Cookbook;
use ocean::crab::Crab;
use ocean::diet::Diet;
use ocean::ocean::Ocean;
use ocean::prey::{Algae, AnyPrey, Clam, Shrimp};
use ocean::reef::Reef;

const PRINZ: &str = "Prinz";
const SEBASTIAN: &str = "Sebastian";

fn new_prinz() -> Crab {
    Crab::new(String::from(PRINZ), 20, Color::new(255, 215, 0), Diet::Shellfish)
}

fn new_sebastian() -> Crab {
    Crab::new(String::from(SEBASTIAN), 30, Color::new_red(), Diet::Plants)
}

#[test]
fn part1_color_cross_no_panic() {
    let red = Color::new_red();
    let blue = Color::new_blue();
    let purple = Color::new(255, 0, 255);
    assert_eq!(&Color::cross(&red, &blue), &purple);
    assert_eq!(&Color::cross(&red, &red), &Color::new(254, 0, 0));
}

#[test]
fn part1_crab_new() {
    let c = new_prinz();

    assert_eq!(c.name(), PRINZ);
    assert_eq!(c.speed(), 20);
    assert_eq!(c.color(), &Color::new(255, 215, 0));
    assert_eq!(c.diet(), Diet::Shellfish);
}

#[test]
fn part1_beach_add_get_crab() {
    let mut beach = Beach::new();
    let c = new_prinz();

    beach.add_crab(c);
    let c = beach.get_crab(0);

    assert_eq!(c.name(), PRINZ);
    assert_eq!(c.speed(), 20);
    assert_eq!(c.color(), &Color::new(255, 215, 0));
    assert_eq!(c.diet(), Diet::Shellfish);
}

#[test]
fn part1_beach_iter_crabs() {
    let mut beach = Beach::new();
    for _i in 0..10 {
        beach.add_crab(new_prinz());
    }

    let mut num_crabs = 0;
    for c in beach.crabs() {
        assert_eq!(c.name(), PRINZ);
        num_crabs += 1;
    }
    assert_eq!(num_crabs, 10);
}

#[test]
fn part1_beach_size() {
    let mut beach = Beach::new();
    for i in 0..10 {
        assert_eq!(beach.size(), i);
        let prinz = new_prinz();
        beach.add_crab(prinz);
    }
}

#[test]
fn part1_beach_fastest_empty() {
    let beach = Beach::new();
    let fastest = beach.get_fastest_crab();
    assert!(fastest.is_none());
}

#[test]
fn part1_beach_fastest_fastest_first() {
    let mut beach = Beach::new();
    assert!(beach.get_fastest_crab().is_none());

    beach.add_crab(new_sebastian());
    match beach.get_fastest_crab() {
        Some(c) => assert_eq!(c.name(), SEBASTIAN),
        None => assert!(false),
    }

    beach.add_crab(new_prinz());
    match beach.get_fastest_crab() {
        Some(c) => assert_eq!(c.name(), SEBASTIAN),
        None => assert!(false),
    }
}

#[test]
fn part1_beach_fastest_fastest_second() {
    let mut beach = Beach::new();
    assert!(beach.get_fastest_crab().is_none());

    beach.add_crab(new_prinz());
    match beach.get_fastest_crab() {
        Some(c) => assert_eq!(c.name(), PRINZ),
        None => assert!(false),
    }

    beach.add_crab(new_sebastian());
    match beach.get_fastest_crab() {
        Some(c) => assert_eq!(c.name(), SEBASTIAN),
        None => assert!(false),
    }
}

#[test]
fn part1_crab_breeding() {
    let mut beach = Beach::new();

    beach.add_crab(new_prinz());
    beach.add_crab(new_sebastian());
    assert_eq!(beach.size(), 2);

    beach.breed_crabs(0, 1, String::from("Crabraham Lincoln"));
    assert_eq!(beach.size(), 3);

    let parent1_diet = beach.get_crab(0).diet();
    let parent2_diet = beach.get_crab(1).diet();
    let child = beach.get_crab(2);

    assert_eq!(*child.name(), String::from("Crabraham Lincoln"));
    assert_eq!(child.speed(), 1);
    assert_eq!(*child.color(), Color::new(254, 215, 0));

    let mut found_different = false;
    for i in 0..1000 {
        beach.breed_crabs(0, 1, format!("Crab {}", i));
        let child = beach.get_crab(i + 3);
        if child.diet() != parent1_diet && child.diet() != parent2_diet {
            found_different = true;
            break;
        }
    }
    assert!(found_different);
}

#[test]
fn part1_crab_find_by_name() {
    let mut beach = Beach::new();

    beach.add_crab(new_sebastian());
    beach.add_crab(new_sebastian());

    let num_sebastians = beach.find_crabs_by_name(SEBASTIAN).len();
    assert_eq!(num_sebastians, 2);

    let num_prinz = beach.find_crabs_by_name(PRINZ).len();
    assert_eq!(num_prinz, 0);
}

#[test]
fn part2_crab_choose_recipe() {
    let cookbook = Cookbook::new();

    let prinz = new_prinz();
    let sebastian = new_sebastian();

    let chowder = prinz.choose_recipe(&cookbook);
    assert!(chowder.is_some());
    assert_eq!(*chowder.unwrap().name(), String::from("chowder"));

    let none = sebastian.choose_recipe(&cookbook);
    assert!(none.is_none());
}

#[test]
fn part2_reef_add_take_prey() {
    let mut reef = Reef::new();
    let p = Clam::new();

    reef.add_prey(AnyPrey::Clam(p));
    assert_eq!(reef.population(), 1);

    let _ = reef.take_prey();
    assert_eq!(reef.population(), 0);
}

#[test]
fn part2_crab_discover_reefs() {
    let mut crab = new_prinz();
    let reefs: Vec<Reef> = vec![Reef::new()];

    assert_eq!(crab.discovered_reefs().len(), 0);

    crab.discover_reef(0);

    assert_eq!(crab.discovered_reefs().len(), 1);
    assert_eq!(crab.discovered_reefs()[0], 0);
    assert_eq!(reefs.len(), 1);
}

#[test]
fn part2_crab_hunt_empty_reef() {
    let mut crab = new_prinz();
    let mut reefs: Vec<Reef> = vec![Reef::new()];

    crab.discover_reef(0);
    assert_eq!(crab.hunt(&mut reefs), false);
}

#[test]
fn part2_crab_hunt_success() {
    let mut crab = new_prinz();
    let mut reefs: Vec<Reef> = vec![Reef::new()];

    reefs[0].add_prey(AnyPrey::Clam(Clam::new()));
    assert_eq!(reefs[0].population(), 1);

    crab.discover_reef(0);
    assert_eq!(crab.hunt(&mut reefs), true);

    assert_eq!(reefs[0].population(), 0);
}

#[test]
fn part2_crab_hunt_incompatible_diet() {
    let mut crab = new_prinz();
    let mut reefs: Vec<Reef> = vec![Reef::new()];

    reefs[0].add_prey(AnyPrey::Algae(Algae::new()));
    assert_eq!(reefs[0].population(), 1);

    crab.discover_reef(0);
    assert_eq!(crab.hunt(&mut reefs), false);

    assert_eq!(reefs[0].population(), 1);
}

#[test]
fn part2_crab_hunt_escaped_prey() {
    let mut crab = new_prinz();
    let mut reefs: Vec<Reef> = vec![Reef::new()];

    reefs[0].add_prey(AnyPrey::Shrimp(Shrimp::new(1)));
    assert_eq!(reefs[0].population(), 1);

    crab.discover_reef(0);

    assert_eq!(crab.hunt(&mut reefs), false);
    assert_eq!(reefs[0].population(), 1);

    assert_eq!(crab.hunt(&mut reefs), true);
    assert_eq!(reefs[0].population(), 0);
}

#[test]
fn part2_ocean_generate_algae_only() {
    for n_algae in 1..5 {
        let mut ocean = Ocean::new();
        assert_eq!(ocean.reefs().len(), 0);

        let reef = ocean.generate_reef(0, 0, 0, n_algae);
        assert_eq!(ocean.reefs().len(), 1);
        assert_eq!(ocean.reef(reef).population(), n_algae as usize);

        let mut prinz = new_prinz();
        prinz.discover_reef(reef);
        assert_eq!(ocean.hunt(&mut prinz), false);

        let mut sebastian = new_sebastian();
        sebastian.discover_reef(reef);
        assert_eq!(ocean.hunt(&mut sebastian), true);
    }
}

#[test]
fn part2_ocean_generate_algae_bountiful() {
    for n in 1..5 {
        let mut ocean = Ocean::new();
        assert_eq!(ocean.reefs().len(), 0);

        let reef = ocean.generate_reef(n, n, n, n);
        assert_eq!(ocean.reefs().len(), 1);
        assert_eq!(ocean.reef(reef).population(), 4 * (n as usize));

        let mut prinz = new_prinz();
        prinz.discover_reef(reef);
        assert_eq!(ocean.hunt(&mut prinz), true);

        let mut sebastian = new_sebastian();
        sebastian.discover_reef(reef);
        assert_eq!(ocean.hunt(&mut sebastian), true);
    }
}
