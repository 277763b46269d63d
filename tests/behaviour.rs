use rand::{RngCore, SeedableRng};
use ocean::beach::Beach;
use ocean::color::Color;
use ocean::cookbook::{Cookbook, Recipe};
use ocean::crab::Crab;
use ocean::diet::Diet;
use ocean::ocean::Ocean;
use ocean::prey::{Algae, AnyPrey, Clam, Minnow, Prey, Shrimp};
use ocean::rand::{rand32, RandomSource};
use ocean::reef::Reef;

fn crab(name: &str, speed: u32, diet: Diet) -> Crab {
    Crab::new(String::from(name), speed, Color::new(1, 2, 3), diet)
}

#[test]
fn reef_hands_out_prey_first_in_first_out() {
    let mut reef = Reef::new();
    reef.add_prey(AnyPrey::Shrimp(Shrimp::new(3)));
    reef.add_prey(AnyPrey::Minnow(Minnow::new(7)));
    reef.add_prey(AnyPrey::Clam(Clam::new()));
    assert_eq!(reef.population(), 3);
    assert_eq!(reef.take_prey(), Some(AnyPrey::Shrimp(Shrimp::new(3))));
    assert_eq!(reef.population(), 2);
    assert_eq!(reef.take_prey(), Some(AnyPrey::Minnow(Minnow::new(7))));
    assert_eq!(reef.take_prey(), Some(AnyPrey::Clam(Clam::new())));
    assert_eq!(reef.population(), 0);
    assert_eq!(reef.take_prey(), None);
    assert_eq!(reef.population(), 0);
}

#[test]
fn reef_prey_reads_by_position() {
    let mut reef = Reef::new();
    reef.add_prey(AnyPrey::Algae(Algae::new()));
    reef.add_prey(AnyPrey::Clam(Clam::new()));
    assert_eq!(*reef.prey(0), AnyPrey::Algae(Algae::new()));
    assert_eq!(*reef.prey(1), AnyPrey::Clam(Clam::new()));
}

#[test]
fn hunt_without_reefs_fails() {
    let mut c = crab("Lonely", 10, Diet::Fish);
    let mut reefs: Vec<Reef> = Vec::new();
    assert!(!c.hunt(&mut reefs));
}

#[test]
fn hunt_in_empty_reefs_changes_nothing() {
    let mut c = crab("Hungry", 10, Diet::Fish);
    let mut reefs: Vec<Reef> = vec![Reef::new(), Reef::new()];
    c.discover_reef(1);
    c.discover_reef(0);
    assert!(!c.hunt(&mut reefs));
    assert_eq!(reefs[0].population(), 0);
    assert_eq!(reefs[1].population(), 0);
}

#[test]
fn shrimp_escapes_while_it_has_energy() {
    let c = crab("Tester", 5, Diet::Shellfish);
    let mut s = Shrimp::new(2);
    assert_eq!(s.diet(), Diet::Shellfish);
    assert!(s.try_escape(&c));
    assert!(s.try_escape(&c));
    assert!(!s.try_escape(&c));
    assert!(!s.try_escape(&c));
    assert_eq!(s, Shrimp::new(0));
}

#[test]
fn minnow_escapes_only_slower_crabs() {
    let slow = crab("Slow", 24, Diet::Fish);
    let same = crab("Same", 25, Diet::Fish);
    let mut m = Minnow::new(25);
    assert_eq!(m.diet(), Diet::Fish);
    assert!(m.try_escape(&slow));
    assert!(!m.try_escape(&same));
    assert!(m.try_escape(&slow));
}

#[test]
fn algae_and_clams_never_escape() {
    let c = crab("Any", 0, Diet::Plants);
    let mut a = AnyPrey::Algae(Algae::new());
    let mut k = AnyPrey::Clam(Clam::new());
    assert!(!a.try_escape(&c));
    assert!(!k.try_escape(&c));
    assert_eq!(a.diet(), Diet::Plants);
    assert_eq!(k.diet(), Diet::Shellfish);
}

#[test]
fn escaped_prey_goes_back_to_the_tail() {
    // A slow fish eater meets a fast minnow, then a slow one.
    let mut c = crab("Fisher", 10, Diet::Fish);
    let mut reefs: Vec<Reef> = vec![Reef::new()];
    reefs[0].add_prey(AnyPrey::Minnow(Minnow::new(50)));
    reefs[0].add_prey(AnyPrey::Algae(Algae::new()));
    reefs[0].add_prey(AnyPrey::Minnow(Minnow::new(5)));
    reefs[0].add_prey(AnyPrey::Clam(Clam::new()));
    c.discover_reef(0);
    assert!(c.hunt(&mut reefs));
    assert_eq!(reefs[0].population(), 3);
    assert_eq!(reefs[0].take_prey(), Some(AnyPrey::Clam(Clam::new())));
    assert_eq!(reefs[0].take_prey(), Some(AnyPrey::Minnow(Minnow::new(50))));
    assert_eq!(reefs[0].take_prey(), Some(AnyPrey::Algae(Algae::new())));
}

#[test]
fn hunt_scans_reefs_in_discovery_order() {
    let mut c = crab("Picky", 10, Diet::Plants);
    let mut reefs: Vec<Reef> = vec![Reef::new(), Reef::new(), Reef::new()];
    reefs[0].add_prey(AnyPrey::Algae(Algae::new()));
    reefs[2].add_prey(AnyPrey::Clam(Clam::new()));
    reefs[2].add_prey(AnyPrey::Algae(Algae::new()));
    c.discover_reef(2);
    c.discover_reef(0);
    assert!(c.hunt(&mut reefs));
    // The clam of reef 2 was tried first and returned; the algae after it was eaten.
    assert_eq!(reefs[0].population(), 1);
    assert_eq!(reefs[2].population(), 1);
    assert_eq!(*reefs[2].prey(0), AnyPrey::Clam(Clam::new()));
}

#[test]
fn failed_hunt_returns_every_prey_to_its_reef() {
    let mut c = crab("Vegan", 10, Diet::Plants);
    let mut reefs: Vec<Reef> = vec![Reef::new(), Reef::new()];
    reefs[0].add_prey(AnyPrey::Clam(Clam::new()));
    reefs[0].add_prey(AnyPrey::Shrimp(Shrimp::new(1)));
    reefs[1].add_prey(AnyPrey::Minnow(Minnow::new(3)));
    c.discover_reef(0);
    c.discover_reef(1);
    assert!(!c.hunt(&mut reefs));
    assert_eq!(reefs[0].population(), 2);
    assert_eq!(reefs[1].population(), 1);
    assert_eq!(*reefs[0].prey(0), AnyPrey::Clam(Clam::new()));
    assert_eq!(*reefs[0].prey(1), AnyPrey::Shrimp(Shrimp::new(0)));
    assert_eq!(*reefs[1].prey(0), AnyPrey::Minnow(Minnow::new(3)));
}

#[test]
fn crab_in_algae_reef_without_plant_diet_always_fails() {
    let mut ocean = Ocean::new();
    let reef = ocean.generate_reef(0, 0, 0, 3);
    let mut fish_eater = crab("Fish", 100, Diet::Fish);
    fish_eater.discover_reef(reef);
    for _i in 0..3 {
        assert!(!ocean.hunt(&mut fish_eater));
        assert_eq!(ocean.reef(reef).population(), 3);
    }
}

#[test]
fn generated_reef_keeps_kind_order() {
    let mut ocean = Ocean::new();
    let reef = ocean.generate_reef(1, 1, 1, 1);
    assert_eq!(reef, 0);
    let r = ocean.reef(reef);
    assert_eq!(*r.prey(0), AnyPrey::Minnow(Minnow::new(25)));
    assert_eq!(*r.prey(1), AnyPrey::Shrimp(Shrimp::new(1)));
    assert_eq!(*r.prey(2), AnyPrey::Clam(Clam::new()));
    assert_eq!(*r.prey(3), AnyPrey::Algae(Algae::new()));
    assert_eq!(ocean.generate_reef(0, 0, 0, 0), 1);
    assert_eq!(ocean.reef(1).population(), 0);
}

#[test]
fn ocean_keeps_beaches() {
    let mut ocean = Ocean::new();
    assert_eq!(ocean.beaches().len(), 0);
    let mut beach = Beach::new();
    beach.add_crab(crab("Sandy", 3, Diet::Fish));
    ocean.add_beach(beach);
    assert_eq!(ocean.beaches().len(), 1);
    assert_eq!(ocean.beaches()[0].size(), 1);
}

#[test]
fn recipe_lookup_takes_first_match() {
    let cookbook = Cookbook::new();
    let fish = crab("Fish", 1, Diet::Fish);
    let recipe = fish.choose_recipe(&cookbook).unwrap();
    assert_eq!(recipe.name(), "cioppino");
    assert_eq!(recipe.diet(), Diet::Fish);
    assert_eq!(cookbook.recipes().len(), 2);
    assert_eq!(cookbook.recipes()[0].name(), "chowder");
    let r = Recipe::new(String::from("salad"), Diet::Plants);
    assert_eq!(r.name(), "salad");
    assert_eq!(r.diet(), Diet::Plants);
}

#[test]
fn color_cross_wraps_each_component() {
    let c = Color::cross(&Color::new(200, 100, 1), &Color::new(100, 156, 2));
    assert_eq!(c, Color::new(44, 0, 3));
    assert_eq!(Color::new_green(), Color::new(0, 255, 0));
}

#[test]
fn diet_from_draw_is_modulo_three() {
    assert_eq!(Diet::from_draw(0), Diet::Fish);
    assert_eq!(Diet::from_draw(1), Diet::Shellfish);
    assert_eq!(Diet::from_draw(2), Diet::Plants);
    assert_eq!(Diet::from_draw(3), Diet::Fish);
    assert_eq!(Diet::from_draw(u32::MAX), Diet::Fish);
    assert_eq!(Diet::from_draw(u32::MAX - 1), Diet::Plants);
}

#[test]
fn random_source_is_deterministic() {
    let mut a = RandomSource::new();
    let mut b = RandomSource::with_seed(0);
    let mut c = RandomSource::with_seed(1);
    let xs: Vec<u32> = (0..8).map(|_| rand32(&mut a)).collect();
    let ys: Vec<u32> = (0..8).map(|_| rand32(&mut b)).collect();
    let zs: Vec<u32> = (0..8).map(|_| rand32(&mut c)).collect();
    assert_eq!(xs, ys);
    assert_ne!(xs, zs);
    let mut d = RandomSource::new();
    for x in xs {
        assert_eq!(Diet::random_diet(&mut d), Diet::from_draw(x));
    }
}

#[test]
fn find_by_name_keeps_order() {
    let mut beach = Beach::new();
    beach.add_crab(crab("A", 1, Diet::Fish));
    beach.add_crab(crab("B", 2, Diet::Fish));
    beach.add_crab(crab("A", 3, Diet::Fish));
    let found = beach.find_crabs_by_name("A");
    assert_eq!(found.len(), 2);
    assert_eq!(found[0].speed(), 1);
    assert_eq!(found[1].speed(), 3);
    assert!(beach.get_crab(1).has_name(&String::from("B")));
}

#[test]
fn fastest_crab_prefers_the_first_on_ties() {
    let mut beach = Beach::new();
    beach.add_crab(crab("A", 5, Diet::Fish));
    beach.add_crab(crab("B", 9, Diet::Fish));
    beach.add_crab(crab("C", 9, Diet::Fish));
    assert_eq!(beach.get_fastest_crab().unwrap().name(), "B");
}

#[test]
fn rand32_follows_the_seeded_generator() {
    let mut g = rand_pcg::Pcg64::seed_from_u64(7);
    let mut s = RandomSource::with_seed(7);
    let mut distinct = false;
    let first = rand32(&mut RandomSource::with_seed(7));
    for _i in 0..20 {
        let v = rand32(&mut s);
        assert_eq!(v, g.next_u32());
        if v != first {
            distinct = true;
        }
    }
    assert!(distinct);
}

#[test]
fn bred_diet_comes_from_the_beach_source() {
    let mut source = RandomSource::new();
    let mut beach = Beach::new();
    beach.add_crab(crab("A", 1, Diet::Fish));
    beach.add_crab(crab("B", 2, Diet::Plants));
    for i in 0..10 {
        beach.breed_crabs(0, 1, format!("Kid {}", i));
        let expected = Diet::from_draw(rand32(&mut source));
        assert_eq!(beach.get_crab(i + 2).diet(), expected);
        assert_eq!(*beach.get_crab(i + 2).color(), Color::new(2, 4, 6));
    }
}
