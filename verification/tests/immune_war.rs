use elfcode::day::{Day, DayResult};
use elfcode::day24::{Armies, Army, Group};

const EXAMPLE: &str = "Immune System:
17 units each with 5390 hit points (weak to radiation, bludgeoning) with an attack that does 4507 fire damage at initiative 2
989 units each with 1274 hit points (immune to fire; weak to bludgeoning, slashing) with an attack that does 25 slashing damage at initiative 3

Infection:
801 units each with 4706 hit points (weak to radiation) with an attack that does 116 bludgeoning damage at initiative 1
4485 units each with 2961 hit points (immune to radiation; weak to fire, cold) with an attack that does 12 slashing damage at initiative 4";

#[test]
fn parse() {
    assert_eq!(
        elfcode::day24::parse_group(
            "76 units each with 3032 hit points with an attack that does 334 radiation damage at initiative 7"
                .as_bytes()
        ),
        Ok(Group {
            unit_count: 76,
            hit_points: 3032,
            damage: 334,
            damage_type: "radiation".to_owned(),
            initiative: 7,
            weaknesses: Vec::new(),
            immunities: Vec::new(),
        })
    );

    assert_eq!(
        elfcode::day24::parse_group(
            "18 units each with 729 hit points (weak to fire; immune to cold, slashing) with an attack that does 8 fire damage at initiative 10"
                .as_bytes()
        ),
        Ok(Group {
            unit_count: 18,
            hit_points: 729,
            damage: 8,
            damage_type: "fire".to_owned(),
            initiative: 10,
            weaknesses: vec!["fire".to_owned()],
            immunities: vec!["cold".to_owned(), "slashing".to_owned()],
        })
    );

    assert_eq!(
        elfcode::day24::parse_armies(EXAMPLE),
        Ok(Armies {
            immune_system: Army {
                groups: vec![
                    Group {
                        unit_count: 17,
                        hit_points: 5390,
                        damage: 4507,
                        damage_type: "fire".to_owned(),
                        initiative: 2,
                        weaknesses: vec!["radiation".to_owned(), "bludgeoning".to_owned()],
                        immunities: Vec::new(),
                    },
                    Group {
                        unit_count: 989,
                        hit_points: 1274,
                        damage: 25,
                        damage_type: "slashing".to_owned(),
                        initiative: 3,
                        weaknesses: vec!["bludgeoning".to_owned(), "slashing".to_owned()],
                        immunities: vec!["fire".to_owned()],
                    },
                ],
            },
            infection: Army {
                groups: vec![
                    Group {
                        unit_count: 801,
                        hit_points: 4706,
                        damage: 116,
                        damage_type: "bludgeoning".to_owned(),
                        initiative: 1,
                        weaknesses: vec!["radiation".to_owned()],
                        immunities: Vec::new(),
                    },
                    Group {
                        unit_count: 4485,
                        hit_points: 2961,
                        damage: 12,
                        damage_type: "slashing".to_owned(),
                        initiative: 4,
                        weaknesses: vec!["fire".to_owned(), "cold".to_owned()],
                        immunities: vec!["radiation".to_owned()],
                    },
                ],
            },
        })
    );
}

#[test]
fn attack() {
    let mut armies = elfcode::day24::parse_armies(EXAMPLE).unwrap();
    armies.attack();

    assert_eq!(armies.immune_system.groups[0].unit_count, 905);
    assert_eq!(armies.infection.groups[0].unit_count, 797);
    assert_eq!(armies.infection.groups[1].unit_count, 4434);

    armies.attack();

    assert_eq!(armies.immune_system.groups[0].unit_count, 761);
    assert_eq!(armies.infection.groups[0].unit_count, 793);
    assert_eq!(armies.infection.groups[1].unit_count, 4434);
}

#[test]
fn day24_example() {
    let instance = elfcode::day24::Instance;

    let expected = DayResult {
        part1: "5216".to_owned(),
        part2: Some("51".to_owned()),
    };
    assert_eq!(instance.run(EXAMPLE), Ok(expected));
}
