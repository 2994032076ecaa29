use elfcode::day15::{part1, Cave, Coord};

#[test]
fn example() {
    let examples = vec![
        (
            "#######   
#.G...#
#...EG#
#.#.#G#
#..G#E#
#.....#
#######",
            27730,
        ),
        (
            "#######   
#E..EG#
#.#G.E#
#E.##E#
#G..#.#
#..E#.#
#######
",
            39514,
        ),
        (
            "#######   
#E.G#.#
#.#G..#
#G.#.G#
#G..#.#
#...E.#
#######
",
            27755,
        ),
        (
            "#######
#.E...#
#.#..G#
#.###.#
#E#G#G#
#...#G#
#######
",
            28944,
        ),
        (
            "#########
#G......#
#.E.#...#
#..##..G#
#...##..#
#...#...#
#.G...G.#
#.....G.#
#########
",
            18740,
        ),
    ];
    for (input, expected) in examples {
        assert_eq!(part1(input), Ok(expected));
    }
}

#[test]
fn shortest_path() {
    let cave: Cave = "#######
#.E...#
#.....#
#...G.#
#######"
        .parse()
        .unwrap();

    assert_eq!(
        cave.next_move(&Coord { x: 2, y: 2 }, &vec![Coord { x: 4, y: 3 }]),
        Some(Coord { x: 3, y: 2 })
    );
}

#[test]
fn test_movement() {
    let mut cave: Cave = "#########
#G..G..G#
#.......#
#.......#
#G..E..G#
#.......#
#.......#
#G..G..G#
#########"
        .parse()
        .unwrap();

    cave.round().unwrap();
    let expected = "#########
#.G...G.#
#...G...#
#...E..G#
#.G.....#
#.......#
#G..G..G#
#.......#
#########
";

    assert_eq!(cave.to_string().as_str(), expected);
    cave.round().unwrap();
    let expected = "#########
#..G.G..#
#...G...#
#.G.E.G.#
#.......#
#G..G..G#
#.......#
#.......#
#########
";
    assert_eq!(cave.to_string().as_str(), expected);
    cave.round().unwrap();
    let expected = "#########
#.......#
#..GGG..#
#..GEG..#
#G..G...#
#......G#
#.......#
#.......#
#########
";
    assert_eq!(cave.to_string().as_str(), expected);
}

#[test]
fn test_sample() {
    let mut cave: Cave = "#######
#.G...#
#...EG#
#.#.#G#
#..G#E#
#.....#
#######"
        .parse()
        .unwrap();

    cave.round().unwrap();
    let expected = "#######
#..G..#
#...EG#
#.#G#G#
#...#E#
#.....#
#######
";
    assert_eq!(cave.to_string().as_str(), expected);
    assert_eq!(cave.unit_hp(3, 1), Some(200));
    assert_eq!(cave.unit_hp(4, 2), Some(197));
    assert_eq!(cave.unit_hp(5, 2), Some(197));
    assert_eq!(cave.unit_hp(3, 3), Some(200));
    assert_eq!(cave.unit_hp(5, 3), Some(197));
    assert_eq!(cave.unit_hp(5, 4), Some(197));

    cave.round().unwrap();

    let expected = "#######
#...G.#
#..GEG#
#.#.#G#
#...#E#
#.....#
#######
";
    assert_eq!(cave.to_string().as_str(), expected);
    assert_eq!(cave.unit_hp(4, 1), Some(200));
    assert_eq!(cave.unit_hp(3, 2), Some(200));
    assert_eq!(cave.unit_hp(4, 2), Some(188));
    assert_eq!(cave.unit_hp(5, 2), Some(194));
    assert_eq!(cave.unit_hp(5, 3), Some(194));
    assert_eq!(cave.unit_hp(5, 4), Some(194));

    for _ in 2..23 {
        cave.round().unwrap();
    }

    let expected = "#######
#...G.#
#..G.G#
#.#.#G#
#...#E#
#.....#
#######
";
    assert_eq!(cave.to_string().as_str(), expected);
    assert_eq!(cave.unit_hp(4, 1), Some(200));
    assert_eq!(cave.unit_hp(3, 2), Some(200));
    assert_eq!(cave.unit_hp(5, 2), Some(131));
    assert_eq!(cave.unit_hp(5, 3), Some(131));
    assert_eq!(cave.unit_hp(5, 4), Some(131));

    cave.round().unwrap();
    let expected = "#######
#..G..#
#...G.#
#.#G#G#
#...#E#
#.....#
#######
";
    assert_eq!(cave.to_string().as_str(), expected);
    assert_eq!(cave.unit_hp(3, 1), Some(200));
    assert_eq!(cave.unit_hp(4, 2), Some(131));
    assert_eq!(cave.unit_hp(3, 3), Some(200));
    assert_eq!(cave.unit_hp(5, 3), Some(128));
    assert_eq!(cave.unit_hp(5, 4), Some(128));

    cave.round().unwrap();
    let expected = "#######
#.G...#
#..G..#
#.#.#G#
#..G#E#
#.....#
#######
";
    assert_eq!(cave.to_string().as_str(), expected);
    assert_eq!(cave.unit_hp(2, 1), Some(200));
    assert_eq!(cave.unit_hp(3, 2), Some(131));
    assert_eq!(cave.unit_hp(5, 3), Some(125));
    assert_eq!(cave.unit_hp(3, 4), Some(200));
    assert_eq!(cave.unit_hp(5, 4), Some(125));

    cave.round().unwrap();
    let expected = "#######
#G....#
#.G...#
#.#.#G#
#...#E#
#..G..#
#######
";
    assert_eq!(cave.to_string().as_str(), expected);
    assert_eq!(cave.unit_hp(1, 1), Some(200));
    assert_eq!(cave.unit_hp(2, 2), Some(131));
    assert_eq!(cave.unit_hp(5, 3), Some(122));
    assert_eq!(cave.unit_hp(5, 4), Some(122));
    assert_eq!(cave.unit_hp(3, 5), Some(200));

    cave.round().unwrap();
    let expected = "#######
#G....#
#.G...#
#.#.#G#
#...#E#
#...G.#
#######
";
    assert_eq!(cave.to_string().as_str(), expected);
    assert_eq!(cave.unit_hp(1, 1), Some(200));
    assert_eq!(cave.unit_hp(2, 2), Some(131));
    assert_eq!(cave.unit_hp(5, 3), Some(119));
    assert_eq!(cave.unit_hp(5, 4), Some(119));
    assert_eq!(cave.unit_hp(4, 5), Some(200));

    cave.round().unwrap();
    let expected = "#######
#G....#
#.G...#
#.#.#G#
#...#E#
#....G#
#######
";
    assert_eq!(cave.to_string().as_str(), expected);
    assert_eq!(cave.unit_hp(1, 1), Some(200));
    assert_eq!(cave.unit_hp(2, 2), Some(131));
    assert_eq!(cave.unit_hp(5, 3), Some(116));
    assert_eq!(cave.unit_hp(5, 4), Some(113));
    assert_eq!(cave.unit_hp(5, 5), Some(200));

    for _ in 29..=47 {
        cave.round().unwrap();
    }

    let expected = "#######
#G....#
#.G...#
#.#.#G#
#...#.#
#....G#
#######
";
    assert_eq!(cave.to_string().as_str(), expected);
    assert_eq!(cave.unit_hp(1, 1), Some(200));
    assert_eq!(cave.unit_hp(2, 2), Some(131));
    assert_eq!(cave.unit_hp(5, 3), Some(59));
    assert_eq!(cave.unit_hp(5, 5), Some(200));
}

#[test]
fn test_long_movement() {
    let mut cave: Cave = "###########
#G..#....G#
###..E#####
###########
"
    .parse()
    .unwrap();

    cave.round().unwrap();

    let expected = "###########
#.G.#...G.#
###.E.#####
###########
";
    assert_eq!(cave.to_string().as_str(), expected);
}
