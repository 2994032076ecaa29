use elfcode::day::{Day, DayResult};
use elfcode::day20::{Direction, RoomRegex};
use elfcode::day2::checksum;
use elfcode::day9::play_game;

#[test]
fn day1_example() {
    let instance = elfcode::day1::Instance;
    let input = "+1
-2
+3
+1";
    let expected = DayResult { part1: "3".to_owned(), part2: Some("2".to_owned()) };
    assert_eq!(instance.run(input), Ok(expected));
}

#[test]
fn checksum_example() {
    let example = "abcdef
bababc
abbcde
abcccd
aabcdd
abcdee
ababab";
    assert_eq!(checksum(example), 12);
}

#[test]
fn day2_example() {
    let instance = elfcode::day2::Instance;
    let input = "abcde
fghij
klmno
pqrst
fguij
axcye
wvxyz";
    let expected = DayResult { part1: "0".to_owned(), part2: Some("fgij".to_owned()) };
    assert_eq!(instance.run(input), Ok(expected));
}

#[test]
fn day3_example() {
    let instance = elfcode::day3::Instance;
    let input = "#1 @ 1,3: 4x4
#2 @ 3,1: 4x4
#3 @ 5,5: 2x2";
    let expected = DayResult { part1: "4".to_owned(), part2: Some("3".to_owned()) };
    assert_eq!(instance.run(input), Ok(expected));
}

#[test]
fn day4_test_parse() {
    let input = "[1518-11-01 00:00] Guard #10 begins shift";
    let expected = elfcode::day4::LogEntry {
        timestamp: elfcode::day4::Timestamp { year: 1518, month: 11, day: 1, hour: 0, minute: 0 },
        message: elfcode::day4::Message::BeginShift(10),
    };
    assert_eq!(input.parse::<elfcode::day4::LogEntry>(), Ok(expected));
}

#[test]
fn test_minutes_between() {
    let start = elfcode::day4::Timestamp { year: 1518, month: 11, day: 1, hour: 0, minute: 5 };
    let end = elfcode::day4::Timestamp { year: 1518, month: 11, day: 1, hour: 0, minute: 10 };
    assert_eq!(start.minutes_till(&end), vec![5, 6, 7, 8, 9]);

    let feb = elfcode::day4::Timestamp { year: 1518, month: 2, day: 28, hour: 23, minute: 58 };
    let mar = elfcode::day4::Timestamp { year: 1518, month: 3, day: 1, hour: 0, minute: 2 };

    assert_eq!(feb.minutes_till(&mar), vec![58, 59, 0, 1]);
}

#[test]
fn day4_example() {
    let instance = elfcode::day4::Instance;
    let input = "[1518-11-01 00:00] Guard #10 begins shift
[1518-11-01 00:05] falls asleep
[1518-11-01 00:25] wakes up
[1518-11-01 00:30] falls asleep
[1518-11-01 00:55] wakes up
[1518-11-01 23:58] Guard #99 begins shift
[1518-11-02 00:40] falls asleep
[1518-11-02 00:50] wakes up
[1518-11-03 00:05] Guard #10 begins shift
[1518-11-03 00:24] falls asleep
[1518-11-03 00:29] wakes up
[1518-11-04 00:02] Guard #99 begins shift
[1518-11-04 00:36] falls asleep
[1518-11-04 00:46] wakes up
[1518-11-05 00:03] Guard #99 begins shift
[1518-11-05 00:45] falls asleep
[1518-11-05 00:55] wakes up";
    let expected = DayResult { part1: "240".to_owned(), part2: Some("4455".to_owned()) };
    assert_eq!(instance.run(input), Ok(expected));
}

#[test]
fn day5_example() {
    let instance = elfcode::day5::Instance;
    let input = "dabAcCaCBAcCcaDA";
    let expected = DayResult { part1: "10".to_owned(), part2: Some("4".to_owned()) };
    assert_eq!(instance.run(input), Ok(expected));
}

#[test]
fn day6_example() {
    let instance = elfcode::day6::Instance { target_distance: 32 };
    let input = "1, 1
1, 6
8, 3
3, 4
5, 5
8, 9";

    assert_eq!(
        instance.run(input),
        Ok(DayResult { part1: "17".to_owned(), part2: Some("16".to_owned()) })
    );
}

#[test]
fn day7_example() {
    let instance = elfcode::day7::Instance { additional_time: 0, max_workers: 2 };
    let input = "Step C must be finished before step A can begin.
Step C must be finished before step F can begin.
Step A must be finished before step B can begin.
Step A must be finished before step D can begin.
Step B must be finished before step E can begin.
Step D must be finished before step E can begin.
Step F must be finished before step E can begin.";
    let expected = DayResult { part1: "CABDFE".to_owned(), part2: Some("15".to_owned()) };
    assert_eq!(instance.run(input), Ok(expected));
}

#[test]
fn day8_example() {
    let instance = elfcode::day8::Instance;
    let input = "2 3 0 3 10 11 12 1 1 0 1 99 2 1 1 2";
    let expected = DayResult { part1: "138".to_owned(), part2: Some("66".to_owned()) };
    assert_eq!(instance.run(input), Ok(expected));
}

#[test]
fn examples() {
    let examples = vec![
        (9, 25, 32),
        (10, 1618, 8317),
        (13, 7999, 146373),
        (17, 1104, 2764),
        (21, 6111, 54718),
        (30, 5807, 37305),
    ];

    for example in examples {
        let (players, marbles, high_score) = example;
        assert_eq!(play_game(players, marbles), Some(high_score));
    }
}

#[test]
fn day11_example() {
    let instance = elfcode::day11::Instance;
    let input = "18";
    let expected = DayResult { part1: "33,45".to_owned(), part2: Some("90,269,16".to_owned()) };
    assert_eq!(instance.run(input), Ok(expected));
}

#[test]
fn day14_example() {
    let instance = elfcode::day14::Instance;
    let input = "9";
    let expected = DayResult { part1: "5158916779".to_owned(), part2: Some("13".to_owned()) };
    assert_eq!(instance.run(input), Ok(expected));
}

#[test]
fn day18_example() {
    let instance = elfcode::day18::Instance;
    let input = ".#.#...|#.
.....#|##|
.|..|...#.
..|#.....#
#.#|||#|#|
...#.||...
.|....|...
||...#|.#|
|.||||..|.
...#.|..|.";
    let expected = DayResult { part1: "1147".to_owned(), part2: Some("0".to_owned()) };
    assert_eq!(instance.run(input), Ok(expected));
}

#[test]
fn day25_example() {
    let instance = elfcode::day25::Instance;
    let input = "0,0,0,0
3,0,0,0
0,3,0,0
0,0,3,0
0,0,0,3
0,0,0,6
9,0,0,0
12,0,0,0";
    let expected = DayResult { part1: "2".to_owned(), part2: None };
    assert_eq!(instance.run(input), Ok(expected));
}

#[test]
fn rejected_inputs_name_their_fault() {
    let one = elfcode::day1::Instance;
    assert!(one.run("+1\nnot a number").is_err());
    let nine = elfcode::day9::Instance;
    assert!(nine.run("no numbers here").is_err());
    let eighteen = elfcode::day18::Instance;
    assert!(eighteen.run(".#X").is_err());
    let twentyfive = elfcode::day25::Instance;
    assert!(twentyfive.run("1,2,3").is_err());
}

#[test]
fn day12_example() {
    let instance = elfcode::day12::Instance;
    let input = "initial state: #..#.#..##......###...###

...## => #
..#.. => #
.#... => #
.#.#. => #
.#.## => #
.##.. => #
.#### => #
#.#.# => #
#.### => #
##.#. => #
##.## => #
###.. => #
###.# => #
####. => #";

    let expected = DayResult { part1: "325".to_owned(), part2: Some("999999999374".to_owned()) };
    assert_eq!(instance.run(input), Ok(expected));
}

#[test]
fn day23_example() {
    let instance = elfcode::day23::Instance;
    let input = "pos=<0,0,0>, r=4
pos=<1,0,0>, r=1
pos=<4,0,0>, r=3
pos=<0,2,0>, r=1
pos=<0,5,0>, r=3
pos=<0,0,3>, r=1
pos=<1,1,1>, r=1
pos=<1,1,2>, r=1
pos=<1,3,1>, r=1";

    assert_eq!(instance.run(input).map(|d| d.part1), Ok("7".to_owned()));

    let input = "pos=<10,12,12>, r=2
pos=<12,14,12>, r=2
pos=<16,12,12>, r=4
pos=<14,14,14>, r=6
pos=<50,50,50>, r=200
pos=<10,10,10>, r=5";

    assert_eq!(instance.run(input).ok().and_then(|d| d.part2), Some("36".to_owned()));
}

#[test]
fn day10_example() {
    let instance = elfcode::day10::Instance;
    let input = "position=< 9,  1> velocity=< 0,  2>
position=< 7,  0> velocity=<-1,  0>
position=< 3, -2> velocity=<-1,  1>
position=< 6, 10> velocity=<-2, -1>
position=< 2, -4> velocity=< 2,  2>
position=<-6, 10> velocity=< 2, -2>
position=< 1,  8> velocity=< 1, -1>
position=< 1,  7> velocity=< 1,  0>
position=<-3, 11> velocity=< 1, -2>
position=< 7,  6> velocity=<-1, -1>
position=<-2,  3> velocity=< 1,  0>
position=<-4,  3> velocity=< 2,  0>
position=<10, -3> velocity=<-1,  1>
position=< 5, 11> velocity=< 1, -2>
position=< 4,  7> velocity=< 0, -1>
position=< 8, -2> velocity=< 0,  1>
position=<15,  0> velocity=<-2,  0>
position=< 1,  6> velocity=< 1,  0>
position=< 8,  9> velocity=< 0, -1>
position=< 3,  3> velocity=<-1,  1>
position=< 0,  5> velocity=< 0, -1>
position=<-2,  2> velocity=< 2,  0>
position=< 5, -2> velocity=< 1,  2>
position=< 1,  4> velocity=< 2,  1>
position=<-2,  7> velocity=< 2, -2>
position=< 3,  6> velocity=<-1, -1>
position=< 5,  0> velocity=< 1,  0>
position=<-6,  0> velocity=< 2,  0>
position=< 5,  9> velocity=< 1, -2>
position=<14,  7> velocity=<-2,  0>
position=<-3,  6> velocity=< 2, -1>";
    println!("{}", instance.run(input).unwrap().part1);
    let expected = DayResult {
        part1: "
█   █  ███
█   █   █ 
█   █   █ 
█████   █ 
█   █   █ 
█   █   █ 
█   █   █ 
█   █  ███"
                .to_owned(),
        part2: Some("3".to_owned()),
    };
    assert_eq!(instance.run(input), Ok(expected));
}

#[test]
fn day20_test_parse() {
    assert_eq!(
        "^(NE|SE|EE|WE)$".parse::<RoomRegex>(),
        Ok(RoomRegex::Group(vec![RoomRegex::Or(vec![
            vec![
                RoomRegex::Literal(Direction::North),
                RoomRegex::Literal(Direction::East)
            ],
            vec![
                RoomRegex::Literal(Direction::South),
                RoomRegex::Literal(Direction::East)
            ],
            vec![
                RoomRegex::Literal(Direction::East),
                RoomRegex::Literal(Direction::East)
            ],
            vec![
                RoomRegex::Literal(Direction::West),
                RoomRegex::Literal(Direction::East)
            ],
        ])]))
    );
    assert_eq!(
        "^(N|N(E|W))$".parse::<RoomRegex>(),
        Ok(RoomRegex::Group(vec![RoomRegex::Or(vec![
            vec![RoomRegex::Literal(Direction::North),],
            vec![
                RoomRegex::Literal(Direction::North),
                RoomRegex::Or(vec![
                    vec![RoomRegex::Literal(Direction::East),],
                    vec![RoomRegex::Literal(Direction::West),],
                ]),
            ],
        ])]))
    );
}

#[test]
fn day20_example() {
    let instance = elfcode::day20::Instance { verbose: true };
    let examples = vec![
        ("^WNE$", 3),
        ("^ENWWW(NEEE|SSE(EE|N))$", 10),
        ("^ENNWSWW(NEWS|)SSSEEN(WNSE|)EE(SWEN|)NNN$", 18),
        ("^ESSWWN(E|NNENN(EESS(WNSE|)SSS|WWWSSSSE(SW|NNNE)))$", 23),
        (
            "^WSSEESWWWNW(S|NENNEEEENN(ESSSSW(NWSW|SSEN)|WSWWN(E|WWS(E|SS))))$",
            31,
        ),
    ];

    for (input, expected) in examples {
        let expected = DayResult {
            part1: expected.to_string(),
            part2: Some("0".to_owned()),
        };
        assert_eq!(instance.run(input), Ok(expected));
    }
}

#[test]
fn day13_example() {
    let instance = elfcode::day13::Instance;
    let input = "/>-<\\  
|   |  
| /<+-\\
| | | v
\\>+</ |
  |   ^
  \\<->/";
    assert_eq!(
        instance.run(input).ok().and_then(|t| t.part2),
        Some("6,4".to_owned())
    );
}

#[test]
fn day17_test_parse() {
    let input = "x=495, y=2..7\ny=7, x=495..501";
    let expected = vec![
        elfcode::day17::Coord { x: 495, y: 2 },
        elfcode::day17::Coord { x: 495, y: 3 },
        elfcode::day17::Coord { x: 495, y: 4 },
        elfcode::day17::Coord { x: 495, y: 5 },
        elfcode::day17::Coord { x: 495, y: 6 },
        elfcode::day17::Coord { x: 495, y: 7 },
        elfcode::day17::Coord { x: 496, y: 7 },
        elfcode::day17::Coord { x: 497, y: 7 },
        elfcode::day17::Coord { x: 498, y: 7 },
        elfcode::day17::Coord { x: 499, y: 7 },
        elfcode::day17::Coord { x: 500, y: 7 },
        elfcode::day17::Coord { x: 501, y: 7 },
    ];
    assert_eq!(input.parse::<elfcode::day17::Ground>().map(|g| g.clay), Ok(expected));
    assert_eq!(input.parse::<elfcode::day17::Ground>().map(|g| g.min_y), Ok(2));
    assert_eq!(input.parse::<elfcode::day17::Ground>().map(|g| g.max_y), Ok(7));
}

#[test]
fn day17_example() {
    let instance = elfcode::day17::Instance { verbose: true };
    let input = "x=495, y=2..7
y=7, x=495..501
x=501, y=3..7
x=498, y=2..4
x=506, y=1..2
x=498, y=10..13
x=504, y=10..13
y=13, x=498..504
";
    let expected = DayResult {
        part1: "57".to_owned(),
        part2: Some("29".to_owned()),
    };
    assert_eq!(instance.run(input), Ok(expected));
}

#[test]
fn day22_example() {
    let instance = elfcode::day22::Instance;
    let input = "depth: 510
target: 10,10
";
    let expected = DayResult {
        part1: "114".to_owned(),
        part2: Some("45".to_owned()),
    };
    assert_eq!(instance.run(input), Ok(expected));
}
