//! Puzzle-solver library built around a small verified register machine.
//!
//! The heart of the crate is `instructions`, a sixteen-opcode register
//! machine, and `inference`, which recovers the meaning of numerically
//! encoded opcodes from observed behaviour.  The remaining modules are
//! solvers for independent puzzles, each exposing an `Instance` that turns
//! a textual problem input into its answers.

pub mod day;
pub mod day1;
pub mod day2;
pub mod day3;
pub mod day4;
pub mod day5;
pub mod day6;
pub mod day7;
pub mod day8;
pub mod day9;
pub mod day10;
pub mod day11;
pub mod day12;
pub mod day13;
pub mod day14;
pub mod day15;
pub mod day16;
pub mod day17;
pub mod day18;
pub mod day19;
pub mod day20;
pub mod day21;
pub mod day22;
pub mod day23;
pub mod day24;
pub mod day25;
pub mod inference;
pub mod instructions;
pub mod text;
