//! The drive commands of a run, as they come out of the command file: a verb,
//! of which the first three letters count, and whole numbers after it.
use vstd::prelude::*;

verus! {

/// How often the state is written out where the command does not say.
pub const DEFAULT_UPDATE_RATE: u64 = 2_500;

/// How often the stress averages begin anew where the command does not say.
pub const DEFAULT_CLEAR_RATE: u64 = 75_000;

/// What a command asks for.
#[derive(Clone, Copy, Debug, PartialEq, Eq, Structural)]
pub enum Command {
    /// Settle the assembly.
    Relax,
    /// Run `total_cycles` steps of time; write the state out every
    /// `update_rate` steps and begin the stress averages anew every
    /// `clear_rate` steps.
    Cycle { total_cycles: u64, update_rate: u64, clear_rate: u64 },
    /// A cycle command without its number of steps, or with a rate of zero.
    Malformed,
    /// Any other verb: nothing to drive.
    Other,
}

/// The verb begins with the three letters `a`, `b`, `c`.
pub open spec fn begins_with(verb: Seq<u8>, a: u8, b: u8, c: u8) -> bool {
    verb.len() >= 3 && verb[0] == a && verb[1] == b && verb[2] == c
}

/// The number at place `i`, or `default` where the command has none there.
pub open spec fn number_or(numbers: Seq<u64>, i: int, default: u64) -> u64 {
    if i < numbers.len() {
        numbers[i]
    } else {
        default
    }
}

/// What the command with the verb `verb` and the numbers `numbers` asks for.
/// `REL` settles. `CYC` cycles: its first number is the number of steps, and
/// the two rates follow, each with its default.
pub open spec fn command_spec(verb: Seq<u8>, numbers: Seq<u64>) -> Command {
    if begins_with(verb, 0x52, 0x45, 0x4c) {
        Command::Relax
    } else if begins_with(verb, 0x43, 0x59, 0x43) {
        if numbers.len() == 0 || number_or(numbers, 1, DEFAULT_UPDATE_RATE) == 0 || number_or(
            numbers,
            2,
            DEFAULT_CLEAR_RATE,
        ) == 0 {
            Command::Malformed
        } else {
            Command::Cycle {
                total_cycles: numbers[0],
                update_rate: number_or(numbers, 1, DEFAULT_UPDATE_RATE),
                clear_rate: number_or(numbers, 2, DEFAULT_CLEAR_RATE),
            }
        }
    } else {
        Command::Other
    }
}

fn begins(verb: &Vec<u8>, a: u8, b: u8, c: u8) -> (r: bool)
    ensures
        r == begins_with(verb@, a, b, c),
{
    verb.len() >= 3 && verb[0] == a && verb[1] == b && verb[2] == c
}

/// What a command asks for.
pub fn command_of(verb: &Vec<u8>, numbers: &Vec<u64>) -> (c: Command)
    ensures
        c == command_spec(verb@, numbers@),
{
    if begins(verb, 0x52, 0x45, 0x4c) {
        Command::Relax
    } else if begins(verb, 0x43, 0x59, 0x43) {
        if numbers.len() == 0 {
            return Command::Malformed;
        }
        let update_rate: u64 = if numbers.len() > 1 { numbers[1] } else { DEFAULT_UPDATE_RATE };
        let clear_rate: u64 = if numbers.len() > 2 { numbers[2] } else { DEFAULT_CLEAR_RATE };
        if update_rate == 0 || clear_rate == 0 {
            Command::Malformed
        } else {
            Command::Cycle { total_cycles: numbers[0], update_rate, clear_rate }
        }
    } else {
        Command::Other
    }
}

} // verus!
