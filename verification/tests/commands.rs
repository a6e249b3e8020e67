use dem_engine::simulation::commands::{command_of, Command, DEFAULT_CLEAR_RATE, DEFAULT_UPDATE_RATE};

fn command(verb: &str, numbers: &[u64]) -> Command {
    command_of(&verb.as_bytes().to_vec(), &numbers.to_vec())
}

#[test]
fn the_first_three_letters_of_the_verb_count() {
    assert_eq!(command("REL", &[]), Command::Relax);
    assert_eq!(command("RELAX", &[7]), Command::Relax);
    assert_eq!(command("RE", &[]), Command::Other);
    assert_eq!(command("rel", &[]), Command::Other);
    assert_eq!(command("", &[]), Command::Other);
    assert_eq!(command("MAT", &[1, 2]), Command::Other);
}

#[test]
fn cycle_rates_have_defaults() {
    assert_eq!(
        command("CYCLE", &[100]),
        Command::Cycle { total_cycles: 100, update_rate: DEFAULT_UPDATE_RATE, clear_rate: DEFAULT_CLEAR_RATE }
    );
    assert_eq!((DEFAULT_UPDATE_RATE, DEFAULT_CLEAR_RATE), (2500, 75000));
    assert_eq!(command("CYC", &[100, 10]), Command::Cycle { total_cycles: 100, update_rate: 10, clear_rate: 75000 });
    assert_eq!(command("CYC", &[0, 10, 20, 30]), Command::Cycle { total_cycles: 0, update_rate: 10, clear_rate: 20 });
}

#[test]
fn a_cycle_without_steps_or_with_a_rate_of_zero_is_malformed() {
    assert_eq!(command("CYC", &[]), Command::Malformed);
    assert_eq!(command("CYC", &[100, 0]), Command::Malformed);
    assert_eq!(command("CYC", &[100, 5, 0]), Command::Malformed);
}
