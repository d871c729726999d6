use substratee_stf::scheduler::{get_meetup_time, round_degrees, CeremonyPhaseType, MeetupTimeError, ONE_DAY};

const DEG: i64 = 1 << 32;

#[test]
fn assigning_phase_meets_half_a_day_after_next_phase_at_longitude_zero() {
    assert_eq!(get_meetup_time(0, CeremonyPhaseType::ASSIGNING, 1_000_000_000, 86_400_000), Ok(1_000_000_000 + ONE_DAY / 2));
}

#[test]
fn attesting_phase_starts_one_duration_earlier() {
    let assigning = get_meetup_time(5 * DEG, CeremonyPhaseType::ASSIGNING, 1_000_000_000, 3_600_000).unwrap();
    let attesting = get_meetup_time(5 * DEG, CeremonyPhaseType::ATTESTING, 1_000_000_000, 3_600_000).unwrap();
    assert_eq!(assigning - attesting, 3_600_000);
}

#[test]
fn longitude_shifts_by_a_day_per_full_turn() {
    assert_eq!(get_meetup_time(10 * DEG, CeremonyPhaseType::ASSIGNING, 1_000_000_000, 0), Ok(1_000_000_000 + 43_200_000 - 2_400_000));
    assert_eq!(get_meetup_time(-90 * DEG, CeremonyPhaseType::ASSIGNING, 1_000_000_000, 0), Ok(1_000_000_000 + 43_200_000 + 21_600_000));
}

#[test]
fn longitude_is_rounded_halves_away_from_zero() {
    assert_eq!(round_degrees(10 * DEG + DEG / 2), 11);
    assert_eq!(round_degrees(10 * DEG + DEG / 2 - 1), 10);
    assert_eq!(round_degrees(-10 * DEG - DEG / 2), -11);
    assert_eq!(round_degrees(-10 * DEG - DEG / 2 + 1), -10);
    assert_eq!(round_degrees(i64::MIN), -(1i64 << 31));
}

#[test]
fn registering_phase_is_refused() {
    assert_eq!(get_meetup_time(0, CeremonyPhaseType::REGISTERING, 1_000_000_000, 0), Err(MeetupTimeError::RegisteringPhase));
}

#[test]
fn out_of_range_times_are_refused() {
    assert_eq!(get_meetup_time(180 * DEG, CeremonyPhaseType::ASSIGNING, 0, 0), Ok(0));
    assert_eq!(get_meetup_time(0, CeremonyPhaseType::ATTESTING, 10, 20), Err(MeetupTimeError::OutOfRange));
    assert_eq!(get_meetup_time(0, CeremonyPhaseType::ASSIGNING, u64::MAX, 0), Err(MeetupTimeError::OutOfRange));
    assert_eq!(get_meetup_time(181 * DEG, CeremonyPhaseType::ASSIGNING, 0, 0), Err(MeetupTimeError::OutOfRange));
}

use substratee_stf::scheduler::{get_meetup_location, meetup_assignment, Location, MeetupError};

#[test]
fn meetup_location_by_index() {
    let locs = vec![Location { lat: 1, lon: 2 }, Location { lat: 3, lon: 4 }];
    assert_eq!(get_meetup_location(&locs, 1), Some(Location { lat: 3, lon: 4 }));
    assert_eq!(get_meetup_location(&locs, 2), None);
    assert_eq!(get_meetup_location(&vec![], 0), None);
}

#[test]
fn meetup_assignment_checks() {
    let l = Location { lat: 1, lon: 2 };
    assert_eq!(meetup_assignment(0, Some(l)), Err(MeetupError::NotAssigned));
    assert_eq!(meetup_assignment(3, None), Err(MeetupError::NoLocation));
    assert_eq!(meetup_assignment(3, Some(l)), Ok((3, l)));
}
