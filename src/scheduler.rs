//! Meetup time: local solar noon of the attesting day, shifted by the meetup's longitude.
use vstd::prelude::*;

verus! {

/// A timestamp or a duration, in milliseconds.
pub type Moment = u64;

/// One day in milliseconds.
pub const ONE_DAY: Moment = 86_400_000;

/// Milliseconds per degree of longitude: `ONE_DAY / 360`.
pub const MS_PER_DEGREE: i128 = 240_000;

/// The phase of the ceremony cycle.
#[allow(non_camel_case_types)]
#[derive(Clone, Copy, Debug, PartialEq, Eq, Structural)]
pub enum CeremonyPhaseType {
    REGISTERING,
    ASSIGNING,
    ATTESTING,
}

/// A position in degrees, each held as the raw bits of a fixed-point number with 32
/// fractional bits.
#[derive(Clone, Copy, Debug, PartialEq, Eq, Structural)]
pub struct Location {
    pub lat: i64,
    pub lon: i64,
}

/// Why no meetup time can be given.
#[derive(Clone, Copy, Debug, PartialEq, Eq, Structural)]
pub enum MeetupTimeError {
    /// Meetups are only scheduled once participants are assigned.
    RegisteringPhase,
    /// The attesting duration exceeds the next phase's timestamp, or the time falls outside
    /// the range of a timestamp.
    OutOfRange,
}

/// Why a participant has no meetup to go to.
#[derive(Clone, Copy, Debug, PartialEq, Eq, Structural)]
pub enum MeetupError {
    /// The participant's meetup index is zero: no meetup was assigned.
    NotAssigned,
    /// The assigned meetup has no location.
    NoLocation,
}

/// The location of meetup `m_index` among the currency's meetup locations, if there is one.
pub fn get_meetup_location(locations: &Vec<Location>, m_index: u64) -> (r: Option<Location>)
    ensures
        m_index < locations@.len() ==> r == Some(locations@[m_index as int]),
        m_index >= locations@.len() ==> r is None,
{
    if m_index < locations.len() as u64 {
        Some(locations[m_index as usize])
    } else {
        None
    }
}

/// The meetup a participant is assigned to: its index, which must not be zero, and its
/// location, which must be known.
pub fn meetup_assignment(m_index: u64, location: Option<Location>) -> (r: Result<
    (u64, Location),
    MeetupError,
>)
    ensures
        m_index == 0 ==> r == Err::<(u64, Location), MeetupError>(MeetupError::NotAssigned),
        m_index != 0 && location is None ==> r == Err::<(u64, Location), MeetupError>(
            MeetupError::NoLocation,
        ),
        m_index != 0 && location is Some ==> r == Ok::<(u64, Location), MeetupError>(
            (m_index, location.unwrap()),
        ),
{
    if m_index == 0 {
        return Err(MeetupError::NotAssigned);
    }
    match location {
        None => Err(MeetupError::NoLocation),
        Some(l) => Ok((m_index, l)),
    }
}

/// `2^32`: the raw bits of one degree.
pub open spec fn degree_one() -> int {
    0x1_0000_0000
}

/// The degree value of `bits`, rounded to the nearest integer, halves away from zero.
pub open spec fn round_degrees_spec(bits: i64) -> int {
    if bits >= 0 {
        (bits + degree_one() / 2) / degree_one()
    } else {
        -((-bits + degree_one() / 2) / degree_one())
    }
}

/// When the attesting phase starts (or started).
pub open spec fn attesting_start_spec(
    phase: CeremonyPhaseType,
    next_phase_timestamp: Moment,
    attesting_duration: Moment,
) -> Option<int> {
    match phase {
        CeremonyPhaseType::REGISTERING => None,
        CeremonyPhaseType::ASSIGNING => Some(next_phase_timestamp as int),
        CeremonyPhaseType::ATTESTING => if next_phase_timestamp >= attesting_duration {
            Some(next_phase_timestamp - attesting_duration)
        } else {
            None
        },
    }
}

/// The meetup instant: attesting start plus half a day, less the rounded longitude's share
/// of a day.
pub open spec fn meetup_time_spec(
    lon: i64,
    phase: CeremonyPhaseType,
    next_phase_timestamp: Moment,
    attesting_duration: Moment,
) -> Result<Moment, MeetupTimeError> {
    if phase == CeremonyPhaseType::REGISTERING {
        Err(MeetupTimeError::RegisteringPhase)
    } else {
        match attesting_start_spec(phase, next_phase_timestamp, attesting_duration) {
            None => Err(MeetupTimeError::OutOfRange),
            Some(start) => {
                let t = start + ONE_DAY / 2 - round_degrees_spec(lon) * MS_PER_DEGREE;
                if 0 <= t <= u64::MAX {
                    Ok(t as Moment)
                } else {
                    Err(MeetupTimeError::OutOfRange)
                }
            },
        }
    }
}

/// The longitude (or latitude) in whole degrees, rounded halves away from zero.
pub fn round_degrees(bits: i64) -> (r: i64)
    ensures
        r == round_degrees_spec(bits),
{
    let b = bits as i128;
    let one: i128 = 0x1_0000_0000;
    if b >= 0 {
        ((b + one / 2) / one) as i64
    } else {
        let q = (-b + one / 2) / one;
        assert(q <= 0x8000_0000) by (nonlinear_arith)
            requires
                q as int == (-b as int + 0x8000_0000) / 0x1_0000_0000,
                -b <= 0x8000_0000_0000_0000,
        ;
        (-q) as i64
    }
}

/// The meetup time for a meetup at longitude `lon` (raw fixed-point bits).
pub fn get_meetup_time(
    lon: i64,
    phase: CeremonyPhaseType,
    next_phase_timestamp: Moment,
    attesting_duration: Moment,
) -> (r: Result<Moment, MeetupTimeError>)
    ensures
        r == meetup_time_spec(lon, phase, next_phase_timestamp, attesting_duration),
{
    let attesting_start: Moment = match phase {
        CeremonyPhaseType::REGISTERING => {
            return Err(MeetupTimeError::RegisteringPhase);
        },
        CeremonyPhaseType::ASSIGNING => next_phase_timestamp,
        CeremonyPhaseType::ATTESTING => {
            if next_phase_timestamp < attesting_duration {
                return Err(MeetupTimeError::OutOfRange);
            }
            next_phase_timestamp - attesting_duration
        },
    };
    let mlon = round_degrees(lon) as i128;
    assert(-0x8000_0000 <= mlon <= 0x8000_0000) by {
        let one = degree_one();
        if lon >= 0 {
            assert((lon + one / 2) / one <= 0x8000_0000) by (nonlinear_arith)
                requires
                    lon <= 0x7fff_ffff_ffff_ffff,
                    one == 0x1_0000_0000,
            ;
        } else {
            assert((-lon + one / 2) / one <= 0x8000_0000) by (nonlinear_arith)
                requires
                    -lon <= 0x8000_0000_0000_0000,
                    one == 0x1_0000_0000,
            ;
        }
    }
    let t: i128 = attesting_start as i128 + (ONE_DAY / 2) as i128 - mlon * MS_PER_DEGREE;
    if t < 0 || t > u64::MAX as i128 {
        Err(MeetupTimeError::OutOfRange)
    } else {
        Ok(t as Moment)
    }
}

/// Switching between the assigning and attesting phase moves the attesting start by exactly
/// the attesting duration, and longitude zero puts the meetup half a day after it.
pub proof fn lemma_meetup_time_phases(
    next_phase_timestamp: Moment,
    attesting_duration: Moment,
    phase: CeremonyPhaseType,
)
    requires
        next_phase_timestamp >= attesting_duration,
    ensures
        attesting_start_spec(CeremonyPhaseType::ASSIGNING, next_phase_timestamp, attesting_duration)
            == Some(
            attesting_start_spec(
                CeremonyPhaseType::ATTESTING,
                next_phase_timestamp,
                attesting_duration,
            ).unwrap() + attesting_duration,
        ),
        phase != CeremonyPhaseType::REGISTERING && next_phase_timestamp + ONE_DAY / 2
            <= u64::MAX ==> meetup_time_spec(0, phase, next_phase_timestamp, attesting_duration)
            == Ok::<Moment, MeetupTimeError>(
            (attesting_start_spec(phase, next_phase_timestamp, attesting_duration).unwrap()
                + ONE_DAY / 2) as Moment,
        ),
{
}

} // verus!
