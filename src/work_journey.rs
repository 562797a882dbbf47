//! Single clock-in to clock-out intervals.

use crate::time::Timestamp;
use vstd::prelude::*;

verus! {

/// Start and end, in seconds since the Unix epoch, of a closed journey.
pub type JourneyModel = (int, int);

/// Seconds between the start and the end of a journey.
pub open spec fn duration(j: JourneyModel) -> int {
    j.1 - j.0
}

#[derive(Clone, Copy, Debug, PartialEq, Eq, Structural)]
pub enum WorkJourneyError {
    /// The ending instant (second field) precedes the starting one (first field).
    InvalidClockBoundaries(Timestamp, Timestamp),
}

/// A journey that has been clocked into and not yet out of.
#[derive(Clone, Copy, Debug, PartialEq, Eq, Structural)]
pub struct IncompleteWorkJourney {
    starting_time: Timestamp,
    ending_time: Option<Timestamp>,
}

impl IncompleteWorkJourney {
    /// The instant the journey was opened at.
    pub closed spec fn start_time(self) -> Timestamp {
        self.starting_time
    }

    pub open spec fn start(self) -> int {
        self.start_time()@
    }

    /// The instant last offered as its end, if any.
    pub closed spec fn end_attempt(self) -> Option<int> {
        match self.ending_time {
            Some(t) => Some(t@),
            None => None,
        }
    }

    pub fn new(current_time: Timestamp) -> (r: IncompleteWorkJourney)
        ensures
            r.start() == current_time@,
            r.end_attempt() is None,
    {
        IncompleteWorkJourney { starting_time: current_time, ending_time: None }
    }

    pub fn starting_time(&self) -> (r: Timestamp)
        ensures
            r == self.start_time(),
    {
        self.starting_time
    }

    /// Records `current_time` as the end and closes the journey.
    pub fn end(&mut self, current_time: Timestamp) -> (r: Result<WorkJourney, WorkJourneyError>)
        ensures
            final(self).start() == old(self).start(),
            final(self).end_attempt() == Some(current_time@),
            r is Ok <==> current_time@ >= old(self).start(),
            r is Ok ==> r.unwrap()@ == (old(self).start(), current_time@),
            r is Err ==> r == Err::<WorkJourney, WorkJourneyError>(
                WorkJourneyError::InvalidClockBoundaries(old(self).start_time(), current_time),
            ),
    {
        self.ending_time = Some(current_time);
        WorkJourney::new(self.starting_time, current_time)
    }
}

/// A closed journey; its end never precedes its start.
#[derive(Clone, Copy, Debug, PartialEq, Eq, Structural)]
pub struct WorkJourney {
    starting_time: Timestamp,
    ending_time: Timestamp,
}

impl View for WorkJourney {
    type V = JourneyModel;

    closed spec fn view(&self) -> JourneyModel {
        (self.starting_time@, self.ending_time@)
    }
}

impl WorkJourney {
    #[verifier::type_invariant]
    spec fn ordered(self) -> bool {
        self.starting_time@ <= self.ending_time@
    }

    pub fn new(starting_time: Timestamp, ending_time: Timestamp) -> (r: Result<
        WorkJourney,
        WorkJourneyError,
    >)
        ensures
            r is Ok <==> ending_time@ >= starting_time@,
            r is Ok ==> r.unwrap()@ == (starting_time@, ending_time@),
            r is Err ==> r == Err::<WorkJourney, WorkJourneyError>(
                WorkJourneyError::InvalidClockBoundaries(starting_time, ending_time),
            ),
    {
        if WorkJourney::validate(starting_time, ending_time) {
            Ok(WorkJourney { starting_time, ending_time })
        } else {
            Err(WorkJourneyError::InvalidClockBoundaries(starting_time, ending_time))
        }
    }

    fn validate(starting_time: Timestamp, ending_time: Timestamp) -> (r: bool)
        ensures
            r == (ending_time@ >= starting_time@),
    {
        ending_time.unix_seconds() >= starting_time.unix_seconds()
    }

    /// Seconds between the start and the end.
    pub fn worked_hours(&self) -> (r: i64)
        ensures
            r == duration(self@),
            0 <= r <= crate::time::MAX_UNIX_SECONDS - crate::time::MIN_UNIX_SECONDS,
    {
        proof {
            use_type_invariant(self);
        }
        self.ending_time.unix_seconds() - self.starting_time.unix_seconds()
    }

    pub fn get_starting_time(&self) -> (r: Timestamp)
        ensures
            r@ == self@.0,
    {
        self.starting_time
    }

    pub fn get_ending_time(&self) -> (r: Timestamp)
        ensures
            r@ == self@.1,
    {
        self.ending_time
    }
}

} // verus!
