use crate::backend::{
    first_second, hms_offset, holds, holds_timestamp, last_second, offset_seconds, shows,
    shows_at,
};
use vstd::prelude::*;

verus! {

/// The whole hours of an offset of so many minutes, rounded towards zero.
pub open spec fn offset_hours(minutes: int) -> int {
    if minutes >= 0 {
        minutes / 60
    } else {
        -((-minutes) / 60)
    }
}

/// The minutes of an offset beyond its whole hours, with the sign of the
/// offset.
pub open spec fn offset_odd_minutes(minutes: int) -> int {
    if minutes >= 0 {
        minutes % 60
    } else {
        -((-minutes) % 60)
    }
}

/// The hours and minutes of an offset of so many minutes, where the hours
/// fit into eight bits.
pub open spec fn offset_parts(minutes: int) -> Option<(i8, i8)> {
    if -128 <= offset_hours(minutes) <= 127 {
        Some((offset_hours(minutes) as i8, offset_odd_minutes(minutes) as i8))
    } else {
        None
    }
}

/// Splits an offset in minutes into hours and minutes of the same sign.
/// Nothing comes back where the hours do not fit into eight bits.
pub fn split_offset(minutes: i32) -> (parts: Option<(i8, i8)>)
    ensures
        parts == offset_parts(minutes as int),
        parts matches Some((h, m)) ==> 60 * h + m == minutes && -59 <= m <= 59,
{
    let wide: i64 = minutes as i64;
    let (hours, odd): (i64, i64) = if wide >= 0 {
        (wide / 60, wide % 60)
    } else {
        (-((-wide) / 60), -((-wide) % 60))
    };
    if -128 <= hours && hours <= 127 {
        Some((hours as i8, odd as i8))
    } else {
        None
    }
}

/// The moment of a commit: an instant, in seconds after the epoch, and the
/// offset from UTC, in seconds, at which it is shown.
#[derive(Clone, Copy, Debug, PartialEq, Eq, Structural)]
pub struct CommitMoment {
    pub seconds: i64,
    pub offset_seconds: i32,
}

/// The offset of so many minutes as the moment's offset, in seconds: what
/// its hours and minutes make, or none where they cannot be had.
pub open spec fn settled_offset(offset_minutes: i32) -> i32 {
    match offset_parts(offset_minutes as int) {
        Some((hours, minutes)) => match hms_offset(hours, minutes) {
            Some(seconds) => seconds,
            None => 0,
        },
        None => 0,
    }
}

/// The offset of a commit's time is fixed by the minutes that the backend
/// gives: up to twenty-five hours and fifty-nine minutes either way it is
/// that many minutes, in seconds, and beyond that it is none.
pub proof fn lemma_settled_offset(offset_minutes: i32)
    ensures
        settled_offset(offset_minutes) == if -1559 <= offset_minutes <= 1559 {
            60 * offset_minutes
        } else {
            0
        },
{
    let m = offset_minutes as int;
    let h = offset_hours(m);
    let odd = offset_odd_minutes(m);
    assert(60 * h + odd == m && -59 <= odd <= 59) by {
        if m >= 0 {
            assert(m == 60 * (m / 60) + m % 60);
        } else {
            assert(-m == 60 * ((-m) / 60) + (-m) % 60);
        }
    }
    assert(h > 0 ==> odd >= 0);
    assert(h < 0 ==> odd <= 0);
}

/// The moment of a commit made so many seconds after the epoch at the
/// offset of so many minutes. An offset that cannot be had counts as UTC, a
/// number of seconds that cannot be held counts as the epoch, and a moment
/// that cannot be shown at the offset stays in UTC.
pub open spec fn commit_moment_of(seconds: i64, offset_minutes: i32) -> CommitMoment {
    let offset = settled_offset(offset_minutes);
    let at = if holds_timestamp(seconds) {
        seconds
    } else {
        0
    };
    if shows_at(at, offset) {
        CommitMoment { seconds: at, offset_seconds: offset }
    } else {
        CommitMoment { seconds: at, offset_seconds: 0 }
    }
}

/// The moment of a commit, written out. Its instant is the seconds where
/// they lie in the years from -9999 to 9999, and the epoch otherwise. Its
/// offset is that of the minutes, where they are at most twenty-five hours
/// and fifty-nine either way and the local time at the offset lies in those
/// years too, and none otherwise.
pub proof fn lemma_commit_moment(seconds: i64, offset_minutes: i32)
    ensures
        commit_moment_of(seconds, offset_minutes).seconds == if first_second() <= seconds
            <= last_second() {
            seconds
        } else {
            0
        },
        commit_moment_of(seconds, offset_minutes).offset_seconds == if -1559 <= offset_minutes
            <= 1559 && first_second() <= commit_moment_of(seconds, offset_minutes).seconds + 60
            * offset_minutes <= last_second() {
            60 * offset_minutes
        } else {
            0
        },
{
    lemma_settled_offset(offset_minutes);
}

/// The moment of a commit: so many seconds after the epoch, shown at the
/// offset of so many minutes. An offset that cannot be had counts as UTC, a
/// number of seconds that cannot be held counts as the epoch, and a moment
/// that cannot be shown at the offset stays in UTC.
pub fn commit_moment(seconds: i64, offset_minutes: i32) -> (moment: CommitMoment)
    ensures
        moment == commit_moment_of(seconds, offset_minutes),
{
    let offset: i32 = match split_offset(offset_minutes) {
        Some((hours, minutes)) => match offset_seconds(hours, minutes) {
            Some(offset) => offset,
            None => 0,
        },
        None => 0,
    };
    let at: i64 = if holds(seconds) {
        seconds
    } else {
        0
    };
    if shows(at, offset) {
        CommitMoment { seconds: at, offset_seconds: offset }
    } else {
        CommitMoment { seconds: at, offset_seconds: 0 }
    }
}

} // verus!
