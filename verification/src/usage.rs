//! Daily usage from the stored minute records, and how a round changes the
//! device's session of the day.

use vstd::prelude::*;
use crate::activity::SessionUpsert;
use crate::models::VideoWindow;
use crate::text::{seq_starts_with, str_eq, str_starts_with};

verus! {

/// What one stored minute counts toward: (active, video, game). An active
/// minute is a game minute when its activity starts with `game`, a video
/// minute when its activity is anything but `none` or `other`.
pub open spec fn minute_counts(status: Seq<char>, activity: Seq<char>) -> (int, int, int) {
    if status == "ACTIVE"@ {
        if seq_starts_with(activity, "game"@) {
            (1, 0, 1)
        } else if activity != "none"@ && activity != "other"@ {
            (1, 1, 0)
        } else {
            (1, 0, 0)
        }
    } else {
        (0, 0, 0)
    }
}

/// The (active, video, game) minutes of a day's records.
pub open spec fn tally(ws: Seq<VideoWindow>) -> (int, int, int)
    decreases ws.len(),
{
    if ws.len() == 0 {
        (0, 0, 0)
    } else {
        let prev = tally(ws.drop_last());
        let c = minute_counts(ws.last().video_status@, ws.last().activity_type@);
        (prev.0 + c.0, prev.1 + c.1, prev.2 + c.2)
    }
}

/// Video and game minutes are active minutes, and no count exceeds the
/// number of records.
pub proof fn lemma_tally_bounds(ws: Seq<VideoWindow>)
    ensures
        0 <= tally(ws).1,
        0 <= tally(ws).2,
        tally(ws).1 + tally(ws).2 <= tally(ws).0,
        tally(ws).0 <= ws.len(),
    decreases ws.len(),
{
    if ws.len() > 0 {
        lemma_tally_bounds(ws.drop_last());
    }
}

/// The active, video and game minutes of one device's records of one day.
pub fn get_daily_active_minutes(windows: &[VideoWindow]) -> (r: (i64, i64, i64))
    requires
        windows@.len() <= i64::MAX,
    ensures
        (r.0 as int, r.1 as int, r.2 as int) == tally(windows@),
{
    let mut active: i64 = 0;
    let mut video: i64 = 0;
    let mut game: i64 = 0;
    let mut i: usize = 0;
    while i < windows.len()
        invariant
            i <= windows@.len(),
            windows@.len() <= i64::MAX,
            (active as int, video as int, game as int) == tally(windows@.take(i as int)),
        decreases windows.len() - i,
    {
        proof {
            assert(windows@.take(i + 1).drop_last() =~= windows@.take(i as int));
            lemma_tally_bounds(windows@.take(i as int));
        }
        let w = &windows[i];
        if str_eq(w.video_status.as_str(), "ACTIVE") {
            active = active + 1;
            if str_starts_with(w.activity_type.as_str(), "game") {
                game = game + 1;
            } else if !str_eq(w.activity_type.as_str(), "none") && !str_eq(
                w.activity_type.as_str(),
                "other",
            ) {
                video = video + 1;
            }
        }
        i = i + 1;
    }
    assert(windows@.take(windows@.len() as int) =~= windows@);
    (active, video, game)
}

/// What to do to the stored sessions.
#[derive(Debug, Clone, Copy, PartialEq, Eq)]
pub enum SessionAction {
    /// Move the end of the open session with this id to the minute.
    Extend(i64),
    /// Open a new session at the minute.
    Open,
    /// Close any open session of the device and day.
    Close,
}

/// How a round changes the device's session of the day: an active minute
/// extends the open session (`open_session` is its id) or opens one; any
/// other minute closes it.
pub fn plan_session(upsert: &SessionUpsert, open_session: Option<i64>) -> (r: SessionAction)
    ensures
        r == if upsert.status@ == "ACTIVE"@ {
            match open_session {
                Some(id) => SessionAction::Extend(id),
                None => SessionAction::Open,
            }
        } else {
            SessionAction::Close
        },
{
    if str_eq(upsert.status.as_str(), "ACTIVE") {
        match open_session {
            Some(id) => SessionAction::Extend(id),
            None => SessionAction::Open,
        }
    } else {
        SessionAction::Close
    }
}

} // verus!
