//! Where snapshots go: one append-only file per hour under the worker's
//! directory, one line per snapshot.

use crate::text::{
    append_decimal,
    decimal,
    lemma_decimal_injective,
    trim_trailing_newlines,
    without_trailing_newlines,
};
use vstd::prelude::*;

verus! {

/// Seconds in one hour, the span of one file.
pub const SECONDS_PER_HOUR: i64 = 3600;

/// The start of the hour that `timestamp` (seconds since the epoch) falls in.
pub open spec fn hour_bucket(timestamp: int) -> int {
    timestamp / 3600 * 3600
}

/// The file that holds the snapshots of the hour starting at `bucket`.
pub open spec fn bucket_path(directory: Seq<char>, bucket: int) -> Seq<char> {
    directory + "/"@ + decimal(bucket) + ".json"@
}

/// The line stored for a snapshot: the capture time and the payload as the
/// exchange sent it, less the line breaks at its end.
pub open spec fn envelope(timestamp: int, payload: Seq<char>) -> Seq<char> {
    "{\"time\": "@ + decimal(timestamp) + ", \"response\": "@ + without_trailing_newlines(payload)
        + "}"@
}

/// The files of two different hours are different files.
pub proof fn lemma_bucket_paths_differ(directory: Seq<char>, first: int, second: int)
    requires
        bucket_path(directory, first) == bucket_path(directory, second),
    ensures
        first == second,
{
    let head = directory + "/"@;
    let tail = ".json"@;
    let one = decimal(first);
    let other = decimal(second);
    assert(bucket_path(directory, first).len() == head.len() + one.len() + tail.len());
    assert(bucket_path(directory, second).len() == head.len() + other.len() + tail.len());
    assert(one =~= other) by {
        assert forall|k: int| 0 <= k < one.len() implies one[k] == other[k] by {
            assert(bucket_path(directory, first)[head.len() + k] == one[k]);
            assert(bucket_path(directory, second)[head.len() + k] == other[k]);
        }
    }
    lemma_decimal_injective(first, second);
}

/// What a worker remembers about its files.
pub struct Rotation {
    /// The worker's directory.
    pub directory: Seq<char>,
    /// The file that the next snapshot is appended to.
    pub current_file_path: Seq<char>,
    /// The hour of that file; zero until the first file is chosen.
    pub last_bucket_timestamp: int,
}

impl Rotation {
    /// The state of a worker that has stored nothing yet.
    pub open spec fn fresh(directory: Seq<char>) -> Rotation {
        Rotation { directory, current_file_path: directory, last_bucket_timestamp: 0 }
    }

    /// The current file is the file of the last hour, where one was chosen.
    pub open spec fn wf(self) -> bool {
        &&& 0 <= self.last_bucket_timestamp
        &&& self.last_bucket_timestamp % 3600 == 0
        &&& self.current_file_path == if self.last_bucket_timestamp == 0 {
            self.directory
        } else {
            bucket_path(self.directory, self.last_bucket_timestamp)
        }
    }

    /// Whether a snapshot captured at `timestamp` opens a new file.
    pub open spec fn rotates(self, timestamp: int) -> bool {
        hour_bucket(timestamp) > self.last_bucket_timestamp
    }

    /// The state after a snapshot captured at `timestamp`: a later hour than
    /// the last one moves on to that hour's file, anything else stays.
    pub open spec fn place(self, timestamp: int) -> Rotation {
        if self.rotates(timestamp) {
            Rotation {
                directory: self.directory,
                current_file_path: bucket_path(self.directory, hour_bucket(timestamp)),
                last_bucket_timestamp: hour_bucket(timestamp),
            }
        } else {
            self
        }
    }

    /// The state after snapshots captured at `timestamps`, in that order.
    pub open spec fn place_all(self, timestamps: Seq<int>) -> Rotation
        decreases timestamps.len(),
    {
        if timestamps.len() == 0 {
            self
        } else {
            self.place_all(timestamps.drop_last()).place(timestamps.last())
        }
    }

    /// The file that receives snapshot number `index` of `timestamps`.
    pub open spec fn file_of(self, timestamps: Seq<int>, index: int) -> Seq<char> {
        self.place_all(timestamps.take(index + 1)).current_file_path
    }
}

/// Placing a snapshot keeps the state well formed.
pub proof fn lemma_place_keeps_wf(state: Rotation, timestamp: int)
    requires
        state.wf(),
    ensures
        state.place(timestamp).wf(),
        state.place(timestamp).directory == state.directory,
        state.place(timestamp).last_bucket_timestamp >= state.last_bucket_timestamp,
{
}

/// With a clock that does not run backwards and a first capture at least one
/// hour after the epoch, every snapshot is appended to the file of its own
/// hour.
pub proof fn lemma_snapshot_lands_in_its_hour(
    directory: Seq<char>,
    timestamps: Seq<int>,
    index: int,
)
    requires
        0 <= index < timestamps.len(),
        timestamps[0] >= 3600,
        forall|i: int, j: int| 0 <= i <= j < timestamps.len() ==> timestamps[i] <= timestamps[j],
    ensures
        Rotation::fresh(directory).file_of(timestamps, index) == bucket_path(
            directory,
            hour_bucket(timestamps[index]),
        ),
{
    lemma_last_bucket_after(directory, timestamps.take(index + 1));
    let seen = timestamps.take(index + 1);
    assert(seen.last() == timestamps[index]);
}

/// After a run of captures as above, the current file is the file of the hour
/// of the last capture.
proof fn lemma_last_bucket_after(directory: Seq<char>, timestamps: Seq<int>)
    requires
        timestamps.len() > 0,
        timestamps[0] >= 3600,
        forall|i: int, j: int| 0 <= i <= j < timestamps.len() ==> timestamps[i] <= timestamps[j],
    ensures
        Rotation::fresh(directory).place_all(timestamps).directory == directory,
        Rotation::fresh(directory).place_all(timestamps).last_bucket_timestamp == hour_bucket(
            timestamps.last(),
        ),
        Rotation::fresh(directory).place_all(timestamps).current_file_path == bucket_path(
            directory,
            hour_bucket(timestamps.last()),
        ),
    decreases timestamps.len(),
{
    let start = Rotation::fresh(directory);
    let earlier = timestamps.drop_last();
    if earlier.len() == 0 {
        assert(start.place_all(earlier) == start);
    } else {
        assert(earlier[0] == timestamps[0]);
        assert(earlier.last() == timestamps[timestamps.len() - 2]);
        lemma_last_bucket_after(directory, earlier);
    }
}

/// The file state of one worker.
pub struct RotationState {
    directory: String,
    current_file_path: String,
    last_bucket_timestamp: i64,
}

impl View for RotationState {
    type V = Rotation;

    closed spec fn view(&self) -> Rotation {
        Rotation {
            directory: self.directory@,
            current_file_path: self.current_file_path@,
            last_bucket_timestamp: self.last_bucket_timestamp as int,
        }
    }
}

impl RotationState {
    /// The files of a worker are in order at all times.
    #[verifier::type_invariant]
    pub open spec fn inv(self) -> bool {
        self@.wf()
    }

    /// The state of a worker that stores under `directory` and has stored
    /// nothing yet.
    pub fn new(directory: String) -> (state: RotationState)
        ensures
            state@ == Rotation::fresh(directory@),
            state@.wf(),
    {
        let current_file_path = directory.clone();
        RotationState { directory, current_file_path, last_bucket_timestamp: 0 }
    }

    /// The worker's directory.
    pub fn directory(&self) -> (directory: &str)
        ensures
            directory@ == self@.directory,
    {
        self.directory.as_str()
    }

    /// The file that the next snapshot is appended to.
    pub fn current_file_path(&self) -> (path: &str)
        ensures
            path@ == self@.current_file_path,
    {
        self.current_file_path.as_str()
    }

    /// The hour of the current file; zero until the first file is chosen.
    pub fn last_bucket_timestamp(&self) -> (bucket: i64)
        ensures
            bucket == self@.last_bucket_timestamp,
    {
        self.last_bucket_timestamp
    }

    /// The state that a snapshot captured at `timestamp` moves on to, where
    /// it opens a new file.
    pub fn rotated(&self, timestamp: i64) -> (next: Option<RotationState>)
        ensures
            match next {
                Some(next) => {
                    &&& self@.rotates(timestamp as int)
                    &&& next@ == self@.place(timestamp as int)
                    &&& next@.wf()
                },
                None => !self@.rotates(timestamp as int),
            },
    {
        proof {
            use_type_invariant(self);
        }
        if timestamp < SECONDS_PER_HOUR {
            return None;
        }
        let bucket: i64 = timestamp / SECONDS_PER_HOUR * SECONDS_PER_HOUR;
        if bucket <= self.last_bucket_timestamp {
            return None;
        }
        let mut path = self.directory.clone();
        path.append("/");
        append_decimal(&mut path, bucket);
        path.append(".json");
        Some(
            RotationState {
                directory: self.directory.clone(),
                current_file_path: path,
                last_bucket_timestamp: bucket,
            },
        )
    }

    /// Takes note of a snapshot captured at `timestamp`, and says whether it
    /// opens a new file.
    pub fn place(&mut self, timestamp: i64) -> (rotated: bool)
        ensures
            final(self)@ == old(self)@.place(timestamp as int),
            final(self)@.wf(),
            rotated == old(self)@.rotates(timestamp as int),
    {
        proof {
            use_type_invariant(&*self);
        }
        match self.rotated(timestamp) {
            Some(next) => {
                *self = next;
                true
            },
            None => false,
        }
    }
}

/// The line stored for a snapshot captured at `timestamp`.
pub fn envelope_line(timestamp: i64, payload: &str) -> (line: String)
    ensures
        line@ == envelope(timestamp as int, payload@),
{
    let mut line = String::from_str("{\"time\": ");
    append_decimal(&mut line, timestamp);
    line.append(", \"response\": ");
    line.append(trim_trailing_newlines(payload));
    line.append("}");
    assert(line@ =~= envelope(timestamp as int, payload@));
    line
}

} // verus!
