//! The post and the values around it that synchronisation reads.
use vstd::prelude::*;
use crate::metadata::Metadata;
use crate::github_record::GithubRecord;

verus! {

/// A point in time, as seconds and nanoseconds since the Unix epoch (UTC).
#[derive(Clone, Copy, Debug, PartialEq, Eq, Structural)]
pub struct Timestamp {
    pub secs: i64,
    pub nanos: u32,
}

/// Whether `a` is earlier than `b`.
pub open spec fn earlier(a: Timestamp, b: Timestamp) -> bool {
    a.secs < b.secs || (a.secs == b.secs && a.nanos < b.nanos)
}

/// The order of two points in time.
#[derive(Clone, Copy, Debug, PartialEq, Eq, Structural)]
pub enum TimeOrder {
    Less,
    Equal,
    Greater,
}

impl Timestamp {
    /// How `self` stands to `other` in time.
    pub fn compare(&self, other: &Timestamp) -> (res: TimeOrder)
        ensures
            res == TimeOrder::Less <==> earlier(*self, *other),
            res == TimeOrder::Equal <==> *self == *other,
            res == TimeOrder::Greater <==> earlier(*other, *self),
    {
        if self.secs < other.secs || (self.secs == other.secs && self.nanos < other.nanos) {
            TimeOrder::Less
        } else if self.secs == other.secs && self.nanos == other.nanos {
            TimeOrder::Equal
        } else {
            TimeOrder::Greater
        }
    }
}

/// The platforms a post is synchronised with.
#[derive(Clone, Copy, Debug, PartialEq, Eq, Structural)]
pub enum Platform {
    Github,
}

/// A version of a post, as far as synchronisation reads it.
pub struct Post {
    pub post_id: i64,
    pub title: String,
    pub metadata: Metadata,
    pub content: String,
    pub version: String,
    pub create_time: Timestamp,
}

/// The latest synchronisation record of a post on one platform.
pub enum SyncRecord {
    Github(GithubRecord),
    /// A record of a platform other than GitHub.
    Other,
}

} // verus!
