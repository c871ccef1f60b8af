//! The resumable state of each image of a run.
use vstd::prelude::*;

verus! {

/// Where the download of one image stands.
#[derive(Debug, Clone, Copy, PartialEq, Eq, Structural)]
pub enum ItemStatus {
    Pending,
    Downloading,
    Completed,
    Failed,
}

/// A moment in UTC: whole seconds since the Unix epoch, and nanoseconds.
#[derive(Debug, Clone, Copy, PartialEq, Eq, Structural)]
pub struct Timestamp {
    pub seconds: i64,
    pub nanos: u32,
}

/// What is known of one image's download.
#[derive(Debug, Clone)]
pub struct ItemState {
    pub status: ItemStatus,
    pub downloaded_bytes: u64,
    pub total_bytes: Option<u64>,
    pub retries: u32,
    pub last_error: Option<String>,
    pub updated_at: Timestamp,
}

impl ItemState {
    /// A pending image with nothing downloaded, stamped with `now`.
    pub fn new(now: Timestamp) -> (r: ItemState)
        ensures
            r.status == ItemStatus::Pending,
            r.downloaded_bytes == 0,
            r.total_bytes is None,
            r.retries == 0,
            r.last_error is None,
            r.updated_at == now,
    {
        ItemState {
            status: ItemStatus::Pending,
            downloaded_bytes: 0,
            total_bytes: None,
            retries: 0,
            last_error: None,
            updated_at: now,
        }
    }
}

} // verus!
