//! The persistence settings, and the decisions that the background
//! services take from them.

use vstd::prelude::*;

verus! {

/// The periodic full flush.
#[derive(PartialEq, Eq, Structural, Clone, Copy, Debug)]
pub enum BGSave {
    Disabled,
    /// Flush every so many seconds.
    Enabled(u64),
}

impl BGSave {
    pub fn is_disabled(&self) -> (r: bool)
        ensures
            r == (*self is Disabled),
    {
        match self {
            BGSave::Disabled => true,
            BGSave::Enabled(_) => false,
        }
    }
}

/// How often to take a snapshot, and how many to keep (0: all of them).
#[derive(PartialEq, Eq, Structural, Clone, Copy, Debug)]
pub struct SnapshotPref {
    pub every: u64,
    pub atmost: usize,
}

impl SnapshotPref {
    pub fn decompose(self) -> (r: (u64, usize))
        ensures
            r == (self.every, self.atmost),
    {
        (self.every, self.atmost)
    }
}

/// The rotating snapshot service.
#[derive(PartialEq, Eq, Structural, Clone, Copy, Debug)]
pub enum SnapshotConfig {
    Disabled,
    Enabled(SnapshotPref),
}

impl SnapshotConfig {
    pub fn is_enabled(&self) -> (r: bool)
        ensures
            r == (*self is Enabled),
    {
        match self {
            SnapshotConfig::Disabled => false,
            SnapshotConfig::Enabled(_) => true,
        }
    }
}

/// How many background services hold a reference to the shared state.
pub fn background_tasks(bgsave: BGSave, snapshot: SnapshotConfig) -> (r: usize)
    ensures
        r == (if bgsave is Enabled { 1usize } else { 0usize }) + (if snapshot is Enabled {
            1usize
        } else {
            0usize
        }),
{
    let a: usize = if bgsave.is_disabled() {
        0
    } else {
        1
    };
    let b: usize = if snapshot.is_enabled() {
        1
    } else {
        0
    };
    a + b
}

/// The reference count at which only the main handle and the background
/// services remain.
pub fn expected_strong_count(background_tasks: usize) -> (r: usize)
    requires
        background_tasks < usize::MAX,
    ensures
        r == background_tasks + 1,
{
    background_tasks + 1
}

/// Whether dropping a handle must shut the table down: only the main handle
/// and the background services are left.
pub fn is_last_user(strong_count: usize, background_tasks: usize) -> (r: bool)
    ensures
        r == (strong_count == background_tasks + 1),
{
    background_tasks < usize::MAX && strong_count == background_tasks + 1
}

/// What a background service does next.
#[derive(PartialEq, Eq, Structural, Clone, Copy, Debug)]
pub enum ServiceStep {
    /// Disabled: wait for the notifier once, then stop.
    ParkThenExit,
    /// Do one cycle of work, then wait for the timer or the notifier.
    WorkThenWait,
    /// The table is shutting down: stop.
    Exit,
}

/// The next step of a background service, from whether it is enabled and
/// whether the table is shutting down.
pub fn service_step(enabled: bool, terminating: bool) -> (r: ServiceStep)
    ensures
        !enabled ==> r == ServiceStep::ParkThenExit,
        enabled && terminating ==> r == ServiceStep::Exit,
        enabled && !terminating ==> r == ServiceStep::WorkThenWait,
{
    if !enabled {
        ServiceStep::ParkThenExit
    } else if terminating {
        ServiceStep::Exit
    } else {
        ServiceStep::WorkThenWait
    }
}

} // verus!
