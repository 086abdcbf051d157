use vstd::prelude::*;

verus! {

/// Where a configuration file lives, which decides its scope.
#[derive(Debug, Clone, Copy, PartialEq, Eq, Structural)]
pub enum EntryLocation {
    System,
    Global,
    User,
}

/// Whether a configured job runs as an agent or as a daemon.
#[derive(Debug, Clone, Copy, PartialEq, Eq, Structural)]
pub enum EntryType {
    Agent,
    Daemon,
}

/// A bitmask that classifies an entry: where it is configured, what kind
/// of job it is and whether it is loaded.
#[derive(Debug, Clone, Copy, PartialEq, Eq, Structural)]
pub struct JobTypeFilter {
    pub bits: u32,
}

pub const SYSTEM_BIT: u32 = 2;
pub const GLOBAL_BIT: u32 = 4;
pub const USER_BIT: u32 = 8;
pub const AGENT_BIT: u32 = 16;
pub const DAEMON_BIT: u32 = 32;
pub const LOADED_BIT: u32 = 64;

impl JobTypeFilter {
    pub open spec fn spec_contains(self, other: JobTypeFilter) -> bool {
        self.bits & other.bits == other.bits
    }

    pub open spec fn spec_intersects(self, other: JobTypeFilter) -> bool {
        self.bits & other.bits != 0
    }

    /// The mask with no bit set; as a filter it matches every entry.
    pub fn empty() -> (r: JobTypeFilter)
        ensures
            r.bits == 0,
    {
        JobTypeFilter { bits: 0 }
    }

    /// The mask of loaded entries.
    pub fn loaded() -> (r: JobTypeFilter)
        ensures
            r.bits == LOADED_BIT,
    {
        JobTypeFilter { bits: LOADED_BIT }
    }

    pub fn is_empty(&self) -> (r: bool)
        ensures
            r == (self.bits == 0),
    {
        self.bits == 0
    }

    /// Whether every bit of `other` is set here.
    pub fn contains(&self, other: JobTypeFilter) -> (r: bool)
        ensures
            r == self.spec_contains(other),
    {
        self.bits & other.bits == other.bits
    }

    /// Whether a bit of `other` is set here.
    pub fn intersects(&self, other: JobTypeFilter) -> (r: bool)
        ensures
            r == self.spec_intersects(other),
    {
        self.bits & other.bits != 0
    }
}

/// A job's configuration file as the configuration store knows it.
#[derive(Debug, PartialEq, Eq)]
pub struct LaunchdPlist {
    pub label: String,
    pub plist_path: String,
    pub entry_location: EntryLocation,
    pub entry_type: EntryType,
}

impl Clone for LaunchdPlist {
    fn clone(&self) -> (r: Self)
        ensures
            r == *self,
    {
        LaunchdPlist {
            label: self.label.clone(),
            plist_path: self.plist_path.clone(),
            entry_location: self.entry_location,
            entry_type: self.entry_type,
        }
    }
}

/// The classification bits of a configured job.
pub open spec fn job_type_bits(location: EntryLocation, kind: EntryType, is_loaded: bool) -> u32 {
    let l: u32 = match location {
        EntryLocation::System => SYSTEM_BIT,
        EntryLocation::Global => GLOBAL_BIT,
        EntryLocation::User => USER_BIT,
    };
    let k: u32 = match kind {
        EntryType::Agent => AGENT_BIT,
        EntryType::Daemon => DAEMON_BIT,
    };
    (l + k + if is_loaded { LOADED_BIT } else { 0u32 }) as u32
}

impl LaunchdPlist {
    /// The job type mask of this configured job, loaded or not.
    pub fn job_type_filter(&self, is_loaded: bool) -> (r: JobTypeFilter)
        ensures
            r.bits == job_type_bits(self.entry_location, self.entry_type, is_loaded),
    {
        let l: u32 = match self.entry_location {
            EntryLocation::System => SYSTEM_BIT,
            EntryLocation::Global => GLOBAL_BIT,
            EntryLocation::User => USER_BIT,
        };
        let k: u32 = match self.entry_type {
            EntryType::Agent => AGENT_BIT,
            EntryType::Daemon => DAEMON_BIT,
        };
        let d: u32 = if is_loaded { LOADED_BIT } else { 0 };
        JobTypeFilter { bits: l + k + d }
    }
}

} // verus!
