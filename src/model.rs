use vstd::prelude::*;

use crate::maps::{entries, parse_map_table, parse_table, RegionEntry};

verus! {

/// One mapped region of a process: `[start, end)` with its permissions and the
/// name of what is mapped there (empty for an anonymous region). Regions with
/// `should_search` unset stay listed but are left out of scans.
#[derive(Clone, Debug)]
pub struct MemoryMap {
    pub start: usize,
    pub end: usize,
    pub perms: String,
    pub name: String,
    pub should_search: bool,
}

impl MemoryMap {
    /// A blank region record, searched by default.
    pub fn new() -> (r: MemoryMap)
        ensures
            r.start == 0,
            r.end == 0,
            r.perms@ == Seq::<char>::empty(),
            r.name@ == Seq::<char>::empty(),
            r.should_search,
    {
        MemoryMap {
            start: 0,
            end: 0,
            perms: String::new(),
            name: String::new(),
            should_search: true,
        }
    }

    /// What the region table said of this region.
    pub open spec fn entry(&self) -> RegionEntry {
        RegionEntry {
            start: self.start as nat,
            end: self.end as nat,
            perms: self.perms@,
            name: self.name@,
        }
    }
}

/// One occurrence of a searched pattern: the absolute range `[start, end)`,
/// the bytes read there (`raw`), their display form (`value`), and the index,
/// in the task's region list, of the region it lies in.
#[derive(Clone, Debug)]
pub struct SearchLocation {
    pub start: usize,
    pub end: usize,
    pub value: String,
    pub raw: Vec<u8>,
    pub region: usize,
}

impl SearchLocation {
    /// A blank location record.
    pub fn new() -> (r: SearchLocation)
        ensures
            r.start == 0,
            r.end == 0,
            r.value@ == Seq::<char>::empty(),
            r.raw@ == Seq::<u8>::empty(),
            r.region == 0,
    {
        SearchLocation { start: 0, end: 0, value: String::new(), raw: Vec::new(), region: 0 }
    }
}

/// The region list of the selected task, in the order of its region table.
#[derive(Debug)]
pub struct TaskMemory {
    pub maps: Vec<MemoryMap>,
}

impl TaskMemory {
    /// No regions yet.
    pub fn new() -> (r: TaskMemory)
        ensures
            r.maps@.len() == 0,
    {
        TaskMemory { maps: Vec::new() }
    }

    /// Replaces the region list with the regions of the task's region table,
    /// or with none where the table could not be read: a list from an
    /// earlier task is never kept.
    pub fn populate_info(&mut self, table: Option<&[u8]>)
        ensures
            match table {
                Some(t) => entries(final(self).maps@) == parse_table(t@),
                None => final(self).maps@.len() == 0,
            },
            forall|k: int| 0 <= k < final(self).maps@.len() ==> (#[trigger] final(self).maps@[k]).should_search,
    {
        self.maps = match table {
            Some(t) => parse_map_table(t),
            None => Vec::new(),
        };
    }
}

/// A location lies inside the region of `maps` that it names, and spans at
/// least one byte.
pub open spec fn location_in(maps: Seq<MemoryMap>, loc: SearchLocation) -> bool {
    &&& loc.region < maps.len()
    &&& maps[loc.region as int].start <= loc.start
    &&& loc.start < loc.end
    &&& loc.end <= maps[loc.region as int].end
}

} // verus!
