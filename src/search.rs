use vstd::prelude::*;

use crate::model::{MemoryMap, SearchLocation};
use crate::text::{bytes_to_string, display_text};

verus! {

/// The start offsets of the non-overlapping occurrences of `needle` in `hay`,
/// leftmost first, looking from offset `pos` on.
pub open spec fn occurrences_from(hay: Seq<u8>, needle: Seq<u8>, pos: int) -> Seq<int>
    decreases hay.len() - pos,
{
    if needle.len() == 0 || pos < 0 || pos + needle.len() > hay.len() {
        Seq::empty()
    } else if hay.subrange(pos, pos + needle.len()) == needle {
        seq![pos] + occurrences_from(hay, needle, pos + needle.len())
    } else {
        occurrences_from(hay, needle, pos + 1)
    }
}

/// All non-overlapping occurrences of `needle` in `hay`, leftmost first.
pub open spec fn occurrences(hay: Seq<u8>, needle: Seq<u8>) -> Seq<int> {
    occurrences_from(hay, needle, 0)
}

/// Relies on memchr::memmem::find_iter: for a non-empty needle it yields the
/// start of each non-overlapping occurrence, searching on from the end of the
/// previous one.
#[verifier::external_body]
fn find_all(hay: &[u8], needle: &[u8]) -> (r: Vec<usize>)
    requires
        needle@.len() > 0,
    ensures
        r@.len() == occurrences(hay@, needle@).len(),
        forall|i: int| 0 <= i < r@.len() ==> r@[i] as int == #[trigger] occurrences(hay@, needle@)[i],
{
    memchr::memmem::find_iter(hay, needle).collect()
}

/// The offsets, within `region`, at which `pattern` occurs: non-overlapping and
/// leftmost first. An empty pattern occurs nowhere.
pub fn find_occurrences(region: &[u8], pattern: &[u8]) -> (r: Vec<usize>)
    ensures
        r@.len() == occurrences(region@, pattern@).len(),
        forall|i: int| 0 <= i < r@.len() ==> r@[i] as int == #[trigger] occurrences(region@, pattern@)[i],
{
    if pattern.len() == 0 {
        Vec::new()
    } else {
        find_all(region, pattern)
    }
}

/// The regions among the first `n` of `maps` that a scan reads, as
/// (index in `maps`, start, end), in list order.
pub open spec fn searchable_prefix(maps: Seq<MemoryMap>, n: int) -> Seq<(usize, usize, usize)>
    decreases n,
{
    if n <= 0 {
        Seq::empty()
    } else {
        let m = maps[n - 1];
        let rest = searchable_prefix(maps, n - 1);
        if m.should_search && m.start < m.end {
            rest.push(((n - 1) as usize, m.start, m.end))
        } else {
            rest
        }
    }
}

/// The regions of `maps` that a scan reads, in list order.
pub open spec fn searchable(maps: Seq<MemoryMap>) -> Seq<(usize, usize, usize)> {
    searchable_prefix(maps, maps.len() as int)
}


/// The bytes that a memory image `img` holds at `[addr, addr + len)`, if it
/// holds every one of them.
pub open spec fn image_read(img: Map<int, u8>, addr: int, len: int) -> Option<Seq<u8>> {
    if forall|k: int| 0 <= k < len ==> #[trigger] img.contains_key(addr + k) {
        Some(Seq::new(len as nat, |k: int| img[addr + k]))
    } else {
        None
    }
}

/// The image after a write of `bytes` at `addr` that succeeded: those
/// addresses hold the new bytes, every other address is as it was.
pub open spec fn image_write(img: Map<int, u8>, addr: int, bytes: Seq<u8>) -> Map<int, u8> {
    Map::new(
        |k: int| img.contains_key(k),
        |k: int| if addr <= k < addr + bytes.len() { bytes[k - addr] } else { img[k] },
    )
}

/// Writing `bytes` at `addr`, where the image holds every address written,
/// then reading `bytes.len()` bytes at `addr`, gives back `bytes`; the
/// addresses outside the write keep their bytes.
pub proof fn lemma_read_after_write(img: Map<int, u8>, addr: int, bytes: Seq<u8>)
    requires
        image_read(img, addr, bytes.len() as int) is Some,
    ensures
        image_read(image_write(img, addr, bytes), addr, bytes.len() as int) == Some(bytes),
        forall|k: int|
            img.contains_key(k) && !(addr <= k < addr + bytes.len()) ==> #[trigger] image_write(
                img,
                addr,
                bytes,
            )[k] == img[k],
{
    let w = image_write(img, addr, bytes);
    assert(forall|k: int| 0 <= k < bytes.len() ==> #[trigger] img.contains_key(addr + k));
    assert forall|k: int| 0 <= k < bytes.len() implies #[trigger] w.contains_key(addr + k) by {
        assert(img.contains_key(addr + k));
    }
    let r = Seq::new(bytes.len(), |k: int| w[addr + k]);
    assert forall|k: int| 0 <= k < bytes.len() implies r[k] == bytes[k] by {
        assert(img.contains_key(addr + k));
        assert(addr + k - addr == k);
    }
    assert(r =~= bytes);
}

/// After a write inside a region that the image holds, the region reads as
/// its old bytes with the written range replaced; a later scan of the region
/// searches exactly those bytes.
pub proof fn lemma_region_after_write(
    img: Map<int, u8>,
    start: int,
    len: int,
    addr: int,
    bytes: Seq<u8>,
)
    requires
        0 <= len,
        image_read(img, start, len) is Some,
        start <= addr,
        addr + bytes.len() <= start + len,
    ensures
        ({
            let old_bytes = image_read(img, start, len)->0;
            let off = addr - start;
            image_read(image_write(img, addr, bytes), start, len) == Some(
                old_bytes.subrange(0, off) + bytes + old_bytes.subrange(off + bytes.len(), len),
            )
        }),
{
    let b = image_read(img, start, len)->0;
    let off = addr - start;
    let w = image_write(img, addr, bytes);
    assert(forall|k: int| 0 <= k < len ==> #[trigger] img.contains_key(start + k));
    assert forall|k: int| 0 <= k < len implies #[trigger] w.contains_key(start + k) by {
        assert(img.contains_key(start + k));
    }
    let r = Seq::new(len as nat, |k: int| w[start + k]);
    let e = b.subrange(0, off) + bytes + b.subrange(off + bytes.len(), len);
    assert forall|k: int| 0 <= k < len implies r[k] == e[k] by {
        assert(img.contains_key(start + k));
        if k < off {
        } else if k < off + bytes.len() {
            assert(start + k - addr == k - off);
        } else {
        }
    }
    assert(r =~= e);
}

/// What a read handed back, as a value.
pub open spec fn read_view(bytes: Option<Vec<u8>>) -> Option<Seq<u8>> {
    match bytes {
        Some(b) => Some(b@),
        None => None,
    }
}

/// The locations, as (start, bytes, region index), that a scan of region
/// `r` of image `img` reports: one per occurrence, none where the image
/// does not hold the whole region.
pub open spec fn region_hits(img: Map<int, u8>, r: (usize, usize, usize), pattern: Seq<u8>) -> Seq<
    (int, Seq<u8>, usize),
> {
    match image_read(img, r.1 as int, r.2 - r.1) {
        Some(b) => occurrences(b, pattern).map_values(|o: int| (r.1 + o, pattern, r.0)),
        None => Seq::empty(),
    }
}

/// The locations that a scan of `regions` of image `img` reports, region by
/// region.
pub open spec fn image_hits(
    img: Map<int, u8>,
    regions: Seq<(usize, usize, usize)>,
    pattern: Seq<u8>,
) -> Seq<(int, Seq<u8>, usize)>
    decreases regions.len(),
{
    if regions.len() == 0 {
        Seq::empty()
    } else {
        image_hits(img, regions.drop_last(), pattern) + region_hits(img, regions.last(), pattern)
    }
}

/// Found locations as (start, bytes, region index).
pub open spec fn found_view(found: Seq<SearchLocation>) -> Seq<(int, Seq<u8>, usize)> {
    found.map_values(|l: SearchLocation| (l.start as int, l.raw@, l.region))
}

proof fn lemma_image_hits_step(
    img: Map<int, u8>,
    regions: Seq<(usize, usize, usize)>,
    n: int,
    pattern: Seq<u8>,
)
    requires
        0 <= n < regions.len(),
    ensures
        image_hits(img, regions.take(n + 1), pattern) == image_hits(img, regions.take(n), pattern)
            + region_hits(img, regions[n], pattern),
{
    assert(regions.take(n + 1).drop_last() =~= regions.take(n));
    assert(regions.take(n + 1).last() == regions[n]);
}

/// Inside a region that the image holds, an occurrence reads back as the
/// pattern.
proof fn lemma_occurrence_reads_back(img: Map<int, u8>, start: int, len: int, pattern: Seq<u8>, k: int)
    requires
        0 <= len,
        image_read(img, start, len) is Some,
        0 <= k < occurrences(image_read(img, start, len)->0, pattern).len(),
    ensures
        image_read(
            img,
            start + occurrences(image_read(img, start, len)->0, pattern)[k],
            pattern.len() as int,
        ) == Some(pattern),
{
    let b = image_read(img, start, len)->0;
    lemma_occurrences_fit(b, pattern);
    let o = occurrences(b, pattern)[k];
    assert(0 <= o && o + pattern.len() <= b.len());
    assert(b.len() == len);
    assert(forall|i: int| 0 <= i < len ==> #[trigger] img.contains_key(start + i));
    assert forall|j: int| 0 <= j < pattern.len() implies #[trigger] img.contains_key(start + o + j) by {
        assert(img.contains_key(start + (o + j)));
    }
    let r = Seq::new(pattern.len(), |j: int| img[start + o + j]);
    assert(r =~= b.subrange(o, o + pattern.len())) by {
        assert forall|j: int| 0 <= j < pattern.len() implies r[j] == b.subrange(o, o + pattern.len())[j] by {
            assert(start + o + j == start + (o + j));
        }
    }
}

/// What a scan asks its caller to do next.
#[derive(PartialEq, Eq, Structural, Debug, Clone, Copy)]
pub enum ScanRequest {
    /// Read the `len` bytes at absolute address `start`: a whole region.
    ReadRegion { start: usize, len: usize },
    /// Read again the `len` bytes of an occurrence at absolute address `addr`.
    ReadValue { addr: usize, len: usize },
    /// The scan is over; its locations are final.
    Finished,
}

/// A scan of a task's memory for a pattern, one read at a time. The caller
/// performs each read that `request` names and hands the outcome back
/// (`None` where the read failed or came back short); the scan decides
/// everything else. A region that cannot be read, or an occurrence whose
/// second read fails, is skipped and the scan goes on.
pub struct MemorySearch {
    pub pattern: Vec<u8>,
    /// (index in the region list, start, end) of each region to read.
    pub regions: Vec<(usize, usize, usize)>,
    /// The region being worked on.
    pub next_region: usize,
    /// The occurrences in that region, once it has been read.
    pub offsets: Vec<usize>,
    pub next_offset: usize,
    pub reading_values: bool,
    /// The locations found so far, in region order, then offset order.
    pub found: Vec<SearchLocation>,
}

impl MemorySearch {
    pub open spec fn region_len(&self) -> int {
        self.regions@[self.next_region as int].2 - self.regions@[self.next_region as int].1
    }

    /// Each found location lies in the region it names and holds what was
    /// read there, with its display form.
    pub open spec fn location_ok(&self, loc: SearchLocation) -> bool {
        &&& exists|j: int|
            0 <= j < self.regions@.len() && #[trigger] self.regions@[j].0 == loc.region
                && self.regions@[j].1 <= loc.start && loc.end <= self.regions@[j].2
        &&& loc.end == loc.start + self.pattern@.len()
        &&& loc.raw@.len() == self.pattern@.len()
        &&& loc.value@ == display_text(loc.raw@)
    }

    pub open spec fn wf(&self) -> bool {
        &&& self.pattern@.len() > 0 || self.regions@.len() == 0
        &&& self.next_region <= self.regions@.len()
        &&& forall|j: int|
            0 <= j < self.regions@.len() ==> (#[trigger] self.regions@[j]).1 < self.regions@[j].2
        &&& self.reading_values ==> {
            &&& self.next_region < self.regions@.len()
            &&& self.next_offset < self.offsets@.len()
            &&& forall|k: int|
                0 <= k < self.offsets@.len() ==> (#[trigger] self.offsets@[k]) + self.pattern@.len()
                    <= self.region_len()
        }
        &&& forall|k: int| 0 <= k < self.found@.len() ==> self.location_ok(#[trigger] self.found@[k])
    }

    /// The scan so far is the one that image `img` calls for: what it found
    /// is what the image holds in the regions done, and, in the region being
    /// worked on, in the occurrences dealt with.
    pub open spec fn agrees_with(&self, img: Map<int, u8>) -> bool {
        let done = image_hits(img, self.regions@.take(self.next_region as int), self.pattern@);
        if self.reading_values {
            let r = self.regions@[self.next_region as int];
            match image_read(img, r.1 as int, r.2 - r.1) {
                Some(b) => {
                    &&& self.offsets@.len() == occurrences(b, self.pattern@).len()
                    &&& forall|k: int|
                        0 <= k < self.offsets@.len() ==> self.offsets@[k] as int
                            == #[trigger] occurrences(b, self.pattern@)[k]
                    &&& found_view(self.found@) == done + region_hits(img, r, self.pattern@).take(
                        self.next_offset as int,
                    )
                },
                None => false,
            }
        } else {
            found_view(self.found@) == done
        }
    }

    /// The request that the scan's state calls for.
    pub open spec fn next_request(&self) -> ScanRequest {
        if self.next_region >= self.regions@.len() {
            ScanRequest::Finished
        } else if !self.reading_values {
            ScanRequest::ReadRegion {
                start: self.regions@[self.next_region as int].1,
                len: (self.regions@[self.next_region as int].2
                    - self.regions@[self.next_region as int].1) as usize,
            }
        } else {
            ScanRequest::ReadValue {
                addr: (self.regions@[self.next_region as int].1
                    + self.offsets@[self.next_offset as int]) as usize,
                len: self.pattern@.len() as usize,
            }
        }
    }

    /// A scan of the searchable regions of `maps` (those marked for search),
    /// in list order, for the bytes of `pattern`. An empty pattern occurs
    /// nowhere, and its scan reads nothing.
    pub fn new(maps: &Vec<MemoryMap>, pattern: &[u8]) -> (r: MemorySearch)
        ensures
            r.wf(),
            r.pattern@ == pattern@,
            pattern@.len() > 0 ==> r.regions@ == searchable(maps@),
            pattern@.len() == 0 ==> r.regions@.len() == 0,
            r.next_region == 0,
            !r.reading_values,
            r.found@.len() == 0,
            forall|img: Map<int, u8>| #[trigger] r.agrees_with(img),
    {
        let mut regions: Vec<(usize, usize, usize)> = Vec::new();
        if pattern.len() > 0 {
            let mut i: usize = 0;
            while i < maps.len()
                invariant
                    i <= maps@.len(),
                    regions@ == searchable_prefix(maps@, i as int),
                    forall|j: int|
                        0 <= j < regions@.len() ==> (#[trigger] regions@[j]).1 < regions@[j].2,
                decreases maps.len() - i,
            {
                let m = &maps[i];
                if m.should_search && m.start < m.end {
                    regions.push((i, m.start, m.end));
                }
                i += 1;
            }
        }
        let r = MemorySearch {
            pattern: vstd::slice::slice_to_vec(pattern),
            regions,
            next_region: 0,
            offsets: Vec::new(),
            next_offset: 0,
            reading_values: false,
            found: Vec::new(),
        };
        assert forall|img: Map<int, u8>| #[trigger] r.agrees_with(img) by {
            assert(r.regions@.take(0) =~= Seq::<(usize, usize, usize)>::empty());
            assert(found_view(r.found@) =~= Seq::<(int, Seq<u8>, usize)>::empty());
        }
        r
    }

    /// What the caller is to do next.
    pub fn request(&self) -> (r: ScanRequest)
        requires
            self.wf(),
        ensures
            r == self.next_request(),
    {
        if self.next_region >= self.regions.len() {
            ScanRequest::Finished
        } else if !self.reading_values {
            let (_, start, end) = self.regions[self.next_region];
            ScanRequest::ReadRegion { start, len: end - start }
        } else {
            let (_, start, _) = self.regions[self.next_region];
            proof {
                assert(self.offsets@[self.next_offset as int] + self.pattern@.len()
                    <= self.region_len());
            }
            ScanRequest::ReadValue {
                addr: start + self.offsets[self.next_offset],
                len: self.pattern.len(),
            }
        }
    }

    pub fn is_finished(&self) -> (r: bool)
        requires
            self.wf(),
        ensures
            r == (self.next_request() == ScanRequest::Finished),
    {
        self.next_region >= self.regions.len()
    }

    /// Takes the outcome of the region read that was asked for: the region's
    /// bytes, or `None` where it could not be read. A region read in full is
    /// searched; a failed or short read skips the region. A scan that agrees
    /// with a memory image still does when the read is answered from it.
    pub fn region_read(&mut self, bytes: Option<Vec<u8>>)
        requires
            old(self).wf(),
            old(self).next_request() is ReadRegion,
        ensures
            final(self).wf(),
            final(self).pattern == old(self).pattern,
            final(self).regions == old(self).regions,
            final(self).found == old(self).found,
            ({
                let n = old(self).region_len();
                match bytes {
                    Some(b) if b@.len() == n && occurrences(b@, old(self).pattern@).len() > 0 => {
                        &&& final(self).next_region == old(self).next_region
                        &&& final(self).reading_values
                        &&& final(self).next_offset == 0
                        &&& final(self).offsets@.len() == occurrences(b@, old(self).pattern@).len()
                        &&& forall|k: int|
                            0 <= k < final(self).offsets@.len() ==> final(self).offsets@[k] as int
                                == #[trigger] occurrences(b@, old(self).pattern@)[k]
                    },
                    _ => {
                        &&& final(self).next_region == old(self).next_region + 1
                        &&& !final(self).reading_values
                    },
                }
            }),
            forall|img: Map<int, u8>|
                old(self).agrees_with(img) && read_view(bytes) == image_read(
                    img,
                    old(self).next_request()->ReadRegion_start as int,
                    old(self).next_request()->ReadRegion_len as int,
                ) ==> #[trigger] final(self).agrees_with(img),
    {
        let _ = self.regions.len();
        let (_, start, end) = self.regions[self.next_region];
        let ghost pre = *self;
        let mut hit = false;
        match &bytes {
            Some(b) => {
                if b.len() == end - start {
                    let offs = find_occurrences(b.as_slice(), self.pattern.as_slice());
                    if offs.len() > 0 {
                        proof {
                            lemma_occurrences_fit(b@, self.pattern@);
                            assert forall|k: int| 0 <= k < offs@.len() implies (#[trigger] offs@[k])
                                + self.pattern@.len() <= b@.len() by {
                                assert(offs@[k] as int == occurrences(b@, self.pattern@)[k]);
                            }
                        }
                        self.offsets = offs;
                        self.next_offset = 0;
                        self.reading_values = true;
                        hit = true;
                    }
                }
            },
            None => {},
        }
        if !hit {
            self.next_region = self.next_region + 1;
            self.reading_values = false;
        }
        proof {
            let nr = pre.next_region as int;
            let r = pre.regions@[nr];
            assert forall|img: Map<int, u8>|
                pre.agrees_with(img) && read_view(bytes) == image_read(
                    img,
                    pre.next_request()->ReadRegion_start as int,
                    pre.next_request()->ReadRegion_len as int,
                ) implies #[trigger] self.agrees_with(img) by {
                let done = image_hits(img, pre.regions@.take(nr), pre.pattern@);
                if hit {
                    let h = region_hits(img, r, pre.pattern@);
                    assert(h.take(0) =~= Seq::<(int, Seq<u8>, usize)>::empty());
                    assert(done + h.take(0) =~= done);
                } else {
                    lemma_image_hits_step(img, pre.regions@, nr, pre.pattern@);
                    let h = region_hits(img, r, pre.pattern@);
                    assert(h =~= Seq::<(int, Seq<u8>, usize)>::empty());
                    assert(done + h =~= done);
                }
            }
        }
    }

    /// Takes the outcome of the second read of an occurrence: where it came
    /// back in full, the location is recorded with those bytes and their
    /// display form; where it failed, the occurrence is skipped.
    pub fn value_read(&mut self, bytes: Option<Vec<u8>>)
        requires
            old(self).wf(),
            old(self).next_request() is ReadValue,
        ensures
            final(self).wf(),
            final(self).pattern == old(self).pattern,
            final(self).regions == old(self).regions,
            ({
                let addr = old(self).next_request()->ReadValue_addr;
                let region = old(self).regions@[old(self).next_region as int].0;
                match bytes {
                    Some(b) if b@.len() == old(self).pattern@.len() => {
                        &&& final(self).found@.len() == old(self).found@.len() + 1
                        &&& final(self).found@.drop_last() == old(self).found@
                        &&& final(self).found@.last().start == addr
                        &&& final(self).found@.last().end == addr + b@.len()
                        &&& final(self).found@.last().raw@ == b@
                        &&& final(self).found@.last().value@ == display_text(b@)
                        &&& final(self).found@.last().region == region
                    },
                    _ => final(self).found == old(self).found,
                }
            }),
            old(self).next_offset + 1 < old(self).offsets@.len() ==> {
                &&& final(self).next_region == old(self).next_region
                &&& final(self).reading_values
                &&& final(self).offsets == old(self).offsets
                &&& final(self).next_offset == old(self).next_offset + 1
            },
            old(self).next_offset + 1 >= old(self).offsets@.len() ==> {
                &&& final(self).next_region == old(self).next_region + 1
                &&& !final(self).reading_values
            },
            forall|img: Map<int, u8>|
                old(self).agrees_with(img) && read_view(bytes) == image_read(
                    img,
                    old(self).next_request()->ReadValue_addr as int,
                    old(self).next_request()->ReadValue_len as int,
                ) ==> #[trigger] final(self).agrees_with(img),
    {
        let ghost pre = *self;
        let _ = self.regions.len();
        let _ = self.offsets.len();
        let (region, start, end) = self.regions[self.next_region];
        proof {
            assert(self.offsets@[self.next_offset as int] + self.pattern@.len()
                <= self.region_len());
        }
        let addr = start + self.offsets[self.next_offset];
        let ghost bv = read_view(bytes);
        let mut pushed = false;
        match bytes {
            Some(b) => {
                if b.len() == self.pattern.len() {
                    let value = bytes_to_string(vstd::slice::slice_to_vec(b.as_slice()));
                    let loc = SearchLocation { start: addr, end: addr + b.len(), value, raw: b, region };
                    proof {
                        let j = self.next_region as int;
                        assert(self.regions@[j].0 == loc.region);
                        assert(self.location_ok(loc));
                    }
                    self.found.push(loc);
                    pushed = true;
                    proof {
                        assert(self.found@.drop_last() =~= old(self).found@);
                        assert forall|k: int| 0 <= k < self.found@.len() implies self.location_ok(
                            #[trigger] self.found@[k],
                        ) by {
                            if k < old(self).found@.len() {
                                assert(self.found@[k] == old(self).found@[k]);
                            }
                        }
                    }
                }
            },
            None => {},
        }
        assert forall|k: int| 0 <= k < self.found@.len() implies self.location_ok(
            #[trigger] self.found@[k],
        ) by {}
        if self.next_offset + 1 < self.offsets.len() {
            self.next_offset = self.next_offset + 1;
            assert(self.region_len() == old(self).region_len());
        } else {
            self.next_region = self.next_region + 1;
            self.reading_values = false;
        }
        proof {
            let nr = pre.next_region as int;
            let no = pre.next_offset as int;
            let r = pre.regions@[nr];
            let p = pre.pattern@;
            assert forall|img: Map<int, u8>|
                pre.agrees_with(img) && bv == image_read(
                    img,
                    pre.next_request()->ReadValue_addr as int,
                    pre.next_request()->ReadValue_len as int,
                ) implies #[trigger] self.agrees_with(img) by {
                let done = image_hits(img, pre.regions@.take(nr), p);
                let h = region_hits(img, r, p);
                let rb = image_read(img, r.1 as int, r.2 - r.1)->0;
                assert(pre.offsets@[no] as int == occurrences(rb, p)[no]);
                lemma_occurrence_reads_back(img, r.1 as int, r.2 - r.1, p, no);
                assert(h[no] == (r.1 + occurrences(rb, p)[no], p, r.0));
                assert(pushed);
                assert(found_view(self.found@) =~= found_view(pre.found@).push(h[no]));
                assert(done + h.take(no + 1) =~= (done + h.take(no)).push(h[no]));
                if no + 1 >= pre.offsets@.len() {
                    lemma_image_hits_step(img, pre.regions@, nr, p);
                    assert(h.take(no + 1) =~= h);
                }
            }
        }
    }
}

/// A finished scan whose every read was answered from one memory image has
/// found exactly what that image holds: for each searched region, in list
/// order, the pattern's non-overlapping occurrences, leftmost first, each at
/// its absolute address and with the pattern's bytes; a region that the
/// image does not hold in full contributes nothing.
pub proof fn lemma_finished_scan_matches_image(s: MemorySearch, img: Map<int, u8>)
    requires
        s.wf(),
        s.agrees_with(img),
        s.next_request() == ScanRequest::Finished,
    ensures
        found_view(s.found@) == image_hits(img, s.regions@, s.pattern@),
{
    assert(s.regions@.take(s.next_region as int) =~= s.regions@);
}

/// Each region that a scan of `maps` reads is the region of `maps` at the
/// index it names, with that region's bounds.
pub proof fn lemma_searchable_bounds(maps: Seq<MemoryMap>, n: int)
    requires
        0 <= n <= maps.len(),
        maps.len() <= usize::MAX,
    ensures
        forall|j: int|
            0 <= j < searchable_prefix(maps, n).len() ==> {
                let e = #[trigger] searchable_prefix(maps, n)[j];
                &&& e.0 < n
                &&& maps[e.0 as int].start == e.1
                &&& maps[e.0 as int].end == e.2
            },
    decreases n,
{
    if n > 0 {
        lemma_searchable_bounds(maps, n - 1);
        let rest = searchable_prefix(maps, n - 1);
        let m = maps[n - 1];
        if m.should_search && m.start < m.end {
            let all = rest.push(((n - 1) as usize, m.start, m.end));
            assert forall|j: int| 0 <= j < all.len() implies {
                let e = #[trigger] all[j];
                &&& e.0 < n
                &&& maps[e.0 as int].start == e.1
                &&& maps[e.0 as int].end == e.2
            } by {
                if j < rest.len() {
                    assert(all[j] == rest[j]);
                }
            }
        }
    }
}

/// Every occurrence lies inside the haystack, and they come in ascending,
/// non-overlapping order.
pub proof fn lemma_occurrences_fit(hay: Seq<u8>, needle: Seq<u8>)
    ensures
        forall|k: int|
            0 <= k < occurrences(hay, needle).len() ==> 0 <= #[trigger] occurrences(hay, needle)[k]
                && occurrences(hay, needle)[k] + needle.len() <= hay.len(),
        forall|k: int|
            0 <= k < occurrences(hay, needle).len() - 1 ==> #[trigger] occurrences(hay, needle)[k]
                + needle.len() <= occurrences(hay, needle)[k + 1],
        forall|k: int|
            0 <= k < occurrences(hay, needle).len() ==> hay.subrange(
                #[trigger] occurrences(hay, needle)[k],
                occurrences(hay, needle)[k] + needle.len(),
            ) == needle,
{
    lemma_occurrences_from_fit(hay, needle, 0);
}

proof fn lemma_occurrences_from_fit(hay: Seq<u8>, needle: Seq<u8>, pos: int)
    requires
        0 <= pos,
    ensures
        forall|k: int|
            0 <= k < occurrences_from(hay, needle, pos).len() ==> pos <= #[trigger] occurrences_from(
                hay,
                needle,
                pos,
            )[k] && occurrences_from(hay, needle, pos)[k] + needle.len() <= hay.len(),
        forall|k: int|
            0 <= k < occurrences_from(hay, needle, pos).len() - 1 ==> #[trigger] occurrences_from(
                hay,
                needle,
                pos,
            )[k] + needle.len() <= occurrences_from(hay, needle, pos)[k + 1],
        forall|k: int|
            0 <= k < occurrences_from(hay, needle, pos).len() ==> hay.subrange(
                #[trigger] occurrences_from(hay, needle, pos)[k],
                occurrences_from(hay, needle, pos)[k] + needle.len(),
            ) == needle,
    decreases hay.len() - pos,
{
    let all = occurrences_from(hay, needle, pos);
    if needle.len() == 0 || pos + needle.len() > hay.len() {
        assert(all.len() == 0);
    } else if hay.subrange(pos, pos + needle.len()) == needle {
        lemma_occurrences_from_fit(hay, needle, pos + needle.len());
        let rest = occurrences_from(hay, needle, pos + needle.len());
        assert(all == seq![pos] + rest);
        assert forall|k: int| 0 <= k < all.len() implies pos <= #[trigger] all[k] && all[k]
            + needle.len() <= hay.len() by {
            if k > 0 {
                assert(all[k] == rest[k - 1]);
            }
        }
        assert forall|k: int| 0 <= k < all.len() - 1 implies #[trigger] all[k] + needle.len()
            <= all[k + 1] by {
            assert(all[k + 1] == rest[k]);
            if k > 0 {
                assert(all[k] == rest[k - 1]);
            }
        }
        assert forall|k: int| 0 <= k < all.len() implies hay.subrange(
            #[trigger] all[k],
            all[k] + needle.len(),
        ) == needle by {
            if k > 0 {
                assert(all[k] == rest[k - 1]);
            }
        }
    } else {
        lemma_occurrences_from_fit(hay, needle, pos + 1);
        assert(all == occurrences_from(hay, needle, pos + 1));
    }
}

} // verus!
