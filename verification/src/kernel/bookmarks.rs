//! Bookmark cache: 16 slots, resident in memory, written to the card when
//! dirty.
//!
//! Record layout (little-endian, 48 bytes to a slot):
//!
//! | bytes    | field                       |
//! |----------|-----------------------------|
//! | 0..4     | hash of the name            |
//! | 4..8     | byte offset                 |
//! | 8..10    | chapter                     |
//! | 10..12   | flags (bit 0: valid)        |
//! | 12..14   | generation                  |
//! | 14       | length of the name          |
//! | 15       | zero                        |
//! | 16..48   | name                        |

use vstd::prelude::*;
use vstd::utf8;

use crate::bytes;
use crate::bytes::{eq_ignore_case, read_le16, read_le32, utf8_or};

verus! {

pub const BOOKMARK_FILE: &'static str = "BKMK.BIN";

pub const SLOTS: usize = 16;

pub const RECORD_LEN: usize = 48;

pub const FILE_LEN: usize = 768;

pub const FILENAME_CAP: usize = 32;

/// `n` zero bytes.
pub open spec fn zeros(n: int) -> Seq<u8> {
    Seq::new(n as nat, |i: int| 0u8)
}

/// The first 32 bytes of `name`, filled up with zeros.
pub open spec fn padded_name(name: Seq<u8>) -> Seq<u8> {
    if name.len() < 32 {
        name + zeros(32 - name.len())
    } else {
        name.take(32)
    }
}

fn pad_name(name: &[u8], n: usize) -> (r: [u8; 32])
    requires
        n <= name@.len(),
        n <= 32,
    ensures
        r@ == padded_name(name@.take(n as int)),
{
    let mut out: [u8; 32] = [0u8; 32];
    let mut i: usize = 0;
    while i < n
        invariant
            i <= n <= 32,
            n <= name@.len(),
            forall|j: int| 0 <= j < i ==> out@[j] == name@[j],
            forall|j: int| i <= j < 32 ==> out@[j] == 0,
        decreases n - i,
    {
        out[i] = name[i];
        i += 1;
    }
    assert(out@ =~= padded_name(name@.take(n as int)));
    out
}

/// One bookmark: a place in the book of a name.
#[derive(Clone, Copy)]
pub struct BookmarkSlot {
    pub name_hash: u32,
    pub byte_offset: u32,
    pub chapter: u16,
    pub valid: bool,
    pub generation: u16,
    pub name_len: u8,
    pub filename: [u8; 32],
}

impl BookmarkSlot {
    pub open spec fn wf(self) -> bool {
        self.name_len <= 32
    }

    /// The name that the slot holds.
    pub open spec fn name(self) -> Seq<u8> {
        self.filename@.take(self.name_len as int)
    }

    /// Behind its name the slot holds zeros.
    pub open spec fn tidy(self) -> bool {
        self.wf() && self.filename@ == padded_name(self.name())
    }

    /// The slot is the bookmark of the book `name`, whose hash is `key`.
    pub open spec fn is_for(self, name: Seq<u8>, key: u32) -> bool {
        self.valid && self.name_hash == key && bytes::eq_icase(self.name(), name)
    }

    /// The slot holds nothing.
    pub open spec fn blank(self) -> bool {
        &&& self.name_hash == 0
        &&& self.byte_offset == 0
        &&& self.chapter == 0
        &&& !self.valid
        &&& self.generation == 0
        &&& self.name_len == 0
        &&& self.filename@ == zeros(32)
    }

    /// The slot is what the record `rec` says.
    pub open spec fn holds(self, rec: Seq<u8>) -> bool {
        let n = if rec[14] < 32 {
            rec[14] as int
        } else {
            32
        };
        &&& self.name_hash == bytes::le32(rec, 0)
        &&& self.byte_offset == bytes::le32(rec, 4)
        &&& self.chapter == bytes::le16(rec, 8)
        &&& self.valid == (bytes::le16(rec, 10) % 2 == 1)
        &&& self.generation == bytes::le16(rec, 12)
        &&& self.name_len == n
        &&& self.filename@ == padded_name(rec.subrange(16, 16 + n))
    }

    /// The fixed part of the slot's record.
    pub open spec fn record_head(self) -> Seq<u8> {
        bytes::le_bytes32(self.name_hash as int) + bytes::le_bytes32(self.byte_offset as int)
            + bytes::le_bytes16(self.chapter as int) + bytes::le_bytes16(
            if self.valid {
                1
            } else {
                0
            },
        ) + bytes::le_bytes16(self.generation as int) + seq![self.name_len, 0u8]
    }

    /// The record of the slot.
    pub open spec fn record(self) -> Seq<u8> {
        self.record_head() + padded_name(self.name())
    }

    pub fn empty() -> (r: BookmarkSlot)
        ensures
            r.blank(),
            r.tidy(),
    {
        let s = BookmarkSlot {
            name_hash: 0,
            byte_offset: 0,
            chapter: 0,
            valid: false,
            generation: 0,
            name_len: 0,
            filename: [0u8; 32],
        };
        assert(s.filename@ =~= zeros(32));
        assert(s.filename@ =~= padded_name(s.name()));
        s
    }

    /// The name as text, and `?` where it is not UTF-8.
    pub fn filename_str(&self) -> (r: &str)
        requires
            self.wf(),
        ensures
            utf8::valid_utf8(self.name()) ==> utf8::encode_utf8(r@) == self.name(),
            !utf8::valid_utf8(self.name()) ==> r@ == "?"@,
    {
        let name: &[u8] = &self.filename;
        let b = &name[0..self.name_len as usize];
        assert(b@ =~= self.name());
        utf8_or(b, "?")
    }

    /// The slot that a record describes; too short a record is an empty slot.
    pub fn decode(rec: &[u8]) -> (r: BookmarkSlot)
        ensures
            r.tidy(),
            rec@.len() < RECORD_LEN ==> r.blank(),
            rec@.len() >= RECORD_LEN ==> r.holds(rec@),
    {
        if rec.len() < RECORD_LEN {
            return BookmarkSlot::empty();
        }
        let name_len: u8 = if rec[14] < 32 {
            rec[14]
        } else {
            32
        };
        let n = name_len as usize;
        let tail = &rec[16..16 + n];
        assert(tail@.take(n as int) =~= rec@.subrange(16, 16 + n));
        let slot = BookmarkSlot {
            name_hash: read_le32(rec, 0),
            byte_offset: read_le32(rec, 4),
            chapter: read_le16(rec, 8),
            valid: read_le16(rec, 10) % 2 == 1,
            generation: read_le16(rec, 12),
            name_len,
            filename: pad_name(tail, n),
        };
        assert(slot.name() =~= tail@.take(n as int));
        slot
    }

    /// The record of the slot.
    pub fn encode(&self) -> (r: [u8; 48])
        requires
            self.wf(),
        ensures
            r@ == self.record(),
    {
        let flags: u16 = if self.valid {
            1
        } else {
            0
        };
        let mut rec: [u8; 48] = [0u8; 48];
        rec[0] = (self.name_hash % 256) as u8;
        rec[1] = (self.name_hash / 256 % 256) as u8;
        rec[2] = (self.name_hash / 65536 % 256) as u8;
        rec[3] = (self.name_hash / 16777216 % 256) as u8;
        rec[4] = (self.byte_offset % 256) as u8;
        rec[5] = (self.byte_offset / 256 % 256) as u8;
        rec[6] = (self.byte_offset / 65536 % 256) as u8;
        rec[7] = (self.byte_offset / 16777216 % 256) as u8;
        rec[8] = (self.chapter % 256) as u8;
        rec[9] = (self.chapter / 256 % 256) as u8;
        rec[10] = (flags % 256) as u8;
        rec[11] = (flags / 256 % 256) as u8;
        rec[12] = (self.generation % 256) as u8;
        rec[13] = (self.generation / 256 % 256) as u8;
        rec[14] = self.name_len;
        rec[15] = 0;
        let ghost head = rec@;
        assert(head.take(16) =~= self.record_head());
        let n = self.name_len as usize;
        let mut i: usize = 0;
        while i < n
            invariant
                i <= n <= 32,
                rec@.len() == head.len() == 48,
                forall|j: int| 0 <= j < 16 ==> rec@[j] == head[j],
                forall|j: int| 0 <= j < i ==> rec@[16 + j] == self.filename@[j],
                forall|j: int| 16 + i <= j < 48 ==> rec@[j] == 0,
            decreases n - i,
        {
            rec[16 + i] = self.filename[i];
            i += 1;
        }
        assert(rec@ =~= self.record()) by {
            assert(rec@.take(16) =~= head.take(16));
            assert(rec@.skip(16) =~= padded_name(self.name())) by {
                assert forall|j: int| 0 <= j < 32 implies rec@.skip(16)[j] == padded_name(
                    self.name(),
                )[j] by {
                    if j < n {
                        assert(rec@[16 + j] == self.filename@[j]);
                    }
                }
            }
            assert(rec@ =~= rec@.take(16) + rec@.skip(16));
        }
        rec
    }

    /// The slot's name is `name` up to ASCII case.
    pub fn matches_name(&self, name: &[u8]) -> (r: bool)
        requires
            self.wf(),
        ensures
            r == bytes::eq_icase(self.name(), name@),
    {
        let whole: &[u8] = &self.filename;
        let b = &whole[0..self.name_len as usize];
        assert(b@ =~= self.name());
        eq_ignore_case(b, name)
    }
}

/// One line of the list of bookmarks.
#[derive(Clone, Copy)]
pub struct BmListEntry {
    pub filename: [u8; 32],
    pub name_len: u8,
    pub chapter: u16,
}

impl BmListEntry {
    pub open spec fn wf(self) -> bool {
        self.name_len <= 32
    }

    pub open spec fn name(self) -> Seq<u8> {
        self.filename@.take(self.name_len as int)
    }

    pub fn empty() -> (r: BmListEntry)
        ensures
            r.filename@ == zeros(32),
            r.name_len == 0,
            r.chapter == 0,
    {
        let e = BmListEntry { filename: [0u8; 32], name_len: 0, chapter: 0 };
        assert(e.filename@ =~= zeros(32));
        e
    }

    /// The name as text, and `?` where it is not UTF-8.
    pub fn filename_str(&self) -> (r: &str)
        requires
            self.wf(),
        ensures
            utf8::valid_utf8(self.name()) ==> utf8::encode_utf8(r@) == self.name(),
            !utf8::valid_utf8(self.name()) ==> r@ == "?"@,
    {
        let name: &[u8] = &self.filename;
        let b = &name[0..self.name_len as usize];
        assert(b@ =~= self.name());
        utf8_or(b, "?")
    }
}

/// What the cache holds: the slots in use, whether they differ from the file,
/// and whether the file was read.
pub struct CacheView {
    pub slots: Seq<BookmarkSlot>,
    pub dirty: bool,
    pub loaded: bool,
}

/// The first slot from `i` on that is the bookmark of `name`.
pub open spec fn slot_from(slots: Seq<BookmarkSlot>, name: Seq<u8>, key: u32, i: int) -> Option<int>
    decreases slots.len() - i,
{
    if i >= slots.len() {
        None
    } else if slots[i].is_for(name, key) {
        Some(i)
    } else {
        slot_from(slots, name, key, i + 1)
    }
}

/// The first slot that is the bookmark of `name`.
pub open spec fn slot_of(slots: Seq<BookmarkSlot>, name: Seq<u8>, key: u32) -> Option<int> {
    slot_from(slots, name, key, 0)
}

/// The first slot from `i` on that holds no bookmark.
pub open spec fn free_from(slots: Seq<BookmarkSlot>, i: int) -> Option<int>
    decreases slots.len() - i,
{
    if i >= slots.len() {
        None
    } else if !slots[i].valid {
        Some(i)
    } else {
        free_from(slots, i + 1)
    }
}

/// The highest generation of a bookmark, and 0 where there is none.
pub open spec fn max_generation(slots: Seq<BookmarkSlot>) -> u16
    decreases slots.len(),
{
    if slots.len() == 0 {
        0
    } else {
        let m = max_generation(slots.drop_last());
        if slots.last().valid && slots.last().generation > m {
            slots.last().generation
        } else {
            m
        }
    }
}

/// The first bookmark of the lowest generation, among those below 65535.
pub open spec fn oldest(slots: Seq<BookmarkSlot>) -> Option<int>
    decreases slots.len(),
{
    if slots.len() == 0 {
        None
    } else {
        let o = oldest(slots.drop_last());
        let bound = match o {
            Some(i) => slots[i].generation,
            None => u16::MAX,
        };
        if slots.last().valid && slots.last().generation < bound {
            Some(slots.len() - 1)
        } else {
            o
        }
    }
}

/// The slot that a bookmark of `name` is written to: its own, else a free
/// one, else a new one, else that of the oldest bookmark.
pub open spec fn slot_for(slots: Seq<BookmarkSlot>, name: Seq<u8>, key: u32) -> int {
    match slot_of(slots, name, key) {
        Some(i) => i,
        None => match free_from(slots, 0) {
            Some(i) => i,
            None => if slots.len() >= SLOTS {
                match oldest(slots) {
                    Some(i) => i,
                    None => 0,
                }
            } else {
                slots.len() as int
            },
        },
    }
}

/// The generation that the next bookmark gets: one above the highest there is,
/// so that the book is the one used last. After 65535 comes 0.
pub open spec fn next_generation(slots: Seq<BookmarkSlot>) -> int {
    (max_generation(slots) + 1) % 0x1_0000
}

/// `s` is the bookmark that `save` writes.
pub open spec fn saved_slot(
    s: BookmarkSlot,
    slots: Seq<BookmarkSlot>,
    name: Seq<u8>,
    key: u32,
    byte_offset: u32,
    chapter: u16,
) -> bool {
    &&& s.name_hash == key
    &&& s.byte_offset == byte_offset
    &&& s.chapter == chapter
    &&& s.valid
    &&& s.generation == next_generation(slots)
    &&& s.name_len == if name.len() < 32 {
        name.len() as int
    } else {
        32
    }
    &&& s.filename@ == padded_name(name)
}

/// `slots` with `s` at `at`, which may be one past the last.
pub open spec fn with_slot(slots: Seq<BookmarkSlot>, at: int, s: BookmarkSlot) -> Seq<BookmarkSlot> {
    if at < slots.len() {
        slots.update(at, s)
    } else {
        slots.push(s)
    }
}

/// The records of the slots, one after another.
pub open spec fn file_image(slots: Seq<BookmarkSlot>) -> Seq<u8>
    decreases slots.len(),
{
    if slots.len() == 0 {
        Seq::empty()
    } else {
        file_image(slots.drop_last()) + slots.last().record()
    }
}

/// How many slots a file of `len` bytes holds.
pub open spec fn slots_in(len: int) -> int {
    if len / 48 < 16 {
        len / 48
    } else {
        16
    }
}

/// Bookmarks of the last books read.
pub struct BookmarkCache {
    slots: [BookmarkSlot; 16],
    count: usize,
    dirty: bool,
    loaded: bool,
}

impl View for BookmarkCache {
    type V = CacheView;

    closed spec fn view(&self) -> CacheView {
        CacheView {
            slots: self.slots@.take(self.count as int),
            dirty: self.dirty,
            loaded: self.loaded,
        }
    }
}

impl Default for BookmarkCache {
    fn default() -> (r: BookmarkCache)
        ensures
            r.wf(),
            r@ == (CacheView { slots: Seq::empty(), dirty: false, loaded: false }),
    {
        BookmarkCache::new()
    }
}

impl BookmarkCache {
    pub closed spec fn wf(&self) -> bool {
        &&& self.count <= 16
        &&& forall|i: int| 0 <= i < 16 ==> (#[trigger] self.slots@[i]).tidy()
    }

    /// A cache has at most 16 slots in use, and each is well-formed, with zeros
    /// behind its name.
    pub proof fn lemma_wf(&self)
        requires
            self.wf(),
        ensures
            self@.slots.len() <= SLOTS,
            forall|i: int| 0 <= i < self@.slots.len() ==> (#[trigger] self@.slots[i]).tidy(),
    {
    }

    pub fn new() -> (r: BookmarkCache)
        ensures
            r.wf(),
            r@ == (CacheView { slots: Seq::empty(), dirty: false, loaded: false }),
    {
        let c = BookmarkCache {
            slots: [BookmarkSlot::empty();16],
            count: 0,
            dirty: false,
            loaded: false,
        };
        assert(c@.slots =~= Seq::empty());
        c
    }

    pub fn is_dirty(&self) -> (r: bool)
        ensures
            r == self@.dirty,
    {
        self.dirty
    }

    pub fn is_loaded(&self) -> (r: bool)
        ensures
            r == self@.loaded,
    {
        self.loaded
    }

    /// Takes in the bookmark file, unless that was done before. `file` is
    /// what was read of it, and `None` where reading failed.
    pub fn ensure_loaded(&mut self, file: Option<&[u8]>)
        requires
            old(self).wf(),
        ensures
            final(self).wf(),
            old(self)@.loaded ==> *final(self) == *old(self),
            !old(self)@.loaded ==> loaded_from(final(self)@, bytes_of(file)),
    {
        if self.loaded {
            return;
        }
        self.force_load(file);
    }

    /// Takes in the bookmark file, dropping what the cache held. `file` is
    /// what was read of it, and `None` where reading failed.
    pub fn force_load(&mut self, file: Option<&[u8]>)
        requires
            old(self).wf(),
        ensures
            final(self).wf(),
            loaded_from(final(self)@, bytes_of(file)),
    {
        let slot_count = match file {
            Some(data) => {
                let whole = data.len() / RECORD_LEN;
                if whole < SLOTS {
                    whole
                } else {
                    SLOTS
                }
            },
            None => 0,
        };
        let mut i: usize = 0;
        while i < SLOTS
            invariant
                i <= 16,
                slot_count <= 16,
                file matches Some(data) ==> slot_count * 48 <= data@.len(),
                file is None ==> slot_count == 0,
                forall|j: int|
                    #![trigger self.slots@[j]]
                    0 <= j < i && j < slot_count ==> self.slots@[j].holds(
                        file->0@.subrange(j * 48, j * 48 + 48),
                    ),
                forall|j: int| 0 <= j < 16 ==> (#[trigger] self.slots@[j]).tidy(),
            decreases 16 - i,
        {
            let slot = match file {
                Some(data) => {
                    if i < slot_count {
                        let base = i * RECORD_LEN;
                        BookmarkSlot::decode(&data[base..base + RECORD_LEN])
                    } else {
                        BookmarkSlot::empty()
                    }
                },
                None => BookmarkSlot::empty(),
            };
            self.slots[i] = slot;
            i += 1;
        }
        self.count = slot_count;
        self.dirty = false;
        self.loaded = true;
    }

    /// The bookmark of the book `filename`, whose case-folded hash is `key`.
    pub fn find(&self, filename: &[u8], key: u32) -> (r: Option<BookmarkSlot>)
        requires
            self.wf(),
        ensures
            r == self@.found(filename@, key),
    {
        if !self.loaded {
            return None;
        }
        let mut i: usize = 0;
        while i < self.count
            invariant
                self.wf(),
                self.loaded,
                i <= self.count,
                slot_of(self@.slots, filename@, key) == slot_from(
                    self@.slots,
                    filename@,
                    key,
                    i as int,
                ),
            decreases self.count - i,
        {
            let slot = &self.slots[i];
            assert(*slot == self@.slots[i as int]);
            if slot.valid && slot.name_hash == key && slot.matches_name(filename) {
                return Some(*slot);
            }
            i += 1;
        }
        None
    }

    /// Puts the bookmarks with a name into `out`, the highest generation
    /// first, and returns how many there are. Where `out` has no room for all
    /// of them, the first slots count.
    pub fn load_all(&self, out: &mut [BmListEntry]) -> (r: usize)
        requires
            self.wf(),
        ensures
            r == self@.listing(old(out)@.len()).len(),
            r <= old(out)@.len(),
            final(out)@ == self@.listing(old(out)@.len()) + old(out)@.skip(r as int),
    {
        if !self.loaded {
            assert(out@ =~= self@.listing(out@.len()) + out@.skip(0));
            return 0;
        }
        let mut gens: [u16; 16] = [0u16; 16];
        let mut count: usize = 0;
        let mut i: usize = 0;
        let ghost slots = self@.slots;
        let ghost cap = out@.len();
        let ghost before = out@;
        while i < self.count
            invariant
                self.wf(),
                slots == self@.slots,
                cap == out@.len() == before.len(),
                i <= self.count,
                count <= i,
                count <= cap,
                count == listed(slots, i as int, cap).len(),
                forall|j: int|
                    #![trigger out@[j]]
                    #![trigger gens@[j]]
                    0 <= j < count ==> out@[j] == entry_of(slots[listed(slots, i as int, cap)[j]])
                        && gens@[j] == slots[listed(slots, i as int, cap)[j]].generation,
                forall|j: int| count <= j < cap ==> out@[j] == before[j],
            decreases self.count - i,
        {
            let slot = &self.slots[i];
            assert(*slot == slots[i as int]);
            if count < out.len() && slot.valid && slot.name_len > 0 {
                gens[count] = slot.generation;
                out[count] = BmListEntry {
                    filename: slot.filename,
                    name_len: slot.name_len,
                    chapter: slot.chapter,
                };
                count += 1;
            }
            i += 1;
        }
        let ghost chosen = listed(slots, i as int, cap);
        proof {
            lemma_listed_in_range(slots, i as int, cap);
        }
        let mut k: usize = 0;
        while k < count
            invariant
                cap == out@.len() == before.len(),
                k <= count <= cap,
                count <= 16,
                count == chosen.len(),
                forall|j: int| 0 <= j < chosen.len() ==> 0 <= #[trigger] chosen[j] < slots.len(),
                ranked(slots, chosen.take(k as int)).len() == k,
                forall|j: int|
                    #![trigger out@[j]]
                    #![trigger gens@[j]]
                    0 <= j < k ==> out@[j] == entry_of(
                        slots[ranked(slots, chosen.take(k as int))[j]],
                    ) && gens@[j] == slots[ranked(slots, chosen.take(k as int))[j]].generation,
                forall|j: int|
                    #![trigger out@[j]]
                    #![trigger gens@[j]]
                    k <= j < count ==> out@[j] == entry_of(slots[chosen[j]]) && gens@[j]
                        == slots[chosen[j]].generation,
                forall|j: int| count <= j < cap ==> out@[j] == before[j],
            decreases count - k,
        {
            let key_gen = gens[k];
            let key_entry = out[k];
            let ghost s = ranked(slots, chosen.take(k as int));
            let ghost x = chosen[k as int];
            let mut j = k;
            assert(s.take(k as int) =~= s);
            assert(inserted(slots, s, x) =~= inserted(slots, s.take(j as int), x) + s.skip(
                j as int,
            ));
            while j > 0 && gens[j - 1] < key_gen
                invariant
                    cap == out@.len() == before.len(),
                    j <= k < count <= cap,
                    count <= 16,
                    s.len() == k,
                    key_gen == slots[x].generation,
                    inserted(slots, s, x) == inserted(slots, s.take(j as int), x) + s.skip(
                        j as int,
                    ),
                    forall|m: int|
                        #![trigger out@[m]]
                        #![trigger gens@[m]]
                        0 <= m < j ==> out@[m] == entry_of(slots[s[m]]) && gens@[m]
                            == slots[s[m]].generation,
                    forall|m: int|
                        #![trigger out@[m]]
                        #![trigger gens@[m]]
                        j < m <= k ==> out@[m] == entry_of(slots[s[m - 1]]) && gens@[m]
                            == slots[s[m - 1]].generation,
                    forall|m: int|
                        #![trigger out@[m]]
                        #![trigger gens@[m]]
                        k < m < count ==> out@[m] == entry_of(slots[chosen[m]]) && gens@[m]
                            == slots[chosen[m]].generation,
                    forall|m: int| count <= m < cap ==> out@[m] == before[m],
                decreases j,
            {
                proof {
                    assert(s.take(j as int).drop_last() =~= s.take(j - 1));
                    assert(s.skip(j - 1) =~= seq![s[j - 1]] + s.skip(j as int));
                    assert(inserted(slots, s.take(j as int), x) == inserted(
                        slots,
                        s.take(j - 1),
                        x,
                    ).push(s[j - 1]));
                    assert(inserted(slots, s.take(j - 1), x).push(s[j - 1]) + s.skip(j as int)
                        =~= inserted(slots, s.take(j - 1), x) + s.skip(j - 1));
                }
                let g = gens[j - 1];
                let e = out[j - 1];
                gens[j] = g;
                out[j] = e;
                j -= 1;
            }
            gens[j] = key_gen;
            out[j] = key_entry;
            proof {
                assert(chosen.take(k + 1).drop_last() =~= chosen.take(k as int));
                let t = inserted(slots, s, x);
                assert(ranked(slots, chosen.take(k + 1)) == t);
                assert(inserted(slots, s.take(j as int), x) == s.take(j as int).push(x));
                assert(t =~= s.take(j as int).push(x) + s.skip(j as int));
            }
            k += 1;
        }
        proof {
            assert(chosen.take(k as int) =~= chosen);
            assert(out@ =~= self@.listing(cap) + before.skip(count as int));
        }
        count
    }

    /// Remembers a place in the book `filename`, whose case-folded hash is
    /// `key`. Before the file was taken in, nothing is remembered.
    pub fn save(&mut self, filename: &[u8], key: u32, byte_offset: u32, chapter: u16)
        requires
            old(self).wf(),
        ensures
            final(self).wf(),
            saved(old(self)@, final(self)@, filename@, key, byte_offset, chapter),
    {
        if !self.loaded {
            return;
        }
        let ghost slots = self@.slots;
        let ghost name = filename@;
        let mut max_gen: u16 = 0;
        let mut target: Option<usize> = None;
        let mut first_free: Option<usize> = None;
        let mut lru_slot: Option<usize> = None;
        let mut lru_gen: u16 = u16::MAX;
        let mut i: usize = 0;
        assert(slots.take(0) =~= Seq::empty());
        while i < self.count
            invariant
                self.wf(),
                self == old(self),
                slots == self@.slots,
                name == filename@,
                i <= self.count,
                max_gen == max_generation(slots.take(i as int)),
                target is None ==> slot_of(slots, name, key) == slot_from(
                    slots,
                    name,
                    key,
                    i as int,
                ),
                target matches Some(t) ==> t < i && slot_of(slots, name, key) == Some(t as int),
                match first_free {
                    Some(f) => f < i && free_from(slots, 0) == Some(f as int),
                    None => free_from(slots, 0) == free_from(slots, i as int),
                },
                match lru_slot {
                    Some(l) => l < i && oldest(slots.take(i as int)) == Some(l as int) && lru_gen
                        == slots[l as int].generation,
                    None => oldest(slots.take(i as int)) is None && lru_gen == u16::MAX,
                },
            decreases self.count - i,
        {
            let slot = &self.slots[i];
            proof {
                assert(*slot == slots[i as int]);
                assert(slots.take(i + 1).drop_last() =~= slots.take(i as int));
            }
            if !slot.valid {
                if first_free.is_none() {
                    first_free = Some(i);
                }
            } else {
                if slot.generation > max_gen {
                    max_gen = slot.generation;
                }
                if slot.generation < lru_gen {
                    lru_gen = slot.generation;
                    lru_slot = Some(i);
                }
                if target.is_none() && slot.name_hash == key && slot.matches_name(filename) {
                    target = Some(i);
                }
            }
            i += 1;
        }
        assert(slots.take(i as int) =~= slots);
        let write_slot = match target {
            Some(t) => t,
            None => match first_free {
                Some(f) => f,
                None => if self.count >= SLOTS {
                    match lru_slot {
                        Some(l) => l,
                        None => 0,
                    }
                } else {
                    self.count
                },
            },
        };
        let generation = max_gen.wrapping_add(1);
        let name_len = if filename.len() < FILENAME_CAP {
            filename.len()
        } else {
            FILENAME_CAP
        };
        let new_slot = BookmarkSlot {
            name_hash: key,
            byte_offset,
            chapter,
            valid: true,
            generation,
            name_len: name_len as u8,
            filename: pad_name(filename, name_len),
        };
        proof {
            assert(padded_name(name.take(name_len as int)) =~= padded_name(name));
            assert(saved_slot(new_slot, slots, name, key, byte_offset, chapter));
            assert(new_slot.name() =~= name.take(name_len as int));
            if slot_of(slots, name, key) is None {
                lemma_free_in_range(slots, 0);
            }
        }
        self.slots[write_slot] = new_slot;
        if write_slot >= self.count {
            self.count = write_slot + 1;
        }
        self.dirty = true;
        assert(self@.slots =~= with_slot(slots, write_slot as int, new_slot));
    }

    /// The bytes that bring the bookmark file up to date, or `None` where
    /// there is nothing to write.
    pub fn flush(&self) -> (r: Option<Vec<u8>>)
        requires
            self.wf(),
        ensures
            r is Some <==> self@.dirty && self@.loaded,
            r matches Some(v) ==> v@ == file_image(self@.slots) && v@.len() <= FILE_LEN,
    {
        if !self.dirty || !self.loaded {
            return None;
        }
        let mut buf: Vec<u8> = Vec::new();
        let mut i: usize = 0;
        assert(self@.slots.take(0) =~= Seq::empty());
        while i < self.count
            invariant
                self.wf(),
                i <= self.count,
                buf@ == file_image(self@.slots.take(i as int)),
                buf@.len() == i * 48,
            decreases self.count - i,
        {
            let rec = self.slots[i].encode();
            let bytes: &[u8] = &rec;
            proof {
                assert(self@.slots.take(i + 1).drop_last() =~= self@.slots.take(i as int));
            }
            buf.extend_from_slice(bytes);
            i += 1;
        }
        assert(self@.slots.take(i as int) =~= self@.slots);
        Some(buf)
    }

    /// Takes note of whether the bytes that `flush` gave were written.
    pub fn flush_done(&mut self, written: bool)
        requires
            old(self).wf(),
        ensures
            final(self).wf(),
            final(self)@ == (CacheView { dirty: old(self)@.dirty && !written, ..old(self)@ }),
    {
        if written {
            self.dirty = false;
        }
    }
}

/// What `save` makes of the cache.
pub open spec fn saved(
    before: CacheView,
    after: CacheView,
    name: Seq<u8>,
    key: u32,
    byte_offset: u32,
    chapter: u16,
) -> bool {
    if !before.loaded {
        after == before
    } else {
        let at = slot_for(before.slots, name, key);
        &&& after.loaded
        &&& after.dirty
        &&& 0 <= at < after.slots.len()
        &&& saved_slot(after.slots[at], before.slots, name, key, byte_offset, chapter)
        &&& after.slots == with_slot(before.slots, at, after.slots[at])
    }
}

/// The line that the list shows of a slot.
pub open spec fn entry_of(s: BookmarkSlot) -> BmListEntry {
    BmListEntry { filename: s.filename, name_len: s.name_len, chapter: s.chapter }
}

/// The first `cap` of the slots below `k` that hold a bookmark with a name.
pub open spec fn listed(slots: Seq<BookmarkSlot>, k: int, cap: nat) -> Seq<int>
    decreases k,
{
    if k <= 0 {
        Seq::empty()
    } else {
        let before = listed(slots, k - 1, cap);
        if before.len() < cap && slots[k - 1].valid && slots[k - 1].name_len > 0 {
            before.push(k - 1)
        } else {
            before
        }
    }
}

/// `x` put behind the last slot of `order` whose generation is not lower.
pub open spec fn inserted(slots: Seq<BookmarkSlot>, order: Seq<int>, x: int) -> Seq<int>
    decreases order.len(),
{
    if order.len() == 0 || slots[order.last()].generation >= slots[x].generation {
        order.push(x)
    } else {
        inserted(slots, order.drop_last(), x).push(order.last())
    }
}

/// The slots of `chosen`, the highest generation first; slots of one
/// generation keep their order.
pub open spec fn ranked(slots: Seq<BookmarkSlot>, chosen: Seq<int>) -> Seq<int>
    decreases chosen.len(),
{
    if chosen.len() == 0 {
        Seq::empty()
    } else {
        inserted(slots, ranked(slots, chosen.drop_last()), chosen.last())
    }
}

impl CacheView {
    /// The list of at most `cap` bookmarks.
    pub open spec fn listing(self, cap: nat) -> Seq<BmListEntry> {
        if self.loaded {
            let order = ranked(self.slots, listed(self.slots, self.slots.len() as int, cap));
            Seq::new(order.len(), |j: int| entry_of(self.slots[order[j]]))
        } else {
            Seq::empty()
        }
    }
}

proof fn lemma_listed_in_range(slots: Seq<BookmarkSlot>, k: int, cap: nat)
    requires
        0 <= k <= slots.len(),
    ensures
        forall|j: int|
            0 <= j < listed(slots, k, cap).len() ==> 0 <= #[trigger] listed(slots, k, cap)[j] < k,
    decreases k,
{
    if k > 0 {
        lemma_listed_in_range(slots, k - 1, cap);
        let before = listed(slots, k - 1, cap);
        let now = listed(slots, k, cap);
        assert forall|j: int| 0 <= j < now.len() implies 0 <= #[trigger] now[j] < k by {
            if j < before.len() {
                assert(now[j] == before[j]);
            }
        }
    }
}

proof fn lemma_free_in_range(slots: Seq<BookmarkSlot>, i: int)
    requires
        0 <= i,
    ensures
        free_from(slots, i) matches Some(f) ==> i <= f < slots.len() && !slots[f].valid,
        free_from(slots, i) is None ==> forall|j: int|
            i <= j < slots.len() ==> (#[trigger] slots[j]).valid,
    decreases slots.len() - i,
{
    if i < slots.len() && slots[i].valid {
        lemma_free_in_range(slots, i + 1);
    }
}

impl CacheView {
    /// What a search for the bookmark of `name` gives.
    pub open spec fn found(self, name: Seq<u8>, key: u32) -> Option<BookmarkSlot> {
        if !self.loaded {
            None
        } else {
            match slot_of(self.slots, name, key) {
                Some(i) => Some(self.slots[i]),
                None => None,
            }
        }
    }
}

pub open spec fn bytes_of(file: Option<&[u8]>) -> Option<Seq<u8>> {
    match file {
        Some(data) => Some(data@),
        None => None,
    }
}

/// The cache holds the slots of `file` and nothing else.
pub open spec fn loaded_from(c: CacheView, file: Option<Seq<u8>>) -> bool {
    &&& c.loaded
    &&& !c.dirty
    &&& match file {
        Some(data) => {
            &&& c.slots.len() == slots_in(data.len() as int)
            &&& forall|i: int|
                0 <= i < c.slots.len() ==> (#[trigger] c.slots[i]).holds(
                    data.subrange(i * 48, i * 48 + 48),
                )
        },
        None => c.slots.len() == 0,
    }
}

/// A record read back is the slot that was written.
pub proof fn law_record_round_trip(s: BookmarkSlot, t: BookmarkSlot)
    requires
        s.tidy(),
        t.holds(s.record()),
    ensures
        t == s,
        s.record().len() == RECORD_LEN,
{
    let rec = s.record();
    let n = s.name_len as int;
    assert(rec[14] == s.name_len);
    assert(rec.subrange(16, 16 + n) =~= s.name()) by {
        assert(rec.subrange(16, 16 + n) =~= padded_name(s.name()).take(n));
    }
    assert(t.name() =~= s.name());
    bytes::lemma_le32(s.name_hash, rec, 0);
    bytes::lemma_le32(s.byte_offset, rec, 4);
    bytes::lemma_le16(s.chapter, rec, 8);
    bytes::lemma_le16(
        if s.valid {
            1u16
        } else {
            0u16
        },
        rec,
        10,
    );
    bytes::lemma_le16(s.generation, rec, 12);
    assert(t.filename =~= s.filename);
}

proof fn lemma_record_holds(s: BookmarkSlot)
    requires
        s.tidy(),
    ensures
        s.holds(s.record()),
{
    let rec = s.record();
    let n = s.name_len as int;
    assert(rec[14] == s.name_len);
    assert(rec.subrange(16, 16 + n) =~= s.name()) by {
        assert(rec.subrange(16, 16 + n) =~= padded_name(s.name()).take(n));
    }
    bytes::lemma_le32(s.name_hash, rec, 0);
    bytes::lemma_le32(s.byte_offset, rec, 4);
    bytes::lemma_le16(s.chapter, rec, 8);
    bytes::lemma_le16(
        if s.valid {
            1u16
        } else {
            0u16
        },
        rec,
        10,
    );
    bytes::lemma_le16(s.generation, rec, 12);
}

proof fn lemma_file_image(slots: Seq<BookmarkSlot>, i: int)
    requires
        forall|k: int| 0 <= k < slots.len() ==> (#[trigger] slots[k]).wf(),
    ensures
        file_image(slots).len() == 48 * slots.len(),
        0 <= i < slots.len() ==> file_image(slots).subrange(i * 48, i * 48 + 48)
            == slots[i].record(),
    decreases slots.len(),
{
    if slots.len() > 0 {
        let front = slots.drop_last();
        assert forall|k: int| 0 <= k < front.len() implies (#[trigger] front[k]).wf() by {
            assert(slots[k].wf());
        }
        lemma_file_image(front, i);
        let last = slots.last();
        assert(last.record().len() == 48);
        if 0 <= i < slots.len() - 1 {
            assert(file_image(slots).subrange(i * 48, i * 48 + 48) =~= file_image(front).subrange(
                i * 48,
                i * 48 + 48,
            ));
        } else if i == slots.len() - 1 {
            assert(file_image(slots).subrange(i * 48, i * 48 + 48) =~= last.record());
        }
    }
}

/// A cache that takes in the file another one wrote holds the same slots.
pub proof fn law_file_round_trip(slots: Seq<BookmarkSlot>, c: CacheView)
    requires
        slots.len() <= SLOTS,
        forall|k: int| 0 <= k < slots.len() ==> (#[trigger] slots[k]).tidy(),
        loaded_from(c, Some(file_image(slots))),
    ensures
        c.slots == slots,
{
    lemma_file_image(slots, 0);
    assert forall|i: int| 0 <= i < slots.len() implies slots[i] == #[trigger] c.slots[i] by {
        lemma_file_image(slots, i);
        law_record_round_trip(slots[i], c.slots[i]);
    }
    assert(c.slots =~= slots);
}

/// What a save changes waits to be written, and once that is done the file
/// holds the whole cache: until the next save, reading it again would change
/// nothing.
pub proof fn law_dirty_until_written(
    before: CacheView,
    after: CacheView,
    name: Seq<u8>,
    key: u32,
    byte_offset: u32,
    chapter: u16,
)
    requires
        before.loaded,
        before.slots.len() <= SLOTS,
        forall|k: int| 0 <= k < before.slots.len() ==> (#[trigger] before.slots[k]).tidy(),
        saved(before, after, name, key, byte_offset, chapter),
    ensures
        after.dirty,
        loaded_from(
            CacheView { dirty: false, ..after },
            Some(file_image(after.slots)),
        ),
{
    let slots = after.slots;
    let at = slot_for(before.slots, name, key);
    lemma_slot_for_in_range(before.slots, name, key);
    assert(slots[at].tidy()) by {
        let s = slots[at];
        if name.len() < 32 {
            assert(s.name() =~= name);
        } else {
            assert(s.name() =~= name.take(32));
        }
    }
    assert forall|k: int| 0 <= k < slots.len() implies (#[trigger] slots[k]).tidy() by {
        if k != at {
            assert(slots[k] == before.slots[k]);
        }
    }
    lemma_file_image(slots, 0);
    assert forall|i: int| 0 <= i < slots.len() implies (#[trigger] slots[i]).holds(
        file_image(slots).subrange(i * 48, i * 48 + 48),
    ) by {
        lemma_file_image(slots, i);
        lemma_record_holds(slots[i]);
    }
}

/// Every book has one bookmark at most.
pub open spec fn no_book_twice(slots: Seq<BookmarkSlot>) -> bool {
    forall|i: int, j: int|
        #![trigger slots[i], slots[j]]
        0 <= i < j < slots.len() && slots[j].valid ==> !slots[i].is_for(
            slots[j].name(),
            slots[j].name_hash,
        )
}

/// Saving never gives a book a second bookmark. A name of more than 32 bytes
/// is cut off when it is saved, and not found again, so it is left out.
pub proof fn law_no_book_twice(
    before: CacheView,
    after: CacheView,
    name: Seq<u8>,
    key: u32,
    byte_offset: u32,
    chapter: u16,
)
    requires
        before.loaded,
        before.slots.len() <= SLOTS,
        name.len() <= FILENAME_CAP,
        saved(before, after, name, key, byte_offset, chapter),
        no_book_twice(before.slots),
    ensures
        no_book_twice(after.slots),
{
    let old_slots = before.slots;
    let slots = after.slots;
    let at = slot_for(old_slots, name, key);
    lemma_slot_for_in_range(old_slots, name, key);
    lemma_slot_from(old_slots, name, key, 0);
    assert(slots[at].name() =~= name) by {
        if name.len() == 32 {
            assert(name.take(32) =~= name);
        }
    }
    assert forall|k: int| 0 <= k < slots.len() && k != at implies {
        &&& slots[k] == old_slots[k]
        &&& !(#[trigger] slots[k]).is_for(name, key)
    } by {
        match slot_of(old_slots, name, key) {
            Some(t) => {
                if old_slots[k].is_for(name, key) {
                    bytes::lemma_eq_icase_flip(old_slots[k].name(), name);
                    bytes::lemma_eq_icase_chain(old_slots[t].name(), name, old_slots[k].name());
                    assert(old_slots[t].is_for(old_slots[k].name(), old_slots[k].name_hash));
                }
            },
            None => {},
        }
    }
    assert forall|i: int, j: int|
        #![trigger slots[i], slots[j]]
        0 <= i < j < slots.len() && slots[j].valid implies !slots[i].is_for(
        slots[j].name(),
        slots[j].name_hash,
    ) by {
        if i == at && slots[i].is_for(slots[j].name(), slots[j].name_hash) {
            bytes::lemma_eq_icase_flip(name, slots[j].name());
            assert(slots[j].is_for(name, key));
        }
    }
}

proof fn lemma_slot_from(slots: Seq<BookmarkSlot>, name: Seq<u8>, key: u32, i: int)
    requires
        0 <= i <= slots.len(),
    ensures
        match slot_from(slots, name, key, i) {
            Some(t) => i <= t < slots.len() && slots[t].is_for(name, key) && forall|j: int|
                i <= j < t ==> !(#[trigger] slots[j]).is_for(name, key),
            None => forall|j: int| i <= j < slots.len() ==> !(#[trigger] slots[j]).is_for(name, key),
        },
    decreases slots.len() - i,
{
    if i < slots.len() && !slots[i].is_for(name, key) {
        lemma_slot_from(slots, name, key, i + 1);
    }
}

proof fn lemma_slot_from_is(slots: Seq<BookmarkSlot>, name: Seq<u8>, key: u32, i: int, t: int)
    requires
        0 <= i <= t < slots.len(),
        slots[t].is_for(name, key),
        forall|j: int| i <= j < t ==> !(#[trigger] slots[j]).is_for(name, key),
    ensures
        slot_from(slots, name, key, i) == Some(t),
{
    lemma_slot_from(slots, name, key, i);
}

proof fn lemma_oldest_in_range(slots: Seq<BookmarkSlot>)
    ensures
        oldest(slots) matches Some(i) ==> {
            &&& 0 <= i < slots.len()
            &&& slots[i].valid
            &&& slots[i].generation < u16::MAX
            &&& forall|j: int|
                0 <= j < slots.len() && (#[trigger] slots[j]).valid ==> slots[i].generation
                    <= slots[j].generation
            &&& forall|j: int|
                0 <= j < i && (#[trigger] slots[j]).valid ==> slots[i].generation
                    < slots[j].generation
        },
        oldest(slots) is None ==> forall|j: int|
            0 <= j < slots.len() && (#[trigger] slots[j]).valid ==> slots[j].generation
                == u16::MAX,
    decreases slots.len(),
{
    if slots.len() > 0 {
        let front = slots.drop_last();
        lemma_oldest_in_range(front);
        assert forall|j: int| 0 <= j < front.len() implies slots[j] == front[j] by {}
    }
}

/// Where a new book has to displace one, the one displaced has the lowest
/// generation of all, and is the first of those that have it.
pub proof fn law_oldest_is_displaced(slots: Seq<BookmarkSlot>, name: Seq<u8>, key: u32)
    requires
        slots.len() == SLOTS,
        slot_of(slots, name, key) is None,
        free_from(slots, 0) is None,
        exists|j: int| 0 <= j < slots.len() && (#[trigger] slots[j]).generation < u16::MAX,
    ensures
        ({
            let at = slot_for(slots, name, key);
            &&& 0 <= at < slots.len()
            &&& forall|j: int|
                0 <= j < slots.len() ==> slots[at].generation <= (#[trigger] slots[j]).generation
            &&& forall|j: int|
                0 <= j < at ==> slots[at].generation < (#[trigger] slots[j]).generation
        }),
{
    lemma_oldest_in_range(slots);
    lemma_free_in_range(slots, 0);
}

proof fn lemma_slot_for_in_range(slots: Seq<BookmarkSlot>, name: Seq<u8>, key: u32)
    requires
        slots.len() <= SLOTS,
    ensures
        0 <= slot_for(slots, name, key) <= slots.len(),
        slot_for(slots, name, key) < SLOTS,
{
    lemma_slot_from(slots, name, key, 0);
    lemma_free_in_range(slots, 0);
    lemma_oldest_in_range(slots);
}

/// A bookmark that was saved is found again, whatever the case of the letters
/// the book is asked for by. A name of more than 32 bytes is cut off when it
/// is saved, so it is left out.
pub proof fn law_find_after_save(
    before: CacheView,
    after: CacheView,
    name: Seq<u8>,
    key: u32,
    byte_offset: u32,
    chapter: u16,
    asked: Seq<u8>,
)
    requires
        before.loaded,
        before.slots.len() <= SLOTS,
        name.len() <= FILENAME_CAP,
        saved(before, after, name, key, byte_offset, chapter),
        bytes::eq_icase(name, asked),
    ensures
        after.found(asked, key) matches Some(s) && s.byte_offset == byte_offset && s.chapter
            == chapter && s.name() == name,
{
    let slots = before.slots;
    let at = slot_for(slots, name, key);
    lemma_slot_for_in_range(slots, name, key);
    lemma_slot_from(slots, name, key, 0);
    let s = after.slots[at];
    assert(s.name() =~= name) by {
        if name.len() == 32 {
            assert(name.take(32) =~= name);
        }
    }
    assert forall|j: int| 0 <= j < at implies !(#[trigger] after.slots[j]).is_for(asked, key) by {
        assert(after.slots[j] == slots[j]);
        if slots[j].is_for(asked, key) {
            bytes::lemma_eq_icase_flip(name, asked);
            bytes::lemma_eq_icase_chain(slots[j].name(), asked, name);
            assert(slots[j].is_for(name, key));
            assert(false);
        }
    }
    lemma_slot_from_is(after.slots, asked, key, 0, at);
}

/// Saving a bookmark leaves those of other books as they are, unless the
/// cache is full and one has to go.
pub proof fn law_save_keeps_others(
    before: CacheView,
    after: CacheView,
    name: Seq<u8>,
    key: u32,
    byte_offset: u32,
    chapter: u16,
    other: Seq<u8>,
    other_key: u32,
)
    requires
        before.loaded,
        before.slots.len() <= SLOTS,
        name.len() <= FILENAME_CAP,
        saved(before, after, name, key, byte_offset, chapter),
        !bytes::eq_icase(name, other) || key != other_key,
        slot_of(before.slots, name, key) is Some || free_from(before.slots, 0) is Some
            || before.slots.len() < SLOTS,
    ensures
        after.found(other, other_key) == before.found(other, other_key),
{
    let slots = before.slots;
    let at = slot_for(slots, name, key);
    lemma_slot_for_in_range(slots, name, key);
    lemma_slot_from(slots, name, key, 0);
    lemma_free_in_range(slots, 0);
    let s = after.slots[at];
    assert(s.name() =~= name) by {
        if name.len() == 32 {
            assert(name.take(32) =~= name);
        }
    }
    assert(!s.is_for(other, other_key));
    if at < slots.len() {
        if slots[at].is_for(other, other_key) {
            bytes::lemma_eq_icase_flip(slots[at].name(), name);
            bytes::lemma_eq_icase_chain(name, slots[at].name(), other);
            assert(false);
        }
    }
    lemma_slot_from(slots, other, other_key, 0);
    lemma_slot_from(after.slots, other, other_key, 0);
    match slot_of(slots, other, other_key) {
        Some(t) => {
            assert(after.slots[t] == slots[t]);
            assert forall|j: int| 0 <= j < t implies !(#[trigger] after.slots[j]).is_for(
                other,
                other_key,
            ) by {
                if j != at {
                    assert(after.slots[j] == slots[j]);
                }
            }
            lemma_slot_from_is(after.slots, other, other_key, 0, t);
        },
        None => {
            match slot_of(after.slots, other, other_key) {
                Some(t) => {
                    assert(t != at);
                    assert(after.slots[t] == slots[t]);
                },
                None => {},
            }
        },
    }
}

proof fn lemma_max_generation(slots: Seq<BookmarkSlot>)
    ensures
        forall|j: int|
            0 <= j < slots.len() && (#[trigger] slots[j]).valid ==> slots[j].generation
                <= max_generation(slots),
    decreases slots.len(),
{
    if slots.len() > 0 {
        lemma_max_generation(slots.drop_last());
        assert forall|j: int| 0 <= j < slots.len() && (#[trigger] slots[j]).valid implies slots[j].generation
            <= max_generation(slots) by {
            if j < slots.len() - 1 {
                assert(slots.drop_last()[j] == slots[j]);
            }
        }
    }
}

/// The bookmark saved last has the highest generation, whether its book is new
/// or saved again. Left out is a cache whose generations have reached 65535,
/// after which they start over.
pub proof fn law_saved_is_newest(
    before: CacheView,
    after: CacheView,
    name: Seq<u8>,
    key: u32,
    byte_offset: u32,
    chapter: u16,
)
    requires
        before.loaded,
        before.slots.len() <= SLOTS,
        saved(before, after, name, key, byte_offset, chapter),
        max_generation(before.slots) < u16::MAX,
    ensures
        ({
            let at = slot_for(before.slots, name, key);
            forall|j: int|
                0 <= j < after.slots.len() && j != at && (#[trigger] after.slots[j]).valid
                    ==> after.slots[j].generation < after.slots[at].generation
        }),
{
    let at = slot_for(before.slots, name, key);
    lemma_slot_for_in_range(before.slots, name, key);
    lemma_max_generation(before.slots);
    assert forall|j: int|
        0 <= j < after.slots.len() && j != at && (#[trigger] after.slots[j]).valid implies after.slots[j].generation
        < after.slots[at].generation by {
        assert(after.slots[j] == before.slots[j]);
    }
}

/// `order` goes from the highest generation to the lowest; among slots of one
/// generation the first slot comes first.
pub open spec fn by_generation(slots: Seq<BookmarkSlot>, order: Seq<int>) -> bool {
    forall|i: int, j: int|
        #![trigger order[i], order[j]]
        0 <= i < j < order.len() ==> slots[order[i]].generation > slots[order[j]].generation || (
        slots[order[i]].generation == slots[order[j]].generation && order[i] < order[j])
}

proof fn lemma_inserted(slots: Seq<BookmarkSlot>, order: Seq<int>, x: int)
    requires
        by_generation(slots, order),
        forall|i: int| 0 <= i < order.len() ==> #[trigger] order[i] < x,
    ensures
        by_generation(slots, inserted(slots, order, x)),
        inserted(slots, order, x).to_multiset() == order.to_multiset().insert(x),
        inserted(slots, order, x).len() == order.len() + 1,
        forall|i: int|
            0 <= i < order.len() + 1 ==> #[trigger] inserted(slots, order, x)[i] <= x,
        order.len() > 0 ==> forall|i: int|
            0 <= i < order.len() + 1 ==> {
                let y = #[trigger] inserted(slots, order, x)[i];
                y == x || order.contains(y)
            },
    decreases order.len(),
{
    broadcast use vstd::seq_lib::group_to_multiset_ensures;

    let r = inserted(slots, order, x);
    if order.len() == 0 || slots[order.last()].generation >= slots[x].generation {
        assert forall|i: int| 0 <= i < order.len() implies slots[order[i]].generation
            >= slots[x].generation by {
            let _ = order[order.len() - 1];
        }
        assert forall|i: int| 0 <= i < r.len() implies r[i] == x || order.contains(r[i]) by {
            if i < order.len() {
                assert(order[i] == r[i]);
            }
        }
    } else {
        let front = order.drop_last();
        let last = order.last();
        assert forall|i: int| 0 <= i < front.len() implies #[trigger] front[i] < x by {
            assert(front[i] == order[i]);
        }
        assert(by_generation(slots, front)) by {
            assert forall|i: int, j: int|
                #![trigger front[i], front[j]]
                0 <= i < j < front.len() implies slots[front[i]].generation
                > slots[front[j]].generation || (slots[front[i]].generation
                == slots[front[j]].generation && front[i] < front[j]) by {
                assert(front[i] == order[i] && front[j] == order[j]);
            }
        }
        lemma_inserted(slots, front, x);
        let r0 = inserted(slots, front, x);
        assert(r == r0.push(last));
        assert(order =~= front.push(last));
        assert(r.to_multiset() =~= order.to_multiset().insert(x));
        assert forall|i: int| 0 <= i < r0.len() implies r0[i] == x || front.contains(r0[i]) by {
            if front.len() == 0 {
                assert(r0 =~= seq![x]);
            }
        }
        assert forall|i: int| 0 <= i < r.len() implies r[i] == x || order.contains(r[i]) by {
            if i < r0.len() {
                assert(r[i] == r0[i]);
                if r0[i] != x {
                    let m = choose|m: int| 0 <= m < front.len() && front[m] == r0[i];
                    assert(order[m] == r0[i]);
                }
            } else {
                assert(order[order.len() - 1] == last);
            }
        }
        assert forall|i: int, j: int|
            #![trigger r[i], r[j]]
            0 <= i < j < r.len() implies slots[r[i]].generation > slots[r[j]].generation || (
        slots[r[i]].generation == slots[r[j]].generation && r[i] < r[j]) by {
            if j < r0.len() {
                assert(r[i] == r0[i] && r[j] == r0[j]);
            } else {
                assert(r[j] == last);
                assert(r[i] == r0[i]);
                if r0[i] != x {
                    let m = choose|m: int| 0 <= m < front.len() && front[m] == r0[i];
                    assert(order[m] == r0[i]);
                    assert(order[order.len() - 1] == last);
                }
            }
        }
    }
}

proof fn lemma_ranked(slots: Seq<BookmarkSlot>, chosen: Seq<int>)
    requires
        forall|i: int, j: int|
            #![trigger chosen[i], chosen[j]]
            0 <= i < j < chosen.len() ==> chosen[i] < chosen[j],
    ensures
        by_generation(slots, ranked(slots, chosen)),
        ranked(slots, chosen).to_multiset() == chosen.to_multiset(),
        ranked(slots, chosen).len() == chosen.len(),
        chosen.len() > 0 ==> forall|i: int|
            0 <= i < chosen.len() ==> #[trigger] ranked(slots, chosen)[i] <= chosen.last(),
    decreases chosen.len(),
{
    broadcast use vstd::seq_lib::group_to_multiset_ensures;

    if chosen.len() > 0 {
        let front = chosen.drop_last();
        assert forall|i: int, j: int|
            #![trigger front[i], front[j]]
            0 <= i < j < front.len() implies front[i] < front[j] by {
            assert(front[i] == chosen[i] && front[j] == chosen[j]);
        }
        lemma_ranked(slots, front);
        let r0 = ranked(slots, front);
        let x = chosen.last();
        assert forall|i: int| 0 <= i < r0.len() implies #[trigger] r0[i] < x by {
            assert(r0[i] <= front.last());
            assert(chosen[chosen.len() - 2] < chosen[chosen.len() - 1]);
        }
        lemma_inserted(slots, r0, x);
        assert(chosen =~= front.push(x));
    }
}

proof fn lemma_listed_ascends(slots: Seq<BookmarkSlot>, k: int, cap: nat)
    requires
        0 <= k <= slots.len(),
    ensures
        forall|i: int, j: int|
            #![trigger listed(slots, k, cap)[i], listed(slots, k, cap)[j]]
            0 <= i < j < listed(slots, k, cap).len() ==> listed(slots, k, cap)[i] < listed(
                slots,
                k,
                cap,
            )[j],
    decreases k,
{
    if k > 0 {
        lemma_listed_ascends(slots, k - 1, cap);
        lemma_listed_in_range(slots, k - 1, cap);
        let before = listed(slots, k - 1, cap);
        let now = listed(slots, k, cap);
        assert forall|i: int, j: int|
            #![trigger now[i], now[j]]
            0 <= i < j < now.len() implies now[i] < now[j] by {
            assert(now[i] == before[i]);
            if j < before.len() {
                assert(now[j] == before[j]);
            }
        }
    }
}

/// The list shows each of the bookmarks it is about once, from the highest
/// generation to the lowest.
pub proof fn law_listing_is_sorted(slots: Seq<BookmarkSlot>, cap: nat)
    ensures
        ({
            let chosen = listed(slots, slots.len() as int, cap);
            let order = ranked(slots, chosen);
            &&& by_generation(slots, order)
            &&& order.to_multiset() == chosen.to_multiset()
            &&& order.len() == chosen.len()
        }),
{
    lemma_listed_ascends(slots, slots.len() as int, cap);
    lemma_ranked(slots, listed(slots, slots.len() as int, cap));
}

/// A record has each field at its place: hash, offset, chapter, whether it
/// counts, generation, length of the name, and the name.
pub proof fn law_record_layout(s: BookmarkSlot)
    requires
        s.wf(),
    ensures
        ({
            let r = s.record();
            &&& r.len() == 48
            &&& bytes::le32(r, 0) == s.name_hash
            &&& bytes::le32(r, 4) == s.byte_offset
            &&& bytes::le16(r, 8) == s.chapter
            &&& bytes::le16(r, 10) == if s.valid {
                1int
            } else {
                0
            }
            &&& bytes::le16(r, 12) == s.generation
            &&& r[14] == s.name_len
            &&& r[15] == 0
            &&& r.subrange(16, 16 + s.name_len) == s.name()
            &&& forall|k: int| 16 + s.name_len <= k < 48 ==> #[trigger] r[k] == 0
        }),
{
    let r = s.record();
    bytes::lemma_le32(s.name_hash, r, 0);
    bytes::lemma_le32(s.byte_offset, r, 4);
    bytes::lemma_le16(s.chapter, r, 8);
    bytes::lemma_le16(
        if s.valid {
            1u16
        } else {
            0u16
        },
        r,
        10,
    );
    bytes::lemma_le16(s.generation, r, 12);
    assert(r.subrange(16, 16 + s.name_len) =~= s.name());
}

proof fn lemma_listed_all(slots: Seq<BookmarkSlot>, k: int, cap: nat, i: int)
    requires
        0 <= i < k <= slots.len(),
        slots[i].valid,
        slots[i].name_len > 0,
        listed(slots, k, cap).len() < cap,
    ensures
        listed(slots, k, cap).contains(i),
    decreases k,
{
    let before = listed(slots, k - 1, cap);
    let now = listed(slots, k, cap);
    if i < k - 1 {
        lemma_listed_all(slots, k - 1, cap, i);
        let j = choose|j: int| 0 <= j < before.len() && before[j] == i;
        assert(now[j] == i);
    } else {
        assert(now.last() == i);
        assert(now[now.len() - 1] == i);
    }
}

proof fn lemma_listed_valid(slots: Seq<BookmarkSlot>, k: int, cap: nat)
    requires
        0 <= k <= slots.len(),
    ensures
        listed(slots, k, cap).len() <= cap,
        forall|j: int|
            0 <= j < listed(slots, k, cap).len() ==> {
                let at = #[trigger] listed(slots, k, cap)[j];
                0 <= at < k && slots[at].valid && slots[at].name_len > 0
            },
    decreases k,
{
    if k > 0 {
        lemma_listed_valid(slots, k - 1, cap);
        let before = listed(slots, k - 1, cap);
        let now = listed(slots, k, cap);
        assert forall|j: int| 0 <= j < now.len() implies {
            let at = #[trigger] now[j];
            0 <= at < k && slots[at].valid && slots[at].name_len > 0
        } by {
            if j < before.len() {
                assert(now[j] == before[j]);
            }
        }
    }
}

/// Every bookmark with a name is in the list, as long as the list has room, by
/// its name and its chapter. The list holds nothing else, and no more than it
/// has room for.
pub proof fn law_every_bookmark_is_listed(c: CacheView, cap: nat, i: int)
    requires
        c.loaded,
        0 <= i < c.slots.len(),
        c.slots[i].valid,
        c.slots[i].name_len > 0,
    ensures
        c.listing(cap).len() <= cap,
        c.listing(cap).len() < cap ==> c.listing(cap).contains(
            BmListEntry {
                filename: c.slots[i].filename,
                name_len: c.slots[i].name_len,
                chapter: c.slots[i].chapter,
            },
        ),
        forall|j: int|
            0 <= j < c.listing(cap).len() ==> exists|k: int|
                0 <= k < c.slots.len() && (#[trigger] c.slots[k]).valid && c.slots[k].name_len > 0
                    && entry_of(c.slots[k]) == #[trigger] c.listing(cap)[j],
{
    broadcast use vstd::seq_lib::group_to_multiset_ensures;

    let chosen = listed(c.slots, c.slots.len() as int, cap);
    let order = ranked(c.slots, chosen);
    law_listing_is_sorted(c.slots, cap);
    lemma_listed_valid(c.slots, c.slots.len() as int, cap);
    if chosen.len() < cap {
        lemma_listed_all(c.slots, c.slots.len() as int, cap, i);
        assert(chosen.to_multiset().count(i) > 0);
        assert(order.contains(i));
        let j = choose|j: int| 0 <= j < order.len() && order[j] == i;
        assert(c.listing(cap)[j] == entry_of(c.slots[i]));
    }
    assert forall|j: int| 0 <= j < c.listing(cap).len() implies exists|k: int|
        0 <= k < c.slots.len() && (#[trigger] c.slots[k]).valid && c.slots[k].name_len > 0
            && entry_of(c.slots[k]) == #[trigger] c.listing(cap)[j] by {
        let at = order[j];
        assert(order.to_multiset().count(at) > 0);
        assert(chosen.contains(at));
        let q = choose|q: int| 0 <= q < chosen.len() && chosen[q] == at;
        assert(c.slots[chosen[q]].valid);
    }
}

} // verus!
