use vstd::prelude::*;
use std::collections::BTreeMap;
use vstd::string::StringSliceAdditionalSpecFns;

verus! {

broadcast use vstd::std_specs::btree::group_btree_axioms;

/// Link counts of inodes, keyed by inode number.
///
/// Every recorded count is at least one: an inode whose last link goes away
/// is dropped from the table.
pub struct LinkManager {
    inode_to_link_count_map: BTreeMap<u32, u32>,
}

/// Every recorded link count is positive.
pub open spec fn counts_positive(m: Map<u32, u32>) -> bool {
    forall|id: u32| #[trigger] m.contains_key(id) ==> m[id] >= 1
}

/// The table after one more link to `id`: a fresh inode starts at one.
pub open spec fn after_increase(m: Map<u32, u32>, id: u32) -> Map<u32, u32> {
    if m.contains_key(id) {
        m.insert(id, (m[id] + 1) as u32)
    } else {
        m.insert(id, 1)
    }
}

/// The table after one link to `id` is dropped: a count above one goes down
/// by one, a count of one (the last link) removes the inode.
pub open spec fn after_decrease(m: Map<u32, u32>, id: u32) -> Map<u32, u32> {
    if m.contains_key(id) && m[id] > 1 {
        m.insert(id, (m[id] - 1) as u32)
    } else {
        m.remove(id)
    }
}

/// A further link to `id` can be counted without overflow.
pub open spec fn can_increase(m: Map<u32, u32>, id: u32) -> bool {
    m.contains_key(id) ==> m[id] < u32::MAX
}

impl View for LinkManager {
    type V = Map<u32, u32>;

    closed spec fn view(&self) -> Map<u32, u32> {
        self.inode_to_link_count_map@
    }
}

impl LinkManager {
    /// The table is well formed: every count is positive.
    pub open spec fn wf(&self) -> bool {
        counts_positive(self@)
    }

    /// A table that knows only the root directory, with one link.
    pub fn new(root_inode_id: u32) -> (res: Self)
        ensures
            res.wf(),
            res@ == Map::<u32, u32>::empty().insert(root_inode_id, 1),
    {
        let mut inode_to_link_count_map = BTreeMap::new();
        inode_to_link_count_map.insert(root_inode_id, 1);
        LinkManager { inode_to_link_count_map }
    }

    /// The link count of `inode_id`. An inode that the table does not know
    /// yet (an application loaded at boot) is recorded with one link.
    pub fn get_link_count(&mut self, inode_id: u32) -> (res: u32)
        requires
            old(self).wf(),
        ensures
            final(self).wf(),
            old(self)@.contains_key(inode_id) ==> res == old(self)@[inode_id] && final(self)@
                == old(self)@,
            !old(self)@.contains_key(inode_id) ==> res == 1 && final(self)@ == old(self)@.insert(
                inode_id,
                1,
            ),
            res >= 1,
    {
        match self.inode_to_link_count_map.get(&inode_id) {
            Some(ret) => *ret,
            None => {
                self.increase_link_count(inode_id);
                1
            },
        }
    }

    /// Drops one link of `inode_id`. Returns `Some(())` while links remain,
    /// `None` when the last link went away (the inode leaves the table) or the
    /// inode was not recorded.
    pub fn descrease_link_count(&mut self, inode_id: u32) -> (res: Option<()>)
        requires
            old(self).wf(),
        ensures
            final(self).wf(),
            final(self)@ == after_decrease(old(self)@, inode_id),
            res is Some <==> (old(self)@.contains_key(inode_id) && old(self)@[inode_id] > 1),
    {
        match self.inode_to_link_count_map.get(&inode_id) {
            Some(count) => {
                let c: u32 = *count;
                if c > 1 {
                    self.inode_to_link_count_map.insert(inode_id, c - 1);
                    Some(())
                } else {
                    self.inode_to_link_count_map.remove(&inode_id);
                    None
                }
            },
            None => {
                assert(self@ =~= after_decrease(self@, inode_id));
                None
            },
        }
    }

    /// Whether one more link of `inode_id` can be counted: its count, if
    /// recorded, is below `u32::MAX`.
    pub fn link_count_can_grow(&self, inode_id: u32) -> (res: bool)
        ensures
            res == can_increase(self@, inode_id),
    {
        match self.inode_to_link_count_map.get(&inode_id) {
            Some(count) => *count < u32::MAX,
            None => true,
        }
    }

    /// Records one more link of `inode_id`; an unknown inode starts at one.
    pub fn increase_link_count(&mut self, inode_id: u32)
        requires
            old(self).wf(),
            can_increase(old(self)@, inode_id),
        ensures
            final(self).wf(),
            final(self)@ == after_increase(old(self)@, inode_id),
    {
        match self.inode_to_link_count_map.get(&inode_id) {
            Some(count) => {
                let c: u32 = *count;
                self.inode_to_link_count_map.insert(inode_id, c + 1);
            },
            None => {
                self.inode_to_link_count_map.insert(inode_id, 1);
            },
        }
    }
}

/// Increasing and then decreasing the link count of an inode gives back the
/// table it started from, and the decrease reports remaining links exactly
/// when the inode was recorded before the increase.
pub proof fn lemma_increase_then_decrease(m: Map<u32, u32>, id: u32)
    requires
        counts_positive(m),
        can_increase(m, id),
    ensures
        after_decrease(after_increase(m, id), id) == m,
        (after_increase(m, id).contains_key(id) && after_increase(m, id)[id] > 1)
            <==> m.contains_key(id),
{
    if m.contains_key(id) {
        assert(after_decrease(after_increase(m, id), id) =~= m);
    } else {
        assert(after_decrease(after_increase(m, id), id) =~= m);
    }
}

/// One more link adds exactly one to a recorded count and starts an
/// unrecorded inode at one; no other inode changes.
pub proof fn lemma_after_increase(m: Map<u32, u32>, id: u32)
    requires
        can_increase(m, id),
    ensures
        after_increase(m, id).contains_key(id),
        m.contains_key(id) ==> after_increase(m, id)[id] == m[id] + 1,
        !m.contains_key(id) ==> after_increase(m, id)[id] == 1,
        forall|k: u32|
            k != id ==> (#[trigger] after_increase(m, id).contains_key(k) == m.contains_key(k)
                && (m.contains_key(k) ==> after_increase(m, id)[k] == m[k])),
{
}

/// One link fewer subtracts exactly one from a count above one; an inode at
/// its last link (or unrecorded) is not in the table afterwards; no other
/// inode changes.
pub proof fn lemma_after_decrease(m: Map<u32, u32>, id: u32)
    ensures
        m.contains_key(id) && m[id] > 1 ==> after_decrease(m, id).contains_key(id)
            && after_decrease(m, id)[id] == m[id] - 1,
        !(m.contains_key(id) && m[id] > 1) ==> !after_decrease(m, id).contains_key(id),
        forall|k: u32|
            k != id ==> (#[trigger] after_decrease(m, id).contains_key(k) == m.contains_key(k)
                && (m.contains_key(k) ==> after_decrease(m, id)[k] == m[k])),
{
}

/// A further link can be counted exactly when the count, if recorded, is
/// below `u32::MAX`; and every count of a well-formed table is at least one.
pub proof fn lemma_link_bounds(m: Map<u32, u32>, id: u32)
    ensures
        can_increase(m, id) <==> (m.contains_key(id) ==> m[id] + 1 <= u32::MAX),
        counts_positive(m) && m.contains_key(id) ==> m[id] > 0,
{
}

/// The table after a lookup of the link count of `id`.
pub open spec fn after_lookup(m: Map<u32, u32>, id: u32) -> Map<u32, u32> {
    if m.contains_key(id) {
        m
    } else {
        m.insert(id, 1)
    }
}

/// A lookup records an unknown inode with one link and leaves every other
/// entry as it was.
pub proof fn lemma_after_lookup(m: Map<u32, u32>, id: u32)
    ensures
        after_lookup(m, id).contains_key(id),
        m.contains_key(id) ==> after_lookup(m, id)[id] == m[id],
        !m.contains_key(id) ==> after_lookup(m, id)[id] == 1,
        forall|k: u32|
            k != id ==> (#[trigger] after_lookup(m, id).contains_key(k) == m.contains_key(k) && (
            m.contains_key(k) ==> after_lookup(m, id)[k] == m[k])),
{
}

/// A second lookup of the same inode changes nothing: the first one already
/// recorded the inode, and both report the same count.
pub proof fn lemma_lookup_stable(m: Map<u32, u32>, id: u32)
    ensures
        after_lookup(after_lookup(m, id), id) == after_lookup(m, id),
        after_lookup(m, id).contains_key(id),
        after_lookup(m, id)[id] == if m.contains_key(id) {
            m[id]
        } else {
            1
        },
{
}

/// Flags of the open call: the bits of `RDONLY`, `WRONLY`, `RDWR`, `CREATE`
/// and `TRUNC`.
#[derive(Clone, Copy, Debug, PartialEq, Eq, Structural)]
pub struct OpenFlags {
    bits: u32,
}

/// Read only: no bit set.
pub const RDONLY: u32 = 0;

/// Write only.
pub const WRONLY: u32 = 1;

/// Read and write.
pub const RDWR: u32 = 2;

/// Create the file when it does not exist.
pub const CREATE: u32 = 512;

/// Truncate the file to size zero.
pub const TRUNC: u32 = 1024;

/// Every bit that names a flag.
pub open spec fn all_open_bits() -> u32 {
    WRONLY | RDWR | CREATE | TRUNC
}

/// The flag bits are `WRONLY` (bit 0), `RDWR` (bit 1), `CREATE` (bit 9) and
/// `TRUNC` (bit 10): a value names only flags exactly when it is below 2048
/// and has bits 2 to 8 clear.
pub proof fn lemma_open_bits(bits: u32)
    ensures
        all_open_bits() == 1539,
        (bits & !all_open_bits()) == 0 <==> (bits < 2048 && (bits / 4) % 128 == 0),
{
    assert(1u32 | 2u32 | 512u32 | 1024u32 == 1539u32) by (bit_vector);
    assert((bits & !1539u32) == 0 <==> (bits < 2048 && (bits / 4) % 128 == 0)) by (bit_vector);
}

/// What the open call may do with the file, and whether its data goes first.
#[derive(Clone, Copy, Debug, PartialEq, Eq, Structural)]
pub enum OpenAction {
    /// No such file: the call gives nothing.
    NotFound,
    /// Open the existing file; `clear` empties it first.
    Open { clear: bool, readable: bool, writable: bool },
    /// Create the file in the root directory and open it; the new inode
    /// gets its first link.
    Create { readable: bool, writable: bool },
}

/// What the link call does.
#[derive(Clone, Copy, Debug, PartialEq, Eq, Structural)]
pub enum LinkatAction {
    /// The call answers -1 and nothing changes.
    Reject,
    /// Add a directory entry for inode `inode_id` under the new name; the
    /// call answers 0.
    Link { inode_id: u32 },
}

/// What the unlink call does.
#[derive(Clone, Copy, Debug, PartialEq, Eq, Structural)]
pub enum UnlinkAction {
    /// No such file: the call answers -1.
    NotFound,
    /// Remove the directory entry, and the file's data too when this was its
    /// last link; the call answers 0.
    Remove { last_link: bool },
}

impl OpenFlags {
    /// The bits of the flags.
    pub closed spec fn spec_bits(&self) -> u32 {
        self.bits
    }

    /// The flags of `bits`, or nothing when a bit names no flag.
    pub fn from_bits(bits: u32) -> (res: Option<OpenFlags>)
        ensures
            res is Some <==> (bits & !all_open_bits()) == 0,
            res matches Some(f) ==> f.spec_bits() == bits,
    {
        if bits & !(WRONLY | RDWR | CREATE | TRUNC) == 0 {
            Some(OpenFlags { bits })
        } else {
            None
        }
    }

    /// The bits of the flags.
    pub fn bits(&self) -> (res: u32)
        ensures
            res == self.spec_bits(),
    {
        self.bits
    }

    /// No flag is set.
    pub fn is_empty(&self) -> (res: bool)
        ensures
            res == (self.spec_bits() == 0),
    {
        self.bits == 0
    }

    /// Every bit of `flag` is set.
    pub fn contains(&self, flag: u32) -> (res: bool)
        ensures
            res == ((self.spec_bits() & flag) == flag),
    {
        self.bits & flag == flag
    }

    /// Whether the file is opened for reading and for writing: no flag means
    /// read only, `WRONLY` write only, anything else both. The other bits are
    /// not checked.
    pub fn read_write(&self) -> (res: (bool, bool))
        ensures
            self.spec_bits() == 0 ==> res == (true, false),
            self.spec_bits() != 0 && (self.spec_bits() & WRONLY) == WRONLY ==> res == (false, true),
            self.spec_bits() != 0 && (self.spec_bits() & WRONLY) != WRONLY ==> res == (true, true),
    {
        if self.is_empty() {
            (true, false)
        } else if self.contains(WRONLY) {
            (false, true)
        } else {
            (true, true)
        }
    }
}

/// What opening a file with `flags` does, given whether the root directory
/// already holds a file of that name. With `CREATE`, an existing file is
/// emptied and opened and a missing one is created; without it, an existing
/// file is opened (emptied first under `TRUNC`) and a missing one is not
/// found.
pub fn open_file(flags: &OpenFlags, found: bool) -> (res: OpenAction)
    ensures
        ({
            let (r, w) = if flags.spec_bits() == 0 {
                (true, false)
            } else if (flags.spec_bits() & WRONLY) == WRONLY {
                (false, true)
            } else {
                (true, true)
            };
            let create = (flags.spec_bits() & CREATE) == CREATE;
            let trunc = (flags.spec_bits() & TRUNC) == TRUNC;
            res == if create {
                if found {
                    OpenAction::Open { clear: true, readable: r, writable: w }
                } else {
                    OpenAction::Create { readable: r, writable: w }
                }
            } else if found {
                OpenAction::Open { clear: trunc, readable: r, writable: w }
            } else {
                OpenAction::NotFound
            }
        }),
{
    let (readable, writable) = flags.read_write();
    if flags.contains(CREATE) {
        if found {
            OpenAction::Open { clear: true, readable, writable }
        } else {
            OpenAction::Create { readable, writable }
        }
    } else if found {
        OpenAction::Open { clear: flags.contains(TRUNC), readable, writable }
    } else {
        OpenAction::NotFound
    }
}

/// The create branch of the open call: records the first link of the inode
/// `inode_id` that the root directory just created (one more link when the
/// number is still recorded).
pub fn record_created_inode(links: &mut LinkManager, inode_id: u32)
    requires
        old(links).wf(),
        can_increase(old(links)@, inode_id),
    ensures
        final(links).wf(),
        final(links)@ == after_increase(old(links)@, inode_id),
        !old(links)@.contains_key(inode_id) ==> final(links)@[inode_id] == 1,
{
    links.increase_link_count(inode_id);
}

/// The two byte strings are equal.
fn same_bytes(a: &[u8], b: &[u8]) -> (res: bool)
    ensures
        res == (a@ == b@),
{
    if a.len() != b.len() {
        return false;
    }
    let mut i: usize = 0;
    while i < a.len()
        invariant
            a@.len() == b@.len(),
            i <= a@.len(),
            forall|j: int| 0 <= j < i ==> a@[j] == b@[j],
        decreases a@.len() - i,
    {
        if a[i] != b[i] {
            return false;
        }
        i = i + 1;
    }
    assert(a@ =~= b@);
    true
}

/// The link call: adds the name `new_name` for the file `old_name`. The
/// lookups of both names in the root directory come in as `old_inode` (the
/// inode of `old_name`, if any) and `new_exists`. Equal names, a missing old
/// file or an existing new name are refused; otherwise the inode gains a
/// link. An inode that the table does not know yet (an application loaded at
/// boot) already has its one link, so it ends with two.
pub fn linkat(
    links: &mut LinkManager,
    old_name: &str,
    new_name: &str,
    old_inode: Option<u32>,
    new_exists: bool,
) -> (res: LinkatAction)
    requires
        old(links).wf(),
        old_name.spec_bytes() != new_name.spec_bytes() && !new_exists ==> (old_inode matches Some(
            id,
        ) ==> can_increase(after_lookup(old(links)@, id), id)),
    ensures
        final(links).wf(),
        old_name.spec_bytes() == new_name.spec_bytes() ==> res == LinkatAction::Reject,
        old_name.spec_bytes() != new_name.spec_bytes() ==> res == match old_inode {
            None => LinkatAction::Reject,
            Some(id) => if new_exists {
                LinkatAction::Reject
            } else {
                LinkatAction::Link { inode_id: id }
            },
        },
        res == LinkatAction::Reject ==> final(links)@ == old(links)@,
        res matches LinkatAction::Link { inode_id } ==> final(links)@ == after_increase(
            after_lookup(old(links)@, inode_id),
            inode_id,
        ),
{
    if same_bytes(old_name.as_bytes(), new_name.as_bytes()) {
        return LinkatAction::Reject;
    }
    match old_inode {
        Some(id) => {
            if new_exists {
                return LinkatAction::Reject;
            }
            links.get_link_count(id);
            links.increase_link_count(id);
            LinkatAction::Link { inode_id: id }
        },
        None => LinkatAction::Reject,
    }
}

/// The unlink call, given the inode of the name in the root directory, if
/// any: the inode loses a link, and its data goes when that was the last.
pub fn unlink(links: &mut LinkManager, found: Option<u32>) -> (res: UnlinkAction)
    requires
        old(links).wf(),
    ensures
        final(links).wf(),
        match found {
            None => res == UnlinkAction::NotFound && final(links)@ == old(links)@,
            Some(id) => final(links)@ == after_decrease(old(links)@, id) && res
                == (UnlinkAction::Remove {
                last_link: !(old(links)@.contains_key(id) && old(links)@[id] > 1),
            }),
        },
{
    match found {
        Some(id) => {
            let last_link = links.descrease_link_count(id).is_none();
            UnlinkAction::Remove { last_link }
        },
        None => UnlinkAction::NotFound,
    }
}

impl LinkatAction {
    /// The answer of the link call: 0 for a link, -1 otherwise.
    pub fn code(&self) -> (res: isize)
        ensures
            res == if *self == LinkatAction::Reject {
                -1isize
            } else {
                0isize
            },
    {
        match self {
            LinkatAction::Reject => -1,
            LinkatAction::Link { .. } => 0,
        }
    }
}

impl UnlinkAction {
    /// The answer of the unlink call: 0 for a removal, -1 otherwise.
    pub fn code(&self) -> (res: isize)
        ensures
            res == if *self == UnlinkAction::NotFound {
                -1isize
            } else {
                0isize
            },
    {
        match self {
            UnlinkAction::NotFound => -1,
            UnlinkAction::Remove { .. } => 0,
        }
    }
}

/// The kind of an open inode.
#[derive(Clone, Copy, Debug, PartialEq, Eq, Structural)]
pub enum StatMode {
    Dir,
    File,
}

/// File status as the stat call reports it.
#[derive(Clone, Copy, Debug, PartialEq, Eq)]
pub struct Stat {
    pub dev: u64,
    pub ino: u64,
    pub mode: StatMode,
    pub nlink: u32,
    pub pad: [u64; 7],
}

/// The state of an open inode: the position of the next read or write, the
/// kind of inode, and the file system's handle of the inode.
pub struct OSInodeInner<I> {
    offset: usize,
    mode: StatMode,
    inode: I,
}

impl<I> OSInodeInner<I> {
    /// The position of the next read or write.
    pub closed spec fn spec_offset(&self) -> usize {
        self.offset
    }

    /// The kind of inode.
    pub closed spec fn spec_mode(&self) -> StatMode {
        self.mode
    }

    /// The file system's handle of the inode.
    pub closed spec fn spec_inode(&self) -> I {
        self.inode
    }

    /// A freshly opened inode at position zero: a directory when `is_dir`,
    /// a regular file otherwise.
    pub fn new(is_dir: bool, inode: I) -> (res: Self)
        ensures
            res.spec_offset() == 0,
            res.spec_mode() == if is_dir {
                StatMode::Dir
            } else {
                StatMode::File
            },
            res.spec_inode() == inode,
    {
        let mode = if is_dir {
            StatMode::Dir
        } else {
            StatMode::File
        };
        OSInodeInner { offset: 0, mode, inode }
    }

    /// The position of the next read or write.
    pub fn offset(&self) -> (res: usize)
        ensures
            res == self.spec_offset(),
    {
        self.offset
    }

    /// The kind of inode.
    pub fn mode(&self) -> (res: StatMode)
        ensures
            res == self.spec_mode(),
    {
        self.mode
    }

    /// The file system's handle of the inode.
    pub fn inode(&self) -> (res: &I)
        ensures
            *res == self.spec_inode(),
    {
        &self.inode
    }

    /// Accounts for `n` bytes just read or written at the current position:
    /// the position moves past them. Answers whether any byte moved; a read
    /// of nothing ends a reading loop.
    pub fn advance(&mut self, n: usize) -> (res: bool)
        requires
            old(self).spec_offset() + n <= usize::MAX,
        ensures
            res == (n != 0),
            final(self).spec_offset() == old(self).spec_offset() + n,
            final(self).spec_mode() == old(self).spec_mode(),
            final(self).spec_inode() == old(self).spec_inode(),
    {
        self.offset = self.offset + n;
        n != 0
    }

    /// The status of the inode numbered `inode_id`: device 0, its number, its
    /// kind, and its link count (an inode not recorded yet gets one link).
    pub fn stat(&self, links: &mut LinkManager, inode_id: u32) -> (res: Stat)
        requires
            old(links).wf(),
        ensures
            final(links).wf(),
            final(links)@ == after_lookup(old(links)@, inode_id),
            res.dev == 0,
            res.ino == inode_id as u64,
            res.mode == self.spec_mode(),
            res.nlink == if old(links)@.contains_key(inode_id) {
                old(links)@[inode_id]
            } else {
                1
            },
            res.pad@ == seq![0u64, 0u64, 0u64, 0u64, 0u64, 0u64, 0u64],
    {
        let nlink = links.get_link_count(inode_id);
        Stat { dev: 0, ino: inode_id as u64, mode: self.mode, nlink, pad: [0; 7] }
    }
}

/// An inode opened for reading, writing or both.
pub struct OSInode<I> {
    readable: bool,
    writable: bool,
    inner: OSInodeInner<I>,
}

impl<I> OSInode<I> {
    /// Opened for reading.
    pub closed spec fn spec_readable(&self) -> bool {
        self.readable
    }

    /// Opened for writing.
    pub closed spec fn spec_writable(&self) -> bool {
        self.writable
    }

    /// The position, kind and handle of the inode.
    pub closed spec fn spec_inner(&self) -> OSInodeInner<I> {
        self.inner
    }

    /// Opens `inode` (a directory when `is_dir`) at position zero.
    pub fn new(readable: bool, writable: bool, is_dir: bool, inode: I) -> (res: Self)
        ensures
            res.spec_readable() == readable,
            res.spec_writable() == writable,
            res.spec_inner().spec_offset() == 0,
            res.spec_inner().spec_mode() == if is_dir {
                StatMode::Dir
            } else {
                StatMode::File
            },
            res.spec_inner().spec_inode() == inode,
    {
        OSInode { readable, writable, inner: OSInodeInner::new(is_dir, inode) }
    }

    /// Opened for reading.
    pub fn readable(&self) -> (res: bool)
        ensures
            res == self.spec_readable(),
    {
        self.readable
    }

    /// Opened for writing.
    pub fn writable(&self) -> (res: bool)
        ensures
            res == self.spec_writable(),
    {
        self.writable
    }

    /// The position, kind and handle of the inode.
    pub fn inner(&self) -> (res: &OSInodeInner<I>)
        ensures
            *res == self.spec_inner(),
    {
        &self.inner
    }

    /// Accounts for `n` bytes just read or written at the current position;
    /// answers whether any byte moved.
    pub fn advance(&mut self, n: usize) -> (res: bool)
        requires
            old(self).spec_inner().spec_offset() + n <= usize::MAX,
        ensures
            res == (n != 0),
            final(self).spec_inner().spec_offset() == old(self).spec_inner().spec_offset() + n,
            final(self).spec_inner().spec_mode() == old(self).spec_inner().spec_mode(),
            final(self).spec_inner().spec_inode() == old(self).spec_inner().spec_inode(),
            final(self).spec_readable() == old(self).spec_readable(),
            final(self).spec_writable() == old(self).spec_writable(),
    {
        self.inner.advance(n)
    }
}

} // verus!
