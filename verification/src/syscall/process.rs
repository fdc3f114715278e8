use vstd::prelude::*;

verus! {

/// Bytes in a page.
pub const PAGE_SIZE: usize = 4096;

/// Bits of the offset inside a page.
pub const PAGE_SIZE_BITS: usize = 12;

/// Seconds and microseconds, as handed to user programs.
#[derive(Clone, Copy, Debug, PartialEq, Eq, Structural)]
pub struct TimeVal {
    pub sec: usize,
    pub usec: usize,
}

/// What the system calls read of the page table entry that maps a user
/// address: its physical page number and its permission bits.
#[derive(Clone, Copy, Debug, PartialEq, Eq, Structural)]
pub struct PageEntry {
    pub ppn: usize,
    pub user: bool,
    pub readable: bool,
    pub writable: bool,
}

/// Permissions of a new mapping: readable, writable, executable, and user
/// accessible.
#[derive(Clone, Copy, Debug, PartialEq, Eq, Structural)]
pub struct MapPermission {
    pub r: bool,
    pub w: bool,
    pub x: bool,
    pub u: bool,
}

/// A mapping request that `sys_mmap` accepted.
#[derive(Clone, Copy, Debug, PartialEq, Eq, Structural)]
pub struct MmapRequest {
    pub start: usize,
    pub len: usize,
    pub permission: MapPermission,
}

/// An unmapping request that `sys_munmap` accepted.
#[derive(Clone, Copy, Debug, PartialEq, Eq, Structural)]
pub struct MunmapRequest {
    pub start: usize,
    pub len: usize,
}

/// Bytes of a `TimeVal` in user memory: two 64-bit words.
pub const TIME_VAL_SIZE: usize = 16;

/// A write of a `TimeVal` to physical memory: its first `first_len` bytes go
/// at `pa`; when the value crosses a page boundary, the rest goes at
/// `rest_pa`, the start of the frame that maps the next page.
#[derive(Clone, Copy, Debug, PartialEq, Eq, Structural)]
pub struct TimeWrite {
    pub time: TimeVal,
    pub pa: usize,
    pub first_len: usize,
    pub rest_pa: Option<usize>,
}

/// What `sys_trace` does.
#[derive(Clone, Copy, Debug, PartialEq, Eq, Structural)]
pub enum TraceAction {
    /// Read the byte at physical address `pa`; the call answers that byte.
    ReadByte { pa: usize },
    /// Write `value` at physical address `pa`; the call answers 0.
    WriteByte { pa: usize, value: u8 },
    /// The call answers how often the current task made system call `id`.
    CountSyscalls { id: usize },
    /// The call answers -1.
    Fail,
}

/// `len` rounded up to a whole number of pages.
pub open spec fn page_round_up(len: usize) -> int {
    if len % PAGE_SIZE == 0 {
        len as int
    } else {
        len + (PAGE_SIZE - len % PAGE_SIZE)
    }
}

/// The physical address of user address `va` in the page `ppn`.
pub open spec fn physical_address(ppn: usize, va: usize) -> usize {
    ((ppn << 12usize) + (va & 4095usize)) as usize
}

/// The protection bits of `sys_mmap` are invalid: a bit beyond the low three
/// is set, or none of them is.
pub open spec fn bad_port(port: usize) -> bool {
    (port & !7usize) != 0 || (port & 7usize) == 0
}

/// The permission that the protection bits `port` ask for: bit 0 readable,
/// bit 1 writable, bit 2 executable; always user accessible.
pub open spec fn port_permission(port: usize) -> MapPermission {
    MapPermission {
        r: (port & 1usize) != 0,
        w: (port & 2usize) != 0,
        x: (port & 4usize) != 0,
        u: true,
    }
}

/// The time value of the two clock readings, in milliseconds, taken for its
/// seconds and for its microseconds.
pub open spec fn time_val_of(sec_ms: usize, usec_ms: usize) -> TimeVal {
    TimeVal { sec: sec_ms / 1000, usec: ((usec_ms % 1000) * 1000) as usize }
}

/// The `TimeVal` at user address `ts` runs past the end of its page.
pub open spec fn crosses_page(ts: usize) -> bool {
    (ts & 4095usize) + TIME_VAL_SIZE > PAGE_SIZE
}

/// The page may be written by the user program.
pub open spec fn user_writable(entry: Option<PageEntry>) -> bool {
    match entry {
        Some(e) => e.user && e.writable,
        None => false,
    }
}

/// Rounds `len` up to a whole number of pages.
fn round_up_to_page(len: usize) -> (res: usize)
    requires
        page_round_up(len) <= usize::MAX,
    ensures
        res == page_round_up(len),
{
    let mut len = len;
    if len % PAGE_SIZE != 0 {
        len = len + (PAGE_SIZE - (len % PAGE_SIZE));
    }
    len
}

/// The physical address of user address `va` in the page `ppn`.
fn phys_addr(ppn: usize, va: usize) -> (pa: usize)
    ensures
        pa == physical_address(ppn, va),
{
    let base = ppn << PAGE_SIZE_BITS;
    let offset = va & (PAGE_SIZE - 1);
    assert(base + offset == (base | offset)) by (bit_vector)
        requires
            base == ppn << 12usize,
            offset == va & 4095usize,
    ;
    base + offset
}

/// `sys_mmap`: maps `len` bytes at `start` with protection `port`. A start
/// that is not page aligned, or protection bits that ask for nothing or for
/// more than read, write and execute, give -1; otherwise the length is
/// rounded up to whole pages and the mapping is requested as user
/// accessible with the asked permissions.
pub fn sys_mmap(start: usize, len: usize, port: usize) -> (res: Result<MmapRequest, isize>)
    requires
        start % PAGE_SIZE == 0 && !bad_port(port) ==> page_round_up(len) <= usize::MAX,
    ensures
        res is Err <==> (start % PAGE_SIZE != 0 || bad_port(port)),
        res matches Err(code) ==> code == -1,
        res matches Ok(req) ==> req.start == start && req.len == page_round_up(len)
            && req.permission == port_permission(port),
{
    if start % PAGE_SIZE != 0 || (port & !0x7 != 0) || (port & 0x7 == 0) {
        Err(-1)
    } else {
        let len = round_up_to_page(len);
        let permission = MapPermission {
            r: port & 0x1 != 0,
            w: port & 0x2 != 0,
            x: port & 0x4 != 0,
            u: true,
        };
        Ok(MmapRequest { start, len, permission })
    }
}

/// `sys_munmap`: unmaps `len` bytes at `start`. A start that is not page
/// aligned gives -1; otherwise the length is rounded up to whole pages.
pub fn sys_munmap(start: usize, len: usize) -> (res: Result<MunmapRequest, isize>)
    requires
        start % PAGE_SIZE == 0 ==> page_round_up(len) <= usize::MAX,
    ensures
        res is Err <==> start % PAGE_SIZE != 0,
        res matches Err(code) ==> code == -1,
        res matches Ok(req) ==> req.start == start && req.len == page_round_up(len),
{
    if start % PAGE_SIZE != 0 {
        Err(-1)
    } else {
        let len = round_up_to_page(len);
        Ok(MunmapRequest { start, len })
    }
}

/// `sys_sbrk`: answers the old program break that changing the break gave,
/// or -1 when the change was refused.
pub fn sys_sbrk(old_brk: Option<usize>) -> (res: isize)
    ensures
        match old_brk {
            Some(b) => res == b as isize,
            None => res == -1,
        },
{
    match old_brk {
        Some(b) => b as isize,
        None => -1,
    }
}

/// `sys_get_time`: `entry` maps the page of the user address `ts`, and
/// `last_entry` the page of its last byte `ts + TIME_VAL_SIZE - 1` (the same
/// page unless the value crosses a page boundary; `None` when unmapped). When
/// both are user accessible and writable, the time of the two clock readings
/// is written: up to the end of the first page at the physical address of
/// `ts`, and the bytes past the boundary at the start of the second page's
/// frame. Otherwise nothing is written. The call answers 0 either way.
pub fn sys_get_time(
    ts: usize,
    entry: Option<PageEntry>,
    last_entry: Option<PageEntry>,
    sec_ms: usize,
    usec_ms: usize,
) -> (res: (isize, Option<TimeWrite>))
    ensures
        res.0 == 0,
        !(user_writable(entry) && user_writable(last_entry)) ==> res.1 is None,
        user_writable(entry) && user_writable(last_entry) ==> res.1 == Some(
            TimeWrite {
                time: time_val_of(sec_ms, usec_ms),
                pa: physical_address(entry.unwrap().ppn, ts),
                first_len: if crosses_page(ts) {
                    (PAGE_SIZE - (ts & 4095usize)) as usize
                } else {
                    TIME_VAL_SIZE
                },
                rest_pa: if crosses_page(ts) {
                    Some(physical_address(last_entry.unwrap().ppn, 0))
                } else {
                    None
                },
            },
        ),
{
    match (entry, last_entry) {
        (Some(e), Some(last)) => {
            if e.user && e.writable && last.user && last.writable {
                let pa = phys_addr(e.ppn, ts);
                let time = TimeVal { sec: sec_ms / 1000, usec: (usec_ms % 1000) * 1000 };
                let offset = ts & (PAGE_SIZE - 1);
                assert(offset <= 4095) by (bit_vector)
                    requires
                        offset == ts & 4095usize,
                ;
                if offset + TIME_VAL_SIZE > PAGE_SIZE {
                    let rest_pa = phys_addr(last.ppn, 0);
                    (0, Some(TimeWrite { time, pa, first_len: PAGE_SIZE - offset, rest_pa: Some(rest_pa) }))
                } else {
                    (0, Some(TimeWrite { time, pa, first_len: TIME_VAL_SIZE, rest_pa: None }))
                }
            } else {
                (0, None)
            }
        },
        _ => (0, None),
    }
}

/// `sys_trace`: request 0 reads the byte at user address `id`, request 1
/// writes the low byte of `data` there, request 2 asks for the count of
/// system call `id`. A read needs the page of `id` (`entry`) to be user
/// accessible and readable, a write user accessible and writable; anything
/// else fails.
pub fn sys_trace(trace_request: usize, id: usize, data: usize, entry: Option<PageEntry>) -> (res:
    TraceAction)
    ensures
        trace_request == 0 ==> res == match entry {
            Some(e) => if e.user && e.readable {
                TraceAction::ReadByte { pa: physical_address(e.ppn, id) }
            } else {
                TraceAction::Fail
            },
            None => TraceAction::Fail,
        },
        trace_request == 1 ==> res == match entry {
            Some(e) => if e.user && e.writable {
                TraceAction::WriteByte { pa: physical_address(e.ppn, id), value: data as u8 }
            } else {
                TraceAction::Fail
            },
            None => TraceAction::Fail,
        },
        trace_request == 2 ==> res == (TraceAction::CountSyscalls { id }),
        trace_request > 2 ==> res == TraceAction::Fail,
{
    match trace_request {
        0 => {
            match entry {
                Some(e) => {
                    if e.user && e.readable {
                        TraceAction::ReadByte { pa: phys_addr(e.ppn, id) }
                    } else {
                        TraceAction::Fail
                    }
                },
                None => TraceAction::Fail,
            }
        },
        1 => {
            match entry {
                Some(e) => {
                    if e.user && e.writable {
                        TraceAction::WriteByte { pa: phys_addr(e.ppn, id), value: data as u8 }
                    } else {
                        TraceAction::Fail
                    }
                },
                None => TraceAction::Fail,
            }
        },
        2 => TraceAction::CountSyscalls { id },
        _ => TraceAction::Fail,
    }
}

impl TraceAction {
    /// The answer of `sys_trace` once the action is done: the byte read or
    /// the syscall count (`fetched`) as a signed number, 0 after a write, -1
    /// after a failure.
    pub fn finish(&self, fetched: usize) -> (res: isize)
        ensures
            match *self {
                TraceAction::ReadByte { .. } => res == fetched as isize,
                TraceAction::WriteByte { .. } => res == 0,
                TraceAction::CountSyscalls { .. } => res == fetched as isize,
                TraceAction::Fail => res == -1,
            },
    {
        match self {
            TraceAction::ReadByte { .. } => fetched as isize,
            TraceAction::WriteByte { .. } => 0,
            TraceAction::CountSyscalls { .. } => fetched as isize,
            TraceAction::Fail => -1,
        }
    }
}

/// Rounding up gives the least whole number of pages that holds `len`
/// bytes: a multiple of the page size, at least `len`, less than a page
/// more, and `len` itself when it is already a multiple.
pub proof fn lemma_page_round_up(len: usize)
    ensures
        page_round_up(len) % (PAGE_SIZE as int) == 0,
        len <= page_round_up(len) < len + PAGE_SIZE,
        len % PAGE_SIZE == 0 ==> page_round_up(len) == len,
{
}

/// The protection bits are accepted exactly when they ask for something and
/// name nothing beyond read, write and execute: `1 <= port <= 7`.
pub proof fn lemma_bad_port(port: usize)
    ensures
        !bad_port(port) <==> 1 <= port <= 7,
{
    assert(((port & !7usize) != 0 || (port & 7usize) == 0) <==> !(1usize <= port && port <= 7usize))
        by (bit_vector);
}

/// The permission of a mapping reads one bit of the protection bits each:
/// bit 0 (`port` odd) readable, bit 1 writable, bit 2 executable; the
/// mapping is always user accessible.
pub proof fn lemma_port_permission(port: usize)
    ensures
        port_permission(port).r <==> port % 2 == 1,
        port_permission(port).w <==> (port / 2) % 2 == 1,
        port_permission(port).x <==> (port / 4) % 2 == 1,
        port_permission(port).u,
{
    assert(((port & 1usize) != 0) <==> port % 2 == 1) by (bit_vector);
    assert(((port & 2usize) != 0) <==> (port / 2) % 2 == 1) by (bit_vector);
    assert(((port & 4usize) != 0) <==> (port / 4) % 2 == 1) by (bit_vector);
}

/// The physical address lies in the frame of the page entry, at the page
/// offset of the user address: `ppn * 4096 + va % 4096`, whenever that frame
/// fits in the address space; so it is in frame `ppn`.
pub proof fn lemma_physical_address(ppn: usize, va: usize)
    requires
        ppn * 4096 + 4095 <= usize::MAX,
    ensures
        physical_address(ppn, va) == ppn * 4096 + va % 4096,
        physical_address(ppn, va) / 4096 == ppn,
        physical_address(ppn, va) % 4096 == va % 4096,
{
    vstd::arithmetic::power2::lemma2_to64();
    assert(ppn * vstd::arithmetic::power2::pow2(12) <= usize::MAX);
    vstd::bits::lemma_usize_shl_is_mul(ppn, 12);
    assert(va & 4095usize == va % 4096) by (bit_vector);
    assert((ppn * 4096 + va % 4096) / 4096 == ppn && (ppn * 4096 + va % 4096) % 4096 == va % 4096)
        by (nonlinear_arith)
        requires
            0 <= va % 4096 < 4096,
    ;
}

/// The time written is the clock reading split into whole seconds and the
/// microseconds of the current second: the seconds are the whole seconds of
/// the first reading, and the microseconds are a whole number of
/// milliseconds below one second that agrees with the second reading modulo
/// a second.
pub proof fn lemma_time_val(sec_ms: usize, usec_ms: usize)
    ensures
        time_val_of(sec_ms, usec_ms).sec * 1000 <= sec_ms < (time_val_of(sec_ms, usec_ms).sec + 1)
            * 1000,
        time_val_of(sec_ms, usec_ms).usec < 1_000_000,
        time_val_of(sec_ms, usec_ms).usec % 1000 == 0,
        (usec_ms - time_val_of(sec_ms, usec_ms).usec / 1000) % 1000 == 0,
{
    let r = usec_ms % 1000;
    assert(((r * 1000) as usize) == r * 1000);
    assert((r * 1000) % 1000 == 0 && (r * 1000) / 1000 == r) by (nonlinear_arith)
        requires
            0 <= r < 1000,
    ;
    assert((usec_ms - r) % 1000 == 0) by (nonlinear_arith)
        requires
            r == usec_ms % 1000,
    ;
}

/// A `TimeVal` crosses a page boundary exactly when its first and last
/// bytes lie in different pages.
pub proof fn lemma_crosses_page(ts: usize)
    requires
        ts + TIME_VAL_SIZE <= usize::MAX,
    ensures
        crosses_page(ts) <==> ts / 4096 != (ts + (TIME_VAL_SIZE - 1)) / 4096,
{
    assert(ts & 4095usize == ts % 4096) by (bit_vector);
    assert(((ts % 4096) + 16 > 4096) <==> ts / 4096 != (ts + 15) / 4096) by (nonlinear_arith);
}

/// A page can be written by the user program exactly when it is mapped with
/// both the user and the write bit.
pub proof fn lemma_user_writable(entry: Option<PageEntry>)
    ensures
        user_writable(entry) <==> (entry is Some && entry.unwrap().user && entry.unwrap().writable),
{
}

} // verus!
