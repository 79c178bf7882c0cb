//! A deterministic schedule of feeds, resizes and snapshots, read off an
//! arbitrary byte string. It drives the engine in stress runs; the same bytes
//! always give the same schedule.
use vstd::prelude::*;

verus! {

/// The byte at a position, 0 past the end.
pub open spec fn byte_at(data: Seq<u8>, pos: int) -> u8 {
    if 0 <= pos < data.len() {
        data[pos]
    } else {
        0
    }
}

/// Takes the byte at `pos`, 0 past the end, and moves on.
pub fn take_byte(data: &[u8], pos: &mut usize) -> (r: u8)
    requires
        *old(pos) < usize::MAX,
    ensures
        r == byte_at(data@, *old(pos) as int),
        *final(pos) == *old(pos) + 1,
{
    let b = if *pos < data.len() {
        data[*pos]
    } else {
        0
    };
    *pos = *pos + 1;
    b
}

/// What follows a feed.
#[derive(Debug, Clone, Copy, PartialEq, Eq, Structural)]
pub enum FollowUp {
    Resize { cols: u16, rows: u16 },
    Snapshot,
    Nothing,
}

/// One step of a schedule: the chunk `data[start..end]` to feed, what follows,
/// and where the next step is read.
#[derive(Debug, Clone, Copy, PartialEq, Eq, Structural)]
pub struct FeedStep {
    pub start: usize,
    pub end: usize,
    pub follow_up: FollowUp,
    pub next: usize,
}

/// The step that is read at `pos`: a control byte sets the length of the chunk,
/// 1 to 64 bytes, and what follows it. A resize takes two more bytes.
pub open spec fn step_at(data: Seq<u8>, pos: int) -> (int, FollowUp, int) {
    let control = byte_at(data, pos);
    let wanted = pos + 2 + control as int % 64;
    let end = if wanted <= data.len() {
        wanted
    } else {
        data.len() as int
    };
    if control % 3 == 0 {
        (
            end,
            FollowUp::Resize {
                cols: (2 + byte_at(data, end) as int % 299) as u16,
                rows: (1 + byte_at(data, end + 1) as int % 200) as u16,
            },
            end + 2,
        )
    } else if control % 3 == 1 {
        (end, FollowUp::Snapshot, end)
    } else {
        (end, FollowUp::Nothing, end)
    }
}

/// Reads the step at `pos`.
pub fn next_step(data: &[u8], pos: usize) -> (r: FeedStep)
    requires
        pos < data@.len(),
        data@.len() + 2 <= usize::MAX,
    ensures
        r.start == pos + 1,
        (r.end as int, r.follow_up, r.next as int) == step_at(data@, pos as int),
        r.start <= r.end <= data@.len(),
        r.next > pos,
{
    let mut at = pos;
    let control = take_byte(data, &mut at);
    let start = at;
    let len: usize = 1 + (control % 64) as usize;
    let end: usize = if len <= data.len() - start {
        start + len
    } else {
        data.len()
    };
    let mut next = end;
    let follow_up = if control % 3 == 0 {
        let c = take_byte(data, &mut next);
        let r = take_byte(data, &mut next);
        FollowUp::Resize { cols: 2 + (c as u16 % 299), rows: 1 + (r as u16 % 200) }
    } else if control % 3 == 1 {
        FollowUp::Snapshot
    } else {
        FollowUp::Nothing
    };
    FeedStep { start, end, follow_up, next }
}

/// Every resize of a schedule is to 2 to 300 columns and 1 to 200 rows.
pub proof fn resizes_stay_in_bounds(data: Seq<u8>, pos: int)
    ensures
        step_at(data, pos).1 matches FollowUp::Resize { cols, rows } ==> 2 <= cols <= 300 && 1
            <= rows <= 200,
{
}

/// A control byte feeds 1 to 64 of the bytes behind it, as many as its low six
/// bits say and one more, or all that are left. Its remainder by three says
/// what follows: a resize read from two more bytes, a snapshot, or nothing.
pub proof fn control_bytes_decide(data: Seq<u8>, pos: int)
    requires
        0 <= pos < data.len(),
    ensures
        ({
            let (end, follow_up, next) = step_at(data, pos);
            let fed = end - (pos + 1);
            &&& fed == 1 + data[pos] % 64 || (fed < 1 + data[pos] % 64 && end == data.len())
            &&& follow_up is Resize <==> data[pos] % 3 == 0
            &&& follow_up is Snapshot <==> data[pos] % 3 == 1
            &&& follow_up is Nothing <==> data[pos] % 3 == 2
            &&& follow_up is Resize ==> next == end + 2
            &&& !(follow_up is Resize) ==> next == end
            &&& follow_up is Resize && end + 1 < data.len() ==> follow_up == (FollowUp::Resize {
                cols: (data[end] + 2) as u16,
                rows: (data[end + 1] % 200 + 1) as u16,
            })
        }),
{
}

} // verus!
