use vstd::prelude::*;

verus! {

/// The addresses of the game's per-thread blocks; each starts with the id of
/// the thread it belongs to.
pub open spec fn thread_slots() -> Seq<usize> {
    seq![0x5184F8usize, 0x518608usize, 0x518718usize, 0x518824usize]
}

/// The block of the first slot whose thread id is `current`, or 0 where no
/// slot holds it.
pub open spec fn thread_offset(current: u32, ids: Seq<u32>) -> usize {
    if current == ids[0] {
        thread_slots()[0]
    } else if current == ids[1] {
        thread_slots()[1]
    } else if current == ids[2] {
        thread_slots()[2]
    } else if current == ids[3] {
        thread_slots()[3]
    } else {
        0
    }
}

/// The block of the calling thread, given its id and the ids the game stored
/// in its four slots.
pub fn get_thread_offset(current_thread_id: u32, thread_ids: &[u32; 4]) -> (r: usize)
    ensures
        r == thread_offset(current_thread_id, thread_ids@),
        r == 0 || thread_slots().contains(r),
{
    let r = if current_thread_id == thread_ids[0] {
        0x5184F8
    } else if current_thread_id == thread_ids[1] {
        0x518608
    } else if current_thread_id == thread_ids[2] {
        0x518718
    } else if current_thread_id == thread_ids[3] {
        0x518824
    } else {
        0
    };
    assert(r == 0 || r == thread_slots()[0] || r == thread_slots()[1] || r == thread_slots()[2]
        || r == thread_slots()[3]);
    r
}

/// The block found for a thread is the block of the first slot that holds its
/// id: where `current` first appears in slot `i`, the result is the address
/// of slot `i`'s own block (the one starting with that id); where no slot
/// holds it, the result is 0.
pub proof fn lemma_thread_block_holds_id(current: u32, ids: Seq<u32>, i: int)
    requires
        ids.len() == 4,
        0 <= i < 4,
    ensures
        (ids[i] == current && forall|j: int| 0 <= j < i ==> ids[j] != current) ==> {
            &&& thread_offset(current, ids) == thread_slots()[i]
            &&& thread_offset(current, ids) == seq![
                0x5184F8usize,
                0x518608usize,
                0x518718usize,
                0x518824usize,
            ][i]
        },
        (forall|j: int| 0 <= j < 4 ==> ids[j] != current) ==> thread_offset(current, ids) == 0,
{
    if ids[i] == current && forall|j: int| 0 <= j < i ==> ids[j] != current {
        if i >= 1 {
            assert(ids[0] != current);
        }
        if i >= 2 {
            assert(ids[1] != current);
        }
        if i >= 3 {
            assert(ids[2] != current);
        }
    }
    if forall|j: int| 0 <= j < 4 ==> ids[j] != current {
        assert(ids[0] != current && ids[1] != current && ids[2] != current && ids[3] != current);
    }
}

} // verus!
