//! Call stacks, by the id that events refer to them with.
//!
//! Ids are recycled after a sequence point, but stack blocks also lag the events that refer to
//! them. So two generations are kept: the stacks since the last sequence point, and those of the
//! stretch before it.
use std::collections::HashMap;

use vstd::prelude::*;

use super::reader::{good, take_bytes, take_u32, Fault, Reader, Result};
use super::rows::{held_parts, held_word};
use crate::bytes::{
    held_u32, holds, load_u32, load_u64, u32_at, u32_bytes, u32_round_trip, u64_at, u64_bytes,
    u64_round_trip,
};

verus! {

/// The addresses in a stack, innermost first. They are as wide as the process's pointers.
pub open spec fn frames_of(bytes: Seq<u8>, wide: bool) -> Seq<u64> {
    if wide {
        Seq::new((bytes.len() / 8) as nat, |i: int| u64_at(bytes, 8 * i))
    } else {
        Seq::new((bytes.len() / 4) as nat, |i: int| u32_at(bytes, 4 * i) as u64)
    }
}

/// `n` stacks from `p` on: each a size in bytes, then that many bytes of addresses.
pub open spec fn stack_list(b: Seq<u8>, p: int, n: nat, wide: bool) -> core::result::Result<
    Seq<Seq<u64>>,
    Fault,
>
    decreases n,
{
    if n == 0 {
        Ok(Seq::empty())
    } else {
        let size = take_u32(b, p);
        match size.result {
            Err(f) => Err(f),
            Ok(len) => {
                let bytes = take_bytes(b, size.pos, len as int, "stack frames"@);
                match bytes.result {
                    Err(f) => Err(f),
                    Ok(frames) => match stack_list(b, bytes.pos, (n - 1) as nat, wide) {
                        Err(f) => Err(f),
                        Ok(rest) => Ok(seq![frames_of(frames, wide)] + rest),
                    },
                }
            },
        }
    }
}

/// A block of stacks: the id of the first, how many there are, and the stacks.
pub open spec fn stack_block(b: Seq<u8>, wide: bool) -> core::result::Result<
    (u32, Seq<Seq<u64>>),
    Fault,
> {
    let first = take_u32(b, 0);
    let count = take_u32(b, first.pos);
    if let Err(f) = first.result {
        Err(f)
    } else if let Err(f) = count.result {
        Err(f)
    } else {
        match stack_list(b, count.pos, count.result->Ok_0 as nat, wide) {
            Err(f) => Err(f),
            Ok(stacks) => Ok((first.result->Ok_0, stacks)),
        }
    }
}

/// The id `i` places behind `first`.
pub open spec fn stack_id_at(first: u32, i: int) -> u32 {
    ((first + i) % 0x1_0000_0000) as u32
}

/// Stacks filed under consecutive ids from `first` on. A later one replaces an earlier one.
pub open spec fn filed(table: Map<u32, Seq<u64>>, first: u32, stacks: Seq<Seq<u64>>) -> Map<
    u32,
    Seq<u64>,
>
    decreases stacks.len(),
{
    if stacks.len() == 0 {
        table
    } else {
        filed(table, first, stacks.drop_last()).insert(
            stack_id_at(first, stacks.len() - 1),
            stacks.last(),
        )
    }
}

/// The stacks of a block.
#[derive(Debug)]
pub struct StackBlock {
    pub first: u32,
    pub stacks: Vec<Vec<u64>>,
}

/// The stacks as sequences.
pub open spec fn stack_models(stacks: Seq<Vec<u64>>) -> Seq<Seq<u64>> {
    Seq::new(stacks.len(), |i: int| stacks[i]@)
}

fn read_frames(bytes: &[u8], wide: bool) -> (frames: Vec<u64>)
    ensures
        frames@ == frames_of(bytes@, wide),
{
    let mut frames: Vec<u64> = Vec::new();
    let width: usize = if wide {
        8
    } else {
        4
    };
    let count: usize = bytes.len() / width;
    let mut i: usize = 0;
    while i < count
        invariant
            i <= count,
            count == bytes@.len() / (width as nat),
            width == (if wide {
                8usize
            } else {
                4usize
            }),
            bytes@.len() <= usize::MAX,
            frames@ == frames_of(bytes@, wide).take(i as int),
        decreases count - i,
    {
        let ghost all = frames_of(bytes@, wide);
        if wide {
            frames.push(load_u64(bytes, 8 * i));
        } else {
            frames.push(load_u32(bytes, 4 * i) as u64);
        }
        assert(all.take(i + 1) =~= all.take(i as int).push(all[i as int]));
        i += 1;
    }
    assert(frames_of(bytes@, wide).take(count as int) =~= frames_of(bytes@, wide));
    frames
}

/// Read a block of stacks.
pub fn parse_stacks(content: &[u8], wide: bool) -> (block: Result<StackBlock>)
    ensures
        match (block, stack_block(content@, wide)) {
            (Ok(s), Ok((first, stacks))) => s.first == first && stack_models(s.stacks@) == stacks,
            (Err(e), Err(f)) => e@ == f,
            _ => false,
        },
{
    let mut r = Reader::new(content);
    let first: u32 = r.u32()?;
    let count: u32 = r.u32()?;
    let ghost b = content@;
    let ghost start = r@.pos;
    let mut stacks: Vec<Vec<u64>> = Vec::new();
    let mut i: u32 = 0;
    assert(stack_models(stacks@) =~= Seq::<Seq<u64>>::empty());
    proof {
        if let Ok(rest) = stack_list(b, start, count as nat, wide) {
            assert(Seq::<Seq<u64>>::empty() + rest =~= rest);
        }
    }
    while i < count
        invariant
            i <= count,
            r.wf(),
            r@.bytes == b,
            b == content@,
            stack_block(b, wide) == (match stack_list(b, start, count as nat, wide) {
                Err(f) => Err(f),
                Ok(s) => Ok((first, s)),
            }),
            stack_list(b, start, count as nat, wide) == (match stack_list(
                b,
                r@.pos,
                (count - i) as nat,
                wide,
            ) {
                Err(f) => Err(f),
                Ok(rest) => Ok(stack_models(stacks@) + rest),
            }),
        decreases count - i,
    {
        let ghost before = stack_models(stacks@);
        let size: u32 = r.u32()?;
        let bytes = r.bytes(size as usize, "stack frames")?;
        let frames = read_frames(bytes, wide);
        stacks.push(frames);
        proof {
            assert(stack_models(stacks@) =~= before.push(frames@));
            if let Ok(rest) = stack_list(b, r@.pos, (count - i - 1) as nat, wide) {
                assert(before + (seq![frames@] + rest) =~= stack_models(stacks@) + rest);
            }
        }
        i += 1;
    }
    assert(stack_models(stacks@) + Seq::<Seq<u64>>::empty() =~= stack_models(stacks@));
    Ok(StackBlock { first, stacks })
}

/// Both generations of a stack table.
pub struct StackModel {
    pub current: Map<u32, Seq<u64>>,
    pub previous: Map<u32, Seq<u64>>,
}

impl StackModel {
    pub open spec fn blank() -> StackModel {
        StackModel { current: Map::empty(), previous: Map::empty() }
    }

    /// The stack an id refers to: the newer generation answers first.
    pub open spec fn lookup(self, id: u32) -> Option<Seq<u64>> {
        if self.current.contains_key(id) {
            Some(self.current[id])
        } else if self.previous.contains_key(id) {
            Some(self.previous[id])
        } else {
            None
        }
    }

    /// The table past a sequence point: ids are recycled, and what was newest is now old.
    pub open spec fn rotated(self) -> StackModel {
        StackModel { current: Map::empty(), previous: self.current }
    }
}

/// Stacks by id, in two generations.
#[derive(Debug)]
pub struct StackTable {
    current: HashMap<u32, Vec<u64>>,
    previous: HashMap<u32, Vec<u64>>,
}

impl View for StackTable {
    type V = StackModel;

    closed spec fn view(&self) -> StackModel {
        StackModel {
            current: self.current@.map_values(|v: Vec<u64>| v@),
            previous: self.previous@.map_values(|v: Vec<u64>| v@),
        }
    }
}

impl StackTable {
    pub fn new() -> (t: Self)
        ensures
            t@ == StackModel::blank(),
    {
        let t = StackTable { current: HashMap::new(), previous: HashMap::new() };
        assert(t@.current =~= Map::<u32, Seq<u64>>::empty());
        assert(t@.previous =~= Map::<u32, Seq<u64>>::empty());
        t
    }

    /// File the stacks of a block.
    pub fn insert_block(&mut self, block: StackBlock)
        ensures
            final(self)@ == (StackModel {
                current: filed(old(self)@.current, block.first, stack_models(block.stacks@)),
                previous: old(self)@.previous,
            }),
    {
        let ghost start = self@.current;
        let ghost old_previous = self@.previous;
        let first: u32 = block.first;
        let ghost all = stack_models(block.stacks@);
        let stacks = block.stacks;
        let mut id: u32 = first;
        let mut i: usize = 0;
        assert(all.take(0) =~= Seq::<Seq<u64>>::empty());
        while i < stacks.len()
            invariant
                i <= stacks@.len(),
                all == stack_models(stacks@),
                id == stack_id_at(first, i as int),
                self@.current == filed(start, first, all.take(i as int)),
                self@.previous == old_previous,
            decreases stacks@.len() - i,
        {
            let ghost before = self@.current;
            let frames = stacks[i].clone();
            let ghost model = frames@;
            assert(model =~= all[i as int]);
            self.current.insert(id, frames);
            assert(self@.current =~= before.insert(id, model));
            proof {
                let longer = all.take(i + 1);
                assert(longer.drop_last() =~= all.take(i as int));
                assert(longer.last() == model);
            }
            id = id.wrapping_add(1);
            i += 1;
        }
        assert(all.take(stacks@.len() as int) =~= all);
    }

    /// The frames of a stack, innermost first.
    pub fn get(&self, id: u32) -> (frames: Option<&[u64]>)
        ensures
            match (frames, self@.lookup(id)) {
                (Some(f), Some(s)) => f@ == s,
                (None, None) => true,
                _ => false,
            },
    {
        match self.current.get(&id) {
            Some(frames) => Some(frames.as_slice()),
            None => match self.previous.get(&id) {
                Some(frames) => Some(frames.as_slice()),
                None => None,
            },
        }
    }

    /// A sequence point has passed: start a new generation.
    pub fn rotate(&mut self)
        ensures
            final(self)@ == old(self)@.rotated(),
    {
        let mut fresh: HashMap<u32, Vec<u64>> = HashMap::new();
        std::mem::swap(&mut fresh, &mut self.current);
        self.previous = fresh;
        assert(self@.current =~= Map::<u32, Seq<u64>>::empty());
    }
}

/// A stack outlives one sequence point, for events may refer to it late, but not a second one: its
/// id may then stand for another.
pub proof fn stacks_live_for_two_generations(t: StackModel, id: u32)
    ensures
        t.current.contains_key(id) ==> t.lookup(id) == Some(t.current[id])
            && t.rotated().lookup(id) == Some(t.current[id]),
        t.rotated().rotated().lookup(id) == None::<Seq<u64>>,
{
}

/// A stack that is filed again under a recycled id answers for it from then on.
pub proof fn recycled_ids_mean_the_newer_stack(t: StackModel, id: u32, frames: Seq<u64>)
    ensures
        (StackModel { current: filed(t.current, id, seq![frames]), ..t }).lookup(id) == Some(
            frames,
        ),
{
    let stacks = seq![frames];
    assert(stacks.drop_last() =~= Seq::<Seq<u64>>::empty());
    reveal_with_fuel(filed, 2);
}

// ---------------------------------------------------------------------------------------------
// Blocks of stacks as they are written

/// Addresses as they are written, one behind the other.
pub open spec fn address_bytes(frames: Seq<u64>, wide: bool) -> Seq<u8>
    decreases frames.len(),
{
    if frames.len() == 0 {
        Seq::empty()
    } else {
        address_bytes(frames.drop_last(), wide) + if wide {
            u64_bytes(frames.last())
        } else {
            u32_bytes(frames.last() as u32)
        }
    }
}

/// Stacks as they are written: of each, how many bytes its addresses take, and the addresses.
pub open spec fn stack_bytes(stacks: Seq<Seq<u64>>, wide: bool) -> Seq<u8>
    decreases stacks.len(),
{
    if stacks.len() == 0 {
        Seq::empty()
    } else {
        u32_bytes(address_bytes(stacks[0], wide).len() as u32) + (address_bytes(stacks[0], wide)
            + stack_bytes(stacks.skip(1), wide))
    }
}

/// Whether stacks can be written: their sizes fit, and their addresses are as wide as pointers.
pub open spec fn stacks_fit(stacks: Seq<Seq<u64>>, wide: bool) -> bool {
    &&& stacks.len() <= u32::MAX
    &&& forall|k: int|
        0 <= k < stacks.len() ==> address_bytes(#[trigger] stacks[k], wide).len() <= u32::MAX
    &&& forall|k: int, i: int|
        0 <= k < stacks.len() && 0 <= i < stacks[k].len() && !wide ==> #[trigger] stacks[k][i]
            <= u32::MAX
}

proof fn addresses_read_back(frames: Seq<u64>, wide: bool)
    requires
        forall|i: int| 0 <= i < frames.len() && !wide ==> #[trigger] frames[i] <= u32::MAX,
    ensures
        address_bytes(frames, wide).len() == frames.len() * (if wide {
            8int
        } else {
            4int
        }),
        frames_of(address_bytes(frames, wide), wide) == frames,
    decreases frames.len(),
{
    let all = address_bytes(frames, wide);
    if frames.len() == 0 {
        assert(frames_of(all, wide) =~= frames);
    } else {
        let front = frames.drop_last();
        let before = address_bytes(front, wide);
        addresses_read_back(front, wide);
        let n = front.len() as int;
        let last = frames.last();
        assert forall|i: int| 0 <= i < frames.len() implies frames_of(all, wide)[i]
            == frames[i] by {
            if i < n {
                assert(frames_of(before, wide)[i] == front[i]);
                if wide {
                    assert(u64_at(all, 8 * i) == u64_at(before, 8 * i));
                } else {
                    assert(u32_at(all, 4 * i) == u32_at(before, 4 * i));
                }
            } else {
                if wide {
                    u64_round_trip(before, last, Seq::empty());
                    assert(all =~= before + u64_bytes(last) + Seq::<u8>::empty());
                } else {
                    u32_round_trip(before, last as u32, Seq::empty());
                    assert(all =~= before + u32_bytes(last as u32) + Seq::<u8>::empty());
                }
            }
        }
        assert(frames_of(all, wide) =~= frames);
    }
}

proof fn stack_list_reads_back(stacks: Seq<Seq<u64>>, wide: bool, b: Seq<u8>, p: int)
    requires
        stacks_fit(stacks, wide),
        holds(b, p, stack_bytes(stacks, wide)),
    ensures
        stack_list(b, p, stacks.len(), wide) == Ok::<_, Fault>(stacks),
    decreases stacks.len(),
{
    if stacks.len() == 0 {
        assert(stacks =~= Seq::<Seq<u64>>::empty());
    } else {
        let frames = stacks[0];
        let part = address_bytes(frames, wide);
        let rest = stacks.skip(1);
        assert forall|i: int| 0 <= i < frames.len() && !wide implies #[trigger] frames[i]
            <= u32::MAX by {
            assert(stacks[0][i] <= u32::MAX);
        }
        addresses_read_back(frames, wide);
        held_word(b, p, part.len() as u32, part + stack_bytes(rest, wide));
        held_parts(b, p + 4, part, stack_bytes(rest, wide));
        assert(stacks_fit(rest, wide)) by {
            assert forall|k: int| 0 <= k < rest.len() implies address_bytes(
                #[trigger] rest[k],
                wide,
            ).len() <= u32::MAX by {
                assert(rest[k] == stacks[k + 1]);
            }
            assert forall|k: int, i: int|
                0 <= k < rest.len() && 0 <= i < rest[k].len()
                    && !wide implies #[trigger] rest[k][i] <= u32::MAX by {
                assert(rest[k][i] == stacks[k + 1][i]);
            }
        }
        stack_list_reads_back(rest, wide, b, (p + 4 + part.len()) as int);
        assert(seq![frames] + rest =~= stacks);
    }
}

/// A block of stacks that is written down reads back as those stacks, each with its addresses in
/// order, whether the process's pointers take eight bytes or four. Whatever follows is not looked
/// at.
pub proof fn stack_blocks_read_back(
    b: Seq<u8>,
    first: u32,
    stacks: Seq<Seq<u64>>,
    wide: bool,
)
    requires
        stacks_fit(stacks, wide),
        holds(b, 0, u32_bytes(first)),
        holds(b, 4, u32_bytes(stacks.len() as u32)),
        holds(b, 8, stack_bytes(stacks, wide)),
    ensures
        stack_block(b, wide) == Ok::<_, Fault>((first, stacks)),
{
    assert(take_u32(b, 0) == good(first, 4)) by {
        held_u32(b, 0, first);
    }
    assert(take_u32(b, 4) == good(stacks.len() as u32, 8)) by {
        held_u32(b, 4, stacks.len() as u32);
    }
    stack_list_reads_back(stacks, wide, b, 8);
}

/// Stacks are filed under the ids from the first one on, where the one behind the greatest is zero,
/// and all other ids keep what they stand for.
pub proof fn stacks_are_filed_in_order(
    table: Map<u32, Seq<u64>>,
    first: u32,
    stacks: Seq<Seq<u64>>,
    k: int,
    other: u32,
)
    requires
        stacks.len() <= 0x1_0000_0000,
        0 <= k < stacks.len(),
    ensures
        ({
            let after = filed(table, first, stacks);
            let id = (if first + k < 0x1_0000_0000 {
                first + k
            } else {
                first + k - 0x1_0000_0000
            }) as u32;
            &&& after.contains_key(id)
            &&& after[id] == stacks[k]
            &&& !(first <= other < first + stacks.len()) && !(first <= other + 0x1_0000_0000 < first
                + stacks.len()) ==> {
                &&& after.contains_key(other) == table.contains_key(other)
                &&& table.contains_key(other) ==> after[other] == table[other]
            }
        }),
    decreases stacks.len(),
{
    let n = stacks.len() - 1;
    let sum = first + n;
    assert(sum % 0x1_0000_0000 == if sum < 0x1_0000_0000 {
        sum
    } else {
        sum - 0x1_0000_0000
    });
    reveal_with_fuel(filed, 2);
    if k < n {
        stacks_are_filed_in_order(table, first, stacks.drop_last(), k, other);
    } else if n > 0 {
        stacks_are_filed_in_order(table, first, stacks.drop_last(), 0, other);
    } else {
        assert(stacks.drop_last() =~= Seq::<Seq<u64>>::empty());
    }
}

} // verus!
