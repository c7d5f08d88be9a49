//! The colour schedule of an ESP-NOW node: at most 100 instructions kept in
//! time order, merged without duplicates, and played back within 50 ms of
//! the mesh clock.

use vstd::prelude::*;
use crate::bounded::{
    instruction_slots, instruction_slots_clear, instruction_slots_get, instruction_slots_insert,
    instruction_slots_len, instruction_slots_new, instruction_slots_push, instruction_slots_remove,
};
use crate::color::Rgb8;
use crate::mesh_protocol::Instruction;

verus! {

/// Most instructions the buffer holds.
pub const MAX_INSTRUCTIONS: usize = 100;

/// Half-width of the playback window, in microseconds.
pub const TIMING_WINDOW_US: i64 = 50_000;

/// What the player is to do next.
#[derive(Debug, Clone, Copy, PartialEq, Eq, Structural)]
pub enum InstructionStatus {
    /// Sleep this many microseconds before asking again.
    Sleep(u64),
    /// Show this colour now.
    SetColor(Rgb8),
}

/// Whether the instructions are in time order.
pub open spec fn in_time_order(s: Seq<Instruction>) -> bool {
    forall|i: int, j: int| 0 <= i < j < s.len() ==> s[i].timestamp <= s[j].timestamp
}

/// `s` with `x` put after every instruction that is not later than it.
pub open spec fn insert_in_order(s: Seq<Instruction>, x: Instruction) -> Seq<Instruction>
    decreases s.len(),
{
    if s.len() == 0 {
        seq![x]
    } else if s.last().timestamp <= x.timestamp {
        s.push(x)
    } else {
        insert_in_order(s.drop_last(), x).push(s.last())
    }
}

/// Whether some instruction of `s` is at time `t`.
pub open spec fn has_time(s: Seq<Instruction>, t: u64) -> bool {
    exists|j: int| 0 <= j < s.len() && s[j].timestamp == t
}

/// One step of a merge: an instruction at a time the buffer already has, or
/// one that finds the buffer full, changes nothing; any other is put in time
/// order.
pub open spec fn merge_one(s: Seq<Instruction>, x: Instruction) -> Seq<Instruction> {
    if has_time(s, x.timestamp) || s.len() >= MAX_INSTRUCTIONS {
        s
    } else {
        insert_in_order(s, x)
    }
}

/// `s` after merging each of `xs` in turn.
pub open spec fn merge_all(s: Seq<Instruction>, xs: Seq<Instruction>) -> Seq<Instruction>
    decreases xs.len(),
{
    if xs.len() == 0 {
        s
    } else {
        merge_one(merge_all(s, xs.drop_last()), xs.last())
    }
}

/// The instructions of `s` due in `[start, end)`.
pub open spec fn due_in(s: Seq<Instruction>, start: int, end: int) -> Seq<Instruction> {
    s.filter(due_in_pred(start, end))
}

/// Whether an instruction is due in `[start, end)`.
pub open spec fn due_in_pred(start: int, end: int) -> spec_fn(Instruction) -> bool {
    |i: Instruction| start <= i.timestamp && i.timestamp < end
}

/// How far an instruction lies ahead of `now` (negative when late), both
/// times read as signed 64-bit numbers.
pub open spec fn time_diff(timestamp: u64, now: u64) -> int {
    (timestamp as i64) - (now as i64)
}

/// Inserting into a buffer in time order puts the instruction at the
/// position after every instruction that is not later than it.
pub proof fn lemma_insert_in_order_at(s: Seq<Instruction>, x: Instruction, i: int)
    requires
        0 <= i <= s.len(),
        forall|k: int| i <= k < s.len() ==> s[k].timestamp > x.timestamp,
        i == 0 || s[i - 1].timestamp <= x.timestamp,
    ensures
        insert_in_order(s, x) == s.insert(i, x),
    decreases s.len(),
{
    if s.len() == 0 {
        assert(s.insert(i, x) =~= seq![x]);
    } else if s.last().timestamp <= x.timestamp {
        assert(s.insert(i, x) =~= s.push(x));
    } else {
        lemma_insert_in_order_at(s.drop_last(), x, i);
        assert(s.drop_last().insert(i, x).push(s.last()) =~= s.insert(i, x));
    }
}

/// Inserting keeps time order and adds exactly the one instruction.
pub proof fn lemma_insert_in_order_sorted(s: Seq<Instruction>, x: Instruction)
    requires
        in_time_order(s),
    ensures
        in_time_order(insert_in_order(s, x)),
        insert_in_order(s, x).to_multiset() == s.to_multiset().insert(x),
        insert_in_order(s, x).len() == s.len() + 1,
    decreases s.len(),
{
    broadcast use vstd::seq_lib::group_to_multiset_ensures;

    if s.len() == 0 {
        assert(seq![x] =~= Seq::<Instruction>::empty().push(x));
    } else if s.last().timestamp <= x.timestamp {
    } else {
        let t = s.drop_last();
        lemma_insert_in_order_sorted(t, x);
        let r = insert_in_order(t, x);
        assert(s =~= t.push(s.last()));
        assert forall|k: int| 0 <= k < r.len() implies r[k].timestamp <= s.last().timestamp by {
            assert(r.to_multiset().count(r[k]) > 0);
            assert(t.to_multiset().insert(x).count(r[k]) > 0);
            if r[k] != x {
                assert(t.to_multiset().count(r[k]) > 0);
                assert(t.contains(r[k]));
                let j = choose|j: int| 0 <= j < t.len() && t[j] == r[k];
                assert(s[j] == t[j]);
            }
        }
    }
}

/// Inserting keeps what was held and adds the new instruction.
pub proof fn lemma_insert_in_order_contains(s: Seq<Instruction>, x: Instruction)
    ensures
        insert_in_order(s, x).contains(x),
        forall|y: Instruction| s.contains(y) ==> insert_in_order(s, x).contains(y),
    decreases s.len(),
{
    if s.len() == 0 {
        assert(seq![x][0] == x);
    } else if s.last().timestamp <= x.timestamp {
        assert(s.push(x)[s.len() as int] == x);
        assert forall|y: Instruction| s.contains(y) implies s.push(x).contains(y) by {
            let k = choose|k: int| 0 <= k < s.len() && s[k] == y;
            assert(s.push(x)[k] == y);
        }
    } else {
        let t = s.drop_last();
        lemma_insert_in_order_contains(t, x);
        let r = insert_in_order(t, x);
        assert(r.push(s.last())[r.len() as int] == s.last());
        let j = choose|j: int| 0 <= j < r.len() && r[j] == x;
        assert(r.push(s.last())[j] == x);
        assert forall|y: Instruction| s.contains(y) implies r.push(s.last()).contains(y) by {
            let k = choose|k: int| 0 <= k < s.len() && s[k] == y;
            if k < s.len() - 1 {
                assert(t[k] == y);
                assert(t.contains(y));
                let m = choose|m: int| 0 <= m < r.len() && r[m] == y;
                assert(r.push(s.last())[m] == y);
            }
        }
    }
}

/// Merging keeps time order and never shrinks or overfills the buffer.
pub proof fn lemma_merge_all_sorted(s: Seq<Instruction>, xs: Seq<Instruction>)
    requires
        in_time_order(s),
        s.len() <= MAX_INSTRUCTIONS,
    ensures
        in_time_order(merge_all(s, xs)),
        merge_all(s, xs).len() <= MAX_INSTRUCTIONS,
        s.len() <= merge_all(s, xs).len(),
    decreases xs.len(),
{
    if xs.len() > 0 {
        lemma_merge_all_sorted(s, xs.drop_last());
        lemma_insert_in_order_sorted(merge_all(s, xs.drop_last()), xs.last());
    }
}

/// A full buffer takes nothing more.
pub proof fn lemma_merge_into_full(s: Seq<Instruction>, xs: Seq<Instruction>)
    requires
        s.len() >= MAX_INSTRUCTIONS,
    ensures
        merge_all(s, xs) == s,
    decreases xs.len(),
{
    if xs.len() > 0 {
        lemma_merge_into_full(s, xs.drop_last());
    }
}

/// Merging `a` then `b` is merging `a + b`.
pub proof fn lemma_merge_split(s: Seq<Instruction>, a: Seq<Instruction>, b: Seq<Instruction>)
    ensures
        merge_all(s, a + b) == merge_all(merge_all(s, a), b),
    decreases b.len(),
{
    if b.len() == 0 {
        assert(a + b =~= a);
    } else {
        lemma_merge_split(s, a, b.drop_last());
        assert((a + b).drop_last() =~= a + b.drop_last());
        assert((a + b).last() == b.last());
    }
}

/// After a merge the buffer has an instruction at every merged time, unless
/// it filled up.
pub proof fn lemma_merge_all_holds(s: Seq<Instruction>, xs: Seq<Instruction>)
    ensures
        merge_all(s, xs).len() >= MAX_INSTRUCTIONS || forall|k: int|
            0 <= k < xs.len() ==> has_time(merge_all(s, xs), (#[trigger] xs[k]).timestamp),
    decreases xs.len(),
{
    if xs.len() > 0 {
        let base = merge_all(s, xs.drop_last());
        lemma_merge_all_holds(s, xs.drop_last());
        let x = xs.last();
        lemma_merge_one_keeps(base, x);
        let m = merge_all(s, xs);
        if m.len() < MAX_INSTRUCTIONS {
            assert(base.len() < MAX_INSTRUCTIONS);
            assert forall|k: int| 0 <= k < xs.len() implies has_time(m, (#[trigger] xs[k]).timestamp) by {
                if k < xs.len() - 1 {
                    assert(xs.drop_last()[k] == xs[k]);
                    assert(has_time(base, xs.drop_last()[k].timestamp));
                } else {
                    assert(xs[k] == x);
                }
            }
        }
    }
}

/// One merge step keeps every time the buffer had, and leaves the merged
/// instruction's time in it unless the buffer was full.
pub proof fn lemma_merge_one_keeps(s: Seq<Instruction>, x: Instruction)
    ensures
        forall|t: u64| has_time(s, t) ==> has_time(merge_one(s, x), t),
        s.len() < MAX_INSTRUCTIONS ==> has_time(merge_one(s, x), x.timestamp),
        merge_one(s, x).len() >= s.len(),
{
    lemma_insert_in_order_contains(s, x);
    if !(has_time(s, x.timestamp) || s.len() >= MAX_INSTRUCTIONS) {
        lemma_insert_in_order_len(s, x);
        let r = insert_in_order(s, x);
        assert forall|t: u64| has_time(s, t) implies has_time(r, t) by {
            let j = choose|j: int| 0 <= j < s.len() && s[j].timestamp == t;
            assert(s.contains(s[j]));
            let m = choose|m: int| 0 <= m < r.len() && r[m] == s[j];
        }
        let m = choose|m: int| 0 <= m < r.len() && r[m] == x;
    }
}

/// Inserting adds exactly one instruction.
pub proof fn lemma_insert_in_order_len(s: Seq<Instruction>, x: Instruction)
    ensures
        insert_in_order(s, x).len() == s.len() + 1,
    decreases s.len(),
{
    if s.len() > 0 && s.last().timestamp > x.timestamp {
        lemma_insert_in_order_len(s.drop_last(), x);
    }
}

/// Merging the same instructions a second time changes nothing.
pub proof fn lemma_merge_twice(s: Seq<Instruction>, xs: Seq<Instruction>)
    ensures
        merge_all(merge_all(s, xs), xs) == merge_all(s, xs),
{
    let once = merge_all(s, xs);
    lemma_merge_all_holds(s, xs);
    if once.len() >= MAX_INSTRUCTIONS {
        lemma_merge_into_full(once, xs);
    } else {
        lemma_merge_held(once, xs);
    }
}

/// Merging instructions at times the buffer already has changes nothing.
pub proof fn lemma_merge_held(s: Seq<Instruction>, xs: Seq<Instruction>)
    requires
        forall|k: int| 0 <= k < xs.len() ==> has_time(s, (#[trigger] xs[k]).timestamp),
    ensures
        merge_all(s, xs) == s,
    decreases xs.len(),
{
    if xs.len() > 0 {
        assert forall|k: int| 0 <= k < xs.drop_last().len() implies has_time(
            s,
            (#[trigger] xs.drop_last()[k]).timestamp,
        ) by {
            assert(xs.drop_last()[k] == xs[k]);
        }
        lemma_merge_held(s, xs.drop_last());
        assert(xs[xs.len() - 1] == xs.last());
    }
}

/// A time-ordered buffer of at most 100 colour changes.
pub struct Instructions {
    instructions: heapless::Vec<Instruction, 100>,
}

impl View for Instructions {
    type V = Seq<Instruction>;

    closed spec fn view(&self) -> Seq<Instruction> {
        instruction_slots(self.instructions)
    }
}

impl Instructions {
    /// The buffer's invariant: in time order and within its capacity.
    pub open spec fn wf(&self) -> bool {
        in_time_order(self@) && self@.len() <= MAX_INSTRUCTIONS
    }

    /// An empty buffer.
    pub fn new() -> (r: Self)
        ensures
            r.wf(),
            r@ == Seq::<Instruction>::empty(),
    {
        Instructions { instructions: instruction_slots_new() }
    }

    fn later_than(&self, i: usize, timestamp: u64) -> (r: bool)
        requires
            i < self@.len(),
        ensures
            r == (self@[i as int].timestamp > timestamp),
    {
        instruction_slots_get(&self.instructions, i).timestamp > timestamp
    }

    /// Adds one instruction after every instruction that is not later than
    /// it; refused when the buffer is full.
    pub fn add_instruction(&mut self, instruction: Instruction) -> (r: Result<(), ()>)
        requires
            old(self).wf(),
        ensures
            final(self).wf(),
            old(self)@.len() < MAX_INSTRUCTIONS ==> r is Ok && final(self)@ == insert_in_order(
                old(self)@,
                instruction,
            ),
            old(self)@.len() >= MAX_INSTRUCTIONS ==> r is Err && final(self)@ == old(self)@,
            old(self)@.len() < MAX_INSTRUCTIONS ==> in_time_order(final(self)@) && final(self)@.len()
                == old(self)@.len() + 1 && final(self)@.to_multiset() == old(
                self,
            )@.to_multiset().insert(instruction),
    {
        let n = instruction_slots_len(&self.instructions);
        let mut i: usize = n;
        while i > 0 && self.later_than(i - 1, instruction.timestamp)
            invariant
                i <= n,
                n == self@.len(),
                forall|k: int| i <= k < n ==> self@[k].timestamp > instruction.timestamp,
            decreases i,
        {
            i = i - 1;
        }
        proof {
            lemma_insert_in_order_at(self@, instruction, i as int);
            lemma_insert_in_order_sorted(self@, instruction);
        }
        if instruction_slots_insert(&mut self.instructions, i, instruction) {
            Ok(())
        } else {
            Err(())
        }
    }

    /// The instructions due in `[now, now + seconds s)` of the mesh clock
    /// (microseconds), in buffer order.
    pub fn get_next_seconds_instructions(&self, seconds: u64, now: u64) -> (r: heapless::Vec<
        Instruction,
        100,
    >)
        requires
            self.wf(),
            now + seconds * 1_000_000 <= u64::MAX,
        ensures
            instruction_slots(r) == due_in(self@, now as int, now + seconds * 1_000_000),
    {
        let end: u64 = now + seconds * 1_000_000;
        let mut result = instruction_slots_new();
        let n = instruction_slots_len(&self.instructions);
        let ghost s = self@;
        let mut i: usize = 0;
        while i < n
            invariant
                s == self@,
                n == s.len(),
                n <= MAX_INSTRUCTIONS,
                i <= n,
                end == now + seconds * 1_000_000,
                instruction_slots(result) == due_in(s.take(i as int), now as int, end as int),
            decreases n - i,
        {
            let ins = instruction_slots_get(&self.instructions, i);
            let ghost t = s.take(i + 1);
            assert(t.drop_last() =~= s.take(i as int));
            assert(t.last() == ins);
            assert(due_in(t, now as int, end as int) == if due_in_pred(now as int, end as int)(ins) {
                due_in(t.drop_last(), now as int, end as int).push(ins)
            } else {
                due_in(t.drop_last(), now as int, end as int)
            }) by {
                reveal(Seq::filter);
            }
            proof {
                s.take(i as int).lemma_filter_len(due_in_pred(now as int, end as int));
            }
            if ins.timestamp >= now && ins.timestamp < end {
                instruction_slots_push(&mut result, ins);
            }
            i = i + 1;
        }
        assert(s.take(n as int) =~= s);
        result
    }

    /// How many microseconds remain before the first instruction; 0 when it
    /// is due already or the buffer is empty.
    pub fn get_buffer_left(&self, now: u64) -> (r: u64)
        ensures
            self@.len() == 0 ==> r == 0,
            self@.len() > 0 ==> r == if self@[0].timestamp <= now {
                0
            } else {
                self@[0].timestamp - now
            },
    {
        if instruction_slots_len(&self.instructions) == 0 {
            return 0;
        }
        let next = instruction_slots_get(&self.instructions, 0);
        if next.timestamp <= now {
            return 0;
        }
        next.timestamp - now
    }

    /// Plays the buffer at mesh time `now`: with nothing buffered, sleep
    /// 100 ms; an instruction more than 50 ms late is dropped (sleep 100 ms);
    /// one more than 50 ms ahead is waited for, until 10 ms before it; one
    /// within the window is taken out and shown.
    pub fn get_next_instruction(&mut self, now: u64) -> (r: InstructionStatus)
        requires
            old(self).wf(),
            old(self)@.len() > 0 ==> i64::MIN <= time_diff(old(self)@[0].timestamp, now)
                <= i64::MAX,
        ensures
            final(self).wf(),
            ({
                let s = old(self)@;
                if s.len() == 0 {
                    r == InstructionStatus::Sleep(100_000) && final(self)@ == s
                } else if time_diff(s[0].timestamp, now) < -TIMING_WINDOW_US {
                    r == InstructionStatus::Sleep(100_000) && final(self)@ == s.drop_first()
                } else if time_diff(s[0].timestamp, now) > TIMING_WINDOW_US {
                    r == InstructionStatus::Sleep((time_diff(s[0].timestamp, now) - 10_000) as u64)
                        && final(self)@ == s
                } else {
                    r == InstructionStatus::SetColor(s[0].color) && final(self)@ == s.drop_first()
                }
            }),
    {
        if instruction_slots_len(&self.instructions) == 0 {
            return InstructionStatus::Sleep(100_000);
        }
        let next = instruction_slots_get(&self.instructions, 0);
        let diff: i64 = (next.timestamp as i64) - (now as i64);
        if diff < -TIMING_WINDOW_US {
            instruction_slots_remove(&mut self.instructions, 0);
            assert(self@ =~= old(self)@.drop_first());
            return InstructionStatus::Sleep(100_000);
        }
        if diff > TIMING_WINDOW_US {
            let wait: i64 = if diff - 10_000 > 0 {
                diff - 10_000
            } else {
                0
            };
            return InstructionStatus::Sleep(wait as u64);
        }
        let instruction = instruction_slots_remove(&mut self.instructions, 0);
        assert(self@ =~= old(self)@.drop_first());
        InstructionStatus::SetColor(instruction.color)
    }

    fn has_timestamp(&self, t: u64) -> (r: bool)
        ensures
            r == has_time(self@, t),
    {
        let n = instruction_slots_len(&self.instructions);
        let mut i: usize = 0;
        while i < n
            invariant
                n == self@.len(),
                i <= n,
                forall|k: int| 0 <= k < i ==> self@[k].timestamp != t,
            decreases n - i,
        {
            if instruction_slots_get(&self.instructions, i).timestamp == t {
                return true;
            }
            i = i + 1;
        }
        false
    }

    /// Merges `new_instructions` in, in their order: one at a time the buffer
    /// already has is skipped, the others are added in time order until the
    /// buffer is full.
    pub fn combine_instructions(&mut self, new_instructions: &[Instruction])
        requires
            old(self).wf(),
        ensures
            final(self).wf(),
            final(self)@ == merge_all(old(self)@, new_instructions@),
    {
        let ghost start = self@;
        let ghost xs = new_instructions@;
        let mut i: usize = 0;
        let mut stopped = false;
        while i < new_instructions.len() && !stopped
            invariant
                self.wf(),
                xs == new_instructions@,
                i <= xs.len(),
                !stopped ==> self@ == merge_all(start, xs.take(i as int)),
                stopped ==> self@ == merge_all(start, xs),
            decreases xs.len() - i, if stopped {
                0int
            } else {
                1int
            },
        {
            let x = new_instructions[i];
            assert(xs.take(i + 1).drop_last() =~= xs.take(i as int));
            assert(xs.take(i + 1).last() == x);
            if !self.has_timestamp(x.timestamp) {
                if self.add_instruction(x).is_err() {
                    proof {
                        assert(xs =~= xs.take(i as int) + xs.skip(i as int));
                        lemma_merge_split(start, xs.take(i as int), xs.skip(i as int));
                        lemma_merge_into_full(self@, xs.skip(i as int));
                    }
                    stopped = true;
                } else {
                    i = i + 1;
                }
            } else {
                i = i + 1;
            }
        }
        proof {
            if !stopped {
                assert(xs.take(i as int) =~= xs);
            }
        }
    }

    /// Empties the buffer.
    pub fn clear(&mut self)
        ensures
            final(self).wf(),
            final(self)@ == Seq::<Instruction>::empty(),
    {
        instruction_slots_clear(&mut self.instructions);
    }

    /// The number of buffered instructions.
    pub fn len(&self) -> (r: usize)
        ensures
            r == self@.len(),
    {
        instruction_slots_len(&self.instructions)
    }

    /// Whether nothing is buffered.
    pub fn is_empty(&self) -> (r: bool)
        ensures
            r == (self@.len() == 0),
    {
        instruction_slots_len(&self.instructions) == 0
    }
}

/// Adds an instruction to the node's buffer; refused before the buffer is
/// set up.
pub fn add_instruction(buffer: &mut Option<Instructions>, instruction: Instruction) -> (r: Result<
    (),
    (),
>)
    requires
        (*old(buffer)) is Some ==> old(buffer)->0.wf(),
    ensures
        (*old(buffer)) is None ==> r is Err && (*final(buffer)) is None,
        (*old(buffer)) is Some ==> (*final(buffer)) is Some && final(buffer)->0.wf() && ({
            let s = old(buffer)->0@;
            if s.len() < MAX_INSTRUCTIONS {
                r is Ok && final(buffer)->0@ == insert_in_order(s, instruction)
            } else {
                r is Err && final(buffer)->0@ == s
            }
        }),
{
    match buffer {
        Some(instr) => instr.add_instruction(instruction),
        None => Err(()),
    }
}

/// The next playback step of the node's buffer; sleep 100 ms before it is
/// set up.
pub fn get_next_instruction(buffer: &mut Option<Instructions>, now: u64) -> (r: InstructionStatus)
    requires
        (*old(buffer)) is Some ==> old(buffer)->0.wf(),
        (*old(buffer)) is Some && old(buffer)->0@.len() > 0 ==> i64::MIN <= time_diff(
            old(buffer)->0@[0].timestamp,
            now,
        ) <= i64::MAX,
    ensures
        (*old(buffer)) is None ==> r == InstructionStatus::Sleep(100_000) && (*final(buffer)) is None,
        (*old(buffer)) is Some ==> (*final(buffer)) is Some && final(buffer)->0.wf() && ({
            let s = old(buffer)->0@;
            if s.len() == 0 {
                r == InstructionStatus::Sleep(100_000) && final(buffer)->0@ == s
            } else if time_diff(s[0].timestamp, now) < -TIMING_WINDOW_US {
                r == InstructionStatus::Sleep(100_000) && final(buffer)->0@ == s.drop_first()
            } else if time_diff(s[0].timestamp, now) > TIMING_WINDOW_US {
                r == InstructionStatus::Sleep((time_diff(s[0].timestamp, now) - 10_000) as u64)
                    && final(buffer)->0@ == s
            } else {
                r == InstructionStatus::SetColor(s[0].color) && final(buffer)->0@ == s.drop_first()
            }
        }),
{
    match buffer {
        Some(instr) => instr.get_next_instruction(now),
        None => InstructionStatus::Sleep(100_000),
    }
}

/// Merges instructions into the node's buffer, once it is set up.
pub fn combine_instructions(buffer: &mut Option<Instructions>, new_instructions: &[Instruction])
    requires
        (*old(buffer)) is Some ==> old(buffer)->0.wf(),
    ensures
        (*old(buffer)) is None ==> (*final(buffer)) is None,
        (*old(buffer)) is Some ==> (*final(buffer)) is Some && final(buffer)->0.wf()
            && final(buffer)->0@ == merge_all(old(buffer)->0@, new_instructions@),
{
    match buffer {
        Some(instr) => instr.combine_instructions(new_instructions),
        None => {},
    }
}

/// Microseconds left before the node's next instruction; 0 before the
/// buffer is set up.
pub fn get_buffer_left(buffer: &Option<Instructions>, now: u64) -> (r: u64)
    ensures
        buffer is None ==> r == 0,
        buffer is Some ==> ({
            let s = buffer->0@;
            r == if s.len() == 0 || s[0].timestamp <= now {
                0
            } else {
                s[0].timestamp - now
            }
        }),
{
    match buffer {
        Some(instr) => instr.get_buffer_left(now),
        None => 0,
    }
}

/// Empties the node's buffer, once it is set up.
pub fn clear_instructions(buffer: &mut Option<Instructions>)
    ensures
        (*old(buffer)) is None ==> (*final(buffer)) is None,
        (*old(buffer)) is Some ==> (*final(buffer)) is Some && final(buffer)->0.wf()
            && final(buffer)->0@ == Seq::<Instruction>::empty(),
{
    match buffer {
        Some(instr) => instr.clear(),
        None => {},
    }
}

} // verus!
