//! The timed colour schedule of a mesh node: instructions kept in time
//! order, merged without duplicates, and played back within a 50-unit
//! window of the mesh clock.

use vstd::prelude::*;
use crate::color::Rgb8;

verus! {

/// Set the LED to `color` at mesh time `timestamp`.
#[derive(Debug, Clone, Copy, PartialEq, Eq, Structural)]
pub struct Instruction {
    pub timestamp: i64,
    pub color: Rgb8,
}

/// What the player is to do next.
#[derive(Debug, Clone, Copy, PartialEq, Eq, Structural)]
pub enum InstructionStatus {
    /// Sleep this long before asking again.
    Sleep(i64),
    /// Show this colour now.
    SetColor(Rgb8),
}

/// Whether the instructions are in time order.
pub open spec fn sorted_by_time(s: Seq<Instruction>) -> bool {
    forall|i: int, j: int| 0 <= i < j < s.len() ==> s[i].timestamp <= s[j].timestamp
}

/// `s` with `x` put after every instruction that is not later than it.
pub open spec fn insert_by_time(s: Seq<Instruction>, x: Instruction) -> Seq<Instruction>
    decreases s.len(),
{
    if s.len() == 0 {
        seq![x]
    } else if s.last().timestamp <= x.timestamp {
        s.push(x)
    } else {
        insert_by_time(s.drop_last(), x).push(s.last())
    }
}

/// `s` with each of `xs` put in, in turn, by `insert_by_time`.
pub open spec fn insert_all_by_time(s: Seq<Instruction>, xs: Seq<Instruction>) -> Seq<
    Instruction,
>
    decreases xs.len(),
{
    if xs.len() == 0 {
        s
    } else {
        insert_by_time(insert_all_by_time(s, xs.drop_last()), xs.last())
    }
}

/// Whether some instruction of `s` is at time `t`.
pub open spec fn has_time(s: Seq<Instruction>, t: i64) -> bool {
    exists|j: int| 0 <= j < s.len() && s[j].timestamp == t
}

/// The instructions of `xs` at times that `existing` has no instruction at.
pub open spec fn fresh_instructions(existing: Seq<Instruction>, xs: Seq<Instruction>) -> Seq<
    Instruction,
> {
    xs.filter(new_time(existing))
}

/// Whether an instruction is at a time that `existing` has no instruction at.
pub open spec fn new_time(existing: Seq<Instruction>) -> spec_fn(Instruction) -> bool {
    |i: Instruction| !has_time(existing, i.timestamp)
}

/// The instructions of `s` due in `[start, end)`.
pub open spec fn due_between(s: Seq<Instruction>, start: int, end: int) -> Seq<Instruction> {
    s.filter(due_pred(start, end))
}

/// Whether an instruction is due in `[start, end)`.
pub open spec fn due_pred(start: int, end: int) -> spec_fn(Instruction) -> bool {
    |i: Instruction| start <= i.timestamp && i.timestamp < end
}

/// Inserting into a schedule in time order puts the instruction at the
/// position after every instruction that is not later than it.
pub proof fn lemma_insert_by_time_at(s: Seq<Instruction>, x: Instruction, i: int)
    requires
        0 <= i <= s.len(),
        forall|k: int| i <= k < s.len() ==> s[k].timestamp > x.timestamp,
        i == 0 || s[i - 1].timestamp <= x.timestamp,
    ensures
        insert_by_time(s, x) == s.insert(i, x),
    decreases s.len(),
{
    if s.len() == 0 {
        assert(s.insert(i, x) =~= seq![x]);
    } else if s.last().timestamp <= x.timestamp {
        assert(i == s.len());
        assert(s.insert(i, x) =~= s.push(x));
    } else {
        lemma_insert_by_time_at(s.drop_last(), x, i);
        assert(s.drop_last().insert(i, x).push(s.last()) =~= s.insert(i, x));
    }
}

/// Inserting keeps time order and adds exactly the one instruction.
pub proof fn lemma_insert_by_time_sorted(s: Seq<Instruction>, x: Instruction)
    requires
        sorted_by_time(s),
    ensures
        sorted_by_time(insert_by_time(s, x)),
        insert_by_time(s, x).to_multiset() == s.to_multiset().insert(x),
    decreases s.len(),
{
    broadcast use vstd::seq_lib::group_to_multiset_ensures;

    if s.len() == 0 {
        assert(seq![x] =~= Seq::<Instruction>::empty().push(x));
    } else if s.last().timestamp <= x.timestamp {
    } else {
        let t = s.drop_last();
        assert(sorted_by_time(t));
        lemma_insert_by_time_sorted(t, x);
        let r = insert_by_time(t, x);
        assert(s =~= t.push(s.last()));
        assert forall|k: int| 0 <= k < r.len() implies r[k].timestamp <= s.last().timestamp by {
            assert(r.to_multiset().count(r[k]) > 0);
            assert(t.to_multiset().insert(x).count(r[k]) > 0);
            if r[k] != x {
                assert(t.to_multiset().count(r[k]) > 0);
                assert(t.contains(r[k]));
                let j = choose|j: int| 0 <= j < t.len() && t[j] == r[k];
                assert(s[j] == t[j]);
            }
        }
    }
}

/// A time-ordered schedule of colour changes.
pub struct Instructions {
    pub instructions: Vec<Instruction>,
}

impl Instructions {
    /// An empty schedule.
    pub fn new() -> (r: Self)
        ensures
            r.instructions@ == Seq::<Instruction>::empty(),
    {
        Instructions { instructions: Vec::new() }
    }

    fn insert_sorted(&mut self, x: Instruction)
        ensures
            final(self).instructions@ == insert_by_time(old(self).instructions@, x),
    {
        let mut i: usize = self.instructions.len();
        while i > 0 && self.instructions[i - 1].timestamp > x.timestamp
            invariant
                i <= self.instructions@.len(),
                forall|k: int|
                    i <= k < self.instructions@.len() ==> self.instructions@[k].timestamp
                        > x.timestamp,
            decreases i,
        {
            i = i - 1;
        }
        proof {
            lemma_insert_by_time_at(self.instructions@, x, i as int);
        }
        self.instructions.insert(i, x);
    }

    /// Adds one instruction after every instruction that is not later.
    pub fn add_instruction(&mut self, instruction: Instruction)
        ensures
            final(self).instructions@ == insert_by_time(old(self).instructions@, instruction),
    {
        self.insert_sorted(instruction);
    }

    /// The instructions due in `[now, now + seconds)` of the mesh clock,
    /// in schedule order.
    pub fn get_next_seconds_instructions(&self, seconds: i64, now: i64) -> (r: Vec<Instruction>)
        requires
            i64::MIN <= now + seconds <= i64::MAX,
        ensures
            r@ == due_between(self.instructions@, now as int, now + seconds),
    {
        let end: i64 = now + seconds;
        let mut r: Vec<Instruction> = Vec::new();
        let mut i: usize = 0;
        while i < self.instructions.len()
            invariant
                end == now + seconds,
                i <= self.instructions@.len(),
                r@ == due_between(self.instructions@.take(i as int), now as int, end as int),
            decreases self.instructions@.len() - i,
        {
            let ins = self.instructions[i];
            let ghost t = self.instructions@.take(i + 1);
            assert(t.drop_last() =~= self.instructions@.take(i as int));
            assert(t.last() == ins);
            assert(due_between(t, now as int, end as int) == if due_pred(now as int, end as int)(ins) {
                due_between(t.drop_last(), now as int, end as int).push(ins)
            } else {
                due_between(t.drop_last(), now as int, end as int)
            }) by {
                reveal(Seq::filter);
            }
            if ins.timestamp >= now && ins.timestamp < end {
                r.push(ins);
            }
            i = i + 1;
        }
        assert(self.instructions@.take(i as int) =~= self.instructions@);
        r
    }

    /// How far ahead of `now` the first instruction lies, or 0 when it is
    /// due already or there is none.
    pub fn get_buffer_left(&self, now: i64) -> (r: i64)
        requires
            self.instructions@.len() > 0 ==> i64::MIN <= self.instructions@[0].timestamp - now
                <= i64::MAX,
        ensures
            self.instructions@.len() == 0 ==> r == 0,
            self.instructions@.len() > 0 ==> r == if self.instructions@[0].timestamp - now < 0 {
                0
            } else {
                self.instructions@[0].timestamp - now
            },
    {
        if self.instructions.len() == 0 {
            return 0;
        }
        let left = self.instructions[0].timestamp - now;
        if left < 0 {
            0
        } else {
            left
        }
    }

    /// Plays the schedule at mesh time `now`: an instruction more than 50
    /// units late is dropped; one more than 50 units ahead is waited for
    /// (until 10 units before it); one within the window is taken and shown.
    pub fn get_next_instruction(&mut self, now: i64) -> (r: InstructionStatus)
        requires
            i64::MIN + 50 <= now <= i64::MAX - 50,
            old(self).instructions@.len() > 0 ==> i64::MIN <= old(self).instructions@[0].timestamp
                - now <= i64::MAX,
        ensures
            ({
                let s = old(self).instructions@;
                if s.len() == 0 {
                    r == InstructionStatus::Sleep(100) && final(self).instructions@ == s
                } else if s[0].timestamp < now - 50 {
                    r == InstructionStatus::Sleep(100) && final(self).instructions@ == s.drop_first()
                } else if s[0].timestamp > now + 50 {
                    r == InstructionStatus::Sleep((s[0].timestamp - now - 10) as i64)
                        && final(self).instructions@ == s
                } else {
                    r == InstructionStatus::SetColor(s[0].color) && final(self).instructions@
                        == s.drop_first()
                }
            }),
    {
        if self.instructions.len() == 0 {
            return InstructionStatus::Sleep(100);
        }
        let next = self.instructions[0];
        if next.timestamp < now - 50 {
            self.instructions.remove(0);
            assert(self.instructions@ =~= old(self).instructions@.drop_first());
            return InstructionStatus::Sleep(100);
        }
        if next.timestamp > now + 50 {
            return InstructionStatus::Sleep(next.timestamp - now - 10);
        }
        let instruction = self.instructions.remove(0);
        assert(self.instructions@ =~= old(self).instructions@.drop_first());
        InstructionStatus::SetColor(instruction.color)
    }

    fn has_timestamp(&self, t: i64) -> (r: bool)
        ensures
            r == has_time(self.instructions@, t),
    {
        let mut i: usize = 0;
        while i < self.instructions.len()
            invariant
                i <= self.instructions@.len(),
                forall|k: int| 0 <= k < i ==> self.instructions@[k].timestamp != t,
            decreases self.instructions@.len() - i,
        {
            if self.instructions[i].timestamp == t {
                return true;
            }
            i = i + 1;
        }
        false
    }

    /// Merges `instructions` into the schedule: only times the schedule has
    /// no instruction at yet are added, each instruction put in time order
    /// after those not later than it.
    pub fn combine_instructions(&mut self, instructions: Vec<Instruction>)
        ensures
            final(self).instructions@ == insert_all_by_time(
                old(self).instructions@,
                fresh_instructions(old(self).instructions@, instructions@),
            ),
            distinct_times(old(self).instructions@) && distinct_times(instructions@)
                ==> distinct_times(final(self).instructions@),
    {
        let ghost existing = self.instructions@;
        let mut fresh: Vec<Instruction> = Vec::new();
        let mut i: usize = 0;
        while i < instructions.len()
            invariant
                self.instructions@ == existing,
                i <= instructions@.len(),
                fresh@ == fresh_instructions(existing, instructions@.take(i as int)),
            decreases instructions@.len() - i,
        {
            let x = instructions[i];
            let ghost t = instructions@.take(i + 1);
            assert(t.drop_last() =~= instructions@.take(i as int));
            assert(t.last() == x);
            assert(fresh_instructions(existing, t) == if new_time(existing)(x) {
                fresh_instructions(existing, t.drop_last()).push(x)
            } else {
                fresh_instructions(existing, t.drop_last())
            }) by {
                reveal(Seq::filter);
            }
            if !self.has_timestamp(x.timestamp) {
                fresh.push(x);
            }
            i = i + 1;
        }
        assert(instructions@.take(i as int) =~= instructions@);
        let mut j: usize = 0;
        while j < fresh.len()
            invariant
                j <= fresh@.len(),
                self.instructions@ == insert_all_by_time(existing, fresh@.take(j as int)),
            decreases fresh@.len() - j,
        {
            assert(fresh@.take(j + 1).drop_last() =~= fresh@.take(j as int));
            self.insert_sorted(fresh[j]);
            j = j + 1;
        }
        assert(fresh@.take(j as int) =~= fresh@);
        proof {
            if distinct_times(existing) && distinct_times(instructions@) {
                lemma_combine_keeps_times_distinct(existing, instructions@);
            }
        }
    }
}

/// One generated instruction and the time of the next: the colour comes
/// from the low bytes of three random numbers, the gap from a fourth, 200
/// to 1199 units.
pub fn random_instruction(current_time: i64, red: u32, green: u32, blue: u32, gap: u32) -> (r: (
    Instruction,
    i64,
))
    requires
        current_time + 1199 <= i64::MAX,
    ensures
        r.0 == (Instruction {
            timestamp: current_time,
            color: Rgb8 { r: (red % 256) as u8, g: (green % 256) as u8, b: (blue % 256) as u8 },
        }),
        r.1 == current_time + gap % 1000 + 200,
{
    let color = Rgb8::new((red % 256) as u8, (green % 256) as u8, (blue % 256) as u8);
    let next: i64 = current_time + (gap % 1000 + 200) as i64;
    (Instruction { timestamp: current_time, color }, next)
}

/// Merging keeps the schedule in time order.
pub proof fn lemma_insert_all_sorted(s: Seq<Instruction>, xs: Seq<Instruction>)
    requires
        sorted_by_time(s),
    ensures
        sorted_by_time(insert_all_by_time(s, xs)),
    decreases xs.len(),
{
    if xs.len() > 0 {
        lemma_insert_all_sorted(s, xs.drop_last());
        lemma_insert_by_time_sorted(insert_all_by_time(s, xs.drop_last()), xs.last());
    }
}

/// Merging the same instructions a second time changes nothing.
pub proof fn lemma_combine_twice(s: Seq<Instruction>, xs: Seq<Instruction>)
    requires
        sorted_by_time(s),
    ensures
        ({
            let once = insert_all_by_time(s, fresh_instructions(s, xs));
            insert_all_by_time(once, fresh_instructions(once, xs)) == once
        }),
{
    let f = fresh_instructions(s, xs);
    let once = insert_all_by_time(s, f);
    lemma_insert_all_contains(s, f);
    assert forall|k: int| 0 <= k < xs.len() implies has_time(once, (#[trigger] xs[k]).timestamp) by {
        if has_time(s, xs[k].timestamp) {
            let j = choose|j: int| 0 <= j < s.len() && s[j].timestamp == xs[k].timestamp;
            assert(s.contains(s[j]));
            assert(once.contains(s[j]));
            let m = choose|m: int| 0 <= m < once.len() && once[m] == s[j];
        } else {
            xs.lemma_filter_contains(new_time(s), k);
            assert(once.contains(xs[k]));
            let m = choose|m: int| 0 <= m < once.len() && once[m] == xs[k];
        }
    }
    let g = fresh_instructions(once, xs);
    if g.len() > 0 {
        let y = g[0];
        xs.lemma_filter_pred(new_time(once), 0);
        assert(g.contains(y));
        xs.lemma_filter_contains_rev(new_time(once), y);
        let k = choose|k: int| 0 <= k < xs.len() && xs[k] == y;
        assert(has_time(once, xs[k].timestamp));
        assert(false);
    }
    assert(g =~= Seq::<Instruction>::empty());
}

/// Everything held before a merge, and everything merged in, is held after.
pub proof fn lemma_insert_all_contains(s: Seq<Instruction>, xs: Seq<Instruction>)
    ensures
        forall|y: Instruction| s.contains(y) ==> insert_all_by_time(s, xs).contains(y),
        forall|y: Instruction| xs.contains(y) ==> insert_all_by_time(s, xs).contains(y),
    decreases xs.len(),
{
    if xs.len() > 0 {
        lemma_insert_all_contains(s, xs.drop_last());
        let base = insert_all_by_time(s, xs.drop_last());
        lemma_insert_by_time_contains(base, xs.last());
        assert forall|y: Instruction| xs.contains(y) implies insert_all_by_time(s, xs).contains(y) by {
            let k = choose|k: int| 0 <= k < xs.len() && xs[k] == y;
            if k < xs.len() - 1 {
                assert(xs.drop_last()[k] == y);
                assert(xs.drop_last().contains(y));
                assert(base.contains(y));
            } else {
                assert(y == xs.last());
            }
        }
    }
}

/// Inserting keeps what was held and adds the new instruction.
pub proof fn lemma_insert_by_time_contains(s: Seq<Instruction>, x: Instruction)
    ensures
        insert_by_time(s, x).contains(x),
        forall|y: Instruction| s.contains(y) ==> insert_by_time(s, x).contains(y),
    decreases s.len(),
{
    if s.len() == 0 {
        assert(seq![x][0] == x);
    } else if s.last().timestamp <= x.timestamp {
        assert(s.push(x)[s.len() as int] == x);
        assert forall|y: Instruction| s.contains(y) implies s.push(x).contains(y) by {
            let k = choose|k: int| 0 <= k < s.len() && s[k] == y;
            assert(s.push(x)[k] == y);
        }
    } else {
        let t = s.drop_last();
        lemma_insert_by_time_contains(t, x);
        let r = insert_by_time(t, x);
        let k0 = choose|k: int| 0 <= k < r.len() && r[k] == x;
        assert(r.push(s.last())[k0] == x);
        assert forall|y: Instruction| s.contains(y) implies r.push(s.last()).contains(y) by {
            let k = choose|k: int| 0 <= k < s.len() && s[k] == y;
            if k == s.len() - 1 {
                assert(r.push(s.last())[r.len() as int] == y);
            } else {
                assert(t[k] == y);
                assert(t.contains(y));
                let j = choose|j: int| 0 <= j < r.len() && r[j] == y;
                assert(r.push(s.last())[j] == y);
            }
        }
    }
}


/// Whether no two instructions of `s` are at the same time.
pub open spec fn distinct_times(s: Seq<Instruction>) -> bool {
    forall|i: int, j: int| 0 <= i < j < s.len() ==> s[i].timestamp != s[j].timestamp
}

proof fn lemma_insert_by_time_distinct(s: Seq<Instruction>, x: Instruction)
    requires
        distinct_times(s),
        !has_time(s, x.timestamp),
    ensures
        distinct_times(insert_by_time(s, x)),
        forall|t: i64| #[trigger] has_time(insert_by_time(s, x), t) ==> has_time(s, t) || t == x.timestamp,
    decreases s.len(),
{
    if s.len() == 0 {
    } else if s.last().timestamp <= x.timestamp {
        let r = s.push(x);
        assert forall|i: int, j: int| 0 <= i < j < r.len() implies r[i].timestamp != r[j].timestamp by {
            if j == s.len() {
                assert(r[i] == s[i]);
            }
        }
        assert forall|t: i64| #[trigger] has_time(r, t) implies has_time(s, t) || t == x.timestamp by {
            let k = choose|k: int| 0 <= k < r.len() && r[k].timestamp == t;
            if k < s.len() {
                assert(s[k] == r[k]);
            }
        }
    } else {
        let d = s.drop_last();
        let l = s.last();
        assert(!has_time(d, x.timestamp)) by {
            if has_time(d, x.timestamp) {
                let k = choose|k: int| 0 <= k < d.len() && d[k].timestamp == x.timestamp;
                assert(s[k] == d[k]);
            }
        }
        lemma_insert_by_time_distinct(d, x);
        let ir = insert_by_time(d, x);
        let r = ir.push(l);
        assert(x.timestamp != l.timestamp) by {
            assert(s[s.len() - 1] == l);
        }
        assert forall|i: int, j: int| 0 <= i < j < r.len() implies r[i].timestamp != r[j].timestamp by {
            if j == ir.len() {
                assert(r[i] == ir[i]);
                assert(has_time(ir, ir[i].timestamp));
                if has_time(d, ir[i].timestamp) {
                    let k = choose|k: int| 0 <= k < d.len() && d[k].timestamp == ir[i].timestamp;
                    assert(s[k] == d[k]);
                    assert(s[s.len() - 1] == l);
                }
            } else {
                assert(r[i] == ir[i]);
                assert(r[j] == ir[j]);
            }
        }
        assert forall|t: i64| #[trigger] has_time(r, t) implies has_time(s, t) || t == x.timestamp by {
            let k = choose|k: int| 0 <= k < r.len() && r[k].timestamp == t;
            if k < ir.len() {
                assert(r[k] == ir[k]);
                assert(has_time(ir, t));
                if has_time(d, t) {
                    let m = choose|m: int| 0 <= m < d.len() && d[m].timestamp == t;
                    assert(s[m] == d[m]);
                }
            } else {
                assert(s[s.len() - 1] == l);
            }
        }
    }
}

proof fn lemma_merge_distinct(s: Seq<Instruction>, xs: Seq<Instruction>)
    requires
        distinct_times(s),
        distinct_times(xs),
    ensures
        distinct_times(insert_all_by_time(s, fresh_instructions(s, xs))),
        forall|t: i64|
            #[trigger] has_time(insert_all_by_time(s, fresh_instructions(s, xs)), t) ==> has_time(s, t)
                || has_time(xs, t),
    decreases xs.len(),
{
    if xs.len() == 0 {
        assert(fresh_instructions(s, xs) =~= Seq::<Instruction>::empty()) by {
            reveal(Seq::filter);
        }
    } else {
        let p = xs.drop_last();
        let x = xs.last();
        assert(p.push(x) =~= xs);
        p.lemma_filter_push(x, new_time(s));
        lemma_merge_distinct(s, p);
        let before = insert_all_by_time(s, fresh_instructions(s, p));
        assert forall|t: i64| has_time(p, t) implies has_time(xs, t) by {
            let k = choose|k: int| 0 <= k < p.len() && p[k].timestamp == t;
            assert(xs[k] == p[k]);
        }
        if !has_time(s, x.timestamp) {
            let f = fresh_instructions(s, p);
            assert(fresh_instructions(s, xs) == f.push(x));
            assert(f.push(x).drop_last() =~= f);
            assert(insert_all_by_time(s, f.push(x)) == insert_by_time(before, x));
            assert(!has_time(before, x.timestamp)) by {
                if has_time(before, x.timestamp) {
                    assert(has_time(p, x.timestamp));
                    let k = choose|k: int| 0 <= k < p.len() && p[k].timestamp == x.timestamp;
                    assert(xs[k] == p[k]);
                    assert(xs[xs.len() - 1] == x);
                }
            }
            lemma_insert_by_time_distinct(before, x);
            assert forall|t: i64| #[trigger] has_time(insert_by_time(before, x), t) implies has_time(s, t)
                || has_time(xs, t) by {
                if t == x.timestamp {
                    assert(xs[xs.len() - 1] == x);
                } else {
                    assert(has_time(before, t));
                }
            }
        } else {
            assert(fresh_instructions(s, xs) == fresh_instructions(s, p));
        }
    }
}

/// Merging instructions at distinct times into a schedule that has no two
/// instructions at one time leaves no two instructions at one time.
pub proof fn lemma_combine_keeps_times_distinct(s: Seq<Instruction>, xs: Seq<Instruction>)
    requires
        distinct_times(s),
        distinct_times(xs),
    ensures
        distinct_times(insert_all_by_time(s, fresh_instructions(s, xs))),
{
    lemma_merge_distinct(s, xs);
}

} // verus!
