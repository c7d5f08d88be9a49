//! Plays timed device commands on an LED strip: commands wait in a queue
//! ordered by time and are applied once the show clock reaches them.

use vstd::prelude::*;
use crate::color::Rgb8;
use crate::show::{DeviceCommand, TimedInstruction};

verus! {

/// Number of LEDs a strip may have.
pub const MAX_LEDS: usize = 35;

/// Commands for the LED driver.
#[derive(Debug, Clone, Copy, PartialEq, Eq, Structural)]
pub enum LedCommand {
    /// Show the rainbow wave pattern.
    Wave,
    /// Switch every LED off.
    Off,
    /// Show one colour on every LED.
    SetColor(Rgb8),
}

/// A queued command.
pub struct QueuedInstruction {
    pub timestamp: u64,
    pub command: DeviceCommand,
}

/// Whether queued commands are in time order.
pub open spec fn queue_sorted(q: Seq<QueuedInstruction>) -> bool {
    forall|i: int, j: int| 0 <= i < j < q.len() ==> q[i].timestamp <= q[j].timestamp
}

/// The colour after one command: a light switched on turns black into
/// white and keeps any other colour; switched off it is black; an RGB
/// command sets its colour; other commands change nothing.
pub open spec fn apply_spec(color: Rgb8, command: DeviceCommand) -> Rgb8 {
    match command {
        DeviceCommand::Light { enabled } => if enabled {
            if color == (Rgb8 { r: 0, g: 0, b: 0 }) {
                Rgb8 { r: 255, g: 255, b: 255 }
            } else {
                color
            }
        } else {
            Rgb8 { r: 0, g: 0, b: 0 }
        },
        DeviceCommand::Rgb { r, g, b } => Rgb8 { r, g, b },
        DeviceCommand::Custom { .. } => color,
    }
}

/// The colour after a run of queued commands.
pub open spec fn apply_all(color: Rgb8, q: Seq<QueuedInstruction>) -> Rgb8
    decreases q.len(),
{
    if q.len() == 0 {
        color
    } else {
        apply_spec(apply_all(color, q.drop_last()), q.last().command)
    }
}

/// How many queued commands are due at `now` (they come first).
pub open spec fn due_count(q: Seq<QueuedInstruction>, now: u64, k: int) -> bool {
    &&& 0 <= k <= q.len()
    &&& forall|i: int| 0 <= i < k ==> (#[trigger] q[i]).timestamp <= now
    &&& k < q.len() ==> q[k].timestamp > now
}

/// Commands as they wait in the queue.
pub open spec fn queued(xs: Seq<TimedInstruction>) -> Seq<QueuedInstruction> {
    xs.map_values(|x: TimedInstruction| QueuedInstruction { timestamp: x.timestamp, command: x.command })
}

/// Putting `e` anywhere into `s` adds it once to what `s` holds.
pub(crate) proof fn lemma_insert_to_multiset(s: Seq<QueuedInstruction>, p: int, e: QueuedInstruction)
    requires
        0 <= p <= s.len(),
    ensures
        s.insert(p, e).to_multiset() == s.to_multiset().insert(e),
{
    broadcast use vstd::seq_lib::group_to_multiset_ensures;

    let t = s.insert(p, e);
    assert(t.remove(p) =~= s);
    assert(t[p] == e);
    assert(t.contains(e));
    assert(t.to_multiset().remove(e).insert(e) =~= t.to_multiset());
}

/// Plays queued commands on a strip of `num_leds` LEDs.
pub struct LedExecutor {
    instruction_queue: Vec<QueuedInstruction>,
    current_color: Rgb8,
    num_leds: usize,
}

impl LedExecutor {
    /// The queue in time order.
    pub closed spec fn queue(&self) -> Seq<QueuedInstruction> {
        self.instruction_queue@
    }

    /// The colour on the strip.
    pub closed spec fn color(&self) -> Rgb8 {
        self.current_color
    }

    /// The strip's length.
    pub closed spec fn leds(&self) -> usize {
        self.num_leds
    }

    /// The queue is in time order.
    pub closed spec fn wf(&self) -> bool {
        queue_sorted(self.instruction_queue@)
    }

    /// An executor with nothing queued, showing black.
    pub fn new(num_leds: usize) -> (e: Self)
        ensures
            e.wf(),
            e.queue().len() == 0,
            e.color() == (Rgb8 { r: 0, g: 0, b: 0 }),
            e.leds() == num_leds,
    {
        LedExecutor {
            instruction_queue: Vec::new(),
            current_color: Rgb8::new(0, 0, 0),
            num_leds,
        }
    }

    /// An executor for the longest strip.
    pub fn default() -> (e: Self)
        ensures
            e.wf(),
            e.queue().len() == 0,
            e.color() == (Rgb8 { r: 0, g: 0, b: 0 }),
            e.leds() == MAX_LEDS,
    {
        Self::new(MAX_LEDS)
    }

    /// Queues one command after every queued command that is not later.
    pub fn add_instruction(&mut self, instruction: TimedInstruction)
        requires
            old(self).wf(),
        ensures
            final(self).wf(),
            final(self).color() == old(self).color(),
            final(self).leds() == old(self).leds(),
            exists|p: int|
                0 <= p <= old(self).queue().len() && final(self).queue() == old(self).queue().insert(
                    p,
                    QueuedInstruction {
                        timestamp: instruction.timestamp,
                        command: instruction.command,
                    },
                ) && (forall|k: int|
                    0 <= k < p ==> (#[trigger] old(self).queue()[k]).timestamp
                        <= instruction.timestamp) && (forall|k: int|
                    p <= k < old(self).queue().len() ==> (#[trigger] old(self).queue()[k]).timestamp
                        > instruction.timestamp),
            final(self).queue().to_multiset() == old(self).queue().to_multiset().insert(
                QueuedInstruction { timestamp: instruction.timestamp, command: instruction.command },
            ),
    {
        let ts = instruction.timestamp;
        let mut i: usize = self.instruction_queue.len();
        while i > 0 && self.instruction_queue[i - 1].timestamp > ts
            invariant
                i <= self.instruction_queue@.len(),
                self.instruction_queue@ == old(self).instruction_queue@,
                queue_sorted(self.instruction_queue@),
                forall|k: int|
                    i <= k < self.instruction_queue@.len() ==> self.instruction_queue@[k].timestamp
                        > ts,
            decreases i,
        {
            i = i - 1;
        }
        let ghost q = self.instruction_queue@;
        let ghost wanted = QueuedInstruction {
            timestamp: instruction.timestamp,
            command: instruction.command,
        };
        let entry = QueuedInstruction { timestamp: ts, command: instruction.command };
        assert(entry == wanted);
        self.instruction_queue.insert(i, entry);
        assert(self.instruction_queue@ == q.insert(i as int, wanted));
        proof {
            lemma_insert_to_multiset(q, i as int, wanted);
        }
        assert(0 <= i <= old(self).queue().len() && self.queue() == old(self).queue().insert(
            i as int,
            QueuedInstruction { timestamp: instruction.timestamp, command: instruction.command },
        ) && (forall|k: int|
            0 <= k < i ==> (#[trigger] old(self).queue()[k]).timestamp <= instruction.timestamp)
            && (forall|k: int|
            i <= k < old(self).queue().len() ==> (#[trigger] old(self).queue()[k]).timestamp
                > instruction.timestamp));
        assert forall|k: int| 0 <= k < i implies (#[trigger] q[k]).timestamp <= ts by {
            if i > 0 {
                assert(q[i - 1].timestamp <= ts);
            }
        }
        assert(queue_sorted(self.instruction_queue@)) by {
            assert forall|a: int, b: int| 0 <= a < b < self.instruction_queue@.len() implies
                self.instruction_queue@[a].timestamp <= self.instruction_queue@[b].timestamp by {
                if b < i {
                } else if b == i {
                    assert(q[a].timestamp <= ts);
                } else if a == i {
                    assert(q[b - 1].timestamp > ts);
                } else if a < i {
                    assert(q[a].timestamp <= q[b - 1].timestamp);
                } else {
                    assert(q[a - 1].timestamp <= q[b - 1].timestamp);
                }
            }
        }
    }

    /// Queues a batch of commands, one after the other.
    pub fn add_instructions(&mut self, instructions: Vec<TimedInstruction>)
        requires
            old(self).wf(),
        ensures
            final(self).wf(),
            final(self).color() == old(self).color(),
            final(self).leds() == old(self).leds(),
            final(self).queue().to_multiset() == old(self).queue().to_multiset().add(
                queued(instructions@).to_multiset(),
            ),
    {
        let mut rest = instructions;
        let ghost target = old(self).queue().to_multiset().add(queued(instructions@).to_multiset());
        while rest.len() > 0
            invariant
                self.wf(),
                self.color() == old(self).color(),
                self.leds() == old(self).leds(),
                self.queue().to_multiset().add(queued(rest@).to_multiset()) == target,
            decreases rest@.len(),
        {
            let ghost before = rest@;
            let ghost q_before = self.queue().to_multiset();
            let first = rest.remove(0);
            let ghost e = QueuedInstruction { timestamp: first.timestamp, command: first.command };
            proof {
                assert(queued(before) =~= queued(rest@).insert(0, e));
                lemma_insert_to_multiset(queued(rest@), 0, e);
            }
            self.add_instruction(first);
            assert(q_before.add(queued(rest@).to_multiset().insert(e)) =~= q_before.insert(e).add(
                queued(rest@).to_multiset(),
            ));
        }
        proof {
            broadcast use vstd::seq_lib::group_to_multiset_ensures;

            assert(queued(rest@) =~= Seq::<QueuedInstruction>::empty());
            assert(self.queue().to_multiset().add(queued(rest@).to_multiset())
                =~= self.queue().to_multiset());
        }
    }

    /// Number of queued commands.
    pub fn queue_len(&self) -> (r: usize)
        ensures
            r == self.queue().len(),
    {
        self.instruction_queue.len()
    }

    /// Drops every queued command.
    pub fn clear_queue(&mut self)
        ensures
            final(self).wf(),
            final(self).queue().len() == 0,
            final(self).color() == old(self).color(),
            final(self).leds() == old(self).leds(),
    {
        self.instruction_queue.clear();
    }

    fn apply_command(&mut self, command: &DeviceCommand)
        ensures
            final(self).current_color == apply_spec(old(self).current_color, *command),
            final(self).instruction_queue == old(self).instruction_queue,
            final(self).num_leds == old(self).num_leds,
    {
        match command {
            DeviceCommand::Light { enabled } => {
                if *enabled {
                    if self.current_color.r == 0 && self.current_color.g == 0
                        && self.current_color.b == 0 {
                        self.current_color = Rgb8::new(255, 255, 255);
                    }
                } else {
                    self.current_color = Rgb8::new(0, 0, 0);
                }
            },
            DeviceCommand::Rgb { r, g, b } => {
                self.current_color = Rgb8::new(*r, *g, *b);
            },
            DeviceCommand::Custom { .. } => {},
        }
    }

    /// The strip's data: the current colour on every LED.
    fn generate_led_data(&self) -> (r: Vec<Rgb8>)
        ensures
            r@ == Seq::new(self.num_leds as nat, |i: int| self.current_color),
    {
        let mut data: Vec<Rgb8> = Vec::new();
        let mut i: usize = 0;
        while i < self.num_leds
            invariant
                i <= self.num_leds,
                data@ == Seq::new(i as nat, |k: int| self.current_color),
            decreases self.num_leds - i,
        {
            data.push(self.current_color);
            i = i + 1;
            assert(data@ =~= Seq::new(i as nat, |k: int| self.current_color));
        }
        data
    }

    /// Applies, in time order, every queued command due at
    /// `current_show_time_ms` and takes them off the queue. Returns the
    /// strip's new data if any command was applied.
    #[verifier::rlimit(60)]
    #[verifier::spinoff_prover]
    pub fn execute_due_instructions(&mut self, current_show_time_ms: u64) -> (r: Option<Vec<Rgb8>>)
        requires
            old(self).wf(),
        ensures
            final(self).wf(),
            final(self).leds() == old(self).leds(),
            exists|k: int|
                due_count(old(self).queue(), current_show_time_ms, k) && final(self).queue()
                    == old(self).queue().skip(k) && final(self).color() == apply_all(
                    old(self).color(),
                    old(self).queue().take(k),
                ) && match r {
                    None => k == 0,
                    Some(data) => k > 0 && data@ == Seq::new(
                        old(self).leds() as nat,
                        |i: int| final(self).color(),
                    ),
                },
    {
        let ghost q0 = self.instruction_queue@;
        let ghost c0 = self.current_color;
        let total: usize = self.instruction_queue.len();
        let mut k: usize = 0;
        while self.instruction_queue.len() > 0 && self.instruction_queue[0].timestamp
            <= current_show_time_ms
            invariant
                k <= q0.len(),
                q0 == old(self).instruction_queue@,
                total == q0.len(),
                self.instruction_queue@.len() == q0.len() - k,
                queue_sorted(q0),
                self.instruction_queue@ == q0.skip(k as int),
                self.current_color == apply_all(c0, q0.take(k as int)),
                self.num_leds == old(self).num_leds,
                forall|i: int| 0 <= i < k ==> (#[trigger] q0[i]).timestamp <= current_show_time_ms,
            decreases self.instruction_queue@.len(),
        {
            let instr = self.instruction_queue.remove(0);
            assert(instr == q0[k as int]);
            self.apply_command(&instr.command);
            assert(q0.take(k + 1).drop_last() =~= q0.take(k as int));
            k = k + 1;
            assert(self.instruction_queue@ =~= q0.skip(k as int));
        }
        assert(queue_sorted(self.instruction_queue@)) by {
            assert forall|a: int, b: int| 0 <= a < b < self.instruction_queue@.len() implies
                self.instruction_queue@[a].timestamp <= self.instruction_queue@[b].timestamp by {
                assert(self.instruction_queue@[a] == q0[k + a]);
                assert(self.instruction_queue@[b] == q0[k + b]);
            }
        }
        assert(due_count(q0, current_show_time_ms, k as int)) by {
            if (k as int) < q0.len() {
                assert(q0[k as int] == self.instruction_queue@[0]);
            }
        }
        let r = if k > 0 {
            Some(self.generate_led_data())
        } else {
            None
        };
        assert(self.queue() == q0.skip(k as int));
        assert(self.color() == apply_all(c0, q0.take(k as int)));
        assert(due_count(old(self).queue(), current_show_time_ms, k as int) && self.queue() == old(
            self,
        ).queue().skip(k as int) && self.color() == apply_all(
            old(self).color(),
            old(self).queue().take(k as int),
        ) && match r {
            None => k == 0,
            Some(data) => k > 0 && data@ == Seq::new(old(self).leds() as nat, |i: int| self.color()),
        });
        r
    }

    /// The colour on the strip.
    pub fn current_color(&self) -> (c: Rgb8)
        ensures
            c == self.color(),
    {
        self.current_color
    }

    /// The time of the earliest queued command.
    pub fn next_instruction_time(&self) -> (r: Option<u64>)
        ensures
            self.queue().len() == 0 ==> r is None,
            self.queue().len() > 0 ==> r == Some(self.queue()[0].timestamp),
    {
        if self.instruction_queue.len() == 0 {
            None
        } else {
            Some(self.instruction_queue[0].timestamp)
        }
    }
}

/// How long the player sleeps before looking again: until the next command
/// (at least 1 ms when it is due already), at most 100 ms.
pub fn execution_loop_sleep_ms(next_time: Option<u64>, current_time: u64) -> (r: u64)
    ensures
        r == match next_time {
            None => 100,
            Some(t) => {
                let until = if t > current_time {
                    t - current_time
                } else {
                    1
                };
                if until < 100 {
                    until
                } else {
                    100
                }
            },
        },
{
    match next_time {
        None => 100,
        Some(t) => {
            let until = if t > current_time {
                t - current_time
            } else {
                1
            };
            if until < 100 {
                until
            } else {
                100
            }
        },
    }
}

/// The earliest queued command is never later than any other.
pub proof fn lemma_next_is_earliest(q: Seq<QueuedInstruction>)
    requires
        queue_sorted(q),
        q.len() > 0,
    ensures
        forall|i: int| 0 <= i < q.len() ==> q[0].timestamp <= (#[trigger] q[i]).timestamp,
{
}

} // verus!
