//! A light device's side of the show server: the request addresses, the
//! answers it accepts, its retry and polling policy, and how fetched
//! instructions enter the LED queue.

use vstd::prelude::*;
use vstd::string::StringSliceAdditionalSpecFns;
use crate::color::Rgb8;
use crate::led_executor::{LedExecutor, QueuedInstruction, lemma_insert_to_multiset};
use crate::show::{DeviceCommand, TimedInstruction};
use crate::text::{decimal, u64_to_decimal};

verus! {

/// A timed colour for a light device.
#[derive(Debug, Clone, Copy)]
pub struct Esp32Instruction {
    /// Milliseconds from the show's start.
    pub timestamp: u64,
    pub r: Option<u8>,
    pub g: Option<u8>,
    pub b: Option<u8>,
    /// `Some(true)` switches the lights off.
    pub off: Option<bool>,
}

/// The colour an instruction asks for: none when it switches off, its
/// colour when all three channels are given, else none.
pub open spec fn instruction_color(i: Esp32Instruction) -> Option<Rgb8> {
    if i.off == Some(true) {
        None
    } else if i.r is Some && i.g is Some && i.b is Some {
        Some(Rgb8 { r: i.r->0, g: i.g->0, b: i.b->0 })
    } else {
        None
    }
}

impl Esp32Instruction {
    /// The colour this instruction asks for, if any.
    pub fn to_color(&self) -> (c: Option<Rgb8>)
        ensures
            c == instruction_color(*self),
    {
        if self.off == Some(true) {
            return None;
        }
        match (self.r, self.g, self.b) {
            (Some(r), Some(g), Some(b)) => Some(Rgb8::new(r, g, b)),
            _ => None,
        }
    }
}

/// The server's answer to a light device.
pub struct Esp32Response {
    pub device_id: String,
    /// When the show started (Unix ms).
    pub show_start_time: u64,
    pub instructions: Vec<Esp32Instruction>,
}

/// Why a fetch failed.
#[derive(Debug, Clone, Copy, PartialEq, Eq, Structural)]
pub enum FetchError {
    UrlTooLong,
    RequestFailed,
    InvalidStatus(u16),
    ReadFailed,
    ParseFailed,
    NotImplemented,
}

/// The show server's host.
pub const SERVER_HOST: &'static str = "rusty-halloween-show-server.rustwood.org";

/// The show server's port.
pub const SERVER_PORT: u16 = 443;

/// Longest request address, in bytes.
pub const MAX_URL_BYTES: usize = 256;

/// Tries per fetch.
pub const HTTP_RETRY_COUNT: u32 = 3;

/// Wait between tries, in milliseconds.
pub const HTTP_RETRY_DELAY_MS: u64 = 1000;

/// A light device's connection settings.
pub struct ShowClient<'a> {
    pub device_id: &'a str,
    pub server_host: &'a str,
    pub server_port: u16,
}

/// The address of the test pattern for `device` on `host`.
pub open spec fn test_url(host: Seq<char>, device: Seq<char>) -> Seq<char> {
    "https://"@ + host + "/device/"@ + device + "/test"@
}

/// The address of the instructions from `from` ms for `device` on `host`.
pub open spec fn instructions_url(host: Seq<char>, device: Seq<char>, from: u64) -> Seq<char> {
    "https://"@ + host + "/device/"@ + device + "/instructions?from="@ + decimal(from as nat)
}

/// Whether an address fits the request buffer: its UTF-8 length, as the
/// machine's `usize` holds it, is at most `MAX_URL_BYTES`.
pub open spec fn url_fits(url: Seq<char>) -> bool {
    (vstd::utf8::encode_utf8(url).len() as usize) <= MAX_URL_BYTES
}

impl<'a> ShowClient<'a> {
    /// A client for the show server.
    pub fn new_with_init(device_id: &'a str) -> (c: Self)
        ensures
            c.device_id == device_id,
            c.server_host == SERVER_HOST,
            c.server_port == SERVER_PORT,
    {
        ShowClient { device_id, server_host: SERVER_HOST, server_port: SERVER_PORT }
    }

    /// A client for another server.
    pub fn with_server(device_id: &'a str, host: &'a str, port: u16) -> (c: Self)
        ensures
            c.device_id == device_id,
            c.server_host == host,
            c.server_port == port,
    {
        ShowClient { device_id, server_host: host, server_port: port }
    }

    /// The address of this device's test pattern, if it fits.
    pub fn fetch_test_instructions(&self) -> (r: Result<String, FetchError>)
        ensures
            match r {
                Ok(u) => u@ == test_url(self.server_host@, self.device_id@) && url_fits(u@),
                Err(e) => e == FetchError::UrlTooLong && !url_fits(
                    test_url(self.server_host@, self.device_id@),
                ),
            },
    {
        let mut url = String::from_str("https://");
        url.append(self.server_host);
        url.append("/device/");
        url.append(self.device_id);
        url.append("/test");
        if url.as_str().len() > MAX_URL_BYTES {
            return Err(FetchError::UrlTooLong);
        }
        Ok(url)
    }

    /// The address of this device's instructions from `from_ms`, if it fits.
    pub fn fetch_instructions_inner(&self, from_ms: u64) -> (r: Result<String, FetchError>)
        ensures
            match r {
                Ok(u) => u@ == instructions_url(self.server_host@, self.device_id@, from_ms)
                    && url_fits(u@),
                Err(e) => e == FetchError::UrlTooLong && !url_fits(
                    instructions_url(self.server_host@, self.device_id@, from_ms),
                ),
            },
    {
        let mut url = String::from_str("https://");
        url.append(self.server_host);
        url.append("/device/");
        url.append(self.device_id);
        url.append("/instructions?from=");
        let digits = u64_to_decimal(from_ms);
        url.append(digits.as_str());
        if url.as_str().len() > MAX_URL_BYTES {
            return Err(FetchError::UrlTooLong);
        }
        Ok(url)
    }
}

/// Accepts a server answer: status 200 with a readable body that parses.
pub fn check_response(status: u16, body_read: bool, parsed: Option<Esp32Response>) -> (r: Result<
    Esp32Response,
    FetchError,
>)
    ensures
        status != 200 ==> r == Err::<Esp32Response, FetchError>(FetchError::InvalidStatus(status)),
        status == 200 && !body_read ==> r == Err::<Esp32Response, FetchError>(
            FetchError::ReadFailed,
        ),
        status == 200 && body_read && parsed is None ==> r == Err::<Esp32Response, FetchError>(
            FetchError::ParseFailed,
        ),
        status == 200 && body_read && parsed is Some ==> r == Ok::<Esp32Response, FetchError>(
            parsed->0,
        ),
{
    if status != 200 {
        return Err(FetchError::InvalidStatus(status));
    }
    if !body_read {
        return Err(FetchError::ReadFailed);
    }
    match parsed {
        Some(p) => Ok(p),
        None => Err(FetchError::ParseFailed),
    }
}

/// What to do after one try of a fetch.
pub enum FetchStep {
    /// The fetch is over with this result.
    Done(Result<Esp32Response, FetchError>),
    /// Wait this many milliseconds and try again.
    RetryAfter(u64),
}

/// The retry policy: a success ends the fetch; a failure is tried again
/// after a second, up to three tries in all.
pub fn fetch_instructions(attempt: u32, result: Result<Esp32Response, FetchError>) -> (step:
    FetchStep)
    ensures
        result is Ok ==> step == FetchStep::Done(result),
        result is Err && attempt < HTTP_RETRY_COUNT ==> step == FetchStep::RetryAfter(
            HTTP_RETRY_DELAY_MS,
        ),
        result is Err && attempt >= HTTP_RETRY_COUNT ==> step == FetchStep::Done(result),
{
    match result {
        Ok(r) => FetchStep::Done(Ok(r)),
        Err(e) => if attempt < HTTP_RETRY_COUNT {
            FetchStep::RetryAfter(HTTP_RETRY_DELAY_MS)
        } else {
            FetchStep::Done(Err(e))
        },
    }
}

/// One round of polling: an answer with instructions moves the next
/// request to its last instruction's time and is handed on; anything else
/// leaves the position and hands on nothing.
pub fn poll_loop(last_fetch_ms: u64, result: Result<Esp32Response, FetchError>) -> (r: (
    u64,
    Option<Esp32Response>,
))
    ensures
        match result {
            Ok(resp) => if resp.instructions@.len() > 0 {
                r.0 == resp.instructions@.last().timestamp && r.1 == Some(resp)
            } else {
                r.0 == last_fetch_ms && r.1 is None
            },
            Err(_) => r.0 == last_fetch_ms && r.1 is None,
        },
{
    match result {
        Ok(resp) => {
            let n = resp.instructions.len();
            if n > 0 {
                let last = resp.instructions[n - 1].timestamp;
                (last, Some(resp))
            } else {
                (last_fetch_ms, None)
            }
        },
        Err(_) => (last_fetch_ms, None),
    }
}

/// The show start time to use after an answer reporting `reported`: a
/// reported time other than 0 replaces the current one.
pub fn polling_task(current: u64, reported: u64) -> (r: u64)
    ensures
        r == if reported > 0 {
            reported
        } else {
            current
        },
{
    if reported > 0 {
        reported
    } else {
        current
    }
}

/// Whether a fetched instruction is queued at show time `now`: it lies
/// after `now` and switches the lights off or asks for a colour.
pub open spec fn to_queue(now: u64) -> spec_fn(Esp32Instruction) -> bool {
    |i: Esp32Instruction| i.timestamp > now && (i.off == Some(true) || instruction_color(i) is Some)
}

/// The command queued for an instruction: lights off, or its colour.
pub open spec fn as_queued(i: Esp32Instruction) -> QueuedInstruction {
    if i.off == Some(true) {
        QueuedInstruction { timestamp: i.timestamp, command: DeviceCommand::Light { enabled: false } }
    } else {
        let c = instruction_color(i)->0;
        QueuedInstruction {
            timestamp: i.timestamp,
            command: DeviceCommand::Rgb { r: c.r, g: c.g, b: c.b },
        }
    }
}

/// The commands queued for `xs` at show time `now`, in the order given.
pub open spec fn queued_from(xs: Seq<Esp32Instruction>, now: u64) -> Seq<QueuedInstruction> {
    xs.filter(to_queue(now)).map_values(|i: Esp32Instruction| as_queued(i))
}

/// What a fetched instruction asks the strip to do, read from its fields:
/// every instruction after show time `now` that switches off is queued as
/// lights-off at its time, and every one that asks for a colour (all three
/// channels given, not switching off) is queued as exactly that colour,
/// channel by channel, at its time; and nothing else is queued.
pub proof fn lemma_fetched_instructions_queued(xs: Seq<Esp32Instruction>, now: u64)
    ensures
        forall|i: int|
            0 <= i < xs.len() && xs[i].timestamp > now && xs[i].off == Some(true) ==> queued_from(
                xs,
                now,
            ).contains(
                QueuedInstruction {
                    timestamp: xs[i].timestamp,
                    command: DeviceCommand::Light { enabled: false },
                },
            ),
        forall|i: int|
            0 <= i < xs.len() && xs[i].timestamp > now && xs[i].off != Some(true) && xs[i].r is Some
                && xs[i].g is Some && xs[i].b is Some ==> queued_from(xs, now).contains(
                QueuedInstruction {
                    timestamp: xs[i].timestamp,
                    command: DeviceCommand::Rgb { r: xs[i].r->0, g: xs[i].g->0, b: xs[i].b->0 },
                },
            ),
        forall|q: QueuedInstruction|
            queued_from(xs, now).contains(q) ==> exists|i: int|
                0 <= i < xs.len() && xs[i].timestamp > now && q.timestamp == xs[i].timestamp && (
                (xs[i].off == Some(true) && q.command == DeviceCommand::Light { enabled: false })
                    || (xs[i].off != Some(true) && xs[i].r is Some && xs[i].g is Some
                    && xs[i].b is Some && q.command == DeviceCommand::Rgb {
                    r: xs[i].r->0,
                    g: xs[i].g->0,
                    b: xs[i].b->0,
                })),
{
    let p = to_queue(now);
    let f = xs.filter(p);
    let m = queued_from(xs, now);
    assert forall|i: int|
        0 <= i < xs.len() && xs[i].timestamp > now && (xs[i].off == Some(true) || (xs[i].r is Some
            && xs[i].g is Some && xs[i].b is Some)) implies m.contains(as_queued(xs[i])) by {
        assert(p(xs[i]));
        xs.lemma_filter_contains(p, i);
        let k = choose|k: int| 0 <= k < f.len() && f[k] == xs[i];
        assert(m[k] == as_queued(f[k]));
    }
    assert forall|q: QueuedInstruction| m.contains(q) implies exists|i: int|
        0 <= i < xs.len() && xs[i].timestamp > now && q.timestamp == xs[i].timestamp && (
        (xs[i].off == Some(true) && q.command == DeviceCommand::Light { enabled: false })
            || (xs[i].off != Some(true) && xs[i].r is Some && xs[i].g is Some && xs[i].b is Some
            && q.command == DeviceCommand::Rgb { r: xs[i].r->0, g: xs[i].g->0, b: xs[i].b->0 })) by {
        let k = choose|k: int| 0 <= k < m.len() && m[k] == q;
        xs.lemma_filter_pred(p, k);
        xs.lemma_filter_contains_rev(p, f[k]);
        let i = choose|i: int| 0 <= i < xs.len() && xs[i] == f[k];
        assert(q == as_queued(xs[i]));
    }
}

/// Queues the fetched instructions that lie after the current show time:
/// one that switches off as a lights-off command, one that asks for a colour
/// as that colour; returns how many were queued.
pub fn instruction_executor_task(
    executor: &mut LedExecutor,
    instructions: Vec<Esp32Instruction>,
    current_show_time: u64,
) -> (count: usize)
    requires
        old(executor).wf(),
    ensures
        final(executor).wf(),
        final(executor).color() == old(executor).color(),
        final(executor).leds() == old(executor).leds(),
        count == queued_from(instructions@, current_show_time).len(),
        final(executor).queue().to_multiset() == old(executor).queue().to_multiset().add(
            queued_from(instructions@, current_show_time).to_multiset(),
        ),
{
    broadcast use vstd::seq_lib::group_to_multiset_ensures;

    let mut count: usize = 0;
    let mut i: usize = 0;
    let ghost pred = to_queue(current_show_time);
    while i < instructions.len()
        invariant
            i <= instructions@.len(),
            executor.wf(),
            executor.color() == old(executor).color(),
            executor.leds() == old(executor).leds(),
            pred == to_queue(current_show_time),
            count == instructions@.take(i as int).filter(pred).len(),
            executor.queue().to_multiset() == old(executor).queue().to_multiset().add(
                queued_from(instructions@.take(i as int), current_show_time).to_multiset(),
            ),
        decreases instructions@.len() - i,
    {
        let ins = instructions[i];
        let ghost t = instructions@.take(i + 1);
        assert(t.drop_last() =~= instructions@.take(i as int));
        assert(t.last() == ins);
        assert(t.filter(pred) == if pred(ins) {
            t.drop_last().filter(pred).push(ins)
        } else {
            t.drop_last().filter(pred)
        }) by {
            reveal(Seq::filter);
        }
        proof {
            instructions@.take(i as int).lemma_filter_len(pred);
        }
        let ghost before = executor.queue();
        let command = if ins.timestamp <= current_show_time {
            None
        } else if ins.off == Some(true) {
            Some(DeviceCommand::Light { enabled: false })
        } else {
            match ins.to_color() {
                Some(c) => Some(DeviceCommand::Rgb { r: c.r, g: c.g, b: c.b }),
                None => None,
            }
        };
        match command {
            Some(command) => {
                executor.add_instruction(TimedInstruction { timestamp: ins.timestamp, command });
                proof {
                    let e = as_queued(ins);
                    let p = choose|p: int|
                        0 <= p <= before.len() && executor.queue() == before.insert(p, e);
                    lemma_insert_to_multiset(before, p, e);
                    let q_old = queued_from(instructions@.take(i as int), current_show_time);
                    let old_m = old(executor).queue().to_multiset();
                    assert(queued_from(t, current_show_time) =~= q_old.push(e));
                    vstd::seq_lib::to_multiset_build(q_old, e);
                    assert(queued_from(t, current_show_time).to_multiset()
                        =~= q_old.to_multiset().insert(e));
                    assert(old_m.add(q_old.to_multiset().insert(e)) =~= old_m.add(
                        q_old.to_multiset(),
                    ).insert(e));
                }
                count = count + 1;
            },
            None => {
                assert(queued_from(t, current_show_time) =~= queued_from(
                    instructions@.take(i as int),
                    current_show_time,
                ));
            },
        }
        i = i + 1;
    }
    assert(instructions@.take(i as int) =~= instructions@);
    count
}
} // verus!
