//! The decisions of a node's periodic tasks: what to do with each mesh
//! message, what to send on each transmit tick, how to sync the node's
//! status, and how a root turns a release into an update plan.

use vstd::prelude::*;
use crate::color::Rgb8;
use crate::instructions::{InstructionStatus, Instructions};
use crate::node::{MeshNode, challenge_index, distinct_challenges, status_color};
use crate::ota::{
    ChunkProgress, FirmwareChunk, OtaManager, OtaError, OtaMessage, OtaState, chunk_is_valid,
    in_order_step, run_fits,
};
use crate::version::{
    GitHubAsset, GitHubRelease, Version, VersionError, is_firmware_name, parse_version_spec,
};

verus! {

/// What a node runs on: its colour schedule and its update manager.
pub struct ApplicationState {
    pub instructions: Instructions,
    pub ota_manager: OtaManager,
}

/// A message received over the mesh, as read from its JSON text.
pub enum MeshCommand {
    /// `{"type":"challenge","id":..}`; `id` when it is an unsigned number.
    Challenge { id: Option<u64> },
    /// `{"type":"challenge_response","id":..}`.
    ChallengeResponse { id: Option<u64> },
    /// `{"type":"data","data":[..]}`, the unsigned items.
    Data { items: Vec<u64> },
    /// `{"type":"check_update"}`.
    CheckUpdate,
    /// An update announcement.
    OtaStart { version: String, total_chunks: u32, firmware_size: u32 },
    /// One update chunk.
    OtaChunk { chunk: FirmwareChunk },
    /// An update message whose fields did not parse.
    OtaMalformed,
    /// `{"type":"ota_reboot"}`.
    OtaReboot,
    /// `{"type":"ota_cancel","reason":..}`.
    OtaCancel { reason: Option<String> },
    /// A message with a type this node does not know.
    Unknown { msg_type: String },
    /// `{"r":..,"g":..,"b":..}` without a type.
    Color { r: u64, g: u64, b: u64 },
    /// Neither a type nor a full colour.
    Invalid,
    /// Not JSON at all.
    Unparsable,
}

/// A JSON value as the mesh's JSON parser (`serde_json`) reads a message.
/// A number keeps its value only when it is an unsigned integer that fits
/// in 64 bits (`None` for any other number); an object keeps its members in
/// the parser's order, each key once.
pub enum JsonValue {
    Null,
    Bool(bool),
    Number(Option<u64>),
    Text(String),
    Array(Vec<JsonValue>),
    Object(Vec<(String, JsonValue)>),
}

/// The value of the first member named `key` among `members`.
pub open spec fn member_in(members: Seq<(String, JsonValue)>, key: Seq<char>) -> Option<JsonValue>
    decreases members.len(),
{
    if members.len() == 0 {
        None
    } else if members[0].0@ == key {
        Some(members[0].1)
    } else {
        member_in(members.drop_first(), key)
    }
}

/// The member `key` of `v`; none when `v` is no object or has no such
/// member (as indexing a `serde_json::Value` gives `null`).
pub open spec fn member(v: JsonValue, key: Seq<char>) -> Option<JsonValue> {
    match v {
        JsonValue::Object(members) => member_in(members@, key),
        _ => None,
    }
}

/// A member's text, when it is a string.
pub open spec fn text_of(m: Option<JsonValue>) -> Option<String> {
    match m {
        Some(JsonValue::Text(s)) => Some(s),
        _ => None,
    }
}

/// A member's value, when it is an unsigned integer.
pub open spec fn number_of(m: Option<JsonValue>) -> Option<u64> {
    match m {
        Some(JsonValue::Number(Some(n))) => Some(n),
        _ => None,
    }
}

/// The unsigned integers among `xs`, in order.
pub open spec fn unsigned_items(xs: Seq<JsonValue>) -> Seq<u64>
    decreases xs.len(),
{
    if xs.len() == 0 {
        Seq::empty()
    } else {
        let p = unsigned_items(xs.drop_last());
        match xs.last() {
            JsonValue::Number(Some(n)) => p.push(n),
            _ => p,
        }
    }
}

/// The unsigned integers of a member that is an array; none otherwise.
pub open spec fn items_of(m: Option<JsonValue>) -> Seq<u64> {
    match m {
        Some(JsonValue::Array(xs)) => unsigned_items(xs@),
        _ => Seq::empty(),
    }
}

/// The command a received message calls for: `parsed` is its text read as
/// JSON (`None` when it is no JSON), `ota` the same text read as an update
/// message, where it could be. A `type` string picks the command, reading
/// `id`, `data` and `reason` as the type needs; without one, unsigned `r`,
/// `g` and `b` together are a colour; anything else is `Invalid`.
pub open spec fn classified(parsed: Option<JsonValue>, ota: Option<OtaMessage>, c: MeshCommand) -> bool {
    match parsed {
        None => c is Unparsable,
        Some(v) => match text_of(member(v, "type"@)) {
            Some(t) => if t@ == "challenge"@ {
                c == (MeshCommand::Challenge { id: number_of(member(v, "id"@)) })
            } else if t@ == "challenge_response"@ {
                c == (MeshCommand::ChallengeResponse { id: number_of(member(v, "id"@)) })
            } else if t@ == "data"@ {
                c matches MeshCommand::Data { items } && items@ == items_of(member(v, "data"@))
            } else if t@ == "check_update"@ {
                c is CheckUpdate
            } else if t@ == "ota_start"@ {
                match ota {
                    Some(OtaMessage::OtaStart { version, total_chunks, firmware_size }) => c == (
                    MeshCommand::OtaStart { version, total_chunks, firmware_size }),
                    _ => c is OtaMalformed,
                }
            } else if t@ == "ota_chunk"@ {
                match ota {
                    Some(OtaMessage::OtaChunk { chunk }) => c == (MeshCommand::OtaChunk { chunk }),
                    _ => c is OtaMalformed,
                }
            } else if t@ == "ota_reboot"@ {
                c is OtaReboot
            } else if t@ == "ota_cancel"@ {
                c == (MeshCommand::OtaCancel { reason: text_of(member(v, "reason"@)) })
            } else {
                c == (MeshCommand::Unknown { msg_type: t })
            },
            None => match (
                number_of(member(v, "r"@)),
                number_of(member(v, "g"@)),
                number_of(member(v, "b"@)),
            ) {
                (Some(r), Some(g), Some(b)) => c == (MeshCommand::Color { r, g, b }),
                _ => c is Invalid,
            },
        },
    }
}

proof fn lemma_type_words_distinct()
    ensures
        "challenge"@ != "challenge_response"@,
        "challenge"@ != "data"@,
        "challenge"@ != "check_update"@,
        "challenge"@ != "ota_start"@,
        "challenge"@ != "ota_chunk"@,
        "challenge"@ != "ota_reboot"@,
        "challenge"@ != "ota_cancel"@,
        "challenge_response"@ != "data"@,
        "challenge_response"@ != "check_update"@,
        "challenge_response"@ != "ota_start"@,
        "challenge_response"@ != "ota_chunk"@,
        "challenge_response"@ != "ota_reboot"@,
        "challenge_response"@ != "ota_cancel"@,
        "data"@ != "check_update"@,
        "data"@ != "ota_start"@,
        "data"@ != "ota_chunk"@,
        "data"@ != "ota_reboot"@,
        "data"@ != "ota_cancel"@,
        "check_update"@ != "ota_start"@,
        "check_update"@ != "ota_chunk"@,
        "check_update"@ != "ota_reboot"@,
        "check_update"@ != "ota_cancel"@,
        "ota_start"@ != "ota_chunk"@,
        "ota_start"@ != "ota_reboot"@,
        "ota_start"@ != "ota_cancel"@,
        "ota_chunk"@ != "ota_reboot"@,
        "ota_chunk"@ != "ota_cancel"@,
        "ota_reboot"@ != "ota_cancel"@,
{
    reveal_strlit("challenge");
    reveal_strlit("challenge_response");
    reveal_strlit("data");
    reveal_strlit("check_update");
    reveal_strlit("ota_start");
    reveal_strlit("ota_chunk");
    reveal_strlit("ota_reboot");
    reveal_strlit("ota_cancel");
    assert("challenge"@.len() == 9);
    assert("challenge_response"@.len() == 18);
    assert("check_update"@.len() == 12);
    assert("data"@.len() == 4);
    assert("ota_start"@.len() == 9);
    assert("ota_chunk"@.len() == 9);
    assert("ota_reboot"@.len() == 10);
    assert("ota_cancel"@.len() == 10);
    assert("challenge"@[0] != "ota_start"@[0]);
    assert("challenge"@[0] != "ota_chunk"@[0]);
    assert("ota_start"@[4] != "ota_chunk"@[4]);
    assert("ota_reboot"@[4] != "ota_cancel"@[4]);
}

/// Each kind of received message gives its own command, read from the
/// message: text that is no JSON is unparsable; a `type` of `ota_chunk` or
/// `ota_start` whose text reads as that update message carries exactly that
/// message's chunk or announcement (and is malformed otherwise); the other
/// types give their command with the members they name; a message without
/// a type is a colour when `r`, `g` and `b` are unsigned numbers.
pub proof fn lemma_message_kinds(parsed: Option<JsonValue>, ota: Option<OtaMessage>, c: MeshCommand)
    requires
        classified(parsed, ota, c),
    ensures
        parsed is None ==> c is Unparsable,
        parsed is Some ==> ({
            let v = parsed->0;
            let t = text_of(member(v, "type"@));
            &&& (t is Some && t->0@ == "ota_chunk"@ && ota is Some && ota->0 is OtaChunk ==> c == (
            MeshCommand::OtaChunk { chunk: ota->0->chunk }))
            &&& (t is Some && t->0@ == "ota_chunk"@ && !(ota is Some && ota->0 is OtaChunk) ==> c is OtaMalformed)
            &&& (t is Some && t->0@ == "ota_start"@ && ota is Some && ota->0 is OtaStart ==> c == (
            MeshCommand::OtaStart {
                version: ota->0->version,
                total_chunks: ota->0->total_chunks,
                firmware_size: ota->0->firmware_size,
            }))
            &&& (t is Some && t->0@ == "ota_start"@ && !(ota is Some && ota->0 is OtaStart) ==> c is OtaMalformed)
            &&& (t is Some && t->0@ == "ota_reboot"@ ==> c is OtaReboot)
            &&& (t is Some && t->0@ == "check_update"@ ==> c is CheckUpdate)
            &&& (t is Some && t->0@ == "ota_cancel"@ ==> c == (MeshCommand::OtaCancel {
                reason: text_of(member(v, "reason"@)),
            }))
            &&& (t is Some && t->0@ == "challenge"@ ==> c == (MeshCommand::Challenge {
                id: number_of(member(v, "id"@)),
            }))
            &&& (t is Some && t->0@ == "challenge_response"@ ==> c == (
            MeshCommand::ChallengeResponse { id: number_of(member(v, "id"@)) }))
            &&& (t is Some && t->0@ == "data"@ ==> c is Data && c->items@ == items_of(member(v, "data"@)))
            &&& (t is None && number_of(member(v, "r"@)) is Some && number_of(member(v, "g"@)) is Some
                && number_of(member(v, "b"@)) is Some ==> c == (MeshCommand::Color {
                r: number_of(member(v, "r"@))->0,
                g: number_of(member(v, "g"@))->0,
                b: number_of(member(v, "b"@))->0,
            }))
        }),
{
    lemma_type_words_distinct();
}

/// The member `key` of `v`, if `v` is an object that has one.
fn find_member<'a>(v: &'a JsonValue, key: &str) -> (r: Option<&'a JsonValue>)
    ensures
        match r {
            Some(x) => member(*v, key@) == Some(*x),
            None => member(*v, key@) is None,
        },
{
    match v {
        JsonValue::Object(members) => {
            let k = String::from_str(key);
            let mut i: usize = 0;
            assert(members@.skip(0) =~= members@);
            assert(member(*v, key@) == member_in(members@, key@));
            while i < members.len()
                invariant
                    i <= members@.len(),
                    member(*v, key@) == member_in(members@, key@),
                    k@ == key@,
                    member_in(members@, key@) == member_in(members@.skip(i as int), key@),
                decreases members@.len() - i,
            {
                assert(members@.skip(i as int).drop_first() =~= members@.skip(i + 1));
                assert(members@.skip(i as int)[0] == members@[i as int]);
                if members[i].0 == k {
                    assert(members@[i as int].0@ == key@);
                    assert(member_in(members@.skip(i as int), key@) == Some(members@[i as int].1));
                    let found = &members[i].1;
                    assert(*found == members@[i as int].1);
                    return Some(found);
                }
                i = i + 1;
            }
            assert(members@.skip(i as int) =~= Seq::<(String, JsonValue)>::empty());
            None
        },
        _ => None,
    }
}

/// The text of member `key` of `v`, when it is a string.
fn member_text(v: &JsonValue, key: &str) -> (r: Option<String>)
    ensures
        r == text_of(member(*v, key@)),
{
    match find_member(v, key) {
        Some(JsonValue::Text(s)) => Some(s.clone()),
        _ => None,
    }
}

/// The value of member `key` of `v`, when it is an unsigned integer.
fn member_number(v: &JsonValue, key: &str) -> (r: Option<u64>)
    ensures
        r == number_of(member(*v, key@)),
{
    match find_member(v, key) {
        Some(JsonValue::Number(Some(n))) => Some(*n),
        _ => None,
    }
}

/// The unsigned integers of member `key` of `v`, when it is an array.
fn member_items(v: &JsonValue, key: &str) -> (items: Vec<u64>)
    ensures
        items@ == items_of(member(*v, key@)),
{
    let mut items: Vec<u64> = Vec::new();
    match find_member(v, key) {
        Some(JsonValue::Array(xs)) => {
            let mut i: usize = 0;
            while i < xs.len()
                invariant
                    i <= xs@.len(),
                    items@ == unsigned_items(xs@.take(i as int)),
                decreases xs@.len() - i,
            {
                assert(xs@.take(i + 1).drop_last() =~= xs@.take(i as int));
                match &xs[i] {
                    JsonValue::Number(Some(n)) => items.push(*n),
                    _ => {},
                }
                i = i + 1;
            }
            assert(xs@.take(xs@.len() as int) =~= xs@);
        },
        _ => {},
    }
    items
}

/// The command that a received message calls for (see `classified`).
pub fn classify_message(parsed: &Option<JsonValue>, ota: Option<OtaMessage>) -> (c: MeshCommand)
    ensures
        classified(*parsed, ota, c),
{
    let v = match parsed {
        None => return MeshCommand::Unparsable,
        Some(v) => v,
    };
    match member_text(v, "type") {
        Some(t) => {
            if t == String::from_str("challenge") {
                MeshCommand::Challenge { id: member_number(v, "id") }
            } else if t == String::from_str("challenge_response") {
                MeshCommand::ChallengeResponse { id: member_number(v, "id") }
            } else if t == String::from_str("data") {
                MeshCommand::Data { items: member_items(v, "data") }
            } else if t == String::from_str("check_update") {
                MeshCommand::CheckUpdate
            } else if t == String::from_str("ota_start") {
                match ota {
                    Some(OtaMessage::OtaStart { version, total_chunks, firmware_size }) => {
                        MeshCommand::OtaStart { version, total_chunks, firmware_size }
                    },
                    _ => MeshCommand::OtaMalformed,
                }
            } else if t == String::from_str("ota_chunk") {
                match ota {
                    Some(OtaMessage::OtaChunk { chunk }) => MeshCommand::OtaChunk { chunk },
                    _ => MeshCommand::OtaMalformed,
                }
            } else if t == String::from_str("ota_reboot") {
                MeshCommand::OtaReboot
            } else if t == String::from_str("ota_cancel") {
                MeshCommand::OtaCancel { reason: member_text(v, "reason") }
            } else {
                MeshCommand::Unknown { msg_type: t }
            }
        },
        None => match (member_number(v, "r"), member_number(v, "g"), member_number(v, "b")) {
            (Some(r), Some(g), Some(b)) => MeshCommand::Color { r, g, b },
            _ => MeshCommand::Invalid,
        },
    }
}

/// What the receive task is to do after a message.
pub enum RxAction {
    /// Nothing.
    Nothing,
    /// Broadcast an answer to challenge `id`.
    SendChallengeResponse { id: u32 },
    /// Show this colour.
    SetColor { color: Rgb8 },
    /// Write these chunks, in order; finish the image when `complete`.
    WriteChunks { progress: ChunkProgress },
    /// Open the update partition for a reception that just began.
    BeginReception { total_chunks: u32, firmware_size: u32 },
    /// Reboot after this many milliseconds.
    Reboot { after_ms: u32 },
}

/// Handles one received message: answers challenges, counts answers to our
/// own, shows colours, and feeds update messages to the update manager.
pub fn mesh_rx_task(node: &mut MeshNode, app: &mut ApplicationState, command: MeshCommand) -> (r:
    RxAction)
    requires
        distinct_challenges(old(node).pending_challenges@),
        command is ChallengeResponse && command->ChallengeResponse_id is Some && challenge_index(
            old(node).pending_challenges@,
            (command->ChallengeResponse_id->0) as u32,
        ) is Some ==> old(node).total_responses_received < u32::MAX,
        old(app).ota_manager.wf(),
        command matches MeshCommand::OtaChunk { chunk } ==> (chunk_is_valid(chunk) && chunk.sequence
            == old(app).ota_manager@.next_expected && old(app).ota_manager@.update_active
            ==> run_fits(old(app).ota_manager@)),
    ensures
        distinct_challenges(final(node).pending_challenges@),
        final(app).ota_manager.wf(),
        final(app).instructions == old(app).instructions,
        match command {
            MeshCommand::Challenge { id: Some(id) } => r == (RxAction::SendChallengeResponse {
                id: id as u32,
            }) && *final(node) == *old(node) && final(app).ota_manager@ == old(app).ota_manager@,
            MeshCommand::ChallengeResponse { id: Some(id) } => (match challenge_index(
                old(node).pending_challenges@,
                id as u32,
            ) {
                Some(i) => final(node).pending_challenges@ == old(node).pending_challenges@.remove(i) && final(node).total_responses_received == old(node).total_responses_received + 1,
                None => final(node).pending_challenges@ == old(node).pending_challenges@
                    && final(node).total_responses_received == old(node).total_responses_received,
            }) && final(node).current_color == old(node).current_color
                && final(node).total_challenges_sent == old(node).total_challenges_sent
                && final(node).is_root == old(node).is_root
                && final(node).is_connected == old(node).is_connected
                && final(node).layer == old(node).layer && r is Nothing
                && final(app).ota_manager@ == old(app).ota_manager@,
            MeshCommand::Color { r: red, g: green, b: blue } => r == (RxAction::SetColor {
                color: Rgb8 { r: red as u8, g: green as u8, b: blue as u8 },
            }) && final(node).current_color == (Rgb8 {
                r: red as u8,
                g: green as u8,
                b: blue as u8,
            }) && final(node).pending_challenges@ == old(node).pending_challenges@
                && final(node).total_challenges_sent == old(node).total_challenges_sent
                && final(node).total_responses_received == old(node).total_responses_received
                && final(node).is_root == old(node).is_root
                && final(node).is_connected == old(node).is_connected
                && final(node).layer == old(node).layer
                && final(app).ota_manager@ == old(app).ota_manager@,
            MeshCommand::OtaStart { total_chunks, firmware_size, .. } => r == (
            RxAction::BeginReception { total_chunks, firmware_size }) && final(app).ota_manager@
                == (crate::ota::OtaManagerView {
                total_chunks,
                next_expected: 0,
                buffered: Map::empty(),
                update_active: true,
                state: crate::ota::OtaState::Receiving { received_chunks: 0, total_chunks },
                ..old(app).ota_manager@
            }) && *final(node) == *old(node),
            MeshCommand::OtaChunk { chunk } => {
                let o = old(app).ota_manager@;
                let f = final(app).ota_manager@;
                &&& *final(node) == *old(node)
                &&& if chunk_is_valid(chunk) && chunk.sequence == o.next_expected
                    && !o.update_active {
                    r is Nothing && f == o
                } else if !chunk_is_valid(chunk) {
                    r is WriteChunks && f == o && r->progress.to_write@.len() == 0
                        && !r->progress.complete
                } else if chunk.sequence != o.next_expected {
                    &&& r is WriteChunks
                    &&& f == (crate::ota::OtaManagerView {
                        buffered: o.buffered.insert(chunk.sequence, chunk),
                        ..o
                    })
                    &&& r->progress.to_write@.len() == 0
                    &&& !r->progress.complete
                } else {
                    r is WriteChunks && in_order_step(
                        o,
                        chunk,
                        f,
                        r->progress.to_write@,
                        r->progress.complete,
                    )
                }
            },
            MeshCommand::OtaReboot => r == (RxAction::Reboot { after_ms: 2000 }) && *final(node)
                == *old(node) && final(app).ota_manager@ == old(app).ota_manager@,
            _ => r is Nothing && *final(node) == *old(node) && final(app).ota_manager@ == old(app).ota_manager@,
        },
{
    match command {
        MeshCommand::Challenge { id: Some(id) } => RxAction::SendChallengeResponse { id: id as u32 },
        MeshCommand::ChallengeResponse { id: Some(id) } => {
            node.handle_challenge_response(id as u32);
            RxAction::Nothing
        },
        MeshCommand::Color { r, g, b } => {
            let color = node.set_color(r as u8, g as u8, b as u8);
            RxAction::SetColor { color }
        },
        MeshCommand::OtaStart { total_chunks, firmware_size, .. } => {
            app.ota_manager.start_ota_reception(total_chunks, firmware_size);
            RxAction::BeginReception { total_chunks, firmware_size }
        },
        MeshCommand::OtaChunk { chunk } => match app.ota_manager.handle_chunk(chunk) {
            Ok(progress) => RxAction::WriteChunks { progress },
            Err(_) => RxAction::Nothing,
        },
        MeshCommand::OtaReboot => RxAction::Reboot { after_ms: 2000 },
        _ => RxAction::Nothing,
    }
}

/// What the transmit task is to do on one tick.
#[derive(Debug, Clone, Copy, PartialEq, Eq, Structural)]
pub struct TxPlan {
    /// Root: ask the server for a newer release (once, after the first IP).
    pub check_updates: bool,
    /// Root: broadcast the next seconds of the colour schedule.
    pub send_colors: bool,
    /// Root: send a packet-loss challenge.
    pub send_challenge: bool,
    /// Root: report packet-loss figures.
    pub print_stats: bool,
    /// Child: broadcast a status line.
    pub send_status: bool,
}

/// The transmit task's counters.
pub struct TxScheduler {
    pub counter: u32,
    pub challenge_counter: u32,
    pub ota_check_done: bool,
}

/// A plan that does nothing.
pub open spec fn idle_plan() -> TxPlan {
    TxPlan {
        check_updates: false,
        send_colors: false,
        send_challenge: false,
        print_stats: false,
        send_status: false,
    }
}

/// Tries at sending the colour schedule on one tick.
pub const COLOR_SEND_ATTEMPTS: u32 = 3;

/// The schedule is topped up when less than this much of it is left.
pub const MIN_BUFFER_LEFT: i64 = 5000;

/// Whether the root should generate more of the colour schedule.
pub fn needs_more_instructions(buffer_left: i64) -> (r: bool)
    ensures
        r == (buffer_left < MIN_BUFFER_LEFT),
{
    buffer_left < MIN_BUFFER_LEFT
}

impl TxScheduler {
    /// Counters at zero, no update check done yet.
    pub fn new() -> (s: Self)
        ensures
            s.counter == 0,
            s.challenge_counter == 0,
            !s.ota_check_done,
    {
        TxScheduler { counter: 0, challenge_counter: 0, ota_check_done: false }
    }

    /// One tick of the transmit task. Nothing happens while the mesh is down.
    /// The root checks for updates once it first has an address, sends the
    /// schedule every tick, a challenge every 5th tick and figures every 30th;
    /// a child sends its status every 10th tick.
    pub fn mesh_tx_task(&mut self, mesh_active: bool, is_root: bool, has_ip: bool) -> (plan:
        TxPlan)
        ensures
            !mesh_active ==> plan == idle_plan() && final(self).counter == old(self).counter
                && final(self).challenge_counter == old(self).challenge_counter
                && final(self).ota_check_done == old(self).ota_check_done,
            mesh_active ==> final(self).counter == (old(self).counter + 1) % 0x1_0000_0000,
            mesh_active && is_root ==> plan == (TxPlan {
                check_updates: !old(self).ota_check_done && has_ip,
                send_colors: true,
                send_challenge: old(self).counter % 5 == 0,
                print_stats: old(self).counter % 30 == 0 && old(self).counter > 0,
                send_status: false,
            }) && final(self).ota_check_done == (old(self).ota_check_done || has_ip)
                && final(self).challenge_counter == if old(self).counter % 5 == 0 {
                (old(self).challenge_counter + 1) % 0x1_0000_0000
            } else {
                old(self).challenge_counter as int
            },
            mesh_active && !is_root ==> plan == (TxPlan {
                send_status: old(self).counter % 10 == 0,
                ..idle_plan()
            }) && final(self).ota_check_done == old(self).ota_check_done
                && final(self).challenge_counter == old(self).challenge_counter,
    {
        if !mesh_active {
            return TxPlan {
                check_updates: false,
                send_colors: false,
                send_challenge: false,
                print_stats: false,
                send_status: false,
            };
        }
        let plan = if is_root {
            let check_updates = !self.ota_check_done && has_ip;
            if check_updates {
                self.ota_check_done = true;
            }
            let send_challenge = self.counter % 5 == 0;
            if send_challenge {
                self.challenge_counter = self.challenge_counter.wrapping_add(1);
            }
            TxPlan {
                check_updates,
                send_colors: true,
                send_challenge,
                print_stats: self.counter % 30 == 0 && self.counter > 0,
                send_status: false,
            }
        } else {
            TxPlan {
                check_updates: false,
                send_colors: false,
                send_challenge: false,
                print_stats: false,
                send_status: self.counter % 10 == 0,
            }
        };
        self.counter = self.counter.wrapping_add(1);
        plan
    }
}

/// Why a release could not be turned into an update.
#[derive(Debug, Clone, Copy, PartialEq, Eq, Structural)]
pub enum UpdatePlanError {
    /// The release holds no `.bin` file.
    NoFirmwareAsset,
    /// The release's version does not parse.
    InvalidVersion { error: VersionError },
}

/// What the root needs to start an update.
pub struct UpdatePlan {
    pub url: String,
    pub version: Version,
    pub firmware_size: u32,
}

/// Turns an offered release into an update: its first `.bin` asset, its
/// parsed version and the asset's size (taken modulo 2^32).
pub fn plan_update(release: &GitHubRelease) -> (r: Result<UpdatePlan, UpdatePlanError>)
    ensures
        match r {
            Ok(p) => exists|i: int|
                0 <= i < release.assets@.len() && is_firmware_name(
                    (#[trigger] release.assets@[i]).name@,
                ) && (forall|j: int|
                    0 <= j < i ==> !is_firmware_name(#[trigger] release.assets@[j].name@))
                    && p.url@ == release.assets@[i].download_url@ && p.firmware_size
                    == release.assets@[i].size as u32 && parse_version_spec(release.version@)
                    == Ok::<Version, VersionError>(p.version),
            Err(UpdatePlanError::NoFirmwareAsset) => forall|i: int|
                0 <= i < release.assets@.len() ==> !is_firmware_name(
                    #[trigger] release.assets@[i].name@,
                ),
            Err(UpdatePlanError::InvalidVersion { error }) => parse_version_spec(release.version@)
                == Err::<Version, VersionError>(error) && exists|i: int|
                0 <= i < release.assets@.len() && is_firmware_name(
                    #[trigger] release.assets@[i].name@,
                ),
        },
{
    let asset = match release.get_firmware_asset() {
        Some(a) => a,
        None => return Err(UpdatePlanError::NoFirmwareAsset),
    };
    let version = match release.version() {
        Ok(v) => v,
        Err(e) => return Err(UpdatePlanError::InvalidVersion { error: e }),
    };
    Ok(UpdatePlan { url: asset.download_url.clone(), version, firmware_size: asset.size as u32 })
}

/// Syncs the node's flags with the mesh stack's answers; a child that is
/// not connected shows its status colour, which is returned.
pub fn monitor_task(node: &mut MeshNode, is_root: bool, is_active: bool, layer: i32, has_ip: bool) -> (r:
    Option<Rgb8>)
    ensures
        final(node).is_root == is_root,
        final(node).is_connected == is_active,
        final(node).layer == layer,
        final(node).current_color == old(node).current_color,
        final(node).pending_challenges == old(node).pending_challenges,
        final(node).total_challenges_sent == old(node).total_challenges_sent,
        final(node).total_responses_received == old(node).total_responses_received,
        r == if !is_root && !is_active {
            Some(status_color(is_active, is_root))
        } else {
            None::<Rgb8>
        },
{
    node.is_root = is_root;
    node.is_connected = is_active;
    node.layer = layer;
    if !is_root && !is_active {
        Some(node.update_status_color())
    } else {
        None
    }
}

/// One step of the playback task at mesh time `now`: a due colour is shown
/// on the node (and the next step follows at once); otherwise the time to
/// sleep is returned.
pub fn instruction_execution_step(node: &mut MeshNode, app: &mut ApplicationState, now: i64) -> (r:
    Option<i64>)
    requires
        i64::MIN + 50 <= now <= i64::MAX - 50,
        old(app).instructions.instructions@.len() > 0 ==> i64::MIN <= old(
            app,
        ).instructions.instructions@[0].timestamp - now <= i64::MAX,
    ensures
        final(node).pending_challenges@ == old(node).pending_challenges@,
        final(node).total_challenges_sent == old(node).total_challenges_sent,
        final(node).total_responses_received == old(node).total_responses_received,
        final(node).is_root == old(node).is_root,
        final(node).is_connected == old(node).is_connected,
        final(node).layer == old(node).layer,
        final(app).ota_manager == old(app).ota_manager,
        ({
            let s = old(app).instructions.instructions@;
            if s.len() == 0 {
                r == Some(100i64) && final(app).instructions.instructions@ == s
                    && final(node).current_color == old(node).current_color
            } else if s[0].timestamp < now - 50 {
                r == Some(100i64) && final(app).instructions.instructions@ == s.drop_first()
                    && final(node).current_color == old(node).current_color
            } else if s[0].timestamp > now + 50 {
                r == Some((s[0].timestamp - now - 10) as i64) && final(app).instructions.instructions@
                    == s && final(node).current_color == old(node).current_color
            } else {
                r is None && final(app).instructions.instructions@ == s.drop_first()
                    && final(node).current_color == s[0].color
            }
        }),
{
    match app.instructions.get_next_instruction(now) {
        InstructionStatus::Sleep(duration) => Some(duration),
        InstructionStatus::SetColor(color) => {
            node.set_color(color.r, color.g, color.b);
            None
        },
    }
}

/// What the distribution task does on its one-second tick.
#[derive(Debug, Clone, Copy, PartialEq, Eq, Structural)]
pub enum DistributionAction {
    /// Nothing to hand out.
    Wait,
    /// Send chunks `0..total_chunks` to the mesh, then check whether every
    /// node is ready and, if so, order the reboot.
    SendChunks { total_chunks: u32 },
}

/// The distribution task's decision: only a root that is handing an update
/// out sends its chunks.
pub fn distribution_tick(is_root: bool, state: OtaState) -> (r: DistributionAction)
    ensures
        r == if is_root && state is Distributing {
            DistributionAction::SendChunks { total_chunks: state->Distributing_total_chunks }
        } else {
            DistributionAction::Wait
        },
{
    if !is_root {
        return DistributionAction::Wait;
    }
    match state {
        OtaState::Distributing { total_chunks, .. } => DistributionAction::SendChunks { total_chunks },
        _ => DistributionAction::Wait,
    }
}

} // verus!
