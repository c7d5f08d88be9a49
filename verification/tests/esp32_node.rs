use rusty_halloween::color::{hsv_to_rgb, Rgb8};
use rusty_halloween::instructions::{random_instruction, Instruction, InstructionStatus, Instructions};
use rusty_halloween::node::{MeshNode, PacketLossStats};
use rusty_halloween::ntp::{NtpClient, NtpError, TimeSync};
use rusty_halloween::ota::{fragment_firmware, FirmwareChunk, OtaManager, OtaMessage, OtaState};
use rusty_halloween::tasks::{
    classify_message, distribution_tick, mesh_rx_task, ApplicationState, DistributionAction, JsonValue,
    MeshCommand, RxAction,
};
use rusty_halloween::utils::{get_disconnect_reason_string, get_embedded_env_value};
use rusty_halloween::wifi::{connect_with_retry, wait_for_ip, RetryStep, WifiError};

#[test]
fn firmware_chunks_carry_iso_hdlc_checksum() {
    let chunk = FirmwareChunk::new(0, 1, "1.0.0".to_string(), b"123456789".to_vec());
    assert_eq!(chunk.crc32, 0xCBF4_3926);
    assert!(chunk.validate());
    let mut broken = FirmwareChunk::new(0, 1, "1.0.0".to_string(), b"123456789".to_vec());
    broken.data[0] = b'0';
    assert!(!broken.validate());
}

#[test]
fn fragments_cover_the_image() {
    let image: Vec<u8> = (0..1100u32).map(|i| (i % 256) as u8).collect();
    let chunks = fragment_firmware(&image, &"2.0.0".to_string());
    assert_eq!(chunks.len(), 3);
    assert_eq!(chunks[0].data.len(), 512);
    assert_eq!(chunks[2].data.len(), 76);
    let joined: Vec<u8> = chunks.iter().flat_map(|c| c.data.clone()).collect();
    assert_eq!(joined, image);
    assert!(chunks.iter().all(|c| c.total_chunks == 3 && c.validate()));
    assert!(fragment_firmware(&Vec::new(), &"x".to_string()).is_empty());
}

#[test]
fn chunks_are_written_in_sequence() {
    let image: Vec<u8> = (0..1100u32).map(|i| (i % 7) as u8).collect();
    let chunks = fragment_firmware(&image, &"2.0.0".to_string());
    let mut m = OtaManager::new();
    m.start_ota_reception(3, 1100);
    let mut it = chunks.into_iter();
    let c0 = it.next().unwrap();
    let c1 = it.next().unwrap();
    let c2 = it.next().unwrap();
    let p = m.handle_chunk(c1).ok().unwrap();
    assert!(p.to_write.is_empty());
    let p = m.handle_chunk(c0).ok().unwrap();
    let order: Vec<u32> = p.to_write.iter().map(|c| c.sequence).collect();
    assert_eq!(order, vec![0, 1]);
    assert!(!p.complete);
    let p = m.handle_chunk(c2).ok().unwrap();
    assert_eq!(p.to_write.len(), 1);
    assert!(p.complete);
    assert_eq!(m.get_state(), OtaState::ReadyToReboot);
}

#[test]
fn distribution_only_on_a_distributing_root() {
    let sending = OtaState::Distributing { total_chunks: 4, nodes_complete: 0, total_nodes: 2 };
    assert_eq!(distribution_tick(true, sending), DistributionAction::SendChunks { total_chunks: 4 });
    assert_eq!(distribution_tick(false, sending), DistributionAction::Wait);
    assert_eq!(distribution_tick(true, OtaState::Idle), DistributionAction::Wait);
}

fn instr(timestamp: i64, r: u8) -> Instruction {
    Instruction { timestamp, color: Rgb8 { r, g: 0, b: 0 } }
}

#[test]
fn schedule_merges_without_duplicates() {
    let mut s = Instructions::new();
    s.add_instruction(instr(300, 1));
    s.add_instruction(instr(100, 2));
    s.combine_instructions(vec![instr(100, 2), instr(200, 3)]);
    let stamps: Vec<i64> = s.instructions.iter().map(|i| i.timestamp).collect();
    assert_eq!(stamps, vec![100, 200, 300]);
    s.combine_instructions(vec![instr(100, 2), instr(200, 3)]);
    assert_eq!(s.instructions.len(), 3);
    s.combine_instructions(vec![instr(300, 9)]);
    assert_eq!(s.instructions.len(), 3);
    assert_eq!(s.instructions[2].color, Rgb8 { r: 1, g: 0, b: 0 });
    let due = s.get_next_seconds_instructions(150, 100);
    assert_eq!(due.len(), 2);
    assert_eq!(s.get_buffer_left(40), 60);
    assert_eq!(s.get_next_instruction(0), InstructionStatus::Sleep(90));
    assert_eq!(s.get_next_instruction(120), InstructionStatus::SetColor(Rgb8 { r: 2, g: 0, b: 0 }));
    assert_eq!(s.get_next_instruction(260), InstructionStatus::Sleep(100));
    assert_eq!(s.instructions.len(), 1);
}

#[test]
fn random_instructions_step() {
    let (i, next) = random_instruction(1000, 0x1FF, 2, 259, 1999);
    assert_eq!(i, instr(1000, 0xFF).with_color(Rgb8 { r: 0xFF, g: 2, b: 3 }));
    assert_eq!(next, 1000 + 999 + 200);
}

trait WithColor {
    fn with_color(self, c: Rgb8) -> Self;
}

impl WithColor for Instruction {
    fn with_color(mut self, c: Rgb8) -> Self {
        self.color = c;
        self
    }
}

#[test]
fn challenges_count_once() {
    let mut node = MeshNode::new();
    assert!(node.send_challenge(7, true, 1_000));
    assert!(!node.send_challenge(8, false, 1_000));
    node.handle_challenge_response(7);
    node.handle_challenge_response(7);
    node.handle_challenge_response(9);
    assert!(node.send_challenge(10, true, 2_000));
    let stats = node.print_packet_loss_stats(7_000);
    assert_eq!(stats, PacketLossStats { challenges_sent: 2, responses_received: 1, pending: 0 });
    assert!(node.send_challenge(11, true, 7_000));
    let stats = node.print_packet_loss_stats(11_999);
    assert_eq!(stats.pending, 1);
    assert_eq!(node.set_color(1, 2, 3), Rgb8 { r: 1, g: 2, b: 3 });
}

#[test]
fn status_colours() {
    let mut node = MeshNode::new();
    assert_eq!(node.update_status_color(), Rgb8 { r: 0, g: 0, b: 0 });
    node.is_connected = true;
    assert_eq!(node.update_status_color(), Rgb8 { r: 0, g: 0, b: 10 });
    node.is_root = true;
    assert_eq!(node.update_status_color(), Rgb8 { r: 0, g: 10, b: 0 });
}

#[test]
fn hsv_conversion() {
    assert_eq!(hsv_to_rgb(0, 0, 77), Rgb8 { r: 77, g: 77, b: 77 });
    assert_eq!(hsv_to_rgb(0, 255, 255), Rgb8 { r: 255, g: 0, b: 0 });
    assert_eq!(hsv_to_rgb(86, 255, 255), Rgb8 { r: 0, g: 255, b: 0 });
}

#[test]
fn env_values() {
    let env = "# comment\nWIFI_SSID=\"home\"\n  KEY='v=1'\nKEY=second\n";
    assert_eq!(get_embedded_env_value(env, "WIFI_SSID"), "home".to_string());
    assert_eq!(get_embedded_env_value(env, "KEY"), "v=1".to_string());
    assert_eq!(get_embedded_env_value("#KEY=1\nKEY=2", "KEY"), "2".to_string());
}

#[test]
fn disconnect_reasons() {
    assert_eq!(get_disconnect_reason_string(2), "AUTH_EXPIRE");
    assert_eq!(get_disconnect_reason_string(201), "NO_AP_FOUND");
    assert_eq!(get_disconnect_reason_string(12), "UNKNOWN");
}

#[test]
fn ntp_answers() {
    let client = NtpClient::default();
    assert_eq!(NtpClient::request_packet()[0], 0x23);
    let mut packet = [0u8; 48];
    // 2_208_988_800 + 10 seconds
    let tx: u32 = 2_208_988_810;
    packet[40..44].copy_from_slice(&tx.to_be_bytes());
    assert_eq!(client.sync_time(Ok((48, packet)), 30), Ok(10_015));
    assert_eq!(client.sync_time(Ok((47, packet)), 30), Err(NtpError::InvalidResponse));
    assert_eq!(client.sync_time(Ok((48, [0u8; 48])), 30), Err(NtpError::InvalidTimestamp));
    assert_eq!(client.sync_time(Err(NtpError::Timeout), 30), Err(NtpError::Timeout));
    assert_eq!(NtpClient::parse_ntp_timestamp(&[0, 0, 1, 2, 9, 9, 9, 9]), 258);
    let mut sync = TimeSync::new();
    assert_eq!(sync.current_time_ms(5), 0);
    assert!(sync.initial_sync(Ok(1_000_000), 100).is_ok());
    assert_eq!(sync.current_time_ms(150), 1_000_050);
    assert!(sync.initial_sync(Err(NtpError::SendFailed), 200).is_err());
    assert_eq!(sync.current_time_ms(150), 1_000_050);
}

#[test]
fn wifi_retry_policy() {
    assert_eq!(connect_with_retry(1, true), RetryStep::Done);
    assert_eq!(connect_with_retry(1, false), RetryStep::RetryAfter(2000));
    assert_eq!(connect_with_retry(5, false), RetryStep::GiveUp(WifiError::ConnectFailed));
    assert_eq!(wait_for_ip(4, false), RetryStep::RetryAfter(2000));
    assert_eq!(wait_for_ip(5, false), RetryStep::GiveUp(WifiError::NoIpAddress));
    assert_eq!(WifiError::NoIpAddress.message(), "No IP address assigned after retries");
}

#[test]
fn one_flipped_bit_fails_the_chunk_check() {
    let image: Vec<u8> = (0..600u32).map(|i| (i % 251) as u8).collect();
    let chunk = FirmwareChunk::new(0, 2, "3.0.0".to_string(), image.clone());
    for bit in [0u8, 3, 7] {
        let mut flipped = FirmwareChunk::new(0, 2, "3.0.0".to_string(), image.clone());
        flipped.data[599] ^= 1 << bit;
        flipped.crc32 = chunk.crc32;
        assert!(!flipped.validate());
    }
    let mut other_sum = FirmwareChunk::new(0, 2, "3.0.0".to_string(), image);
    other_sum.crc32 ^= 1;
    assert!(!other_sum.validate());
}

#[test]
fn manager_fragments_replace_earlier_chunks() {
    let image: Vec<u8> = (0..1030u32).map(|i| (i % 13) as u8).collect();
    let mut m = OtaManager::new();
    assert!(m.fragment_firmware(&[1, 2, 3], "1.0.0".to_string()).is_ok());
    assert_eq!(m.get_all_chunks().len(), 1);
    assert!(m.fragment_firmware(&image, "2.0.0".to_string()).is_ok());
    let chunks = m.get_all_chunks();
    assert_eq!(chunks.len(), 3);
    let joined: Vec<u8> = chunks.iter().flat_map(|c| c.data.clone()).collect();
    assert_eq!(joined, image);
    assert!(chunks.iter().enumerate().all(|(i, c)| c.sequence == i as u32 && c.version == "2.0.0"));
}

#[test]
fn out_of_order_chunk_at_the_last_number_is_kept_aside() {
    let mut m = OtaManager::new();
    m.start_ota_reception(3, 1100);
    let last = FirmwareChunk::new(u32::MAX, 3, "2.0.0".to_string(), vec![9; 4]);
    let p = m.handle_chunk(last).ok().unwrap();
    assert!(p.to_write.is_empty());
    assert!(!p.complete);
}

#[test]
fn merged_schedule_keeps_times_distinct() {
    let mut s = Instructions::new();
    s.combine_instructions(vec![instr(30, 1), instr(10, 2)]);
    s.combine_instructions(vec![instr(10, 9), instr(20, 3), instr(30, 9)]);
    let times: Vec<i64> = s.instructions.iter().map(|i| i.timestamp).collect();
    assert_eq!(times, vec![10, 20, 30]);
    assert_eq!(s.instructions[0].color.r, 2);
}

fn app_state() -> ApplicationState {
    ApplicationState { instructions: Instructions::new(), ota_manager: OtaManager::new() }
}

fn json(v: &serde_json::Value) -> JsonValue {
    match v {
        serde_json::Value::Null => JsonValue::Null,
        serde_json::Value::Bool(b) => JsonValue::Bool(*b),
        serde_json::Value::Number(n) => JsonValue::Number(n.as_u64()),
        serde_json::Value::String(s) => JsonValue::Text(s.clone()),
        serde_json::Value::Array(xs) => JsonValue::Array(xs.iter().map(json).collect()),
        serde_json::Value::Object(m) => JsonValue::Object(m.iter().map(|(k, x)| (k.clone(), json(x))).collect()),
    }
}

fn parse_command(text: &str, ota: Option<OtaMessage>) -> MeshCommand {
    let parsed = serde_json::from_str::<serde_json::Value>(text).ok().map(|v| json(&v));
    classify_message(&parsed, ota)
}

#[test]
fn received_text_is_classified() {
    assert!(matches!(parse_command("{\"type\":\"challenge\",\"id\":7}", None), MeshCommand::Challenge { id: Some(7) }));
    assert!(matches!(
        parse_command("{\"type\":\"challenge_response\",\"id\":\"x\"}", None),
        MeshCommand::ChallengeResponse { id: None }
    ));
    assert!(matches!(parse_command("{\"r\":1,\"g\":2,\"b\":3}", None), MeshCommand::Color { r: 1, g: 2, b: 3 }));
    assert!(matches!(parse_command("{\"r\":1,\"b\":3}", None), MeshCommand::Invalid));
    assert!(matches!(parse_command("not json", None), MeshCommand::Unparsable));
    assert!(matches!(parse_command("{\"type\":\"ota_start\"}", None), MeshCommand::OtaMalformed));
    assert!(matches!(parse_command("{\"type\":\"ota_reboot\"}", None), MeshCommand::OtaReboot));
    match parse_command("{\"type\":\"data\",\"data\":[1,\"a\",-2,5]}", None) {
        MeshCommand::Data { items } => assert_eq!(items, vec![1, 5]),
        _ => panic!("expected data"),
    }
    match parse_command("{\"type\":\"ota_cancel\",\"reason\":\"late\"}", None) {
        MeshCommand::OtaCancel { reason } => assert_eq!(reason, Some("late".to_string())),
        _ => panic!("expected a cancel"),
    }
    match parse_command("{\"type\":\"hello\"}", None) {
        MeshCommand::Unknown { msg_type } => assert_eq!(msg_type, "hello"),
        _ => panic!("expected an unknown type"),
    }
    let start = OtaMessage::OtaStart { version: "2.0.0".to_string(), total_chunks: 4, firmware_size: 2000 };
    assert!(matches!(
        parse_command("{\"type\":\"ota_start\"}", Some(start)),
        MeshCommand::OtaStart { total_chunks: 4, firmware_size: 2000, .. }
    ));
}

#[test]
fn received_messages_change_only_their_part() {
    let mut node = MeshNode::new();
    let mut app = app_state();
    assert!(node.send_challenge(4, true, 100));
    let action = mesh_rx_task(&mut node, &mut app, MeshCommand::Color { r: 300, g: 2, b: 3 });
    assert!(matches!(action, RxAction::SetColor { color: Rgb8 { r: 44, g: 2, b: 3 } }));
    assert_eq!(node.pending_challenges, vec![(4, 100)]);
    assert_eq!(node.total_challenges_sent, 1);
    let action = mesh_rx_task(&mut node, &mut app, MeshCommand::ChallengeResponse { id: Some(4) });
    assert!(matches!(action, RxAction::Nothing));
    assert!(node.pending_challenges.is_empty());
    assert_eq!(node.total_responses_received, 1);
    assert_eq!(node.current_color, Rgb8 { r: 44, g: 2, b: 3 });
    assert_eq!(node.total_challenges_sent, 1);
    let action = mesh_rx_task(&mut node, &mut app, MeshCommand::Challenge { id: Some(9) });
    assert!(matches!(action, RxAction::SendChallengeResponse { id: 9 }));
}
