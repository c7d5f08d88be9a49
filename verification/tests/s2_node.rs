use rusty_halloween::color::Rgb8;
use rusty_halloween::mesh_protocol::{
    Instruction, MeshPacket, OtaChunkData, OtaStartData, PacketType, RoutingMessage,
    TimeSyncBeacon,
};
use rusty_halloween::s2_espnow::{check_frame, frame_packet, receive_packet, EspNowError};
use rusty_halloween::s2_instructions::{self as s2i, InstructionStatus, Instructions};
use rusty_halloween::s2_led::{self, LedController};
use rusty_halloween::s2_node::{
    discovery_step, elect_root, executor_step, mesh_update_plan, process_packet, status_report,
    update_packet, ChunkReply, DiscoveryEvent, DiscoveryStep, MeshNodeState, PacketOutcome,
    PacketPayload,
};
use rusty_halloween::s2_ota::{self, OtaManager, OtaState};
use rusty_halloween::s2_routing::{self as routing, forward_packet, RoutingTable};
use rusty_halloween::s2_time_sync::{self as ts, beacon_tick, TimeSync};

fn ins(timestamp: u64, r: u8) -> Instruction {
    Instruction { timestamp, color: Rgb8 { r, g: 0, b: 0 } }
}

#[test]
fn s2_buffer_keeps_time_order_and_capacity() {
    let mut b = Instructions::new();
    assert!(b.is_empty());
    assert_eq!(b.add_instruction(ins(300, 1)), Ok(()));
    assert_eq!(b.add_instruction(ins(100, 2)), Ok(()));
    assert_eq!(b.add_instruction(ins(200, 3)), Ok(()));
    assert_eq!(b.len(), 3);
    let due = b.get_next_seconds_instructions(0, 0);
    assert_eq!(due.len(), 0);
    let window = Instructions::new();
    assert_eq!(window.get_next_seconds_instructions(1, 0).len(), 0);
    assert_eq!(b.get_buffer_left(50), 50);
    assert_eq!(b.get_buffer_left(150), 0);
    let mut full = Instructions::new();
    for i in 0..100u64 {
        assert_eq!(full.add_instruction(ins(i, 0)), Ok(()));
    }
    assert_eq!(full.add_instruction(ins(5, 9)), Err(()));
    assert_eq!(full.len(), 100);
}

#[test]
fn s2_next_seconds_window() {
    let mut b = Instructions::new();
    for t in [999_999u64, 1_000_000, 1_500_000, 2_999_999, 3_000_000] {
        b.add_instruction(ins(t, 1)).unwrap();
    }
    let due = b.get_next_seconds_instructions(2, 1_000_000);
    let stamps: Vec<u64> = due.iter().map(|i| i.timestamp).collect();
    assert_eq!(stamps, vec![1_000_000, 1_500_000, 2_999_999]);
}

#[test]
fn s2_playback_window() {
    let mut b = Instructions::new();
    assert_eq!(b.get_next_instruction(0), InstructionStatus::Sleep(100_000));
    b.add_instruction(ins(1_000_000, 7)).unwrap();
    b.add_instruction(ins(2_000_000, 8)).unwrap();
    // 200 ms ahead: wait until 10 ms before it.
    assert_eq!(b.get_next_instruction(800_000), InstructionStatus::Sleep(190_000));
    // within 50 ms: shown.
    assert_eq!(
        b.get_next_instruction(1_040_000),
        InstructionStatus::SetColor(Rgb8 { r: 7, g: 0, b: 0 })
    );
    // more than 50 ms late: dropped.
    assert_eq!(b.get_next_instruction(2_060_000), InstructionStatus::Sleep(100_000));
    assert!(b.is_empty());
}

#[test]
fn s2_merge_skips_held_and_is_idempotent() {
    let mut b = Instructions::new();
    b.add_instruction(ins(10, 1)).unwrap();
    let incoming = vec![ins(10, 1), ins(5, 2), ins(5, 2), ins(20, 3)];
    b.combine_instructions(&incoming);
    assert_eq!(b.len(), 3);
    b.combine_instructions(&incoming);
    assert_eq!(b.len(), 3);
    b.combine_instructions(&[ins(20, 7)]);
    assert_eq!(b.len(), 3);
    assert_eq!(b.get_next_instruction(5), InstructionStatus::SetColor(Rgb8 { r: 2, g: 0, b: 0 }));
    b.clear();
    assert!(b.is_empty());
}

#[test]
fn s2_buffer_slot_functions() {
    let mut none: Option<Instructions> = None;
    assert_eq!(s2i::add_instruction(&mut none, ins(1, 1)), Err(()));
    assert_eq!(s2i::get_next_instruction(&mut none, 0), InstructionStatus::Sleep(100_000));
    assert_eq!(s2i::get_buffer_left(&none, 0), 0);
    let mut some = Some(Instructions::new());
    assert_eq!(s2i::add_instruction(&mut some, ins(500, 1)), Ok(()));
    assert_eq!(s2i::get_buffer_left(&some, 100), 400);
    s2i::combine_instructions(&mut some, &[ins(600, 2)]);
    assert_eq!(some.as_ref().unwrap().len(), 2);
    s2i::clear_instructions(&mut some);
    assert_eq!(some.as_ref().unwrap().len(), 0);
}

#[test]
fn s2_time_sync_smooths_offset() {
    let mut sync = TimeSync::new(false);
    assert!(!sync.is_synced(0));
    let first = TimeSyncBeacon { root_timestamp: 1_000_000, sequence: 1 };
    assert!(sync.beacon_fits(&first, 2_005_000));
    sync.handle_sync_beacon(&first, 2_005_000);
    assert_eq!(sync.now_us(3_000_000), 2_000_000);
    let second = TimeSyncBeacon { root_timestamp: 2_000_000, sequence: 2 };
    sync.handle_sync_beacon(&second, 3_010_000);
    assert_eq!(sync.now_us(4_000_000), 2_998_500);
    // an older beacon changes nothing
    sync.handle_sync_beacon(&first, 9_000_000);
    assert_eq!(sync.now_us(4_000_000), 2_998_500);
    assert!(sync.is_synced(3_010_000 + 9_999_999));
    assert!(!sync.is_synced(3_010_000 + 10_000_000));
}

#[test]
fn s2_time_sync_rounds_toward_zero() {
    let mut sync = TimeSync::new(false);
    sync.handle_sync_beacon(&TimeSyncBeacon { root_timestamp: 1_000, sequence: 1 }, 5_993);
    assert_eq!(sync.now_us(100), 107);
    sync.handle_sync_beacon(&TimeSyncBeacon { root_timestamp: 1_000, sequence: 2 }, 6_000);
    assert_eq!(sync.now_us(100), 104);
}

#[test]
fn s2_root_clock_is_the_mesh_clock() {
    let mut sync = TimeSync::new(false);
    sync.handle_sync_beacon(&TimeSyncBeacon { root_timestamp: 0, sequence: 1 }, 1_000_000);
    assert_eq!(sync.now_us(2_000_000), 1_005_000);
    sync.set_root(true);
    assert_eq!(sync.now_us(2_000_000), 2_000_000);
    assert!(sync.is_synced(u64::MAX));
    sync.handle_sync_beacon(&TimeSyncBeacon { root_timestamp: 0, sequence: 9 }, 7);
    assert_eq!(sync.now_us(5), 5);
    let mut slot: Option<TimeSync> = None;
    assert_eq!(ts::now_us(&slot, 42), 42);
    assert!(!ts::is_synced(&slot, 0));
    ts::set_root(&mut slot, true);
    assert!(slot.is_none());
}

#[test]
fn s2_beacon_task_ticks() {
    let idle = beacon_tick(false, 7, 100);
    assert!(idle.beacon.is_none());
    assert_eq!(idle.next_sequence, 7);
    let sent = beacon_tick(true, u32::MAX, 100);
    assert_eq!(sent.beacon.unwrap().sequence, u32::MAX);
    assert_eq!(sent.beacon.unwrap().root_timestamp, 100);
    assert_eq!(sent.next_sequence, 0);
    let packet = ts::beacon_packet(&sent.beacon.unwrap(), &[1, 2, 3]);
    assert_eq!(packet.packet_type, PacketType::TimeSync);
    assert_eq!(packet.payload.as_slice(), &[1, 2, 3]);
    assert_eq!(packet.source_mac, [0xFF; 6]);
}

fn mac(last: u8) -> [u8; 6] {
    [0xAA, 0xBB, 0xCC, 0, 0, last]
}

#[test]
fn s2_routing_follows_best_neighbour() {
    let mut table = RoutingTable::new(mac(1), false);
    assert_eq!(table.our_distance(), 255);
    assert!(table.update_neighbor(mac(2), 3, -40, 0));
    assert_eq!(table.our_distance(), 4);
    assert!(table.update_neighbor(mac(3), 1, -40, 0));
    assert_eq!(table.our_distance(), 2);
    assert!(!table.update_neighbor(mac(3), 1, -50, 1_000_000));
    assert!(table.update_neighbor(mac(2), 0, -40, 1_000_000));
    assert_eq!(table.our_distance(), 1);
    // mac(3) last heard at 1 s, mac(2) at 1 s: both expire after 31 s.
    table.remove_expired_neighbors(31_000_000);
    assert_eq!(table.our_distance(), 1);
    table.remove_expired_neighbors(32_000_000);
    assert_eq!(table.our_distance(), 255);
}

#[test]
fn s2_routing_root_and_capacity() {
    let mut root = RoutingTable::new(mac(1), true);
    assert!(root.update_neighbor(mac(2), 5, 0, 0));
    assert_eq!(root.our_distance(), 0);
    root.set_root(false);
    assert_eq!(root.our_distance(), 255);
    let mut table = RoutingTable::new(mac(1), false);
    for i in 0..10u8 {
        assert!(table.update_neighbor(mac(10 + i), 255, 0, 0));
    }
    assert!(!table.update_neighbor(mac(50), 0, 0, 0));
    assert_eq!(table.our_distance(), 255);
}

#[test]
fn s2_forwarding_rules() {
    let table = Some(RoutingTable::new(mac(1), false));
    let mut packet = MeshPacket::new(PacketType::Instructions, 5, mac(2));
    packet.payload = heapless::Vec::from_slice(&[9, 9]).unwrap();
    let fwd = forward_packet(&table, &packet).unwrap();
    assert_eq!(fwd.hop_count, 1);
    assert_eq!(fwd.payload.as_slice(), &[9, 9]);
    packet.hop_count = 10;
    assert!(forward_packet(&table, &packet).is_none());
    let own = MeshPacket::new(PacketType::Instructions, 5, mac(1));
    assert!(!routing::should_forward(&table, &own));
    assert!(!routing::should_forward(&None, &MeshPacket::new(PacketType::Routing, 0, mac(2))));
    assert_eq!(routing::our_distance(&None), 255);
    let mut hop = MeshPacket::new(PacketType::Routing, 0, mac(2));
    hop.hop_count = 255;
    hop.increment_hop();
    assert_eq!(hop.hop_count, 255);
}

fn v16(text: &str) -> heapless::String<16> {
    heapless::String::try_from(text).unwrap()
}

fn start(n: u32, version: &str) -> OtaStartData {
    OtaStartData { version: v16(version), total_chunks: n, firmware_size: n * 200 }
}

#[test]
fn s2_update_reception_completes() {
    let image: Vec<u8> = (0..450u32).map(|i| (i % 251) as u8).collect();
    let (announce, chunks) = mesh_update_plan(&image, "0.1.0");
    assert_eq!(announce.total_chunks, 3);
    assert_eq!(announce.firmware_size, 450);
    assert_eq!(chunks.len(), 3);
    assert_eq!(chunks[2].data.len(), 50);
    let mut m = OtaManager::new();
    assert_eq!(m.start_update(&announce), Ok(()));
    assert_eq!(m.state(), OtaState::ReceivingChunks);
    assert_eq!(m.start_update(&announce), Err(()));
    assert_eq!(m.handle_chunk(&chunks[1], mac(2)), Ok(true));
    assert_eq!(m.handle_chunk(&chunks[1], mac(2)), Ok(false));
    let missing = m.get_missing_chunks();
    assert_eq!(missing.as_slice(), &[0, 2]);
    assert_eq!(m.progress_percent(), 33);
    assert_eq!(m.handle_chunk(&chunks[0], mac(2)), Ok(true));
    assert_eq!(m.handle_chunk(&chunks[2], mac(2)), Ok(true));
    assert!(m.is_ready_to_apply());
    assert_eq!(m.apply_update(), Ok(()));
    assert_eq!(m.state(), OtaState::Idle);
    assert_eq!(m.apply_update(), Err(()));
}

#[test]
fn s2_update_refuses_bad_chunks() {
    let mut m = OtaManager::new();
    let chunk = OtaChunkData {
        sequence: 0,
        total_chunks: 2,
        version: v16("1.0.0"),
        data: heapless::Vec::from_slice(&[1, 2, 3]).unwrap(),
        crc32: 0,
    };
    assert_eq!(m.handle_chunk(&chunk, mac(2)), Err(()));
    m.start_update(&start(2, "1.0.0")).unwrap();
    assert_eq!(m.handle_chunk(&chunk, mac(2)), Err(()));
    let (_, good) = mesh_update_plan(&[1, 2, 3], "2.0.0");
    assert_eq!(m.handle_chunk(&good[0], mac(2)), Err(()));
    let mut out_of_range = OtaChunkData { version: v16("1.0.0"), ..good[0].clone_chunk() };
    out_of_range.sequence = 2;
    assert_eq!(m.handle_chunk(&out_of_range, mac(2)), Err(()));
    assert_eq!(s2_ota::get_progress(&Some(m)), (0, 2));
}

trait CloneChunk {
    fn clone_chunk(&self) -> OtaChunkData;
}

impl CloneChunk for OtaChunkData {
    fn clone_chunk(&self) -> OtaChunkData {
        OtaChunkData {
            sequence: self.sequence,
            total_chunks: self.total_chunks,
            version: self.version.clone(),
            data: self.data.clone(),
            crc32: self.crc32,
        }
    }
}

#[test]
fn s2_update_too_large_fails_and_reset() {
    let mut m = OtaManager::new();
    assert_eq!(m.start_update(&start(513, "1.0.0")), Err(()));
    assert_eq!(m.state(), OtaState::Failed);
    assert_eq!(m.start_update(&start(1, "1.0.0")), Ok(()));
    m.reset();
    assert_eq!(m.state(), OtaState::Idle);
    assert_eq!(m.progress_percent(), 0);
    let mut none: Option<OtaManager> = None;
    assert_eq!(s2_ota::start_update(&mut none, &start(1, "x")), Err(()));
    assert!(!s2_ota::is_ready_to_apply(&none));
    assert_eq!(s2_ota::get_progress(&none), (0, 0));
    assert_eq!(s2_ota::get_missing_chunks(&none).len(), 0);
}

#[test]
fn s2_missing_list_is_capped_at_32() {
    let mut m = OtaManager::new();
    m.start_update(&start(40, "v")).unwrap();
    let missing = m.get_missing_chunks();
    assert_eq!(missing.len(), 32);
    assert_eq!(missing[31], 31);
}

#[test]
fn s2_plan_checksums_and_version() {
    let (announce, chunks) = mesh_update_plan(b"123456789", "a-very-long-version-text");
    assert_eq!(announce.version, "");
    let (exact, _) = mesh_update_plan(b"1", "0123456789abcdef");
    assert_eq!(exact.version, "0123456789abcdef");
    assert_eq!(chunks.len(), 1);
    assert_eq!(chunks[0].crc32, 0xE306_9283);
    let (empty, none) = mesh_update_plan(&[], "1");
    assert_eq!(empty.total_chunks, 0);
    assert!(none.is_empty());
    let packet = update_packet(PacketType::OtaReboot, heapless::Vec::new());
    assert_eq!(packet.timestamp, 0);
    assert_eq!(packet.source_mac, [0xFF; 6]);
}

#[test]
fn s2_frames_carry_iscsi_checksum() {
    let frame = frame_packet(b"123456789").unwrap();
    assert_eq!(&frame[..9], b"123456789");
    assert_eq!(&frame[9..], &[0x83, 0x92, 0x06, 0xE3]);
    assert!(check_frame(&frame, 9));
    let mut bad = frame.clone();
    bad[0] ^= 1;
    assert!(!check_frame(&bad, 9));
    assert!(!check_frame(&frame, 10));
    assert_eq!(frame_packet(&[0u8; 253]), Err(EspNowError::SerializationFailed));
    assert!(frame_packet(&[0u8; 252]).is_ok());
    let packet = MeshPacket::new(PacketType::OtaAck, 1, mac(4));
    let received = receive_packet(&frame, mac(4), Some((packet, 9))).unwrap();
    assert_eq!(received.rssi, 0);
    assert_eq!(received.sender_mac, mac(4));
    assert!(matches!(
        receive_packet(&bad, mac(4), Some((MeshPacket::new(PacketType::OtaAck, 1, mac(4)), 9))),
        Err(EspNowError::DeserializationFailed)
    ));
    assert!(matches!(receive_packet(&frame, mac(4), None), Err(EspNowError::DeserializationFailed)));
}

#[test]
fn s2_led_controller() {
    let mut led = LedController::new(1);
    assert_eq!(led.get_color(), Rgb8 { r: 0, g: 0, b: 0 });
    led.set_color(Rgb8 { r: 1, g: 2, b: 3 });
    assert_eq!(led.get_color(), Rgb8 { r: 1, g: 2, b: 3 });
    led.turn_off();
    assert_eq!(led.get_color(), Rgb8 { r: 0, g: 0, b: 0 });
    let mut slot: Option<LedController> = None;
    assert!(!s2_led::set_color(&mut slot, Rgb8 { r: 1, g: 1, b: 1 }));
    assert_eq!(s2_led::get_color(&slot), None);
}

fn node() -> MeshNodeState {
    MeshNodeState {
        time_sync: Some(TimeSync::new(false)),
        routing: Some(RoutingTable::new(mac(1), false)),
        instructions: Some(Instructions::new()),
        ota: Some(OtaManager::new()),
        led: Some(LedController::new(1)),
    }
}

fn received(packet_type: PacketType) -> rusty_halloween::s2_espnow::ReceivedPacket {
    rusty_halloween::s2_espnow::ReceivedPacket {
        packet: MeshPacket::new(packet_type, 0, mac(2)),
        rssi: -30,
        sender_mac: mac(2),
    }
}

#[test]
fn s2_packets_reach_their_subsystem() {
    let mut n = node();
    let r = process_packet(
        &mut n,
        &received(PacketType::Routing),
        PacketPayload::Routing(RoutingMessage::NeighborBeacon { distance_from_root: 0 }),
        10,
    );
    assert_eq!(r, PacketOutcome::Routing);
    assert_eq!(routing::our_distance(&n.routing), 1);
    let r = process_packet(
        &mut n,
        &received(PacketType::Instructions),
        PacketPayload::Instructions(heapless::Vec::from_slice(&[ins(100, 1), ins(50, 2)]).unwrap()),
        10,
    );
    assert_eq!(r, PacketOutcome::Instructions(2));
    assert_eq!(n.instructions.as_ref().unwrap().len(), 2);
    let r = process_packet(
        &mut n,
        &received(PacketType::TimeSync),
        PacketPayload::TimeSync(TimeSyncBeacon { root_timestamp: 0, sequence: 1 }),
        1_005_000,
    );
    assert_eq!(r, PacketOutcome::TimeSync);
    assert_eq!(ts::now_us(&n.time_sync, 2_000_000), 1_000_000);
    let r = process_packet(&mut n, &received(PacketType::TimeSync), PacketPayload::Nothing, 0);
    assert_eq!(r, PacketOutcome::Unreadable);
    let r = process_packet(&mut n, &received(PacketType::OtaAck), PacketPayload::Nothing, 0);
    assert_eq!(r, PacketOutcome::OtaAck);
    let r = process_packet(&mut n, &received(PacketType::OtaReboot), PacketPayload::Nothing, 0);
    assert_eq!(r, PacketOutcome::OtaNotReady);
}

#[test]
fn s2_update_over_packets() {
    let mut n = node();
    let (announce, chunks) = mesh_update_plan(&[7u8; 300], "0.2.0");
    let r = process_packet(&mut n, &received(PacketType::OtaStart), PacketPayload::OtaStart(announce), 0);
    assert_eq!(r, PacketOutcome::OtaStarted(true));
    let mut it = chunks.into_iter();
    let first = it.next().unwrap();
    let second = it.next().unwrap();
    let again = first.clone_chunk();
    let r = process_packet(&mut n, &received(PacketType::OtaChunk), PacketPayload::OtaChunk(first), 0);
    assert_eq!(r, PacketOutcome::OtaChunk(ChunkReply::New));
    let r = process_packet(&mut n, &received(PacketType::OtaChunk), PacketPayload::OtaChunk(again), 0);
    assert_eq!(r, PacketOutcome::OtaChunk(ChunkReply::Duplicate));
    let r = process_packet(&mut n, &received(PacketType::OtaReboot), PacketPayload::Nothing, 0);
    assert_eq!(r, PacketOutcome::OtaNotReady);
    let r = process_packet(&mut n, &received(PacketType::OtaChunk), PacketPayload::OtaChunk(second), 0);
    assert_eq!(r, PacketOutcome::OtaChunk(ChunkReply::New));
    let r = process_packet(&mut n, &received(PacketType::OtaReboot), PacketPayload::Nothing, 0);
    assert_eq!(r, PacketOutcome::OtaApplied(true));
    assert_eq!(n.ota.as_ref().unwrap().state(), OtaState::Idle);
}

#[test]
fn s2_discovery_and_election() {
    let beacon = DiscoveryEvent::Packet {
        packet_type: PacketType::Routing,
        routing: Some(RoutingMessage::RouteUpdate { distance_from_root: 2 }),
    };
    assert_eq!(discovery_step(&beacon), DiscoveryStep::Found(2));
    let lost = DiscoveryEvent::Packet {
        packet_type: PacketType::Routing,
        routing: Some(RoutingMessage::NeighborBeacon { distance_from_root: 255 }),
    };
    assert_eq!(discovery_step(&lost), DiscoveryStep::Listen);
    let other = DiscoveryEvent::Packet { packet_type: PacketType::TimeSync, routing: None };
    assert_eq!(discovery_step(&other), DiscoveryStep::Listen);
    assert_eq!(discovery_step(&DiscoveryEvent::Quiet { elapsed_ms: 4_999 }), DiscoveryStep::Listen);
    assert_eq!(discovery_step(&DiscoveryEvent::Quiet { elapsed_ms: 5_000 }), DiscoveryStep::NotFound);
    assert!(!elect_root(true, true));
    assert!(elect_root(false, true));
    assert!(!elect_root(false, false));
}

#[test]
fn s2_executor_and_status() {
    let mut n = node();
    s2i::add_instruction(&mut n.instructions, ins(1_000_000, 5)).unwrap();
    assert_eq!(executor_step(&mut n, 0), Some(990_000));
    assert_eq!(executor_step(&mut n, 1_000_000), None);
    assert_eq!(s2_led::get_color(&n.led), Some(Rgb8 { r: 5, g: 0, b: 0 }));
    assert_eq!(executor_step(&mut n, 1_000_000), Some(100_000));
    s2i::add_instruction(&mut n.instructions, ins(3_500_000, 1)).unwrap();
    let report = status_report(&n, 0, 1_000_000);
    assert!(!report.synced);
    assert_eq!(report.distance, 255);
    assert_eq!(report.buffer_ms, 2_500);
}
