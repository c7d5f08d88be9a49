use rusty_halloween::events::{ip_octets, mesh_event_handler, EventAction, MeshEvent};
use rusty_halloween::led_executor::LedExecutor;
use rusty_halloween::mesh_state::{
    has_ip, is_root, layer, MeshStateRuntime, OtaStateRuntime, RuntimeState, ScanStateRuntime,
    StateContainer, WifiModeRuntime,
};
use rusty_halloween::projector::{load_default_config, ACCELERATION, PROJECTOR_ID};
use rusty_halloween::scan::{
    init_mesh, is_mesh_network, scan_for_networks, select_2ghz_router, ApRecord, MeshSetupError,
    NetworkDiscovery, ScanBackoff, ScanResults, ScanStep,
};
use rusty_halloween::show_client::{
    check_response, fetch_instructions, instruction_executor_task, poll_loop, polling_task,
    Esp32Instruction, Esp32Response, FetchError, FetchStep, ShowClient,
};

fn ap(ssid: &[u8], channel: u8, rssi: i8, mesh_ie_len: i32, last: u8) -> ApRecord {
    let mut s = [0u8; 33];
    s[..ssid.len()].copy_from_slice(ssid);
    ApRecord { ssid: s, bssid: [1, 2, 3, 4, 5, last], primary: channel, rssi, mesh_ie_len }
}

#[test]
fn mesh_networks_are_recognised() {
    let id = [0u8; 6];
    assert!(is_mesh_network(&ap(b"MyMESH", 1, -50, 0, 1), &id));
    assert!(is_mesh_network(&ap(b"home-mesh", 1, -50, 0, 1), &id));
    assert!(is_mesh_network(&ap(b"plain", 1, -50, 8, 1), &id));
    assert!(!is_mesh_network(&ap(b"MeSh", 1, -50, 0, 1), &id));
    assert!(!is_mesh_network(&ap(&[0xFF, b'M', b'E', b'S', b'H'], 1, -50, 0, 1), &id));
}

#[test]
fn discovery_prefers_mesh_then_strongest_router() {
    let id = [0u8; 6];
    let aps = vec![
        ap(b"router", 6, -70, 0, 1),
        ap(b"router", 11, -40, 0, 2),
        ap(b"MESH-far", 14, -10, 0, 3),
        ap(b"MESH-near", 3, -80, 0, 4),
    ];
    match scan_for_networks(Some(aps.clone()), "router", &id) {
        NetworkDiscovery::ExistingMesh { channel, bssid, ssid, .. } => {
            assert_eq!(channel, 3);
            assert_eq!(bssid[5], 4);
            assert_eq!(ssid, "MESH-near");
        }
        _ => panic!("expected the mesh"),
    }
    let routers = vec![aps[0], aps[1]];
    match scan_for_networks(Some(routers), "router", &id) {
        NetworkDiscovery::Router { channel, rssi, .. } => {
            assert_eq!(channel, 11);
            assert_eq!(rssi, -40);
        }
        _ => panic!("expected the router"),
    }
    assert!(matches!(scan_for_networks(None, "router", &id), NetworkDiscovery::NotFound));
    assert!(matches!(scan_for_networks(Some(vec![]), "router", &id), NetworkDiscovery::NotFound));
}

#[test]
fn router_selection_by_name_and_band() {
    let aps = vec![ap(b"home", 36, -20, 0, 1), ap(b"home", 6, -60, 0, 2), ap(b"home", 1, -50, 0, 3)];
    let best = select_2ghz_router(&aps, "home").unwrap();
    assert_eq!(best.bssid[5], 3);
    assert!(select_2ghz_router(&aps, "other").is_none());
    let results = ScanResults { aps: aps.clone(), count: 3 };
    assert_eq!(results.get_channel("home"), Some(6));
    assert!(results.find_2ghz_network("nope").is_none());
}

#[test]
fn scan_backoff_doubles_to_the_cap() {
    let mut b = ScanBackoff::new(3000);
    assert!(matches!(b.scan_with_retry(NetworkDiscovery::NotFound), ScanStep::RetryAfter(1000)));
    assert!(matches!(b.scan_with_retry(NetworkDiscovery::NotFound), ScanStep::RetryAfter(2000)));
    assert!(matches!(b.scan_with_retry(NetworkDiscovery::NotFound), ScanStep::RetryAfter(3000)));
    assert!(matches!(b.scan_with_retry(NetworkDiscovery::NotFound), ScanStep::RetryAfter(3000)));
    let found = NetworkDiscovery::Router { channel: 6, rssi: -1, bssid: [0; 6] };
    assert!(matches!(b.scan_with_retry(found), ScanStep::Found(NetworkDiscovery::Router { channel: 6, .. })));
    assert_eq!(b.attempt, 5);
}

#[test]
fn mesh_channel_choice() {
    assert_eq!(init_mesh(Some(9), None), Ok((9, None)));
    let router = NetworkDiscovery::Router { channel: 4, rssi: -3, bssid: [7; 6] };
    assert_eq!(init_mesh(None, Some(router)), Ok((4, Some([7; 6]))));
    assert_eq!(init_mesh(None, Some(NetworkDiscovery::NotFound)), Err(MeshSetupError::NoNetwork));
    assert_eq!(init_mesh(None, None), Err(MeshSetupError::NoNetwork));
}

fn container(sta_netif: Option<usize>) -> Option<StateContainer> {
    let mut runtime = RuntimeState::new();
    runtime.sta_netif = sta_netif;
    Some(StateContainer::new(
        runtime,
        WifiModeRuntime::StaAp,
        MeshStateRuntime::Active,
        ScanStateRuntime::NotScanning,
        OtaStateRuntime::Idle,
    ))
}

#[test]
fn mesh_events_update_state() {
    let mut state = container(Some(77));
    let action = mesh_event_handler(
        &mut state,
        MeshEvent::ParentConnected { parent: None, is_root: true, layer: 1 },
    );
    assert_eq!(action, EventAction::RestartDhcp { netif: 77 });
    assert!(is_root(&state));
    assert_eq!(layer(&state), 1);
    mesh_event_handler(&mut state, MeshEvent::StaGotIp { ip: Some((0x0100A8C0, 0, 0)) });
    assert!(has_ip(&state));
    mesh_event_handler(&mut state, MeshEvent::StaLostIp);
    assert!(!has_ip(&state));
    let mut bare = container(None);
    let action = mesh_event_handler(
        &mut bare,
        MeshEvent::ParentConnected { parent: None, is_root: true, layer: 1 },
    );
    assert_eq!(action, EventAction::DhcpUnavailable);
    let mut none: Option<StateContainer> = None;
    assert_eq!(mesh_event_handler(&mut none, MeshEvent::Started), EventAction::Nothing);
    assert!(!is_root(&none));
    assert_eq!(layer(&none), -1);
    assert_eq!(ip_octets(0x0100A8C0), [192, 168, 0, 1]);
}

#[test]
fn projector_defaults() {
    let mut config = vec![0u32; 10];
    config[9] = 99;
    load_default_config(&mut config);
    assert_eq!(config[0], 1);
    assert_eq!(config[1], ACCELERATION);
    assert_eq!(config[7], PROJECTOR_ID);
    assert_eq!(config[9], 99);
}

#[test]
fn show_client_addresses() {
    let client = ShowClient::with_server("light-3", "example.org", 443);
    assert_eq!(client.fetch_test_instructions().unwrap(), "https://example.org/device/light-3/test");
    assert_eq!(
        client.fetch_instructions_inner(1234).unwrap(),
        "https://example.org/device/light-3/instructions?from=1234"
    );
    let long = "x".repeat(300);
    let far = ShowClient::with_server("light-3", &long, 443);
    assert_eq!(far.fetch_test_instructions(), Err(FetchError::UrlTooLong));
    let default = ShowClient::new_with_init("light-1");
    assert_eq!(default.server_port, 443);
}

fn esp(timestamp: u64, rgb: Option<(u8, u8, u8)>, off: Option<bool>) -> Esp32Instruction {
    Esp32Instruction {
        timestamp,
        r: rgb.map(|c| c.0),
        g: rgb.map(|c| c.1),
        b: rgb.map(|c| c.2),
        off,
    }
}

fn response(instructions: Vec<Esp32Instruction>) -> Esp32Response {
    Esp32Response { device_id: "light-1".to_string(), show_start_time: 55, instructions }
}

#[test]
fn fetch_policy_and_polling() {
    assert!(matches!(check_response(404, true, None), Err(FetchError::InvalidStatus(404))));
    assert!(matches!(check_response(200, false, None), Err(FetchError::ReadFailed)));
    assert!(matches!(check_response(200, true, None), Err(FetchError::ParseFailed)));
    assert!(check_response(200, true, Some(response(vec![]))).is_ok());
    assert!(matches!(fetch_instructions(1, Err(FetchError::ReadFailed)), FetchStep::RetryAfter(1000)));
    assert!(matches!(fetch_instructions(3, Err(FetchError::ReadFailed)), FetchStep::Done(Err(_))));
    assert!(matches!(fetch_instructions(1, Ok(response(vec![]))), FetchStep::Done(Ok(_))));
    let (next, got) = poll_loop(10, Ok(response(vec![esp(20, None, None), esp(40, None, None)])));
    assert_eq!(next, 40);
    assert!(got.is_some());
    let (next, got) = poll_loop(10, Ok(response(vec![])));
    assert_eq!(next, 10);
    assert!(got.is_none());
    assert_eq!(polling_task(5, 0), 5);
    assert_eq!(polling_task(5, 9), 9);
}

#[test]
fn fetched_instructions_are_queued() {
    let mut executor = LedExecutor::new(1);
    let count = instruction_executor_task(
        &mut executor,
        vec![
            esp(5, Some((1, 1, 1)), None),
            esp(20, None, Some(true)),
            esp(30, Some((2, 2, 2)), None),
            esp(40, None, None),
        ],
        10,
    );
    assert_eq!(count, 2);
    assert_eq!(executor.queue_len(), 2);
    assert_eq!(executor.next_instruction_time(), Some(20));
    assert_eq!(esp(1, Some((3, 4, 5)), Some(false)).to_color().map(|c| c.g), Some(4));
    assert!(esp(1, Some((3, 4, 5)), Some(true)).to_color().is_none());
    assert!(esp(1, Some((3, 4, 5)), None).to_color().is_some());
    assert!(esp(1, None, None).to_color().is_none());
    executor.execute_due_instructions(25);
    assert_eq!(executor.current_color().r, 0);
    executor.execute_due_instructions(35);
    assert_eq!(executor.current_color().r, 2);
}

#[test]
fn weakest_possible_router_is_still_chosen() {
    let id = [0u8; 6];
    let faint = vec![ap(b"other", 6, -20, 0, 1), ap(b"router", 6, -128, 0, 2), ap(b"router", 9, -128, 0, 3)];
    match scan_for_networks(Some(faint.clone()), "router", &id) {
        NetworkDiscovery::Router { channel, rssi, bssid } => {
            assert_eq!((channel, rssi, bssid[5]), (6, -128, 2));
        }
        _ => panic!("expected the router"),
    }
    let best = select_2ghz_router(&faint, "router").unwrap();
    assert_eq!(best.bssid[5], 2);
    let results = ScanResults { aps: vec![ap(b"home", 36, -20, 0, 1)], count: 1 };
    assert!(results.find_2ghz_network("home").is_none());
    let japan = ScanResults { aps: vec![ap(b"home", 36, -20, 0, 1), ap(b"home", 14, -70, 0, 2)], count: 2 };
    assert_eq!(japan.get_channel("home"), Some(14));
}
