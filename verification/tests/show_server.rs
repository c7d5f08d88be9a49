use rusty_halloween::server::{
    content_disposition, current_frame, device_instructions, download_firmware,
    extract_device_instructions, get_latest_firmware, proxy_status, show_status, start_show,
    upload_show, GitHubAsset, GitHubRelease, ShowState, STATUS_BAD_GATEWAY,
    STATUS_INTERNAL_ERROR, STATUS_NOT_FOUND, STATUS_OK,
};
use rusty_halloween::show::{DeviceCommand, Frame, Laser, SerializableShow};

fn laser(hex: [u8; 3]) -> Laser {
    Laser { home: false, point_count: 1, speed_profile: 0, enable: true, hex, value: 0 }
}

fn frame(timestamp: u64, lights: Vec<Option<bool>>, lasers: Vec<Option<Laser>>) -> Frame {
    Frame { timestamp, lights, lasers, projectors: vec![], turrets: vec![] }
}

fn show() -> SerializableShow {
    SerializableShow {
        name: "spooky".to_string(),
        frames: vec![
            frame(0, vec![Some(true), None], vec![Some(laser([1, 2, 3]))]),
            frame(1000, vec![None, Some(false)], vec![None]),
            frame(4999, vec![Some(false)], vec![Some(laser([9, 8, 7]))]),
            frame(5000, vec![Some(true)], vec![]),
        ],
    }
}

#[test]
fn show_lifecycle() {
    let mut state: Option<ShowState> = None;
    assert_eq!(start_show(&mut state, 10), STATUS_NOT_FOUND);
    assert!(matches!(show_status(&state, 10), Err(404)));
    assert_eq!(upload_show(&mut state, show(), 5), STATUS_OK);
    let st = show_status(&state, 7).ok().unwrap();
    assert_eq!(st.show_name, "spooky");
    assert_eq!(st.elapsed_ms, None);
    assert!(!st.is_playing);
    assert_eq!(st.frame_count, 4);
    assert_eq!(start_show(&mut state, 100), STATUS_OK);
    let st = show_status(&state, 1_100).ok().unwrap();
    assert_eq!(st.elapsed_ms, Some(1_000));
    assert!(st.is_playing);
}

#[test]
fn current_frame_is_last_started() {
    let s = show();
    assert_eq!(current_frame(&s, 999), Some(0));
    assert_eq!(current_frame(&s, 1000), Some(1));
    assert_eq!(current_frame(&s, 100_000), Some(3));
    let late = SerializableShow { name: "x".to_string(), frames: vec![frame(50, vec![], vec![])] };
    assert_eq!(current_frame(&late, 10), None);
}

#[test]
fn light_and_laser_instructions() {
    let s = show();
    let lights = extract_device_instructions(&s, "light-1", 0, 5000);
    let got: Vec<(u64, bool)> = lights
        .iter()
        .map(|i| match i.command {
            DeviceCommand::Light { enabled } => (i.timestamp, enabled),
            _ => panic!("not a light"),
        })
        .collect();
    assert_eq!(got, vec![(0, true), (4999, false)]);
    let second = extract_device_instructions(&s, "light-2", 0, 5000);
    assert_eq!(second.len(), 1);
    let lasers = extract_device_instructions(&s, "laser-1", 1, 5000);
    assert_eq!(lasers.len(), 1);
    assert!(matches!(lasers[0].command, DeviceCommand::Rgb { r: 9, g: 8, b: 7 }));
    assert!(extract_device_instructions(&s, "light", 0, 5000).is_empty());
    assert!(extract_device_instructions(&s, "fog-1", 0, 5000).is_empty());
    // a non-numeric index means device 1
    assert_eq!(extract_device_instructions(&s, "light-x", 0, 5000).len(), 2);
}

#[test]
fn device_windows_are_five_seconds() {
    let none: Option<ShowState> = None;
    assert!(matches!(device_instructions(&none, "light-1", 0), Err(404)));
    let mut state = None;
    upload_show(&mut state, show(), 0);
    let got = device_instructions(&state, "light-1", 1).ok().unwrap();
    assert_eq!(got.len(), 2);
    assert_eq!(got[0].timestamp, 4999);
    assert_eq!(got[1].timestamp, 5000);
}

fn release() -> GitHubRelease {
    GitHubRelease {
        tag_name: "esp32-v0.2.0".to_string(),
        name: "Release".to_string(),
        assets: vec![
            GitHubAsset {
                name: "firmware.bin".to_string(),
                browser_download_url: "https://github.example/fw".to_string(),
                size: 1234,
            },
        ],
    }
}

#[test]
fn latest_firmware_is_proxied() {
    let info = get_latest_firmware(Some(200), Some(release()), "http://srv:3000").ok().unwrap();
    assert_eq!(info.version, "esp32-v0.2.0");
    assert_eq!(info.assets.len(), 1);
    assert_eq!(
        info.assets[0].download_url,
        "http://srv:3000/firmware/download/esp32-v0.2.0?asset=firmware.bin"
    );
    assert!(matches!(get_latest_firmware(None, None, "s"), Err(e) if e == STATUS_INTERNAL_ERROR));
    assert!(matches!(get_latest_firmware(Some(404), None, "s"), Err(e) if e == STATUS_BAD_GATEWAY));
    assert!(matches!(get_latest_firmware(Some(200), None, "s"), Err(500)));
}

#[test]
fn firmware_download_targets() {
    let target = download_firmware(Some(200), Some(release()), "firmware.bin").ok().unwrap();
    assert_eq!(target.url, "https://github.example/fw");
    assert_eq!(target.size, 1234);
    assert!(matches!(download_firmware(Some(200), Some(release()), "other.bin"), Err(404)));
    assert!(matches!(download_firmware(Some(500), Some(release()), "firmware.bin"), Err(404)));
    assert!(matches!(download_firmware(None, None, "firmware.bin"), Err(500)));
    assert_eq!(content_disposition("fw.bin"), "attachment; filename=\"fw.bin\"");
    assert!(proxy_status(Some(200)).is_ok());
}
