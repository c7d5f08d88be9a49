//! The show server's logic: the uploaded show and its playback clock, the
//! per-device instruction windows, and the firmware release metadata it
//! passes on to devices.

use vstd::prelude::*;
use crate::show::{DeviceCommand, Frame, Laser, SerializableShow, TimedInstruction};
use crate::text::{bytes_equal, chars_of, parse_usize_chars, parse_usize_spec, tail_chars};

verus! {

/// The show held by the server.
pub struct ShowState {
    pub show: SerializableShow,
    /// When the show was uploaded (ms since the epoch).
    pub upload_time: u64,
    /// When playback started (ms since the epoch).
    pub start_time: Option<u64>,
    pub is_playing: bool,
}

/// HTTP 200.
pub const STATUS_OK: u16 = 200;

/// HTTP 404.
pub const STATUS_NOT_FOUND: u16 = 404;

/// HTTP 502.
pub const STATUS_BAD_GATEWAY: u16 = 502;

/// Length of the instruction window a device is served, in milliseconds.
pub const WINDOW_MS: u64 = 5000;

/// A new show replaces the old one; it is not playing yet.
pub fn upload_show(state: &mut Option<ShowState>, show: SerializableShow, upload_time: u64) -> (r:
    u16)
    ensures
        r == STATUS_OK,
        *final(state) == Some(
            ShowState { show, upload_time, start_time: None, is_playing: false },
        ),
{
    *state = Some(ShowState { show, upload_time, start_time: None, is_playing: false });
    STATUS_OK
}

/// Playback of the held show starts at `now`; without a show, 404.
pub fn start_show(state: &mut Option<ShowState>, now: u64) -> (r: u16)
    ensures
        match *old(state) {
            None => r == STATUS_NOT_FOUND && (*final(state)) is None,
            Some(s) => r == STATUS_OK && *final(state) == Some(
                ShowState { start_time: Some(now), is_playing: true, ..s },
            ),
        },
{
    match state {
        Some(s) => {
            s.start_time = Some(now);
            s.is_playing = true;
            STATUS_OK
        },
        None => STATUS_NOT_FOUND,
    }
}

/// What the server reports about the held show.
pub struct ShowStatus {
    pub show_name: String,
    pub upload_time: u64,
    pub start_time: Option<u64>,
    pub elapsed_ms: Option<u64>,
    pub is_playing: bool,
    pub frame_count: usize,
}

/// The status of the held show at `now`; without a show, 404.
pub fn show_status(state: &Option<ShowState>, now: u64) -> (r: Result<ShowStatus, u16>)
    requires
        state matches Some(s) && s.start_time matches Some(t) ==> t <= now,
    ensures
        match state {
            None => r == Err::<ShowStatus, u16>(STATUS_NOT_FOUND),
            Some(s) => r is Ok && ({
                let st = r->Ok_0;
                &&& st.show_name@ == s.show.name@
                &&& st.upload_time == s.upload_time
                &&& st.start_time == s.start_time
                &&& st.elapsed_ms == match s.start_time {
                    Some(t) => Some((now - t) as u64),
                    None => None::<u64>,
                }
                &&& st.is_playing == s.is_playing
                &&& st.frame_count == s.show.frames@.len()
            }),
        },
{
    match state {
        None => Err(STATUS_NOT_FOUND),
        Some(s) => {
            let elapsed = match s.start_time {
                Some(t) => Some(now - t),
                None => None,
            };
            Ok(
                ShowStatus {
                    show_name: s.show.name.clone(),
                    upload_time: s.upload_time,
                    start_time: s.start_time,
                    elapsed_ms: elapsed,
                    is_playing: s.is_playing,
                    frame_count: s.show.frames.len(),
                },
            )
        },
    }
}

/// The last frame due at `elapsed_ms`, if any frame is.
pub fn current_frame(show: &SerializableShow, elapsed_ms: u64) -> (r: Option<usize>)
    ensures
        match r {
            None => forall|i: int|
                0 <= i < show.frames@.len() ==> (#[trigger] show.frames@[i]).timestamp
                    > elapsed_ms,
            Some(i) => i < show.frames@.len() && show.frames@[i as int].timestamp <= elapsed_ms
                && forall|k: int|
                i < k < show.frames@.len() ==> (#[trigger] show.frames@[k]).timestamp > elapsed_ms,
        },
{
    let mut i: usize = show.frames.len();
    while i > 0
        invariant
            i <= show.frames@.len(),
            forall|k: int|
                i <= k < show.frames@.len() ==> (#[trigger] show.frames@[k]).timestamp > elapsed_ms,
        decreases i,
    {
        if show.frames[i - 1].timestamp <= elapsed_ms {
            return Some(i - 1);
        }
        i = i - 1;
    }
    None
}

/// The position of the first `-` in a device id, if there is one.
pub open spec fn dash_index(id: Seq<char>) -> Option<int> {
    if exists|i: int| 0 <= i < id.len() && id[i] == '-' {
        Some(choose|i: int| 0 <= i < id.len() && id[i] == '-' && forall|k: int| 0 <= k < i ==> id[k] != '-')
    } else {
        None
    }
}

pub open spec fn light_word() -> Seq<char> {
    seq!['l', 'i', 'g', 'h', 't']
}

pub open spec fn laser_word() -> Seq<char> {
    seq!['l', 'a', 's', 'e', 'r']
}

/// A device's index: the number after the dash, or 1 when it is no number.
pub open spec fn device_index(rest: Seq<char>) -> usize {
    match parse_usize_spec(rest) {
        Some(n) => n,
        None => 1,
    }
}

/// The command a frame holds for device `index` (counting from 1) of kind
/// `kind`: a light's switch, or a laser's colour.
pub open spec fn frame_command(f: Frame, kind: Seq<char>, index: usize) -> Option<DeviceCommand> {
    if kind == light_word() {
        if 0 < index <= f.lights@.len() {
            match f.lights@[index - 1] {
                Some(enabled) => Some(DeviceCommand::Light { enabled }),
                None => None,
            }
        } else {
            None
        }
    } else if kind == laser_word() {
        if 0 < index <= f.lasers@.len() {
            match f.lasers@[index - 1] {
                Some(l) => Some(DeviceCommand::Rgb { r: l.hex@[0], g: l.hex@[1], b: l.hex@[2] }),
                None => None,
            }
        } else {
            None
        }
    } else {
        None
    }
}

/// The timestamps and commands of the frames in `[from, to)` that hold a
/// command for the device, in frame order.
pub open spec fn extracted(
    frames: Seq<Frame>,
    kind: Seq<char>,
    index: usize,
    from: u64,
    to: u64,
) -> Seq<(u64, DeviceCommand)>
    decreases frames.len(),
{
    if frames.len() == 0 {
        Seq::empty()
    } else {
        let prev = extracted(frames.drop_last(), kind, index, from, to);
        let f = frames.last();
        if from <= f.timestamp && f.timestamp < to && frame_command(f, kind, index) is Some {
            prev.push((f.timestamp, frame_command(f, kind, index)->0))
        } else {
            prev
        }
    }
}

/// Whether frame `f` lies in `[from, to)` and sets laser `n` (counting from
/// 1 at the start of the frame's list).
pub open spec fn sets_laser(f: Frame, n: usize, from: u64, to: u64) -> bool {
    from <= f.timestamp < to && 1 <= n <= f.lasers@.len() && f.lasers@[n - 1] is Some
}

/// Whether frame `f` lies in `[from, to)` and sets light `n` (counting from
/// 1 at the start of the frame's list).
pub open spec fn sets_light(f: Frame, n: usize, from: u64, to: u64) -> bool {
    from <= f.timestamp < to && 1 <= n <= f.lights@.len() && f.lights@[n - 1] is Some
}

/// Laser `n`'s entry: the frame's time and the colour of its `n`-th laser.
pub open spec fn laser_entry(f: Frame, n: usize) -> (u64, DeviceCommand) {
    let l = f.lasers@[n - 1]->0;
    (f.timestamp, DeviceCommand::Rgb { r: l.hex@[0], g: l.hex@[1], b: l.hex@[2] })
}

/// Light `n`'s entry: the frame's time and the switch of its `n`-th light.
pub open spec fn light_entry(f: Frame, n: usize) -> (u64, DeviceCommand) {
    (f.timestamp, DeviceCommand::Light { enabled: f.lights@[n - 1]->0 })
}

/// What a device is served, read from the frames' fields: laser `n` gets,
/// for each frame of the window that sets its `n`-th laser (counting from
/// the start of the frame's list), in frame order, that laser's colour
/// `hex[0..3]` at the frame's time; light `n` likewise gets the switch of
/// the frame's `n`-th light.
pub proof fn lemma_device_gets_its_own_entries(frames: Seq<Frame>, n: usize, from: u64, to: u64)
    ensures
        extracted(frames, laser_word(), n, from, to) == frames.filter(
            |f: Frame| sets_laser(f, n, from, to),
        ).map_values(|f: Frame| laser_entry(f, n)),
        extracted(frames, light_word(), n, from, to) == frames.filter(
            |f: Frame| sets_light(f, n, from, to),
        ).map_values(|f: Frame| light_entry(f, n)),
    decreases frames.len(),
{
    let pa = |f: Frame| sets_laser(f, n, from, to);
    let pi = |f: Frame| sets_light(f, n, from, to);
    assert(light_word()[1] != laser_word()[1]);
    if frames.len() == 0 {
        assert(frames.filter(pa) =~= Seq::<Frame>::empty()) by {
            reveal(Seq::filter);
        }
        assert(frames.filter(pi) =~= Seq::<Frame>::empty()) by {
            reveal(Seq::filter);
        }
    } else {
        let rest = frames.drop_last();
        let f = frames.last();
        lemma_device_gets_its_own_entries(rest, n, from, to);
        assert(rest.push(f) =~= frames);
        rest.lemma_filter_push(f, pa);
        rest.lemma_filter_push(f, pi);
        assert(rest.filter(pa).push(f).map_values(|g: Frame| laser_entry(g, n)) =~= rest.filter(
            pa,
        ).map_values(|g: Frame| laser_entry(g, n)).push(laser_entry(f, n)));
        assert(rest.filter(pi).push(f).map_values(|g: Frame| light_entry(g, n)) =~= rest.filter(
            pi,
        ).map_values(|g: Frame| light_entry(g, n)).push(light_entry(f, n)));
    }
}

/// The instructions of device `device_id` (`light-N` or `laser-N`) for the
/// window `[from, to)` of the show. An id without a dash gets none.
pub fn extract_device_instructions(
    show: &SerializableShow,
    device_id: &str,
    from: u64,
    to: u64,
) -> (r: Vec<TimedInstruction>)
    ensures
        match dash_index(device_id@) {
            None => r@.len() == 0,
            Some(d) => {
                let e = extracted(
                    show.frames@,
                    device_id@.take(d),
                    device_index(device_id@.skip(d + 1)),
                    from,
                    to,
                );
                &&& r@.len() == e.len()
                &&& forall|i: int|
                    0 <= i < e.len() ==> (#[trigger] r@[i]).timestamp == e[i].0 && r@[i].command
                        == e[i].1
            },
        },
{
    let mut instructions: Vec<TimedInstruction> = Vec::new();
    let id = chars_of(device_id);
    let mut d: usize = 0;
    while d < id.len() && id[d] != '-'
        invariant
            d <= id@.len(),
            forall|k: int| 0 <= k < d ==> id@[k] != '-',
        decreases id@.len() - d,
    {
        d = d + 1;
    }
    if d >= id.len() {
        assert(dash_index(device_id@) is None);
        return instructions;
    }
    proof {
        let j = choose|j: int| 0 <= j < id@.len() && id@[j] == '-' && forall|k: int| 0 <= k < j ==> id@[k] != '-';
        if j < d {
        } else if j > d {
            assert(id@[d as int] == '-');
        }
        assert(dash_index(device_id@) == Some(d as int));
    }
    let mut kind: Vec<char> = Vec::new();
    let mut k: usize = 0;
    while k < d
        invariant
            k <= d,
            d < id@.len(),
            kind@ == id@.take(k as int),
        decreases d - k,
    {
        kind.push(id[k]);
        k = k + 1;
        assert(kind@ =~= id@.take(k as int));
    }
    let rest = tail_chars(&id, d + 1);
    assert(rest@ =~= id@.skip(d + 1));
    let index: usize = match parse_usize_chars(&rest) {
        Some(n) => n,
        None => 1,
    };
    let light: Vec<char> = vec!['l', 'i', 'g', 'h', 't'];
    let laser: Vec<char> = vec!['l', 'a', 's', 'e', 'r'];
    assert(light@ =~= light_word());
    assert(laser@ =~= laser_word());
    let is_light = chars_equal(&kind, &light);
    let is_laser = chars_equal(&kind, &laser);
    let ghost kind_s = kind@;
    let mut i: usize = 0;
    while i < show.frames.len()
        invariant
            i <= show.frames@.len(),
            is_light == (kind_s == light_word()),
            is_laser == (kind_s == laser_word()),
            ({
                let e = extracted(show.frames@.take(i as int), kind_s, index, from, to);
                &&& instructions@.len() == e.len()
                &&& forall|j: int|
                    0 <= j < e.len() ==> (#[trigger] instructions@[j]).timestamp == e[j].0
                        && instructions@[j].command == e[j].1
            }),
        decreases show.frames@.len() - i,
    {
        let frame = &show.frames[i];
        let ghost t = show.frames@.take(i + 1);
        assert(t.drop_last() =~= show.frames@.take(i as int));
        assert(t.last() == *frame);
        let command: Option<DeviceCommand> = if is_light {
            if index > 0 && index <= frame.lights.len() {
                match frame.lights[index - 1] {
                    Some(enabled) => Some(DeviceCommand::Light { enabled }),
                    None => None,
                }
            } else {
                None
            }
        } else if is_laser {
            if index > 0 && index <= frame.lasers.len() {
                match &frame.lasers[index - 1] {
                    Some(l) => Some(DeviceCommand::Rgb { r: l.hex[0], g: l.hex[1], b: l.hex[2] }),
                    None => None,
                }
            } else {
                None
            }
        } else {
            None
        };
        assert(command == frame_command(*frame, kind_s, index));
        if frame.timestamp >= from && frame.timestamp < to {
            match command {
                Some(c) => {
                    let ghost before = instructions@;
                    instructions.push(TimedInstruction { timestamp: frame.timestamp, command: c });
                    proof {
                        let e = extracted(show.frames@.take(i + 1), kind_s, index, from, to);
                        assert forall|j: int| 0 <= j < e.len() implies (#[trigger] instructions@[j]).timestamp == e[j].0
                            && instructions@[j].command == e[j].1 by {
                            if j < before.len() {
                                assert(instructions@[j] == before[j]);
                            }
                        }
                    }
                },
                None => {},
            }
        }
        i = i + 1;
    }
    assert(show.frames@.take(i as int) =~= show.frames@);
    instructions
}

fn chars_equal(a: &Vec<char>, b: &Vec<char>) -> (r: bool)
    ensures
        r == (a@ == b@),
{
    if a.len() != b.len() {
        return false;
    }
    let mut i: usize = 0;
    while i < a.len()
        invariant
            a@.len() == b@.len(),
            i <= a@.len(),
            forall|k: int| 0 <= k < i ==> a@[k] == b@[k],
        decreases a@.len() - i,
    {
        if a[i] != b[i] {
            return false;
        }
        i = i + 1;
    }
    assert(a@ =~= b@);
    true
}

/// The instructions served to a device for the 5-second window starting at
/// `from`; without a show, 404.
pub fn device_instructions(state: &Option<ShowState>, device_id: &str, from: u64) -> (r: Result<
    Vec<TimedInstruction>,
    u16,
>)
    requires
        from + WINDOW_MS <= u64::MAX,
    ensures
        state is None ==> r == Err::<Vec<TimedInstruction>, u16>(STATUS_NOT_FOUND),
        state is Some ==> r is Ok && match dash_index(device_id@) {
            None => r->Ok_0@.len() == 0,
            Some(d) => {
                let e = extracted(
                    state->0.show.frames@,
                    device_id@.take(d),
                    device_index(device_id@.skip(d + 1)),
                    from,
                    (from + WINDOW_MS) as u64,
                );
                &&& r->Ok_0@.len() == e.len()
                &&& forall|i: int|
                    0 <= i < e.len() ==> (#[trigger] r->Ok_0@[i]).timestamp == e[i].0
                        && r->Ok_0@[i].command == e[i].1
            },
        },
{
    match state {
        None => Err(STATUS_NOT_FOUND),
        Some(s) => Ok(extract_device_instructions(&s.show, device_id, from, from + WINDOW_MS)),
    }
}

/// HTTP 500.
pub const STATUS_INTERNAL_ERROR: u16 = 500;

/// A release as GitHub describes it.
pub struct GitHubRelease {
    pub tag_name: String,
    pub name: String,
    pub assets: Vec<GitHubAsset>,
}

/// A file of a GitHub release.
pub struct GitHubAsset {
    pub name: String,
    pub browser_download_url: String,
    pub size: u64,
}

/// A release as the server describes it to devices.
pub struct FirmwareInfo {
    pub version: String,
    pub name: String,
    pub assets: Vec<FirmwareAsset>,
}

/// A file of a release, to be fetched through the server.
pub struct FirmwareAsset {
    pub name: String,
    pub size: u64,
    pub download_url: String,
}

/// Whether an HTTP status reports success.
pub open spec fn is_success(status: u16) -> bool {
    200 <= status <= 299
}

/// The server's own download address of asset `asset` of release `tag`.
pub open spec fn proxied_url(server_url: Seq<char>, tag: Seq<char>, asset: Seq<char>) -> Seq<char> {
    server_url + "/firmware/download/"@ + tag + "?asset="@ + asset
}

fn proxied_download_url(server_url: &str, tag: &String, asset: &String) -> (r: String)
    ensures
        r@ == proxied_url(server_url@, tag@, asset@),
{
    let mut url = String::from_str(server_url);
    url.append("/firmware/download/");
    url.append(tag.as_str());
    url.append("?asset=");
    url.append(asset.as_str());
    url
}

/// Describes GitHub's latest release to devices, with every asset fetched
/// through this server. A failed request or an unreadable answer is 500,
/// an unsuccessful status 502.
pub fn get_latest_firmware(status: Option<u16>, release: Option<GitHubRelease>, server_url: &str) -> (r:
    Result<FirmwareInfo, u16>)
    ensures
        status is None ==> r == Err::<FirmwareInfo, u16>(STATUS_INTERNAL_ERROR),
        status matches Some(st) && !is_success(st) ==> r == Err::<FirmwareInfo, u16>(
            STATUS_BAD_GATEWAY,
        ),
        status matches Some(st) && is_success(st) && release is None ==> r == Err::<
            FirmwareInfo,
            u16,
        >(STATUS_INTERNAL_ERROR),
        status matches Some(st) && is_success(st) && release is Some ==> r is Ok && ({
            let rel = release->0;
            let info = r->Ok_0;
            &&& info.version@ == rel.tag_name@
            &&& info.name@ == rel.name@
            &&& info.assets@.len() == rel.assets@.len()
            &&& forall|i: int|
                0 <= i < rel.assets@.len() ==> {
                    &&& (#[trigger] info.assets@[i]).name@ == rel.assets@[i].name@
                    &&& info.assets@[i].size == rel.assets@[i].size
                    &&& info.assets@[i].download_url@ == proxied_url(
                        server_url@,
                        rel.tag_name@,
                        rel.assets@[i].name@,
                    )
                }
        }),
{
    let st = match status {
        None => return Err(STATUS_INTERNAL_ERROR),
        Some(st) => st,
    };
    if st < 200 || st > 299 {
        return Err(STATUS_BAD_GATEWAY);
    }
    let release = match release {
        None => return Err(STATUS_INTERNAL_ERROR),
        Some(rel) => rel,
    };
    let mut assets: Vec<FirmwareAsset> = Vec::new();
    let mut i: usize = 0;
    while i < release.assets.len()
        invariant
            i <= release.assets@.len(),
            assets@.len() == i,
            forall|k: int|
                0 <= k < i ==> {
                    &&& (#[trigger] assets@[k]).name@ == release.assets@[k].name@
                    &&& assets@[k].size == release.assets@[k].size
                    &&& assets@[k].download_url@ == proxied_url(
                        server_url@,
                        release.tag_name@,
                        release.assets@[k].name@,
                    )
                },
        decreases release.assets@.len() - i,
    {
        let a = &release.assets[i];
        let url = proxied_download_url(server_url, &release.tag_name, &a.name);
        assets.push(FirmwareAsset { name: a.name.clone(), size: a.size, download_url: url });
        i = i + 1;
    }
    Ok(FirmwareInfo { version: release.tag_name.clone(), name: release.name, assets })
}

/// The asset that a device asked to download.
pub struct DownloadTarget {
    pub name: String,
    pub url: String,
    pub size: u64,
}

/// Finds asset `asset` in the release GitHub returned for the requested
/// version. A failed request or unreadable answer is 500; an unsuccessful
/// status or a missing asset is 404.
pub fn download_firmware(status: Option<u16>, release: Option<GitHubRelease>, asset: &str) -> (r:
    Result<DownloadTarget, u16>)
    ensures
        status is None ==> r == Err::<DownloadTarget, u16>(STATUS_INTERNAL_ERROR),
        status matches Some(st) && !is_success(st) ==> r == Err::<DownloadTarget, u16>(
            STATUS_NOT_FOUND,
        ),
        status matches Some(st) && is_success(st) && release is None ==> r == Err::<
            DownloadTarget,
            u16,
        >(STATUS_INTERNAL_ERROR),
        status matches Some(st) && is_success(st) && release is Some ==> match r {
            Ok(t) => exists|i: int|
                0 <= i < release->0.assets@.len() && (#[trigger] release->0.assets@[i]).name@
                    == asset@ && (forall|k: int|
                    0 <= k < i ==> (#[trigger] release->0.assets@[k]).name@ != asset@) && t.name@
                    == asset@ && t.url@ == release->0.assets@[i].browser_download_url@ && t.size
                    == release->0.assets@[i].size,
            Err(e) => e == STATUS_NOT_FOUND && forall|k: int|
                0 <= k < release->0.assets@.len() ==> (#[trigger] release->0.assets@[k]).name@
                    != asset@,
        },
{
    let st = match status {
        None => return Err(STATUS_INTERNAL_ERROR),
        Some(st) => st,
    };
    if st < 200 || st > 299 {
        return Err(STATUS_NOT_FOUND);
    }
    let ghost given = release;
    let rel = match release {
        None => return Err(STATUS_INTERNAL_ERROR),
        Some(rel) => rel,
    };
    let wanted = asset.to_owned();
    let mut i: usize = 0;
    while i < rel.assets.len()
        invariant
            status == Some(st),
            200 <= st <= 299,
            given == release,
            given == Some(rel),
            i <= rel.assets@.len(),
            wanted@ == asset@,
            forall|k: int| 0 <= k < i ==> (#[trigger] rel.assets@[k]).name@ != asset@,
        decreases rel.assets@.len() - i,
    {
        let a = &rel.assets[i];
        if a.name == wanted {
            assert(rel.assets@[i as int].name@ == asset@);
            assert(release->0.assets@[i as int] == rel.assets@[i as int]);
            return Ok(
                DownloadTarget {
                    name: a.name.clone(),
                    url: a.browser_download_url.clone(),
                    size: a.size,
                },
            );
        }
        i = i + 1;
    }
    Err(STATUS_NOT_FOUND)
}

/// The status to answer a proxied download with: GitHub's own when it is a
/// success (206 included); 500 when the request failed; else 502.
pub fn proxy_status(github_status: Option<u16>) -> (r: Result<u16, u16>)
    ensures
        github_status is None ==> r == Err::<u16, u16>(STATUS_INTERNAL_ERROR),
        github_status matches Some(st) && (is_success(st) || st == 206) ==> r == Ok::<u16, u16>(
            github_status->0,
        ),
        github_status matches Some(st) && !(is_success(st) || st == 206) ==> r == Err::<u16, u16>(
            STATUS_BAD_GATEWAY,
        ),
{
    match github_status {
        None => Err(STATUS_INTERNAL_ERROR),
        Some(st) => if (st >= 200 && st <= 299) || st == 206 {
            Ok(st)
        } else {
            Err(STATUS_BAD_GATEWAY)
        },
    }
}

/// The `Content-Disposition` value that names a downloaded file.
pub fn content_disposition(name: &str) -> (r: String)
    ensures
        r@ == "attachment; filename=\""@ + name@ + "\""@,
{
    let mut v = String::from_str("attachment; filename=\"");
    v.append(name);
    v.append("\"");
    v
}

} // verus!
