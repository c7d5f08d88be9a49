//! Wall-clock time from an NTP server, and the show clock derived from it.

use vstd::prelude::*;

verus! {

/// Size of an NTP packet in bytes.
pub const NTP_PACKET_SIZE: usize = 48;

/// Seconds between 1900 (the NTP epoch) and 1970 (the Unix epoch).
pub const NTP_EPOCH_OFFSET: u64 = 2_208_988_800;

/// Why a time synchronisation failed.
#[derive(Debug, Clone, Copy, PartialEq, Eq, Structural)]
pub enum NtpError {
    BindFailed,
    DnsResolveFailed,
    SendFailed,
    ReceiveFailed,
    Timeout,
    InvalidResponse,
    InvalidTimestamp,
}

/// An NTP client for one server.
pub struct NtpClient {
    pub server: &'static str,
}

/// The big-endian number of four bytes.
pub open spec fn be_u32(b0: u8, b1: u8, b2: u8, b3: u8) -> nat {
    b0 as nat * 16777216 + b1 as nat * 65536 + b2 as nat * 256 + b3 as nat
}

impl NtpClient {
    /// A client for `pool.ntp.org`.
    pub fn new() -> (c: Self)
        ensures
            c.server@ == "pool.ntp.org"@,
    {
        NtpClient { server: "pool.ntp.org" }
    }

    /// A client for `server`.
    pub fn with_server(server: &'static str) -> (c: Self)
        ensures
            c.server == server,
    {
        NtpClient { server }
    }

    /// A client for `pool.ntp.org`.
    pub fn default() -> (c: Self)
        ensures
            c.server@ == "pool.ntp.org"@,
    {
        Self::new()
    }

    /// The whole seconds of an NTP timestamp: the big-endian number in its
    /// first four bytes.
    pub fn parse_ntp_timestamp(bytes: &[u8]) -> (r: u64)
        requires
            bytes@.len() >= 8,
        ensures
            r == be_u32(bytes@[0], bytes@[1], bytes@[2], bytes@[3]),
    {
        (bytes[0] as u64) * 16777216 + (bytes[1] as u64) * 65536 + (bytes[2] as u64) * 256
            + bytes[3] as u64
    }

    /// The request packet: version 4, client mode, everything else zero.
    pub fn request_packet() -> (p: [u8; 48])
        ensures
            p@[0] == 0x23,
            forall|i: int| 1 <= i < 48 ==> p@[i] == 0,
    {
        let mut p: [u8; 48] = [0u8; 48];
        p[0] = 0x23;
        p
    }

    /// The Unix time in milliseconds that a server's answer gives: its
    /// transmit time plus half the round trip. `received` is how the
    /// exchange went: the error of the network step that failed, or the
    /// answer's length and bytes.
    pub fn sync_time(&self, received: Result<(usize, [u8; 48]), NtpError>, rtt_ms: u64) -> (r:
        Result<u64, NtpError>)
        ensures
            match received {
                Err(e) => r == Err::<u64, NtpError>(e),
                Ok((len, packet)) => if len != 48 {
                    r == Err::<u64, NtpError>(NtpError::InvalidResponse)
                } else {
                    let tx = be_u32(packet@[40], packet@[41], packet@[42], packet@[43]);
                    if tx < NTP_EPOCH_OFFSET {
                        r == Err::<u64, NtpError>(NtpError::InvalidTimestamp)
                    } else {
                        r == Ok::<u64, NtpError>(
                            ((tx - NTP_EPOCH_OFFSET) * 1000 + rtt_ms / 2) as u64,
                        )
                    }
                },
            },
    {
        let (len, packet) = match received {
            Err(e) => return Err(e),
            Ok(v) => v,
        };
        if len != NTP_PACKET_SIZE {
            return Err(NtpError::InvalidResponse);
        }
        let tail = vstd::slice::slice_subrange(packet.as_slice(), 40, 48);
        let tx = Self::parse_ntp_timestamp(tail);
        if tx < NTP_EPOCH_OFFSET {
            return Err(NtpError::InvalidTimestamp);
        }
        let unix = tx - NTP_EPOCH_OFFSET;
        Ok(unix * 1000 + rtt_ms / 2)
    }
}

/// Wall-clock time kept from the last synchronisation and a monotonic
/// clock (milliseconds).
pub struct TimeSync {
    pub ntp_client: NtpClient,
    pub last_sync_ms: u64,
    pub sync_offset_ms: i64,
    /// Monotonic time of the last synchronisation.
    pub last_sync_instant: Option<u64>,
}

impl TimeSync {
    /// Not synchronised yet.
    pub fn new() -> (t: Self)
        ensures
            t.ntp_client.server@ == "pool.ntp.org"@,
            t.last_sync_ms == 0,
            t.sync_offset_ms == 0,
            t.last_sync_instant is None,
    {
        TimeSync {
            ntp_client: NtpClient::new(),
            last_sync_ms: 0,
            sync_offset_ms: 0,
            last_sync_instant: None,
        }
    }

    /// Not synchronised yet.
    pub fn default() -> (t: Self)
        ensures
            t.last_sync_ms == 0,
            t.sync_offset_ms == 0,
            t.last_sync_instant is None,
    {
        Self::new()
    }

    /// The first synchronisation returned `ntp_time_ms` at monotonic time
    /// `now`; a failure leaves everything as it was.
    pub fn initial_sync(&mut self, result: Result<u64, NtpError>, now: u64) -> (r: Result<
        (),
        NtpError,
    >)
        ensures
            match result {
                Err(e) => r == Err::<(), NtpError>(e) && final(self).last_sync_ms == old(self).last_sync_ms && final(self).sync_offset_ms == old(self).sync_offset_ms && final(self).last_sync_instant == old(self).last_sync_instant,
                Ok(t) => r is Ok && final(self).last_sync_ms == t && final(self).last_sync_instant
                    == Some(now) && final(self).sync_offset_ms == t as i64,
            },
            final(self).ntp_client == old(self).ntp_client,
    {
        match result {
            Err(e) => Err(e),
            Ok(t) => {
                self.last_sync_ms = t;
                self.last_sync_instant = Some(now);
                self.sync_offset_ms = t as i64;
                Ok(())
            },
        }
    }

    /// A later synchronisation returned `result` at monotonic time `now`;
    /// a failure leaves everything as it was.
    pub fn periodic_sync_task(&mut self, result: Result<u64, NtpError>, now: u64)
        ensures
            match result {
                Err(_) => final(self).last_sync_ms == old(self).last_sync_ms && final(self).last_sync_instant == old(self).last_sync_instant,
                Ok(t) => final(self).last_sync_ms == t && final(self).last_sync_instant == Some(now),
            },
            final(self).sync_offset_ms == old(self).sync_offset_ms,
            final(self).ntp_client == old(self).ntp_client,
    {
        if let Ok(t) = result {
            self.last_sync_ms = t;
            self.last_sync_instant = Some(now);
        }
    }

    /// The wall-clock time at monotonic time `now`, 0 before the first
    /// synchronisation.
    pub fn current_time_ms(&self, now: u64) -> (r: u64)
        requires
            self.last_sync_instant matches Some(t) ==> t <= now && self.last_sync_ms + (now - t)
                <= u64::MAX,
        ensures
            r == match self.last_sync_instant {
                Some(t) => (self.last_sync_ms + (now - t)) as u64,
                None => 0,
            },
    {
        match self.last_sync_instant {
            Some(t) => self.last_sync_ms + (now - t),
            None => 0,
        }
    }

    /// Milliseconds since the show started at wall-clock `show_start_ms`,
    /// 0 before it.
    pub fn show_time_ms(&self, show_start_ms: u64, now: u64) -> (r: u64)
        requires
            self.last_sync_instant matches Some(t) ==> t <= now && self.last_sync_ms + (now - t)
                <= u64::MAX,
        ensures
            ({
                let current = match self.last_sync_instant {
                    Some(t) => self.last_sync_ms + (now - t),
                    None => 0,
                };
                r == if current >= show_start_ms {
                    current - show_start_ms
                } else {
                    0
                }
            }),
    {
        let current = self.current_time_ms(now);
        if current >= show_start_ms {
            current - show_start_ms
        } else {
            0
        }
    }
}

} // verus!
