//! The retry policy of the station's Wi-Fi bring-up: connecting and waiting
//! for an address are each tried five times, two seconds apart.

use vstd::prelude::*;

verus! {

/// SSID the station joins.
pub const WIFI_SSID: &'static str = "YourSSID";

/// Password of that network.
pub const WIFI_PASSWORD: &'static str = "YourPassword";

/// Attempts made before giving up.
pub const WIFI_CONNECT_RETRY_COUNT: u32 = 5;

/// Pause between attempts, in milliseconds.
pub const WIFI_CONNECT_RETRY_DELAY_MS: u64 = 2000;

/// Why the bring-up gave up.
#[derive(Debug, Clone, Copy, PartialEq, Eq, Structural)]
pub enum WifiError {
    /// Every connection attempt failed.
    ConnectFailed,
    /// No address was assigned in any attempt.
    NoIpAddress,
}

impl WifiError {
    /// The message reported for this error.
    pub fn message(&self) -> (r: &'static str)
        ensures
            *self == WifiError::ConnectFailed ==> r@ == "Failed to connect to WiFi after retries"@,
            *self == WifiError::NoIpAddress ==> r@ == "No IP address assigned after retries"@,
    {
        match self {
            WifiError::ConnectFailed => "Failed to connect to WiFi after retries",
            WifiError::NoIpAddress => "No IP address assigned after retries",
        }
    }
}

/// What follows one attempt.
#[derive(Debug, Clone, Copy, PartialEq, Eq, Structural)]
pub enum RetryStep {
    /// The attempt succeeded.
    Done,
    /// Try again after this many milliseconds.
    RetryAfter(u64),
    /// Give up with this error.
    GiveUp(WifiError),
}

/// The step after attempt `attempt` (counted from 1) of an operation that
/// gives up with `error`.
pub open spec fn retry_spec(attempt: u32, succeeded: bool, error: WifiError) -> RetryStep {
    if succeeded {
        RetryStep::Done
    } else if attempt < WIFI_CONNECT_RETRY_COUNT {
        RetryStep::RetryAfter(WIFI_CONNECT_RETRY_DELAY_MS)
    } else {
        RetryStep::GiveUp(error)
    }
}

fn retry_step(attempt: u32, succeeded: bool, error: WifiError) -> (r: RetryStep)
    ensures
        r == retry_spec(attempt, succeeded, error),
{
    if succeeded {
        RetryStep::Done
    } else if attempt < WIFI_CONNECT_RETRY_COUNT {
        RetryStep::RetryAfter(WIFI_CONNECT_RETRY_DELAY_MS)
    } else {
        RetryStep::GiveUp(error)
    }
}

/// After connection attempt `attempt` (1 to 5): done if it connected,
/// otherwise retry in two seconds, or give up after the fifth.
pub fn connect_with_retry(attempt: u32, connected: bool) -> (r: RetryStep)
    requires
        1 <= attempt <= WIFI_CONNECT_RETRY_COUNT,
    ensures
        r == retry_spec(attempt, connected, WifiError::ConnectFailed),
{
    retry_step(attempt, connected, WifiError::ConnectFailed)
}

/// After check `attempt` (1 to 5) for an address: done if one is assigned,
/// otherwise check again in two seconds, or give up after the fifth.
pub fn wait_for_ip(attempt: u32, has_ip: bool) -> (r: RetryStep)
    requires
        1 <= attempt <= WIFI_CONNECT_RETRY_COUNT,
    ensures
        r == retry_spec(attempt, has_ip, WifiError::NoIpAddress),
{
    retry_step(attempt, has_ip, WifiError::NoIpAddress)
}

} // verus!
