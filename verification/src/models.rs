//! The records the service stores, shows and exchanges.

use vstd::prelude::*;

verus! {

// ------------------------------------------------------------ device settings

/// One tablet as configured under the `TABLETS` setting.
#[derive(Debug, Clone)]
pub struct TabletConfig {
    pub name: String,
    pub mac: String,
    pub ip: String,
    pub ipv6_comment: String,
}

// ------------------------------------------------------------ stored rows

/// One minute of observed activity of one device.
#[derive(Debug, Clone)]
pub struct VideoWindow {
    pub ts: String,
    pub date: String,
    pub mac: String,
    pub ip: String,
    pub download_bytes: i64,
    pub dns_total_queries: i64,
    pub video_domains: String,
    pub video_platforms: String,
    pub video_score: i64,
    pub video_status: String,
    pub activity_type: String,
}

/// A stretch of continuous use of one device on one day.
#[derive(Debug, Clone)]
pub struct VideoSession {
    pub id: i64,
    pub mac: String,
    pub date: String,
    pub session_start: String,
    pub session_end: String,
    pub platform: String,
    pub total_download: i64,
    pub avg_score: i64,
    pub domains: String,
    pub status: String,
}

// ------------------------------------------------------------ dashboard

/// One device on the dashboard.
#[derive(Debug, Clone)]
pub struct DeviceInfo {
    pub mac: String,
    pub name: String,
    pub ip: String,
    pub online: bool,
    pub daily_active_min: i64,
    pub daily_video_min: i64,
    pub daily_game_min: i64,
    pub limit_sec: i64,
    pub usage_sec: i64,
}

/// Totals over all devices.
#[derive(Debug, Clone)]
pub struct VideoStats {
    pub total_active_min: i64,
    pub total_video_min: i64,
    pub total_game_min: i64,
}

// ------------------------------------------------------------ activity detection

/// What a batch of looked-up domains says the device is doing.
#[derive(Debug, Clone)]
pub struct DomainClassification {
    pub category: String,
    pub name: String,
    pub domains: Vec<String>,
}

/// The verdict of one detection round for one device.
#[derive(Debug, Clone)]
pub struct ActivityResult {
    pub mac: String,
    pub ip: String,
    pub status: String,
    pub category: String,
    pub name: String,
    pub bytes_delta: i64,
    pub conn_count: i32,
    pub has_dns: bool,
    pub has_traffic: bool,
    pub has_conns: bool,
    pub signal: bool,
    pub is_silent: bool,
}

// ------------------------------------------------------------ points

/// A person known to the points system.
#[derive(Debug, Clone)]
pub struct User {
    pub id: i64,
    pub username: String,
    pub display_name: String,
    pub role: String,
    pub tablet_key: Option<String>,
}

/// A child's request for points, waiting for or past review.
#[derive(Debug, Clone)]
pub struct PointRequest {
    pub id: i64,
    pub user_id: i64,
    pub request_type: String,
    pub points: i64,
    pub status: String,
    pub admin_note: Option<String>,
    pub created_at: String,
}

/// One entry of the points ledger.
#[derive(Debug, Clone)]
pub struct PointTransaction {
    pub id: i64,
    pub user_id: i64,
    pub tx_type: String,
    pub points: i64,
    pub balance_after: i64,
    pub description: Option<String>,
    pub created_at: String,
}

/// A user's current balance.
#[derive(Debug, Clone)]
pub struct PointsBalance {
    pub user_id: i64,
    pub username: String,
    pub display_name: String,
    pub balance: i64,
}

/// How much of each request type a user has used this week.
#[derive(Debug, Clone)]
pub struct WeeklyQuota {
    pub id: i64,
    pub user_id: i64,
    pub week_start: String,
    pub tutoring_used: i64,
    pub homework_used: i64,
    pub other_used: i64,
    pub tutoring_count: i64,
    pub homework_count: i64,
    pub other_count: i64,
    pub tutoring_max: i64,
    pub homework_max: i64,
    pub other_max: i64,
}

// ------------------------------------------------------------ control

/// The control state of one device, as the status page shows it.
#[derive(Debug, Clone)]
pub struct ControlStatus {
    pub mac: String,
    pub name: String,
    pub ip: String,
    pub online: bool,
    pub blocked: bool,
    pub paused: bool,
    pub switch_enabled: Option<bool>,
    pub usage_sec: i64,
    pub limit_sec: i64,
    pub reason: String,
}

} // verus!
