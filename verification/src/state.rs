//! Shared state used by request handlers.

use vstd::prelude::*;
use vstd::string::*;

use crate::config::security::DangerLevel;
use crate::config::{copy_numbers, copy_texts, Config};
use crate::text::{text_view, views};

verus! {

/// What the request handlers share. Created once at startup.
#[derive(Debug, PartialEq, Eq)]
pub struct AppState {
    /// Shared secret for authenticating internal API calls.
    pub api_key: String,
    /// Allowed values for the `X-Juiceback-Origin` header. Empty means allow all.
    pub allowed_origins: Vec<String>,
    /// Minimum free disk space (bytes) before rejecting writes.
    pub min_free_space_bytes: u64,
    /// Maximum allowed file size in bytes.
    pub max_file_size_bytes: u64,
    /// Backend URL, asked on a storage miss.
    pub backend_url: Option<String>,
    /// Frontend URL that the index page redirects to.
    pub frontend_url: Option<String>,
    /// File type danger level.
    pub danger_level: DangerLevel,
    /// Default TTL in hours, as IEEE 754 bits.
    pub default_ttl_hours: u64,
    /// Allowed TTLs in hours, as IEEE 754 bits.
    pub allowed_ttl_hours: Vec<u64>,
    /// Two-phase uploads enabled.
    pub quick_link: bool,
    /// Custom file IDs enabled.
    pub custom_id: bool,
    /// JWT signing secret for validating upload tickets.
    pub ticket_jwt_secret: String,
    /// Pepper of the IP ban list.
    pub ip_pepper: String,
    /// Path to the optional local ban list JSON file.
    pub ban_list_file: Option<String>,
    /// Optional backend URL to sync the ban list from.
    pub ban_sync_url: Option<String>,
    /// Seconds between ban list file reloads / backend syncs.
    pub ban_sync_interval: u64,
    pub max_range_response_bytes: u64,
    pub max_concat_parts: usize,
    /// Seconds that may pass between two chunks of a request body.
    pub tcp_body_inactivity: u64,
    /// Seconds that a request may take.
    pub tcp_request_total: u64,
    /// Uploads at a time.
    pub upload_permits: usize,
    /// Downloads at a time.
    pub download_permits: usize,
}

fn copy_text(text: &Option<String>) -> (r: Option<String>)
    ensures
        text_view(r) == text_view(*text),
{
    match text {
        Some(t) => Some(t.clone()),
        None => None,
    }
}

impl AppState {
    /// Create a new `AppState` from a loaded `Config`.
    pub fn new(config: &Config) -> (r: AppState)
        ensures
            r.api_key@ == config.api_key@,
            views(r.allowed_origins@) == views(config.allowed_origins@),
            r.min_free_space_bytes == config.min_free_space_bytes,
            r.max_file_size_bytes == config.max_file_size_bytes,
            text_view(r.backend_url) == text_view(config.backend_url),
            text_view(r.frontend_url) == text_view(config.frontend_url),
            r.danger_level == config.danger_level,
            r.default_ttl_hours == config.default_ttl_hours,
            r.allowed_ttl_hours@ == config.allowed_ttl_hours@,
            r.quick_link == config.quick_link,
            r.custom_id == config.custom_id,
            r.ticket_jwt_secret@ == config.ticket_jwt_secret@,
            r.ip_pepper@ == config.ip_pepper@,
            text_view(r.ban_list_file) == text_view(config.ban_list_file),
            text_view(r.ban_sync_url) == text_view(config.ban_sync_url),
            r.ban_sync_interval == config.ban_sync_interval,
            r.max_range_response_bytes == config.max_range_response_bytes,
            r.max_concat_parts == config.max_concat_parts,
            r.tcp_body_inactivity == config.tcp_body_inactivity_seconds,
            r.tcp_request_total == config.tcp_request_total_seconds,
            r.upload_permits == config.max_concurrent_uploads,
            r.download_permits == config.max_concurrent_downloads,
    {
        AppState {
            api_key: config.api_key.clone(),
            allowed_origins: copy_texts(&config.allowed_origins),
            min_free_space_bytes: config.min_free_space_bytes,
            max_file_size_bytes: config.max_file_size_bytes,
            backend_url: copy_text(&config.backend_url),
            frontend_url: copy_text(&config.frontend_url),
            danger_level: config.danger_level,
            default_ttl_hours: config.default_ttl_hours,
            allowed_ttl_hours: copy_numbers(&config.allowed_ttl_hours),
            quick_link: config.quick_link,
            custom_id: config.custom_id,
            ticket_jwt_secret: config.ticket_jwt_secret.clone(),
            ip_pepper: config.ip_pepper.clone(),
            ban_list_file: copy_text(&config.ban_list_file),
            ban_sync_url: copy_text(&config.ban_sync_url),
            ban_sync_interval: config.ban_sync_interval,
            max_range_response_bytes: config.max_range_response_bytes,
            max_concat_parts: config.max_concat_parts,
            tcp_body_inactivity: config.tcp_body_inactivity_seconds,
            tcp_request_total: config.tcp_request_total_seconds,
            upload_permits: config.max_concurrent_uploads,
            download_permits: config.max_concurrent_downloads,
        }
    }
}

} // verus!
