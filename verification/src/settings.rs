//! The settings of the knowledge base, and what is shown of its secrets.

use vstd::prelude::*;
use vstd::string::StringExecFns;
use vstd::utf8::{decode_utf8, encode_utf8};
use crate::capture::{
    clamped_interval, clamped_retention, update_capture_settings, CaptureMode, CaptureSettings,
};
use crate::chunker::{ceil_boundary, ceil_char_boundary, slice_str};
use crate::filter::AppFilterMode;
use crate::text::{chars_of, lowercase, matches_at, occurs_at, str_eq};

verus! {

/// The settings that are kept between runs.
#[derive(Debug, Clone)]
pub struct Settings {
    pub gemini_api_key: Option<String>,
    pub embedding_model: String,
    pub ingestion_model: String,
    pub reasoning_model: String,
    /// The target size of a chunk, in tokens.
    pub chunk_size: usize,
    /// The overlap of consecutive chunks, in tokens.
    pub chunk_overlap: usize,
    pub max_context_chunks: usize,
    /// The length of the windows that a video is analysed in, in seconds.
    pub video_segment_duration: u64,
    /// The rate at which frames are taken from a video, in frames per
    /// thousand seconds.
    pub keyframe_interval: u32,
    pub watched_folders: Vec<String>,
    pub auto_ingest_enabled: bool,
    pub screen_capture_enabled: bool,
    pub capture_interval_secs: u64,
    pub capture_mode: String,
    pub capture_app_filter: String,
    pub capture_app_list: Vec<String>,
    pub capture_retention_days: u32,
    pub capture_hotkey: String,
    pub license_key: Option<String>,
    pub license_activated_at: Option<String>,
    pub license_customer_name: Option<String>,
    pub license_customer_email: Option<String>,
    pub license_instance_id: Option<String>,
}

/// Whether files are ingested as they appear, where settings do not say.
pub fn default_auto_ingest() -> (r: bool)
    ensures
        !r,
{
    false
}

/// The seconds between captures, where settings do not say.
pub fn default_capture_interval() -> (r: u64)
    ensures
        r == 60,
{
    60
}

/// The capture mode, where settings do not say.
pub fn default_capture_mode() -> (r: String)
    ensures
        r@ == "active_window"@,
{
    "active_window".to_owned()
}

/// The rule over applications, where settings do not say.
pub fn default_capture_filter() -> (r: String)
    ensures
        r@ == "none"@,
{
    "none".to_owned()
}

/// The days that captures are kept, where settings do not say.
pub fn default_capture_retention() -> (r: u32)
    ensures
        r == 7,
{
    7
}

/// The hotkey that takes a capture, where settings do not say.
pub fn default_capture_hotkey() -> (r: String)
    ensures
        r@ == "Ctrl+Shift+S"@,
{
    "Ctrl+Shift+S".to_owned()
}

impl Default for Settings {
    fn default() -> (s: Settings)
        ensures
            s.gemini_api_key is None,
            s.embedding_model@ == "gemini-embedding-001"@,
            s.ingestion_model@ == "gemini-2.0-flash"@,
            s.reasoning_model@ == "gemini-2.0-flash"@,
            s.chunk_size == 512,
            s.chunk_overlap == 50,
            s.max_context_chunks == 20,
            s.video_segment_duration == 300,
            s.keyframe_interval == 200,
            s.watched_folders@.len() == 0,
            !s.auto_ingest_enabled,
            !s.screen_capture_enabled,
            s.capture_interval_secs == 60,
            s.capture_mode@ == "active_window"@,
            s.capture_app_filter@ == "none"@,
            s.capture_app_list@.len() == 0,
            s.capture_retention_days == 7,
            s.capture_hotkey@ == "Ctrl+Shift+S"@,
            s.license_key is None,
            s.license_activated_at is None,
            s.license_customer_name is None,
            s.license_customer_email is None,
            s.license_instance_id is None,
    {
        Settings {
            gemini_api_key: None,
            embedding_model: "gemini-embedding-001".to_owned(),
            ingestion_model: "gemini-2.0-flash".to_owned(),
            reasoning_model: "gemini-2.0-flash".to_owned(),
            chunk_size: 512,
            chunk_overlap: 50,
            max_context_chunks: 20,
            video_segment_duration: 300,
            keyframe_interval: 200,
            watched_folders: Vec::new(),
            auto_ingest_enabled: default_auto_ingest(),
            screen_capture_enabled: false,
            capture_interval_secs: default_capture_interval(),
            capture_mode: default_capture_mode(),
            capture_app_filter: default_capture_filter(),
            capture_app_list: Vec::new(),
            capture_retention_days: default_capture_retention(),
            capture_hotkey: default_capture_hotkey(),
            license_key: None,
            license_activated_at: None,
            license_customer_name: None,
            license_customer_email: None,
            license_instance_id: None,
        }
    }
}

/// The embedding model that is no longer offered.
pub open spec fn retired_embedding_model() -> Seq<char> {
    "text-embedding-004"@
}

/// The embedding model that is used for `configured`: the one that
/// replaced it where it is no longer offered, else itself.
pub fn current_embedding_model(configured: String) -> (r: String)
    ensures
        r@ == if configured@ == retired_embedding_model() {
            "gemini-embedding-001"@
        } else {
            configured@
        },
{
    if str_eq(configured.as_str(), "text-embedding-004") {
        "gemini-embedding-001".to_owned()
    } else {
        configured
    }
}

/// The last bytes of a text from `len - count` on, moved on to a whole
/// character; the whole text where it has fewer bytes.
pub open spec fn byte_suffix(text: Seq<char>, count: int) -> Seq<char> {
    let bytes = encode_utf8(text);
    let from = if bytes.len() >= count {
        bytes.len() - count
    } else {
        0
    };
    decode_utf8(bytes.subrange(ceil_boundary(bytes, from), bytes.len() as int))
}

fn suffix_of(text: &str, count: usize) -> (r: &str)
    ensures
        r@ == byte_suffix(text@, count as int),
{
    let len = text.as_bytes().len();
    let from = if len >= count {
        len - count
    } else {
        0
    };
    proof {
        vstd::utf8::encode_utf8_valid_utf8(text@);
        vstd::utf8::is_char_boundary_start_end_of_seq(encode_utf8(text@));
        crate::chunker::lemma_ceil_boundary(encode_utf8(text@), from as int);
    }
    let start = ceil_char_boundary(text, from);
    slice_str(text, start, len)
}

/// An API key as it is shown: four asterisks, and behind them the last
/// four bytes of a key of more than eight.
pub open spec fn masked_api_key(key: Seq<char>) -> Seq<char> {
    if encode_utf8(key).len() <= 8 {
        "****"@
    } else {
        "****"@ + byte_suffix(key, 4)
    }
}

/// Masks an API key for display.
pub fn mask_api_key(key: &str) -> (r: String)
    ensures
        r@ == masked_api_key(key@),
{
    if key.as_bytes().len() <= 8 {
        "****".to_owned()
    } else {
        let mut r = String::new();
        r.append("****");
        r.append(suffix_of(key, 4));
        r
    }
}

/// A license key as it is shown: two groups of asterisks, and behind
/// them the last four bytes of a key of more than eight.
pub open spec fn masked_license_key(key: Seq<char>) -> Seq<char> {
    if encode_utf8(key).len() <= 8 {
        "****-****"@
    } else {
        "****-****-"@ + byte_suffix(key, 4)
    }
}

/// Masks a license key for display.
pub fn mask_license_key(key: &str) -> (r: String)
    ensures
        r@ == masked_license_key(key@),
{
    if key.as_bytes().len() <= 8 {
        "****-****".to_owned()
    } else {
        let mut r = String::new();
        r.append("****-****-");
        r.append(suffix_of(key, 4));
        r
    }
}

/// Whether a key is one that was masked for display.
pub open spec fn is_masked(key: Seq<char>) -> bool {
    occurs_at(key, "****"@, 0)
}

/// Whether `key` is one that was masked for display.
pub fn is_masked_key(key: &str) -> (r: bool)
    ensures
        r == is_masked(key@),
{
    let chars = chars_of(key);
    let mask = chars_of("****");
    mask.len() <= chars.len() && matches_at(&chars, &mask, 0)
}

/// The API key to keep when settings are replaced: the one that was
/// there where the new settings hold a masked one, else the new one.
pub fn merge_api_key(existing: Option<String>, incoming: Option<String>) -> (r: Option<String>)
    ensures
        r == if incoming matches Some(k) && is_masked(k@) {
            existing
        } else {
            incoming
        },
{
    let masked = match &incoming {
        Some(k) => is_masked_key(k.as_str()),
        None => false,
    };
    if masked {
        existing
    } else {
        incoming
    }
}

/// The settings of screen capture that general settings hold.
pub fn capture_settings_of(settings: &Settings) -> (r: CaptureSettings)
    ensures
        r.enabled == settings.screen_capture_enabled,
        r.interval_secs == clamped_interval(settings.capture_interval_secs),
        r.mode == CaptureMode::of_name(lowercase(settings.capture_mode@)),
        r.filter_mode == AppFilterMode::of_name(lowercase(settings.capture_app_filter@)),
        r.app_list@ == settings.capture_app_list@,
        r.retention_days == clamped_retention(settings.capture_retention_days),
        r.hotkey@ == settings.capture_hotkey@,
{
    let mut list: Vec<String> = Vec::new();
    let mut i: usize = 0;
    while i < settings.capture_app_list.len()
        invariant
            i <= settings.capture_app_list.len(),
            list@ == settings.capture_app_list@.take(i as int),
        decreases settings.capture_app_list.len() - i,
    {
        list.push(settings.capture_app_list[i].clone());
        proof {
            assert(settings.capture_app_list@.take(i + 1) =~= settings.capture_app_list@.take(
                i as int,
            ).push(settings.capture_app_list@[i as int]));
        }
        i += 1;
    }
    proof {
        assert(settings.capture_app_list@.take(settings.capture_app_list@.len() as int)
            =~= settings.capture_app_list@);
    }
    update_capture_settings(
        settings.screen_capture_enabled,
        settings.capture_interval_secs,
        settings.capture_mode.as_str(),
        settings.capture_app_filter.as_str(),
        list,
        settings.capture_retention_days,
        settings.capture_hotkey.clone(),
    )
}

/// What a license allows.
#[derive(Debug, Clone, Copy, PartialEq, Eq, Structural)]
pub enum LicenseTier {
    /// A limited number of documents.
    Trial,
    /// Everything.
    Licensed,
}

impl Default for LicenseTier {
    fn default() -> (t: LicenseTier)
        ensures
            t == LicenseTier::Trial,
    {
        LicenseTier::Trial
    }
}

/// The state of the license, for display.
#[derive(Debug, Clone)]
pub struct LicenseStatus {
    pub is_valid: bool,
    /// Masked.
    pub license_key: Option<String>,
    pub activated_at: Option<String>,
    pub tier: LicenseTier,
    pub documents_used: Option<usize>,
    pub documents_limit: Option<usize>,
    pub customer_name: Option<String>,
    pub customer_email: Option<String>,
}

/// The state of the license that settings hold, given the number of
/// documents in the store: licensed, with the key masked, where a key is
/// kept; else on trial, with the documents used and allowed.
pub fn get_license_status(settings: &Settings, documents_used: usize) -> (r: LicenseStatus)
    ensures
        match settings.license_key {
            Some(key) => {
                &&& r.is_valid
                &&& r.tier == LicenseTier::Licensed
                &&& r.license_key matches Some(k) && k@ == masked_license_key(key@)
                &&& r.documents_used is None
                &&& r.documents_limit is None
                &&& r.activated_at == settings.license_activated_at
                &&& r.customer_name == settings.license_customer_name
                &&& r.customer_email == settings.license_customer_email
            },
            None => {
                &&& !r.is_valid
                &&& r.tier == LicenseTier::Trial
                &&& r.license_key is None
                &&& r.documents_used == Some(documents_used)
                &&& r.documents_limit == Some(crate::ingestion::TRIAL_DOCUMENT_LIMIT)
                &&& r.activated_at is None
                &&& r.customer_name is None
                &&& r.customer_email is None
            },
        },
{
    match &settings.license_key {
        Some(key) => LicenseStatus {
            is_valid: true,
            license_key: Some(mask_license_key(key.as_str())),
            activated_at: settings.license_activated_at.clone(),
            tier: LicenseTier::Licensed,
            documents_used: None,
            documents_limit: None,
            customer_name: settings.license_customer_name.clone(),
            customer_email: settings.license_customer_email.clone(),
        },
        None => LicenseStatus {
            is_valid: false,
            license_key: None,
            activated_at: None,
            tier: LicenseTier::Trial,
            documents_used: Some(documents_used),
            documents_limit: Some(crate::ingestion::TRIAL_DOCUMENT_LIMIT),
            customer_name: None,
            customer_email: None,
        },
    }
}

/// A search over the knowledge base.
#[derive(Debug, Clone)]
pub struct SearchRequest {
    pub query: String,
    pub limit: Option<usize>,
    pub document_ids: Option<Vec<String>>,
}

/// The number of results of a search that does not say how many it
/// wants.
pub const DEFAULT_SEARCH_LIMIT: usize = 20;

/// The state of the file watcher, for display.
#[derive(Debug, Clone)]
pub struct WatcherStatus {
    pub is_running: bool,
    pub watched_folders: Vec<String>,
    pub auto_ingest_enabled: bool,
}

} // verus!
