//! Screen capture: its settings, the decision whether a capture may be
//! taken, the naming of capture files, and their retention.
//!
//! Taking the screenshot and writing the file are the caller's part.

use vstd::prelude::*;
use vstd::string::StringExecFns;
use crate::clock::{format_utc, utc_text};
use crate::error::RecallError;
use crate::filter::{is_private_title, AppFilter, AppFilterMode, AppInfo};
use crate::ident::new_id;
use crate::models::{Document, DocumentStatus, FileType};
use crate::text::{lowercase, str_eq, to_lowercase};

verus! {

/// What a capture takes a picture of.
#[derive(Debug, Clone, Copy, PartialEq, Eq, Structural)]
pub enum CaptureMode {
    /// The whole primary monitor.
    FullScreen,
    /// The window in the foreground.
    ActiveWindow,
}

impl CaptureMode {
    /// The name of a mode in settings.
    pub open spec fn name(self) -> Seq<char> {
        match self {
            CaptureMode::FullScreen => "full_screen"@,
            CaptureMode::ActiveWindow => "active_window"@,
        }
    }

    /// The mode that a lowercase name stands for: the active window for
    /// any name but those of the full screen.
    pub open spec fn of_name(n: Seq<char>) -> CaptureMode {
        if n == "full_screen"@ || n == "fullscreen"@ {
            CaptureMode::FullScreen
        } else {
            CaptureMode::ActiveWindow
        }
    }

    /// The name of this mode in settings.
    pub fn as_str(&self) -> (s: &'static str)
        ensures
            s@ == self.name(),
    {
        match self {
            CaptureMode::FullScreen => "full_screen",
            CaptureMode::ActiveWindow => "active_window",
        }
    }

    /// The mode named `s`, whatever its case.
    pub fn from_name(s: &str) -> (m: CaptureMode)
        ensures
            m == CaptureMode::of_name(lowercase(s@)),
    {
        let lower = to_lowercase(s);
        let n = lower.as_str();
        if str_eq(n, "full_screen") || str_eq(n, "fullscreen") {
            CaptureMode::FullScreen
        } else {
            CaptureMode::ActiveWindow
        }
    }
}

impl std::str::FromStr for CaptureMode {
    type Err = ();

    /// Reads the name of a mode, whatever its case. Every text is read as
    /// some mode, so this never fails.
    fn from_str(s: &str) -> (r: std::result::Result<Self, ()>)
        ensures
            r == Ok::<CaptureMode, ()>(CaptureMode::of_name(lowercase(s@))),
    {
        Ok(CaptureMode::from_name(s))
    }
}

impl Default for CaptureMode {
    fn default() -> (m: CaptureMode)
        ensures
            m == CaptureMode::ActiveWindow,
    {
        CaptureMode::ActiveWindow
    }
}

/// The shortest interval between periodic captures, in seconds.
pub const MIN_INTERVAL_SECS: u64 = 30;

/// The longest interval between periodic captures, in seconds.
pub const MAX_INTERVAL_SECS: u64 = 300;

/// The shortest time that captures are kept, in days.
pub const MIN_RETENTION_DAYS: u32 = 1;

/// The longest time that captures are kept, in days.
pub const MAX_RETENTION_DAYS: u32 = 90;

/// The settings of screen capture.
#[derive(Debug, Clone)]
pub struct CaptureSettings {
    pub enabled: bool,
    pub interval_secs: u64,
    pub mode: CaptureMode,
    pub filter_mode: AppFilterMode,
    pub app_list: Vec<String>,
    pub retention_days: u32,
    pub hotkey: String,
}

impl Default for CaptureSettings {
    fn default() -> (s: CaptureSettings)
        ensures
            !s.enabled,
            s.interval_secs == 60,
            s.mode == CaptureMode::ActiveWindow,
            s.filter_mode == AppFilterMode::Off,
            s.app_list@.len() == 0,
            s.retention_days == 7,
            s.hotkey@ == "Ctrl+Shift+S"@,
    {
        CaptureSettings {
            enabled: false,
            interval_secs: 60,
            mode: CaptureMode::ActiveWindow,
            filter_mode: AppFilterMode::Off,
            app_list: Vec::new(),
            retention_days: 7,
            hotkey: "Ctrl+Shift+S".to_owned(),
        }
    }
}

/// An interval brought into the range that is allowed.
pub open spec fn clamped_interval(secs: u64) -> u64 {
    if secs < MIN_INTERVAL_SECS {
        MIN_INTERVAL_SECS
    } else if secs > MAX_INTERVAL_SECS {
        MAX_INTERVAL_SECS
    } else {
        secs
    }
}

/// A retention brought into the range that is allowed.
pub open spec fn clamped_retention(days: u32) -> u32 {
    if days < MIN_RETENTION_DAYS {
        MIN_RETENTION_DAYS
    } else if days > MAX_RETENTION_DAYS {
        MAX_RETENTION_DAYS
    } else {
        days
    }
}

/// Brings an interval into the range from 30 to 300 seconds.
pub fn clamp_interval(secs: u64) -> (r: u64)
    ensures
        r == clamped_interval(secs),
        MIN_INTERVAL_SECS <= r <= MAX_INTERVAL_SECS,
{
    if secs < MIN_INTERVAL_SECS {
        MIN_INTERVAL_SECS
    } else if secs > MAX_INTERVAL_SECS {
        MAX_INTERVAL_SECS
    } else {
        secs
    }
}

/// Brings a retention into the range from 1 to 90 days.
pub fn clamp_retention(days: u32) -> (r: u32)
    ensures
        r == clamped_retention(days),
        MIN_RETENTION_DAYS <= r <= MAX_RETENTION_DAYS,
{
    if days < MIN_RETENTION_DAYS {
        MIN_RETENTION_DAYS
    } else if days > MAX_RETENTION_DAYS {
        MAX_RETENTION_DAYS
    } else {
        days
    }
}

/// What a change of the settings asks of the periodic scheduler.
#[derive(Debug, Clone, Copy, PartialEq, Eq, Structural)]
pub enum SchedulerChange {
    Start,
    Stop,
    Keep,
}

/// Builds capture settings from what the user entered: interval and
/// retention are brought into range, the names of mode and rule are read
/// leniently.
pub fn update_capture_settings(
    enabled: bool,
    interval_secs: u64,
    mode: &str,
    filter_mode: &str,
    app_list: Vec<String>,
    retention_days: u32,
    hotkey: String,
) -> (s: CaptureSettings)
    ensures
        s.enabled == enabled,
        s.interval_secs == clamped_interval(interval_secs),
        s.mode == CaptureMode::of_name(lowercase(mode@)),
        s.filter_mode == AppFilterMode::of_name(lowercase(filter_mode@)),
        s.app_list == app_list,
        s.retention_days == clamped_retention(retention_days),
        s.hotkey == hotkey,
{
    CaptureSettings {
        enabled,
        interval_secs: clamp_interval(interval_secs),
        mode: CaptureMode::from_name(mode),
        filter_mode: AppFilterMode::from_name(filter_mode),
        app_list,
        retention_days: clamp_retention(retention_days),
        hotkey,
    }
}

/// What the scheduler has to do when capture goes from `was_enabled` to
/// `enabled`.
pub fn scheduler_change(was_enabled: bool, enabled: bool) -> (c: SchedulerChange)
    ensures
        c == if enabled && !was_enabled {
            SchedulerChange::Start
        } else if !enabled && was_enabled {
            SchedulerChange::Stop
        } else {
            SchedulerChange::Keep
        },
{
    if enabled && !was_enabled {
        SchedulerChange::Start
    } else if !enabled && was_enabled {
        SchedulerChange::Stop
    } else {
        SchedulerChange::Keep
    }
}

/// The state of the capture system, for display.
#[derive(Debug, Clone)]
pub struct CaptureStatus {
    pub enabled: bool,
    pub scheduler_running: bool,
    pub paused: bool,
    pub mode: String,
    pub interval_secs: u64,
    pub capture_count: u64,
    pub last_capture: Option<String>,
    pub hotkey: String,
}

/// How many captures were taken in this session, and when the last one
/// was.
#[derive(Debug, Clone, Copy, PartialEq, Eq, Structural)]
pub struct CaptureCounters {
    pub capture_count: u64,
    /// In milliseconds since the Unix epoch.
    pub last_capture: Option<i64>,
}

impl CaptureCounters {
    /// The counters of a session in which nothing was captured yet.
    pub fn new() -> (c: CaptureCounters)
        ensures
            c.capture_count == 0,
            c.last_capture is None,
    {
        CaptureCounters { capture_count: 0, last_capture: None }
    }

    /// Counts a capture taken at `captured_at`.
    pub fn record(&mut self, captured_at: i64)
        ensures
            final(self).capture_count == if old(self).capture_count == u64::MAX {
                u64::MAX
            } else {
                (old(self).capture_count + 1) as u64
            },
            final(self).last_capture == Some(captured_at),
    {
        if self.capture_count < u64::MAX {
            self.capture_count = self.capture_count + 1;
        }
        self.last_capture = Some(captured_at);
    }
}

/// The state of the capture system; `last_capture` is the time of the
/// last capture as text.
pub fn get_status(
    settings: &CaptureSettings,
    scheduler_running: bool,
    paused: bool,
    capture_count: u64,
    last_capture: Option<String>,
) -> (r: CaptureStatus)
    ensures
        r.enabled == settings.enabled,
        r.scheduler_running == scheduler_running,
        r.paused == paused,
        r.mode@ == settings.mode.name(),
        r.interval_secs == settings.interval_secs,
        r.capture_count == capture_count,
        r.last_capture == last_capture,
        r.hotkey@ == settings.hotkey@,
{
    CaptureStatus {
        enabled: settings.enabled,
        scheduler_running,
        paused,
        mode: settings.mode.as_str().to_owned(),
        interval_secs: settings.interval_secs,
        capture_count,
        last_capture,
        hotkey: settings.hotkey.clone(),
    }
}

/// Tells collaborators that a capture was taken or ingested.
#[derive(Debug, Clone)]
pub struct CaptureCompleteEvent {
    pub document_id: String,
    pub file_path: String,
    pub source_app: Option<String>,
    pub window_title: Option<String>,
    pub generated_title: Option<String>,
}

/// Tells collaborators that a capture failed.
#[derive(Debug, Clone)]
pub struct CaptureErrorEvent {
    pub error: String,
    pub source_app: Option<String>,
}

/// A screenshot that was taken and written.
#[derive(Debug, Clone)]
pub struct CaptureResult {
    pub file_path: String,
    /// In milliseconds since the Unix epoch.
    pub captured_at: i64,
    pub mode: CaptureMode,
    pub source_app: Option<String>,
    pub window_title: Option<String>,
    pub width: u32,
    pub height: u32,
    pub file_size: u64,
}

/// Whether a capture is refused: in either mode, where the foreground
/// window is known and the filter does not allow it.
pub open spec fn capture_refused(filter: AppFilter, foreground: Option<AppInfo>) -> bool {
    match foreground {
        Some(app) => !filter.allows(app.process_name@, app.window_title@),
        None => false,
    }
}

/// The text of the failure for a window that may not be captured.
pub open spec fn refusal_text(title: Seq<char>) -> Seq<char> {
    "Window '"@ + title + "' matches filter rules, skipping capture"@
}

/// Decides, before anything is captured or written, whether a capture
/// may be taken.
///
/// Whatever the mode, a foreground window that the filter does not allow
/// is refused with a capture failure: the full screen shows that window
/// too. In particular a private window is refused while the filter
/// protects privacy.
pub fn check_capture_allowed(filter: &AppFilter, foreground: &Option<AppInfo>) -> (r:
    std::result::Result<(), RecallError>)
    ensures
        r is Err <==> capture_refused(*filter, *foreground),
        r matches Err(e) ==> (e matches RecallError::Capture(m) && foreground matches Some(app)
            && m@ == refusal_text(app.window_title@)),
        filter.protects_privacy() && (foreground matches Some(app) && is_private_title(
            app.window_title@,
        )) ==> r is Err,
{
    match foreground {
        Some(app) => {
            if !filter.should_capture(app.process_name.as_str(), app.window_title.as_str()) {
                let mut m = String::new();
                m.append("Window '");
                m.append(app.window_title.as_str());
                m.append("' matches filter rules, skipping capture");
                proof {
                    assert(m@ =~= refusal_text(app.window_title@));
                }
                Err(RecallError::Capture(m))
            } else {
                Ok(())
            }
        },
        None => Ok(()),
    }
}

/// A window on the screen.
#[derive(Debug, Clone)]
pub struct WindowInfo {
    pub id: u64,
    pub title: String,
    pub is_minimized: bool,
}

/// The place of the first of the first `n` windows with id `id`, or -1.
pub open spec fn window_with_id(windows: Seq<WindowInfo>, id: u64, n: int) -> int
    decreases n,
{
    if n <= 0 || n > windows.len() {
        -1
    } else {
        let before = window_with_id(windows, id, n - 1);
        if before >= 0 {
            before
        } else if windows[n - 1].id == id {
            n - 1
        } else {
            -1
        }
    }
}

/// The place of the first of the first `n` windows that has a title and
/// is not minimized, or -1.
pub open spec fn first_visible_window(windows: Seq<WindowInfo>, n: int) -> int
    decreases n,
{
    if n <= 0 || n > windows.len() {
        -1
    } else {
        let before = first_visible_window(windows, n - 1);
        if before >= 0 {
            before
        } else if windows[n - 1].title@.len() > 0 && !windows[n - 1].is_minimized {
            n - 1
        } else {
            -1
        }
    }
}

proof fn lemma_window_with_id_found(windows: Seq<WindowInfo>, id: u64, k: int, n: int)
    requires
        0 <= k < n <= windows.len(),
        window_with_id(windows, id, k) == -1,
        windows[k].id == id,
    ensures
        window_with_id(windows, id, n) == k,
    decreases n,
{
    if n > k + 1 {
        lemma_window_with_id_found(windows, id, k, n - 1);
    }
}

proof fn lemma_first_visible_found(windows: Seq<WindowInfo>, k: int, n: int)
    requires
        0 <= k < n <= windows.len(),
        first_visible_window(windows, k) == -1,
        windows[k].title@.len() > 0 && !windows[k].is_minimized,
    ensures
        first_visible_window(windows, n) == k,
    decreases n,
{
    if n > k + 1 {
        lemma_first_visible_found(windows, k, n - 1);
    }
}

/// Finds the window to capture in active-window mode, given the id of
/// the window in the foreground as the operating system reports it.
///
/// That is the window with this id; or, where the list holds none, the
/// first window that has a title and is not minimized. It is a failure
/// of capture where the operating system reports no foreground window,
/// or no window can be found.
pub fn find_foreground_window(windows: &Vec<WindowInfo>, foreground: Option<u64>) -> (r:
    std::result::Result<usize, RecallError>)
    ensures
        match foreground {
            None => r matches Err(RecallError::Capture(m)) && m@ == "No foreground window found"@,
            Some(id) => {
                let by_id = window_with_id(windows@, id, windows@.len() as int);
                let visible = first_visible_window(windows@, windows@.len() as int);
                if by_id >= 0 {
                    r matches Ok(i) && i == by_id
                } else if visible >= 0 {
                    r matches Ok(i) && i == visible
                } else {
                    r matches Err(RecallError::Capture(m)) && m@
                        == "Could not find capturable foreground window"@
                }
            },
        },
        r matches Ok(i) ==> i < windows@.len(),
{
    let id = match foreground {
        Some(id) => id,
        None => {
            return Err(RecallError::Capture("No foreground window found".to_owned()));
        },
    };
    let mut n: usize = 0;
    while n < windows.len()
        invariant
            n <= windows.len(),
            foreground == Some(id),
            window_with_id(windows@, id, n as int) == -1,
        decreases windows.len() - n,
    {
        if windows[n].id == id {
            proof {
                lemma_window_with_id_found(windows@, id, n as int, windows@.len() as int);
            }
            return Ok(n);
        }
        n += 1;
    }
    let mut k: usize = 0;
    while k < windows.len()
        invariant
            k <= windows.len(),
            foreground == Some(id),
            window_with_id(windows@, id, windows@.len() as int) == -1,
            first_visible_window(windows@, k as int) == -1,
        decreases windows.len() - k,
    {
        if !windows[k].title.as_str().is_empty() && !windows[k].is_minimized {
            proof {
                lemma_first_visible_found(windows@, k as int, windows@.len() as int);
            }
            return Ok(k);
        }
        k += 1;
    }
    Err(RecallError::Capture("Could not find capturable foreground window".to_owned()))
}

/// The pattern of the time in a capture file's name.
pub open spec fn file_time_pattern() -> Seq<char> {
    "%Y-%m-%d_%H-%M-%S"@
}

/// The pattern of the time in a screenshot's title.
pub open spec fn title_time_pattern() -> Seq<char> {
    "%Y-%m-%d %H:%M:%S"@
}

/// The name of the capture file for a time given in text.
pub open spec fn capture_file_name(time: Seq<char>) -> Seq<char> {
    "capture_"@ + time + ".png"@
}

/// The name of the capture file for a time written as text, where the
/// time could be written; else none.
pub fn file_name_for(time: Option<String>) -> (r: Option<String>)
    ensures
        match time {
            Some(t) => r matches Some(n) && n@ == capture_file_name(t@),
            None => r is None,
        },
{
    match time {
        Some(t) => {
            let mut n = String::new();
            n.append("capture_");
            n.append(t.as_str());
            n.append(".png");
            proof {
                assert(n@ =~= capture_file_name(t@));
            }
            Some(n)
        },
        None => None,
    }
}

/// Takes screenshots into a directory of its own.
#[derive(Debug, Clone)]
pub struct Capturer {
    captures_dir: String,
}

impl Capturer {
    /// The directory that captures are written to.
    pub closed spec fn dir(self) -> Seq<char> {
        self.captures_dir@
    }

    /// A capturer that writes to `captures_dir`.
    pub fn new(captures_dir: String) -> (c: Capturer)
        ensures
            c.dir() == captures_dir@,
    {
        Capturer { captures_dir }
    }

    /// The directory that captures are written to.
    pub fn captures_dir(&self) -> (d: &String)
        ensures
            d@ == self.dir(),
    {
        &self.captures_dir
    }

    /// The name of the file for a capture taken at `captured_at`,
    /// milliseconds since the Unix epoch: `capture_`, the date and time of
    /// day in UTC, and `.png`. `None` where the time is outside the years
    /// that can be written.
    pub fn file_name(&self, captured_at: i64) -> (r: Option<String>)
        ensures
            match utc_text(captured_at as int, file_time_pattern()) {
                Some(t) => r matches Some(n) && n@ == capture_file_name(t),
                None => r is None,
            },
    {
        file_name_for(format_utc(captured_at, "%Y-%m-%d_%H-%M-%S"))
    }
}

/// The title of a screenshot: `Screenshot - ` and the application it
/// shows, or else the time it was taken in text.
pub open spec fn screenshot_title(source_app: Option<String>, time: Seq<char>) -> Seq<char> {
    match source_app {
        Some(app) => "Screenshot - "@ + app@,
        None => "Screenshot - "@ + time,
    }
}

/// The resolution as it is noted in a screenshot's metadata.
pub open spec fn resolution_text(width: u32, height: u32) -> Seq<char> {
    crate::text::decimal(width as nat) + "x"@ + crate::text::decimal(height as nat)
}

/// The resolution as it is noted in a screenshot's metadata: width, `x`,
/// height.
pub fn resolution_label(width: u32, height: u32) -> (r: String)
    ensures
        r@ == resolution_text(width, height),
{
    let mut r = String::new();
    crate::text::push_decimal(&mut r, width as u64);
    r.append("x");
    crate::text::push_decimal(&mut r, height as u64);
    proof {
        assert(r@ =~= resolution_text(width, height));
    }
    r
}

/// The size of a file as a document records it: the size, or the largest
/// value of the field where the size exceeds it.
pub open spec fn recorded_size(size: u64) -> i64 {
    if size > i64::MAX {
        i64::MAX
    } else {
        size as i64
    }
}

/// The document that records a screenshot, before it is ingested.
///
/// `file_hash` is the hash of the written file and `metadata` the
/// metadata bag as JSON text. The document gets a fresh id and is
/// pending. `None` where the time of capture is outside the years that
/// can be written and no application is known to name the screenshot by.
pub fn create_screenshot_document(result: &CaptureResult, file_hash: String, metadata: String) -> (r:
    Option<Document>)
    ensures
        r is None <==> (result.source_app is None && utc_text(
            result.captured_at as int,
            title_time_pattern(),
        ) is None),
        r matches Some(doc) ==> {
            &&& doc.file_path@ == result.file_path@
            &&& doc.file_type == FileType::Screenshot
            &&& doc.file_size == recorded_size(result.file_size)
            &&& doc.file_hash@ == file_hash@
            &&& doc.mime_type matches Some(m) && m@ == "image/png"@
            &&& doc.created_at == result.captured_at
            &&& doc.updated_at == result.captured_at
            &&& doc.ingested_at is None
            &&& doc.status == DocumentStatus::Pending
            &&& doc.error_message is None
            &&& doc.metadata@ == metadata@
            &&& match utc_text(result.captured_at as int, title_time_pattern()) {
                Some(t) => doc.title@ == screenshot_title(result.source_app, t),
                None => doc.title@ == screenshot_title(result.source_app, Seq::empty()),
            }
        },
{
    let mut title = String::new();
    title.append("Screenshot - ");
    match &result.source_app {
        Some(app) => {
            title.append(app.as_str());
        },
        None => match format_utc(result.captured_at, "%Y-%m-%d %H:%M:%S") {
            Some(t) => {
                title.append(t.as_str());
            },
            None => {
                return None;
            },
        },
    }
    let file_size: i64 = if result.file_size > i64::MAX as u64 {
        i64::MAX
    } else {
        result.file_size as i64
    };
    Some(
        Document {
            id: new_id(),
            title,
            file_path: result.file_path.clone(),
            file_type: FileType::Screenshot,
            file_size,
            file_hash,
            mime_type: Some("image/png".to_owned()),
            created_at: result.captured_at,
            updated_at: result.captured_at,
            ingested_at: None,
            status: DocumentStatus::Pending,
            error_message: None,
            metadata,
        },
    )
}

/// The number of milliseconds in a day.
pub const MILLIS_PER_DAY: i64 = 86_400_000;

/// Whether a capture made at `created` is older than `retention_days`
/// days at `now`; both in milliseconds since the Unix epoch.
pub open spec fn is_expired(created: i64, now: i64, retention_days: u32) -> bool {
    created < now - retention_days * MILLIS_PER_DAY
}

/// Whether a capture is due for deletion.
pub fn capture_expired(created: i64, now: i64, retention_days: u32) -> (r: bool)
    ensures
        r == is_expired(created, now, retention_days),
{
    let cutoff: i128 = now as i128 - (retention_days as i128) * (MILLIS_PER_DAY as i128);
    (created as i128) < cutoff
}

/// A capture file with the time it was made.
pub type CaptureFile = (String, i64);

/// The first `n` capture files that are due for deletion, in order.
pub open spec fn expired_among(files: Seq<CaptureFile>, now: i64, retention_days: u32, n: int) -> Seq<
    Seq<char>,
>
    decreases n,
{
    if n <= 0 || n > files.len() {
        Seq::empty()
    } else {
        let prev = expired_among(files, now, retention_days, n - 1);
        if is_expired(files[n - 1].1, now, retention_days) {
            prev.push(files[n - 1].0@)
        } else {
            prev
        }
    }
}

/// The capture files that are due for deletion at `now`: those made more
/// than `retention_days` days before.
pub fn cleanup_old_captures(files: &Vec<CaptureFile>, now: i64, retention_days: u32) -> (r: Vec<
    String,
>)
    ensures
        r@.map_values(|p: String| p@) == expired_among(
            files@,
            now,
            retention_days,
            files@.len() as int,
        ),
{
    let mut r: Vec<String> = Vec::new();
    let mut n: usize = 0;
    proof {
        assert(r@.map_values(|p: String| p@) =~= expired_among(files@, now, retention_days, 0));
    }
    while n < files.len()
        invariant
            n <= files.len(),
            r@.map_values(|p: String| p@) == expired_among(files@, now, retention_days, n as int),
        decreases files.len() - n,
    {
        let ghost before = r@;
        if capture_expired(files[n].1, now, retention_days) {
            r.push(files[n].0.clone());
            proof {
                assert(r@.map_values(|p: String| p@) =~= before.map_values(|p: String| p@).push(
                    files@[n as int].0@,
                ));
            }
        }
        n += 1;
    }
    r
}

} // verus!
