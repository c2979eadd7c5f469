//! The media tool: where it is looked for, and how its report on a
//! video is read.
//!
//! Running the tool is the caller's part.

use vstd::prelude::*;
use vstd::utf8::encode_utf8;
use crate::citations::{is_digit, parse_number, parsed_number};
use crate::error::RecallError;
use crate::patterns::{find_matches, match_views, regex_matches, Match, Span};
use crate::text::{find_byte, first_index_of};

verus! {

/// The media tool, by the path of its program.
#[derive(Debug, Clone)]
pub struct FFmpeg {
    binary_path: String,
}

/// The path of the tool in the project's resources.
pub open spec fn project_tool_path() -> Seq<char> {
    "src-tauri/resources/ffmpeg.exe"@
}

/// The path of the tool in the resources beside the program.
pub open spec fn bundled_tool_path() -> Seq<char> {
    "resources/ffmpeg.exe"@
}

/// The name under which the tool is found on the search path.
pub open spec fn tool_name() -> Seq<char> {
    "ffmpeg"@
}

impl FFmpeg {
    /// The path of the tool's program.
    pub closed spec fn path(self) -> Seq<char> {
        self.binary_path@
    }

    /// Finds the media tool.
    ///
    /// A released program uses the tool that is bundled with it. In
    /// development the tool is taken from the project's resources, or
    /// from the resources beside the program, whichever is there, or else
    /// from the search path.
    pub fn new(development: bool, in_project: bool, in_resources: bool) -> (r:
        std::result::Result<FFmpeg, RecallError>)
        ensures
            r matches Ok(tool) && tool.path() == if !development {
                bundled_tool_path()
            } else if in_project {
                project_tool_path()
            } else if in_resources {
                bundled_tool_path()
            } else {
                tool_name()
            },
    {
        let path = if !development {
            "resources/ffmpeg.exe"
        } else if in_project {
            "src-tauri/resources/ffmpeg.exe"
        } else if in_resources {
            "resources/ffmpeg.exe"
        } else {
            "ffmpeg"
        };
        Ok(FFmpeg { binary_path: path.to_owned() })
    }

    /// The path of the tool's program.
    pub fn binary_path(&self) -> (p: &String)
        ensures
            p@ == self.path(),
    {
        &self.binary_path
    }
}

/// The pattern of the duration in the tool's report.
pub open spec fn duration_pattern() -> Seq<char> {
    "Duration: (\\d+):(\\d+):(\\d+\\.?\\d*)"@
}

/// The largest number of hours, minutes or seconds that a duration may
/// write; a larger number counts as zero.
pub const MAX_DURATION_PART: u64 = 0xFFFF_FFFF;

/// The number that `bytes[a..b]` writes, or zero where it writes none
/// that is admitted.
pub open spec fn number_or_zero(bytes: Seq<u8>, a: int, b: int, max: int) -> int {
    match parsed_number(bytes, a, b, max) {
        Some(v) => v,
        None => 0,
    }
}

/// The milliseconds that the digits behind the full stop of a number of
/// seconds stand for: the first three of them count, a digit that is
/// missing counts as zero.
pub open spec fn fraction_millis(bytes: Seq<u8>, a: int, b: int) -> int {
    let d0 = if a < b <= bytes.len() && is_digit(bytes[a]) {
        bytes[a] - 0x30
    } else {
        0
    };
    let d1 = if a + 1 < b <= bytes.len() && is_digit(bytes[a + 1]) {
        bytes[a + 1] - 0x30
    } else {
        0
    };
    let d2 = if a + 2 < b <= bytes.len() && is_digit(bytes[a + 2]) {
        bytes[a + 2] - 0x30
    } else {
        0
    };
    d0 * 100 + d1 * 10 + d2
}

/// The milliseconds that a number of seconds in `bytes[a..b]` stands
/// for: whole seconds, and behind a full stop their fraction.
pub open spec fn seconds_millis(bytes: Seq<u8>, a: int, b: int) -> int {
    let dot = first_index_of(bytes, 0x2E, a, b);
    if dot >= 0 {
        number_or_zero(bytes, a, dot, MAX_DURATION_PART as int) * 1000 + fraction_millis(
            bytes,
            dot + 1,
            b,
        )
    } else {
        number_or_zero(bytes, a, b, MAX_DURATION_PART as int) * 1000
    }
}

/// Whether a stretch lies within `len` bytes.
pub open spec fn fits(span: Span, len: int) -> bool {
    span.start <= span.end <= len
}

/// The duration that the first match of the duration pattern writes, in
/// milliseconds, if there is a match that fits the report.
pub open spec fn duration_in(bytes: Seq<u8>, matches: Seq<Seq<Option<Span>>>) -> Option<int> {
    if matches.len() == 0 || matches[0].len() < 4 {
        None
    } else {
        match (matches[0][1], matches[0][2], matches[0][3]) {
            (Some(h), Some(m), Some(s)) => if fits(h, bytes.len() as int) && fits(
                m,
                bytes.len() as int,
            ) && fits(s, bytes.len() as int) {
                Some(
                    number_or_zero(bytes, h.start as int, h.end as int, MAX_DURATION_PART as int)
                        * 3_600_000 + number_or_zero(
                        bytes,
                        m.start as int,
                        m.end as int,
                        MAX_DURATION_PART as int,
                    ) * 60_000 + seconds_millis(bytes, s.start as int, s.end as int),
                )
            } else {
                None
            },
            _ => None,
        }
    }
}

fn number_at(bytes: &[u8], a: usize, b: usize) -> (r: u64)
    ensures
        r == number_or_zero(bytes@, a as int, b as int, MAX_DURATION_PART as int),
        r <= MAX_DURATION_PART,
{
    match parse_number(bytes, a, b, MAX_DURATION_PART) {
        Some(v) => v,
        None => 0,
    }
}

fn digit_at(bytes: &[u8], i: usize, end: usize) -> (r: u64)
    requires
        end <= bytes@.len(),
    ensures
        r == if i < end && is_digit(bytes@[i as int]) {
            bytes@[i as int] - 0x30
        } else {
            0
        },
        r <= 9,
{
    if i < end && 0x30 <= bytes[i] && bytes[i] <= 0x39 {
        (bytes[i] - 0x30) as u64
    } else {
        0
    }
}

fn seconds_at(bytes: &[u8], span: Span) -> (r: u64)
    requires
        fits(span, bytes@.len() as int),
    ensures
        r == seconds_millis(bytes@, span.start as int, span.end as int),
        r <= MAX_DURATION_PART * 1000 + 999,
{
    match find_byte(bytes, 0x2E, span.start, span.end) {
        Some(dot) => {
            let whole = number_at(bytes, span.start, dot);
            let a = dot + 1;
            let d0 = digit_at(bytes, a, span.end);
            let d1 = if a < span.end {
                digit_at(bytes, a + 1, span.end)
            } else {
                0
            };
            let d2 = if a < span.end && a + 1 < span.end {
                digit_at(bytes, a + 2, span.end)
            } else {
                0
            };
            whole * 1000 + (d0 * 100 + d1 * 10 + d2)
        },
        None => number_at(bytes, span.start, span.end) * 1000,
    }
}

/// Reads the duration of a video off the matches of the duration pattern
/// in the tool's report.
pub fn duration_from_matches(report: &str, matches: &Vec<Match>) -> (r: std::result::Result<
    u64,
    RecallError,
>)
    ensures
        match duration_in(encode_utf8(report@), match_views(matches@)) {
            Some(d) => r == Ok::<u64, RecallError>(d as u64),
            None => r matches Err(RecallError::FFmpeg(m)) && m@
                == "Could not parse video duration"@,
        },
{
    let bytes = report.as_bytes();
    if matches.len() > 0 {
        let m = &matches[0];
        assert(match_views(matches@)[0] == m@);
        if m.len() >= 4 {
            match (m[1], m[2], m[3]) {
                (Some(h), Some(mi), Some(s)) => {
                    let len = bytes.len();
                    if h.start <= h.end && h.end <= len && mi.start <= mi.end && mi.end <= len
                        && s.start <= s.end && s.end <= len {
                        let hours = number_at(bytes, h.start, h.end);
                        let minutes = number_at(bytes, mi.start, mi.end);
                        let seconds = seconds_at(bytes, s);
                        return Ok(hours * 3_600_000 + minutes * 60_000 + seconds);
                    }
                },
                _ => {},
            }
        }
    }
    Err(RecallError::FFmpeg("Could not parse video duration".to_owned()))
}

/// Reads the duration of a video, in milliseconds, off the tool's
/// report.
pub fn get_duration(report: &str) -> (r: std::result::Result<u64, RecallError>)
    ensures
        match duration_in(encode_utf8(report@), regex_matches(duration_pattern(), report@)) {
            Some(d) => r == Ok::<u64, RecallError>(d as u64),
            None => r matches Err(RecallError::FFmpeg(m)) && m@
                == "Could not parse video duration"@,
        },
{
    let matches = find_matches("Duration: (\\d+):(\\d+):(\\d+\\.?\\d*)", report);
    duration_from_matches(report, &matches)
}

/// The time of frame number `index`, counted from 0, of a video of which
/// `rate` frames are taken in a thousand seconds: in milliseconds,
/// rounded down; the largest time where that exceeds it.
pub open spec fn frame_time(index: u64, rate: u32) -> u64 {
    if rate == 0 || index * 1_000_000 / (rate as int) > u64::MAX {
        u64::MAX
    } else {
        (index * 1_000_000 / (rate as int)) as u64
    }
}

/// The time of a frame that was taken from a video.
pub fn keyframe_timestamp(index: u64, rate: u32) -> (r: u64)
    ensures
        r == frame_time(index, rate),
{
    if rate == 0 {
        return u64::MAX;
    }
    let t: u128 = index as u128 * 1_000_000 / (rate as u128);
    if t > u64::MAX as u128 {
        u64::MAX
    } else {
        t as u64
    }
}

} // verus!
