//! Repairs to extracted text, and the parsing of transcripts.

use vstd::prelude::*;
use vstd::string::StringExecFns;
use vstd::utf8::{decode_utf8, encode_utf8, is_char_boundary};
use crate::chunker::{slice_str, texts_of, ExtractedContent, TimedSegment};
use crate::citations::{parse_number, parsed_number};
use crate::error::RecallError;
use crate::lines::{line_views, lines_of, replace_all, replaced, split_lines};
use crate::patterns::{find_matches, match_views, regex_matches, Match, Span};
use crate::text::{chars_of, string_of, trim, trimmed};

verus! {

/// Words that lose a ligature when text is extracted from a PDF, each
/// with the word it stands for. The pairs are applied in this order.
pub open spec fn ligature_table() -> Seq<(Seq<char>, Seq<char>)> {
    seq![
        ("speci c"@, "specific"@),
        ("signi cant"@, "significant"@),
        ("identi ed"@, "identified"@),
        ("identi cation"@, "identification"@),
        ("certi cate"@, "certificate"@),
        ("bene t"@, "benefit"@),
        ("bene ts"@, "benefits"@),
        ("ef cient"@, "efficient"@),
        ("ef ciency"@, "efficiency"@),
        ("suf cient"@, "sufficient"@),
        ("de ned"@, "defined"@),
        ("de nition"@, "definition"@),
        ("de nitely"@, "definitely"@),
        ("con rm"@, "confirm"@),
        ("con rmed"@, "confirmed"@),
        ("con gur"@, "configur"@),
        ("modi ed"@, "modified"@),
        ("modi cation"@, "modification"@),
        ("veri ed"@, "verified"@),
        ("veri cation"@, "verification"@),
        ("classi ed"@, "classified"@),
        ("classi cation"@, "classification"@),
        ("quali ed"@, "qualified"@),
        ("quanti ed"@, "quantified"@),
        ("simpli ed"@, "simplified"@),
        ("ampli ed"@, "amplified"@),
        ("noti ed"@, "notified"@),
        ("noti cation"@, "notification"@),
        ("justi ed"@, "justified"@),
        ("certi ed"@, "certified"@),
        ("puri ed"@, "purified"@),
        ("speci ed"@, "specified"@),
        ("digni ed"@, "dignified"@),
        (" rst"@, "first"@),
        (" nal"@, "final"@),
        (" nally"@, "finally"@),
        (" nd"@, "find"@),
        (" nding"@, "finding"@),
        (" ndings"@, "findings"@),
        (" le"@, "file"@),
        (" les"@, "files"@),
        (" lter"@, "filter"@),
        (" eld"@, "field"@),
        (" elds"@, "fields"@),
        (" gure"@, "figure"@),
        (" gures"@, "figures"@),
        (" nite"@, "finite"@),
        (" nish"@, "finish"@),
        (" x"@, "fix"@),
        (" xed"@, "fixed"@),
        (" lm"@, "film"@),
        (" ll"@, "fill"@),
        (" lled"@, "filled"@),
        (" re"@, "fire"@),
        (" t"@, "fit"@),
        (" tness"@, "fitness"@),
        (" ve"@, "five"@),
        ("in uence"@, "influence"@),
        ("in uenced"@, "influenced"@),
        ("con ict"@, "conflict"@),
        ("con icts"@, "conflicts"@),
        ("re ect"@, "reflect"@),
        ("re ected"@, "reflected"@),
        ("re ection"@, "reflection"@),
        (" ow"@, "flow"@),
        (" ows"@, "flows"@),
        (" uid"@, "fluid"@),
        (" uids"@, "fluids"@),
        (" ag"@, "flag"@),
        (" ags"@, "flags"@),
        (" at"@, "flat"@),
        (" oor"@, "floor"@),
        (" y"@, "fly"@),
        (" ight"@, "flight"@),
        (" ex"@, "flex"@),
        (" exible"@, "flexible"@),
        (" exibility"@, "flexibility"@),
        ("e ect"@, "effect"@),
        ("e ects"@, "effects"@),
        ("e ective"@, "effective"@),
        ("e ectively"@, "effectively"@),
        ("e ort"@, "effort"@),
        ("e orts"@, "efforts"@),
        ("di erent"@, "different"@),
        ("di erence"@, "difference"@),
        ("di erences"@, "differences"@),
        ("di cult"@, "difficult"@),
        ("di culty"@, "difficulty"@),
        ("o er"@, "offer"@),
        ("o ers"@, "offers"@),
        ("o ered"@, "offered"@),
        ("a ect"@, "affect"@),
        ("a ects"@, "affects"@),
        ("a ected"@, "affected"@),
        ("a ord"@, "afford"@),
        ("su er"@, "suffer"@),
        ("su ering"@, "suffering"@),
        ("co ee"@, "coffee"@),
        ("sta "@, "staff"@),
        ("stu "@, "stuff"@),
    ]
}

/// The views of a list of pairs of string slices.
pub open spec fn pair_views(v: Seq<(&'static str, &'static str)>) -> Seq<(Seq<char>, Seq<char>)> {
    v.map_values(|p: (&'static str, &'static str)| (p.0@, p.1@))
}

fn ligature_pairs() -> (v: Vec<(&'static str, &'static str)>)
    ensures
        pair_views(v@) == ligature_table(),
{
    let v = vec![
        ("speci c", "specific"),
        ("signi cant", "significant"),
        ("identi ed", "identified"),
        ("identi cation", "identification"),
        ("certi cate", "certificate"),
        ("bene t", "benefit"),
        ("bene ts", "benefits"),
        ("ef cient", "efficient"),
        ("ef ciency", "efficiency"),
        ("suf cient", "sufficient"),
        ("de ned", "defined"),
        ("de nition", "definition"),
        ("de nitely", "definitely"),
        ("con rm", "confirm"),
        ("con rmed", "confirmed"),
        ("con gur", "configur"),
        ("modi ed", "modified"),
        ("modi cation", "modification"),
        ("veri ed", "verified"),
        ("veri cation", "verification"),
        ("classi ed", "classified"),
        ("classi cation", "classification"),
        ("quali ed", "qualified"),
        ("quanti ed", "quantified"),
        ("simpli ed", "simplified"),
        ("ampli ed", "amplified"),
        ("noti ed", "notified"),
        ("noti cation", "notification"),
        ("justi ed", "justified"),
        ("certi ed", "certified"),
        ("puri ed", "purified"),
        ("speci ed", "specified"),
        ("digni ed", "dignified"),
        (" rst", "first"),
        (" nal", "final"),
        (" nally", "finally"),
        (" nd", "find"),
        (" nding", "finding"),
        (" ndings", "findings"),
        (" le", "file"),
        (" les", "files"),
        (" lter", "filter"),
        (" eld", "field"),
        (" elds", "fields"),
        (" gure", "figure"),
        (" gures", "figures"),
        (" nite", "finite"),
        (" nish", "finish"),
        (" x", "fix"),
        (" xed", "fixed"),
        (" lm", "film"),
        (" ll", "fill"),
        (" lled", "filled"),
        (" re", "fire"),
        (" t", "fit"),
        (" tness", "fitness"),
        (" ve", "five"),
        ("in uence", "influence"),
        ("in uenced", "influenced"),
        ("con ict", "conflict"),
        ("con icts", "conflicts"),
        ("re ect", "reflect"),
        ("re ected", "reflected"),
        ("re ection", "reflection"),
        (" ow", "flow"),
        (" ows", "flows"),
        (" uid", "fluid"),
        (" uids", "fluids"),
        (" ag", "flag"),
        (" ags", "flags"),
        (" at", "flat"),
        (" oor", "floor"),
        (" y", "fly"),
        (" ight", "flight"),
        (" ex", "flex"),
        (" exible", "flexible"),
        (" exibility", "flexibility"),
        ("e ect", "effect"),
        ("e ects", "effects"),
        ("e ective", "effective"),
        ("e ectively", "effectively"),
        ("e ort", "effort"),
        ("e orts", "efforts"),
        ("di erent", "different"),
        ("di erence", "difference"),
        ("di erences", "differences"),
        ("di cult", "difficult"),
        ("di culty", "difficulty"),
        ("o er", "offer"),
        ("o ers", "offers"),
        ("o ered", "offered"),
        ("a ect", "affect"),
        ("a ects", "affects"),
        ("a ected", "affected"),
        ("a ord", "afford"),
        ("su er", "suffer"),
        ("su ering", "suffering"),
        ("co ee", "coffee"),
        ("sta ", "staff"),
        ("stu ", "stuff"),
    ];
    proof {
        assert(pair_views(v@) =~= ligature_table());
    }
    v
}

/// `text` after the first `n` pairs of `table` were applied, one after
/// the other, each to the whole text.
pub open spec fn fixes_applied(text: Seq<char>, table: Seq<(Seq<char>, Seq<char>)>, n: int) -> Seq<
    char,
>
    decreases n,
{
    if n <= 0 || n > table.len() {
        text
    } else {
        replaced(fixes_applied(text, table, n - 1), table[n - 1].0, table[n - 1].1)
    }
}

/// Repairs words that lost a ligature in extraction.
pub fn fix_ligatures(text: &str) -> (r: String)
    ensures
        r@ == fixes_applied(text@, ligature_table(), ligature_table().len() as int),
        r@ == repaired(text@),
{
    let table = ligature_pairs();
    let mut result = chars_of(text);
    let mut n: usize = 0;
    while n < table.len()
        invariant
            n <= table.len(),
            pair_views(table@) == ligature_table(),
            result@ == fixes_applied(text@, ligature_table(), n as int),
        decreases table.len() - n,
    {
        let from = chars_of(table[n].0);
        let to = chars_of(table[n].1);
        proof {
            assert(pair_views(table@)[n as int] == (table@[n as int].0@, table@[n as int].1@));
        }
        result = replace_all(&result, &from, &to);
        n += 1;
    }
    proof {
        assert(pair_views(table@).len() == table@.len());
    }
    string_of(&result)
}

/// The pattern of a timestamp in a transcript: minutes and seconds in
/// square brackets.
pub open spec fn timestamp_pattern() -> Seq<char> {
    "\\[(\\d+):(\\d+)\\]"@
}

/// The largest number of minutes or seconds that a timestamp may write;
/// a larger number counts as zero.
pub const MAX_TIME_PART: u64 = 0xFFFF_FFFF;

/// The milliseconds estimated for the last segment of a transcript.
pub const LAST_SEGMENT_MILLIS: u64 = 60_000;

/// The number that `bytes[a..b]` writes, or zero where it writes none
/// that a timestamp may hold.
pub open spec fn time_part(bytes: Seq<u8>, span: Span) -> int {
    match parsed_number(bytes, span.start as int, span.end as int, MAX_TIME_PART as int) {
        Some(v) => v,
        None => 0,
    }
}

/// What a line's first match of the timestamp pattern says, if the line
/// has one that fits it: the time in milliseconds, and where the
/// timestamp stands in the line.
pub open spec fn stamp_in(bytes: Seq<u8>, matches: Seq<Seq<Option<Span>>>) -> Option<(int, Span)> {
    if matches.len() == 0 || matches[0].len() < 3 {
        None
    } else {
        match (matches[0][0], matches[0][1], matches[0][2]) {
            (Some(whole), Some(minutes), Some(seconds)) => if whole.start <= whole.end
                <= bytes.len() && is_char_boundary(bytes, whole.start as int) && is_char_boundary(
                bytes,
                whole.end as int,
            ) {
                Some(
                    (
                        time_part(bytes, minutes) * 60_000 + time_part(bytes, seconds) * 1000,
                        whole,
                    ),
                )
            } else {
                None
            },
            _ => None,
        }
    }
}

/// A line without the stretch `span`.
pub open spec fn line_without(bytes: Seq<u8>, span: Span) -> Seq<char> {
    decode_utf8(bytes.subrange(0, span.start as int)) + decode_utf8(
        bytes.subrange(span.end as int, bytes.len() as int),
    )
}

/// A segment of a transcript.
pub struct SegmentOutline {
    pub start_time: int,
    pub end_time: int,
    pub text: Seq<char>,
}

/// What is known of a transcript after some of its lines: the segments
/// that are closed, and the start and the text of the one that is open.
pub struct TranscriptState {
    pub segments: Seq<SegmentOutline>,
    pub time: int,
    pub text: Seq<char>,
}

/// The state after one more line.
///
/// A line with a timestamp closes the open segment, if that has any
/// text, at the time of the timestamp, and opens a new one there; the
/// line, without its timestamp, is the new segment's first text. A line
/// without a timestamp is added to the open segment. A space follows
/// each line.
pub open spec fn after_line(
    state: TranscriptState,
    line: Seq<char>,
    matches: Seq<Seq<Option<Span>>>,
) -> TranscriptState {
    let bytes = encode_utf8(line);
    match stamp_in(bytes, matches) {
        Some((time, span)) => if state.text.len() > 0 {
            TranscriptState {
                segments: state.segments.push(
                    SegmentOutline {
                        start_time: state.time,
                        end_time: time,
                        text: trimmed(state.text),
                    },
                ),
                time: time,
                text: line_without(bytes, span) + seq![' '],
            }
        } else {
            TranscriptState {
                segments: state.segments,
                time: state.time,
                text: line_without(bytes, span) + seq![' '],
            }
        },
        None => TranscriptState {
            segments: state.segments,
            time: state.time,
            text: state.text + line + seq![' '],
        },
    }
}

/// The state after the first `n` lines, each with the matches of the
/// timestamp pattern in it.
pub open spec fn after_lines(
    lines: Seq<Seq<char>>,
    matches: Seq<Seq<Seq<Option<Span>>>>,
    n: int,
) -> TranscriptState
    decreases n,
{
    if n <= 0 || n > lines.len() || n > matches.len() {
        TranscriptState { segments: Seq::empty(), time: 0, text: Seq::empty() }
    } else {
        after_line(after_lines(lines, matches, n - 1), lines[n - 1], matches[n - 1])
    }
}

/// The segments of a transcript once its last line is read: the open
/// segment, if it has any text, is closed a minute after its start.
pub open spec fn closed_segments(state: TranscriptState) -> Seq<SegmentOutline> {
    if state.text.len() > 0 {
        state.segments.push(
            SegmentOutline {
                start_time: state.time,
                end_time: state.time + LAST_SEGMENT_MILLIS,
                text: trimmed(state.text),
            },
        )
    } else {
        state.segments
    }
}

/// Whether `seg` is the segment with outline `o`, without topics.
pub open spec fn segment_matches(seg: TimedSegment, o: SegmentOutline) -> bool {
    &&& seg.start_time == o.start_time
    &&& seg.end_time == o.end_time
    &&& seg.text@ == o.text
    &&& seg.topics@.len() == 0
}

/// Whether `segments` are the segments with outlines `outlines`.
pub open spec fn segments_match(segments: Seq<TimedSegment>, outlines: Seq<SegmentOutline>) -> bool {
    &&& segments.len() == outlines.len()
    &&& forall|i: int|
        0 <= i < segments.len() ==> segment_matches(#[trigger] segments[i], outlines[i])
}

/// The sequences of the matches found in each line.
pub open spec fn line_match_views(matches: Seq<Vec<Match>>) -> Seq<Seq<Seq<Option<Span>>>> {
    matches.map_values(|m: Vec<Match>| match_views(m@))
}

fn time_part_of(bytes: &[u8], span: Span) -> (r: u64)
    ensures
        r == time_part(bytes@, span),
        r <= MAX_TIME_PART,
{
    match parse_number(bytes, span.start, span.end, MAX_TIME_PART) {
        Some(v) => v,
        None => 0,
    }
}

fn stamp_of(line: &str, matches: &Vec<Match>) -> (r: Option<(u64, Span)>)
    ensures
        r matches Some(p) ==> stamp_in(encode_utf8(line@), match_views(matches@)) == Some(
            (p.0 as int, p.1),
        ) && p.0 <= 0xFFFF_FFFF * 61_000,
        r is None ==> stamp_in(encode_utf8(line@), match_views(matches@)) is None,
{
    if matches.len() == 0 {
        return None;
    }
    let m = &matches[0];
    assert(match_views(matches@)[0] == m@);
    if m.len() < 3 {
        return None;
    }
    match (m[0], m[1], m[2]) {
        (Some(whole), Some(minutes), Some(seconds)) => {
            let bytes = line.as_bytes();
            if whole.start <= whole.end && whole.end <= bytes.len() && line.is_char_boundary(
                whole.start,
            ) && line.is_char_boundary(whole.end) {
                let time = time_part_of(bytes, minutes) * 60_000 + time_part_of(bytes, seconds)
                    * 1000;
                Some((time, whole))
            } else {
                None
            }
        },
        _ => None,
    }
}

/// Reads the segments of a transcript off its lines, given for each line
/// the matches of the timestamp pattern in it.
pub fn transcript_segments(lines: &Vec<String>, matches: &Vec<Vec<Match>>) -> (r: Vec<TimedSegment>)
    requires
        lines@.len() == matches@.len(),
    ensures
        segments_match(
            r@,
            closed_segments(
                after_lines(
                    texts_of(lines@),
                    line_match_views(matches@),
                    lines@.len() as int,
                ),
            ),
        ),
{
    let ghost lv = texts_of(lines@);
    let ghost mv = line_match_views(matches@);
    let mut segments: Vec<TimedSegment> = Vec::new();
    let mut time: u64 = 0;
    let mut text = String::new();
    let mut n: usize = 0;
    while n < lines.len()
        invariant
            n <= lines.len(),
            lines@.len() == matches@.len(),
            lv == texts_of(lines@),
            mv == line_match_views(matches@),
            segments_match(segments@, after_lines(lv, mv, n as int).segments),
            time == after_lines(lv, mv, n as int).time,
            text@ == after_lines(lv, mv, n as int).text,
            time <= 0xFFFF_FFFF * 61_000,
        decreases lines.len() - n,
    {
        let line = lines[n].as_str();
        let ghost state = after_lines(lv, mv, n as int);
        let ghost next = after_line(state, line@, mv[n as int]);
        assert(lv[n as int] == line@);
        assert(mv[n as int] == match_views(matches@[n as int]@));
        assert(after_lines(lv, mv, n + 1) == next);
        match stamp_of(line, &matches[n]) {
            Some((stamp, span)) => {
                if !text.as_str().is_empty() {
                    let ghost before = segments@;
                    segments.push(
                        TimedSegment {
                            start_time: time,
                            end_time: stamp,
                            text: trim(text.as_str()),
                            topics: Vec::new(),
                        },
                    );
                    proof {
                        assert forall|i: int| 0 <= i < segments@.len() implies segment_matches(
                            #[trigger] segments@[i],
                            next.segments[i],
                        ) by {
                            if i < before.len() {
                                assert(segments@[i] == before[i]);
                                assert(next.segments[i] == state.segments[i]);
                            }
                        }
                    }
                    time = stamp;
                }
                proof {
                    vstd::utf8::encode_utf8_valid_utf8(line@);
                    vstd::utf8::is_char_boundary_start_end_of_seq(encode_utf8(line@));
                }
                let len = line.as_bytes().len();
                text = String::new();
                text.append(slice_str(line, 0, span.start));
                text.append(slice_str(line, span.end, len));
                text.append(" ");
                proof {
                    reveal_strlit(" ");
                    assert(text@ =~= line_without(encode_utf8(line@), span) + seq![' ']);
                }
            },
            None => {
                text.append(line);
                text.append(" ");
                proof {
                    reveal_strlit(" ");
                    assert(text@ =~= state.text + line@ + seq![' ']);
                }
            },
        }
        n += 1;
    }
    if !text.as_str().is_empty() {
        let ghost before = segments@;
        let ghost state = after_lines(lv, mv, n as int);
        segments.push(
            TimedSegment {
                start_time: time,
                end_time: time + LAST_SEGMENT_MILLIS,
                text: trim(text.as_str()),
                topics: Vec::new(),
            },
        );
        proof {
            assert forall|i: int| 0 <= i < segments@.len() implies segment_matches(
                #[trigger] segments@[i],
                closed_segments(state)[i],
            ) by {
                if i < before.len() {
                    assert(segments@[i] == before[i]);
                    assert(closed_segments(state)[i] == state.segments[i]);
                }
            }
        }
    }
    segments
}

/// The lines of a text, as strings.
pub fn lines(text: &str) -> (r: Vec<String>)
    ensures
        texts_of(r@) == lines_of(text@),
{
    let chars = chars_of(text);
    let split = split_lines(&chars);
    let mut r: Vec<String> = Vec::new();
    let mut i: usize = 0;
    while i < split.len()
        invariant
            i <= split.len(),
            texts_of(r@) == line_views(split@).take(i as int),
        decreases split.len() - i,
    {
        let ghost before = r@;
        r.push(string_of(&split[i]));
        proof {
            assert(texts_of(r@) =~= texts_of(before).push(
                split@[i as int]@,
            ));
            assert(line_views(split@).take(i + 1) =~= line_views(split@).take(i as int).push(
                split@[i as int]@,
            ));
        }
        i += 1;
    }
    proof {
        assert(line_views(split@).take(split@.len() as int) =~= line_views(split@));
    }
    r
}

/// The matches of a pattern in each of a list of lines.
pub open spec fn matches_in_lines(pattern: Seq<char>, lines: Seq<Seq<char>>) -> Seq<
    Seq<Seq<Option<Span>>>,
> {
    lines.map_values(|l: Seq<char>| regex_matches(pattern, l))
}

/// Finds the matches of `pattern` in each line.
pub fn find_in_lines(pattern: &str, lines: &Vec<String>) -> (r: Vec<Vec<Match>>)
    ensures
        r@.len() == lines@.len(),
        line_match_views(r@) == matches_in_lines(pattern@, texts_of(lines@)),
{
    let mut r: Vec<Vec<Match>> = Vec::new();
    let mut i: usize = 0;
    while i < lines.len()
        invariant
            i <= lines.len(),
            r@.len() == i,
            line_match_views(r@) == matches_in_lines(
                pattern@,
                texts_of(lines@),
            ).take(i as int),
        decreases lines.len() - i,
    {
        let ghost before = r@;
        let m = find_matches(pattern, lines[i].as_str());
        r.push(m);
        proof {
            let all = matches_in_lines(pattern@, texts_of(lines@));
            assert(texts_of(lines@)[i as int] == lines@[i as int]@);
            assert(line_match_views(r@) =~= line_match_views(before).push(all[i as int]));
            assert(all.take(i + 1) =~= all.take(i as int).push(all[i as int]));
        }
        i += 1;
    }
    proof {
        let all = matches_in_lines(pattern@, texts_of(lines@));
        assert(all.take(lines@.len() as int) =~= all);
    }
    r
}

/// Cuts a transcript into timed segments at its timestamps.
///
/// A transcript without text gives no segment.
pub fn parse_transcript_timestamps(transcript: &str) -> (r: Vec<TimedSegment>)
    ensures
        segments_match(
            r@,
            closed_segments(
                after_lines(
                    lines_of(transcript@),
                    matches_in_lines(timestamp_pattern(), lines_of(transcript@)),
                    lines_of(transcript@).len() as int,
                ),
            ),
        ),
{
    let all = lines(transcript);
    let matches = find_in_lines("\\[(\\d+):(\\d+)\\]", &all);
    proof {
        assert(texts_of(all@).len() == all@.len());
    }
    transcript_segments(&all, &matches)
}

/// What the extractor of audio gives for a transcript: its timed
/// segments, or the transcript as linear text where it has none.
pub fn transcript_content(transcript: String) -> (r: ExtractedContent)
    ensures
        ({
            let outlines = closed_segments(
                after_lines(
                    lines_of(transcript@),
                    matches_in_lines(timestamp_pattern(), lines_of(transcript@)),
                    lines_of(transcript@).len() as int,
                ),
            );
            if outlines.len() == 0 {
                r matches ExtractedContent::Text { text, pages } && text@ == transcript@
                    && pages is None
            } else {
                r matches ExtractedContent::Timed { segments } && segments_match(
                    segments@,
                    outlines,
                )
            }
        }),
{
    let segments = parse_transcript_timestamps(transcript.as_str());
    if segments.len() == 0 {
        ExtractedContent::Text { text: transcript, pages: None }
    } else {
        ExtractedContent::Timed { segments }
    }
}

/// The factor by which pages are enlarged for the operating system's
/// text recognition.
pub const OS_OCR_SCALE: u32 = 3;

/// The factor by which pages are enlarged for the model's text
/// recognition.
pub const VISION_OCR_SCALE: u32 = 2;

/// A text with the words repaired that lost a ligature in extraction.
pub open spec fn repaired(text: Seq<char>) -> Seq<char> {
    fixes_applied(text, ligature_table(), ligature_table().len() as int)
}

/// The texts of the pages that a PDF's content carries, given the texts
/// that were read page by page: each page with its ligatures repaired, in
/// the order of the pages. Where no page was read there are none, and the
/// PDF is chunked as one text.
pub open spec fn pdf_page_texts(texts: Option<Seq<Seq<char>>>) -> Option<Seq<Seq<char>>> {
    match texts {
        Some(t) => if t.len() > 0 {
            Some(t.map_values(|page: Seq<char>| repaired(page)))
        } else {
            None
        },
        None => None,
    }
}

/// The texts of the pages that a PDF's content carries where they were
/// recognized from images: the pages as they were read, if there is one.
pub open spec fn ocr_page_texts(texts: Option<Seq<Seq<char>>>) -> Option<Seq<Seq<char>>> {
    match texts {
        Some(t) => if t.len() > 0 {
            Some(t)
        } else {
            None
        },
        None => None,
    }
}

/// The character sequences of a list of texts, if there is one.
pub open spec fn page_texts(pages: Option<Vec<String>>) -> Option<Seq<Seq<char>>> {
    match pages {
        Some(p) => Some(texts_of(p@)),
        None => None,
    }
}

/// The pages that a PDF's content carries, from the texts that were read
/// from its text layer page by page; `texts` is `None` where they could
/// not be read.
pub fn extract_pdf_pages(texts: Option<Vec<String>>) -> (r: Option<Vec<String>>)
    ensures
        page_texts(r) == pdf_page_texts(page_texts(texts)),
{
    match texts {
        None => None,
        Some(t) => {
            if t.len() == 0 {
                return None;
            }
            let ghost all = texts_of(t@).map_values(|page: Seq<char>| repaired(page));
            let mut pages: Vec<String> = Vec::new();
            let mut i: usize = 0;
            while i < t.len()
                invariant
                    i <= t.len(),
                    all == texts_of(t@).map_values(|page: Seq<char>| repaired(page)),
                    texts_of(pages@) == all.take(i as int),
                decreases t.len() - i,
            {
                let ghost before = pages@;
                pages.push(fix_ligatures(t[i].as_str()));
                proof {
                    assert(texts_of(t@)[i as int] == t@[i as int]@);
                    assert(texts_of(pages@) =~= texts_of(before).push(all[i as int]));
                    assert(all.take(i + 1) =~= all.take(i as int).push(all[i as int]));
                }
                i += 1;
            }
            proof {
                assert(all.take(t@.len() as int) =~= all);
            }
            Some(pages)
        },
    }
}

/// The pages that a PDF's content carries, from the texts that were
/// recognized on the images of its pages; `texts` is `None` where the
/// pages are not known apart.
pub fn recognized_pages(texts: Option<Vec<String>>) -> (r: Option<Vec<String>>)
    ensures
        page_texts(r) == ocr_page_texts(page_texts(texts)),
{
    match texts {
        None => None,
        Some(t) => if t.len() == 0 {
            None
        } else {
            Some(t)
        },
    }
}

/// What to do next with a PDF.
#[derive(Debug, Clone)]
pub enum PdfStep {
    /// The content is extracted.
    Done(ExtractedContent),
    /// Have the model read the rendered pages.
    TryVisionOcr,
    /// Have the operating system read the rendered pages.
    TryOsOcr,
    /// Nothing could read the PDF.
    Fail(RecallError),
}

/// Whether a way of extraction gave text: it ran, and what it gave is
/// not empty but for white space.
pub open spec fn gave_text(text: Option<String>) -> bool {
    match text {
        Some(t) => trimmed(t@).len() > 0,
        None => false,
    }
}

/// The text of the failure for a PDF that nothing could read.
pub open spec fn unreadable_pdf_text(path: Seq<char>) -> Seq<char> {
    "Failed to extract text from PDF: \""@ + path
        + "\". The PDF may be empty, corrupted, or contain only non-text content."@
}

fn has_text(text: &Option<String>) -> (r: bool)
    ensures
        r == gave_text(*text),
{
    match text {
        Some(t) => !trim(t.as_str()).as_str().is_empty(),
        None => false,
    }
}

fn unreadable_pdf(path: &str) -> (e: RecallError)
    ensures
        e matches RecallError::Ingestion(m) && m@ == unreadable_pdf_text(path@),
{
    let mut m = String::new();
    m.append("Failed to extract text from PDF: \"");
    m.append(path);
    m.append("\". The PDF may be empty, corrupted, or contain only non-text content.");
    proof {
        assert(m@ =~= unreadable_pdf_text(path@));
    }
    RecallError::Ingestion(m)
}

/// Decides what to do with a PDF after its text layer was read; `text`
/// is `None` where that failed, and `pages` holds the text of each page
/// where the pages could be read one by one.
///
/// Text that is not empty is the content, with its ligatures repaired,
/// and with its pages, so that each chunk can carry the number of its
/// page. Else the model is asked to read the pages, if there is one; else
/// the operating system, if it can; else the PDF is given up.
pub fn after_pdf_text(
    path: &str,
    text: Option<String>,
    pages: Option<Vec<String>>,
    has_vision: bool,
    has_os_ocr: bool,
) -> (r: PdfStep)
    ensures
        gave_text(text) ==> (r matches PdfStep::Done(ExtractedContent::Text { text: t, pages: p })
            && t@ == repaired(text->0@) && page_texts(p) == pdf_page_texts(page_texts(pages))),
        !gave_text(text) && has_vision ==> r is TryVisionOcr,
        !gave_text(text) && !has_vision && has_os_ocr ==> r is TryOsOcr,
        !gave_text(text) && !has_vision && !has_os_ocr ==> (r matches PdfStep::Fail(
            RecallError::Ingestion(m),
        ) && m@ == unreadable_pdf_text(path@)),
{
    if has_text(&text) {
        let t = text.unwrap();
        PdfStep::Done(
            ExtractedContent::Text {
                text: fix_ligatures(t.as_str()),
                pages: extract_pdf_pages(pages),
            },
        )
    } else if has_vision {
        PdfStep::TryVisionOcr
    } else if has_os_ocr {
        PdfStep::TryOsOcr
    } else {
        PdfStep::Fail(unreadable_pdf(path))
    }
}

/// Decides what to do with a PDF after the model has read its pages;
/// `text` is `None` where that failed, and `pages` holds what was read
/// on each page where the pages are known apart.
pub fn after_vision_ocr(
    path: &str,
    text: Option<String>,
    pages: Option<Vec<String>>,
    has_os_ocr: bool,
) -> (r: PdfStep)
    ensures
        gave_text(text) ==> (r matches PdfStep::Done(ExtractedContent::Text { text: t, pages: p })
            && t@ == text->0@ && page_texts(p) == ocr_page_texts(page_texts(pages))),
        !gave_text(text) && has_os_ocr ==> r is TryOsOcr,
        !gave_text(text) && !has_os_ocr ==> (r matches PdfStep::Fail(RecallError::Ingestion(m))
            && m@ == unreadable_pdf_text(path@)),
{
    if has_text(&text) {
        PdfStep::Done(
            ExtractedContent::Text { text: text.unwrap(), pages: recognized_pages(pages) },
        )
    } else if has_os_ocr {
        PdfStep::TryOsOcr
    } else {
        PdfStep::Fail(unreadable_pdf(path))
    }
}

/// Decides what to do with a PDF after the operating system has read its
/// pages; `text` is `None` where that failed, and `pages` holds what was
/// read on each page where the pages are known apart.
pub fn after_os_ocr(path: &str, text: Option<String>, pages: Option<Vec<String>>) -> (r: PdfStep)
    ensures
        gave_text(text) ==> (r matches PdfStep::Done(ExtractedContent::Text { text: t, pages: p })
            && t@ == text->0@ && page_texts(p) == ocr_page_texts(page_texts(pages))),
        !gave_text(text) ==> (r matches PdfStep::Fail(RecallError::Ingestion(m)) && m@
            == unreadable_pdf_text(path@)),
{
    if has_text(&text) {
        PdfStep::Done(
            ExtractedContent::Text { text: text.unwrap(), pages: recognized_pages(pages) },
        )
    } else {
        PdfStep::Fail(unreadable_pdf(path))
    }
}

/// A frame taken from a video.
#[derive(Debug, Clone)]
pub struct VideoFrame {
    /// In milliseconds from the start of the video.
    pub timestamp: u64,
    pub image_data: Vec<u8>,
}

/// A scene of a video as the model describes it; its times count from
/// the start of the window that was shown to the model.
#[derive(Debug, Clone)]
pub struct VideoSegment {
    pub start_time: u64,
    pub end_time: u64,
    pub description: String,
    pub topics: Vec<String>,
}

/// The frames that are shown to the model at most for one window.
pub const MAX_FRAMES_PER_REQUEST: usize = 20;

/// Whether `windows` cut the time from 0 to `duration` into windows of
/// `length`: each starts where the one before ends, every window but the
/// last is `length` long, and the last is what is left.
pub open spec fn is_windowing(windows: Seq<(u64, u64)>, duration: int, length: int) -> bool {
    &&& (windows.len() == 0 <==> duration == 0)
    &&& windows.len() > 0 ==> windows[0].0 == 0 && windows.last().1 == duration
    &&& forall|k: int|
        0 <= k < windows.len() ==> (#[trigger] windows[k]).0 < windows[k].1 && windows[k].1
            - windows[k].0 <= length
    &&& forall|k: int|
        0 <= k < windows.len() - 1 ==> (#[trigger] windows[k]).1 - windows[k].0 == length
            && windows[k + 1].0 == windows[k].1
}

/// Cuts a video of `duration` milliseconds into windows of at most
/// `length` milliseconds.
pub fn video_windows(duration: u64, length: u64) -> (r: Vec<(u64, u64)>)
    requires
        length > 0,
    ensures
        is_windowing(r@, duration as int, length as int),
{
    let mut r: Vec<(u64, u64)> = Vec::new();
    let mut start: u64 = 0;
    while start < duration
        invariant
            length > 0,
            start <= duration,
            r@.len() == 0 <==> start == 0,
            r@.len() > 0 ==> r@[0].0 == 0 && r@.last().1 == start,
            forall|k: int|
                0 <= k < r@.len() ==> (#[trigger] r@[k]).0 < r@[k].1 && r@[k].1 - r@[k].0
                    == length,
            forall|k: int| 0 <= k < r@.len() - 1 ==> r@[k + 1].0 == (#[trigger] r@[k]).1,
        decreases duration - start,
    {
        let end = if duration - start <= length {
            duration
        } else {
            start + length
        };
        r.push((start, end));
        if end == duration {
            return r;
        }
        start = end;
    }
    r
}

/// The places of the first `n` frames that were taken at or after
/// `start` and before `end`.
pub open spec fn frames_between(frames: Seq<VideoFrame>, start: u64, end: u64, n: int) -> Seq<int>
    decreases n,
{
    if n <= 0 || n > frames.len() {
        Seq::empty()
    } else {
        let prev = frames_between(frames, start, end, n - 1);
        if start <= frames[n - 1].timestamp < end {
            prev.push(n - 1)
        } else {
            prev
        }
    }
}

/// The places of the frames of one window, in order.
pub fn frames_in_window(frames: &Vec<VideoFrame>, start: u64, end: u64) -> (r: Vec<usize>)
    ensures
        r@.map_values(|i: usize| i as int) == frames_between(
            frames@,
            start,
            end,
            frames@.len() as int,
        ),
        forall|k: int| 0 <= k < r@.len() ==> (#[trigger] r@[k]) < frames@.len(),
{
    let mut r: Vec<usize> = Vec::new();
    let mut n: usize = 0;
    proof {
        assert(r@.map_values(|i: usize| i as int) =~= frames_between(frames@, start, end, 0));
    }
    while n < frames.len()
        invariant
            n <= frames.len(),
            r@.map_values(|i: usize| i as int) == frames_between(frames@, start, end, n as int),
            forall|k: int| 0 <= k < r@.len() ==> (#[trigger] r@[k]) < frames@.len(),
        decreases frames.len() - n,
    {
        let ghost before = r@;
        if start <= frames[n].timestamp && frames[n].timestamp < end {
            r.push(n);
            proof {
                assert(r@.map_values(|i: usize| i as int) =~= before.map_values(
                    |i: usize| i as int,
                ).push(n as int));
            }
        }
        n += 1;
    }
    r
}

/// The step at which frames are shown to the model: every frame where
/// there are at most twenty, else every one in `count / 20`.
pub fn frame_step(count: usize) -> (r: usize)
    ensures
        r == if count > MAX_FRAMES_PER_REQUEST {
            count / MAX_FRAMES_PER_REQUEST
        } else {
            1
        },
        r >= 1,
{
    if count > MAX_FRAMES_PER_REQUEST {
        count / MAX_FRAMES_PER_REQUEST
    } else {
        1
    }
}

/// A time moved on by `offset`, or the largest time where the sum
/// exceeds it.
pub open spec fn moved(time: u64, offset: u64) -> u64 {
    if time + offset > u64::MAX {
        u64::MAX
    } else {
        (time + offset) as u64
    }
}

fn move_time(time: u64, offset: u64) -> (r: u64)
    ensures
        r == moved(time, offset),
{
    if time > u64::MAX - offset {
        u64::MAX
    } else {
        time + offset
    }
}

/// Whether `seg` is the scene `scene` of the window that starts at
/// `offset`, with times counted from the start of the video.
pub open spec fn is_scene(seg: TimedSegment, scene: VideoSegment, offset: u64) -> bool {
    &&& seg.start_time == moved(scene.start_time, offset)
    &&& seg.end_time == moved(scene.end_time, offset)
    &&& seg.text@ == scene.description@
    &&& seg.topics@ == scene.topics@
}

/// Turns the scenes that the model found in the window that starts at
/// `offset` into segments of the video.
pub fn offset_segments(scenes: Vec<VideoSegment>, offset: u64) -> (r: Vec<TimedSegment>)
    ensures
        r@.len() == scenes@.len(),
        forall|i: int| 0 <= i < r@.len() ==> is_scene(#[trigger] r@[i], scenes@[i], offset),
{
    let mut r: Vec<TimedSegment> = Vec::new();
    let mut i: usize = 0;
    while i < scenes.len()
        invariant
            i <= scenes.len(),
            r@.len() == i,
            forall|j: int| 0 <= j < i ==> is_scene(#[trigger] r@[j], scenes@[j], offset),
        decreases scenes.len() - i,
    {
        let scene = &scenes[i];
        let mut topics: Vec<String> = Vec::new();
        let mut k: usize = 0;
        while k < scene.topics.len()
            invariant
                k <= scene.topics.len(),
                topics@ == scene.topics@.take(k as int),
            decreases scene.topics.len() - k,
        {
            topics.push(scene.topics[k].clone());
            proof {
                assert(scene.topics@.take(k + 1) =~= scene.topics@.take(k as int).push(
                    scene.topics@[k as int],
                ));
            }
            k += 1;
        }
        proof {
            assert(scene.topics@.take(scene.topics@.len() as int) =~= scene.topics@);
        }
        r.push(
            TimedSegment {
                start_time: move_time(scene.start_time, offset),
                end_time: move_time(scene.end_time, offset),
                text: scene.description.clone(),
                topics,
            },
        );
        i += 1;
    }
    r
}

/// Checks that frames were taken from a video.
pub fn check_frames(count: usize) -> (r: std::result::Result<(), RecallError>)
    ensures
        r is Err <==> count == 0,
        r matches Err(e) ==> (e matches RecallError::FFmpeg(m) && m@
            == "No frames extracted from video"@),
{
    if count == 0 {
        Err(RecallError::FFmpeg("No frames extracted from video".to_owned()))
    } else {
        Ok(())
    }
}

/// Completes the content of a video of `duration` milliseconds: the
/// scenes that were found, and behind them the transcript of its sound,
/// if there is one, as one segment over the whole video.
///
/// Fails where there is neither a scene nor a transcript.
pub fn finish_video(scenes: Vec<TimedSegment>, transcript: Option<String>, duration: u64) -> (r:
    std::result::Result<ExtractedContent, RecallError>)
    ensures
        ({
            let spoken = transcript matches Some(t) && t@.len() > 0;
            &&& r is Err <==> (scenes@.len() == 0 && !spoken)
            &&& r matches Err(e) ==> (e matches RecallError::Ingestion(m) && m@
                == "No content extracted from video"@)
            &&& r matches Ok(content) ==> (content matches ExtractedContent::Timed { segments }
                && if spoken {
                segments@.len() == scenes@.len() + 1 && segments@.subrange(
                    0,
                    scenes@.len() as int,
                ) == scenes@ && segments@.last().start_time == 0 && segments@.last().end_time
                    == duration && segments@.last().text@ == transcript->0@
                    && segments@.last().topics@.len() == 1 && segments@.last().topics@[0]@
                    == "transcript"@
            } else {
                segments@ == scenes@
            })
        }),
{
    let mut segments = scenes;
    match transcript {
        Some(t) => {
            if !t.as_str().is_empty() {
                let mut topics: Vec<String> = Vec::new();
                topics.push("transcript".to_owned());
                segments.push(
                    TimedSegment { start_time: 0, end_time: duration, text: t, topics },
                );
                proof {
                    assert(segments@.subrange(0, scenes@.len() as int) =~= scenes@);
                }
            }
        },
        None => {},
    }
    if segments.len() == 0 {
        Err(RecallError::Ingestion("No content extracted from video".to_owned()))
    } else {
        Ok(ExtractedContent::Timed { segments })
    }
}

} // verus!
