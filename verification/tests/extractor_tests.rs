use recall_os::chunker::{Chunker, ExtractedContent, TimedSegment};
use recall_os::error::RecallError;
use recall_os::extractor::{
    after_os_ocr, after_pdf_text, after_vision_ocr, check_frames, extract_pdf_pages,
    finish_video, fix_ligatures, frame_step, frames_in_window, lines, offset_segments,
    parse_transcript_timestamps, transcript_content, transcript_segments, video_windows,
    PdfStep, VideoFrame, VideoSegment,
};
use recall_os::lines::{replace_all, split_lines};
use recall_os::ocr::{combine_pages, keep_single_page, parse_page_markers, sort_pages};
use recall_os::ocr_cleanup::{clean_ocr_text, replace_runs, RunKind};
use recall_os::patterns::Span;
use recall_os::text::{chars_of, string_of};

fn replace(s: &str, from: &str, to: &str) -> String {
    string_of(&replace_all(&chars_of(s), &chars_of(from), &chars_of(to)))
}

#[test]
fn replacement_is_leftmost_and_does_not_overlap() {
    assert_eq!(replace("aaaa", "aa", "b"), "bb");
    assert_eq!(replace("aaa", "aa", "b"), "ba");
    assert_eq!(replace("abc", "x", "y"), "abc");
    assert_eq!(replace("abc", "", "y"), "abc");
    assert_eq!(replace("a/b/c", "/", "\\"), "a\\b\\c");
    assert_eq!(replace("", "a", "b"), "");
    assert_eq!(replace("xaxa", "a", ""), "xx");
}

#[test]
fn ligatures_are_repaired() {
    assert_eq!(fix_ligatures("a speci c and signi cant bene t"), "a specific and significant benefit");
    assert_eq!(fix_ligatures("in uence and con ict"), "influence and conflict");
    assert_eq!(fix_ligatures("no e ect, di erent co ee"), "no effect, different coffee");
    // Pairs are applied in order, each to the whole text: " rst" comes
    // before " re", and the space before the word is part of what is
    // replaced.
    assert_eq!(fix_ligatures("the rst le"), "thefirstfile");
    assert_eq!(fix_ligatures("unchanged"), "unchanged");
    assert_eq!(fix_ligatures(""), "");
}

#[test]
fn lines_are_split_as_text_is_read() {
    assert_eq!(lines("a\nb\r\nc"), vec!["a", "b", "c"]);
    assert_eq!(lines("a\n"), vec!["a"]);
    assert_eq!(lines("a\n\nb"), vec!["a", "", "b"]);
    assert_eq!(lines("\n"), vec![""]);
    assert_eq!(lines("only"), vec!["only"]);
    assert!(lines("").is_empty());
    // A carriage return that no line feed follows is part of the line.
    assert_eq!(lines("a\rb\r"), vec!["a\rb\r"]);
    assert_eq!(split_lines(&chars_of("x\ny")).len(), 2);
}

#[test]
fn transcripts_are_cut_at_their_timestamps() {
    let segs = parse_transcript_timestamps("[00:05] Hello there\nmore words\n[01:10] Second part\n");
    assert_eq!(segs.len(), 2);
    // The first segment starts at zero whatever its timestamp says.
    assert_eq!(segs[0].start_time, 0);
    assert_eq!(segs[0].end_time, 70_000);
    assert_eq!(segs[0].text, "Hello there more words");
    assert!(segs[0].topics.is_empty());
    assert_eq!(segs[1].start_time, 70_000);
    assert_eq!(segs[1].end_time, 130_000);
    assert_eq!(segs[1].text, "Second part");
}

#[test]
fn transcripts_without_timestamps_are_one_segment_or_plain_text() {
    let segs = parse_transcript_timestamps("just words\nand more");
    assert_eq!(segs.len(), 1);
    assert_eq!(segs[0].start_time, 0);
    assert_eq!(segs[0].end_time, 60_000);
    assert_eq!(segs[0].text, "just words and more");
    assert!(parse_transcript_timestamps("").is_empty());
    match transcript_content(String::new()) {
        ExtractedContent::Text { text, pages } => {
            assert_eq!(text, "");
            assert!(pages.is_none());
        }
        other => panic!("unexpected {:?}", other),
    }
    match transcript_content("[00:01] a\n[00:02] b".to_string()) {
        ExtractedContent::Timed { segments } => {
            assert_eq!(segments.len(), 2);
            assert_eq!(segments[0].end_time, 2_000);
            assert_eq!(segments[1].start_time, 2_000);
            assert_eq!(segments[1].end_time, 62_000);
        }
        other => panic!("unexpected {:?}", other),
    }
    // Middle of a line, and a number too large to be a time.
    let segs = parse_transcript_timestamps("a\nmid [02:03] line\n[99999999999:01] z");
    assert_eq!(segs.len(), 3);
    assert_eq!(segs[0].text, "a");
    assert_eq!(segs[0].end_time, 123_000);
    assert_eq!(segs[1].text, "mid  line");
    assert_eq!(segs[1].end_time, 1_000);
}

#[test]
fn transcript_segments_from_given_matches() {
    let all = vec!["[00:05] x".to_string(), "y".to_string()];
    let stamp = vec![
        Some(Span { start: 0, end: 7 }),
        Some(Span { start: 1, end: 3 }),
        Some(Span { start: 4, end: 6 }),
    ];
    let segs = transcript_segments(&all, &vec![vec![stamp], vec![]]);
    assert_eq!(segs.len(), 1);
    assert_eq!(segs[0].text, "x y");
    // A match that does not fit its line is no timestamp.
    let bad = vec![Some(Span { start: 0, end: 70 }), None, None];
    let segs = transcript_segments(&all, &vec![vec![bad], vec![]]);
    assert_eq!(segs[0].text, "[00:05] x y");
}

#[test]
fn pdf_extraction_escalates() {
    assert!(extract_pdf_pages(None).is_none());
    assert!(extract_pdf_pages(Some(vec![])).is_none());
    assert_eq!(
        extract_pdf_pages(Some(vec!["bene t".to_string(), "b".to_string()])),
        Some(vec!["benefit".to_string(), "b".to_string()])
    );
    match after_pdf_text("a.pdf", Some("Some speci c data".to_string()), None, true, true) {
        PdfStep::Done(ExtractedContent::Text { text, pages }) => {
            assert_eq!(text, "Some specific data");
            assert!(pages.is_none());
        }
        other => panic!("unexpected {:?}", other),
    }
    assert!(matches!(
        after_pdf_text("a.pdf", Some("  \n".into()), None, true, true),
        PdfStep::TryVisionOcr
    ));
    assert!(matches!(after_pdf_text("a.pdf", None, None, true, false), PdfStep::TryVisionOcr));
    assert!(matches!(after_pdf_text("a.pdf", None, None, false, true), PdfStep::TryOsOcr));
    match after_pdf_text("a.pdf", None, None, false, false) {
        PdfStep::Fail(RecallError::Ingestion(m)) => assert_eq!(
            m,
            "Failed to extract text from PDF: \"a.pdf\". The PDF may be empty, corrupted, or contain only non-text content."
        ),
        other => panic!("unexpected {:?}", other),
    }
    assert!(matches!(
        after_vision_ocr("a.pdf", Some("read".into()), None, true),
        PdfStep::Done(ExtractedContent::Text { text, pages: None }) if text == "read"
    ));
    assert!(matches!(after_vision_ocr("a.pdf", Some("".into()), None, true), PdfStep::TryOsOcr));
    assert!(matches!(after_vision_ocr("a.pdf", None, None, false), PdfStep::Fail(_)));
    assert!(matches!(
        after_os_ocr("a.pdf", Some("text".into()), None),
        PdfStep::Done(ExtractedContent::Text { text, pages: None }) if text == "text"
    ));
    assert!(matches!(after_os_ocr("a.pdf", Some(" ".into()), None), PdfStep::Fail(_)));
    assert!(matches!(after_os_ocr("a.pdf", None, None), PdfStep::Fail(_)));
    let read = Some(vec!["one".to_string(), "two".to_string()]);
    match after_os_ocr("a.pdf", Some("one two".into()), read.clone()) {
        PdfStep::Done(ExtractedContent::Text { pages, .. }) => assert_eq!(pages, read),
        other => panic!("unexpected {:?}", other),
    }
    match after_vision_ocr("a.pdf", Some("one two".into()), Some(vec![]), false) {
        PdfStep::Done(ExtractedContent::Text { pages, .. }) => assert!(pages.is_none()),
        other => panic!("unexpected {:?}", other),
    }
}

#[test]
fn chunks_of_a_pdf_carry_their_pages() {
    let page = "The quick brown fox jumps over the lazy dog.".to_string();
    let whole = format!("{}\n{}\n{}", page, page, page);
    let pages = Some(vec![page.clone(), page.clone(), page.clone()]);
    let content = match after_pdf_text("fox.pdf", Some(whole), pages, false, false) {
        PdfStep::Done(content) => content,
        other => panic!("unexpected {:?}", other),
    };
    let chunks = Chunker::new(512, 50).chunk("doc", &content).unwrap();
    assert_eq!(chunks.len(), 3);
    let numbers: Vec<Option<i32>> = chunks.iter().map(|c| c.page_number).collect();
    assert_eq!(numbers, vec![Some(1), Some(2), Some(3)]);
    assert!(chunks.iter().all(|c| c.content == fix_ligatures(&page)));
}

#[test]
fn videos_are_cut_into_windows() {
    assert_eq!(video_windows(700_000, 300_000), vec![(0, 300_000), (300_000, 600_000), (600_000, 700_000)]);
    assert_eq!(video_windows(600_000, 300_000), vec![(0, 300_000), (300_000, 600_000)]);
    assert_eq!(video_windows(10, 300_000), vec![(0, 10)]);
    assert!(video_windows(0, 300_000).is_empty());
    let frames: Vec<VideoFrame> = (0..5)
        .map(|i| VideoFrame { timestamp: i * 5_000, image_data: vec![] })
        .collect();
    assert_eq!(frames_in_window(&frames, 5_000, 15_000), vec![1, 2]);
    assert!(frames_in_window(&frames, 100_000, 200_000).is_empty());
    assert_eq!(frame_step(5), 1);
    assert_eq!(frame_step(20), 1);
    assert_eq!(frame_step(45), 2);
    assert!(check_frames(3).is_ok());
    assert!(matches!(check_frames(0), Err(RecallError::FFmpeg(m)) if m == "No frames extracted from video"));
    let scenes = vec![VideoSegment {
        start_time: 1_000,
        end_time: 4_000,
        description: "a cat".into(),
        topics: vec!["cat".into()],
    }];
    let segs = offset_segments(scenes, 300_000);
    assert_eq!(segs[0].start_time, 301_000);
    assert_eq!(segs[0].end_time, 304_000);
    assert_eq!(segs[0].text, "a cat");
    assert_eq!(segs[0].topics, vec!["cat".to_string()]);
    match finish_video(segs.clone(), Some("spoken words".into()), 700_000) {
        Ok(ExtractedContent::Timed { segments }) => {
            assert_eq!(segments.len(), 2);
            assert_eq!(segments[1].start_time, 0);
            assert_eq!(segments[1].end_time, 700_000);
            assert_eq!(segments[1].text, "spoken words");
            assert_eq!(segments[1].topics, vec!["transcript".to_string()]);
        }
        other => panic!("unexpected {:?}", other),
    }
    let none: Vec<TimedSegment> = vec![];
    assert!(matches!(
        finish_video(none.clone(), Some(String::new()), 10),
        Err(RecallError::Ingestion(m)) if m == "No content extracted from video"
    ));
    assert!(finish_video(none, None, 10).is_err());
    assert!(matches!(finish_video(segs, None, 10), Ok(ExtractedContent::Timed { segments }) if segments.len() == 1));
}

#[test]
fn recognised_pages() {
    let pages = parse_page_markers("noise\n[PAGE 2]\nsecond\npage\n[PAGE1]\nfirst\n[PAGE 3]\n  \n");
    assert_eq!(pages, vec![(2, "second\npage".to_string()), (1, "first".to_string())]);
    // A marker without a number that fits closes the page and opens none.
    let pages = parse_page_markers("[PAGE 1]\na\n[PAGE 99999999999]\nlost\n[PAGE 2]\nb");
    assert_eq!(pages, vec![(1, "a".to_string()), (2, "b".to_string())]);
    assert!(parse_page_markers("").is_empty());
    let sorted = sort_pages(vec![(3, "c".into()), (1, "a".into()), (3, "d".into()), (2, "b".into())]);
    assert_eq!(
        sorted,
        vec![(1, "a".to_string()), (2, "b".to_string()), (3, "c".to_string()), (3, "d".to_string())]
    );
    assert_eq!(
        combine_pages(vec![(2, "two".into()), (1, "one".into())]),
        "one\n\n--- Page 2 ---\n\ntwo"
    );
    assert_eq!(combine_pages(vec![]), "");
    assert_eq!(combine_pages(vec![(1, "".into()), (2, "x".into())]), "x");
    assert_eq!(keep_single_page(Ok(" text ".into())), Some(" text ".to_string()));
    assert_eq!(keep_single_page(Ok("  ".into())), None);
    assert_eq!(keep_single_page(Err(RecallError::Http("x".into()))), None);
}

#[test]
fn recognised_text_is_tidied() {
    assert_eq!(clean_ocr_text("Hello world\n\n\n\n\nNext line"), "Hello world\n\nNext line");
    assert_eq!(clean_ocr_text("  padded  \n--- Page 2 ---\n"), "padded\n--- Page 2 ---");
    assert_eq!(clean_ocr_text("Lorem   IPSUM dolor\nkeep me"), "keep me");
    assert_eq!(clean_ocr_text("#$%^&*()_+{}\nfine text here"), "fine text here");
    assert_eq!(clean_ocr_text("a!\nok\n?"), "ok");
    assert_eq!(clean_ocr_text("wait.... what --- now *** then   end"), "wait... what \u{e2}\u{20ac}\u{201d} now  then  end");
    // Three of seven characters are marks: more than four tenths.
    assert_eq!(clean_ocr_text("dots..."), "");
    assert_eq!(clean_ocr_text("many dots..."), "many dots...");
    assert_eq!(clean_ocr_text(""), "");
    assert_eq!(replace_runs_text("a....b..c", RunKind::FullStop, 4, "..."), "a...b..c");
    assert_eq!(replace_runs_text("----", RunKind::Hyphen, 3, "-"), "-");
    assert_eq!(replace_runs_text("x  y", RunKind::WhiteSpace, 3, " "), "x  y");
}

fn replace_runs_text(s: &str, kind: RunKind, min: usize, to: &str) -> String {
    string_of(&replace_runs(&chars_of(s), kind, min, &chars_of(to)))
}
