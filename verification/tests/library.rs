use hra::gpt::{chat_reply_content, english_answer, gpt_text, gpt_title, gpt_yes_no, gpt_yes_no_checked, local_gpt_body, local_gpt_url};
use hra::llm::{accept_title, choose_text, english_check, generate_title, parse_yes_no, TITLE_ATTEMPTS};
use hra::monitor::{accept_screen_title, title_long_enough, Monitor, MonitorAction, TitleLookup};
use hra::prompts::{english_prompt, sample_captions};
use hra::screen::CaptureArea;
use hra::strings::{first_n_chars, i32_decimal, str_contains, str_replace, u64_decimal, usize_decimal};
use hra::text::{is_youtube, path_clean, title_text_blacklist, title_text_filter, youtube_url_filter};
use hra::thumbnail::{caption_png, pick_random, text_options, CaptionPngError};
use hra::video::{
    file_result, latest_video, merge_plan, noembed_title, noembed_url, recording_pattern,
    replay_pattern, title_step, video_destination, GlobResult, MergeAttempts, TitleStep,
    MERGE_ATTEMPTS,
};

fn strings(items: &[&str]) -> Vec<String> {
    items.iter().map(|s| s.to_string()).collect()
}

fn title_message(all_captions: &str) -> String {
    format!(
        "I have a lot of text gathered from a video. The video
        is of a Twitch streamer reacting to a video. The text
        will include captions of both the streamer reacting
        and the video being watched itself. Here are the captions:
        {all_captions}. Based on those captions, what short and 
        what would you guess is the title of video that is being
        reacted to? Reply with only the text 'Hasan reacts to' followed
        by your video title guess."
    )
}

fn phrase_message(all_captions: &str, text_options: &str) -> String {
    format!(
        "I have a lot of text gathered from a video. The video
        is of a Twitch streamer reacting to a video. The text
        will include captions of both the streamer reacting
        and the video being watched itself. Here are the captions:
        {all_captions}. I also have a list of phrases to choose from,
        which is as follows: {text_options}. Based on those captions,
        and sourcing from those phrase options, which phrase would you say
        fits the video based on the captions? Reply with only the text
        of what phrase you think is best. No explaining it, no preceding it
        or posting after it, only the text itself."
    )
}

#[test]
fn replace_is_left_to_right_and_non_overlapping() {
    assert_eq!(str_replace("aaa", "aa", "b"), "ba");
    assert_eq!(str_replace("abcabc", "bc", ""), "aa");
    assert_eq!(str_replace("", "x", "y"), "");
    assert_eq!(str_replace("héllo", "é", "e"), "hello");
}

#[test]
fn contains_finds_substrings() {
    assert!(str_contains("youtube", "tub"));
    assert!(!str_contains("you", "youtube"));
    assert!(str_contains("abc", ""));
    assert!(!str_contains("", "a"));
}

#[test]
fn first_chars_counts_characters() {
    assert_eq!(first_n_chars("ééééé", 2), "éé");
    assert_eq!(first_n_chars("ab", 8), "ab");
    assert_eq!(first_n_chars("abc", 0), "");
}

#[test]
fn decimals_match_display() {
    assert_eq!(u64_decimal(0), "0");
    assert_eq!(u64_decimal(1725029869), "1725029869");
    assert_eq!(u64_decimal(u64::MAX), u64::MAX.to_string());
    assert_eq!(usize_decimal(100), "100");
    assert_eq!(i32_decimal(-5), "-5");
    assert_eq!(i32_decimal(i32::MIN), i32::MIN.to_string());
    assert_eq!(i32_decimal(i32::MAX), i32::MAX.to_string());
}

#[test]
fn youtube_url_filter_repairs_ocr() {
    assert_eq!(youtube_url_filter("www.youtubecomwatchv=abc | x`\u{2018}"), "www.youtube.com/watch?v=abcIx");
    assert_eq!(youtube_url_filter("youtu.comy watchv=1"), "youtu.com/watch?v=1");
}

#[test]
fn youtube_url_filter_leaves_no_noise() {
    let out = youtube_url_filter(" a|b`c\u{2018} .comy becom comwatch ");
    for c in [' ', '|', '`', '\u{2018}'] {
        assert!(!out.contains(c));
    }
}

#[test]
fn is_youtube_ignores_case_and_ocr_errors() {
    assert!(is_youtube("https://www.YOUTUBE.com/watch?v=x"));
    assert!(is_youtube("y autube com"));
    assert!(is_youtube("ouuube"));
    assert!(is_youtube("OUIUBE"));
    assert!(is_youtube("o u l u b e"));
    assert!(!is_youtube("twitch.tv/hasanabi"));
    assert!(!is_youtube(""));
}

#[test]
fn title_blacklist_cases() {
    assert!(title_text_blacklist("(%Premium"));
    assert!(title_text_blacklist("(\u{a2} Premium"));
    assert!(title_text_blacklist("(& x"));
    assert!(title_text_blacklist("search here"));
    assert!(!title_text_blacklist("Search"));
    assert!(!title_text_blacklist("A real title"));
}

#[test]
fn title_filter_cleans() {
    assert_eq!(title_text_filter("Hello | World\n\t\"x\\\"y\\ `z\u{2018}\r"), "Hello I World xy z");
    assert_eq!(title_text_filter("plain"), "plain");
}

#[test]
fn title_filter_never_lengthens() {
    for t in ["", "a|b", "x\ty\n", "\\\"\"", "plain text"] {
        assert!(title_text_filter(t).chars().count() <= t.chars().count());
    }
}

#[test]
fn url_filter_keeps_a_clean_address() {
    let clean = "www.youtube.com/watch?v=abc";
    assert_eq!(youtube_url_filter(clean), clean);
}

#[test]
fn title_filter_is_idempotent() {
    let once = title_text_filter("a|b\\\"c\"d\\e\tf\ng`h\u{2018}i\rj");
    assert_eq!(title_text_filter(&once), once);
    for c in ['|', '\u{2018}', '`', '\n', '\t', '\r', '"', '\\'] {
        assert!(!once.contains(c));
    }
}

#[test]
fn path_clean_removes_forbidden() {
    assert_eq!(path_clean("a.b/c\\d:e*f?g\"h<i>j|k"), "abcdefg'hijk");
    let once = path_clean("x.y:z\"?");
    assert_eq!(path_clean(&once), once);
    for c in ['.', '/', '\\', ':', '*', '?', '"', '<', '>', '|'] {
        assert!(!once.contains(c));
    }
}

#[test]
fn gpt_body_matches_request_format() {
    let message = "Is this English?";
    let tokens = 10usize;
    let expected = format!(
        r#"
        {{
            "model": "{}",
            "max_tokens": {tokens},
            "messages": [
                {{
                    "role": "system",
                    "content": "You are a helpful assistant."
                }},
                {{
                    "role": "user",
                    "content": "{message}"
                }}
            ]
        }}
        "#,
        "Nous Hermes 2 Mistral DPO"
    );
    assert_eq!(local_gpt_body(message, tokens), expected);
    assert!(local_gpt_body("x", 0).contains("\"max_tokens\": 0,"));
    assert_eq!(local_gpt_url(), "http://127.0.0.1:4891/v1/chat/completions");
}

#[test]
fn chat_reply_content_reads_the_first_choice() {
    let reply = r#"{"id":"1","choices":[{"index":0,"message":{"role":"assistant","content":"Yes."}},{"message":{"content":"No"}}]}"#;
    assert_eq!(chat_reply_content(reply), Some("\"Yes.\"".to_string()));
    assert_eq!(chat_reply_content(r#"{"choices":[]}"#), None);
    assert_eq!(chat_reply_content(r#"{"choices":{"0":1}}"#), None);
    assert_eq!(chat_reply_content(r#"{"other":1}"#), None);
    assert_eq!(chat_reply_content(r#"{"choices":[{"message":{}}]}"#), None);
    assert_eq!(chat_reply_content(r#"{"choices":[{"message":{"content":null}}]}"#), Some("null".to_string()));
    assert_eq!(chat_reply_content(r#"{"choices":[{"message":{"content":{"b":[1,2.5],"a":true}}}]}"#), Some(r#"{"a":true,"b":[1,2.5]}"#.to_string()));
    assert_eq!(chat_reply_content("{"), None);
    assert!(gpt_yes_no(&chat_reply_content(reply).unwrap()));
}

#[test]
fn gpt_yes_no_reads_first_eight_bytes() {
    assert!(gpt_yes_no("Yes."));
    assert!(gpt_yes_no("\"YES\""));
    assert!(!gpt_yes_no("\"No\""));
    assert!(gpt_yes_no("yes and no"));
    assert!(!gpt_yes_no("I think yes"));
    assert!(!gpt_yes_no(""));
}

#[test]
fn english_answer_reads_missing_replies_as_no() {
    assert_eq!(english_answer(None), Some(false));
    assert_eq!(english_answer(Some("\"Yes\"".to_string())), Some(true));
    assert_eq!(english_answer(Some("no".to_string())), Some(false));
    assert_eq!(english_answer(Some("aéééé".to_string())), None);
}

#[test]
fn gpt_yes_no_checked_refuses_split_characters() {
    assert_eq!(gpt_yes_no_checked("aéééé"), None);
    assert_eq!(gpt_yes_no_checked("ééééé"), Some(false));
    assert_eq!(gpt_yes_no_checked("yes"), Some(true));
}

#[test]
fn parse_yes_no_reads_first_eight_characters() {
    assert!(parse_yes_no("NO, yes"));
    assert!(!parse_yes_no("maybe, yes!"));
    assert!(parse_yes_no("\"Yes\""));
    assert!(!parse_yes_no("no"));
    assert!(!parse_yes_no("éééééé yes"));
}

#[test]
fn captions_are_sampled_evenly() {
    let few = strings(&["a", "b", "c"]);
    assert_eq!(sample_captions(&few, 50), "a b c ");
    let many: Vec<String> = (0..100).map(|i| i.to_string()).collect();
    let expected: String = (0..50).map(|i| format!("{} ", 2 * i)).collect();
    assert_eq!(sample_captions(&many, 50), expected);
    let odd: Vec<String> = (0..45).map(|i| i.to_string()).collect();
    let expected: String = (0..20).map(|i| format!("{} ", 2 * i)).collect();
    assert_eq!(sample_captions(&odd, 20), expected);
    assert_eq!(sample_captions(&Vec::new(), 50), "");
}

#[test]
fn gpt_requests() {
    let captions = strings(&["the worst", "garbage everywhere"]);
    let t = gpt_title(&captions);
    assert_eq!(t.message, title_message("the worst garbage everywhere "));
    assert_eq!(t.max_tokens, 100);
    let p = gpt_text("poop, clean, perfect", &captions);
    assert_eq!(p.message, phrase_message("the worst garbage everywhere ", "poop, clean, perfect"));
    assert_eq!(p.max_tokens, 10);
}

#[test]
fn llm_requests() {
    let e = english_check("the fox is a big bad meanie");
    let expected = "Is the following text primarily made up of English words?".to_owned()
        + " Please only reply with the word 'yes' or 'no': " + "the fox is a big bad meanie";
    assert_eq!(e.message, expected);
    assert_eq!(english_prompt("x"), "Is the following text primarily made up of English words? Please only reply with the word 'yes' or 'no': x");
    assert_eq!(e.max_tokens, 10);
    let captions = strings(&["the worst", "garbage everywhere", "feces-ridden"]);
    let c = choose_text("poop, clean, perfect", &captions);
    assert_eq!(c.message, phrase_message("the worst garbage everywhere feces-ridden ", "poop, clean, perfect"));
    assert_eq!(c.max_tokens, 10);
}

#[test]
fn accept_title_checks_prefix_and_length() {
    assert_eq!(accept_title("\"Hasan Reacts to Cats\"\n"), Some("Hasan Reacts to Cats".to_string()));
    assert_eq!(accept_title("Title: Hasan reacts to Cats"), None);
    assert_eq!(accept_title(""), None);
    let long = format!("Hasan reacts to {}", "x".repeat(84));
    assert_eq!(long.len(), 100);
    assert_eq!(accept_title(&long), None);
    let just = format!("Hasan reacts to {}", "x".repeat(83));
    assert_eq!(accept_title(&just), Some(just.clone()));
}

#[test]
fn title_search_stops_after_attempts() {
    let captions = strings(&["israel committing more genocide"]);
    let mut search = generate_title(&captions);
    assert_eq!(search.request.message, title_message("israel committing more genocide "));
    assert_eq!(search.request.max_tokens, 100);
    let mut tries = 0;
    while search.can_try() {
        search.offer("no idea");
        tries += 1;
    }
    assert_eq!(tries, TITLE_ATTEMPTS);
    assert_eq!(search.found, None);
}

#[test]
fn title_search_stops_at_the_first_acceptable_reply() {
    let captions = strings(&["x"]);
    let mut search = generate_title(&captions);
    let replies = ["nothing", "hasan reacts to the news", "Hasan reacts to something else"];
    let mut asked = 0;
    while search.can_try() {
        search.offer(replies[asked]);
        asked += 1;
    }
    assert_eq!(asked, 2);
    assert_eq!(search.tried, 2);
    assert_eq!(search.found, Some("hasan reacts to the news".to_string()));
}

#[test]
fn capture_area_basics() {
    let a = CaptureArea::new();
    assert_eq!(a.top_left, (0, 0));
    assert_eq!(a.bottom_right, (0, 0));
    let b = CaptureArea { top_left: (-5, 10), bottom_right: (1915, 1090) };
    assert_eq!(b.describe(), "(-5, 10) => (1915, 1090)");
    assert_eq!(b.capture_size(), (1920, 1080));
    let c = CaptureArea { top_left: (10, 10), bottom_right: (5, 20) };
    assert_eq!(c.capture_size(), (-5i32 as u32, 10));
}

#[test]
fn latest_video_sorts_by_lowercase_and_keeps_the_last_tie() {
    let paths = strings(&["b.mp4", "A.mp4", "C.mp4", "c.mp4", "a.mp4"]);
    assert_eq!(latest_video(&paths), Some("c.mp4".to_string()));
    let paths = strings(&["Replay 2024-01-02.mp4", "Replay 2024-01-10.mp4", "replay 2024-01-03.mp4"]);
    assert_eq!(latest_video(&paths), Some("Replay 2024-01-10.mp4".to_string()));
    assert_eq!(latest_video(&Vec::new()), None);
    let g = GlobResult::from_listings(&strings(&["x.mp4"]), &Vec::new());
    assert_eq!(g.recording, Some("x.mp4".to_string()));
    assert_eq!(g.replay, None);
    let e = GlobResult::new();
    assert!(e.replay.is_none() && e.recording.is_none());
}

#[test]
fn merge_attempts_stop_at_a_playable_file_or_after_three() {
    let mut attempts = MergeAttempts::new();
    assert!(!attempts.record(None, 0));
    assert!(!attempts.record(Some("a.mp4".to_string()), 0));
    assert!(attempts.can_try());
    assert!(attempts.record(Some("b.mp4".to_string()), 12));
    assert!(!attempts.can_try());
    assert_eq!(attempts.merged, Some("b.mp4".to_string()));
    let mut failing = MergeAttempts::new();
    let mut tries = 0;
    while failing.can_try() {
        failing.record(None, 5);
        tries += 1;
    }
    assert_eq!(tries, MERGE_ATTEMPTS);
    assert_eq!(failing.merged, None);
}

#[test]
fn noembed_title_reads_the_title_member() {
    assert_eq!(noembed_title(r#"{"title":"Cats \"live\"","author":"x"}"#), Some("\"Cats \\\"live\\\"\"".to_string()));
    assert_eq!(noembed_title(r#"{"error":"404"}"#), None);
    assert_eq!(noembed_title("not json"), None);
    assert_eq!(noembed_title(r#"{"title":12}"#), Some("12".to_string()));
    assert_eq!(noembed_title(r#"["title"]"#), None);
}

#[test]
fn glob_patterns() {
    assert_eq!(recording_pattern(), "D:\\OBS\\Recordings\\[!{Replay}]*.mp4");
    assert_eq!(replay_pattern(), "D:\\OBS\\Recordings\\Replay*.mp4");
}

#[test]
fn merge_plan_needs_both_files() {
    let both = GlobResult { replay: Some("r.mp4".to_string()), recording: Some("c.mp4".to_string()) };
    let plan = merge_plan(&both, Some(1700000000)).unwrap();
    assert_eq!(plan.files, strings(&["r.mp4", "c.mp4"]));
    assert_eq!(plan.out_file, "D:\\Development\\HRA\\1700000000output.mp4");
    assert_eq!(merge_plan(&both, None).unwrap().out_file, "D:\\Development\\HRA\\output.mp4");
    let one = GlobResult { replay: None, recording: Some("c.mp4".to_string()) };
    assert!(merge_plan(&one, Some(1)).is_none());
}

#[test]
fn titles_and_destinations() {
    assert!(matches!(title_step(Some("Cats".to_string())), TitleStep::Use(t) if t == "Hasan reacts to Cats"));
    assert!(matches!(title_step(None), TitleStep::AskModel));
    assert_eq!(video_destination("Hasan reacts to: What?"), "D:\\Development\\HRA\\Hasan reacts to What.mp4");
    let moved = file_result("s".to_string(), Some("Cats: live".to_string()), true).unwrap();
    assert_eq!(moved.path, "D:\\Development\\HRA\\Cats live.mp4");
    assert_eq!(moved.name, "Cats: live");
    let kept = file_result("s".to_string(), Some("n".to_string()), false).unwrap();
    assert_eq!((kept.path.as_str(), kept.name.as_str()), ("s", "n"));
    assert!(file_result("s".to_string(), None, true).is_none());
    assert_eq!(noembed_url("youtube com/watchv=abc"), "https://noembed.com/embed?url=https://youtube.com/watch?v=abc");
}

#[test]
fn text_options_split_on_line_feeds() {
    assert_eq!(text_options("a\nb\n"), strings(&["a", "b", ""]));
    assert_eq!(text_options(""), strings(&[""]));
    assert_eq!(text_options("one"), strings(&["one"]));
    assert_eq!(text_options("\n\nx"), strings(&["", "", "x"]));
    let raw = "poop\nclean\r\nperfect";
    assert_eq!(text_options(raw).join("\n"), raw);
}

#[test]
fn pick_random_picks_a_member() {
    assert_eq!(pick_random(Vec::new(), 7), None);
    assert_eq!(pick_random(strings(&["only"]), 12345), Some("only".to_string()));
    let mut seen_first = false;
    let mut seen_second = false;
    for seed in 0..200u64 {
        let pick = pick_random(strings(&["a", "b"]), seed).unwrap();
        assert!(pick == "a" || pick == "b");
        if pick == "a" {
            seen_first = true;
        } else {
            seen_second = true;
        }
    }
    assert!(seen_first && seen_second);
    assert_eq!(pick_random(strings(&["x", "y", "z"]), 42), pick_random(strings(&["x", "y", "z"]), 42));
}

#[test]
fn monitor_records_a_video_from_start_to_end() {
    let mut m = Monitor::new();
    assert!(matches!(m.step(false, 0), MonitorAction::Idle));
    assert!(matches!(m.step(true, 0), MonitorAction::StartTimer));
    assert!(m.timing);
    assert!(matches!(m.step(true, 90), MonitorAction::WaitingToStart));
    assert!(matches!(m.step(true, 91), MonitorAction::StartCapture));
    assert!(m.capturing && !m.timing);
    assert!(matches!(m.step(true, 500), MonitorAction::Gather));
    assert!(m.needs_title());
    m.add_caption("first caption".to_string());
    m.add_caption(String::new());
    m.set_title("Cats".to_string());
    assert!(!m.needs_title());
    assert!(matches!(m.step(false, 0), MonitorAction::StartTimer));
    assert!(matches!(m.step(false, 120), MonitorAction::WaitingToEnd));
    match m.step(false, 121) {
        MonitorAction::EndCapture { title, captions } => {
            assert_eq!(title, Some("Cats".to_string()));
            assert_eq!(captions, strings(&["first caption"]));
        }
        _ => panic!("expected the recording to end"),
    }
    assert!(!m.capturing && !m.timing && m.title.is_none() && m.captions.is_empty());
}

#[test]
fn monitor_timer_resets_when_youtube_leaves_early() {
    let mut m = Monitor::new();
    assert!(matches!(m.step(true, 0), MonitorAction::StartTimer));
    assert!(matches!(m.step(false, 30), MonitorAction::Idle));
    assert!(!m.timing);
    assert!(matches!(m.step(true, 1000), MonitorAction::StartTimer));
}

#[test]
fn title_lookups_go_area_area_web() {
    let mut m = Monitor::new();
    assert!(m.next_title_lookup(0).is_none());
    m.step(true, 0);
    m.step(true, 100);
    assert!(matches!(m.next_title_lookup(0), Some(TitleLookup::ScreenArea(0))));
    assert!(matches!(m.next_title_lookup(1), Some(TitleLookup::ScreenArea(1))));
    assert!(matches!(m.next_title_lookup(2), Some(TitleLookup::Url)));
    assert!(m.next_title_lookup(3).is_none());
    assert!(!m.offer_screen_title("search box".to_string(), true));
    assert!(m.title.is_none());
    assert!(m.offer_screen_title("A real title".to_string(), true));
    assert_eq!(m.title, Some("A real title".to_string()));
    assert!(m.next_title_lookup(1).is_none());
    let mut n = Monitor::new();
    n.step(true, 0);
    n.step(true, 100);
    n.offer_url_title(None);
    assert!(n.title.is_none());
    n.offer_url_title(Some("\"From the web\"".to_string()));
    assert_eq!(n.title, Some("\"From the web\"".to_string()));
}

#[test]
fn caption_png_needs_a_font() {
    assert!(matches!(caption_png(b"not a font", "poop"), Err(CaptionPngError::NoFont)));
}

#[test]
fn filters_work_character_by_character() {
    let text = "a|b\t\"c\\d\u{2018}e`f\ng\rh";
    let mapped: String = text.chars().map(|c| match c {
        '|' => "I".to_string(),
        '\t' => " ".to_string(),
        '\u{2018}' | '`' | '\n' | '\r' | '"' | '\\' => String::new(),
        other => other.to_string(),
    }).collect();
    assert_eq!(title_text_filter(text), mapped);
    let path = "x.y/z\\w:v*u?t\"s<r>q|p";
    let mapped: String = path.chars().map(|c| match c {
        '"' => "'".to_string(),
        '.' | '/' | '\\' | ':' | '*' | '?' | '<' | '>' | '|' => String::new(),
        other => other.to_string(),
    }).collect();
    assert_eq!(path_clean(path), mapped);
}

#[test]
fn ascii_answers_read_alike_and_case_does_not_matter() {
    for answer in ["Yes", "NO yes", "maybe yes", "\"yes\"", "nope", "y e s"] {
        assert_eq!(parse_yes_no(answer), gpt_yes_no(answer));
    }
    for url in ["www.YouTube.com/watch", "you tube", "OUTUBE", "twitch.tv"] {
        assert_eq!(is_youtube(url), is_youtube(&url.to_ascii_uppercase()));
        assert_eq!(is_youtube(url), is_youtube(&url.replace(' ', "")));
    }
}

#[test]
fn screen_title_acceptance() {
    assert!(!title_long_enough("short"));
    assert!(title_long_enough("longer"));
    assert!(accept_screen_title("A real title", true));
    assert!(!accept_screen_title("A real title", false));
    assert!(!accept_screen_title("abc", true));
    assert!(!accept_screen_title("search results", true));
}
