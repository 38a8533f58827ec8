//! Endpoints of utterances, stop words, start words and turns.

use dontspeakd::listen::{
    levenshtein, match_start_word, match_submit_word, match_tail, normalize_token, EndpointEvent,
    Endpointer, Heard, TurnAction, TurnLogic,
};

/// Whether a frame of this loudness holds speech.
fn voiced(rms: f32) -> bool {
    rms >= 0.01
}

#[test]
fn endpointer_onset_then_close_after_silence() {
    let mut ep = Endpointer::new(700);
    assert_eq!(ep.step(voiced(0.001), 100), None);
    assert_eq!(ep.step(voiced(0.05), 100), Some(EndpointEvent::SpeechOnset));
    assert!(ep.in_speech());
    assert_eq!(ep.step(voiced(0.04), 100), None);
    for _ in 0..6 {
        assert_eq!(ep.step(voiced(0.0), 100), None);
    }
    assert_eq!(ep.step(voiced(0.0), 100), Some(EndpointEvent::SegmentClosed));
    assert!(!ep.in_speech());
}

#[test]
fn endpointer_brief_pause_does_not_close() {
    let mut ep = Endpointer::new(700);
    ep.step(voiced(0.05), 100);
    for _ in 0..3 {
        assert_eq!(ep.step(voiced(0.0), 100), None);
    }
    assert_eq!(ep.step(voiced(0.05), 100), None);
    for _ in 0..6 {
        ep.step(voiced(0.0), 100);
    }
    assert_eq!(ep.step(voiced(0.0), 100), Some(EndpointEvent::SegmentClosed));
}

#[test]
fn endpointer_reset_clears_speech() {
    let mut ep = Endpointer::new(700);
    ep.step(voiced(0.05), 100);
    assert!(ep.in_speech());
    ep.reset();
    assert!(!ep.in_speech());
    assert_eq!(ep.step(voiced(0.05), 100), Some(EndpointEvent::SpeechOnset));
}

#[test]
fn stopword_final_token_matches() {
    let m = match_submit_word("okay add a login button submit", "submit");
    assert!(m.matched);
    assert_eq!(m.content_before, "okay add a login button");
}

#[test]
fn stopword_tolerates_trailing_punctuation_and_case() {
    let m = match_submit_word("do the thing Submit.", "submit");
    assert!(m.matched);
    assert_eq!(m.content_before, "do the thing");
}

#[test]
fn stopword_midsentence_does_not_match() {
    let m = match_submit_word("I want to submit the message to a client", "submit");
    assert!(!m.matched);
    assert_eq!(m.content_before, "I want to submit the message to a client");
}

#[test]
fn stopword_not_a_substring_false_positive() {
    let m = match_submit_word("please resubmit", "submit");
    assert!(!m.matched);
}

#[test]
fn stopword_only_segment_has_empty_content() {
    let m = match_submit_word("submit", "submit");
    assert!(m.matched);
    assert_eq!(m.content_before, "");
}

#[test]
fn stopword_multiword() {
    let m = match_submit_word("change the title go ahead", "go ahead");
    assert!(m.matched);
    assert_eq!(m.content_before, "change the title");
    let m2 = match_submit_word("go ahead and change the title", "go ahead");
    assert!(!m2.matched);
}

#[test]
fn empty_stopword_never_matches() {
    let m = match_submit_word("anything at all", "");
    assert!(!m.matched);
}

#[test]
fn start_word_fires_and_returns_content_after() {
    assert_eq!(
        match_start_word("hey computer add a login button", "computer").as_deref(),
        Some("add a login button")
    );
    assert_eq!(
        match_start_word("hey computor write the readme", "computer").as_deref(),
        Some("write the readme")
    );
    assert_eq!(
        match_start_word("okay computa commit it", "computer").as_deref(),
        Some("commit it")
    );
    assert_eq!(
        match_start_word("right then, computer", "computer").as_deref(),
        Some("")
    );
    assert!(match_start_word("just some other words", "computer").is_none());
}

fn turn() -> TurnLogic {
    TurnLogic::new("computer", "submit", "cancel", 1000)
}

#[test]
fn idle_until_start_word() {
    let mut t = turn();
    assert_eq!(t.on_segment("just talking to myself"), vec![]);
    assert!(!t.capturing());
    assert_eq!(t.buffer(), "");
    assert_eq!(t.on_segment("hey computer add a button"), vec![]);
    assert!(t.capturing());
    assert_eq!(t.buffer(), "add a button");
}

#[test]
fn accumulates_then_submits_on_silence() {
    let mut t = turn();
    t.on_segment("computer write the readme");
    t.on_segment("and a changelog");
    assert_eq!(t.buffer(), "write the readme and a changelog");
    assert_eq!(t.on_segment("then commit it submit"), vec![]);
    assert_eq!(t.buffer(), "write the readme and a changelog then commit it");
    assert_eq!(t.on_tick(500), vec![]);
    assert_eq!(
        t.on_tick(600),
        vec![TurnAction::SubmitText(
            "write the readme and a changelog then commit it".into()
        )]
    );
    assert!(!t.capturing());
    assert_eq!(t.buffer(), "");
}

#[test]
fn cancel_discards_the_buffer() {
    let mut t = turn();
    t.on_segment("computer delete everything");
    assert_eq!(t.on_segment("cancel"), vec![]);
    assert_eq!(t.on_tick(1000), vec![TurnAction::Cancel]);
    assert!(!t.capturing());
    assert_eq!(t.buffer(), "");
}

#[test]
fn speech_during_confirm_reattaches_stop_word() {
    let mut t = turn();
    t.on_segment("computer fix the bug");
    t.on_segment("submit");
    assert_eq!(t.on_speech_onset(), vec![]);
    assert_eq!(t.buffer(), "fix the bug submit");
    t.on_segment("in the parser");
    assert_eq!(t.buffer(), "fix the bug submit in the parser");
    assert!(t.capturing());
}

#[test]
fn submit_with_empty_buffer_is_noop() {
    let mut t = turn();
    t.on_segment("computer");
    assert_eq!(t.buffer(), "");
    t.on_segment("submit");
    assert_eq!(t.on_tick(1000), vec![]);
    assert!(!t.capturing());
}

#[test]
fn distances_of_words() {
    assert_eq!(levenshtein("", ""), 0);
    assert_eq!(levenshtein("", "abc"), 3);
    assert_eq!(levenshtein("kitten", "sitting"), 3);
    assert_eq!(levenshtein("sitting", "kitten"), 3);
    assert_eq!(levenshtein("gr\u{fc}n", "grun"), 1);
}

#[test]
fn tokens_are_compared_without_case_and_punctuation() {
    assert_eq!(normalize_token("\u{201c}Submit!\u{201d}"), "submit");
    assert_eq!(normalize_token("don't"), "don't");
    assert_eq!(normalize_token("..."), "");
}

#[test]
fn a_tail_of_words_is_found() {
    let words = |s: &[&str]| -> Vec<String> { s.iter().map(|w| w.to_string()).collect() };
    assert_eq!(match_tail(&words(&["a", "b", "c"]), &words(&["b", "c"])), Some(1));
    assert_eq!(match_tail(&words(&["a", "b"]), &words(&["a"])), None);
    assert_eq!(match_tail(&words(&["a"]), &words(&[])), None);
    assert_eq!(match_tail(&words(&["a"]), &words(&["a", "a"])), None);
}

#[test]
fn what_was_heard_is_told_apart_before_it_counts() {
    let mut t = turn();
    assert_eq!(t.classify("   "), Heard::Nothing);
    t.hear(Heard::Start("first".to_string()));
    assert!(t.capturing());
    assert_eq!(t.buffer(), "first");
}

#[test]
fn a_short_start_word_may_be_garbled_too() {
    assert_eq!(levenshtein("rib", "bob"), 2);
    assert_eq!(match_start_word("rib it", "bob").as_deref(), Some("it"));
    assert_eq!(match_start_word("plain talk", "bob"), None);
}

#[test]
fn a_detour_is_never_shorter() {
    let words = ["", "bob", "rib", "computer", "computa", "cancel"];
    for a in words {
        for b in words {
            let direct = levenshtein(a, b);
            assert!(direct <= a.len().max(b.len()) as u128);
            assert!(direct >= a.len().abs_diff(b.len()) as u128);
            for c in words {
                assert!(direct <= levenshtein(a, c) + levenshtein(c, b));
            }
        }
    }
}

#[test]
fn talk_before_a_stop_word_is_content() {
    let alone = match_submit_word("okay, Submit.", "submit");
    assert!(alone.matched);
    assert_eq!(alone.content_before, "okay,");
    let more = match_submit_word("  and then  okay, Submit.", "submit");
    assert!(more.matched);
    assert_eq!(more.content_before, "and then  okay,");
}

#[test]
fn what_is_gathered_is_trimmed() {
    let mut t = turn();
    t.on_segment("  computer   write it  ");
    assert_eq!(t.buffer(), "write it");
    t.on_segment("   now  ");
    assert_eq!(t.buffer(), "write it now");
}
