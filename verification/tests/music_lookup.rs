use planner::music::resolve;

#[test]
fn focus_gives_the_focus_track() {
    assert_eq!(resolve("Focus").url, "https://ritika12df.github.io/ritikaaudio/focus.mp3");
}

#[test]
fn unknown_gives_the_default_track() {
    assert_eq!(resolve("unknown").url, "https://ritika12df.github.io/ritikaaudio/default.mp3");
}

#[test]
fn each_category_has_its_track() {
    assert_eq!(resolve("Relax").url, "https://ritika12df.github.io/ritikaaudio/relax.mp3");
    assert_eq!(resolve("Energize").url, "https://ritika12df.github.io/ritikaaudio/energize.mp3");
    assert_eq!(resolve("Sleep").url, "https://ritika12df.github.io/ritikaaudio/sleep.mp3");
    assert_eq!(resolve("Meditate").url, "https://ritika12df.github.io/ritikaaudio/meditate.mp3");
}

#[test]
fn categories_are_matched_with_their_case() {
    let fallback = "https://ritika12df.github.io/ritikaaudio/default.mp3";
    assert_eq!(resolve("focus").url, fallback);
    assert_eq!(resolve("FOCUS").url, fallback);
    assert_eq!(resolve("Focus ").url, fallback);
    assert_eq!(resolve("").url, fallback);
}
