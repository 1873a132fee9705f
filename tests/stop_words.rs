use tabby_completions::languages::{find_stop, remove_stop_words, stop_markers};

#[test]
fn python_cuts_before_new_def() {
    let text = "    return n\ndef other():\n    pass";
    assert_eq!(remove_stop_words("python", text), "    return n");
}

#[test]
fn truncates_a_marker_b_to_a() {
    for language in ["python", "javascript", "typescript", "rust"] {
        for marker in stop_markers(language) {
            let text = format!("A{}B", marker);
            assert_eq!(remove_stop_words(language, &text), "A");
        }
    }
}

#[test]
fn unknown_language_passes_through() {
    let text = "x = 1\n\ndef f():\n    pass\n";
    assert_eq!(remove_stop_words("unknown", text), text);
    assert_eq!(remove_stop_words("cobol", text), text);
    assert_eq!(remove_stop_words("", ""), "");
}

#[test]
fn text_without_marker_passes_through() {
    let text = "if n < 2:\n    return n\n    return fib(n - 1) + fib(n - 2)";
    assert_eq!(remove_stop_words("python", text), text);
    assert_eq!(remove_stop_words("python", ""), "");
}

#[test]
fn filtering_twice_changes_nothing_more() {
    let texts = [
        "a\n\nb",
        "x\n// c\nfunction f() {}",
        "let a = 1;\npub fn b() {}\n\n",
        "héllo\nclass Ünïcode:\n",
        "plain",
    ];
    for language in ["python", "javascript", "typescript", "rust", "unknown"] {
        for text in texts {
            let once = remove_stop_words(language, text);
            assert_eq!(remove_stop_words(language, once), once);
        }
    }
}

#[test]
fn earliest_marker_wins() {
    let text = "a\nimport x\ndef y";
    assert_eq!(find_stop("python", text), Some((1, 5)));
    assert_eq!(remove_stop_words("python", text), "a");
}

#[test]
fn equal_offsets_pick_first_listed_marker() {
    // "\npub fn " and "\npub " both start at offset 1; the first listed wins.
    let text = "x\npub fn y() {}";
    for _ in 0..3 {
        assert_eq!(find_stop("rust", text), Some((1, 1)));
    }
    assert_eq!(remove_stop_words("rust", text), "x");
}

#[test]
fn non_ascii_text_is_cut_at_a_character() {
    let text = "é\n\nü";
    assert_eq!(remove_stop_words("python", text), "é");
}

#[test]
fn no_marker_means_no_stop() {
    assert_eq!(find_stop("typescript", "const a = 1;"), None);
    assert_eq!(find_stop("unknown", "\n\n"), None);
}

#[test]
fn registered_languages_have_markers() {
    assert_eq!(stop_markers("python").len(), 6);
    assert_eq!(stop_markers("typescript")[6], "\ntype");
    assert!(stop_markers("unknown").is_empty());
}
