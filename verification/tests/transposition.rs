use harptabber::{get_playable_positions, transpose, transpose_tabs, Style};

fn notes_vec(notes: &[&str]) -> Vec<String> {
    notes.iter().map(|s| s.to_string()).collect()
}

#[test]
fn test_transpose_tabs() {
    let tab = String::from("-2 -3'' -3 4 -4 5 5o 6");

    // down 5th (G -> C)
    let (res, _) = transpose_tabs(tab.clone(), -7, true, Style::Default, "richter", "richter");
    assert_eq!(res.as_str(), "1 -1 2 -2'' -2 -3'' -3 4 \n");

    // down 5th, up octave (G -> C)
    let (res, _) = transpose_tabs(
        tab.clone(),
        -7 + 12,
        true,
        Style::Default,
        "richter",
        "richter",
    );
    assert_eq!(res.as_str(), "4 -4 5 -5 6 -6 -7 7 \n");

    // up 5th, down octave (G -> D)
    let (res, _) = transpose_tabs(tab, 7 - 12, true, Style::Default, "richter", "richter");
    assert_eq!(res.as_str(), "-1 2 -2' -2 -3'' -3 -4' -4 \n");

    // test enharmonics
    let (res, _) = transpose_tabs(
        "3B".to_string(),
        12,
        true,
        Style::Harpsurgery,
        "richter",
        "richter",
    );
    assert_eq!(res.as_str(), "6B \n");
}

#[test]
fn test_transpose_tabs_different_tunings() {
    let (res, _) = transpose_tabs(
        "-2 -3' 4 -4' -4 -5 6".to_string(),
        0,
        true,
        Style::Default,
        "richter",
        "wilde tuning",
    );
    assert_eq!(res.as_str(), "-2 -3' 4 -4' -4 -5 -6 \n");

    let (res, _) = transpose_tabs(
        "-2 -3' 4 -4' -4 -5 6".to_string(),
        12,
        true,
        Style::Default,
        "richter",
        "wilde tuning",
    );
    assert_eq!(res.as_str(), "-6 -7' 8 -8' -8 -9'' -9 \n");

    let (res, _) = transpose_tabs(
        "-3'' -3 4 -4 5 -5 6 -6".to_string(),
        -2,
        true,
        Style::Default,
        "richter",
        "natural minor",
    );
    assert_eq!(res.as_str(), "-2 -3' -3 4 -4 5 -5 6 \n");
}

#[test]
fn test_easy_3rd_tuning() {
    let input = "-3'' -3 4 -4 5 -5 6 -6";
    let (res, _) = transpose_tabs(
        input.to_string(),
        5,
        true,
        Style::Default,
        "richter",
        "easy 3rd",
    );
    assert_eq!(res.as_str(), "-4 5 -5 6 -6 6o 7 -8 \n");

    let input = "-3'' -3 4 -4 5 -5 6 -6";
    let (res, _) = transpose_tabs(
        input.to_string(),
        -7,
        true,
        Style::Default,
        "richter",
        "easy 3rd",
    );
    assert_eq!(res.as_str(), "-1 2 -2 3 -3 3o 4 -4 \n");

    let input = "1 -1 2 -2'' -2 -3'' -3 4";
    let (res, _) = transpose_tabs(
        input.to_string(),
        0,
        true,
        Style::Default,
        "richter",
        "easy 3rd",
    );
    assert_eq!(res.as_str(), "1 -1 2 -2 3 -3 X 4 \n");
}

#[test]
fn test_transpose() {
    let notes = notes_vec(&[
        "1", "-1'", "-1", "1o", "2", "-2''", "-2'", "-2", "-3'''", "-3''", "-3'", "-3", "4",
        "-4'", "-4", "4o", "5", "-5", "5o", "6", "-6'", "-6", "6o", "-7", "7", "-7o", "-8",
        "8'", "8", "-9", "9'", "9", "-9o", "-10", "10''", "10'", "10", "-10o",
    ]);

    let note = "1";
    let res = transpose(&notes, &notes, note, 1);
    assert_eq!(res, Ok("-1'".to_string()));

    let note = "1";
    let res = transpose(&notes, &notes, note, -1);
    assert_eq!(res, Ok("X".to_string()));

    let note = "10";
    let res = transpose(&notes, &notes, note, 2);
    assert_eq!(res, Ok("X".to_string()));

    let note = "asdf";
    let res = transpose(&notes, &notes, note, -1);
    assert!(res.is_err());
}

#[test]
fn test_get_playable_positions() {
    let tab = "4 -4 5 -5 6 -6 -7 7";
    let expected = vec![(1, -12), (3, -10), (12, -7), (1, 0), (2, 7), (1, 12)];
    let res = get_playable_positions(tab, 1, "richter", "richter", Style::Default, true);
    assert_eq!(res, expected);
}

#[test]
fn invalid_tokens_are_collected_and_kept_only_on_request() {
    // kept verbatim, untransposed, when keep_errors holds
    let (res, errors) = transpose_tabs(
        "asdf -2".to_string(),
        0,
        true,
        Style::Default,
        "richter",
        "richter",
    );
    assert_eq!(res.as_str(), "asdf -2 \n");
    assert_eq!(errors, vec!["asdf".to_string()]);

    // dropped otherwise, but still collected
    let (res, errors) = transpose_tabs(
        "asdf -2".to_string(),
        0,
        false,
        Style::Default,
        "richter",
        "richter",
    );
    assert_eq!(res.as_str(), "-2 \n");
    assert_eq!(errors, vec!["asdf".to_string()]);
}

#[test]
fn invalid_note_error_names_the_token() {
    let notes = notes_vec(&["1", "-1"]);
    let res = transpose(&notes, &notes, "zz", 0);
    assert_eq!(res, Err("\"zz\" is not a valid note".to_string()));
}

#[test]
fn transposing_past_either_end_yields_the_sentinel() {
    // past the top of a short tuning
    let (res, _) = transpose_tabs(
        "4".to_string(),
        4,
        true,
        Style::Default,
        "richter",
        "4 hole richter",
    );
    assert_eq!(res.as_str(), "X \n");

    // past the bottom
    let (res, _) = transpose_tabs(
        "1".to_string(),
        -1,
        true,
        Style::Default,
        "richter",
        "richter",
    );
    assert_eq!(res.as_str(), "X \n");
}

#[test]
fn zero_shift_reproduces_canonical_spelling() {
    // "3" is an enharmonic alias of "-2" on richter: a zero shift writes the
    // canonical spelling back, independent of the style round trip
    let (res, _) = transpose_tabs(
        "3".to_string(),
        0,
        true,
        Style::Default,
        "richter",
        "richter",
    );
    assert_eq!(res.as_str(), "-2 \n");

    let (res, _) = transpose_tabs(
        "3B".to_string(),
        0,
        true,
        Style::Harpsurgery,
        "richter",
        "richter",
    );
    assert_eq!(res.as_str(), "2D \n");

    let (res, _) = transpose_tabs(
        "-2 -3'' 4".to_string(),
        0,
        true,
        Style::Default,
        "richter",
        "richter",
    );
    assert_eq!(res.as_str(), "-2 -3'' 4 \n");
}

#[test]
fn line_breaks_are_preserved() {
    let (res, _) = transpose_tabs(
        "4 -4\n5 -5".to_string(),
        0,
        true,
        Style::Default,
        "richter",
        "richter",
    );
    assert_eq!(res.as_str(), "4 -4 \n5 -5 \n");

    let (res, errors) = transpose_tabs(
        "".to_string(),
        0,
        true,
        Style::Default,
        "richter",
        "richter",
    );
    assert_eq!(res.as_str(), "");
    assert!(errors.is_empty());
}

#[test]
fn empty_tab_has_no_playable_positions() {
    let res = get_playable_positions("", 1, "richter", "richter", Style::Default, true);
    assert!(res.is_empty());
}

#[test]
fn excluding_bends_narrows_the_playable_positions() {
    let tab = "4 -4 5 -5 6 -6 -7 7";
    let res = get_playable_positions(tab, 1, "richter", "richter", Style::Default, false);
    assert_eq!(res, vec![(1, 0)]);
}
