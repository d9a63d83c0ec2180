use harptabber::{
    change_tab_style, change_tab_style_single, get_tabkeyboard_layout, is_known_tuning,
    tuning_to_notes_in_order, Style,
};

#[test]
fn test_get_tabkeyboard_layout() {
    let res = get_tabkeyboard_layout("richter");
    let expected = vec![
        vec!["", "", "", "", "", "", "", "", "", "10''"],
        vec!["1o", "", "", "4o", "5o", "6o", "", "8'", "9'", "10'"],
        vec!["1", "2", "3", "4", "5", "6", "7", "8", "9", "10"],
        vec!["-1", "-2", "-3", "-4", "-5", "-6", "-7", "-8", "-9", "-10"],
        vec![
            "-1'", "-2'", "-3'", "-4'", "", "-6'", "-7o", "", "-9o", "-10o",
        ],
        vec!["", "-2''", "-3''", "", "", "", "", "", "", ""],
        vec!["", "", "-3'''", "", "", "", "", "", "", ""],
    ];
    assert_eq!(res, expected);

    let res = get_tabkeyboard_layout("asdf");
    assert_eq!(res, expected);

    let res = get_tabkeyboard_layout("wilde tuning");
    let expected = vec![
        vec!["", "", "", "", "", "", "", "", "", ""],
        vec!["1o", "", "", "4o", "", "", "", "8o", "9o", "10o"],
        vec!["1", "2", "3", "4", "5", "6", "7", "8", "9", "10"],
        vec!["-1", "-2", "-3", "-4", "-5", "-6", "-7", "-8", "-9", "-10"],
        vec![
            "-1'", "-2'", "-3'", "-4'", "", "-6'", "-7'", "-8'", "-9'", "-10'",
        ],
        vec![
            "", "-2''", "-3''", "", "", "-6''", "-7''", "", "-9''", "-10''",
        ],
        vec!["", "", "-3'''", "", "", "", "-7'''", "", "", ""],
    ];
    assert_eq!(res, expected);
}

#[test]
fn test_convert_to_harpsurgery_style() {
    let res = change_tab_style_single("8'", Style::Harpsurgery);
    assert_eq!(res.as_str(), "8B'");

    let res = change_tab_style_single("-2''", Style::Harpsurgery);
    assert_eq!(res.as_str(), "2D''");

    let res = change_tab_style_single("4o", Style::Harpsurgery);
    assert_eq!(res.as_str(), "4B#");

    let res = change_tab_style_single("-7o", Style::Harpsurgery);
    assert_eq!(res.as_str(), "7D#");

    let res = change_tab_style_single("10''", Style::Harpsurgery);
    assert_eq!(res.as_str(), "10B''");
}

#[test]
fn test_convert_to_draw_style() {
    let res = change_tab_style_single("4", Style::DrawDefault);
    assert_eq!(res.as_str(), "+4");

    let res = change_tab_style_single("-4'", Style::DrawDefault);
    assert_eq!(res.as_str(), "4'");

    let res = change_tab_style_single("5o", Style::DrawDefault);
    assert_eq!(res.as_str(), "+5o");
}

#[test]
fn test_change_tab_style() {
    let input: Vec<String> = ["-2", "-3'", "4", "-4'", "-4", "-5", "6"]
        .iter()
        .map(|s| s.to_string())
        .collect();

    let res = change_tab_style(&input, Style::BBends);
    let expected = ["-2", "-3b", "4", "-4b", "-4", "-5", "6"]
        .iter()
        .map(|s| s.to_string())
        .collect::<Vec<String>>();
    assert_eq!(res, expected);

    let res = change_tab_style(&input, Style::Harpsurgery);
    let expected = ["2D", "3D'", "4B", "4D'", "4D", "5D", "6B"]
        .iter()
        .map(|s| s.to_string())
        .collect::<Vec<String>>();
    assert_eq!(res, expected);

    let res = change_tab_style(&input, Style::DrawDefault);
    let expected = ["2", "3'", "+4", "4'", "4", "5", "+6"]
        .iter()
        .map(|s| s.to_string())
        .collect::<Vec<String>>();
    assert_eq!(res, expected);
}

#[test]
fn default_style_is_the_identity() {
    for tok in ["-2''", "4o", "X", "10'", "asdf"] {
        assert_eq!(change_tab_style_single(tok, Style::Default), tok.to_string());
    }
}

#[test]
fn plus_style_marks_blow_notes_only() {
    assert_eq!(change_tab_style_single("4", Style::Plus).as_str(), "+4");
    assert_eq!(change_tab_style_single("-4'", Style::Plus).as_str(), "-4'");
    assert_eq!(change_tab_style_single("X", Style::Plus).as_str(), "X");
}

#[test]
fn bbends_style_rewrites_every_bend_marker() {
    assert_eq!(
        change_tab_style_single("-3'''", Style::BBends).as_str(),
        "-3bbb"
    );
    assert_eq!(change_tab_style_single("X", Style::BBends).as_str(), "X");
}

#[test]
fn harpsurgery_style_rejects_tokens_without_a_hole() {
    assert_eq!(
        change_tab_style_single("X", Style::Harpsurgery).as_str(),
        "X"
    );
    assert_eq!(
        change_tab_style_single("ab", Style::Harpsurgery).as_str(),
        "X"
    );
}

#[test]
fn unplayable_sentinel_survives_every_style() {
    for style in [
        Style::Default,
        Style::Harpsurgery,
        Style::BBends,
        Style::Plus,
        Style::DrawDefault,
    ] {
        assert_eq!(change_tab_style_single("X", style).as_str(), "X");
    }
}

#[test]
fn richter_notes_in_order_match_the_canonical_array() {
    let (notes, duplicated) = tuning_to_notes_in_order("richter");
    let expected: Vec<String> = [
        "1", "-1'", "-1", "1o", "2", "-2''", "-2'", "-2", "-3'''", "-3''", "-3'", "-3", "4",
        "-4'", "-4", "4o", "5", "-5", "5o", "6", "-6'", "-6", "6o", "-7", "7", "-7o", "-8",
        "8'", "8", "-9", "9'", "9", "-9o", "-10", "10''", "10'", "10", "-10o",
    ]
    .iter()
    .map(|s| s.to_string())
    .collect();
    assert_eq!(notes, expected);
    assert_eq!(duplicated, vec!["3".to_string(), "-2".to_string()]);
}

#[test]
fn gapped_tunings_carry_sentinel_slots() {
    let (notes, _) = tuning_to_notes_in_order("easy 3rd");
    assert_eq!(notes[6].as_str(), "X");
    assert_eq!(notes[11].as_str(), "X");
    assert_eq!(notes[7].as_str(), "3");
    assert_eq!(notes[10].as_str(), "3o");
}

#[test]
fn wilde_tuning_aliases_resolve_to_earlier_tokens() {
    let (notes, duplicated) = tuning_to_notes_in_order("wilde tuning");
    assert_eq!(notes[19].as_str(), "-6");
    assert_eq!(notes[16].as_str(), "5");
    // later spellings of the same pitches live in the alias table
    let pairs: Vec<(String, String)> = duplicated
        .chunks(2)
        .map(|p| (p[0].clone(), p[1].clone()))
        .collect();
    assert!(pairs.contains(&("7".to_string(), "-6".to_string())));
    assert!(pairs.contains(&("6".to_string(), "5".to_string())));
}

#[test]
fn unknown_tunings_fall_back_to_richter() {
    assert!(is_known_tuning("richter"));
    assert!(is_known_tuning("lucky 13 powerchromatic"));
    assert!(!is_known_tuning("asdf"));
    assert_eq!(
        tuning_to_notes_in_order("asdf").0,
        tuning_to_notes_in_order("richter").0
    );
}
