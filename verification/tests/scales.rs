use harptabber::{
    get_audio_indices, get_audio_indices_in_key, get_scales, positions_to_semitones, scale_to_tab,
    semitones_to_position, tab_to_note, tab_to_scale_degree, to_ordinal,
    transpose_playable_positions, tuning_to_notes_in_order, RunOptions, Style,
};

#[test]
fn test_semitones_to_position() {
    let res = semitones_to_position(1, 7);
    assert_eq!(res, 2);

    let res = semitones_to_position(1, -7);
    assert_eq!(res, 12);

    let res = semitones_to_position(1, 2);
    assert_eq!(res, 3);

    let res = semitones_to_position(2, 7);
    assert_eq!(res, 3);

    let res = semitones_to_position(3, -3);
    assert_eq!(res, 6);

    let res = semitones_to_position(3, 9);
    assert_eq!(res, 6);

    let res = semitones_to_position(1, 12);
    assert_eq!(res, 1);

    let res = semitones_to_position(1, 0);
    assert_eq!(res, 1);

    let res = semitones_to_position(2, -7);
    assert_eq!(res, 1);
}

#[test]
fn test_scale_to_tab() {
    let res = scale_to_tab("major", "richter", 1, Style::Default);
    assert_eq!(res, Ok("1 -1 2 -2'' -2 -3'' -3 4".to_string()));
}

#[test]
fn scale_to_tab_follows_the_position() {
    let res = scale_to_tab("major", "richter", 2, Style::Default);
    assert_eq!(res, Ok("-2 -3'' -3 4 -4 5 5o 6".to_string()));

    let res = scale_to_tab("blues", "richter", 1, Style::Default);
    assert_eq!(res, Ok("1 1o -2'' -2' -2 -3' 4".to_string()));
}

#[test]
fn unknown_scales_are_reported() {
    let res = scale_to_tab("asdf", "richter", 1, Style::Default);
    assert_eq!(res, Err("scale not found: asdf".to_string()));
}

#[test]
fn the_scale_registry_is_sorted_by_name() {
    let scales = get_scales();
    assert_eq!(scales[0].0.as_str(), "blues");
    let names: Vec<&str> = scales.iter().map(|(n, _)| n.as_str()).collect();
    let mut sorted = names.clone();
    sorted.sort();
    assert_eq!(names, sorted);
    let major: Vec<String> = ["1", "2", "3", "4", "5", "6", "7"]
        .iter()
        .map(|s| s.to_string())
        .collect();
    assert!(scales.contains(&("major".to_string(), major)));
}

#[test]
fn positions_to_semitones_round_trip_recovers_the_shift_class() {
    for p in 1..=12u32 {
        for shift in [-24i32, -13, -7, -1, 0, 1, 5, 7, 11, 12, 19, 24] {
            let pos = semitones_to_position(p, shift);
            let back = positions_to_semitones(p as i32, pos as i32, 0);
            assert_eq!(back, shift.rem_euclid(12));
        }
    }
}

#[test]
fn octave_shifts_add_twelve_semitones() {
    assert_eq!(positions_to_semitones(1, 2, 0), 7);
    assert_eq!(positions_to_semitones(1, 2, 1), 19);
    assert_eq!(positions_to_semitones(1, 2, -1), -5);
    assert_eq!(positions_to_semitones(2, 1, 0), 5);
    assert_eq!(positions_to_semitones(1, 1, -2), -24);
}

#[test]
fn ordinals_carry_their_suffixes() {
    assert_eq!(to_ordinal(1).as_str(), "1st");
    assert_eq!(to_ordinal(2).as_str(), "2nd");
    assert_eq!(to_ordinal(3).as_str(), "3rd");
    assert_eq!(to_ordinal(4).as_str(), "4th");
    assert_eq!(to_ordinal(12).as_str(), "12th");
    assert_eq!(to_ordinal(21).as_str(), "21th");
    assert_eq!(to_ordinal(0).as_str(), "0th");
}

#[test]
fn tab_tokens_resolve_to_scale_degrees() {
    let (notes, duplicated) = tuning_to_notes_in_order("richter");
    assert_eq!(tab_to_scale_degree("4", 1, &notes, &duplicated), "1");
    assert_eq!(tab_to_scale_degree("-3''", 1, &notes, &duplicated), "6");
    assert_eq!(tab_to_scale_degree("-2", 2, &notes, &duplicated), "1");
    // alias spellings resolve through the alias table first
    assert_eq!(tab_to_scale_degree("3", 2, &notes, &duplicated), "1");
    assert_eq!(tab_to_scale_degree("asdf", 1, &notes, &duplicated), "X");
}

#[test]
fn tab_tokens_resolve_to_note_names() {
    let (notes, duplicated) = tuning_to_notes_in_order("richter");
    assert_eq!(tab_to_note("4", "C", &notes, &duplicated).as_str(), "C");
    assert_eq!(tab_to_note("-2", "C", &notes, &duplicated).as_str(), "G");
    assert_eq!(tab_to_note("1", "A", &notes, &duplicated).as_str(), "A");
    assert_eq!(tab_to_note("-1", "F#", &notes, &duplicated).as_str(), "Ab");
    assert_eq!(tab_to_note("asdf", "C", &notes, &duplicated).as_str(), "X");
    assert_eq!(tab_to_note("4", "H", &notes, &duplicated).as_str(), "X");
}

#[test]
fn audio_indices_count_from_the_reference_note() {
    assert_eq!(
        get_audio_indices("1 4 -4".to_string(), "richter", Style::Default),
        vec![-9, 3, 5]
    );
    // tokens that are not notes are skipped
    assert_eq!(
        get_audio_indices("asdf 4".to_string(), "richter", Style::Default),
        vec![3]
    );
    // styled tabs resolve against the styled ordering
    assert_eq!(
        get_audio_indices("2D".to_string(), "richter", Style::Harpsurgery),
        vec![-2]
    );
}

#[test]
fn audio_indices_follow_the_harp_key() {
    // a D harp sounds two semitones above a C harp
    assert_eq!(
        get_audio_indices_in_key("1 4".to_string(), "richter", Style::Default, "D"),
        Ok(vec![-7, 5])
    );
    // the low keys drop a whole octave
    assert_eq!(
        get_audio_indices_in_key("4".to_string(), "richter", Style::Default, "A"),
        Ok(vec![0])
    );
    assert_eq!(
        get_audio_indices_in_key("4".to_string(), "richter", Style::Default, "H"),
        Err("unknown key: H".to_string())
    );
}

#[test]
fn options_resolve_to_one_semitone_shift() {
    let mut options = RunOptions {
        filename: "tab.txt",
        semitones: 3,
        from_position: 1,
        to_position: None,
        octave_shift: 0,
        keep_errors: false,
        style: Style::Default,
        input_tuning: "richter",
        output_tuning: "richter",
        play_audio: false,
        playable_positions: false,
        allow_bends: true,
    };
    assert_eq!(options.effective_semitones(), 3);

    options.octave_shift = -1;
    assert_eq!(options.effective_semitones(), -12);

    options.to_position = Some(2);
    assert_eq!(options.effective_semitones(), -5);
}

#[test]
fn the_playable_report_lists_each_position_with_its_tab() {
    let report = transpose_playable_positions(
        "4 -4 5 -5 6 -6 -7 7",
        1,
        "richter",
        "richter",
        Style::Default,
        true,
    );
    let expected = "1st  position,  -12 semitones\n1 -1 2 -2'' -2 -3'' -3 4 \n\n3rd  position,  -10 semitones\n-1 2 -2' -2 -3'' -3 -4' -4 \n\n12th position,   -7 semitones\n-2'' -2 -3'' -3' 4 -4 5 -5 \n\n1st  position,   +0 semitones\n4 -4 5 -5 6 -6 -7 7 \n\n2nd  position,   +7 semitones\n6 -6 -7 7 -8 8 9' 9 \n\n1st  position,  +12 semitones\n7 -8 8 -9 9 -10 10' 10 \n\n";
    assert_eq!(report.as_str(), expected);
}
