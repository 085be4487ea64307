use ratatui_wasm_backend::regexp::{Match, RegExp};

fn found(start: usize, end: usize) -> Option<Match> {
    Some(Match { start, end })
}

#[test]
fn the_indices_flag_is_added_where_missing() {
    assert_eq!(RegExp::new("a", "").flags(), "d");
    assert_eq!(RegExp::new("a", "g").flags(), "gd");
    assert_eq!(RegExp::new("a", "gim").flags(), "gimd");
}

#[test]
fn the_indices_flag_is_kept_where_present() {
    assert_eq!(RegExp::new("a", "d").flags(), "d");
    assert_eq!(RegExp::new("a", "digm").flags(), "digm");
    assert_eq!(RegExp::new("a", "gd").flags(), "gd");
}

#[test]
fn the_pattern_is_kept_as_it_is() {
    assert_eq!(RegExp::new("\\w+ism\\b|é", "g").pattern(), "\\w+ism\\b|é");
    assert_eq!(RegExp::new("", "g").pattern(), "");
}

#[test]
fn a_global_search_keeps_every_match() {
    let answers = vec![found(0, 2), found(3, 4), found(7, 9), None];
    assert_eq!(
        RegExp::match_all(true, &answers),
        vec![Match { start: 0, end: 2 }, Match { start: 3, end: 4 }, Match { start: 7, end: 9 }]
    );
}

#[test]
fn a_search_that_is_not_global_keeps_the_first_match() {
    let answers = vec![found(0, 2), found(0, 2), found(0, 2)];
    assert_eq!(RegExp::match_all(false, &answers), vec![Match { start: 0, end: 2 }]);
}

#[test]
fn an_empty_match_ends_the_search() {
    let answers = vec![found(0, 2), found(4, 4), found(5, 6)];
    assert_eq!(RegExp::match_all(true, &answers), vec![Match { start: 0, end: 2 }]);
    assert_eq!(RegExp::match_all(true, &vec![found(0, 0), found(1, 2)]), Vec::new());
    assert_eq!(RegExp::match_all(false, &vec![found(3, 3)]), Vec::new());
}

#[test]
fn no_match_ends_the_search() {
    assert_eq!(RegExp::match_all(true, &vec![None, found(1, 2)]), Vec::new());
    assert_eq!(RegExp::match_all(true, &Vec::new()), Vec::new());
    assert_eq!(RegExp::match_all(false, &Vec::new()), Vec::new());
}

#[test]
fn answers_that_run_out_end_the_search() {
    assert_eq!(
        RegExp::match_all(true, &vec![found(1, 2), found(2, 3)]),
        vec![Match { start: 1, end: 2 }, Match { start: 2, end: 3 }]
    );
}

#[test]
fn the_engine_is_asked_again_after_a_match_of_a_global_search() {
    assert!(RegExp::goes_on(true, found(0, 1)));
    assert!(!RegExp::goes_on(true, found(1, 1)));
    assert!(!RegExp::goes_on(true, None));
    assert!(!RegExp::goes_on(false, found(0, 1)));
    assert!(!RegExp::goes_on(false, None));
}
