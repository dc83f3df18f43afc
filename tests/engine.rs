use numbers_game::selection::{is_complete, push_number};
use numbers_game::view::{
    firework_launch, hint_text, key_notes_text, result_grade, title_text, LaunchPosition,
    ResultGrade,
};
use numbers_game::{
    check_solution_calculation, feedback_sound, get_solution_numbers, score_value,
    trim_white_space, App, CurrentScreen, Key, PoolKind, SoundEffect, LARGE_NUMBER_COUNT,
    SMALL_NUMBER_COUNT,
};

fn sorted(mut values: Vec<u32>) -> Vec<u32> {
    values.sort();
    values
}

fn playing_app(selected: [u32; 6], target: u32) -> App {
    let mut app = App::new();
    app.selected_numbers = selected.map(Some);
    app.target = target;
    app.current_screen = CurrentScreen::Playing;
    app
}

#[test]
fn large_pool_is_exhausted_after_four_draws() {
    let mut app = App::new();
    for _ in 0..LARGE_NUMBER_COUNT {
        assert!(app.draw_random(PoolKind::Large).is_some());
    }
    assert!(!app.has_any(PoolKind::Large));
    assert_eq!(app.draw_random(PoolKind::Large), None);
}

#[test]
fn small_pool_is_exhausted_after_twenty_draws() {
    let mut app = App::new();
    for _ in 0..SMALL_NUMBER_COUNT {
        assert!(app.draw_random(PoolKind::Small).is_some());
    }
    assert!(!app.has_any(PoolKind::Small));
    assert_eq!(app.draw_random(PoolKind::Small), None);
}

#[test]
fn draws_give_each_large_number_once() {
    let mut app = App::new();
    let mut drawn = Vec::new();
    while let Some(value) = app.draw_random(PoolKind::Large) {
        drawn.push(value);
    }
    assert_eq!(sorted(drawn), vec![25, 50, 75, 100]);
}

#[test]
fn draws_give_each_small_number_as_often_as_seeded() {
    let mut app = App::new();
    let mut drawn = Vec::new();
    while let Some(value) = app.draw_random(PoolKind::Small) {
        drawn.push(value);
    }
    assert_eq!(
        sorted(drawn),
        vec![1, 1, 2, 2, 3, 3, 4, 4, 5, 5, 6, 6, 7, 7, 8, 8, 9, 9, 10, 10]
    );
}

#[test]
fn new_game_holds_seeded_pools_and_target_in_range() {
    let app = App::new();
    let large: Vec<u32> = app.available_large_numbers.iter().map(|v| v.unwrap()).collect();
    let small: Vec<u32> = app.available_small_numbers.iter().map(|v| v.unwrap()).collect();
    assert_eq!(sorted(large), vec![25, 50, 75, 100]);
    assert_eq!(sorted(small), vec![1, 1, 2, 2, 3, 3, 4, 4, 5, 5, 6, 6, 7, 7, 8, 8, 9, 9, 10, 10]);
    assert!((100..999).contains(&app.target));
    assert_eq!(app.current_screen, CurrentScreen::Introduction);
    assert_eq!(app.selected_numbers, [None; 6]);
    assert!(app.value_input.is_empty());
}

#[test]
fn remove_at_empties_slot_and_returns_value() {
    let mut app = App::new();
    let before = app.available_small_numbers[3];
    assert_eq!(app.remove_at(PoolKind::Small, 3), before);
    assert_eq!(app.available_small_numbers[3], None);
    assert_eq!(app.remove_at(PoolKind::Small, 3), None);
}

#[test]
fn selection_never_grows_past_six() {
    let mut slots = [None; 6];
    for k in 0..6u32 {
        assert!(!is_complete(&slots));
        assert!(push_number(&mut slots, k + 1));
    }
    assert!(is_complete(&slots));
    assert!(!push_number(&mut slots, 99));
    assert!(!push_number(&mut slots, 100));
    assert_eq!(slots, [Some(1), Some(2), Some(3), Some(4), Some(5), Some(6)]);
}

#[test]
fn push_fills_first_empty_slot() {
    let mut slots = [Some(4), None, Some(7), None, None, None];
    assert!(push_number(&mut slots, 9));
    assert_eq!(slots, [Some(4), Some(9), Some(7), None, None, None]);
}

#[test]
fn picking_stops_when_selection_full() {
    let mut app = App::new();
    for _ in 0..4 {
        app.pick_random_small_number();
    }
    for _ in 0..4 {
        app.pick_random_large_number();
    }
    assert!(app.is_number_selection_complete());
    let left_large = app.available_large_numbers.iter().filter(|v| v.is_some()).count();
    let left_small = app.available_small_numbers.iter().filter(|v| v.is_some()).count();
    assert_eq!(left_large, 2);
    assert_eq!(left_small, 16);
}

#[test]
fn scan_skips_literals_too_large_for_u32() {
    assert_eq!(get_solution_numbers("99999999999 + 5"), vec![5]);
    assert_eq!(get_solution_numbers("4294967295+4294967296"), vec![4294967295]);
}

#[test]
fn scan_reads_leading_zeros_and_empty_input() {
    assert_eq!(get_solution_numbers("007*10"), vec![7, 10]);
    assert_eq!(get_solution_numbers(""), Vec::<u32>::new());
    assert_eq!(get_solution_numbers("()+-"), Vec::<u32>::new());
}

#[test]
fn end_to_end_malformed_expression_has_no_score() {
    let mut app = playing_app([10, 2, 3, 2, 1, 75], 21);
    app.value_input = String::from("(10 * 2 + 3 - 2 / 1");
    assert_eq!(app.check_solution(), None);
}

#[test]
fn end_to_end_whitespace_input_has_no_score() {
    let mut app = playing_app([1, 2, 3, 4, 5, 6], 15);
    app.value_input = String::from(" \t \n ");
    assert_eq!(app.check_solution(), None);
}

#[test]
fn end_to_end_more_than_six_literals_has_no_score() {
    let mut app = playing_app([1, 1, 1, 1, 1, 1], 7);
    app.value_input = String::from("1+1+1+1+1+1+1");
    assert_eq!(app.check_solution(), None);
}

#[test]
fn end_to_end_miss_scores_distance() {
    let mut app = playing_app([100, 75, 3, 2, 1, 6], 500);
    app.value_input = String::from("  100 * 6 - 75  ");
    assert_eq!(app.check_solution(), Some(25));
}

#[test]
fn scoring_is_distance_either_side() {
    assert_eq!(score_value(25, 20), Some(5));
    assert_eq!(score_value(15, 20), Some(5));
    assert_eq!(score_value(20, 20), Some(0));
    assert_eq!(score_value(-3, 5), Some(8));
    assert_eq!(score_value(i64::MAX, 0), None);
}

#[test]
fn calculation_with_negative_result_scores_distance() {
    assert_eq!(check_solution_calculation("1 - 10", 100), Some(109));
}

#[test]
fn calculation_of_blank_text_has_no_score() {
    assert_eq!(check_solution_calculation("", 100), None);
    assert_eq!(check_solution_calculation("   ", 100), None);
}

#[test]
fn calculation_of_non_arithmetic_text_has_no_score() {
    assert_eq!(check_solution_calculation("rand(1,1)", 100), None);
    assert_eq!(check_solution_calculation("2 ^ 3", 8), None);
}

#[test]
fn calculation_of_overlong_text_has_no_score() {
    let long = format!("{}1{}", "(".repeat(200), ")".repeat(200));
    assert_eq!(check_solution_calculation(&long, 1), None);
    let fits = format!("{}1{}", "(".repeat(100), ")".repeat(100));
    assert_eq!(check_solution_calculation(&fits, 1), Some(0));
}

#[test]
fn end_to_end_function_call_has_no_score() {
    let mut app = playing_app([1, 1, 2, 3, 4, 5], 100);
    app.value_input = String::from("rand(1,1)");
    assert_eq!(app.check_solution(), None);
}

#[test]
fn rescanning_rendered_literals_gives_them_back() {
    let numbers = vec![10u32, 2, 3, 0, 4294967295];
    let text = numbers
        .iter()
        .map(|n| n.to_string())
        .collect::<Vec<_>>()
        .join(" ");
    assert_eq!(get_solution_numbers(&text), numbers);
}

#[test]
fn calculation_with_trailing_operator_has_no_score() {
    assert_eq!(check_solution_calculation("3 +", 100), None);
}

#[test]
fn trim_removes_surrounding_white_space() {
    assert_eq!(trim_white_space("  1 + 2 \t\n"), "1 + 2");
    assert_eq!(trim_white_space("   "), "");
    assert_eq!(trim_white_space("7"), "7");
}

#[test]
fn feedback_sound_follows_score() {
    assert_eq!(feedback_sound(Some(0)), Some(SoundEffect::Perfect));
    assert_eq!(feedback_sound(Some(10)), Some(SoundEffect::Valid));
    assert_eq!(feedback_sound(Some(11)), None);
    assert_eq!(feedback_sound(None), None);
}

#[test]
fn typing_a_hit_sets_feedback_and_sound() {
    let mut app = playing_app([1, 2, 3, 4, 5, 6], 3);
    assert_eq!(app.handle_playing(Key::Char('1')), Some(SoundEffect::Valid));
    assert_eq!(app.feedback, " \u{1f4cf} 2");
    assert_eq!(app.handle_playing(Key::Char(' ')), None);
    assert_eq!(app.handle_playing(Key::Char('+')), None);
    assert_eq!(app.feedback, "");
    assert_eq!(app.handle_playing(Key::Char('2')), Some(SoundEffect::Perfect));
    assert_eq!(app.feedback, " \u{2705}");
    assert_eq!(app.value_input, "1 +2");
    assert_eq!(app.handle_playing(Key::Backspace), None);
    assert_eq!(app.value_input, "1 +");
    assert_eq!(app.handle_playing(Key::Char('x')), None);
    assert_eq!(app.value_input, "1 +");
    assert_eq!(app.handle_playing(Key::Enter), None);
    assert_eq!(app.current_screen, CurrentScreen::DisplayingResult);
}

#[test]
fn keys_move_through_screens() {
    let mut app = App::new();
    let response = app.handle_key(Key::Enter);
    assert!(!response.quit);
    assert_eq!(app.current_screen, CurrentScreen::PickingNumbers);
    assert_eq!(app.handle_key(Key::Enter).sound, None);
    assert_eq!(app.current_screen, CurrentScreen::PickingNumbers);
    for _ in 0..3 {
        app.handle_key(Key::Char(']'));
        app.handle_key(Key::Char('['));
    }
    assert!(app.is_number_selection_complete());
    assert_eq!(app.handle_key(Key::Enter).sound, Some(SoundEffect::Start));
    assert_eq!(app.current_screen, CurrentScreen::Playing);
    app.handle_key(Key::Enter);
    assert_eq!(app.current_screen, CurrentScreen::DisplayingResult);
    let response = app.handle_key(Key::Enter);
    assert!(response.new_game);
    assert_eq!(app.current_screen, CurrentScreen::PickingNumbers);
    assert_eq!(app.selected_numbers, [None; 6]);
    assert!(app.handle_key(Key::Char('q')).quit);
    assert!(app.handle_key(Key::Esc).quit);
}

#[test]
fn texts_follow_screen() {
    let mut app = App::new();
    assert_eq!(title_text(&app), "Numbers Game");
    assert_eq!(hint_text(&app), "Press (Enter) to skip");
    app.current_screen = CurrentScreen::PickingNumbers;
    assert_eq!(title_text(&app), "Pick some numbers");
    app.selected_numbers = [Some(1); 6];
    assert_eq!(title_text(&app), "Hit (Enter) to start the challenge");
    assert_eq!(hint_text(&app), "Press (Enter) to start");
    assert_eq!(key_notes_text(CurrentScreen::Playing), "(q) to quit, (Enter) to submit");
    assert_eq!(
        key_notes_text(CurrentScreen::DisplayingResult),
        "(q) to quit, (Enter) to play again"
    );
}

#[test]
fn result_grades_by_distance() {
    assert_eq!(result_grade(Some(0)), ResultGrade::Hit);
    assert_eq!(result_grade(Some(5)), ResultGrade::Awesome);
    assert_eq!(result_grade(Some(6)), ResultGrade::Great);
    assert_eq!(result_grade(Some(7)), ResultGrade::Nice);
    assert_eq!(result_grade(Some(11)), ResultGrade::Within);
    assert_eq!(result_grade(None), ResultGrade::Unlucky);
}

#[test]
fn fireworks_go_up_in_turn() {
    assert_eq!(firework_launch(0), Some(LaunchPosition::Centre));
    assert_eq!(firework_launch(180), Some(LaunchPosition::Right));
    assert_eq!(firework_launch(360), Some(LaunchPosition::Left));
    assert_eq!(firework_launch(540), Some(LaunchPosition::Centre));
    assert_eq!(firework_launch(181), None);
    assert_eq!(firework_launch(3600), None);
}
