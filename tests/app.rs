use numbers_game::{
    check_solution_calculation, check_solution_numbers, get_solution_numbers, App,
    LARGE_NUMBER_COUNT, SMALL_NUMBER_COUNT,
};

#[test]
fn random_available_large_number_index_returns_only_valid_index_as_expected() {
    // arrange
    let mut app = App::new();
    app.available_large_numbers[0] = None;
    app.available_large_numbers[1] = None;
    app.available_large_numbers[3] = None;

    // act
    let result = app.random_available_large_number_index();

    // assert
    assert_eq!(result, Some(2));
}

#[test]
fn random_available_large_number_index_returns_valid_index_as_expected() {
    // arrange
    let mut app = App::new();

    // act
    for _ in 0..LARGE_NUMBER_COUNT {
        let index = app.random_available_large_number_index();
        app.available_large_numbers[index.unwrap()] = None;
    }

    let result = app
        .available_large_numbers
        .iter()
        .any(std::option::Option::is_some);

    // assert
    assert!(!result);
}

#[test]
fn random_available_large_number_index_returns_none_as_expected() {
    // arrange
    let mut app = App::new();
    for _ in 0..LARGE_NUMBER_COUNT {
        let index = app.random_available_large_number_index();
        app.available_large_numbers[index.unwrap()] = None;
    }

    // act
    let result = app.random_available_large_number_index();

    // assert
    assert_eq!(result, None);
}

#[test]
fn random_available_small_number_index_returns_none_as_expected() {
    // arrange
    let mut app = App::new();
    for _ in 0..SMALL_NUMBER_COUNT {
        let index = app.random_available_small_number_index();
        app.available_small_numbers[index.unwrap()] = None;
    }

    // act
    let result = app.random_available_small_number_index();

    // assert
    assert_eq!(result, None);
}

#[test]
fn is_number_selection_complete_returns_false_as_expected() {
    // arrange
    let mut app = App::new();

    // act
    let result = app.is_number_selection_complete();

    // assert
    assert!(!result);

    // arrange
    app.selected_numbers[0] = Some(1);
    app.selected_numbers[1] = Some(1);

    // act
    let result = app.is_number_selection_complete();

    // assert
    assert!(!result);
}

#[test]
fn is_number_selection_complete_returns_true_as_expected() {
    // arrange
    let mut app = App::new();
    app.pick_random_large_number();
    app.pick_random_large_number();
    app.pick_random_large_number();
    app.pick_random_small_number();
    app.pick_random_small_number();
    app.pick_random_small_number();

    // act
    let result = app.is_number_selection_complete();

    // assert
    assert!(result);
}

#[test]
fn check_solution_returns_none_for_empty_solution() {
    // arrange
    let mut app = App::new();
    app.value_input = String::from("  ");

    // act
    let result = app.check_solution();

    assert_eq!(result, None);

    // arrange
    app.value_input = String::new();

    // act
    let result = app.check_solution();

    // assert
    assert_eq!(result, None);
}

#[test]
fn check_solution_returns_none_for_solution_using_non_selected_numbers() {
    // arrange
    let mut app = App::new();
    app.selected_numbers = [Some(1), Some(2), Some(3), Some(4), Some(5), Some(6)];
    app.value_input = String::from("(1 + 2 + 3 + 4 + 5 + 6) * 7");
    app.target = 147;

    // act
    let result = app.check_solution();

    // assert
    assert_eq!(result, None);
}

#[test]
fn check_solution_returns_none_for_solution_using_selected_number_too_many_times() {
    // arrange
    let mut app = App::new();
    app.selected_numbers = [Some(1), Some(2), Some(3), Some(4), Some(5), Some(6)];
    app.value_input = String::from("1 + 2 + 3 + 4 + 5 + 5");
    app.target = 20;

    // act
    let result = app.check_solution();

    // assert
    assert_eq!(result, None);
}

#[test]
fn check_solution_returns_expected_result_if_not_all_numbers_used() {
    // arrange
    let mut app = App::new();
    app.selected_numbers = [Some(1), Some(2), Some(3), Some(4), Some(5), Some(6)];
    app.value_input = String::from("1 + 2 + 3 + 4 + 5");
    app.target = 15;

    // act
    let result = app.check_solution();

    // assert
    assert_eq!(result, Some(0));
}

#[test]
fn get_solution_parses_valid_input() {
    // arrange
    let input = "(10 *2) + 3 - 2 / 1";

    // act
    let result = get_solution_numbers(input);

    // assert
    assert_eq!(result, [10, 2, 3, 2, 1]);
}

#[test]
fn check_solution_numbers_identifies_correct_numbers() {
    // arrange
    let input_numbers = [10, 2, 3, 2, 1];
    let selected_numbers = [Some(10), Some(2), Some(3), Some(2), Some(1), Some(75)];

    // act
    let result = check_solution_numbers(&input_numbers, &selected_numbers);

    // assert
    assert!(result);
}

#[test]
fn check_solution_numbers_identifies_incorrect_repeated_numbers() {
    // arrange
    let input_numbers = [10, 2, 3, 2, 2];
    let selected_numbers = [Some(10), Some(2), Some(3), Some(2), Some(1), Some(75)];

    // act
    let result = check_solution_numbers(&input_numbers, &selected_numbers);

    // assert
    assert!(!result);
}

#[test]
fn check_solution_numbers_identifies_incorrect_absent_numbers() {
    // arrange
    let input_numbers = [9, 2, 3, 2, 1];
    let selected_numbers = [Some(10), Some(2), Some(3), Some(2), Some(1), Some(75)];

    // act
    let result = check_solution_numbers(&input_numbers, &selected_numbers);

    // assert
    assert!(!result);
}

#[test]
fn check_solution_calculation_parses_valid_input() {
    // arrange
    let input = "(10 * 2) + 3 - 2 / 1";

    // act
    let result = check_solution_calculation(input, 21);

    // assert
    assert_eq!(result, Some(0));
}

#[test]
fn check_solution_calculation_returns_expected_value_for_large_calculation() {
    // arrange
    let input = "(10 * 2) + 3 - 2 / 1";

    // act
    let result = check_solution_calculation(input, 20);

    // assert
    assert_eq!(result, Some(1));
}

#[test]
fn check_solution_calculation_returns_expected_value_for_small_calculation() {
    // arrange
    let input = "(10 * 2) + 3 - 2 / 1";

    // act
    let result = check_solution_calculation(input, 22);

    // assert
    assert_eq!(result, Some(1));
}

#[test]
fn check_solution_calculation_parses_invalid_input() {
    // arrange
    let input = "(10 * 2 + 3 - 2 / 1";

    // act
    let result = check_solution_calculation(input, 21);

    // assert
    assert_eq!(result, None);
}
