use guessing_game::numbers::add;
use guessing_game::numbers::calculate_rectangle_area;
use guessing_game::numbers::check_even;
use guessing_game::numbers::explicit_return_example;
use guessing_game::numbers::expression_example;
use guessing_game::numbers::five;
use guessing_game::numbers::multiply;
use guessing_game::numbers::multiply_and_add;
use guessing_game::numbers::statement_example;
use guessing_game::text::calculate_length;
use guessing_game::text::change;
use guessing_game::text::concatenate_names;
use guessing_game::text::dangle;
use guessing_game::text::first_word;
use guessing_game::text::gives_ownership;
use guessing_game::text::takes_and_gives_back_ownership;
use guessing_game::user::build_user;

#[test]
fn five_is_five() {
    assert_eq!(five(), 5);
}

#[test]
fn add_sums() {
    assert_eq!(add(5, 3), 8);
    assert_eq!(add(-5, 3), -2);
}

#[test]
fn multiply_products() {
    assert_eq!(multiply(2, 3), 6);
    assert_eq!(multiply(-4, 3), -12);
}

#[test]
fn multiply_and_add_composes() {
    assert_eq!(multiply_and_add(2, 3, 4), 10);
}

#[test]
fn rectangle_area() {
    assert_eq!(calculate_rectangle_area(10, 5), 50);
}

#[test]
fn evenness() {
    assert!(check_even(4));
    assert!(!check_even(15));
    assert!(check_even(0));
    assert!(check_even(-4));
    assert!(!check_even(-3));
}

#[test]
fn expression_value() {
    assert_eq!(expression_example(), 42);
}

#[test]
fn statement_value_is_unit() {
    assert_eq!(statement_example(), ());
}

#[test]
fn explicit_return_doubles() {
    assert_eq!(explicit_return_example(10), 20);
}

#[test]
fn names_are_joined_with_a_space() {
    assert_eq!(concatenate_names("John", "Doe"), "John Doe");
}

#[test]
fn length_counts_characters() {
    let s = String::from("hello");
    assert_eq!(calculate_length(&s), 5);
}

#[test]
fn change_appends_world() {
    let mut s = String::from("hello");
    change(&mut s);
    assert_eq!(s, "hello, world");
}

#[test]
fn ownership_round_trips() {
    assert_eq!(gives_ownership(), "yours");
    let o = String::from("hello");
    assert_eq!(takes_and_gives_back_ownership(o), "hello");
    assert_eq!(dangle(), "hello");
}

#[test]
fn first_word_stops_at_the_first_space() {
    let s = String::from("hello world");
    assert_eq!(first_word(&s), 5);
}

#[test]
fn first_word_of_a_single_word_is_its_length() {
    let s = String::from("hello");
    assert_eq!(first_word(&s), 5);
}

#[test]
fn first_word_of_leading_space_is_zero() {
    let s = String::from(" x");
    assert_eq!(first_word(&s), 0);
}

#[test]
fn built_user_is_active_with_one_sign_in() {
    let u = build_user(String::from("someone@example.com"), String::from("someusername123"));
    assert!(u.active);
    assert_eq!(u.email, "someone@example.com");
    assert_eq!(u.username, "someusername123");
    assert_eq!(u.sign_in_count, 1);
}
