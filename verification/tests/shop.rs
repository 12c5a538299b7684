use fundamentals::coins::describe_state_quarter;
use fundamentals::coins::describe_state_quarter_three;
use fundamentals::coins::describe_state_quarter_two;
use fundamentals::coins::value_in_cents;
use fundamentals::coins::value_in_cents_two;
use fundamentals::coins::Coin;
use fundamentals::coins::UsState;
use fundamentals::dice::add_fancy_hat;
use fundamentals::dice::move_player;
use fundamentals::dice::plus_one;
use fundamentals::dice::remove_fancy_hat;
use fundamentals::dice::reroll;
use fundamentals::inventory::Inventory;
use fundamentals::inventory::ShirtColor;

#[test]
fn giveaway_follows_the_preference() {
    let store = Inventory {
        shirts: vec![ShirtColor::Blue, ShirtColor::Red, ShirtColor::Blue],
    };
    assert_eq!(store.giveaway(Some(ShirtColor::Red)), ShirtColor::Red);
    assert_eq!(store.giveaway(Some(ShirtColor::Blue)), ShirtColor::Blue);
    assert_eq!(store.giveaway(None), ShirtColor::Blue);
}

#[test]
fn most_stocked_colour() {
    let blue = Inventory {
        shirts: vec![ShirtColor::Blue, ShirtColor::Red, ShirtColor::Blue],
    };
    assert_eq!(blue.most_stocked(), ShirtColor::Blue);
    let red = Inventory {
        shirts: vec![ShirtColor::Red, ShirtColor::Red, ShirtColor::Blue],
    };
    assert_eq!(red.most_stocked(), ShirtColor::Red);
    assert_eq!(red.giveaway(None), ShirtColor::Red);
    let even = Inventory { shirts: vec![ShirtColor::Red, ShirtColor::Blue] };
    assert_eq!(even.most_stocked(), ShirtColor::Blue);
    let empty = Inventory { shirts: vec![] };
    assert_eq!(empty.most_stocked(), ShirtColor::Blue);
}

#[test]
fn coins_in_cents() {
    assert_eq!(value_in_cents(Coin::Penny), 1);
    assert_eq!(value_in_cents(Coin::Nickel), 5);
    assert_eq!(value_in_cents(Coin::Dime), 10);
    assert_eq!(value_in_cents(Coin::Quarter(UsState::Alabama)), 25);
    assert_eq!(value_in_cents_two(Coin::Penny), 1);
    assert_eq!(value_in_cents_two(Coin::Nickel), 5);
    assert_eq!(value_in_cents_two(Coin::Dime), 10);
    assert_eq!(value_in_cents_two(Coin::Quarter(UsState::Alaska)), 25);
}

#[test]
fn states_by_year() {
    assert!(UsState::Alabama.existed_in(1819));
    assert!(!UsState::Alabama.existed_in(1818));
    assert!(UsState::Alabama.existed_in(1900));
    assert!(UsState::Alaska.existed_in(1959));
    assert!(!UsState::Alaska.existed_in(1958));
    assert!(!UsState::Alaska.existed_in(0));
    assert!(UsState::Alaska.existed_in(u16::MAX));
    assert_eq!(UsState::Alabama.name(), "Alabama");
    assert_eq!(UsState::Alaska.name(), "Alaska");
    assert_eq!(format!("{:?}", UsState::Alaska), UsState::Alaska.name());
    assert_eq!(format!("{:?}", UsState::Alabama), UsState::Alabama.name());
}

#[test]
fn quarters_describe_their_state() {
    let old = Some(String::from("Alabama is pretty old, for America!"));
    let new = Some(String::from("Alaska is relatively new."));
    assert_eq!(describe_state_quarter(Coin::Quarter(UsState::Alabama)), old);
    assert_eq!(describe_state_quarter(Coin::Quarter(UsState::Alaska)), new);
    assert_eq!(describe_state_quarter_two(Coin::Quarter(UsState::Alabama)), old);
    assert_eq!(describe_state_quarter_two(Coin::Quarter(UsState::Alaska)), new);
    assert_eq!(describe_state_quarter_three(Coin::Quarter(UsState::Alabama)), old);
    assert_eq!(describe_state_quarter_three(Coin::Quarter(UsState::Alaska)), new);
    for coin in [Coin::Penny, Coin::Nickel, Coin::Dime] {
        assert_eq!(describe_state_quarter(coin), None);
        assert_eq!(describe_state_quarter_two(coin), None);
        assert_eq!(describe_state_quarter_three(coin), None);
    }
}

#[test]
fn plus_one_of_an_option() {
    let five = Some(5);
    assert_eq!(plus_one(five), Some(6));
    assert_eq!(plus_one(None), None);
    assert_eq!(plus_one(Some(-1)), Some(0));
    assert_eq!(plus_one(Some(i32::MAX - 1)), Some(i32::MAX));
    assert_eq!(plus_one(Some(i32::MIN)), Some(i32::MIN + 1));
}

#[test]
fn moves_of_the_game_return() {
    add_fancy_hat();
    remove_fancy_hat();
    move_player(9);
    reroll();
}
