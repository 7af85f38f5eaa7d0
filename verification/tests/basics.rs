use lrs::coins::{describe_state_quarter, Coin, UsState};
use lrs::functions::{add_one, do_twice};
use lrs::inventory::{add_one_v1, Inventory, ShirtColor};
use lrs::naming::{Animal, Dog, Wrapper};
use lrs::outline::outline;
use lrs::ownership::{calculate_length, gives_ownership, takes_and_gives_back};
use lrs::points::{Meters, Milimeters, MyBox, Pair, Point};
use lrs::restaurant::{eat_at_rest, Appetizer, Breakfast};
use lrs::shoes::{shoes_in_size, Shoe};
use lrs::summary::{NewsArticle, Summary};
use lrs::text::{first_word, longest, mod_and_calculate_length, ImportantExcerpt};
use lrs::users::build_user;
use lrs::Rectangle;

#[test]
fn exploration() {
    let result = lrs::add(2, 2);
    assert_eq!(result, 4);
}

#[test]
fn larger_can_hold_smaller() {
    let larger = Rectangle { width: 8, height: 7 };

    let smaller = Rectangle { width: 7, height: 6 };

    assert!(larger.can_hold(&smaller));
}

#[test]
fn smaller_cannot_hold_larger() {
    let larger = Rectangle { width: 8, height: 7 };

    let smaller = Rectangle { width: 7, height: 6 };

    assert!(!smaller.can_hold(&larger));
}

#[test]
fn it_adds_two() {
    let result = lrs::add_two(2);
    assert_eq!(result, 4);
}

#[test]
fn it_works() -> Result<(), String> {
    let result = lrs::add(2, 2);

    if result == 4 {
        Ok(())
    } else {
        Err(String::from("2 + 2 != 4"))
    }
}

#[test]
fn filter_by_size() {
    let shoes = vec![
        Shoe { size: 10, style: String::from("sneaker") },
        Shoe { size: 9, style: String::from("sneaker") },
        Shoe { size: 10, style: String::from("sneaker") },
    ];

    assert_eq!(
        shoes_in_size(shoes, 9),
        vec![Shoe { size: 9, style: String::from("sneaker") }]
    );
}

#[test]
fn filter_by_size_keeps_order() {
    let shoes = vec![
        Shoe { size: 10, style: String::from("sneaker") },
        Shoe { size: 13, style: String::from("sandal") },
        Shoe { size: 10, style: String::from("boot") },
    ];

    assert_eq!(
        shoes_in_size(shoes, 10),
        vec![
            Shoe { size: 10, style: String::from("sneaker") },
            Shoe { size: 10, style: String::from("boot") },
        ]
    );
    assert_eq!(shoes_in_size(Vec::new(), 10), Vec::new());
}

#[test]
fn guess_of_one_hundred() {
    let _guess = lrs::Guess::new(100);
}

#[test]
fn add_at_the_limits() {
    assert_eq!(lrs::add(u64::MAX, 0), u64::MAX);
    assert_eq!(lrs::add_two(i32::MAX - 2), i32::MAX);
    assert_eq!(lrs::add_two(i32::MIN), i32::MIN + 2);
}

#[test]
fn giveaway_follows_preference_then_stock() {
    let store = Inventory { shirts: vec![ShirtColor::Blue, ShirtColor::Red, ShirtColor::Blue] };
    assert_eq!(store.giveaway(Some(ShirtColor::Red)), ShirtColor::Red);
    assert_eq!(store.giveaway(None), ShirtColor::Blue);
    assert_eq!(store.most_stocked(), ShirtColor::Blue);

    let red = Inventory { shirts: vec![ShirtColor::Red, ShirtColor::Red, ShirtColor::Blue] };
    assert_eq!(red.most_stocked(), ShirtColor::Red);
    assert_eq!(red.giveaway(None), ShirtColor::Red);

    let tie = Inventory { shirts: vec![ShirtColor::Red, ShirtColor::Blue] };
    assert_eq!(tie.most_stocked(), ShirtColor::Blue);
    let none = Inventory { shirts: Vec::new() };
    assert_eq!(none.most_stocked(), ShirtColor::Blue);
    assert_eq!(add_one_v1(1), 2);
}

#[test]
fn rectangle_by_length_and_width() {
    let rect1 = lrs::shapes::Rectangle { length: 50, width: 60 };
    let rect2 = lrs::shapes::Rectangle { length: 40, width: 10 };
    assert_eq!(rect1.area(), 3000);
    assert!(rect1.width());
    assert!(rect1.can_hold(&rect2));
    assert!(!rect2.can_hold(&rect1));
    assert!(!rect1.can_hold(&rect1));
    let sq = lrs::shapes::Rectangle::square(10);
    assert_eq!(sq.length, 10);
    assert_eq!(sq.width, 10);
    assert!(!lrs::shapes::Rectangle::square(0).width());
}

#[test]
fn states_and_quarters() {
    assert!(UsState::Alaska.existed_in(1819));
    assert!(!UsState::Alaska.existed_in(1818));
    assert!(UsState::Alabama.existed_in(1959));
    assert!(!UsState::Alabama.existed_in(1958));
    assert_eq!(
        describe_state_quarter(Coin::Quarter(UsState::Alaska)),
        Some(String::from("Alaska"))
    );
    assert_eq!(
        describe_state_quarter(Coin::Quarter(UsState::Alabama)),
        Some(String::from("Alabama"))
    );
}

#[test]
fn points_and_lengths() {
    assert_eq!(Point { x: 1, y: 0 }.add(Point { x: 2, y: 3 }), Point { x: 3, y: 3 });
    assert_eq!(Milimeters(5).add(Meters(2)), Milimeters(2005));
    let mixed = Pair::new(5, 1).mixup(Pair::new("a", 'c'));
    assert_eq!(mixed.x, 5);
    assert_eq!(mixed.y, 'c');
    let boxed = MyBox::new(5);
    assert_eq!(*boxed.deref(), 5);
}

#[test]
fn breakfast_of_the_summer() {
    let mut meal = Breakfast::summer("Rye");
    assert_eq!(meal.toast, "Rye");
    assert_eq!(meal.seasonal_fruit(), "peaches");
    meal.toast = String::from("Wheat");
    assert_eq!(meal.toast, "Wheat");
    assert_eq!(meal.seasonal_fruit(), "peaches");
    assert_ne!(Appetizer::Soup, Appetizer::Salad);
    eat_at_rest();
}

#[test]
fn article_in_one_line() {
    let article = NewsArticle {
        headline: String::from("abc"),
        author: String::from("abc"),
        content: String::from("asdsad"),
    };
    assert_eq!(article.summarize(), "abc abc asdsad");
    assert_eq!(article.summarize_author(), "abc");
}

#[test]
fn first_word_ends_at_the_blank() {
    assert_eq!(first_word("hello world"), "hello");
    assert_eq!(first_word("hello"), "hello");
    assert_eq!(first_word(" hello"), "");
    assert_eq!(first_word(""), "");
    assert_eq!(first_word("h\u{e9}llo w\u{f6}rld again"), "h\u{e9}llo");
}

#[test]
fn longest_and_lengths() {
    assert_eq!(longest("ayx", "xy"), "ayx");
    assert_eq!(longest("ab", "xyz"), "xyz");
    assert_eq!(longest("abc", "xyz"), "xyz");
    assert_eq!(longest("\u{e9}", "ab"), "ab");
    let excerpt = ImportantExcerpt { part: "ads" };
    assert_eq!(excerpt.level(), 3);
    assert_eq!(excerpt.announce("now"), "ads");
    assert_eq!(lrs::text::calculate_length(&String::from("len")), 3);
    assert_eq!(lrs::text::calculate_length(&String::from("\u{e9}")), 2);
    let mut s2 = String::from("hi");
    assert_eq!(mod_and_calculate_length(&mut s2), 3);
    assert_eq!(s2, "hio");
}

#[test]
fn strings_change_hands() {
    assert_eq!(gives_ownership(), "yours");
    assert_eq!(takes_and_gives_back(String::from("hello")), "hello");
    assert_eq!(calculate_length(String::from("hello")), (String::from("hello"), 5));
}

#[test]
fn new_user_is_active() {
    let user = build_user(String::from("a@b.c"), String::from("user1"));
    assert!(user.active);
    assert_eq!(user.username, "user1");
    assert_eq!(user.email, "a@b.c");
    assert_eq!(user.sign_in_count, 1);
}

#[test]
fn twice_the_successor() {
    assert_eq!(add_one(5), 6);
    assert_eq!(do_twice(add_one, 5), 12);
    assert_eq!(do_twice(|x: i32| x * 2, -3), -12);
}

#[test]
fn text_in_a_frame() {
    assert_eq!(
        outline("hi"),
        vec![
            String::from("******"),
            String::from("*    *"),
            String::from("* hi *"),
            String::from("*    *"),
            String::from("******"),
        ]
    );
    assert_eq!(
        outline(""),
        vec![
            String::from("****"),
            String::from("*  *"),
            String::from("*  *"),
            String::from("*  *"),
            String::from("****"),
        ]
    );
    assert_eq!(outline("\u{e9}")[0], "******");
    assert_eq!(outline("\u{e9}")[2], "* \u{e9} *");
}

#[test]
fn names_of_a_young_dog() {
    assert_eq!(Dog::baby_name(), "spot");
    assert_eq!(<Dog as Animal>::baby_name(), "puppy");
}

#[test]
fn list_in_brackets() {
    let w = Wrapper(vec![String::from("hi"), String::from("hello")]);
    assert_eq!(w.to_text(), "[hi, hello]");
    assert_eq!(Wrapper(vec![String::from("one")]).to_text(), "[one]");
    assert_eq!(Wrapper(Vec::new()).to_text(), "[]");
    assert_eq!(
        Wrapper(vec![String::new(), String::from("a"), String::new()]).to_text(),
        "[, a, ]"
    );
}
