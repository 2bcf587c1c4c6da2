//! Tests of the small verified utilities: options, strings, slices, shoes,
//! records, wrappers, points, rectangles, and the workout planner.

use memocache::basics::largest;
use memocache::basics::longest;
use memocache::basics::plus_one;
use memocache::basics::takes_and_gives_back;
use memocache::boxed::MyBox;
use memocache::point::Point;
use memocache::rectangle::Rectangle;
use memocache::shoes::Shoe;
use memocache::shoes::shoes_in_my_size;
use memocache::user::build_user;
use memocache::workout::WorkoutPlan;
use memocache::workout::generate_workout;

#[test]
fn plus_one_steps_the_number() {
    assert_eq!(plus_one(Some(5)), Some(6));
    assert_eq!(plus_one(None), None);
    assert_eq!(plus_one(Some(-1)), Some(0));
}

#[test]
fn longest_picks_the_longer_slice() {
    assert_eq!(longest("abcd", "xyz"), "abcd");
    assert_eq!(longest("ab", "wxyz"), "wxyz");
    // ties go to the second argument
    assert_eq!(longest("abc", "xyz"), "xyz");
}

#[test]
fn largest_of_numbers_and_chars() {
    let number_list = vec![34, 50, 25, 100, 65];
    assert_eq!(largest(&number_list), 100);
    let char_list = vec!['y', 'm', 'a', 'q'];
    assert_eq!(largest(&char_list), 'y');
    let single = [7u32];
    assert_eq!(largest(&single), 7);
}

#[test]
fn takes_and_gives_back_returns_its_argument() {
    let s = String::from("some string");
    assert_eq!(takes_and_gives_back(s), "some string");
}

#[test]
fn shoes_filter_keeps_order_and_size() {
    let shoes = vec![
        Shoe { size: 10, style: String::from("sneaker") },
        Shoe { size: 13, style: String::from("sandal") },
        Shoe { size: 10, style: String::from("boot") },
    ];
    let in_my_size = shoes_in_my_size(shoes, 10);
    assert_eq!(
        in_my_size,
        vec![
            Shoe { size: 10, style: String::from("sneaker") },
            Shoe { size: 10, style: String::from("boot") },
        ]
    );
}

#[test]
fn shoes_filter_can_come_up_empty() {
    let shoes = vec![Shoe { size: 9, style: String::from("loafer") }];
    assert_eq!(shoes_in_my_size(shoes, 10), vec![]);
}

#[test]
fn build_user_stores_all_parts() {
    let u = build_user(
        String::from("someone@example.com"),
        String::from("someusername123"),
        1,
    );
    assert_eq!(u.email, "someone@example.com");
    assert_eq!(u.username, "someusername123");
    assert_eq!(u.id, 1);
}

#[test]
fn my_box_wraps_and_lends_its_value() {
    let b = MyBox::new(String::from("Rust"));
    assert_eq!(b.inner(), "Rust");
    assert_eq!(b.0, "Rust");
}

#[test]
fn point_accessors_and_mix_up() {
    let p1 = Point { x: 5, y: 10.4 };
    let p2 = Point { x: "Hello", y: 'c' };
    assert_eq!(*p1._x(), 5);
    assert_eq!(*p1._y(), 10.4);
    let p3 = p1._mix_up(p2);
    assert_eq!(p3.x, 5);
    assert_eq!(p3.y, 'c');
}

#[test]
fn rectangle_area_and_can_hold() {
    let rect1 = Rectangle::_new(30, 50);
    assert_eq!(rect1._area(), 1500);
    let rect2 = Rectangle::_new(10, 40);
    assert!(rect1._can_hold(&rect2));
    assert!(!rect2._can_hold(&rect1));
    // equal sides do not count as fitting strictly inside
    assert!(!rect1._can_hold(&rect1));
}

#[test]
fn workout_plans_follow_the_rules() {
    assert_eq!(
        generate_workout(10, 7),
        WorkoutPlan::Exercise { pushups: 10, situps: 10 }
    );
    assert_eq!(generate_workout(30, 3), WorkoutPlan::Break);
    assert_eq!(generate_workout(30, 7), WorkoutPlan::Run { minutes: 30 });
    // the boundary: intensity 25 is no longer the exercise branch
    assert_eq!(generate_workout(25, 4), WorkoutPlan::Run { minutes: 25 });
}
