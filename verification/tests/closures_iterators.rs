use course::closures_iterators::{
    generate_workout, generate_workout_cache, generate_workout_closures, shoes_in_my_size, Cache,
    Counter, Shoe, Workout,
};
use std::cell::Cell;

#[test]
fn closures_scope_test() {
    let x = 4;
    let equal_to_x = |z| z == x;

    assert!(equal_to_x(4));

    let mut s1 = String::from("1233");
    let mut append_something = |s| {
        s1.push_str(s);
    };
    append_something("12333");
}

#[test]
fn test_generate_workout_closures() {
    generate_workout(10, 7);
}

#[test]
fn test_generate_workout_cache() {
    generate_workout(10, 7);
}

#[test]
fn shoes_in_my_size_test() {
    let shoes = vec![
        Shoe { size: 10, style: String::from("sneaker") },
        Shoe { size: 13, style: String::from("sandal") },
        Shoe { size: 10, style: String::from("boot") },
    ];
    let in_my_size = shoes_in_my_size(&shoes, 10);
    println!("{:?}", in_my_size);
    println!("{:?}", shoes);
}

#[test]
fn counter_test() {
    let mut counter = Counter::new();
    for index in std::iter::from_fn(move || counter.next()) {
        println!("{}", index);
    }

    let mut first = Counter::new();
    let mut second = Counter::new();
    let sum: u32 = std::iter::from_fn(move || first.next())
        .zip(std::iter::from_fn(move || second.next()).skip(1))
        .map(|(a, b)| a * b)
        .filter(|x| x % 3 == 0)
        .sum();
    println!("{}", sum);

    let s = "hello rust";
    let words = s.split(" ");
    let _n = words.count();
}

#[test]
fn counter_counts_from_one_to_five() {
    let mut counter = Counter::new();
    assert_eq!(counter.next(), Some(1));
    assert_eq!(counter.next(), Some(2));
    assert_eq!(counter.next(), Some(3));
    assert_eq!(counter.next(), Some(4));
    assert_eq!(counter.next(), Some(5));
    assert_eq!(counter.next(), None);
    assert_eq!(counter.next(), None);
}

#[test]
fn counter_products_divisible_by_three_sum_to_eighteen() {
    let mut first = Counter::new();
    let mut second = Counter::new();
    let sum: u32 = std::iter::from_fn(move || first.next())
        .zip(std::iter::from_fn(move || second.next()).skip(1))
        .map(|(a, b)| a * b)
        .filter(|x| x % 3 == 0)
        .sum();
    assert_eq!(sum, 18);
}

#[test]
fn shoes_of_the_size_are_kept_in_order() {
    let shoes = vec![
        Shoe { size: 10, style: String::from("sneaker") },
        Shoe { size: 13, style: String::from("sandal") },
        Shoe { size: 10, style: String::from("boot") },
    ];
    let in_my_size = shoes_in_my_size(&shoes, 10);
    assert_eq!(
        in_my_size,
        vec![
            &Shoe { size: 10, style: String::from("sneaker") },
            &Shoe { size: 10, style: String::from("boot") },
        ]
    );
    assert!(shoes_in_my_size(&shoes, 11).is_empty());
    assert!(shoes_in_my_size(&[], 10).is_empty());
}

#[test]
fn workout_follows_intensity_and_chance() {
    assert_eq!(generate_workout(10, 7), Workout::Exercises { pushups: 10, situps: 10 });
    assert_eq!(generate_workout(24, 3), Workout::Exercises { pushups: 24, situps: 24 });
    assert_eq!(generate_workout(25, 3), Workout::Break);
    assert_eq!(generate_workout(25, 4), Workout::Run { minutes: 25 });
}

#[test]
fn workout_with_closure_asks_for_every_amount() {
    let calls = Cell::new(0);
    let expensive = |n: u32| {
        calls.set(calls.get() + 1);
        n + calls.get()
    };
    assert_eq!(
        generate_workout_closures(10, 7, &expensive),
        Workout::Exercises { pushups: 11, situps: 12 }
    );
    assert_eq!(calls.get(), 2);
    assert_eq!(generate_workout_closures(30, 3, &expensive), Workout::Break);
    assert_eq!(calls.get(), 2);
    assert_eq!(generate_workout_closures(30, 5, &expensive), Workout::Run { minutes: 33 });
}

#[test]
fn workout_with_cache_calculates_once() {
    let calls = Cell::new(0);
    let expensive = |n: u32| {
        calls.set(calls.get() + 1);
        n + calls.get()
    };
    assert_eq!(
        generate_workout_cache(10, 7, &expensive),
        Workout::Exercises { pushups: 11, situps: 11 }
    );
    assert_eq!(calls.get(), 1);
    assert_eq!(generate_workout_cache(30, 3, &expensive), Workout::Break);
    assert_eq!(calls.get(), 1);
}

#[test]
fn cache_keeps_its_first_result() {
    let mut cache = Cache::new(|n| n * 2);
    assert_eq!(cache.value(4), 8);
    assert_eq!(cache.value(5), 8);
}
