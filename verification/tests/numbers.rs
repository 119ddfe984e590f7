use course::basic::sum;
use course::enums_pattern_matching::{
    append_one, count_in_coin, plus_one, value_in_coin, Coin, UsState,
};
use course::generic_type::{largest, largest_i32, Point};
use course::guessing_game::{judge, parse_guess, Game, GuessError, Verdict};
use course::struct_example::{area, area_rectangle, area_tuple, Rectangle};
use course::structs::{build_user, build_with_other_user, init_user};
use course::summary::{
    notify, notify_summary, notify_summary_displat, returns_summart, some_function,
    trait_practice, NewsArticle, Summary, Tweet,
};

#[test]
fn sum_adds() {
    assert_eq!(sum(160, 120), 280);
    assert_eq!(sum(-5, 5), 0);
    assert_eq!(sum(i32::MAX, i32::MIN), -1);
    assert_eq!(sum(i32::MAX - 1, 1), i32::MAX);
}

#[test]
fn areas_are_products() {
    assert_eq!(area(100, 50), 5000);
    assert_eq!(area_tuple((30, 50)), 1500);
    let rect = Rectangle { width: 100, height: 50 };
    assert_eq!(area_rectangle(&rect), 5000);
    assert_eq!(rect.area(), 5000);
    assert_eq!(area(-3, 4), -12);
    assert_eq!(area(0, i32::MAX), 0);
    assert_eq!(area(46340, 46340), 2147395600);
}

#[test]
fn a_rectangle_holds_what_has_less_area() {
    let rect = Rectangle { width: 100, height: 50 };
    let small = Rectangle { width: 10, height: 10 };
    assert!(rect.can_hold(&small));
    assert!(!small.can_hold(&rect));
    assert!(!rect.can_hold(&rect));
    assert_eq!(Rectangle::square(16), Rectangle { width: 16, height: 16 });
    assert_eq!(Rectangle::square(16).area(), 256);
}

#[test]
fn users_are_built_from_their_parts() {
    let user = init_user();
    assert_eq!(user.username, "someone_username");
    assert_eq!(user.email(), "someone@example.com");
    assert_eq!(user.sign_in_count(), 10);
    assert!(user.active());

    let built = build_user(String::from("a@b.c"), String::from("abc"));
    assert_eq!(built.username, "abc");
    assert_eq!(built.email(), "a@b.c");
    assert_eq!(built.sign_in_count(), 100);
    assert!(built.active());

    let copy = build_with_other_user(String::from("123@qq.com"), String::from("123"), &user);
    assert_eq!(copy.username, "123");
    assert_eq!(copy.email(), "123@qq.com");
    assert_eq!(copy.sign_in_count(), 10);
    assert!(copy.active());
}

#[test]
fn summaries_name_author_and_content() {
    let tweet = Tweet {
        username: String::from("wswei"),
        content: String::from("tweet content"),
        replt: String::from("replt"),
        retweet: String::from("retweet"),
    };
    assert_eq!(tweet.summarize(), "wswei: tweet content");
    assert_eq!(tweet.summary_author(), "wswei: tweet content");
    let article = NewsArticle {
        headline: String::from("Penguins win"),
        location: String::from("Pittsburgh"),
        author: String::from("Iceburgh"),
        content: String::from("The Penguins once again are the best."),
    };
    assert_eq!(article.summarize(), "Penguins win, by Iceburgh (Pittsburgh)");
    assert_eq!(article.summary_author(), "Penguins win, by Iceburgh (Pittsburgh)");
    assert_eq!(notify(article), "Breadking news! Penguins win, by Iceburgh (Pittsburgh)");
    assert_eq!(notify_summary(tweet), "Breadking news! wswei: tweet content");
    assert_eq!(trait_practice(), "wswei: tweet content");
    assert_eq!(returns_summart().summarize(), "wswei: tweet content");
    some_function(1, "two");
}

struct Headline(String);

impl Summary for Headline {
    fn summarize(&self) -> String {
        self.0.clone()
    }
}

impl std::fmt::Display for Headline {
    fn fmt(&self, f: &mut std::fmt::Formatter<'_>) -> std::fmt::Result {
        f.write_str(&self.0)
    }
}

struct Silent;

impl Summary for Silent {}

#[test]
fn an_item_with_nothing_to_say_refers_to_the_text() {
    assert_eq!(Silent.summarize(), "readmore...");
    assert_eq!(Silent.summary_author(), "readmore...");
    assert_eq!(notify_summary(Silent), "Breadking news! readmore...");
}

#[test]
fn a_summary_of_ones_own_is_announced_too() {
    assert_eq!(Headline(String::from("news")).summary_author(), "news");
    assert_eq!(notify(Headline(String::from("news"))), "Breadking news! news");
    notify_summary_displat(Headline(String::from("news")));
}

#[test]
fn coins_have_their_values() {
    assert_eq!(value_in_coin(&Coin::Peeny), 1);
    assert_eq!(value_in_coin(&Coin::Nickel), 5);
    assert_eq!(value_in_coin(&Coin::Dime), 10);
    assert_eq!(value_in_coin(&Coin::Quarter(UsState::Alabama)), 25);
    assert_eq!(value_in_coin(&Coin::Quarter(UsState::Alaska)), 25);
    assert_eq!(count_in_coin(&Coin::Peeny), 1);
    assert_eq!(count_in_coin(&Coin::Dime), 1);
    assert_eq!(count_in_coin(&Coin::Quarter(UsState::Alaska)), 0);
}

#[test]
fn plus_one_adds_inside_the_option() {
    assert_eq!(plus_one(Some(5)), Some(6));
    assert_eq!(plus_one(Some(-1)), Some(0));
    assert_eq!(plus_one(Some(i32::MAX - 1)), Some(i32::MAX));
    assert_eq!(plus_one(None), None);
}

#[test]
fn append_one_changes_the_string_it_is_given() {
    let mut s = String::from("test");
    assert_eq!(append_one(Some(&mut s)), Some(&String::from("test13233")));
    assert_eq!(s, "test13233");
    assert_eq!(append_one(None), None);
}

#[test]
fn largest_finds_the_maximum() {
    assert_eq!(largest_i32(&vec![12, 23, 34, 13]), Ok(&34));
    assert_eq!(largest_i32(&vec![-3, -1, -2]), Ok(&-1));
    assert_eq!(largest_i32(&vec![7]), Ok(&7));
    assert_eq!(largest_i32(&vec![]), Err("vector is empty"));
    assert_eq!(largest(&vec![12, 23, 34, 13]), Ok(&34));
    assert_eq!(largest(&vec!['a', 'b']), Ok(&'b'));
    assert_eq!(largest(&vec!["pear", "apple", "plum"]), Ok(&"plum"));
    assert_eq!(largest::<u8>(&vec![]), Err("vector is empty"));
    assert_eq!(*Point { x: 123, y: 321 }.x(), 123);
}

#[test]
fn largest_keeps_the_first_of_equal_items() {
    #[derive(Debug, Eq)]
    struct Keyed(u8, &'static str);
    impl PartialEq for Keyed {
        fn eq(&self, other: &Self) -> bool {
            self.0 == other.0
        }
    }
    impl PartialOrd for Keyed {
        fn partial_cmp(&self, other: &Self) -> Option<std::cmp::Ordering> {
            Some(self.cmp(other))
        }
    }
    impl Ord for Keyed {
        fn cmp(&self, other: &Self) -> std::cmp::Ordering {
            self.0.cmp(&other.0)
        }
    }
    let items = vec![Keyed(1, "a"), Keyed(3, "b"), Keyed(2, "c"), Keyed(3, "d")];
    assert_eq!(largest(&items).unwrap().1, "b");
}

#[test]
fn guesses_are_judged_against_the_secret() {
    assert_eq!(judge(49, 50), Verdict::TooSmall);
    assert_eq!(judge(51, 50), Verdict::TooBig);
    assert_eq!(judge(50, 50), Verdict::Win);
    assert_eq!(judge(0, u32::MAX), Verdict::TooSmall);

    let mut game = Game::with_secret(42);
    assert_eq!(game.guesses(), 0);
    game.ask();
    assert_eq!(game.guess(1), Verdict::TooSmall);
    game.ask();
    assert_eq!(game.guess(100), Verdict::TooBig);
    game.ask();
    assert_eq!(game.guess(42), Verdict::Win);
    assert_eq!(game.guesses(), 3);
}

#[test]
fn a_new_game_has_a_secret_from_one_to_a_hundred() {
    let mut seen_different = false;
    let mut first = None;
    for _ in 0..200 {
        let game = Game::new();
        assert_eq!(game.guesses(), 0);
        assert_eq!(game.guess(0), Verdict::TooSmall);
        assert_eq!(game.guess(101), Verdict::TooBig);
        let secret = (1..=100).find(|guess| game.guess(*guess) == Verdict::Win).unwrap();
        match first {
            None => first = Some(secret),
            Some(number) => seen_different = seen_different || number != secret,
        }
    }
    assert!(seen_different);
}

#[test]
fn guesses_are_read_as_the_standard_library_reads_numbers() {
    let lines = [
        "50\n",
        "  7 \r\n",
        "+42",
        "0",
        "0000000000000000000012",
        "4294967295",
        "4294967296",
        "4294967300",
        "99999999999999999999",
        "99999999999x",
        "9999999999x",
        "",
        "   ",
        "\n",
        "+",
        "-",
        "-5",
        "++5",
        "+ 5",
        "5 5",
        "12a",
        "a12",
        "１２",
        "\u{a0}8\u{3000}",
        "\u{2003}9\u{85}",
        "\u{200b}9",
        "1_000",
        "0x10",
    ];
    for line in lines {
        let expected = line.trim().parse::<u32>().map_err(|error| error.to_string());
        let found = parse_guess(line).map_err(|error| error.message().to_string());
        assert_eq!(found, expected, "for {:?}", line);
    }
}

#[test]
fn every_kind_of_bad_guess_is_told_apart() {
    assert_eq!(parse_guess(" 50 "), Ok(50));
    assert_eq!(parse_guess(" \t"), Err(GuessError::Empty));
    assert_eq!(parse_guess("fifty"), Err(GuessError::InvalidDigit));
    assert_eq!(parse_guess("+"), Err(GuessError::InvalidDigit));
    assert_eq!(parse_guess("4294967296"), Err(GuessError::TooLarge));
    assert_eq!(parse_guess("42949672950"), Err(GuessError::TooLarge));
    assert_eq!(parse_guess("4294967295"), Ok(u32::MAX));
}
