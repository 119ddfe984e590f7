use course::config::Config as ViewerConfig;
use course::search_text::{search, Config};

#[test]
fn one_result() {
    let query = "duct";
    let contents = "\
Rust:
safe, fast, productive.
Pick there.
        ";

    assert_eq!(vec!["safe, fast, productive."], search(contents, query));
}

#[test]
fn search_keeps_matching_lines_in_order() {
    let contents = "one\r\ntwo\nthree one\n\nfour\r";
    assert_eq!(search(contents, "one"), vec!["one", "three one"]);
    assert_eq!(search(contents, "four\r"), vec!["four\r"]);
    assert_eq!(search(contents, ""), vec!["one", "two", "three one", "", "four\r"]);
    assert!(search(contents, "five").is_empty());
    assert!(search("", "").is_empty());
    assert_eq!(search("\n", ""), vec![""]);
}

#[test]
fn search_settings_need_a_query_and_a_file_name() {
    let words = |list: &[&str]| list.iter().map(|word| word.to_string()).collect::<Vec<String>>();
    assert_eq!(Config::new(words(&[])).err(), Some("Didn't get a query string"));
    assert_eq!(Config::new(words(&["search"])).err(), Some("Didn't get a query string"));
    assert_eq!(Config::new(words(&["search", "duct"])).err(), Some("Didn't get a file name"));
    let config = Config::new(words(&["search", "duct", "poem.txt", "more"])).ok().unwrap();
    assert_eq!(config.query, "duct");
    assert_eq!(config.filename, "poem.txt");
}

#[test]
fn viewer_settings_need_three_words() {
    let words = |list: &[&str]| list.iter().map(|word| word.to_string()).collect::<Vec<String>>();
    assert_eq!(ViewerConfig::new(&words(&["view", "duct"])).err(), Some("not enough arguments"));
    assert_eq!(ViewerConfig::new(&words(&[])).err(), Some("not enough arguments"));
    let config = ViewerConfig::new(&words(&["view", "duct", "poem.txt"])).ok().unwrap();
    assert_eq!(config.query, "duct");
    assert_eq!(config.filename, "poem.txt");
}
