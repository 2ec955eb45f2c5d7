use exercises::config::Config;
use exercises::search::{run, search, search_case_insensitive, select};

#[test]
fn one_result() {
    let query = "duct";
    let contents = "\
Rust:
safe, fast, productive.
Pick three.";
    assert_eq!(vec!["safe, fast, productive."], search(query, contents));
}

#[test]
fn lib_one_result() {
    let query = "duct";
    let contents = "\
Rust:
safe, fast, productive.
Pick three.";
    assert_eq!(vec!["safe, fast, productive."], search(query, contents));
}

#[test]
fn case_sensitive() {
    let query = "duct";
    let contents = "\
Rust:
safe, fast, productive.
Pick three.
Duct tape.";

    assert_eq!(vec!["safe, fast, productive."], search(query, contents));
}

#[test]
fn lib_case_sensitive() {
    let query = "duct";
    let contents = "\
Rust:
safe, fast, productive.
Pick three.
Duct tape.";

    assert_eq!(vec!["safe, fast, productive."], search(query, contents));
}

#[test]
fn case_insensitive() {
    let query = "rUsT";
    let contents = "\
Rust:
safe, fast, productive.
Pick three.
Trust me.";

    assert_eq!(vec!["Rust:", "Trust me."], search_case_insensitive(query, contents));
}

#[test]
fn lib_case_insensitive() {
    let query = "rUsT";
    let contents = "\
Rust:
safe, fast, productive.
Pick three.
Trust me.";

    assert_eq!(vec!["Rust:", "Trust me."], search_case_insensitive(query, contents));
}

#[test]
fn absent_query_gives_no_line() {
    let contents = "Rust:\nsafe, fast, productive.\nPick three.";
    assert_eq!(search("monomorphization", contents), Vec::<&str>::new());
    assert_eq!(search_case_insensitive("MONO", contents), Vec::<&str>::new());
    assert_eq!(search("x", ""), Vec::<&str>::new());
}

#[test]
fn query_across_a_line_break_matches_nothing() {
    assert_eq!(search("a\nb", "a\nb"), Vec::<&str>::new());
}

#[test]
fn empty_query_matches_every_line() {
    assert_eq!(search("", "a\n\nb\n"), vec!["a", "", "b"]);
}

#[test]
fn matching_lines_keep_order_and_repeats() {
    let contents = "to be\nor not\nto be\nthat is\nto be";
    assert_eq!(search("to", contents), vec!["to be", "to be", "to be"]);
    assert_eq!(search("t", contents), vec!["to be", "or not", "to be", "that is", "to be"]);
}

#[test]
fn case_insensitive_search_returns_lines_as_written() {
    let contents = "GROSSE Freude\nkleine freude\nSTRASSE";
    assert_eq!(search_case_insensitive("FREUDE", contents), vec![
        "GROSSE Freude",
        "kleine freude"
    ]);
    assert_eq!(search_case_insensitive("ÄRGER", "Ärger\nÄRGER\nanger"), vec!["Ärger", "ÄRGER"]);
}

#[test]
fn case_insensitive_search_lowers_the_query() {
    assert_eq!(search("RUST", "rust"), Vec::<&str>::new());
    assert_eq!(search_case_insensitive("RUST", "rust"), vec!["rust"]);
}

#[test]
fn select_keeps_items_whose_key_matches() {
    let items = vec!["Rust:", "safe, fast, productive.", "Pick three.", "Trust me."];
    let keys = vec!["rust:", "safe, fast, productive.", "pick three.", "trust me."];
    assert_eq!(select(&items, &keys, "rust"), vec!["Rust:", "Trust me."]);
    assert_eq!(select(&items, &keys, "Rust"), Vec::<&str>::new());
    assert_eq!(select(&Vec::new(), &Vec::new(), "rust"), Vec::<&str>::new());
}

#[test]
fn run_follows_the_case_setting() {
    let contents = "Rust:\nsafe, fast, productive.\nPick three.\nTrust me.";
    let strict = Config {
        query: "rust".to_string(),
        path: "poem.txt".to_string(),
        case_sensitive: true,
    };
    assert_eq!(run(&strict, contents), vec!["Trust me."]);
    let loose = Config { case_sensitive: false, ..strict };
    assert_eq!(run(&loose, contents), vec!["Rust:", "Trust me."]);
}

#[test]
fn a_long_text_is_searched_line_by_line() {
    let mut contents = String::new();
    for n in 0..200_000 {
        if n % 1000 == 0 {
            contents.push_str("here is the Needle\r\n");
        } else {
            contents.push_str("nothing but hay, straw and gr\u{e4}ser\n");
        }
    }
    let found = search("Needle", &contents);
    assert_eq!(found.len(), 200);
    assert!(found.iter().all(|line| *line == "here is the Needle"));
    let found = search_case_insensitive("GR\u{c4}SER", &contents);
    assert_eq!(found.len(), 200_000 - 200);
}
