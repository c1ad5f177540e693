use rust_mcp_server::slug::slugify;
use rust_mcp_server::text::{rank_chars, str_eq, Rank};

#[test]
fn slug_lowercases_letters() {
    assert_eq!(slugify("Finder"), "finder");
    assert_eq!(slugify("Notes2"), "notes2");
}

#[test]
fn slug_collapses_separator_runs() {
    assert_eq!(slugify("Google Chrome"), "google-chrome");
    assert_eq!(slugify("a _-./ b"), "a-b");
    assert_eq!(slugify("a\t\n b"), "a-b");
}

#[test]
fn slug_trims_hyphens_at_both_ends() {
    assert_eq!(slugify("  A__b..c/ "), "a-b-c");
    assert_eq!(slugify("-x-"), "x");
}

#[test]
fn slug_drops_other_characters() {
    assert_eq!(slugify("a!b"), "ab");
    assert_eq!(slugify("Caf\u{e9} 1"), "caf-1");
}

#[test]
fn slug_takes_unicode_white_space_as_separator() {
    assert_eq!(slugify("a\u{a0}b"), "a-b");
    assert_eq!(slugify("a\u{3000}b"), "a-b");
}

#[test]
fn slug_of_nothing_is_empty() {
    assert_eq!(slugify(""), "");
    assert_eq!(slugify("---"), "");
    assert_eq!(slugify("!!!"), "");
}

#[test]
fn slug_is_idempotent_and_well_shaped() {
    let names = ["Finder", "Google Chrome", "  A__b..c/ ", "-x-", "a!b", "", "System  Events.app", "a-.-b"];
    for name in names {
        let once = slugify(name);
        assert_eq!(slugify(&once), once);
        assert!(once.chars().all(|c| c.is_ascii_lowercase() || c.is_ascii_digit() || c == '-'));
        assert!(!once.starts_with('-'));
        assert!(!once.ends_with('-'));
        assert!(!once.contains("--"));
    }
}

#[test]
fn strings_compare_by_their_characters() {
    assert!(str_eq("abc", "abc"));
    assert!(!str_eq("abc", "abd"));
    assert!(!str_eq("abc", "ab"));
    assert!(str_eq("", ""));
    assert!(str_eq("\u{e9}", "\u{e9}"));
}

#[test]
fn rank_orders_like_strings() {
    let a: Vec<char> = "Finder".chars().collect();
    let b: Vec<char> = "Notes".chars().collect();
    let c: Vec<char> = "Find".chars().collect();
    assert_eq!(rank_chars(&a, &b), Rank::Before);
    assert_eq!(rank_chars(&b, &a), Rank::After);
    assert_eq!(rank_chars(&a, &a), Rank::Same);
    assert_eq!(rank_chars(&c, &a), Rank::Before);
    assert_eq!(rank_chars(&a, &c), Rank::After);
}
