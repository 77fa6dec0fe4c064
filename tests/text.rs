use report_mention_bot::text::{contains_id, contains_substring, escape_identifier};

#[test]
fn substring_found_in_middle() {
    assert!(contains_substring("hey @bot:server please look", "@bot:server"));
}

#[test]
fn substring_is_case_sensitive() {
    assert!(!contains_substring("hey @BOT:server", "@bot:server"));
}

#[test]
fn substring_edges() {
    assert!(contains_substring("@bot:server", "@bot:server"));
    assert!(contains_substring("abc", ""));
    assert!(contains_substring("", ""));
    assert!(!contains_substring("", "a"));
    assert!(!contains_substring("@bot:serve", "@bot:server"));
    assert!(contains_substring("xx@bot", "@bot"));
    assert!(contains_substring("ünï@bot", "ï@b"));
}

#[test]
fn escape_replaces_at_and_colon() {
    assert_eq!(escape_identifier("@bot:server"), "%40bot%3Aserver");
    assert_eq!(escape_identifier("plain"), "plain");
    assert_eq!(escape_identifier(""), "");
    assert_eq!(escape_identifier("a@@b::"), "a%40%40b%3A%3A");
}

#[test]
fn identifier_lists() {
    let list = vec![String::from("!a:s"), String::from("!b:s")];
    assert!(contains_id(&list, &String::from("!b:s")));
    assert!(!contains_id(&list, &String::from("!c:s")));
    assert!(!contains_id(&Vec::new(), &String::from("!a:s")));
}
