use itch::save::{
    is_temp_commit, pop_target, resolve_commit_message, temp_commit_message, temp_commit_prefix,
    trim_message, CommitMeta,
};

#[test]
fn resolve_commit_message_joins_and_trims() {
    let parts = vec!["  hello".to_owned(), "world  ".to_owned()];
    assert_eq!(resolve_commit_message(&parts), Some("hello world".to_owned()));
}

#[test]
fn resolve_commit_message_empty_parts_give_none() {
    assert_eq!(resolve_commit_message(&vec![]), None);
    assert_eq!(
        resolve_commit_message(&vec!["  ".to_owned(), "\t".to_owned()]),
        None
    );
}

#[test]
fn trim_message_strips_both_ends() {
    assert_eq!(trim_message(&" \t a b \n".to_owned()), "a b");
    assert_eq!(trim_message(&"".to_owned()), "");
    assert_eq!(trim_message(&"   ".to_owned()), "");
}

#[test]
fn trim_message_knows_all_unicode_whitespace() {
    // Vertical tab, form feed, no-break space and ideographic space are all
    // whitespace to the trim, exactly as str::trim sees them.
    assert_eq!(trim_message(&"\u{000b}x\u{000c}".to_owned()), "x");
    assert_eq!(trim_message(&"\u{00a0}y\u{3000}".to_owned()), "y");
    assert_eq!(trim_message(&"\u{2028}\u{205f}".to_owned()), "");
    assert_eq!(resolve_commit_message(&vec!["\u{000b}".to_owned()]), None);
    assert_eq!(
        resolve_commit_message(&vec!["\u{000b}".to_owned(), "note".to_owned()]),
        Some("note".to_owned())
    );
}

#[test]
fn temp_commit_message_reads_as_temporary() {
    let message = temp_commit_message(&"before sync".to_owned());
    assert_eq!(message, "itch-temp: before sync");
    assert!(is_temp_commit(&message, 1));
    assert!(!is_temp_commit(&message, 2));
    assert!(!is_temp_commit(&"Save".to_owned(), 1));
}

#[test]
fn prefix_alone_is_detected() {
    let prefix = temp_commit_prefix();
    assert!(is_temp_commit(&prefix, 1));
    assert!(!is_temp_commit(&"itch-tem".to_owned(), 1));
}

#[test]
fn pop_target_walks_past_tagged_saves() {
    let temp = CommitMeta {
        single_parent: true,
        temp_tagged: true,
    };
    let plain = CommitMeta {
        single_parent: true,
        temp_tagged: false,
    };
    let merge = CommitMeta {
        single_parent: false,
        temp_tagged: true,
    };
    assert_eq!(pop_target(&vec![]), 0);
    assert_eq!(pop_target(&vec![plain, temp]), 0);
    assert_eq!(pop_target(&vec![temp, plain, temp]), 1);
    assert_eq!(pop_target(&vec![temp, temp, temp, plain]), 3);
    // A tagged merge commit is not a temporary save.
    assert_eq!(pop_target(&vec![merge, temp]), 0);
}
