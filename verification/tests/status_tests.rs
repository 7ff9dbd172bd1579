use itch::ctx::{EnvCtx, Mode};
use itch::error::Fail;
use itch::repro::{clippy_repro, clippy_repro2, clippy_repro3, filtered_things, Thing};
use itch::squash::resolve_squashed_message;
use itch::status::{create_many_dots, get_post_fork_commits, usize_to_string, BranchSummary};

#[test]
fn decimal_spelling() {
    assert_eq!(usize_to_string(0), "0");
    assert_eq!(usize_to_string(7), "7");
    assert_eq!(usize_to_string(42), "42");
    assert_eq!(usize_to_string(100), "100");
    assert_eq!(usize_to_string(90210), "90210");
}

#[test]
fn many_dots_small_counts() {
    assert_eq!(create_many_dots(0), "");
    assert_eq!(create_many_dots(1), "\u{2801}");
    assert_eq!(create_many_dots(3), "\u{2807}");
    assert_eq!(create_many_dots(6), "\u{283f}");
    assert_eq!(create_many_dots(7), "\u{283f}\u{2801}");
    assert_eq!(create_many_dots(24), "\u{283f}\u{283f}\u{283f}\u{283f}");
}

#[test]
fn many_dots_large_counts_spell_the_number() {
    assert_eq!(create_many_dots(25), "\u{283f}25\u{283f}");
    assert_eq!(create_many_dots(120), "\u{283f}120\u{283f}");
}

#[test]
fn post_fork_commit_runs() {
    let none = BranchSummary {
        name: "b".to_owned(),
        latest_message: None,
        commit_count: 0,
    };
    assert_eq!(get_post_fork_commits(&none), "");

    let one = BranchSummary {
        name: "b".to_owned(),
        latest_message: Some("fix the bug".to_owned()),
        commit_count: 1,
    };
    assert_eq!(get_post_fork_commits(&one), "o<[fix the bug]");

    let two = BranchSummary {
        name: "b".to_owned(),
        latest_message: Some("fix".to_owned()),
        commit_count: 2,
    };
    assert_eq!(get_post_fork_commits(&two), "o \u{2500} o<[fix]");

    let many = BranchSummary {
        name: "b".to_owned(),
        latest_message: Some("a very long message that keeps going on".to_owned()),
        commit_count: 9,
    };
    assert_eq!(
        get_post_fork_commits(&many),
        "o \u{2500} <7> \u{2500} o<[a very long message that]"
    );
}

#[test]
fn env_background_never_prompts() {
    let env = EnvCtx::background();
    assert!(!env.is_pipe);
    assert!(!env.color_enabled);
    assert!(!env.can_prompt);
}

#[test]
fn env_from_mode() {
    let cli = EnvCtx::from_mode(Mode::Cli, false);
    assert!(!cli.is_pipe && cli.color_enabled && cli.can_prompt);
    let no_color = EnvCtx::from_mode(Mode::Cli, true);
    assert!(!no_color.is_pipe && !no_color.color_enabled && no_color.can_prompt);
    let pipe = EnvCtx::from_mode(Mode::Pipe, false);
    assert!(pipe.is_pipe && !pipe.color_enabled && !pipe.can_prompt);
}

#[test]
fn squashed_message_prefers_the_callers_words() {
    let chain = vec![Some("Save".to_owned()), Some("real work".to_owned())];
    let r = resolve_squashed_message(&vec!["chosen".to_owned()], &chain).unwrap();
    assert_eq!(r, "chosen");
}

#[test]
fn squashed_message_skips_plain_saves() {
    let chain = vec![Some("Save".to_owned()), Some("real work".to_owned())];
    let r = resolve_squashed_message(&vec![], &chain).unwrap();
    assert_eq!(r, "real work");
}

#[test]
fn squashed_message_defaults_when_all_saves() {
    let chain = vec![Some("Save".to_owned()), Some("Save".to_owned())];
    let r = resolve_squashed_message(&vec![], &chain).unwrap();
    assert_eq!(r, "Squash");
}

#[test]
fn squashed_message_fails_on_unreadable_message() {
    let chain = vec![None];
    let r = resolve_squashed_message(&vec![], &chain);
    assert!(matches!(r, Err(Fail::InvalidMessage)));
}

#[test]
fn filtered_things_keeps_everything() {
    let things = vec![
        Thing {
            name: "a".to_owned(),
        },
        Thing {
            name: "b".to_owned(),
        },
    ];
    let filtered = filtered_things(&things);
    assert_eq!(filtered.len(), 2);
    assert_eq!(filtered[1].name, "b");
}

#[test]
fn clippy_repros() {
    let things = vec![Thing {
        name: "a".to_owned(),
    }];
    assert!(clippy_repro(0, &things).is_none());
    let found = clippy_repro2(0, &things).unwrap();
    assert_eq!(found.0, 0);
    assert_eq!(found.1.name, "a");
    assert!(clippy_repro2(5, &things).is_none());
    let nums = [10, 20, 30];
    let found3 = clippy_repro3(2, &nums).unwrap();
    assert_eq!(*found3.1, 30);
    assert!(clippy_repro3(3, &nums).is_none());
}

#[test]
fn fail_messages_name_the_fault() {
    assert_eq!(
        Fail::MalformedHunks.message(),
        "diff produced an out-of-order hunk stream"
    );
    assert_eq!(
        Fail::BinaryContent.message(),
        "cannot load binary data line-by-line"
    );
}
