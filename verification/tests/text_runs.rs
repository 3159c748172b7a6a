use simple_render::text_runs::{
    is_emoji_character, is_emoji_sequence_character, split_emoji_runs, ByteRun,
};

#[test]
fn plain_text_is_one_run() {
    assert_eq!(split_emoji_runs("hello"), vec![ByteRun { start: 0, end: 5, is_emoji: false }]);
    assert_eq!(split_emoji_runs(""), Vec::new());
}

#[test]
fn emoji_split_the_text() {
    let text = "hi 😀 there";
    assert_eq!(
        split_emoji_runs(text),
        vec![
            ByteRun { start: 0, end: 3, is_emoji: false },
            ByteRun { start: 3, end: 7, is_emoji: true },
            ByteRun { start: 7, end: 13, is_emoji: false },
        ]
    );
}

#[test]
fn sequence_characters_stay_with_the_emoji_before_them() {
    let text = "♥\u{fe0f}x\u{fe0f}";
    assert_eq!(
        split_emoji_runs(text),
        vec![
            ByteRun { start: 0, end: 6, is_emoji: true },
            ByteRun { start: 6, end: 10, is_emoji: false },
        ]
    );
}

#[test]
fn emoji_classification() {
    assert!(is_emoji_character('😀'));
    assert!(is_emoji_character('©'));
    assert!(is_emoji_character('↔'));
    assert!(!is_emoji_character('→'));
    assert!(!is_emoji_character('a'));
    assert!(is_emoji_sequence_character('\u{200d}'));
    assert!(!is_emoji_sequence_character('a'));
}
