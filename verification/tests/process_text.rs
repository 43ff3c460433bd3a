use clipcount::{process_text, Processed};

#[test]
fn test_process_text() {
    let text = "Hello, world!\nThis is a test.\nAnd another line.";
    let Processed {
        line_count,
        word_count,
        character_count,
    } = process_text(text);

    assert_eq!(line_count, 3);
    assert_eq!(word_count, 9);
    assert_eq!(character_count, 47);
}

#[test]
fn test_empty_text() {
    let text = "";
    let Processed {
        line_count,
        word_count,
        character_count,
    } = process_text(text);

    assert_eq!(line_count, 0);
    assert_eq!(word_count, 0);
    assert_eq!(character_count, 0);
}

#[test]
fn test_unicode_text() {
    let text = "Hello, 👨‍👩‍👧‍👦!";
    let Processed {
        line_count,
        word_count,
        character_count,
    } = process_text(text);

    assert_eq!(line_count, 1);
    assert_eq!(word_count, 1);
    assert_eq!(character_count, 9);
}

#[test]
fn test_multilingual_text() {
    let text = "你好, 世界!\nBonjour le monde!\nHello, world!";
    let Processed {
        line_count,
        word_count,
        character_count,
    } = process_text(text);

    assert_eq!(line_count, 3);
    assert_eq!(word_count, 9);
    assert_eq!(character_count, 39);
}

#[test]
fn test_text_with_multiple_spaces() {
    let text = "This    is a     test text.";
    let Processed {
        line_count,
        word_count,
        character_count,
    } = process_text(text);

    assert_eq!(line_count, 1);
    assert_eq!(word_count, 5);
    assert_eq!(character_count, 27);
}

#[test]
fn test_text_with_emojis() {
    let text = "🚀 Rocket to the moon! 🌕";
    let Processed {
        line_count,
        word_count,
        character_count,
    } = process_text(text);

    assert_eq!(line_count, 1);
    assert_eq!(word_count, 4);
    assert_eq!(character_count, 23);
}

#[test]
fn test_newline_characters() {
    let text = "Line one.\nLine two.\nLine three.";
    let Processed {
        line_count,
        word_count,
        character_count,
    } = process_text(text);

    assert_eq!(line_count, 3);
    assert_eq!(word_count, 6);
    assert_eq!(character_count, 31);
}

#[test]
fn test_text_with_punctuation() {
    let text = "Hello, world! This is a test: How will it handle punctuation?";
    let Processed {
        line_count,
        word_count,
        character_count,
    } = process_text(text);

    assert_eq!(line_count, 1);
    assert_eq!(word_count, 11);
    assert_eq!(character_count, 61);
}
