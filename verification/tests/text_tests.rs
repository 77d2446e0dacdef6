use speedtype::langs::{WordSupplierBasic, WordSupplierRandomized};
use speedtype::text::{classify_line, CharFeedback, TextManager, TextManagerBasic, WidgetData};

fn english_words() -> Vec<String> {
    let words = [
        "the", "of", "and", "to", "in", "is", "you", "that", "it", "he", "was", "for", "on",
        "are", "as", "with", "his", "they", "at", "be", "this", "have", "from", "or", "one",
        "had", "by", "word", "but", "not", "what", "all", "were", "we", "when", "your", "can",
        "said", "there", "use", "an", "each", "which", "she", "do", "how", "their", "if",
        "will", "up", "other", "about", "out", "many", "then", "them", "these", "so", "some",
        "her", "would", "make", "like", "him", "into", "time", "has", "look", "two", "more",
        "write", "go", "see", "number", "no", "way", "could", "people", "my", "than", "first",
        "water", "been", "call", "who", "oil", "its", "now", "find", "long", "down", "day",
        "did", "get", "come", "made", "may", "part",
    ];
    words.iter().map(|w| w.to_string()).collect()
}

fn english_manager() -> TextManager<WordSupplierRandomized> {
    let supplier = WordSupplierRandomized::new(english_words());
    assert!(supplier.usable());
    TextManager::new(supplier)
}

fn basic_manager(word: &str) -> TextManagerBasic {
    TextManager::new(WordSupplierBasic::new(word.chars().collect()))
}

#[test]
fn get_widget_correct_width() {
    let mut text_manager = english_manager();
    for width in 1..1000 {
        let line = text_manager.widget_data(width).prev_line;
        assert!(line.len() <= width);
    }
}

#[test]
fn too_short_width() {
    let mut text_manager = english_manager();
    let line = text_manager.widget_data(1).prev_line;
    assert!(line.is_empty());
}

#[test]
fn max_width_achieved() {
    let mut text_manager = english_manager();
    for width in 1..1000 {
        let line = text_manager.widget_data(width).prev_line;
        if line.len() == width {
            return;
        }
    }
    panic!();
}

#[test]
fn exact_width_line() {
    // the word plus its separator is four characters, so width four is hit
    // exactly by the greedy wrap
    let mut text_manager = basic_manager("abc");
    let data = text_manager.widget_data(4);
    let line: String = data.prev_line.iter().collect();
    assert_eq!(line, "abc ");
    assert_eq!(data.prev_line.len(), 4);
}

#[test]
fn completed_line_cursor_mode() {
    // two characters typed into a four-character first line: the window
    // reports the cursor against the previous line, current line untyped
    let mut text_manager = basic_manager("abc");
    text_manager.widget_data(4);
    text_manager.handle_char('a');
    text_manager.handle_char('x');
    let data = text_manager.widget_data(4);
    let prev: String = data.prev_line.iter().collect();
    let cur: String = data.line.iter().collect();
    assert_eq!(prev, "abc ");
    assert_eq!(cur, "abc ");
    assert_eq!(data.prev_user_text, vec!['a', 'x']);
    assert!(data.user_text.is_empty());
}

#[test]
fn steady_cursor_mode() {
    // five characters typed: the cursor has entered the second line, so the
    // window slides and splits the typed text across previous and current
    let mut text_manager = basic_manager("abc");
    text_manager.widget_data(4);
    for u in ['a', 'b', 'c', ' ', 'a'] {
        text_manager.handle_char(u);
    }
    let data = text_manager.widget_data(4);
    let prev: String = data.prev_line.iter().collect();
    let cur: String = data.line.iter().collect();
    let next: String = data.next_line.iter().collect();
    assert_eq!(prev, "abc ");
    assert_eq!(cur, "abc ");
    assert_eq!(next, "abc ");
    assert_eq!(data.prev_user_text, vec!['a', 'b', 'c', ' ']);
    assert_eq!(data.user_text, vec!['a']);
}

#[test]
fn scoring_counts_only_matches() {
    let mut text_manager = basic_manager("abc");
    text_manager.widget_data(10);
    // reference starts "abc abc ..."
    text_manager.handle_char('a');
    text_manager.handle_char('x');
    text_manager.handle_char('c');
    assert_eq!(text_manager.correct(), 2);
    assert_eq!(text_manager.user_text, vec!['a', 'x', 'c']);
}

#[test]
fn backspace_undoes_keystroke() {
    let mut text_manager = basic_manager("abc");
    text_manager.widget_data(10);
    text_manager.handle_char('a');
    assert_eq!(text_manager.correct(), 1);
    // matching character: typed text and score both return
    text_manager.handle_char('b');
    assert_eq!(text_manager.correct(), 2);
    text_manager.handle_backspace();
    assert_eq!(text_manager.correct(), 1);
    assert_eq!(text_manager.user_text, vec!['a']);
    // mismatching character: the score was unchanged and stays so
    text_manager.handle_char('z');
    assert_eq!(text_manager.correct(), 1);
    text_manager.handle_backspace();
    assert_eq!(text_manager.correct(), 1);
    assert_eq!(text_manager.user_text, vec!['a']);
}

#[test]
fn backspace_on_empty_is_ignored() {
    let mut text_manager = basic_manager("abc");
    text_manager.widget_data(10);
    text_manager.handle_backspace();
    assert_eq!(text_manager.correct(), 0);
    assert!(text_manager.user_text.is_empty());
}

#[test]
fn typing_past_materialized_text_is_ignored() {
    // nothing materialized yet: the keystroke cannot be scored or stored
    let mut text_manager = basic_manager("abc");
    text_manager.handle_char('a');
    assert!(text_manager.user_text.is_empty());
    assert_eq!(text_manager.correct(), 0);
}

#[test]
fn typed_never_outruns_reference() {
    let mut text_manager = basic_manager("ab");
    text_manager.begin_of_word(0);
    // reference is "ab " (three characters); a fourth keystroke is dropped
    for u in ['a', 'b', ' ', 'q'] {
        text_manager.handle_char(u);
    }
    assert_eq!(text_manager.user_text.len(), 3);
    assert!(text_manager.user_text.len() <= text_manager.text.len());
}

#[test]
fn word_starts_are_increasing() {
    let mut text_manager = basic_manager("ab");
    let b0 = text_manager.begin_of_word(0);
    let b1 = text_manager.begin_of_word(1);
    let b2 = text_manager.begin_of_word(2);
    assert_eq!(b0, 0);
    assert_eq!(b1, 3);
    assert_eq!(b2, 6);
    let reference: String = text_manager.text.iter().collect();
    assert_eq!(reference, "ab ab ab ");
}

#[test]
fn next_line_begin_greedy() {
    let mut text_manager = basic_manager("ab");
    // words start at 0, 3, 6, 9, ...; width 7 fits starts 3 and 6 but not 9
    let end = text_manager.next_line_begin(0, 7);
    assert_eq!(end, 2);
    // degenerate: not even the next word start fits
    let end = text_manager.next_line_begin(0, 2);
    assert_eq!(end, 0);
}

#[test]
fn widget_data_empty() {
    let data = WidgetData::empty();
    assert!(data.prev_line.is_empty());
    assert!(data.line.is_empty());
    assert!(data.next_line.is_empty());
    assert!(data.prev_user_text.is_empty());
    assert!(data.user_text.is_empty());
}

#[test]
fn classify_line_feedback() {
    let test_line: Vec<char> = "abc ".chars().collect();
    let user_line: Vec<char> = "axc".chars().collect();
    let feedback = classify_line(&test_line, &user_line);
    assert_eq!(
        feedback,
        vec![
            CharFeedback::Correct,
            CharFeedback::Wrong,
            CharFeedback::Correct,
            CharFeedback::Untyped,
        ]
    );
}
