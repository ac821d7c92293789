use sluice::llm::tokenize::{count_messages, count_tokens, Confidence};
use sluice::llm::Message;

#[test]
fn count_tokens_returns_approx() {
    let (_, confidence) = count_tokens("anthropic", "opus-4-1-20250805", "hello world");
    assert_eq!(confidence, Confidence::Approx);
}

#[test]
fn count_tokens_empty_text_is_zero() {
    let (tokens, _) = count_tokens("anthropic", "opus-4-1-20250805", "");
    assert_eq!(tokens, 0);
}

#[test]
fn count_tokens_is_monotonic_in_text_length() {
    let short = "hi";
    let medium = "hi there friend";
    let long = "hi there friend, this is a much longer message with many more words in it";

    let (short_count, _) = count_tokens("openai", "gpt-5", short);
    let (medium_count, _) = count_tokens("openai", "gpt-5", medium);
    let (long_count, _) = count_tokens("openai", "gpt-5", long);

    assert!(short_count <= medium_count);
    assert!(medium_count <= long_count);
    assert!(short_count < long_count);
}

#[test]
fn count_tokens_grows_with_every_added_character() {
    let mut text = String::new();
    let mut prev = 0;
    for _ in 0..40 {
        text.push('x');
        let (count, _) = count_tokens("google", "gemini-2.5-pro", &text);
        assert!(count >= prev, "token count decreased as text grew");
        prev = count;
    }
}

#[test]
fn count_messages_sums_over_all_message_contents() {
    let messages = vec![
        Message {
            role: "user".to_string(),
            content: "hello".to_string(),
        },
        Message {
            role: "assistant".to_string(),
            content: "hi there".to_string(),
        },
    ];
    let (total, confidence) =
        count_messages("anthropic", "opus-4-1-20250805", &messages);
    assert_eq!(total, 4);
    assert_eq!(confidence, Confidence::Approx);
}

#[test]
fn count_messages_on_empty_slice_is_zero() {
    let (total, confidence) = count_messages("anthropic", "opus-4-1-20250805", &[]);
    assert_eq!(total, 0);
    assert_eq!(confidence, Confidence::Approx);
}
