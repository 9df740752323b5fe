use wcgw::tools::tokenizer::{mark_truncated, tokens_to_keep, Tokenizer, TOKEN_BUDGET};

fn tokenizer() -> Tokenizer {
    Tokenizer::for_model("gpt-4o").unwrap()
}

#[test]
fn budget_is_2048_tokens() {
    assert_eq!(TOKEN_BUDGET, 2048);
}

#[test]
fn tokenizer_is_found_by_model_name() {
    assert!(Tokenizer::for_model("gpt-4o").is_some());
    assert!(Tokenizer::for_model("gpt-4").is_some());
    assert!(Tokenizer::for_model("no-such-model").is_none());
    assert!(Tokenizer::for_model("").is_none());
}

#[test]
fn encode_differs_from_its_input_and_decodes_back() {
    let tok = tokenizer();
    let tokens = tok.encode("hello world").unwrap();
    assert_eq!(tokens.len(), 2);
    assert_eq!(tok.decode(&tokens).unwrap(), "hello world");
    assert_eq!(tok.encode("").unwrap(), Vec::<u32>::new());
    assert_eq!(tok.decode(&Vec::new()).unwrap(), "");
}

#[test]
fn encode_agrees_with_the_tokenizer_crate() {
    let tok = tokenizer();
    let bpe = tiktoken_rs::bpe_for_model("gpt-4o").unwrap();
    for text in ["hello world", "fn main() { println!(\"hi\"); }", "<|endoftext|>", "é✓ 🙂"] {
        assert_eq!(tok.encode(text).unwrap(), bpe.encode_with_special_tokens(text));
    }
}

#[test]
fn special_tokens_are_encoded_as_one_token() {
    let tok = tokenizer();
    assert_eq!(tok.encode("<|endoftext|>").unwrap(), vec![199999]);
}

#[test]
fn decode_of_an_unknown_token_gives_none() {
    let tok = tokenizer();
    assert_eq!(tok.decode(&vec![4_000_000_000]), None);
}

#[test]
fn decode_of_half_a_character_gives_none() {
    let tok = tokenizer();
    let tokens = tok.encode("𓀀").unwrap();
    assert!(tokens.len() > 1);
    assert_eq!(tok.decode(&tokens[1..].to_vec()), None);
}

#[test]
fn tokens_within_the_budget_are_all_kept() {
    assert_eq!(tokens_to_keep(&Vec::new()), None);
    assert_eq!(tokens_to_keep(&vec![7; 2047]), None);
    assert_eq!(tokens_to_keep(&vec![7; 2048]), None);
}

#[test]
fn tokens_over_the_budget_keep_the_last_2047() {
    let tokens: Vec<u32> = (0..2049).collect();
    let kept = tokens_to_keep(&tokens).unwrap();
    assert_eq!(kept.len(), 2047);
    assert_eq!(kept[0], 2);
    assert_eq!(kept[2046], 2048);
    let many: Vec<u32> = (0..10000).collect();
    let kept = tokens_to_keep(&many).unwrap();
    assert_eq!(kept, (7953..10000).collect::<Vec<u32>>());
}

#[test]
fn marker_stands_before_the_tail() {
    assert_eq!(mark_truncated("tail"), "...(truncated)\ntail");
    assert_eq!(mark_truncated(""), "...(truncated)\n");
}

#[test]
fn text_within_the_budget_is_unchanged() {
    let tok = tokenizer();
    for text in ["", "hello", "same line\n", "   spaced   "] {
        assert_eq!(tok.truncate(text.to_string()).unwrap(), text);
    }
    let long = "same line\n".repeat(499);
    assert_eq!(tok.truncate(long.clone()).unwrap(), long);
}

#[test]
fn text_of_exactly_the_budget_is_unchanged() {
    let tok = tokenizer();
    let mut text = String::from("word");
    while tok.encode(&text).unwrap().len() < TOKEN_BUDGET {
        text.push_str(" word");
    }
    assert_eq!(tok.encode(&text).unwrap().len(), TOKEN_BUDGET);
    assert_eq!(tok.truncate(text.clone()).unwrap(), text);
    text.push_str(" word");
    let cut = tok.truncate(text.clone()).unwrap();
    assert_ne!(cut, text);
    assert!(cut.starts_with("...(truncated)\n"));
}

#[test]
fn text_over_the_budget_keeps_its_end_behind_the_marker() {
    let tok = tokenizer();
    let mut text = String::new();
    for i in 0..3000 {
        text.push_str(&format!("line {}\n", i));
    }
    let tokens = tok.encode(&text).unwrap();
    assert!(tokens.len() > TOKEN_BUDGET);
    let cut = tok.truncate(text.clone()).unwrap();
    let tail = cut.strip_prefix("...(truncated)\n").unwrap();
    assert!(text.ends_with(tail));
    assert!(tail.ends_with("line 2999\n"));
    assert_eq!(tok.encode(tail).unwrap().len(), TOKEN_BUDGET - 1);
    let expected = tok.decode(&tokens[tokens.len() - 2047..].to_vec()).unwrap();
    assert_eq!(tail, expected);
}

#[test]
fn repeated_words_over_the_budget() {
    let tok = tokenizer();
    let text = "word ".repeat(5000);
    let cut = tok.truncate(text.clone()).unwrap();
    assert_eq!(cut, format!("...(truncated)\n{} ", " word".repeat(2046)));
}

#[test]
fn a_cut_inside_a_character_gives_none() {
    let tok = tokenizer();
    let text = "𓀀".repeat(3000);
    assert_eq!(tok.encode(&text).unwrap().len(), 12000);
    assert_eq!(tok.truncate(text), None);
}
