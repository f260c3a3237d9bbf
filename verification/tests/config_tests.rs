use llm_term::codec::{from_json, to_json};
use llm_term::config::{parse_max_tokens, parse_menu_choice, Config, MenuChoice};
use llm_term::model::Model;

#[test]
fn json_text_is_pretty_two_field_object() {
    let c = Config { model: Model::OpenAiGpt4oMini, max_tokens: 2048 };
    assert_eq!(to_json(&c), "{\n  \"model\": \"gpt-4o-mini\",\n  \"max_tokens\": 2048\n}");
}

#[test]
fn json_text_for_ollama_model() {
    let c = Config { model: Model::Ollama("llama3".to_string()), max_tokens: 64 };
    assert_eq!(to_json(&c), "{\n  \"model\": { \"ollama\": \"llama3\" },\n  \"max_tokens\": 64\n}");
}

#[test]
fn round_trip_gpt_4o() {
    let c = Config { model: Model::OpenAiGpt4o, max_tokens: 2048 };
    assert_eq!(from_json(&to_json(&c)), Some(c));
}

#[test]
fn round_trip_gpt_4o_mini_boundaries() {
    let low = Config { model: Model::OpenAiGpt4oMini, max_tokens: 1 };
    assert_eq!(from_json(&to_json(&low)), Some(low));
    let high = Config { model: Model::OpenAiGpt4oMini, max_tokens: 4096 };
    assert_eq!(from_json(&to_json(&high)), Some(high));
}

#[test]
fn round_trip_ollama_name() {
    let c = Config { model: Model::Ollama("mistral:7b".to_string()), max_tokens: 512 };
    assert_eq!(from_json(&to_json(&c)), Some(c));
}

#[test]
fn round_trip_ollama_name_with_quotes_and_backslashes() {
    let c = Config { model: Model::Ollama("we\"ird\\name\"".to_string()), max_tokens: 123 };
    assert_eq!(from_json(&to_json(&c)), Some(c));
}

#[test]
fn round_trip_ollama_empty_name() {
    let c = Config { model: Model::Ollama(String::new()), max_tokens: 7 };
    assert_eq!(from_json(&to_json(&c)), Some(c));
}

#[test]
fn from_json_rejects_garbage() {
    assert_eq!(from_json(""), None);
    assert_eq!(from_json("{}"), None);
    assert_eq!(from_json("not json at all"), None);
}

#[test]
fn from_json_rejects_unknown_model() {
    assert_eq!(from_json("{\n  \"model\": \"gpt-3\",\n  \"max_tokens\": 10\n}"), None);
}

#[test]
fn from_json_rejects_out_of_range_tokens() {
    assert_eq!(from_json("{\n  \"model\": \"gpt-4o\",\n  \"max_tokens\": 0\n}"), None);
    assert_eq!(from_json("{\n  \"model\": \"gpt-4o\",\n  \"max_tokens\": 4097\n}"), None);
    assert_eq!(from_json("{\n  \"model\": \"gpt-4o\",\n  \"max_tokens\": 99999999999\n}"), None);
}

#[test]
fn from_json_rejects_trailing_text() {
    assert_eq!(from_json("{\n  \"model\": \"gpt-4o\",\n  \"max_tokens\": 10\n} "), None);
}

#[test]
fn from_json_accepts_canonical_text() {
    let parsed = from_json("{\n  \"model\": \"gpt-4o\",\n  \"max_tokens\": 4096\n}");
    assert_eq!(parsed, Some(Config { model: Model::OpenAiGpt4o, max_tokens: 4096 }));
}

#[test]
fn max_tokens_rejects_zero() {
    assert_eq!(parse_max_tokens("0"), None);
}

#[test]
fn max_tokens_rejects_above_limit() {
    assert_eq!(parse_max_tokens("4097"), None);
    assert_eq!(parse_max_tokens("50000"), None);
}

#[test]
fn max_tokens_rejects_negative() {
    assert_eq!(parse_max_tokens("-5"), None);
}

#[test]
fn max_tokens_rejects_non_numeric() {
    assert_eq!(parse_max_tokens("abc"), None);
    assert_eq!(parse_max_tokens("12x"), None);
    assert_eq!(parse_max_tokens(""), None);
    assert_eq!(parse_max_tokens("   "), None);
}

#[test]
fn max_tokens_accepts_valid_values() {
    assert_eq!(parse_max_tokens("1"), Some(1));
    assert_eq!(parse_max_tokens("4096"), Some(4096));
    assert_eq!(parse_max_tokens("2048"), Some(2048));
}

#[test]
fn max_tokens_trims_and_allows_leading_zeros() {
    assert_eq!(parse_max_tokens(" 42 \n"), Some(42));
    assert_eq!(parse_max_tokens("007"), Some(7));
}

#[test]
fn menu_choice_accepts_the_three_entries() {
    assert_eq!(parse_menu_choice("1"), Some(MenuChoice::OpenAiGpt4oMini));
    assert_eq!(parse_menu_choice("2"), Some(MenuChoice::OpenAiGpt4o));
    assert_eq!(parse_menu_choice("3"), Some(MenuChoice::Ollama));
    assert_eq!(parse_menu_choice(" 2\n"), Some(MenuChoice::OpenAiGpt4o));
}

#[test]
fn menu_choice_rejects_everything_else() {
    assert_eq!(parse_menu_choice("4"), None);
    assert_eq!(parse_menu_choice("x"), None);
    assert_eq!(parse_menu_choice(""), None);
    assert_eq!(parse_menu_choice("12"), None);
}

#[test]
fn model_names_and_endpoints() {
    assert_eq!(Model::OpenAiGpt4o.get_model_name(), "gpt-4o");
    assert_eq!(Model::OpenAiGpt4oMini.get_model_name(), "gpt-4o-mini");
    assert_eq!(Model::Ollama("phi3".to_string()).get_model_name(), "phi3");
    assert_eq!(Model::OpenAiGpt4o.get_openai_endpoint(), "https://api.openai.com/v1/");
    assert_eq!(Model::OpenAiGpt4oMini.get_openai_endpoint(), "https://api.openai.com/v1/");
    assert_eq!(Model::Ollama("phi3".to_string()).get_openai_endpoint(), "http://localhost:11434/v1/");
}

#[test]
fn credential_needed_only_for_openai() {
    assert!(Model::OpenAiGpt4o.requires_api_key());
    assert!(Model::OpenAiGpt4oMini.requires_api_key());
    assert!(!Model::Ollama("phi3".to_string()).requires_api_key());
}
