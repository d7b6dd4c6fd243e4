use smart_tavern::sampling::{sampling_policy, top_k_for_contract, FieldRule, TopKRule};

#[test]
fn top_k_follows_the_protocol() {
    assert_eq!(top_k_for_contract("openai_chat_completions", Some(40)), None);
    assert_eq!(top_k_for_contract("anthropic_messages", Some(40)), Some(40));
    assert_eq!(top_k_for_contract("gemini_generate_content", Some(0)), None);
    assert_eq!(top_k_for_contract("gemini_generate_content", Some(7)), Some(7));
    assert_eq!(top_k_for_contract("custom", Some(-1)), None);
    assert_eq!(top_k_for_contract("custom", Some(5_000_000_000)), None);
    assert_eq!(top_k_for_contract("custom", Some(3)), Some(3));
}

#[test]
fn chat_completions_clamp_penalties_and_map_repetition() {
    let p = sampling_policy("openai_chat_completions");
    assert_eq!(p.temperature, FieldRule::Clamp { lo: 0, hi: 2 });
    assert_eq!(p.top_p, FieldRule::Clamp { lo: 0, hi: 1 });
    assert_eq!(p.top_k, TopKRule::Drop);
    assert_eq!(p.repetition_penalty, FieldRule::Drop);
    assert_eq!(p.frequency_penalty, FieldRule::Clamp { lo: -2, hi: 2 });
    assert_eq!(p.presence_penalty, FieldRule::Clamp { lo: -2, hi: 2 });
    assert!(p.repetition_as_frequency);
    assert_eq!(sampling_policy("deepseek_chat"), p);
}

#[test]
fn anthropic_and_gemini_drop_penalties() {
    let a = sampling_policy("anthropic_messages");
    assert_eq!(a.temperature, FieldRule::Clamp { lo: 0, hi: 1 });
    assert_eq!(a.top_k, TopKRule::Keep);
    assert_eq!(a.frequency_penalty, FieldRule::Drop);
    assert_eq!(a.presence_penalty, FieldRule::Drop);
    assert_eq!(sampling_policy("claude_code_interface"), a);
    let g = sampling_policy("gemini_generate_content");
    assert_eq!(g.top_k, TopKRule::KeepPositive);
    assert_eq!(g.frequency_penalty, FieldRule::Drop);
    let r = sampling_policy("openai_responses");
    assert_eq!(r.presence_penalty, FieldRule::Drop);
    assert!(!r.repetition_as_frequency);
    let other = sampling_policy("local");
    assert_eq!(other.temperature, FieldRule::Keep);
    assert_eq!(other.repetition_penalty, FieldRule::Keep);
}
