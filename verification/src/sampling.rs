//! Which sampling parameters each provider protocol takes, and within what
//! bounds.

use vstd::prelude::*;
use crate::text::str_eq;

verus! {

/// What a protocol does with one real-valued sampling parameter.
#[derive(Debug, Clone, Copy, PartialEq, Eq, Structural)]
pub enum FieldRule {
    /// Sent as given.
    Keep,
    /// Not sent.
    Drop,
    /// Sent, clamped into `lo..=hi`.
    Clamp { lo: i8, hi: i8 },
}

/// What a protocol does with `top_k`.
#[derive(Debug, Clone, Copy, PartialEq, Eq, Structural)]
pub enum TopKRule {
    Keep,
    Drop,
    /// Sent only where positive.
    KeepPositive,
}

/// How the sampling parameters of a request are fitted to a protocol.
#[derive(Debug, Clone, Copy, PartialEq, Eq, Structural)]
pub struct SamplingPolicy {
    pub temperature: FieldRule,
    pub top_p: FieldRule,
    pub top_k: TopKRule,
    pub repetition_penalty: FieldRule,
    pub frequency_penalty: FieldRule,
    pub presence_penalty: FieldRule,
    /// A repetition penalty other than one stands in for a frequency
    /// penalty that is missing or zero, as its excess over one.
    pub repetition_as_frequency: bool,
}

pub open spec fn clamp_to(lo: i8, hi: i8) -> FieldRule {
    FieldRule::Clamp { lo, hi }
}

/// The policy of each protocol: the OpenAI protocols and DeepSeek clamp the
/// temperature into `0..=2`; the Anthropic ones into `0..=1` and keep
/// `top_k`; Gemini into `0..=2` and keeps a positive `top_k`. Every known
/// protocol clamps `top_p` into `0..=1`; only chat completions keep the
/// frequency and presence penalties, within `-2..=2`. An unknown protocol
/// gets everything as given.
pub open spec fn policy_of(protocol: Seq<char>) -> SamplingPolicy {
    if protocol == "openai_responses"@ {
        SamplingPolicy {
            temperature: clamp_to(0, 2),
            top_p: clamp_to(0, 1),
            top_k: TopKRule::Drop,
            repetition_penalty: FieldRule::Drop,
            frequency_penalty: FieldRule::Drop,
            presence_penalty: FieldRule::Drop,
            repetition_as_frequency: false,
        }
    } else if protocol == "openai_chat_completions"@ || protocol == "deepseek_chat"@ {
        SamplingPolicy {
            temperature: clamp_to(0, 2),
            top_p: clamp_to(0, 1),
            top_k: TopKRule::Drop,
            repetition_penalty: FieldRule::Drop,
            frequency_penalty: clamp_to(-2i8, 2i8),
            presence_penalty: clamp_to(-2i8, 2i8),
            repetition_as_frequency: true,
        }
    } else if protocol == "anthropic_messages"@ || protocol == "claude_code_interface"@ {
        SamplingPolicy {
            temperature: clamp_to(0, 1),
            top_p: clamp_to(0, 1),
            top_k: TopKRule::Keep,
            repetition_penalty: FieldRule::Drop,
            frequency_penalty: FieldRule::Drop,
            presence_penalty: FieldRule::Drop,
            repetition_as_frequency: false,
        }
    } else if protocol == "gemini_generate_content"@ {
        SamplingPolicy {
            temperature: clamp_to(0, 2),
            top_p: clamp_to(0, 1),
            top_k: TopKRule::KeepPositive,
            repetition_penalty: FieldRule::Drop,
            frequency_penalty: FieldRule::Drop,
            presence_penalty: FieldRule::Drop,
            repetition_as_frequency: false,
        }
    } else {
        SamplingPolicy {
            temperature: FieldRule::Keep,
            top_p: FieldRule::Keep,
            top_k: TopKRule::Keep,
            repetition_penalty: FieldRule::Keep,
            frequency_penalty: FieldRule::Keep,
            presence_penalty: FieldRule::Keep,
            repetition_as_frequency: false,
        }
    }
}

/// The sampling policy of a protocol.
pub fn sampling_policy(protocol_kind: &str) -> (r: SamplingPolicy)
    ensures
        r == policy_of(protocol_kind@),
{
    if str_eq(protocol_kind, "openai_responses") {
        SamplingPolicy {
            temperature: FieldRule::Clamp { lo: 0, hi: 2 },
            top_p: FieldRule::Clamp { lo: 0, hi: 1 },
            top_k: TopKRule::Drop,
            repetition_penalty: FieldRule::Drop,
            frequency_penalty: FieldRule::Drop,
            presence_penalty: FieldRule::Drop,
            repetition_as_frequency: false,
        }
    } else if str_eq(protocol_kind, "openai_chat_completions") || str_eq(protocol_kind, "deepseek_chat") {
        SamplingPolicy {
            temperature: FieldRule::Clamp { lo: 0, hi: 2 },
            top_p: FieldRule::Clamp { lo: 0, hi: 1 },
            top_k: TopKRule::Drop,
            repetition_penalty: FieldRule::Drop,
            frequency_penalty: FieldRule::Clamp { lo: -2, hi: 2 },
            presence_penalty: FieldRule::Clamp { lo: -2, hi: 2 },
            repetition_as_frequency: true,
        }
    } else if str_eq(protocol_kind, "anthropic_messages") || str_eq(protocol_kind, "claude_code_interface") {
        SamplingPolicy {
            temperature: FieldRule::Clamp { lo: 0, hi: 1 },
            top_p: FieldRule::Clamp { lo: 0, hi: 1 },
            top_k: TopKRule::Keep,
            repetition_penalty: FieldRule::Drop,
            frequency_penalty: FieldRule::Drop,
            presence_penalty: FieldRule::Drop,
            repetition_as_frequency: false,
        }
    } else if str_eq(protocol_kind, "gemini_generate_content") {
        SamplingPolicy {
            temperature: FieldRule::Clamp { lo: 0, hi: 2 },
            top_p: FieldRule::Clamp { lo: 0, hi: 1 },
            top_k: TopKRule::KeepPositive,
            repetition_penalty: FieldRule::Drop,
            frequency_penalty: FieldRule::Drop,
            presence_penalty: FieldRule::Drop,
            repetition_as_frequency: false,
        }
    } else {
        SamplingPolicy {
            temperature: FieldRule::Keep,
            top_p: FieldRule::Keep,
            top_k: TopKRule::Keep,
            repetition_penalty: FieldRule::Keep,
            frequency_penalty: FieldRule::Keep,
            presence_penalty: FieldRule::Keep,
            repetition_as_frequency: false,
        }
    }
}

/// The `top_k` a protocol is sent: the requested value where it fits a
/// `u32`, kept, dropped or kept only where positive as the protocol's
/// policy says.
pub open spec fn top_k_of(protocol: Seq<char>, top_k: Option<i64>) -> Option<u32> {
    let fitted: Option<u32> = match top_k {
        Some(v) => if 0 <= v <= u32::MAX {
            Some(v as u32)
        } else {
            None
        },
        None => None,
    };
    match policy_of(protocol).top_k {
        TopKRule::Keep => fitted,
        TopKRule::Drop => None,
        TopKRule::KeepPositive => match fitted {
            Some(k) => if k > 0 {
                Some(k)
            } else {
                None
            },
            None => None,
        },
    }
}

/// The `top_k` a protocol is sent.
pub fn top_k_for_contract(protocol_kind: &str, top_k: Option<i64>) -> (r: Option<u32>)
    ensures
        r == top_k_of(protocol_kind@, top_k),
{
    let fitted: Option<u32> = match top_k {
        Some(v) => if 0 <= v && v <= 0xffff_ffff {
            Some(v as u32)
        } else {
            None
        },
        None => None,
    };
    match sampling_policy(protocol_kind).top_k {
        TopKRule::Keep => fitted,
        TopKRule::Drop => None,
        TopKRule::KeepPositive => match fitted {
            Some(k) => if k > 0 {
                Some(k)
            } else {
                None
            },
            None => None,
        },
    }
}

} // verus!
