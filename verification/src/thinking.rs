//! Thinking/effort resolution: wire parameters for a thinking configuration,
//! the model-name suffix grammar, and the effort-to-configuration mapping.

use vstd::prelude::*;

use crate::anthropic::{OutputConfig, ThinkingParam};
use crate::common::{spec_effort_str, EffortLevel, ThinkingConfig};
use crate::strutil::{
    eq_fold, eq_lower, contains_lower, parse_u32, rfind_char, spec_contains, spec_parse_u32,
    spec_rfind, to_lower,
};

verus! {

/// Build the thinking wire parameters for a request.
///
/// Adaptive thinking emits an `adaptive` parameter; `High` effort is the
/// implicit default and omits the output configuration, any other effort is
/// spelled out. A manual budget emits an `enabled` parameter and never an
/// output configuration. No configuration emits nothing.
pub fn build_thinking_params(config: Option<&ThinkingConfig>) -> (r: (
    Option<ThinkingParam>,
    Option<OutputConfig>,
))
    ensures
        match config {
            Some(c) => match *c {
                ThinkingConfig::Adaptive { effort } => r.0 == Some(ThinkingParam::Adaptive)
                    && (if effort == EffortLevel::High {
                    r.1 is None
                } else {
                    match r.1 {
                        Some(oc) => oc.effort@ == spec_effort_str(effort),
                        None => false,
                    }
                }),
                ThinkingConfig::Enabled { budget_tokens } => r.0 == Some(
                    ThinkingParam::Enabled { budget_tokens },
                ) && r.1 is None,
            },
            None => r.0 is None && r.1 is None,
        },
{
    match config {
        Some(ThinkingConfig::Adaptive { effort }) => {
            let output_config = if *effort == EffortLevel::High {
                None
            } else {
                Some(OutputConfig { effort: String::from_str(effort.as_str()) })
            };
            (Some(ThinkingParam::Adaptive), output_config)
        },
        Some(ThinkingConfig::Enabled { budget_tokens }) => (
            Some(ThinkingParam::Enabled { budget_tokens: *budget_tokens }),
            None,
        ),
        None => (None, None),
    }
}

/// Whether a suffix token is one of the named effort words.
pub open spec fn spec_named_suffix(s: Seq<char>) -> bool {
    eq_fold(s, "none"@) || eq_fold(s, "off"@) || eq_fold(s, "disabled"@) || eq_fold(s, "low"@)
        || eq_fold(s, "minimal"@) || eq_fold(s, "medium"@) || eq_fold(s, "med"@) || eq_fold(
        s,
        "high"@,
    ) || eq_fold(s, "xhigh"@) || eq_fold(s, "max"@) || eq_fold(s, "auto"@)
}

/// What `parse_model_suffix` yields: the base model and the suffix when the
/// model name ends in a valid parenthesized effort token, else the name
/// unchanged and no suffix.
pub open spec fn spec_parse_model_suffix(m: Seq<char>) -> (Seq<char>, Option<Seq<char>>) {
    match spec_rfind(m, '(') {
        None => (m, None),
        Some(i) => {
            if m.len() == 0 || m.last() != ')' {
                (m, None)
            } else if i + 1 > m.len() - 1 {
                (m, None)
            } else {
                let suffix = m.subrange(i + 1, m.len() - 1);
                if spec_named_suffix(suffix) || spec_parse_u32(suffix) is Some {
                    (m.subrange(0, i), Some(suffix))
                } else {
                    (m, None)
                }
            }
        },
    }
}

/// Split a trailing `(<suffix>)` effort marker off a model identifier.
///
/// The suffix must name an effort word (case-insensitively) or be an
/// unsigned integer; anything else leaves the identifier untouched.
pub fn parse_model_suffix(model: &str) -> (r: (String, Option<String>))
    ensures
        r.0@ == spec_parse_model_suffix(model@).0,
        r.1.deep_view() == spec_parse_model_suffix(model@).1,
{
    let len = model.unicode_len();
    let open_paren = match rfind_char(model, '(') {
        Some(i) => i,
        None => {
            return (String::from_str(model), None);
        },
    };
    proof {
        crate::strutil::lemma_rfind(model@, '(');
    }
    if len == 0 || model.get_char(len - 1) != ')' {
        return (String::from_str(model), None);
    }
    if open_paren + 1 > len - 1 {
        return (String::from_str(model), None);
    }
    let suffix = model.substring_char(open_paren + 1, len - 1);
    let valid = eq_lower(suffix, "none") || eq_lower(suffix, "off") || eq_lower(
        suffix,
        "disabled",
    ) || eq_lower(suffix, "low") || eq_lower(suffix, "minimal") || eq_lower(suffix, "medium")
        || eq_lower(suffix, "med") || eq_lower(suffix, "high") || eq_lower(suffix, "xhigh")
        || eq_lower(suffix, "max") || eq_lower(suffix, "auto") || parse_u32(suffix).is_some();
    if valid {
        let base = model.substring_char(0, open_paren);
        (String::from_str(base), Some(String::from_str(suffix)))
    } else {
        (String::from_str(model), None)
    }
}

/// Whether a model identifier supports adaptive thinking: its case-folded
/// form carries one of the adaptive-capable family markers.
pub open spec fn spec_supports_adaptive(m: Seq<char>) -> bool {
    spec_contains(to_lower(m), to_lower("opus-4-6"@)) || spec_contains(
        to_lower(m),
        to_lower("sonnet-4-6"@),
    )
}

/// Check whether a model supports adaptive thinking.
pub fn supports_adaptive_thinking(model: &str) -> (r: bool)
    ensures
        r == spec_supports_adaptive(model@),
{
    contains_lower(model, "opus-4-6") || contains_lower(model, "sonnet-4-6")
}

/// What `build_thinking_for_model` yields.
///
/// Disabling words turn thinking off. An adaptive-capable model maps named
/// tokens to effort levels and buckets numeric tokens by magnitude; any
/// other token defaults to `High`. Other models map the same tokens to fixed
/// budgets, and an unrecognized token is read as a literal budget, `8192`
/// when unreadable.
pub open spec fn spec_build_thinking_for_model(m: Seq<char>, effort: Seq<char>) -> Option<
    ThinkingConfig,
> {
    if eq_fold(effort, "none"@) || eq_fold(effort, "off"@) || eq_fold(effort, "disabled"@) {
        None
    } else if spec_supports_adaptive(m) {
        if eq_fold(effort, "low"@) || eq_fold(effort, "minimal"@) {
            Some(ThinkingConfig::Adaptive { effort: EffortLevel::Low })
        } else if eq_fold(effort, "medium"@) || eq_fold(effort, "med"@) || eq_fold(
            effort,
            "auto"@,
        ) {
            Some(ThinkingConfig::Adaptive { effort: EffortLevel::Medium })
        } else if eq_fold(effort, "high"@) {
            Some(ThinkingConfig::Adaptive { effort: EffortLevel::High })
        } else if eq_fold(effort, "xhigh"@) || eq_fold(effort, "max"@) {
            Some(ThinkingConfig::Adaptive { effort: EffortLevel::Max })
        } else {
            match spec_parse_u32(effort) {
                Some(n) => {
                    if n == 0 {
                        None
                    } else if n <= 2048 {
                        Some(ThinkingConfig::Adaptive { effort: EffortLevel::Low })
                    } else if n <= 16384 {
                        Some(ThinkingConfig::Adaptive { effort: EffortLevel::Medium })
                    } else if n <= 49152 {
                        Some(ThinkingConfig::Adaptive { effort: EffortLevel::High })
                    } else {
                        Some(ThinkingConfig::Adaptive { effort: EffortLevel::Max })
                    }
                },
                None => Some(ThinkingConfig::Adaptive { effort: EffortLevel::High }),
            }
        }
    } else {
        let budget_tokens: u32 = if eq_fold(effort, "low"@) || eq_fold(effort, "minimal"@) {
            1024
        } else if eq_fold(effort, "medium"@) || eq_fold(effort, "med"@) {
            8192
        } else if eq_fold(effort, "high"@) {
            32000
        } else if eq_fold(effort, "xhigh"@) || eq_fold(effort, "max"@) {
            64000
        } else if eq_fold(effort, "auto"@) {
            16000
        } else {
            match spec_parse_u32(effort) {
                Some(n) => n,
                None => 8192,
            }
        };
        Some(ThinkingConfig::Enabled { budget_tokens })
    }
}

/// Resolve a thinking configuration from a model name and an effort token.
pub fn build_thinking_for_model(model: &str, effort: &str) -> (r: Option<ThinkingConfig>)
    ensures
        r == spec_build_thinking_for_model(model@, effort@),
{
    if eq_lower(effort, "none") || eq_lower(effort, "off") || eq_lower(effort, "disabled") {
        return None;
    }
    if supports_adaptive_thinking(model) {
        let level = if eq_lower(effort, "low") || eq_lower(effort, "minimal") {
            EffortLevel::Low
        } else if eq_lower(effort, "medium") || eq_lower(effort, "med") || eq_lower(
            effort,
            "auto",
        ) {
            EffortLevel::Medium
        } else if eq_lower(effort, "high") {
            EffortLevel::High
        } else if eq_lower(effort, "xhigh") || eq_lower(effort, "max") {
            EffortLevel::Max
        } else {
            match parse_u32(effort) {
                Some(n) => {
                    if n == 0 {
                        return None;
                    } else if n <= 2048 {
                        EffortLevel::Low
                    } else if n <= 16384 {
                        EffortLevel::Medium
                    } else if n <= 49152 {
                        EffortLevel::High
                    } else {
                        EffortLevel::Max
                    }
                },
                None => EffortLevel::High,
            }
        };
        Some(ThinkingConfig::Adaptive { effort: level })
    } else {
        let budget_tokens: u32 = if eq_lower(effort, "low") || eq_lower(effort, "minimal") {
            1024
        } else if eq_lower(effort, "medium") || eq_lower(effort, "med") {
            8192
        } else if eq_lower(effort, "high") {
            32000
        } else if eq_lower(effort, "xhigh") || eq_lower(effort, "max") {
            64000
        } else if eq_lower(effort, "auto") {
            16000
        } else {
            match parse_u32(effort) {
                Some(n) => n,
                None => 8192,
            }
        };
        Some(ThinkingConfig::Enabled { budget_tokens })
    }
}

} // verus!
