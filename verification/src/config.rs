//! The persisted configuration: the chosen model and the token budget, with
//! the validation used by the interactive setup dialogue.

use vstd::prelude::*;

use crate::model::{Model, ModelView};
use crate::text::{all_digits, dec_val, digit_val, is_digit, spec_trim, trim};

verus! {

/// The token budget is a positive integer of at most this value.
pub const MAX_TOKENS_LIMIT: i32 = 4096;

/// What the tool persists between runs: the model selection and the
/// max-tokens budget of every request.
#[derive(Clone, Debug)]
pub struct Config {
    pub model: Model,
    pub max_tokens: i32,
}

/// The mathematical shape of a configuration.
pub struct ConfigView {
    pub model: ModelView,
    pub max_tokens: int,
}

impl ConfigView {
    /// The configuration invariant: the token budget lies in its closed range.
    pub open spec fn wf(&self) -> bool {
        1 <= self.max_tokens <= MAX_TOKENS_LIMIT
    }
}

impl View for Config {
    type V = ConfigView;

    open spec fn view(&self) -> ConfigView {
        ConfigView { model: self.model@, max_tokens: self.max_tokens as int }
    }
}

impl Config {
    /// The configuration invariant, on the concrete value.
    pub open spec fn wf(&self) -> bool {
        self@.wf()
    }
}

impl PartialEq for Config {
    fn eq(&self, other: &Config) -> (r: bool) {
        self.model == other.model && self.max_tokens == other.max_tokens
    }
}

impl vstd::std_specs::cmp::PartialEqSpecImpl for Config {
    open spec fn obeys_eq_spec() -> bool {
        true
    }

    open spec fn eq_spec(&self, other: &Config) -> bool {
        self@ == other@
    }
}

/// A console line is an acceptable token budget when, after trimming, it is
/// all decimal digits and denotes a value in `[1, 4096]`.
pub open spec fn valid_max_tokens_input(s: Seq<char>) -> bool {
    let t = spec_trim(s);
    t.len() > 0 && all_digits(t) && 1 <= dec_val(t) <= MAX_TOKENS_LIMIT
}

/// Parse a max-tokens console line. Returns the value exactly when the input
/// is acceptable; the setup dialogue re-prompts on `None`.
pub fn parse_max_tokens(input: &str) -> (r: Option<i32>)
    ensures
        match r {
            Some(t) => valid_max_tokens_input(input@) && 1 <= t <= MAX_TOKENS_LIMIT && t as nat
                == dec_val(spec_trim(input@)),
            None => !valid_max_tokens_input(input@),
        },
{
    let trimmed = trim(input);
    let t = trimmed.as_str();
    let ghost tv = t@;
    let n = t.unicode_len();
    if n == 0 {
        return None;
    }
    let mut i: usize = 0;
    let mut acc: u32 = 0;
    while i < n
        invariant
            0 <= i <= n,
            n == tv.len(),
            t@ == tv,
            tv == spec_trim(input@),
            acc <= 4097,
            forall|j: int| 0 <= j < i ==> is_digit(#[trigger] tv[j]),
            dec_val(tv.subrange(0, i as int)) <= 4096 ==> acc == dec_val(
                tv.subrange(0, i as int),
            ),
            dec_val(tv.subrange(0, i as int)) > 4096 ==> acc == 4097,
        decreases n - i,
    {
        let c = t.get_char(i);
        let cv = c as u32;
        proof {
            assert(c == tv[i as int]);
        }
        if cv < 48 || cv > 57 {
            proof {
                assert(!is_digit(tv[i as int]));
            }
            return None;
        }
        let d = cv - 48;
        proof {
            assert(tv.subrange(0, i + 1).drop_last() =~= tv.subrange(0, i as int));
            assert(tv.subrange(0, i + 1).last() == tv[i as int]);
            assert(dec_val(tv.subrange(0, i + 1)) == dec_val(tv.subrange(0, i as int)) * 10
                + digit_val(tv[i as int]));
            assert(digit_val(tv[i as int]) == d);
        }
        if acc > 409 || (acc == 409 && d > 6) {
            acc = 4097;
        } else {
            acc = acc * 10 + d;
        }
        i += 1;
    }
    proof {
        assert(tv.subrange(0, n as int) =~= tv);
    }
    if acc >= 1 && acc <= 4096 {
        Some(acc as i32)
    } else {
        None
    }
}

/// One entry of the numbered model menu shown during interactive setup. The
/// local-model entry still needs a served-model name from a further prompt.
#[derive(Clone, Copy, PartialEq, Eq, Structural, Debug)]
pub enum MenuChoice {
    OpenAiGpt4oMini,
    OpenAiGpt4o,
    Ollama,
}

/// The menu accepts `1`, `2` or `3` (after trimming); anything else
/// re-prompts.
pub open spec fn spec_menu_choice(s: Seq<char>) -> Option<MenuChoice> {
    let t = spec_trim(s);
    if t == "1"@ {
        Some(MenuChoice::OpenAiGpt4oMini)
    } else if t == "2"@ {
        Some(MenuChoice::OpenAiGpt4o)
    } else if t == "3"@ {
        Some(MenuChoice::Ollama)
    } else {
        None
    }
}

/// Parse a model-menu console line.
pub fn parse_menu_choice(input: &str) -> (r: Option<MenuChoice>)
    ensures
        r == spec_menu_choice(input@),
{
    let trimmed = trim(input);
    let t = trimmed.as_str();
    proof {
        reveal_strlit("1");
        reveal_strlit("2");
        reveal_strlit("3");
    }
    let n = t.unicode_len();
    if n != 1 {
        return None;
    }
    let c = t.get_char(0);
    proof {
        assert(t@ =~= seq![t@[0]]);
    }
    if c == '1' {
        proof {
            assert(t@ =~= "1"@);
        }
        Some(MenuChoice::OpenAiGpt4oMini)
    } else if c == '2' {
        proof {
            assert(t@ =~= "2"@);
        }
        Some(MenuChoice::OpenAiGpt4o)
    } else if c == '3' {
        proof {
            assert(t@ =~= "3"@);
        }
        Some(MenuChoice::Ollama)
    } else {
        proof {
            assert(t@ != "1"@ && t@ != "2"@ && t@ != "3"@);
        }
        None
    }
}

} // verus!
