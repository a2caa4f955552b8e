use vstd::prelude::*;

use crate::answer::{Answer, AnswerModel};
use crate::key::Key;
use crate::prompt::{
    err_model, error_line, input_frame, kind_step_rel, build_input_frame, PromptModel, Step,
    StepModel,
};
use crate::style::{line_model, RenderConfig, SpanModel, StyledSpan};
use crate::textutil::{chars_of, copy_chars};
use crate::validator::{chain_verdict, validate_chain, Validator};
use vstd::string::StringExecFns;

verus! {

/// Whether the character is a decimal digit.
pub open spec fn is_digit(c: char) -> bool {
    48 <= c as u32 && c as u32 <= 57
}

/// The value of a decimal digit character.
pub open spec fn digit_val(c: char) -> int {
    c as u32 - 48
}

/// The value of a digit string read in base ten.
pub open spec fn digits_val(s: Seq<char>) -> int
    decreases s.len(),
{
    if s.len() == 0 {
        0
    } else {
        digits_val(s.drop_last()) * 10 + digit_val(s.last())
    }
}

/// Whether every character is a decimal digit.
pub open spec fn all_digits(s: Seq<char>) -> bool {
    forall|i: int| 0 <= i < s.len() ==> is_digit(s[i])
}

/// The type-directed parse of the typed-value prompt for `i64`: an optional
/// leading minus sign, then one or more decimal digits, valued in range.
pub open spec fn parse_i64_spec(s: Seq<char>) -> Option<i64> {
    let neg = s.len() > 0 && s[0] == '-';
    let ds = if neg {
        s.skip(1)
    } else {
        s
    };
    if ds.len() == 0 || !all_digits(ds) {
        None
    } else if neg {
        if digits_val(ds) <= 9223372036854775808 {
            Some((-digits_val(ds)) as i64)
        } else {
            None
        }
    } else {
        if digits_val(ds) <= 9223372036854775807 {
            Some(digits_val(ds) as i64)
        } else {
            None
        }
    }
}

/// A digit string's value is never negative.
pub proof fn lemma_digits_val_nonneg(s: Seq<char>)
    requires
        all_digits(s),
    ensures
        digits_val(s) >= 0,
    decreases s.len(),
{
    if s.len() > 0 {
        assert(forall|i: int| 0 <= i < s.drop_last().len() ==> is_digit(s.drop_last()[i]));
        lemma_digits_val_nonneg(s.drop_last());
    }
}

/// A digit string is worth at least any of its prefixes.
pub proof fn lemma_digits_val_take_le(s: Seq<char>, k: int)
    requires
        all_digits(s),
        0 <= k <= s.len(),
    ensures
        digits_val(s.take(k)) <= digits_val(s),
    decreases s.len() - k,
{
    if k == s.len() {
        assert(s.take(k) =~= s);
    } else {
        let t = s.take(k + 1);
        assert(t.drop_last() =~= s.take(k));
        assert(t.last() == s[k]);
        assert(forall|i: int| 0 <= i < s.take(k).len() ==> is_digit(s.take(k)[i]));
        lemma_digits_val_nonneg(s.take(k));
        assert(digits_val(t) == digits_val(s.take(k)) * 10 + digit_val(s[k]));
        lemma_digits_val_take_le(s, k + 1);
    }
}

/// Parses an `i64` from its decimal notation, exactly as `parse_i64_spec`
/// says: `None` on an empty or malformed string and on a value out of
/// range.
pub fn parse_i64(s: &Vec<char>) -> (r: Option<i64>)
    ensures
        r == parse_i64_spec(s@),
{
    let n = s.len();
    if n == 0 {
        return None;
    }
    let neg = s[0] == '-';
    let start: usize = if neg {
        1
    } else {
        0
    };
    let ghost ds = if neg {
        s@.skip(1)
    } else {
        s@
    };
    if n == start {
        proof {
            assert(ds.len() == 0);
        }
        return None;
    }
    let mut acc: u64 = 0;
    let mut i: usize = start;
    proof {
        assert(ds.take(0) =~= Seq::<char>::empty());
    }
    while i < n
        invariant
            start <= i <= n,
            n == s@.len(),
            neg == (s@.len() > 0 && s@[0] == '-'),
            start == (if neg {
                1int
            } else {
                0int
            }),
            ds == (if neg {
                s@.skip(1)
            } else {
                s@
            }),
            ds.len() == n - start,
            forall|j: int| 0 <= j < i - start ==> is_digit(ds[j]),
            acc as int == digits_val(ds.take(i - start)),
        decreases n - i,
    {
        let c = s[i];
        let u = c as u32;
        if u < 48 || u > 57 {
            proof {
                assert(ds[i - start] == s@[i as int]);
                assert(!is_digit(ds[i - start]));
                assert(!all_digits(ds));
                assert(parse_i64_spec(s@) is None);
            }
            return None;
        }
        let d: u64 = (u - 48) as u64;
        proof {
            let t = ds.take(i - start + 1);
            assert(t.drop_last() =~= ds.take(i - start));
            assert(t.last() == ds[i - start]);
            assert(ds[i - start] == s@[i as int]);
            assert(digits_val(ds.take(i - start + 1)) == (acc as int) * 10 + (d as int));
        }
        let acc10 = match acc.checked_mul(10) {
            Some(v) => v,
            None => {
                proof {
                    if all_digits(ds) {
                        lemma_digits_val_take_le(ds, i - start + 1);
                        assert(digits_val(ds) > 9223372036854775808);
                    }
                    assert(parse_i64_spec(s@) is None);
                }
                return None;
            },
        };
        let acc2 = match acc10.checked_add(d) {
            Some(v) => v,
            None => {
                proof {
                    if all_digits(ds) {
                        lemma_digits_val_take_le(ds, i - start + 1);
                        assert(digits_val(ds) > 9223372036854775808);
                    }
                    assert(parse_i64_spec(s@) is None);
                }
                return None;
            },
        };
        acc = acc2;
        i = i + 1;
    }
    proof {
        assert(ds.take(n - start) =~= ds);
        assert(all_digits(ds));
        assert(acc as int == digits_val(ds));
    }
    if neg {
        proof {
            assert((-(9223372036854775808int)) as i64 == i64::MIN);
        }
        if acc <= 9223372036854775808u64 {
            if acc == 9223372036854775808u64 {
                Some(i64::MIN)
            } else {
                Some(-(acc as i64))
            }
        } else {
            None
        }
    } else {
        if acc <= 9223372036854775807u64 {
            Some(acc as i64)
        } else {
            None
        }
    }
}

/// The state of a typed-value prompt for `i64`, as a mathematical value.
pub struct IntModel {
    pub message: Seq<char>,
    pub text: Seq<char>,
    pub validators: Seq<Validator>,
    pub error: Option<Seq<char>>,
}

/// A typed-value prompt for `i64`: raw text is edited freely; on submission
/// the validator chain runs first, then the type-directed parse, and either
/// failure is reported through the identical error path.
pub struct CustomIntPrompt {
    pub message: Vec<char>,
    pub text: Vec<char>,
    pub validators: Vec<Validator>,
    pub error: Option<String>,
}

/// The message shown when the raw text does not parse as an `i64`.
pub open spec fn parse_error_message() -> Seq<char> {
    "The input is not a valid integer"@
}

/// One step of the typed-value state machine: the validator chain runs
/// against the raw text first, then the parse; a failure of either routes
/// through the same pending-error state.
pub open spec fn custom_int_step(m: IntModel, k: Key) -> StepModel {
    match k {
        Key::Escape => StepModel::Quit,
        Key::Char(c) => StepModel::Keep(
            PromptModel::CustomInt(IntModel { text: m.text.push(c), error: None, ..m }),
        ),
        Key::Backspace => StepModel::Keep(
            PromptModel::CustomInt(
                IntModel {
                    text: if m.text.len() > 0 {
                        m.text.drop_last()
                    } else {
                        m.text
                    },
                    error: None,
                    ..m
                },
            ),
        ),
        Key::Enter => match chain_verdict(m.validators, m.text) {
            Some(msg) => StepModel::Keep(
                PromptModel::CustomInt(IntModel { error: Some(msg), ..m }),
            ),
            None => match parse_i64_spec(m.text) {
                Some(v) => StepModel::Submit(AnswerModel::Int(v)),
                None => StepModel::Keep(
                    PromptModel::CustomInt(IntModel { error: Some(parse_error_message()), ..m }),
                ),
            },
        },
        _ => StepModel::Keep(PromptModel::CustomInt(m)),
    }
}

/// The frame of a typed-value prompt.
pub open spec fn custom_int_frame(m: IntModel, cfg: RenderConfig) -> Seq<Seq<SpanModel>> {
    input_frame(m.message, m.text, m.error, cfg)
}

/// A validator failure and a parse failure route through the identical
/// error path: either one leaves the state unchanged but for the pending
/// message, and the frame of a state with a pending message is the frame
/// without one plus exactly the single dedicated error line.
pub proof fn lemma_uniform_error_path(m: IntModel, cfg: RenderConfig)
    ensures
        chain_verdict(m.validators, m.text) matches Some(msg) ==> custom_int_step(m, Key::Enter)
            == StepModel::Keep(PromptModel::CustomInt(IntModel { error: Some(msg), ..m })),
        chain_verdict(m.validators, m.text) is None && parse_i64_spec(m.text) is None
            ==> custom_int_step(m, Key::Enter) == StepModel::Keep(
            PromptModel::CustomInt(IntModel { error: Some(parse_error_message()), ..m }),
        ),
        forall|e: Seq<char>|
            #[trigger] custom_int_frame(IntModel { error: Some(e), ..m }, cfg)
                == custom_int_frame(IntModel { error: None, ..m }, cfg).push(error_line(e, cfg)),
{
}

impl CustomIntPrompt {
    /// The prompt's state as a mathematical value.
    pub open spec fn model(self) -> IntModel {
        IntModel {
            message: self.message@,
            text: self.text@,
            validators: self.validators@,
            error: err_model(self.error),
        }
    }

    /// A typed-value prompt has no internal invariant.
    pub open spec fn wf(self) -> bool {
        true
    }

    /// A fresh typed-value prompt: empty input, no validators, no error.
    pub fn new(message: &str) -> (r: CustomIntPrompt)
        ensures
            r.wf(),
            r.model() == (IntModel {
                message: message@,
                text: Seq::<char>::empty(),
                validators: Seq::<Validator>::empty(),
                error: None,
            }),
    {
        CustomIntPrompt {
            message: chars_of(message),
            text: Vec::new(),
            validators: Vec::new(),
            error: None,
        }
    }

    /// The same prompt with this validator chain.
    pub fn with_validators(self, validators: Vec<Validator>) -> (r: CustomIntPrompt)
        ensures
            r.model() == (IntModel { validators: validators@, ..self.model() }),
    {
        CustomIntPrompt { validators, ..self }
    }

    /// The same prompt with this initial input.
    pub fn with_initial(self, text: &str) -> (r: CustomIntPrompt)
        ensures
            r.model() == (IntModel { text: text@, ..self.model() }),
    {
        CustomIntPrompt { text: chars_of(text), ..self }
    }

    /// Applies one key, as `custom_int_step` says.
    pub fn handle_key(&mut self, k: Key) -> (t: Step)
        requires
            old(self).wf(),
        ensures
            final(self).wf(),
            kind_step_rel(
                custom_int_step(old(self).model(), k),
                PromptModel::CustomInt(final(self).model()),
                t,
            ),
    {
        match k {
            Key::Escape => Step::Cancel,
            Key::Char(c) => {
                self.text.push(c);
                self.error = None;
                Step::Stay
            },
            Key::Backspace => {
                if self.text.len() > 0 {
                    self.text.pop();
                }
                self.error = None;
                Step::Stay
            },
            Key::Enter => {
                match validate_chain(&self.validators, &self.text) {
                    Some(m) => {
                        self.error = Some(m);
                        Step::Stay
                    },
                    None => {
                        match parse_i64(&self.text) {
                            Some(v) => Step::Submit(Answer::Int(v)),
                            None => {
                                self.error = Some(
                                    String::from_str("The input is not a valid integer"),
                                );
                                Step::Stay
                            },
                        }
                    },
                }
            },
            _ => Step::Stay,
        }
    }

    /// The prompt's current frame.
    pub fn render_lines(&self, cfg: &RenderConfig) -> (r: Vec<Vec<StyledSpan>>)
        requires
            self.wf(),
        ensures
            r@.map_values(|l: Vec<StyledSpan>| line_model(l)) == custom_int_frame(
                self.model(),
                *cfg,
            ),
    {
        build_input_frame(&self.message, copy_chars(&self.text), &self.error, cfg)
    }
}

} // verus!
