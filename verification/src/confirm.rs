use vstd::prelude::*;

use crate::answer::{Answer, AnswerModel};
use crate::key::Key;
use crate::prompt::{
    err_model, input_frame, kind_step_rel, build_input_frame, PromptModel, Step, StepModel,
};
use crate::style::{line_model, RenderConfig, SpanModel, StyledSpan};
use crate::textutil::{chars_of, copy_chars};
use vstd::string::StringExecFns;

verus! {

/// The state of a confirm prompt, as a mathematical value.
pub struct ConfirmModel {
    pub message: Seq<char>,
    pub default: bool,
    pub text: Seq<char>,
    pub error: Option<Seq<char>>,
}

/// A yes/no prompt with a default: Enter on an empty input submits the
/// default; `y`/`Y` and `n`/`N` submit explicitly; anything else is a
/// validation failure.
pub struct ConfirmPrompt {
    pub message: Vec<char>,
    pub default: bool,
    pub text: Vec<char>,
    pub error: Option<String>,
}

/// The message shown when the typed input is neither empty nor a y/n answer.
pub open spec fn invalid_confirm_message() -> Seq<char> {
    "Invalid answer, try typing y or n"@
}

/// What the typed confirm input means: empty means the default, `y`/`Y`
/// yes, `n`/`N` no, anything else nothing.
pub open spec fn confirm_parse(text: Seq<char>, default: bool) -> Option<bool> {
    if text.len() == 0 {
        Some(default)
    } else if text.len() == 1 && (text[0] == 'y' || text[0] == 'Y') {
        Some(true)
    } else if text.len() == 1 && (text[0] == 'n' || text[0] == 'N') {
        Some(false)
    } else {
        None
    }
}

/// One step of the confirm state machine.
pub open spec fn confirm_step(m: ConfirmModel, k: Key) -> StepModel {
    match k {
        Key::Escape => StepModel::Quit,
        Key::Char(c) => StepModel::Keep(
            PromptModel::Confirm(ConfirmModel { text: m.text.push(c), error: None, ..m }),
        ),
        Key::Backspace => StepModel::Keep(
            PromptModel::Confirm(
                ConfirmModel {
                    text: if m.text.len() > 0 {
                        m.text.drop_last()
                    } else {
                        m.text
                    },
                    error: None,
                    ..m
                },
            ),
        ),
        Key::Enter => match confirm_parse(m.text, m.default) {
            Some(b) => StepModel::Submit(AnswerModel::Confirmation(b)),
            None => StepModel::Keep(
                PromptModel::Confirm(ConfirmModel { error: Some(invalid_confirm_message()), ..m }),
            ),
        },
        _ => StepModel::Keep(PromptModel::Confirm(m)),
    }
}

/// The frame of a confirm prompt.
pub open spec fn confirm_frame(m: ConfirmModel, cfg: RenderConfig) -> Seq<Seq<SpanModel>> {
    input_frame(m.message, m.text, m.error, cfg)
}

impl ConfirmPrompt {
    /// The prompt's state as a mathematical value.
    pub open spec fn model(self) -> ConfirmModel {
        ConfirmModel {
            message: self.message@,
            default: self.default,
            text: self.text@,
            error: err_model(self.error),
        }
    }

    /// A confirm prompt has no internal invariant.
    pub open spec fn wf(self) -> bool {
        true
    }

    /// A fresh confirm prompt with the given default.
    pub fn new(message: &str, default: bool) -> (r: ConfirmPrompt)
        ensures
            r.wf(),
            r.model() == (ConfirmModel {
                message: message@,
                default: default,
                text: Seq::<char>::empty(),
                error: None,
            }),
    {
        ConfirmPrompt { message: chars_of(message), default, text: Vec::new(), error: None }
    }

    /// Applies one key, as `confirm_step` says.
    pub fn handle_key(&mut self, k: Key) -> (t: Step)
        requires
            old(self).wf(),
        ensures
            final(self).wf(),
            kind_step_rel(
                confirm_step(old(self).model(), k),
                PromptModel::Confirm(final(self).model()),
                t,
            ),
    {
        match k {
            Key::Escape => Step::Cancel,
            Key::Char(c) => {
                self.text.push(c);
                self.error = None;
                Step::Stay
            },
            Key::Backspace => {
                if self.text.len() > 0 {
                    self.text.pop();
                }
                self.error = None;
                Step::Stay
            },
            Key::Enter => {
                if self.text.len() == 0 {
                    Step::Submit(Answer::Confirmation(self.default))
                } else if self.text.len() == 1 && (self.text[0] == 'y' || self.text[0] == 'Y') {
                    Step::Submit(Answer::Confirmation(true))
                } else if self.text.len() == 1 && (self.text[0] == 'n' || self.text[0] == 'N') {
                    Step::Submit(Answer::Confirmation(false))
                } else {
                    self.error = Some(String::from_str("Invalid answer, try typing y or n"));
                    Step::Stay
                }
            },
            _ => Step::Stay,
        }
    }

    /// The prompt's current frame.
    pub fn render_lines(&self, cfg: &RenderConfig) -> (r: Vec<Vec<StyledSpan>>)
        requires
            self.wf(),
        ensures
            r@.map_values(|l: Vec<StyledSpan>| line_model(l)) == confirm_frame(
                self.model(),
                *cfg,
            ),
    {
        build_input_frame(&self.message, copy_chars(&self.text), &self.error, cfg)
    }
}

} // verus!
