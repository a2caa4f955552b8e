use vstd::prelude::*;

use crate::answer::{Answer, AnswerModel};
use crate::key::Key;
use crate::prompt::{
    err_model, input_frame, kind_step_rel, build_input_frame, PromptModel, Step, StepModel,
};
use crate::style::{line_model, RenderConfig, SpanModel, StyledSpan};
use crate::textutil::{chars_of, copy_chars, string_of};
use crate::validator::{chain_verdict, validate_chain, Validator};

verus! {

/// The state of a free-text prompt, as a mathematical value.
pub struct TextModel {
    pub message: Seq<char>,
    pub text: Seq<char>,
    pub mask: bool,
    pub validators: Seq<Validator>,
    pub error: Option<Seq<char>>,
}

/// A free-text prompt.  With `mask` set it behaves as a password prompt:
/// the typed characters are never echoed to the render.
pub struct TextPrompt {
    pub message: Vec<char>,
    pub text: Vec<char>,
    pub mask: bool,
    pub validators: Vec<Validator>,
    pub error: Option<String>,
}

/// What the render shows of the typed text: the text itself, or one mask
/// character per typed character.
pub open spec fn shown_text(m: TextModel) -> Seq<char> {
    if m.mask {
        Seq::new(m.text.len(), |i: int| '*')
    } else {
        m.text
    }
}

/// One step of the text state machine: characters edit the buffer,
/// Enter submits subject to the validator chain, Escape cancels.
pub open spec fn text_step(m: TextModel, k: Key) -> StepModel {
    match k {
        Key::Escape => StepModel::Quit,
        Key::Char(c) => StepModel::Keep(
            PromptModel::Text(TextModel { text: m.text.push(c), error: None, ..m }),
        ),
        Key::Backspace => StepModel::Keep(
            PromptModel::Text(
                TextModel {
                    text: if m.text.len() > 0 {
                        m.text.drop_last()
                    } else {
                        m.text
                    },
                    error: None,
                    ..m
                },
            ),
        ),
        Key::Enter => match chain_verdict(m.validators, m.text) {
            Some(msg) => StepModel::Keep(
                PromptModel::Text(TextModel { error: Some(msg), ..m }),
            ),
            None => StepModel::Submit(AnswerModel::Text(m.text)),
        },
        _ => StepModel::Keep(PromptModel::Text(m)),
    }
}

/// The frame of a text prompt: the prompt line with the (possibly masked)
/// input, and the error line exactly when a validation failure is pending.
pub open spec fn text_frame(m: TextModel, cfg: RenderConfig) -> Seq<Seq<SpanModel>> {
    input_frame(m.message, shown_text(m), m.error, cfg)
}

impl TextPrompt {
    /// The prompt's state as a mathematical value.
    pub open spec fn model(self) -> TextModel {
        TextModel {
            message: self.message@,
            text: self.text@,
            mask: self.mask,
            validators: self.validators@,
            error: err_model(self.error),
        }
    }

    /// A text prompt has no internal invariant.
    pub open spec fn wf(self) -> bool {
        true
    }

    /// A fresh text prompt: empty input, no validators, no pending error.
    pub fn new(message: &str) -> (r: TextPrompt)
        ensures
            r.wf(),
            r.model() == (TextModel {
                message: message@,
                text: Seq::<char>::empty(),
                mask: false,
                validators: Seq::<Validator>::empty(),
                error: None,
            }),
    {
        let r = TextPrompt {
            message: chars_of(message),
            text: Vec::new(),
            mask: false,
            validators: Vec::new(),
            error: None,
        };
        r
    }

    /// The same prompt, never echoing typed characters: a password prompt.
    pub fn masked(self) -> (r: TextPrompt)
        ensures
            r.model() == (TextModel { mask: true, ..self.model() }),
    {
        TextPrompt { mask: true, ..self }
    }

    /// The same prompt with this validator chain.
    pub fn with_validators(self, validators: Vec<Validator>) -> (r: TextPrompt)
        ensures
            r.model() == (TextModel { validators: validators@, ..self.model() }),
    {
        TextPrompt { validators, ..self }
    }

    /// The same prompt with this initial input.
    pub fn with_initial(self, text: &str) -> (r: TextPrompt)
        ensures
            r.model() == (TextModel { text: text@, ..self.model() }),
    {
        TextPrompt { text: chars_of(text), ..self }
    }

    /// Applies one key, as `text_step` says.
    pub fn handle_key(&mut self, k: Key) -> (t: Step)
        requires
            old(self).wf(),
        ensures
            final(self).wf(),
            kind_step_rel(
                text_step(old(self).model(), k),
                PromptModel::Text(final(self).model()),
                t,
            ),
    {
        match k {
            Key::Escape => Step::Cancel,
            Key::Char(c) => {
                self.text.push(c);
                self.error = None;
                Step::Stay
            },
            Key::Backspace => {
                if self.text.len() > 0 {
                    self.text.pop();
                }
                self.error = None;
                Step::Stay
            },
            Key::Enter => {
                match validate_chain(&self.validators, &self.text) {
                    Some(m) => {
                        self.error = Some(m);
                        Step::Stay
                    },
                    None => Step::Submit(Answer::Text(string_of(&self.text))),
                }
            },
            _ => Step::Stay,
        }
    }

    /// The prompt's current frame.
    pub fn render_lines(&self, cfg: &RenderConfig) -> (r: Vec<Vec<StyledSpan>>)
        requires
            self.wf(),
        ensures
            r@.map_values(|l: Vec<StyledSpan>| line_model(l)) == text_frame(self.model(), *cfg),
    {
        let shown: Vec<char> = if self.mask {
            let mut s: Vec<char> = Vec::new();
            let mut i: usize = 0;
            while i < self.text.len()
                invariant
                    i <= self.text@.len(),
                    s@ == Seq::new(i as nat, |j: int| '*'),
                decreases self.text@.len() - i,
            {
                s.push('*');
                i = i + 1;
                proof {
                    assert(s@ =~= Seq::new(i as nat, |j: int| '*'));
                }
            }
            proof {
                assert(s@ =~= shown_text(self.model()));
            }
            s
        } else {
            copy_chars(&self.text)
        };
        build_input_frame(&self.message, shown, &self.error, cfg)
    }
}

} // verus!
