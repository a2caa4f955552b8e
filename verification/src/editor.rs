use vstd::prelude::*;

use crate::prompt::err_model;
use crate::textutil::{chars_of, string_of};
use crate::validator::{chain_verdict, validate_chain, Validator};

verus! {

/// The editor prompt's buffer and rules.
///
/// The prompt collects multi-line input through an externally invoked text
/// editor: the caller writes the current buffer to a file, blocks while the
/// external process runs, and hands the file's final contents back through
/// [`EditorPrompt::reload`].  Everything the engine decides — what the
/// buffer is, and whether a reloaded candidate passes the validator chain —
/// is here; the process invocation and the file exchange are the external
/// collaborator's.
pub struct EditorPrompt {
    pub message: Vec<char>,
    pub buffer: Vec<char>,
    pub validators: Vec<Validator>,
    pub error: Option<String>,
}

/// The state of an editor prompt, as a mathematical value.
pub struct EditorModel {
    pub message: Seq<char>,
    pub buffer: Seq<char>,
    pub validators: Seq<Validator>,
    pub error: Option<Seq<char>>,
}

impl EditorPrompt {
    /// The prompt's state as a mathematical value.
    pub open spec fn model(self) -> EditorModel {
        EditorModel {
            message: self.message@,
            buffer: self.buffer@,
            validators: self.validators@,
            error: err_model(self.error),
        }
    }

    /// A fresh editor prompt whose buffer holds the default text.
    pub fn new(message: &str, default_text: &str) -> (r: EditorPrompt)
        ensures
            r.model() == (EditorModel {
                message: message@,
                buffer: default_text@,
                validators: Seq::<Validator>::empty(),
                error: None,
            }),
    {
        EditorPrompt {
            message: chars_of(message),
            buffer: chars_of(default_text),
            validators: Vec::new(),
            error: None,
        }
    }

    /// The same prompt with this validator chain.
    pub fn with_validators(self, validators: Vec<Validator>) -> (r: EditorPrompt)
        ensures
            r.model() == (EditorModel { validators: validators@, ..self.model() }),
    {
        EditorPrompt { validators, ..self }
    }

    /// The text to hand to the external editor: the current buffer.
    pub fn text_to_edit(&self) -> (r: String)
        ensures
            r@ == self.model().buffer,
    {
        string_of(&self.buffer)
    }

    /// Takes the file contents reloaded after the external editing session
    /// as the new candidate buffer, clearing any pending error.
    pub fn reload(&mut self, contents: &str)
        ensures
            final(self).model() == (EditorModel {
                buffer: contents@,
                error: None,
                ..old(self).model()
            }),
    {
        self.buffer = chars_of(contents);
        self.error = None;
    }

    /// Attempts submission of the reloaded buffer: the validator chain runs
    /// against it, and a failure is recorded through the same pending-error
    /// state as every other prompt; on success the buffer is the answer.
    pub fn submit(&mut self) -> (r: Option<String>)
        ensures
            ({
                let cv = chain_verdict(old(self).model().validators, old(self).model().buffer);
                match r {
                    Some(text) => cv is None && text@ == old(self).model().buffer && *final(self)
                        == *old(self),
                    None => cv is Some && final(self).model() == (EditorModel {
                        error: Some(cv.unwrap()),
                        ..old(self).model()
                    }),
                }
            }),
    {
        match validate_chain(&self.validators, &self.buffer) {
            Some(m) => {
                self.error = Some(m);
                None
            },
            None => Some(string_of(&self.buffer)),
        }
    }
}

} // verus!
