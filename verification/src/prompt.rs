use vstd::prelude::*;

use crate::answer::{answer_model, Answer, AnswerModel};
use crate::backend::Backend;
use crate::confirm::{confirm_step, ConfirmModel, ConfirmPrompt};
use crate::custom_type::{custom_int_step, CustomIntPrompt, IntModel};
use crate::dateselect::{date_step, DateModel, DatePrompt};
use crate::error::PromptError;
use crate::key::Key;
use crate::multiselect::{multi_select_step, MultiSelectModel, MultiSelectPrompt};
use crate::select::{select_step, SelectModel, SelectPrompt};
use crate::style::{line_model, RenderConfig, SpanModel, StyledSpan};
use crate::text::{text_step, TextModel, TextPrompt};
use crate::textutil::{chars_of, copy_chars};

verus! {

/// What one key did to a prompt, as seen by the driving loop.
pub enum Step {
    /// The visible state may have changed; render again and read on.
    Stay,
    /// A validated, typed answer was submitted.
    Submit(Answer),
    /// The prompt was cancelled.
    Cancel,
}

/// The state of any prompt kind, as a mathematical value.
pub enum PromptModel {
    Text(TextModel),
    Confirm(ConfirmModel),
    CustomInt(IntModel),
    Select(SelectModel),
    MultiSelect(MultiSelectModel),
    Date(DateModel),
}

/// One transition of the shared prompt life cycle.
pub enum StepModel {
    /// Stay in the interactive loop with this new state.
    Keep(PromptModel),
    /// Terminate, submitting this answer.
    Submit(AnswerModel),
    /// Terminate by cancellation.
    Quit,
}

/// The outcome of a whole run over a key sequence.
pub enum RunModel {
    /// A key submitted this answer.
    Done(AnswerModel),
    /// A key cancelled the prompt.
    Cancelled,
    /// The keys ran out before the prompt terminated.
    Starved,
}

/// The error state as a mathematical value.
pub open spec fn err_model(e: Option<String>) -> Option<Seq<char>> {
    match e {
        Some(m) => Some(m@),
        None => None,
    }
}

/// One step of the shared life cycle: what the key does to the state.
pub open spec fn step_model(m: PromptModel, k: Key) -> StepModel {
    match m {
        PromptModel::Text(t) => text_step(t, k),
        PromptModel::Confirm(c) => confirm_step(c, k),
        PromptModel::CustomInt(c) => custom_int_step(c, k),
        PromptModel::Select(s) => select_step(s, k),
        PromptModel::MultiSelect(s) => multi_select_step(s, k),
        PromptModel::Date(d) => date_step(d, k),
    }
}

/// The outcome of feeding the keys, in order, to the state machine: the
/// answer or cancellation produced by the first terminating key, or
/// starvation when the keys run out first.
pub open spec fn run_model(m: PromptModel, keys: Seq<Key>) -> RunModel
    decreases keys.len(),
{
    if keys.len() == 0 {
        RunModel::Starved
    } else {
        match step_model(m, keys[0]) {
            StepModel::Keep(m2) => run_model(m2, keys.skip(1)),
            StepModel::Submit(a) => RunModel::Done(a),
            StepModel::Quit => RunModel::Cancelled,
        }
    }
}

/// How one executable key-handling step must relate to the model step:
/// the model transition decides whether the machine stays, submits exactly
/// the modelled answer, or cancels.
pub open spec fn kind_step_rel(sm: StepModel, m2: PromptModel, t: Step) -> bool {
    match sm {
        StepModel::Keep(mm) => t is Stay && m2 == mm,
        StepModel::Submit(am) => t matches Step::Submit(a) && answer_model(a) == am,
        StepModel::Quit => t is Cancel,
    }
}

/// The dedicated error line: every validation or parse failure is rendered
/// through exactly this one line.
pub open spec fn error_line(e: Seq<char>, cfg: RenderConfig) -> Seq<SpanModel> {
    seq![
        SpanModel { text: "# "@, style: cfg.error_message },
        SpanModel { text: e, style: cfg.error_message },
    ]
}

/// The frame of the single-line input prompts: one prompt line holding the
/// prefix, the message and the (possibly masked) input, then the error line
/// exactly when an error is pending.
pub open spec fn input_frame(
    message: Seq<char>,
    shown: Seq<char>,
    error: Option<Seq<char>>,
    cfg: RenderConfig,
) -> Seq<Seq<SpanModel>> {
    let main = seq![
        seq![
            SpanModel { text: "? "@, style: cfg.prompt_prefix },
            SpanModel { text: message, style: cfg.prompt },
            SpanModel { text: " "@, style: cfg.prompt },
            SpanModel { text: shown, style: cfg.answer },
        ],
    ];
    match error {
        Some(e) => main.push(error_line(e, cfg)),
        None => main,
    }
}

/// Builds the error line.
pub fn build_error_line(e: &String, cfg: &RenderConfig) -> (r: Vec<StyledSpan>)
    ensures
        line_model(r) == error_line(e@, *cfg),
{
    let mut line: Vec<StyledSpan> = Vec::new();
    line.push(StyledSpan { text: chars_of("# "), style: cfg.error_message });
    line.push(StyledSpan { text: chars_of(e.as_str()), style: cfg.error_message });
    proof {
        assert(line_model(line) =~= error_line(e@, *cfg));
    }
    line
}

/// Builds the frame of a single-line input prompt.
pub fn build_input_frame(
    message: &Vec<char>,
    shown: Vec<char>,
    error: &Option<String>,
    cfg: &RenderConfig,
) -> (r: Vec<Vec<StyledSpan>>)
    ensures
        r@.map_values(|l: Vec<StyledSpan>| line_model(l)) == input_frame(
            message@,
            shown@,
            err_model(*error),
            *cfg,
        ),
{
    let mut main: Vec<StyledSpan> = Vec::new();
    main.push(StyledSpan { text: chars_of("? "), style: cfg.prompt_prefix });
    main.push(StyledSpan { text: copy_chars(message), style: cfg.prompt });
    main.push(StyledSpan { text: chars_of(" "), style: cfg.prompt });
    main.push(StyledSpan { text: shown, style: cfg.answer });
    let mut r: Vec<Vec<StyledSpan>> = Vec::new();
    r.push(main);
    match error {
        Some(e) => {
            let line = build_error_line(e, cfg);
            r.push(line);
        },
        None => {},
    }
    proof {
        assert(r@.map_values(|l: Vec<StyledSpan>| line_model(l)) =~~= input_frame(
            message@,
            shown@,
            err_model(*error),
            *cfg,
        ));
    }
    r
}

/// One interactive prompt, of any kind: the closed set of variant state
/// machines sharing one driving loop.
pub enum Prompt {
    Text(TextPrompt),
    Confirm(ConfirmPrompt),
    CustomInt(CustomIntPrompt),
    Select(SelectPrompt),
    MultiSelect(MultiSelectPrompt),
    Date(DatePrompt),
}

/// The outcome of one prompt run: a submitted answer or a cancellation.
#[derive(Clone, Debug, PartialEq, Eq)]
pub enum Outcome {
    Submitted(Answer),
    Cancelled,
}

/// How the run's result must relate to the run model.
pub open spec fn outcome_rel(r: Result<Outcome, PromptError>, rm: RunModel) -> bool {
    match rm {
        RunModel::Done(am) => r matches Ok(Outcome::Submitted(a)) && answer_model(a) == am,
        RunModel::Cancelled => r matches Ok(o) && o is Cancelled,
        RunModel::Starved => r matches Err(e) && e == PromptError::EndOfInput,
    }
}

impl Prompt {
    /// The prompt's internal consistency, per kind.
    pub open spec fn wf(self) -> bool {
        match self {
            Prompt::Text(p) => p.wf(),
            Prompt::Confirm(p) => p.wf(),
            Prompt::CustomInt(p) => p.wf(),
            Prompt::Select(p) => p.wf(),
            Prompt::MultiSelect(p) => p.wf(),
            Prompt::Date(p) => p.wf(),
        }
    }

    /// The prompt's state as a mathematical value.
    pub open spec fn model(self) -> PromptModel {
        match self {
            Prompt::Text(p) => PromptModel::Text(p.model()),
            Prompt::Confirm(p) => PromptModel::Confirm(p.model()),
            Prompt::CustomInt(p) => PromptModel::CustomInt(p.model()),
            Prompt::Select(p) => PromptModel::Select(p.model()),
            Prompt::MultiSelect(p) => PromptModel::MultiSelect(p.model()),
            Prompt::Date(p) => PromptModel::Date(p.model()),
        }
    }

    /// Applies one key to the state machine.
    pub fn handle_key(&mut self, k: Key) -> (t: Step)
        requires
            old(self).wf(),
        ensures
            final(self).wf(),
            kind_step_rel(step_model(old(self).model(), k), final(self).model(), t),
    {
        match self {
            Prompt::Text(p) => p.handle_key(k),
            Prompt::Confirm(p) => p.handle_key(k),
            Prompt::CustomInt(p) => p.handle_key(k),
            Prompt::Select(p) => p.handle_key(k),
            Prompt::MultiSelect(p) => p.handle_key(k),
            Prompt::Date(p) => p.handle_key(k),
        }
    }

    /// The lines of the prompt's current frame.
    pub fn render_lines(&self, cfg: &RenderConfig) -> (r: Vec<Vec<StyledSpan>>)
        requires
            self.wf(),
        ensures
            r@.map_values(|l: Vec<StyledSpan>| line_model(l)) == frame_model(self.model(), *cfg),
    {
        match self {
            Prompt::Text(p) => p.render_lines(cfg),
            Prompt::Confirm(p) => p.render_lines(cfg),
            Prompt::CustomInt(p) => p.render_lines(cfg),
            Prompt::Select(p) => p.render_lines(cfg),
            Prompt::MultiSelect(p) => p.render_lines(cfg),
            Prompt::Date(p) => p.render_lines(cfg),
        }
    }

    /// Runs the prompt to completion over the backend's input: renders,
    /// reads one key, steps the state machine, and repeats.  On every exit
    /// path — submission, cancellation, or input exhaustion — the terminal
    /// session is released exactly once, and the result is exactly what the
    /// run model assigns to the remaining key sequence.
    pub fn prompt_with(&mut self, backend: &mut Backend) -> (r: Result<Outcome, PromptError>)
        requires
            old(self).wf(),
            old(backend).wf(),
            old(backend).spec_raw_mode(),
        ensures
            final(backend).wf(),
            !final(backend).spec_raw_mode(),
            final(backend).spec_releases() == old(backend).spec_releases() + 1,
            outcome_rel(r, run_model(old(self).model(), old(backend).remaining())),
    {
        let cfg = backend.render_config();
        let lines = self.render_lines(&cfg);
        backend.render_frame(lines);
        loop
            invariant
                self.wf(),
                backend.wf(),
                backend.spec_raw_mode(),
                backend.spec_releases() == old(backend).spec_releases(),
                cfg == backend.spec_config(),
                run_model(self.model(), backend.remaining()) == run_model(
                    old(self).model(),
                    old(backend).remaining(),
                ),
            decreases backend.remaining().len(),
        {
            let k = match backend.read_key() {
                Ok(k) => k,
                Err(e) => {
                    backend.release();
                    return Err(e);
                },
            };
            match self.handle_key(k) {
                Step::Stay => {
                    let lines = self.render_lines(&cfg);
                    backend.render_frame(lines);
                },
                Step::Submit(a) => {
                    backend.release();
                    return Ok(Outcome::Submitted(a));
                },
                Step::Cancel => {
                    backend.release();
                    return Ok(Outcome::Cancelled);
                },
            }
        }
    }
}

/// The frame of any prompt state, per kind.
pub open spec fn frame_model(m: PromptModel, cfg: RenderConfig) -> Seq<Seq<SpanModel>> {
    match m {
        PromptModel::Text(t) => crate::text::text_frame(t, cfg),
        PromptModel::Confirm(c) => crate::confirm::confirm_frame(c, cfg),
        PromptModel::CustomInt(c) => crate::custom_type::custom_int_frame(c, cfg),
        PromptModel::Select(s) => crate::select::select_frame(s, cfg),
        PromptModel::MultiSelect(s) => crate::multiselect::multi_select_frame(s, cfg),
        PromptModel::Date(d) => crate::dateselect::date_frame(d, cfg),
    }
}

/// Every prompt kind cancels on the cancel key: in any state, Escape quits.
pub proof fn lemma_step_escape(m: PromptModel)
    ensures
        step_model(m, Key::Escape) is Quit,
{
}

/// A finite key sequence that never terminates the prompt, followed by the
/// cancel key, yields a cancellation outcome — whatever the prompt kind,
/// state, and prior keys were.  Together with the run contract, which
/// releases the terminal session exactly once on every exit path, this is
/// the cancellation guarantee.
pub proof fn lemma_cancel_run(m: PromptModel, keys: Seq<Key>)
    requires
        run_model(m, keys) is Starved,
    ensures
        run_model(m, keys.push(Key::Escape)) is Cancelled,
    decreases keys.len(),
{
    let ext = keys.push(Key::Escape);
    if keys.len() == 0 {
        assert(ext[0] == Key::Escape);
        lemma_step_escape(m);
    } else {
        assert(ext[0] == keys[0]);
        match step_model(m, keys[0]) {
            StepModel::Keep(m2) => {
                assert(ext.skip(1) =~= keys.skip(1).push(Key::Escape));
                lemma_cancel_run(m2, keys.skip(1));
            },
            StepModel::Submit(_) => {
                assert(false);
            },
            StepModel::Quit => {
                assert(false);
            },
        }
    }
}

} // verus!
