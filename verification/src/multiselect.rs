use vstd::prelude::*;

use crate::answer::{Answer, AnswerModel, OptionAnswer, OptionAnswerModel};
use crate::error::PromptError;
use crate::key::Key;
use crate::prompt::{err_model, error_line, kind_step_rel, PromptModel, Step, StepModel};
use crate::select::{
    cursor_down, cursor_page_down, cursor_page_up, cursor_up, page_end, page_start,
    select_header, view_of,
};
use crate::style::{line_model, RenderConfig, SpanModel, StyledSpan};
use crate::textutil::{
    chars_of, contains_ci, contains_ci_exec, copy_chars, filtered_idx, filtered_indices,
    lemma_filtered_idx,
};
use vstd::string::StringExecFns;
use vstd::pervasive::VecAdditionalExecFns;

verus! {

/// The message reported when fewer options are checked than the minimum.
pub open spec fn too_few_message() -> Seq<char> {
    "Too few options selected"@
}

/// The message reported when more options are checked than the maximum.
pub open spec fn too_many_message() -> Seq<char> {
    "Too many options selected"@
}

/// The state of a multi-select prompt, as a mathematical value.
pub struct MultiSelectModel {
    pub message: Seq<char>,
    pub opts: Seq<Seq<char>>,
    pub filter: Seq<char>,
    pub cursor: int,
    pub page_size: int,
    pub checked: Seq<bool>,
    pub min: Option<int>,
    pub max: Option<int>,
    pub error: Option<Seq<char>>,
}

/// The state after toggling the row under the cursor.
pub open spec fn toggled(m: MultiSelectModel) -> MultiSelectModel {
    let view = view_of(m.opts, m.filter);
    if view.len() == 0 {
        MultiSelectModel { error: None, ..m }
    } else {
        let j = view[m.cursor];
        MultiSelectModel { checked: m.checked.update(j, !m.checked[j]), error: None, ..m }
    }
}

/// The checked flags after checking (or clearing) every row of the current
/// filtered view, leaving the rows outside the view alone.
pub open spec fn set_filtered(m: MultiSelectModel, value: bool) -> Seq<bool> {
    Seq::new(
        m.checked.len(),
        |i: int|
            if contains_ci(m.opts[i], m.filter) {
                value
            } else {
                m.checked[i]
            },
    )
}

/// The checked options in original-index order.
pub open spec fn selection_of(m: MultiSelectModel) -> Seq<OptionAnswerModel> {
    filtered_idx(m.checked).map_values(
        |i: int| OptionAnswerModel { index: i, value: m.opts[i] },
    )
}

/// What submitting the current checked set yields: the selection in
/// original-index order, subject to the configured minimum and maximum
/// selection counts.
pub open spec fn submit_multi(m: MultiSelectModel) -> StepModel {
    let sel = selection_of(m);
    if m.min matches Some(mn) && sel.len() < mn {
        StepModel::Keep(
            PromptModel::MultiSelect(MultiSelectModel { error: Some(too_few_message()), ..m }),
        )
    } else if m.max matches Some(mx) && sel.len() > mx {
        StepModel::Keep(
            PromptModel::MultiSelect(MultiSelectModel { error: Some(too_many_message()), ..m }),
        )
    } else {
        StepModel::Submit(AnswerModel::MultiSelected(sel))
    }
}

/// One step of the multi-select state machine: like select for navigation
/// and filtering, with Space toggling the row under the cursor, Right and
/// Left checking and clearing every row of the filtered view only, and
/// Enter submitting the checked set in original-index order.
pub open spec fn multi_select_step(m: MultiSelectModel, k: Key) -> StepModel {
    let view = view_of(m.opts, m.filter);
    match k {
        Key::Escape => StepModel::Quit,
        Key::Up => StepModel::Keep(
            PromptModel::MultiSelect(
                MultiSelectModel {
                    cursor: cursor_up(m.cursor, view.len() as int),
                    error: None,
                    ..m
                },
            ),
        ),
        Key::Down => StepModel::Keep(
            PromptModel::MultiSelect(
                MultiSelectModel {
                    cursor: cursor_down(m.cursor, view.len() as int),
                    error: None,
                    ..m
                },
            ),
        ),
        Key::PageUp => StepModel::Keep(
            PromptModel::MultiSelect(
                MultiSelectModel {
                    cursor: cursor_page_up(m.cursor, m.page_size),
                    error: None,
                    ..m
                },
            ),
        ),
        Key::PageDown => StepModel::Keep(
            PromptModel::MultiSelect(
                MultiSelectModel {
                    cursor: cursor_page_down(m.cursor, m.page_size, view.len() as int),
                    error: None,
                    ..m
                },
            ),
        ),
        Key::Char(c) => {
            if c == ' ' {
                StepModel::Keep(PromptModel::MultiSelect(toggled(m)))
            } else {
                StepModel::Keep(
                    PromptModel::MultiSelect(
                        MultiSelectModel { filter: m.filter.push(c), cursor: 0, error: None, ..m },
                    ),
                )
            }
        },
        Key::Backspace => StepModel::Keep(
            PromptModel::MultiSelect(
                MultiSelectModel {
                    filter: if m.filter.len() > 0 {
                        m.filter.drop_last()
                    } else {
                        m.filter
                    },
                    cursor: 0,
                    error: None,
                    ..m
                },
            ),
        ),
        Key::Right => StepModel::Keep(
            PromptModel::MultiSelect(
                MultiSelectModel { checked: set_filtered(m, true), error: None, ..m },
            ),
        ),
        Key::Left => StepModel::Keep(
            PromptModel::MultiSelect(
                MultiSelectModel { checked: set_filtered(m, false), error: None, ..m },
            ),
        ),
        Key::Enter => submit_multi(m),
        _ => StepModel::Keep(PromptModel::MultiSelect(m)),
    }
}

/// One visible multi-select row: a cursor marker, a check marker, and the
/// display text.
pub open spec fn multi_row_line(
    text: Seq<char>,
    at_cursor: bool,
    checked: bool,
    cfg: RenderConfig,
) -> Seq<SpanModel> {
    let style = if at_cursor {
        cfg.highlighted_option
    } else {
        cfg.option
    };
    seq![
        SpanModel {
            text: if at_cursor {
                "> "@
            } else {
                "  "@
            },
            style,
        },
        SpanModel {
            text: if checked {
                "[x] "@
            } else {
                "[ ] "@
            },
            style: if checked {
                cfg.selected_marker
            } else {
                style
            },
        },
        SpanModel { text, style },
    ]
}

/// The rows of the page window under the current cursor.
pub open spec fn multi_select_rows(m: MultiSelectModel, cfg: RenderConfig) -> Seq<Seq<SpanModel>> {
    let view = view_of(m.opts, m.filter);
    let start = page_start(m.cursor, m.page_size);
    let end = page_end(m.cursor, m.page_size, view.len() as int);
    Seq::new(
        (end - start) as nat,
        |r: int|
            multi_row_line(
                m.opts[view[start + r]],
                start + r == m.cursor,
                m.checked[view[start + r]],
                cfg,
            ),
    )
}

/// The frame of a multi-select prompt.
pub open spec fn multi_select_frame(m: MultiSelectModel, cfg: RenderConfig) -> Seq<Seq<SpanModel>> {
    let base = seq![select_header(m.message, m.filter, cfg)] + multi_select_rows(m, cfg);
    match m.error {
        Some(e) => base.push(error_line(e, cfg)),
        None => base,
    }
}

/// Toggling the same row twice, without an intervening filter change,
/// returns the checked set — indeed the whole state, but for the pending
/// error being cleared — to what it was.
pub proof fn lemma_toggle_twice(m: MultiSelectModel)
    requires
        m.checked.len() == m.opts.len(),
        0 <= m.cursor < view_of(m.opts, m.filter).len(),
    ensures
        multi_select_step(m, Key::Char(' ')) == StepModel::Keep(
            PromptModel::MultiSelect(toggled(m)),
        ),
        multi_select_step(toggled(m), Key::Char(' ')) == StepModel::Keep(
            PromptModel::MultiSelect(MultiSelectModel { error: None, ..m }),
        ),
{
    let view = view_of(m.opts, m.filter);
    let j = view[m.cursor];
    let m1 = toggled(m);
    assert(view_of(m1.opts, m1.filter) == view);
    lemma_filtered_idx(m.opts.map_values(|o: Seq<char>| contains_ci(o, m.filter)));
    assert(0 <= j < m.checked.len());
    assert(m1.checked.update(j, !m1.checked[j]) =~= m.checked);
    assert(toggled(m1) == (MultiSelectModel { error: None, ..m }));
}

/// Cursor navigation wraps at the filtered view's boundaries, exactly as
/// in the single-select prompt.
pub proof fn lemma_multi_cursor_wraps(m: MultiSelectModel)
    requires
        view_of(m.opts, m.filter).len() > 0,
    ensures
        m.cursor == 0 ==> multi_select_step(m, Key::Up) == StepModel::Keep(
            PromptModel::MultiSelect(
                MultiSelectModel {
                    cursor: view_of(m.opts, m.filter).len() - 1,
                    error: None,
                    ..m
                },
            ),
        ),
        m.cursor == view_of(m.opts, m.filter).len() - 1 ==> multi_select_step(m, Key::Down)
            == StepModel::Keep(
            PromptModel::MultiSelect(MultiSelectModel { cursor: 0, error: None, ..m }),
        ),
{
}

/// A multiple-choice list prompt: select's filtering and pagination plus a
/// checked set over the original indices.
pub struct MultiSelectPrompt {
    pub message: Vec<char>,
    pub options: Vec<String>,
    pub opt_chars: Vec<Vec<char>>,
    pub filter: Vec<char>,
    pub view: Vec<usize>,
    pub cursor: usize,
    pub page_size: usize,
    pub checked: Vec<bool>,
    pub min: Option<usize>,
    pub max: Option<usize>,
    pub error: Option<String>,
}

impl MultiSelectPrompt {
    /// The option list as a mathematical value.
    pub open spec fn opts_model(self) -> Seq<Seq<char>> {
        self.opt_chars@.map_values(|v: Vec<char>| v@)
    }

    /// The configured minimum as a mathematical value.
    pub open spec fn min_model(self) -> Option<int> {
        match self.min {
            Some(n) => Some(n as int),
            None => None,
        }
    }

    /// The configured maximum as a mathematical value.
    pub open spec fn max_model(self) -> Option<int> {
        match self.max {
            Some(n) => Some(n as int),
            None => None,
        }
    }

    /// The prompt's state as a mathematical value.
    pub open spec fn model(self) -> MultiSelectModel {
        MultiSelectModel {
            message: self.message@,
            opts: self.opts_model(),
            filter: self.filter@,
            cursor: self.cursor as int,
            page_size: self.page_size as int,
            checked: self.checked@,
            min: self.min_model(),
            max: self.max_model(),
            error: err_model(self.error),
        }
    }

    /// The prompt's internal invariant: as for select, plus one checked
    /// flag per original option.
    pub open spec fn wf(self) -> bool {
        &&& self.options@.len() == self.opt_chars@.len()
        &&& forall|i: int|
            0 <= i < self.options@.len() ==> (#[trigger] self.options@[i])@ == self.opt_chars@[i]@
        &&& self.view@.map_values(|u: usize| u as int) == view_of(self.opts_model(), self.filter@)
        &&& forall|i: int|
            0 <= i < self.view@.len() ==> (#[trigger] self.view@[i]) < self.options@.len()
        &&& if self.view@.len() == 0 {
            self.cursor == 0
        } else {
            self.cursor < self.view@.len()
        }
        &&& self.page_size >= 1
        &&& self.options@.len() >= 1
        &&& self.checked@.len() == self.options@.len()
    }

    /// Recomputes the filtered view for the current filter text and resets
    /// the cursor to the first visible row.
    fn recompute_view(&mut self)
        requires
            old(self).options@.len() == old(self).opt_chars@.len(),
        ensures
            final(self).message == old(self).message,
            final(self).options == old(self).options,
            final(self).opt_chars == old(self).opt_chars,
            final(self).filter == old(self).filter,
            final(self).page_size == old(self).page_size,
            final(self).checked == old(self).checked,
            final(self).min == old(self).min,
            final(self).max == old(self).max,
            final(self).error == old(self).error,
            final(self).cursor == 0,
            final(self).view@.map_values(|u: usize| u as int) == view_of(
                final(self).opts_model(),
                final(self).filter@,
            ),
            forall|i: int|
                0 <= i < final(self).view@.len()
                    ==> (#[trigger] final(self).view@[i]) < final(self).options@.len(),
    {
        let n = self.opt_chars.len();
        let mut flags: Vec<bool> = Vec::new();
        let mut i: usize = 0;
        while i < n
            invariant
                i <= n,
                n == self.opt_chars@.len(),
                flags@.len() == i,
                forall|j: int|
                    0 <= j < i ==> flags@[j] == contains_ci(self.opt_chars@[j]@, self.filter@),
            decreases n - i,
        {
            let f = contains_ci_exec(&self.opt_chars[i], &self.filter);
            flags.push(f);
            i = i + 1;
        }
        proof {
            assert(flags@ =~= self.opts_model().map_values(
                |o: Seq<char>| contains_ci(o, self.filter@),
            ));
            lemma_filtered_idx(flags@);
        }
        let view = filtered_indices(&flags);
        self.view = view;
        self.cursor = 0;
        proof {
            let vm = self.view@.map_values(|u: usize| u as int);
            assert(vm == filtered_idx(flags@));
            assert forall|i: int|
                0 <= i < self.view@.len() implies (#[trigger] self.view@[i])
                < self.options@.len() by {
                assert(vm[i] == self.view@[i] as int);
                assert(0 <= filtered_idx(flags@)[i] < flags@.len());
            }
        }
    }

    /// A fresh multi-select prompt over the given options, or a
    /// configuration error exactly when the option list is empty.  Nothing
    /// starts checked; the page size starts at seven rows.
    pub fn new(message: &str, options: Vec<String>) -> (r: Result<
        MultiSelectPrompt,
        PromptError,
    >)
        ensures
            ({
                match r {
                    Ok(p) => p.wf() && options@.len() > 0 && p.model() == (MultiSelectModel {
                        message: message@,
                        opts: options@.map_values(|s: String| s@),
                        filter: Seq::<char>::empty(),
                        cursor: 0,
                        page_size: 7,
                        checked: Seq::new(options@.len(), |i: int| false),
                        min: None,
                        max: None,
                        error: None,
                    }),
                    Err(e) => e == PromptError::InvalidConfiguration && options@.len() == 0,
                }
            }),
    {
        if options.len() == 0 {
            return Err(PromptError::InvalidConfiguration);
        }
        let n = options.len();
        let mut opt_chars: Vec<Vec<char>> = Vec::new();
        let mut checked: Vec<bool> = Vec::new();
        let mut i: usize = 0;
        while i < n
            invariant
                i <= n,
                n == options@.len(),
                opt_chars@.len() == i,
                checked@.len() == i,
                forall|j: int| 0 <= j < i ==> (#[trigger] opt_chars@[j])@ == options@[j]@,
                forall|j: int| 0 <= j < i ==> !(#[trigger] checked@[j]),
            decreases n - i,
        {
            let cs = chars_of(options[i].as_str());
            opt_chars.push(cs);
            checked.push(false);
            i = i + 1;
        }
        let mut p = MultiSelectPrompt {
            message: chars_of(message),
            options,
            opt_chars,
            filter: Vec::new(),
            view: Vec::new(),
            cursor: 0,
            page_size: 7,
            checked,
            min: None,
            max: None,
            error: None,
        };
        p.recompute_view();
        proof {
            assert(p.opts_model().map_values(
                |o: Seq<char>| contains_ci(o, p.filter@),
            ).len() == n);
            lemma_filtered_idx(p.opts_model().map_values(
                |o: Seq<char>| contains_ci(o, p.filter@),
            ));
            assert(p.model().opts =~~= options@.map_values(|s: String| s@));
            assert(p.model().checked =~= Seq::new(options@.len(), |i: int| false));
        }
        Ok(p)
    }

    /// The same prompt with this page size.
    pub fn with_page_size(self, page_size: usize) -> (r: MultiSelectPrompt)
        requires
            page_size >= 1,
            self.wf(),
        ensures
            r.wf(),
            r.model() == (MultiSelectModel { page_size: page_size as int, ..self.model() }),
    {
        MultiSelectPrompt { page_size, ..self }
    }

    /// The same prompt demanding at least this many checked options.
    pub fn with_min(self, min: usize) -> (r: MultiSelectPrompt)
        requires
            self.wf(),
        ensures
            r.wf(),
            r.model() == (MultiSelectModel { min: Some(min as int), ..self.model() }),
    {
        MultiSelectPrompt { min: Some(min), ..self }
    }

    /// The same prompt allowing at most this many checked options.
    pub fn with_max(self, max: usize) -> (r: MultiSelectPrompt)
        requires
            self.wf(),
        ensures
            r.wf(),
            r.model() == (MultiSelectModel { max: Some(max as int), ..self.model() }),
    {
        MultiSelectPrompt { max: Some(max), ..self }
    }

    /// Applies one key, as `multi_select_step` says.
    pub fn handle_key(&mut self, k: Key) -> (t: Step)
        requires
            old(self).wf(),
        ensures
            final(self).wf(),
            kind_step_rel(
                multi_select_step(old(self).model(), k),
                PromptModel::MultiSelect(final(self).model()),
                t,
            ),
    {
        match k {
            Key::Escape => Step::Cancel,
            Key::Up => {
                if self.view.len() > 0 {
                    self.cursor = if self.cursor == 0 {
                        self.view.len() - 1
                    } else {
                        self.cursor - 1
                    };
                }
                self.error = None;
                Step::Stay
            },
            Key::Down => {
                if self.view.len() > 0 {
                    self.cursor = if self.cursor + 1 >= self.view.len() {
                        0
                    } else {
                        self.cursor + 1
                    };
                }
                self.error = None;
                Step::Stay
            },
            Key::PageUp => {
                self.cursor = if self.cursor >= self.page_size {
                    self.cursor - self.page_size
                } else {
                    0
                };
                self.error = None;
                Step::Stay
            },
            Key::PageDown => {
                if self.view.len() > 0 {
                    self.cursor = if self.page_size < self.view.len() - self.cursor {
                        self.cursor + self.page_size
                    } else {
                        self.view.len() - 1
                    };
                }
                self.error = None;
                Step::Stay
            },
            Key::Char(c) => {
                if c == ' ' {
                    if self.view.len() > 0 {
                        let j = self.view[self.cursor];
                        let b = self.checked[j];
                        self.checked.set(j, !b);
                    }
                    self.error = None;
                    Step::Stay
                } else {
                    self.filter.push(c);
                    self.recompute_view();
                    self.error = None;
                    Step::Stay
                }
            },
            Key::Backspace => {
                if self.filter.len() > 0 {
                    self.filter.pop();
                }
                self.recompute_view();
                self.error = None;
                Step::Stay
            },
            Key::Right => {
                self.set_all_filtered(true);
                self.error = None;
                Step::Stay
            },
            Key::Left => {
                self.set_all_filtered(false);
                self.error = None;
                Step::Stay
            },
            Key::Enter => self.submit(),
            _ => Step::Stay,
        }
    }

    /// Checks or clears every row of the current filtered view.
    fn set_all_filtered(&mut self, value: bool)
        requires
            old(self).wf(),
        ensures
            final(self).message == old(self).message,
            final(self).options == old(self).options,
            final(self).opt_chars == old(self).opt_chars,
            final(self).filter == old(self).filter,
            final(self).view == old(self).view,
            final(self).cursor == old(self).cursor,
            final(self).page_size == old(self).page_size,
            final(self).min == old(self).min,
            final(self).max == old(self).max,
            final(self).error == old(self).error,
            final(self).checked@ == set_filtered(old(self).model(), value),
    {
        let n = self.options.len();
        let mut i: usize = 0;
        while i < n
            invariant
                i <= n,
                self.options@.len() == n,
                self.opt_chars@.len() == n,
                self.checked@.len() == n,
                forall|j: int|
                    0 <= j < n ==> (#[trigger] self.options@[j])@ == self.opt_chars@[j]@,
                self.message == old(self).message,
                self.options == old(self).options,
                self.opt_chars == old(self).opt_chars,
                self.filter == old(self).filter,
                self.view == old(self).view,
                self.cursor == old(self).cursor,
                self.page_size == old(self).page_size,
                self.min == old(self).min,
                self.max == old(self).max,
                self.error == old(self).error,
                forall|j: int|
                    0 <= j < i ==> #[trigger] self.checked@[j] == (if contains_ci(
                        old(self).model().opts[j],
                        old(self).filter@,
                    ) {
                        value
                    } else {
                        old(self).checked@[j]
                    }),
                forall|j: int| i <= j < n ==> self.checked@[j] == old(self).checked@[j],
            decreases n - i,
        {
            if contains_ci_exec(&self.opt_chars[i], &self.filter) {
                self.checked.set(i, value);
            }
            i = i + 1;
        }
        proof {
            assert(final(self).checked@ =~= set_filtered(old(self).model(), value));
        }
    }

    /// Submits the checked set, subject to the configured bounds.
    fn submit(&mut self) -> (t: Step)
        requires
            old(self).wf(),
        ensures
            final(self).wf(),
            kind_step_rel(
                submit_multi(old(self).model()),
                PromptModel::MultiSelect(final(self).model()),
                t,
            ),
    {
        proof {
            lemma_filtered_idx(self.checked@);
        }
        let idxs = filtered_indices(&self.checked);
        proof {
            assert forall|j: int|
                0 <= j < idxs@.len() implies (#[trigger] idxs@[j]) < self.options@.len() by {
                assert(idxs@.map_values(|u: usize| u as int)[j] == idxs@[j] as int);
                assert(0 <= filtered_idx(self.checked@)[j] < self.checked@.len());
            }
            assert(selection_of(self.model()).len() == idxs@.len());
        }
        let cnt = idxs.len();
        let too_few = match self.min {
            Some(mn) => cnt < mn,
            None => false,
        };
        if too_few {
            self.error = Some(String::from_str("Too few options selected"));
            return Step::Stay;
        }
        let too_many = match self.max {
            Some(mx) => cnt > mx,
            None => false,
        };
        if too_many {
            self.error = Some(String::from_str("Too many options selected"));
            return Step::Stay;
        }
        let mut out: Vec<OptionAnswer> = Vec::new();
        let mut i: usize = 0;
        while i < cnt
            invariant
                i <= cnt,
                cnt == idxs@.len(),
                self.wf(),
                idxs@.map_values(|u: usize| u as int) == filtered_idx(self.checked@),
                forall|j: int| 0 <= j < cnt ==> (#[trigger] idxs@[j]) < self.options@.len(),
                out@.len() == i,
                forall|j: int|
                    0 <= j < i ==> #[trigger] out@[j].model() == selection_of(self.model())[j],
            decreases cnt - i,
        {
            let vi = idxs[i];
            let value = self.options[vi].clone();
            let ghost prevout = out@;
            out.push(OptionAnswer { index: vi, value });
            i = i + 1;
            proof {
                assert(forall|j: int| 0 <= j < prevout.len() ==> out@[j] == prevout[j]);
                assert(idxs@.map_values(|u: usize| u as int)[i - 1] == idxs@[i - 1] as int);
                assert(filtered_idx(self.checked@)[i - 1] == vi as int);
                assert(out@[i - 1].model() == (OptionAnswerModel {
                    index: vi as int,
                    value: self.options@[vi as int]@,
                }));
                assert(self.model().opts[vi as int] == self.opt_chars@[vi as int]@);
                assert(selection_of(self.model())[i - 1] == (OptionAnswerModel {
                    index: vi as int,
                    value: self.model().opts[vi as int],
                }));
            }
        }
        proof {
            assert(out@.map_values(|o: OptionAnswer| o.model()) =~= selection_of(self.model()));
        }
        Step::Submit(Answer::MultiSelected(out))
    }

    /// The prompt's current frame.
    pub fn render_lines(&self, cfg: &RenderConfig) -> (r: Vec<Vec<StyledSpan>>)
        requires
            self.wf(),
        ensures
            r@.map_values(|l: Vec<StyledSpan>| line_model(l)) == multi_select_frame(
                self.model(),
                *cfg,
            ),
    {
        let mut r: Vec<Vec<StyledSpan>> = Vec::new();
        let mut header: Vec<StyledSpan> = Vec::new();
        header.push(StyledSpan { text: chars_of("? "), style: cfg.prompt_prefix });
        header.push(StyledSpan { text: copy_chars(&self.message), style: cfg.prompt });
        header.push(StyledSpan { text: chars_of(" "), style: cfg.prompt });
        header.push(StyledSpan { text: copy_chars(&self.filter), style: cfg.answer });
        proof {
            assert(line_model(header) =~= select_header(self.message@, self.filter@, *cfg));
        }
        r.push(header);
        let c = self.cursor;
        let p = self.page_size;
        let m = c % p;
        proof {
            assert(m <= c) by (nonlinear_arith)
                requires
                    p >= 1,
                    0 <= c,
                    m == c % p,
            ;
        }
        let start = c - m;
        proof {
            assert(start as int == ((c as int) / (p as int)) * (p as int)) by (nonlinear_arith)
                requires
                    p >= 1,
                    0 <= c,
                    start == c - m,
                    m == c % p,
            ;
            assert(start == page_start(self.model().cursor, self.model().page_size));
            assert(start <= self.cursor);
            assert(start <= self.view@.len());
        }
        let end = if self.page_size < self.view.len() - start {
            start + self.page_size
        } else {
            self.view.len()
        };
        let mut row: usize = start;
        while row < end
            invariant
                start <= row <= end,
                self.wf(),
                start == page_start(self.model().cursor, self.model().page_size),
                end == page_end(
                    self.model().cursor,
                    self.model().page_size,
                    view_of(self.model().opts, self.model().filter).len() as int,
                ),
                end <= self.view@.len(),
                r@.len() == 1 + row - start,
                line_model(r@[0]) == select_header(self.message@, self.filter@, *cfg),
                forall|j: int|
                    0 <= j < row - start ==> #[trigger] line_model(r@[1 + j])
                        == multi_select_rows(self.model(), *cfg)[j],
            decreases end - row,
        {
            let vi = self.view[row];
            let at_cursor = row == self.cursor;
            let style = if at_cursor {
                cfg.highlighted_option
            } else {
                cfg.option
            };
            let checked = self.checked[vi];
            let mut line: Vec<StyledSpan> = Vec::new();
            let marker = if at_cursor {
                chars_of("> ")
            } else {
                chars_of("  ")
            };
            line.push(StyledSpan { text: marker, style });
            let check_marker = if checked {
                chars_of("[x] ")
            } else {
                chars_of("[ ] ")
            };
            line.push(
                StyledSpan {
                    text: check_marker,
                    style: if checked {
                        cfg.selected_marker
                    } else {
                        style
                    },
                },
            );
            line.push(StyledSpan { text: copy_chars(&self.opt_chars[vi]), style });
            proof {
                let view = view_of(self.model().opts, self.model().filter);
                assert(view[row as int] == self.view@[row as int] as int);
                assert(line_model(line) =~= multi_row_line(
                    self.model().opts[view[row as int]],
                    row == self.model().cursor,
                    self.model().checked[view[row as int]],
                    *cfg,
                ));
                assert(multi_select_rows(self.model(), *cfg)[row - start] == multi_row_line(
                    self.model().opts[view[row as int]],
                    row == self.model().cursor,
                    self.model().checked[view[row as int]],
                    *cfg,
                ));
            }
            let ghost prev = r@;
            r.push(line);
            row = row + 1;
            proof {
                assert(r@ == prev.push(line));
                assert(forall|j: int| 0 <= j < prev.len() ==> r@[j] == prev[j]);
                assert(line_model(r@[1 + (row - 1 - start)]) == multi_select_rows(
                    self.model(),
                    *cfg,
                )[row - 1 - start]);
            }
        }
        proof {
            assert(multi_select_rows(self.model(), *cfg).len() == end - start);
        }
        match &self.error {
            Some(e) => {
                let line = crate::prompt::build_error_line(e, cfg);
                proof {
                    assert(line_model(line) == error_line(e@, *cfg));
                }
                r.push(line);
            },
            None => {},
        }
        proof {
            let frame = multi_select_frame(self.model(), *cfg);
            let rows = multi_select_rows(self.model(), *cfg);
            let hdr = select_header(self.message@, self.filter@, *cfg);
            let base = seq![hdr] + rows;
            assert(base.len() == 1 + (end - start));
            assert forall|j: int| 0 <= j < r@.len() implies #[trigger] line_model(r@[j])
                == frame[j] by {
                if j == 0 {
                } else if j < 1 + (end - start) {
                    assert(line_model(r@[1 + (j - 1)]) == rows[j - 1]);
                    assert(base[j] == rows[j - 1]);
                } else {
                }
            }
            assert(r@.map_values(|l: Vec<StyledSpan>| line_model(l)) =~~= frame);
        }
        r
    }
}

} // verus!
