use vstd::prelude::*;

use crate::answer::{Answer, AnswerModel, OptionAnswer, OptionAnswerModel};
use crate::error::PromptError;
use crate::key::Key;
use crate::prompt::{err_model, error_line, kind_step_rel, PromptModel, Step, StepModel};
use crate::style::{line_model, RenderConfig, SpanModel, StyledSpan};
use crate::textutil::{
    chars_of, contains_ci, contains_ci_exec, copy_chars, filtered_idx, filtered_indices,
    lemma_filtered_idx,
};
use vstd::string::StringExecFns;

verus! {

/// The filtered view of an option list: the positions of the options whose
/// display text matches the filter, in original order.
pub open spec fn view_of(opts: Seq<Seq<char>>, filter: Seq<char>) -> Seq<int> {
    filtered_idx(opts.map_values(|o: Seq<char>| contains_ci(o, filter)))
}

/// Where the cursor lands moving up one row: circular over the view.
pub open spec fn cursor_up(cursor: int, len: int) -> int {
    if len == 0 {
        cursor
    } else if cursor == 0 {
        len - 1
    } else {
        cursor - 1
    }
}

/// Where the cursor lands moving down one row: circular over the view.
pub open spec fn cursor_down(cursor: int, len: int) -> int {
    if len == 0 {
        cursor
    } else if cursor + 1 >= len {
        0
    } else {
        cursor + 1
    }
}

/// Where the cursor lands jumping a page up: clamped at the first row.
pub open spec fn cursor_page_up(cursor: int, page: int) -> int {
    if cursor >= page {
        cursor - page
    } else {
        0
    }
}

/// Where the cursor lands jumping a page down: clamped at the last row.
pub open spec fn cursor_page_down(cursor: int, page: int, len: int) -> int {
    if len == 0 {
        cursor
    } else if cursor + page < len {
        cursor + page
    } else {
        len - 1
    }
}

/// The message of the validation failure reported when submission is
/// attempted over an empty filtered view.
pub open spec fn no_options_message() -> Seq<char> {
    "No options available"@
}

/// The state of a select prompt, as a mathematical value.
pub struct SelectModel {
    pub message: Seq<char>,
    pub opts: Seq<Seq<char>>,
    pub filter: Seq<char>,
    pub cursor: int,
    pub page_size: int,
    pub error: Option<Seq<char>>,
}

/// One step of the select state machine: characters and Backspace edit the
/// filter and reset the cursor to the first visible row, arrows move the
/// cursor circularly over the filtered view, page keys jump by a page, and
/// Enter submits the option under the cursor — or reports a validation
/// failure when the filtered view is empty.
pub open spec fn select_step(m: SelectModel, k: Key) -> StepModel {
    let view = view_of(m.opts, m.filter);
    match k {
        Key::Escape => StepModel::Quit,
        Key::Up => StepModel::Keep(
            PromptModel::Select(
                SelectModel { cursor: cursor_up(m.cursor, view.len() as int), error: None, ..m },
            ),
        ),
        Key::Down => StepModel::Keep(
            PromptModel::Select(
                SelectModel { cursor: cursor_down(m.cursor, view.len() as int), error: None, ..m },
            ),
        ),
        Key::PageUp => StepModel::Keep(
            PromptModel::Select(
                SelectModel { cursor: cursor_page_up(m.cursor, m.page_size), error: None, ..m },
            ),
        ),
        Key::PageDown => StepModel::Keep(
            PromptModel::Select(
                SelectModel {
                    cursor: cursor_page_down(m.cursor, m.page_size, view.len() as int),
                    error: None,
                    ..m
                },
            ),
        ),
        Key::Char(c) => StepModel::Keep(
            PromptModel::Select(
                SelectModel { filter: m.filter.push(c), cursor: 0, error: None, ..m },
            ),
        ),
        Key::Backspace => StepModel::Keep(
            PromptModel::Select(
                SelectModel {
                    filter: if m.filter.len() > 0 {
                        m.filter.drop_last()
                    } else {
                        m.filter
                    },
                    cursor: 0,
                    error: None,
                    ..m
                },
            ),
        ),
        Key::Enter => {
            if view.len() > 0 {
                StepModel::Submit(
                    AnswerModel::Selected(
                        OptionAnswerModel { index: view[m.cursor], value: m.opts[view[m.cursor]] },
                    ),
                )
            } else {
                StepModel::Keep(
                    PromptModel::Select(SelectModel { error: Some(no_options_message()), ..m }),
                )
            }
        },
        _ => StepModel::Keep(PromptModel::Select(m)),
    }
}

/// The first row of the page window holding the cursor.
pub open spec fn page_start(cursor: int, page: int) -> int {
    (cursor / page) * page
}

/// One past the last row of the page window.
pub open spec fn page_end(cursor: int, page: int, len: int) -> int {
    if page_start(cursor, page) + page < len {
        page_start(cursor, page) + page
    } else {
        len
    }
}

/// One visible option row: a cursor marker and the display text, painted
/// with the highlighted style exactly at the cursor.
pub open spec fn row_line(text: Seq<char>, at_cursor: bool, cfg: RenderConfig) -> Seq<SpanModel> {
    let style = if at_cursor {
        cfg.highlighted_option
    } else {
        cfg.option
    };
    seq![
        SpanModel {
            text: if at_cursor {
                "> "@
            } else {
                "  "@
            },
            style,
        },
        SpanModel { text, style },
    ]
}

/// The header line: prefix, message, and the current filter text.
pub open spec fn select_header(
    message: Seq<char>,
    filter: Seq<char>,
    cfg: RenderConfig,
) -> Seq<SpanModel> {
    seq![
        SpanModel { text: "? "@, style: cfg.prompt_prefix },
        SpanModel { text: message, style: cfg.prompt },
        SpanModel { text: " "@, style: cfg.prompt },
        SpanModel { text: filter, style: cfg.answer },
    ]
}

/// The rows of the page window under the current cursor.
pub open spec fn select_rows(m: SelectModel, cfg: RenderConfig) -> Seq<Seq<SpanModel>> {
    let view = view_of(m.opts, m.filter);
    let start = page_start(m.cursor, m.page_size);
    let end = page_end(m.cursor, m.page_size, view.len() as int);
    Seq::new(
        (end - start) as nat,
        |r: int| row_line(m.opts[view[start + r]], start + r == m.cursor, cfg),
    )
}

/// The frame of a select prompt: header, the page of visible rows, and the
/// error line exactly when a validation failure is pending.
pub open spec fn select_frame(m: SelectModel, cfg: RenderConfig) -> Seq<Seq<SpanModel>> {
    let base = seq![select_header(m.message, m.filter, cfg)] + select_rows(m, cfg);
    match m.error {
        Some(e) => base.push(error_line(e, cfg)),
        None => base,
    }
}

/// Cursor navigation wraps at the filtered view's boundaries: Up from the
/// first visible row lands on the last row, and Down from the last lands on
/// the first.
pub proof fn lemma_cursor_wraps(m: SelectModel)
    requires
        view_of(m.opts, m.filter).len() > 0,
    ensures
        m.cursor == 0 ==> select_step(m, Key::Up) == StepModel::Keep(
            PromptModel::Select(
                SelectModel {
                    cursor: view_of(m.opts, m.filter).len() - 1,
                    error: None,
                    ..m
                },
            ),
        ),
        m.cursor == view_of(m.opts, m.filter).len() - 1 ==> select_step(m, Key::Down)
            == StepModel::Keep(
            PromptModel::Select(SelectModel { cursor: 0, error: None, ..m }),
        ),
{
}

/// A single-choice list prompt with fuzzy filtering and pagination.
pub struct SelectPrompt {
    pub message: Vec<char>,
    pub options: Vec<String>,
    pub opt_chars: Vec<Vec<char>>,
    pub filter: Vec<char>,
    pub view: Vec<usize>,
    pub cursor: usize,
    pub page_size: usize,
    pub error: Option<String>,
}

impl SelectPrompt {
    /// The option list as a mathematical value.
    pub open spec fn opts_model(self) -> Seq<Seq<char>> {
        self.opt_chars@.map_values(|v: Vec<char>| v@)
    }

    /// The prompt's state as a mathematical value.
    pub open spec fn model(self) -> SelectModel {
        SelectModel {
            message: self.message@,
            opts: self.opts_model(),
            filter: self.filter@,
            cursor: self.cursor as int,
            page_size: self.page_size as int,
            error: err_model(self.error),
        }
    }

    /// The prompt's internal invariant: the cached character lists mirror
    /// the option strings, the cached view is the filtered view of the
    /// current filter, its entries index the original list, and the cursor
    /// stands on a visible row whenever one exists.
    pub open spec fn wf(self) -> bool {
        &&& self.options@.len() == self.opt_chars@.len()
        &&& forall|i: int|
            0 <= i < self.options@.len() ==> (#[trigger] self.options@[i])@ == self.opt_chars@[i]@
        &&& self.view@.map_values(|u: usize| u as int) == view_of(self.opts_model(), self.filter@)
        &&& forall|i: int|
            0 <= i < self.view@.len() ==> (#[trigger] self.view@[i]) < self.options@.len()
        &&& if self.view@.len() == 0 {
            self.cursor == 0
        } else {
            self.cursor < self.view@.len()
        }
        &&& self.page_size >= 1
        &&& self.options@.len() >= 1
    }

    /// Recomputes the filtered view for the current filter text and resets
    /// the cursor to the first visible row.
    fn recompute_view(&mut self)
        requires
            old(self).options@.len() == old(self).opt_chars@.len(),
        ensures
            final(self).message == old(self).message,
            final(self).options == old(self).options,
            final(self).opt_chars == old(self).opt_chars,
            final(self).filter == old(self).filter,
            final(self).page_size == old(self).page_size,
            final(self).error == old(self).error,
            final(self).cursor == 0,
            final(self).view@.map_values(|u: usize| u as int) == view_of(
                final(self).opts_model(),
                final(self).filter@,
            ),
            forall|i: int|
                0 <= i < final(self).view@.len()
                    ==> (#[trigger] final(self).view@[i]) < final(self).options@.len(),
    {
        let n = self.opt_chars.len();
        let mut flags: Vec<bool> = Vec::new();
        let mut i: usize = 0;
        while i < n
            invariant
                i <= n,
                n == self.opt_chars@.len(),
                flags@.len() == i,
                forall|j: int|
                    0 <= j < i ==> flags@[j] == contains_ci(self.opt_chars@[j]@, self.filter@),
            decreases n - i,
        {
            let f = contains_ci_exec(&self.opt_chars[i], &self.filter);
            flags.push(f);
            i = i + 1;
        }
        proof {
            assert(flags@ =~= self.opts_model().map_values(
                |o: Seq<char>| contains_ci(o, self.filter@),
            ));
            lemma_filtered_idx(flags@);
        }
        let view = filtered_indices(&flags);
        self.view = view;
        self.cursor = 0;
        proof {
            let vm = self.view@.map_values(|u: usize| u as int);
            assert(vm == filtered_idx(flags@));
            assert forall|i: int|
                0 <= i < self.view@.len() implies (#[trigger] self.view@[i])
                < self.options@.len() by {
                assert(vm[i] == self.view@[i] as int);
                assert(0 <= filtered_idx(flags@)[i] < flags@.len());
            }
        }
    }

    /// A fresh select prompt over the given options, or a configuration
    /// error exactly when the option list is empty.  The page size starts
    /// at seven rows.
    pub fn new(message: &str, options: Vec<String>) -> (r: Result<SelectPrompt, PromptError>)
        ensures
            ({
                match r {
                    Ok(p) => p.wf() && options@.len() > 0 && p.model() == (SelectModel {
                        message: message@,
                        opts: options@.map_values(|s: String| s@),
                        filter: Seq::<char>::empty(),
                        cursor: 0,
                        page_size: 7,
                        error: None,
                    }),
                    Err(e) => e == PromptError::InvalidConfiguration && options@.len() == 0,
                }
            }),
    {
        if options.len() == 0 {
            return Err(PromptError::InvalidConfiguration);
        }
        let n = options.len();
        let mut opt_chars: Vec<Vec<char>> = Vec::new();
        let mut i: usize = 0;
        while i < n
            invariant
                i <= n,
                n == options@.len(),
                opt_chars@.len() == i,
                forall|j: int| 0 <= j < i ==> (#[trigger] opt_chars@[j])@ == options@[j]@,
            decreases n - i,
        {
            let cs = chars_of(options[i].as_str());
            opt_chars.push(cs);
            i = i + 1;
        }
        let mut p = SelectPrompt {
            message: chars_of(message),
            options,
            opt_chars,
            filter: Vec::new(),
            view: Vec::new(),
            cursor: 0,
            page_size: 7,
            error: None,
        };
        p.recompute_view();
        proof {
            assert(p.opts_model().map_values(
                |o: Seq<char>| contains_ci(o, p.filter@),
            ).len() == n);
            lemma_filtered_idx(p.opts_model().map_values(
                |o: Seq<char>| contains_ci(o, p.filter@),
            ));
            assert(p.model().opts =~~= options@.map_values(|s: String| s@));
        }
        Ok(p)
    }

    /// The same prompt with this page size.
    pub fn with_page_size(self, page_size: usize) -> (r: SelectPrompt)
        requires
            page_size >= 1,
            self.wf(),
        ensures
            r.wf(),
            r.model() == (SelectModel { page_size: page_size as int, ..self.model() }),
    {
        SelectPrompt { page_size, ..self }
    }

    /// Applies one key, as `select_step` says.
    pub fn handle_key(&mut self, k: Key) -> (t: Step)
        requires
            old(self).wf(),
        ensures
            final(self).wf(),
            kind_step_rel(
                select_step(old(self).model(), k),
                PromptModel::Select(final(self).model()),
                t,
            ),
    {
        match k {
            Key::Escape => Step::Cancel,
            Key::Up => {
                if self.view.len() > 0 {
                    self.cursor = if self.cursor == 0 {
                        self.view.len() - 1
                    } else {
                        self.cursor - 1
                    };
                }
                self.error = None;
                Step::Stay
            },
            Key::Down => {
                if self.view.len() > 0 {
                    self.cursor = if self.cursor + 1 >= self.view.len() {
                        0
                    } else {
                        self.cursor + 1
                    };
                }
                self.error = None;
                Step::Stay
            },
            Key::PageUp => {
                self.cursor = if self.cursor >= self.page_size {
                    self.cursor - self.page_size
                } else {
                    0
                };
                self.error = None;
                Step::Stay
            },
            Key::PageDown => {
                if self.view.len() > 0 {
                    self.cursor = if self.page_size < self.view.len() - self.cursor {
                        self.cursor + self.page_size
                    } else {
                        self.view.len() - 1
                    };
                }
                self.error = None;
                Step::Stay
            },
            Key::Char(c) => {
                self.filter.push(c);
                self.recompute_view();
                self.error = None;
                Step::Stay
            },
            Key::Backspace => {
                if self.filter.len() > 0 {
                    self.filter.pop();
                }
                self.recompute_view();
                self.error = None;
                Step::Stay
            },
            Key::Enter => {
                if self.view.len() > 0 {
                    let vi = self.view[self.cursor];
                    let value = self.options[vi].clone();
                    Step::Submit(Answer::Selected(OptionAnswer { index: vi, value }))
                } else {
                    self.error = Some(String::from_str("No options available"));
                    Step::Stay
                }
            },
            _ => Step::Stay,
        }
    }

    /// The prompt's current frame.
    pub fn render_lines(&self, cfg: &RenderConfig) -> (r: Vec<Vec<StyledSpan>>)
        requires
            self.wf(),
        ensures
            r@.map_values(|l: Vec<StyledSpan>| line_model(l)) == select_frame(self.model(), *cfg),
    {
        let mut r: Vec<Vec<StyledSpan>> = Vec::new();
        let mut header: Vec<StyledSpan> = Vec::new();
        header.push(StyledSpan { text: chars_of("? "), style: cfg.prompt_prefix });
        header.push(StyledSpan { text: copy_chars(&self.message), style: cfg.prompt });
        header.push(StyledSpan { text: chars_of(" "), style: cfg.prompt });
        header.push(StyledSpan { text: copy_chars(&self.filter), style: cfg.answer });
        proof {
            assert(line_model(header) =~= select_header(self.message@, self.filter@, *cfg));
        }
        r.push(header);
        let c = self.cursor;
        let p = self.page_size;
        let m = c % p;
        proof {
            assert(m <= c) by (nonlinear_arith)
                requires
                    p >= 1,
                    0 <= c,
                    m == c % p,
            ;
        }
        let start = c - m;
        proof {
            assert(start as int == ((c as int) / (p as int)) * (p as int)) by (nonlinear_arith)
                requires
                    p >= 1,
                    0 <= c,
                    start == c - m,
                    m == c % p,
            ;
            assert(start == page_start(self.model().cursor, self.model().page_size));
            assert(start <= self.cursor);
            assert(start <= self.view@.len());
        }
        let end = if self.page_size < self.view.len() - start {
            start + self.page_size
        } else {
            self.view.len()
        };
        let mut row: usize = start;
        while row < end
            invariant
                start <= row <= end,
                self.wf(),
                start == page_start(self.model().cursor, self.model().page_size),
                end == page_end(
                    self.model().cursor,
                    self.model().page_size,
                    view_of(self.model().opts, self.model().filter).len() as int,
                ),
                end <= self.view@.len(),
                r@.len() == 1 + row - start,
                line_model(r@[0]) == select_header(self.message@, self.filter@, *cfg),
                forall|j: int|
                    0 <= j < row - start ==> #[trigger] line_model(r@[1 + j]) == select_rows(
                        self.model(),
                        *cfg,
                    )[j],
            decreases end - row,
        {
            let vi = self.view[row];
            let at_cursor = row == self.cursor;
            let style = if at_cursor {
                cfg.highlighted_option
            } else {
                cfg.option
            };
            let mut line: Vec<StyledSpan> = Vec::new();
            let marker = if at_cursor {
                chars_of("> ")
            } else {
                chars_of("  ")
            };
            line.push(StyledSpan { text: marker, style });
            line.push(StyledSpan { text: copy_chars(&self.opt_chars[vi]), style });
            proof {
                let view = view_of(self.model().opts, self.model().filter);
                assert(view[row as int] == self.view@[row as int] as int);
                assert(line_model(line) =~= row_line(
                    self.model().opts[view[row as int]],
                    row == self.model().cursor,
                    *cfg,
                ));
                assert(select_rows(self.model(), *cfg)[row - start] == row_line(
                    self.model().opts[view[row as int]],
                    row == self.model().cursor,
                    *cfg,
                ));
            }
            let ghost prev = r@;
            r.push(line);
            row = row + 1;
            proof {
                assert(r@ == prev.push(line));
                assert(forall|j: int| 0 <= j < prev.len() ==> r@[j] == prev[j]);
                assert(line_model(r@[1 + (row - 1 - start)]) == select_rows(
                    self.model(),
                    *cfg,
                )[row - 1 - start]);
            }
        }
        proof {
            assert(select_rows(self.model(), *cfg).len() == end - start);
        }
        match &self.error {
            Some(e) => {
                let line = crate::prompt::build_error_line(e, cfg);
                proof {
                    assert(line_model(line) == error_line(e@, *cfg));
                }
                r.push(line);
            },
            None => {},
        }
        proof {
            let frame = select_frame(self.model(), *cfg);
            let rows = select_rows(self.model(), *cfg);
            let hdr = select_header(self.message@, self.filter@, *cfg);
            let base = seq![hdr] + rows;
            assert(base.len() == 1 + (end - start));
            assert forall|j: int| 0 <= j < r@.len() implies #[trigger] line_model(r@[j])
                == frame[j] by {
                if j == 0 {
                } else if j < 1 + (end - start) {
                    assert(line_model(r@[1 + (j - 1)]) == rows[j - 1]);
                    assert(base[j] == rows[j - 1]);
                } else {
                }
            }
            assert(r@.map_values(|l: Vec<StyledSpan>| line_model(l)) =~~= frame);
        }
        r
    }
}

} // verus!
