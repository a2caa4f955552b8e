use vstd::prelude::*;

use crate::answer::{Answer, AnswerModel};
use crate::key::Key;
use crate::prompt::{
    err_model, input_frame, kind_step_rel, build_input_frame, PromptModel, Step, StepModel,
};
use crate::style::{line_model, RenderConfig, SpanModel, StyledSpan};
use crate::textutil::{chars_of, dec_str, fmt_u64};
use vstd::string::StringExecFns;

verus! {

/// Whether the year is a leap year of the Gregorian calendar.
pub open spec fn is_leap_year(y: int) -> bool {
    (y % 4 == 0 && y % 100 != 0) || y % 400 == 0
}

/// How many days the month of that year has.
pub open spec fn days_in_month(y: int, m: int) -> int {
    if m == 2 {
        if is_leap_year(y) {
            29
        } else {
            28
        }
    } else if m == 4 || m == 6 || m == 9 || m == 11 {
        30
    } else {
        31
    }
}

/// A calendar date, held as plain year, month and day numbers.
#[derive(Clone, Copy, PartialEq, Eq, Structural, Debug)]
pub struct CalendarDate {
    pub year: u16,
    pub month: u8,
    pub day: u8,
}

impl CalendarDate {
    /// A real date: the year in the supported range, the month one of the
    /// twelve, the day one the month has.
    pub open spec fn wf(self) -> bool {
        &&& 1 <= self.year <= 9999
        &&& 1 <= self.month <= 12
        &&& 1 <= self.day <= days_in_month(self.year as int, self.month as int)
    }

    /// Calendar order.
    pub open spec fn spec_le(self, o: CalendarDate) -> bool {
        if self.year != o.year {
            self.year < o.year
        } else if self.month != o.month {
            self.month < o.month
        } else {
            self.day <= o.day
        }
    }

    /// A date from plain numbers, when they name a real date.
    pub fn new(year: u16, month: u8, day: u8) -> (r: Option<CalendarDate>)
        ensures
            ({
                let d = CalendarDate { year, month, day };
                match r {
                    Some(v) => v == d && d.wf(),
                    None => !d.wf(),
                }
            }),
    {
        let d = CalendarDate { year, month, day };
        if 1 <= year && year <= 9999 && 1 <= month && month <= 12 && 1 <= day && day
            <= days_in_month_exec(year, month) {
            Some(d)
        } else {
            None
        }
    }

    /// Calendar order, executably.
    pub fn le(self, o: CalendarDate) -> (r: bool)
        ensures
            r == self.spec_le(o),
    {
        if self.year != o.year {
            self.year < o.year
        } else if self.month != o.month {
            self.month < o.month
        } else {
            self.day <= o.day
        }
    }
}

/// How many days the month of that year has.
pub fn days_in_month_exec(y: u16, m: u8) -> (r: u8)
    ensures
        r as int == days_in_month(y as int, m as int),
{
    if m == 2 {
        if (y % 4 == 0 && y % 100 != 0) || y % 400 == 0 {
            29
        } else {
            28
        }
    } else if m == 4 || m == 6 || m == 9 || m == 11 {
        30
    } else {
        31
    }
}

/// The next day, with month and year rollover; the last supported date is
/// its own successor.
pub open spec fn next_date(d: CalendarDate) -> CalendarDate {
    if d.day < days_in_month(d.year as int, d.month as int) {
        CalendarDate { day: (d.day + 1) as u8, ..d }
    } else if d.month < 12 {
        CalendarDate { month: (d.month + 1) as u8, day: 1, ..d }
    } else if d.year < 9999 {
        CalendarDate { year: (d.year + 1) as u16, month: 1, day: 1 }
    } else {
        d
    }
}

/// The previous day, with month and year rollover; the first supported
/// date is its own predecessor.
pub open spec fn prev_date(d: CalendarDate) -> CalendarDate {
    if d.day > 1 {
        CalendarDate { day: (d.day - 1) as u8, ..d }
    } else if d.month > 1 {
        CalendarDate {
            month: (d.month - 1) as u8,
            day: days_in_month(d.year as int, d.month - 1) as u8,
            ..d
        }
    } else if d.year > 1 {
        CalendarDate { year: (d.year - 1) as u16, month: 12, day: 31 }
    } else {
        d
    }
}

/// The date some days later.
pub open spec fn date_forward(d: CalendarDate, n: nat) -> CalendarDate
    decreases n,
{
    if n == 0 {
        d
    } else {
        date_forward(next_date(d), (n - 1) as nat)
    }
}

/// The date some days earlier.
pub open spec fn date_back(d: CalendarDate, n: nat) -> CalendarDate
    decreases n,
{
    if n == 0 {
        d
    } else {
        date_back(prev_date(d), (n - 1) as nat)
    }
}

/// The same day of the next month, clamped to that month's length; the
/// month after December is January of the next year.
pub open spec fn month_forward(d: CalendarDate) -> CalendarDate {
    if d.month < 12 {
        let m = (d.month + 1) as u8;
        let dim = days_in_month(d.year as int, m as int);
        CalendarDate {
            month: m,
            day: if d.day <= dim {
                d.day
            } else {
                dim as u8
            },
            ..d
        }
    } else if d.year < 9999 {
        CalendarDate { year: (d.year + 1) as u16, month: 1, ..d }
    } else {
        d
    }
}

/// The same day of the previous month, clamped to that month's length; the
/// month before January is December of the previous year.
pub open spec fn month_back(d: CalendarDate) -> CalendarDate {
    if d.month > 1 {
        let m = (d.month - 1) as u8;
        let dim = days_in_month(d.year as int, m as int);
        CalendarDate {
            month: m,
            day: if d.day <= dim {
                d.day
            } else {
                dim as u8
            },
            ..d
        }
    } else if d.year > 1 {
        CalendarDate { year: (d.year - 1) as u16, month: 12, ..d }
    } else {
        d
    }
}

/// Every navigation move lands on a real date again.
pub proof fn lemma_navigation_stays_wf(d: CalendarDate)
    requires
        d.wf(),
    ensures
        next_date(d).wf(),
        prev_date(d).wf(),
        month_forward(d).wf(),
        month_back(d).wf(),
{
}

/// The focused day as it is echoed on the prompt line.
pub open spec fn iso_date(d: CalendarDate) -> Seq<char> {
    dec_str(d.year as int) + seq!['-'] + two_digits(d.month as int) + seq!['-'] + two_digits(
        d.day as int,
    )
}

/// A day or month number padded to two digits.
pub open spec fn two_digits(n: int) -> Seq<char> {
    if n < 10 {
        seq!['0'] + dec_str(n)
    } else {
        dec_str(n)
    }
}

/// Writes a day or month number padded to two digits.
fn two_digits_exec(n: u8) -> (r: Vec<char>)
    ensures
        r@ == two_digits(n as int),
{
    let mut r: Vec<char> = Vec::new();
    if n < 10 {
        r.push('0');
    }
    let mut digits = fmt_u64(n as u64);
    r.append(&mut digits);
    proof {
        assert(r@ =~= two_digits(n as int));
    }
    r
}

/// The message reported when the focused date lies outside the configured
/// bounds.
pub open spec fn out_of_range_message() -> Seq<char> {
    "Date out of range"@
}

/// The state of a date prompt, as a mathematical value.
pub struct DateModel {
    pub message: Seq<char>,
    pub date: CalendarDate,
    pub min: Option<CalendarDate>,
    pub max: Option<CalendarDate>,
    pub error: Option<Seq<char>>,
}

/// Whether the focused date satisfies the configured bounds.
pub open spec fn date_in_range(m: DateModel) -> bool {
    &&& (m.min matches Some(lo) ==> lo.spec_le(m.date))
    &&& (m.max matches Some(hi) ==> m.date.spec_le(hi))
}

/// One step of the calendar state machine: Left and Right move the focus
/// by one day and Up and Down by one week, all with month rollover; page
/// keys move by one month, clamping the day; Enter submits the focused
/// date subject to the optional bounds.
pub open spec fn date_step(m: DateModel, k: Key) -> StepModel {
    match k {
        Key::Escape => StepModel::Quit,
        Key::Left => StepModel::Keep(
            PromptModel::Date(DateModel { date: prev_date(m.date), error: None, ..m }),
        ),
        Key::Right => StepModel::Keep(
            PromptModel::Date(DateModel { date: next_date(m.date), error: None, ..m }),
        ),
        Key::Up => StepModel::Keep(
            PromptModel::Date(DateModel { date: date_back(m.date, 7), error: None, ..m }),
        ),
        Key::Down => StepModel::Keep(
            PromptModel::Date(DateModel { date: date_forward(m.date, 7), error: None, ..m }),
        ),
        Key::PageUp => StepModel::Keep(
            PromptModel::Date(DateModel { date: month_back(m.date), error: None, ..m }),
        ),
        Key::PageDown => StepModel::Keep(
            PromptModel::Date(DateModel { date: month_forward(m.date), error: None, ..m }),
        ),
        Key::Enter => {
            if date_in_range(m) {
                StepModel::Submit(AnswerModel::Date(m.date))
            } else {
                StepModel::Keep(
                    PromptModel::Date(DateModel { error: Some(out_of_range_message()), ..m }),
                )
            }
        },
        _ => StepModel::Keep(PromptModel::Date(m)),
    }
}

/// The frame of a date prompt: the prompt line echoing the focused date,
/// and the error line exactly when a validation failure is pending.
pub open spec fn date_frame(m: DateModel, cfg: RenderConfig) -> Seq<Seq<SpanModel>> {
    input_frame(m.message, iso_date(m.date), m.error, cfg)
}

/// A calendar prompt: the focused date is moved by days, weeks and months,
/// and submitted subject to optional minimum and maximum dates.
pub struct DatePrompt {
    pub message: Vec<char>,
    pub date: CalendarDate,
    pub min: Option<CalendarDate>,
    pub max: Option<CalendarDate>,
    pub error: Option<String>,
}

impl DatePrompt {
    /// The prompt's state as a mathematical value.
    pub open spec fn model(self) -> DateModel {
        DateModel {
            message: self.message@,
            date: self.date,
            min: self.min,
            max: self.max,
            error: err_model(self.error),
        }
    }

    /// The focused date is always a real date.
    pub open spec fn wf(self) -> bool {
        self.date.wf()
    }

    /// A fresh date prompt focused on the given starting date.
    pub fn new(message: &str, start: CalendarDate) -> (r: DatePrompt)
        requires
            start.wf(),
        ensures
            r.wf(),
            r.model() == (DateModel {
                message: message@,
                date: start,
                min: None,
                max: None,
                error: None,
            }),
    {
        DatePrompt { message: chars_of(message), date: start, min: None, max: None, error: None }
    }

    /// The same prompt rejecting dates before the bound.
    pub fn with_min(self, min: CalendarDate) -> (r: DatePrompt)
        ensures
            r.model() == (DateModel { min: Some(min), ..self.model() }),
            r.wf() == self.wf(),
    {
        DatePrompt { min: Some(min), ..self }
    }

    /// The same prompt rejecting dates after the bound.
    pub fn with_max(self, max: CalendarDate) -> (r: DatePrompt)
        ensures
            r.model() == (DateModel { max: Some(max), ..self.model() }),
            r.wf() == self.wf(),
    {
        DatePrompt { max: Some(max), ..self }
    }

    /// One day forward.
    fn step_next(&mut self)
        requires
            old(self).date.wf(),
        ensures
            *final(self) == (DatePrompt { date: next_date(old(self).date), ..*old(self) }),
            final(self).date.wf(),
    {
        let d = self.date;
        if d.day < days_in_month_exec(d.year, d.month) {
            self.date = CalendarDate { day: d.day + 1, ..d };
        } else if d.month < 12 {
            self.date = CalendarDate { month: d.month + 1, day: 1, ..d };
        } else if d.year < 9999 {
            self.date = CalendarDate { year: d.year + 1, month: 1, day: 1 };
        }
    }

    /// One day back.
    fn step_prev(&mut self)
        requires
            old(self).date.wf(),
        ensures
            *final(self) == (DatePrompt { date: prev_date(old(self).date), ..*old(self) }),
            final(self).date.wf(),
    {
        let d = self.date;
        if d.day > 1 {
            self.date = CalendarDate { day: d.day - 1, ..d };
        } else if d.month > 1 {
            self.date = CalendarDate {
                month: d.month - 1,
                day: days_in_month_exec(d.year, d.month - 1),
                ..d
            };
        } else if d.year > 1 {
            self.date = CalendarDate { year: d.year - 1, month: 12, day: 31 };
        }
    }

    /// Applies one key, as `date_step` says.
    pub fn handle_key(&mut self, k: Key) -> (t: Step)
        requires
            old(self).wf(),
        ensures
            final(self).wf(),
            kind_step_rel(
                date_step(old(self).model(), k),
                PromptModel::Date(final(self).model()),
                t,
            ),
    {
        match k {
            Key::Escape => Step::Cancel,
            Key::Left => {
                self.step_prev();
                self.error = None;
                Step::Stay
            },
            Key::Right => {
                self.step_next();
                self.error = None;
                Step::Stay
            },
            Key::Up => {
                let mut i: usize = 0;
                while i < 7
                    invariant
                        i <= 7,
                        self.date.wf(),
                        self.date == date_back(old(self).date, i as nat),
                        self.message == old(self).message,
                        self.min == old(self).min,
                        self.max == old(self).max,
                        self.error == old(self).error,
                        old(self).date.wf(),
                    decreases 7 - i,
                {
                    proof {
                        lemma_date_back_unfolds(old(self).date, i as nat);
                    }
                    self.step_prev();
                    i = i + 1;
                }
                self.error = None;
                Step::Stay
            },
            Key::Down => {
                let mut i: usize = 0;
                while i < 7
                    invariant
                        i <= 7,
                        self.date.wf(),
                        self.date == date_forward(old(self).date, i as nat),
                        self.message == old(self).message,
                        self.min == old(self).min,
                        self.max == old(self).max,
                        self.error == old(self).error,
                        old(self).date.wf(),
                    decreases 7 - i,
                {
                    proof {
                        lemma_date_forward_unfolds(old(self).date, i as nat);
                    }
                    self.step_next();
                    i = i + 1;
                }
                self.error = None;
                Step::Stay
            },
            Key::PageUp => {
                let d = self.date;
                if d.month > 1 {
                    let m = d.month - 1;
                    let dim = days_in_month_exec(d.year, m);
                    self.date = CalendarDate {
                        month: m,
                        day: if d.day <= dim {
                            d.day
                        } else {
                            dim
                        },
                        ..d
                    };
                } else if d.year > 1 {
                    self.date = CalendarDate { year: d.year - 1, month: 12, ..d };
                }
                self.error = None;
                Step::Stay
            },
            Key::PageDown => {
                let d = self.date;
                if d.month < 12 {
                    let m = d.month + 1;
                    let dim = days_in_month_exec(d.year, m);
                    self.date = CalendarDate {
                        month: m,
                        day: if d.day <= dim {
                            d.day
                        } else {
                            dim
                        },
                        ..d
                    };
                } else if d.year < 9999 {
                    self.date = CalendarDate { year: d.year + 1, month: 1, ..d };
                }
                self.error = None;
                Step::Stay
            },
            Key::Enter => {
                let lo_ok = match self.min {
                    Some(lo) => lo.le(self.date),
                    None => true,
                };
                let hi_ok = match self.max {
                    Some(hi) => self.date.le(hi),
                    None => true,
                };
                if lo_ok && hi_ok {
                    Step::Submit(Answer::Date(self.date))
                } else {
                    self.error = Some(String::from_str("Date out of range"));
                    Step::Stay
                }
            },
            _ => Step::Stay,
        }
    }

    /// The prompt's current frame.
    pub fn render_lines(&self, cfg: &RenderConfig) -> (r: Vec<Vec<StyledSpan>>)
        requires
            self.wf(),
        ensures
            r@.map_values(|l: Vec<StyledSpan>| line_model(l)) == date_frame(self.model(), *cfg),
    {
        let mut shown = fmt_u64(self.date.year as u64);
        shown.push('-');
        let mut month = two_digits_exec(self.date.month);
        shown.append(&mut month);
        shown.push('-');
        let mut day = two_digits_exec(self.date.day);
        shown.append(&mut day);
        proof {
            assert(shown@ =~= iso_date(self.model().date));
        }
        build_input_frame(&self.message, shown, &self.error, cfg)
    }
}

/// Stepping back one more day steps back from the already-stepped date.
pub proof fn lemma_date_back_unfolds(d: CalendarDate, i: nat)
    ensures
        date_back(d, i + 1) == prev_date(date_back(d, i)),
    decreases i,
{
    if i == 0 {
        assert(date_back(d, 1) == date_back(prev_date(d), 0));
        assert(date_back(d, 0) == d);
    } else {
        lemma_date_back_unfolds(prev_date(d), (i - 1) as nat);
        assert(date_back(d, i + 1) == date_back(prev_date(d), i));
        assert(date_back(d, i) == date_back(prev_date(d), (i - 1) as nat));
    }
}

/// Stepping forward one more day steps forward from the already-stepped
/// date.
pub proof fn lemma_date_forward_unfolds(d: CalendarDate, i: nat)
    ensures
        date_forward(d, i + 1) == next_date(date_forward(d, i)),
    decreases i,
{
    if i == 0 {
        assert(date_forward(d, 1) == date_forward(next_date(d), 0));
        assert(date_forward(d, 0) == d);
    } else {
        lemma_date_forward_unfolds(next_date(d), (i - 1) as nat);
        assert(date_forward(d, i + 1) == date_forward(next_date(d), i));
        assert(date_forward(d, i) == date_forward(next_date(d), (i - 1) as nat));
    }
}

} // verus!
