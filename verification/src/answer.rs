use vstd::prelude::*;

use crate::dateselect::CalendarDate;

verus! {

/// A selectable option paired with its zero-based position in the original,
/// unfiltered option list, so that filtering and reordering never lose the
/// caller's ordering reference.
#[derive(Clone, Debug, PartialEq, Eq)]
pub struct OptionAnswer {
    pub index: usize,
    pub value: String,
}

/// The mathematical value of an [`OptionAnswer`].
pub struct OptionAnswerModel {
    pub index: int,
    pub value: Seq<char>,
}

impl OptionAnswer {
    /// The answer's mathematical value.
    pub open spec fn model(self) -> OptionAnswerModel {
        OptionAnswerModel { index: self.index as int, value: self.value@ }
    }

    /// Pairs a display value with its original position.
    pub fn new(index: usize, value: String) -> (r: OptionAnswer)
        ensures
            r.model() == (OptionAnswerModel { index: index as int, value: value@ }),
    {
        OptionAnswer { index, value }
    }
}

/// The typed answer a prompt run submits.
#[derive(Clone, Debug, PartialEq, Eq)]
pub enum Answer {
    /// Free text, from the text, password, and editor prompts.
    Text(String),
    /// A yes/no answer, from the confirm prompt.
    Confirmation(bool),
    /// A parsed integer, from the typed-value prompt.
    Int(i64),
    /// One chosen option, from the select prompt.
    Selected(OptionAnswer),
    /// The checked options in original-index order, from the multi-select
    /// prompt.
    MultiSelected(Vec<OptionAnswer>),
    /// A calendar date, from the date prompt.
    Date(CalendarDate),
}

/// The mathematical value of an [`Answer`].
pub enum AnswerModel {
    Text(Seq<char>),
    Confirmation(bool),
    Int(i64),
    Selected(OptionAnswerModel),
    MultiSelected(Seq<OptionAnswerModel>),
    Date(CalendarDate),
}

/// The answer's mathematical value.
pub open spec fn answer_model(a: Answer) -> AnswerModel {
    match a {
        Answer::Text(s) => AnswerModel::Text(s@),
        Answer::Confirmation(b) => AnswerModel::Confirmation(b),
        Answer::Int(n) => AnswerModel::Int(n),
        Answer::Selected(o) => AnswerModel::Selected(o.model()),
        Answer::MultiSelected(v) => AnswerModel::MultiSelected(
            v@.map_values(|o: OptionAnswer| o.model()),
        ),
        Answer::Date(d) => AnswerModel::Date(d),
    }
}

} // verus!
