use vstd::prelude::*;

use crate::error::PromptError;
use crate::select::{SelectModel, SelectPrompt};

verus! {

/// An action menu: a short fixed menu of labels presented through the
/// select machinery, without filtering pressure or pagination — the page
/// holds the whole menu — whose answer is which label was chosen, with its
/// position.
pub fn action_menu(message: &str, labels: Vec<String>) -> (r: Result<SelectPrompt, PromptError>)
    ensures
        ({
            match r {
                Ok(p) => p.wf() && labels@.len() > 0 && p.model() == (SelectModel {
                    message: message@,
                    opts: labels@.map_values(|s: String| s@),
                    filter: Seq::<char>::empty(),
                    cursor: 0,
                    page_size: labels@.len() as int,
                    error: None,
                }),
                Err(e) => e == PromptError::InvalidConfiguration && labels@.len() == 0,
            }
        }),
{
    let n = labels.len();
    let p = SelectPrompt::new(message, labels)?;
    Ok(p.with_page_size(n))
}

} // verus!
