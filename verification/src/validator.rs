use vstd::prelude::*;

verus! {

/// What compiling a pattern with `regex::Regex::new` and matching a text
/// with `regex::Regex::is_match` yields: `None` when the pattern is rejected,
/// `Some(m)` when it compiles and `m` says whether the text matches.  Both
/// outcomes depend on the pattern and the text alone.
pub uninterp spec fn regex_verdict(pattern: Seq<char>, text: Seq<char>) -> Option<bool>;

/// Relies on `regex::Regex::new` (whether a pattern compiles depends on the
/// pattern alone) and `regex::Regex::is_match` (whether a compiled pattern
/// matches depends on the pattern and the text alone); the combined outcome
/// is named `regex_verdict`.
#[verifier::external_body]
fn regex_check(pattern: &String, text: &Vec<char>) -> (r: Option<bool>)
    ensures
        r == regex_verdict(pattern@, text@),
{
    let t: String = text.iter().collect();
    match regex::Regex::new(pattern.as_str()) {
        Ok(re) => Some(re.is_match(&t)),
        Err(_) => None,
    }
}

/// One check of a candidate answer, paired with the message shown when it
/// fails.  These are the built-in predicates; a chain of them is evaluated
/// in order and the first failure short-circuits.
#[derive(Clone, Debug)]
pub enum Validator {
    /// Fails on an empty answer.
    Required(String),
    /// Fails when the answer is shorter than the bound.
    MinLength(usize, String),
    /// Fails when the answer is longer than the bound.
    MaxLength(usize, String),
    /// Fails when the answer's length differs from the bound.
    ExactLength(usize, String),
    /// Fails unless the pattern compiles and matches the answer.
    Pattern(String, String),
}

/// Whether one validator accepts the input.
pub open spec fn passes(v: Validator, input: Seq<char>) -> bool {
    match v {
        Validator::Required(_) => input.len() > 0,
        Validator::MinLength(n, _) => input.len() >= n,
        Validator::MaxLength(n, _) => input.len() <= n,
        Validator::ExactLength(n, _) => input.len() == n,
        Validator::Pattern(p, _) => regex_verdict(p@, input) == Some(true),
    }
}

/// The message a validator reports when it fails.
pub open spec fn message_of(v: Validator) -> Seq<char> {
    match v {
        Validator::Required(m) => m@,
        Validator::MinLength(_, m) => m@,
        Validator::MaxLength(_, m) => m@,
        Validator::ExactLength(_, m) => m@,
        Validator::Pattern(_, m) => m@,
    }
}

/// The verdict of a validator chain: the message of the first validator that
/// fails, in order, or `None` when every one passes.  An empty chain always
/// passes.
pub open spec fn chain_verdict(vs: Seq<Validator>, input: Seq<char>) -> Option<Seq<char>>
    decreases vs.len(),
{
    if vs.len() == 0 {
        None
    } else if !passes(vs[0], input) {
        Some(message_of(vs[0]))
    } else {
        chain_verdict(vs.skip(1), input)
    }
}

/// Checks one validator against the input.
fn check_one(v: &Validator, input: &Vec<char>) -> (r: Option<String>)
    ensures
        ({
            match r {
                Some(m) => !passes(*v, input@) && m@ == message_of(*v),
                None => passes(*v, input@),
            }
        }),
{
    match v {
        Validator::Required(m) => {
            if input.len() == 0 {
                Some(m.clone())
            } else {
                None
            }
        },
        Validator::MinLength(n, m) => {
            if input.len() < *n {
                Some(m.clone())
            } else {
                None
            }
        },
        Validator::MaxLength(n, m) => {
            if input.len() > *n {
                Some(m.clone())
            } else {
                None
            }
        },
        Validator::ExactLength(n, m) => {
            if input.len() != *n {
                Some(m.clone())
            } else {
                None
            }
        },
        Validator::Pattern(p, m) => {
            match regex_check(p, input) {
                Some(true) => None,
                _ => Some(m.clone()),
            }
        },
    }
}

/// Evaluates the chain in order; the first failure short-circuits and its
/// message is returned.
pub fn validate_chain(vs: &Vec<Validator>, input: &Vec<char>) -> (r: Option<String>)
    ensures
        ({
            let cv = chain_verdict(vs@, input@);
            match r {
                Some(m) => cv == Some(m@),
                None => cv is None,
            }
        }),
{
    let mut i: usize = 0;
    proof {
        assert(vs@.skip(0) =~= vs@);
    }
    while i < vs.len()
        invariant
            i <= vs@.len(),
            chain_verdict(vs@, input@) == chain_verdict(vs@.skip(i as int), input@),
        decreases vs@.len() - i,
    {
        proof {
            assert(vs@.skip(i as int)[0] == vs@[i as int]);
            assert(vs@.skip(i as int).skip(1) =~= vs@.skip(i + 1));
        }
        match check_one(&vs[i], input) {
            Some(m) => {
                return Some(m);
            },
            None => {
                i = i + 1;
            },
        }
    }
    None
}

/// The order of a validator chain decides which message is shown: with two
/// validators, a failure of the first hides the second; the second's message
/// is shown only when the first passes; and the empty chain always allows
/// submission.
pub proof fn lemma_chain_order(a: Validator, b: Validator, input: Seq<char>)
    ensures
        !passes(a, input) ==> chain_verdict(seq![a, b], input) == Some(message_of(a)),
        passes(a, input) && !passes(b, input) ==> chain_verdict(seq![a, b], input) == Some(
            message_of(b),
        ),
        passes(a, input) && passes(b, input) ==> chain_verdict(seq![a, b], input) is None,
        chain_verdict(Seq::<Validator>::empty(), input) is None,
{
    let vs = seq![a, b];
    assert(vs.skip(1) =~= seq![b]);
    assert(seq![b].skip(1) =~= Seq::<Validator>::empty());
    assert(vs[0] == a);
    assert(seq![b][0] == b);
    assert(chain_verdict(Seq::<Validator>::empty(), input) is None);
    if passes(a, input) {
        assert(chain_verdict(vs, input) == chain_verdict(seq![b], input));
        if passes(b, input) {
            assert(chain_verdict(seq![b], input) == chain_verdict(
                Seq::<Validator>::empty(),
                input,
            ));
        }
    }
}

} // verus!
