use vstd::prelude::*;
use vstd::string::StrSliceExecFns;

verus! {

/// The characters of a string slice, in order.
pub fn chars_of(s: &str) -> (r: Vec<char>)
    ensures
        r@ == s@,
{
    let n = s.unicode_len();
    let mut r: Vec<char> = Vec::new();
    let mut i: usize = 0;
    while i < n
        invariant
            i <= n,
            n == s@.len(),
            r@ == s@.take(i as int),
        decreases n - i,
    {
        let c = s.get_char(i);
        r.push(c);
        i = i + 1;
        proof {
            assert(r@ =~= s@.take(i as int));
        }
    }
    proof {
        assert(s@.take(n as int) =~= s@);
    }
    r
}

/// A fresh vector with the same characters.
pub fn copy_chars(v: &Vec<char>) -> (r: Vec<char>)
    ensures
        r@ == v@,
{
    let mut r: Vec<char> = Vec::new();
    let mut i: usize = 0;
    while i < v.len()
        invariant
            i <= v@.len(),
            r@ == v@.take(i as int),
        decreases v@.len() - i,
    {
        r.push(v[i]);
        i = i + 1;
        proof {
            assert(r@ =~= v@.take(i as int));
        }
    }
    proof {
        assert(v@.take(v@.len() as int) =~= v@);
    }
    r
}

/// Relies on `alloc::string::String`'s `FromIterator<char>`: collecting
/// characters yields the string of exactly those characters in order.
#[verifier::external_body]
pub fn string_of(chars: &Vec<char>) -> (r: String)
    ensures
        r@ == chars@,
{
    chars.iter().collect()
}

/// The code point of an upper-case ASCII letter folded to lower case;
/// any other code point is left alone.
pub open spec fn fold_code(u: u32) -> u32 {
    if 65 <= u && u <= 90 {
        (u + 32) as u32
    } else {
        u
    }
}

/// Case-insensitive character equality: equal up to ASCII case folding.
pub open spec fn chars_eq_ci(a: char, b: char) -> bool {
    fold_code(a as u32) == fold_code(b as u32)
}

/// Executable ASCII-case-insensitive character comparison.
pub fn char_eq_ci(a: char, b: char) -> (r: bool)
    ensures
        r == chars_eq_ci(a, b),
{
    let ua = a as u32;
    let ub = b as u32;
    let fa: u32 = if 65 <= ua && ua <= 90 {
        ua + 32
    } else {
        ua
    };
    let fb: u32 = if 65 <= ub && ub <= 90 {
        ub + 32
    } else {
        ub
    };
    fa == fb
}

/// The needle occurs in the haystack starting at position `at`,
/// compared case-insensitively.
pub open spec fn matches_at(hay: Seq<char>, needle: Seq<char>, at: int) -> bool {
    forall|j: int| 0 <= j < needle.len() ==> chars_eq_ci(hay[at + j], needle[j])
}

/// The needle occurs somewhere in the haystack, compared case-insensitively.
/// An empty needle occurs in every haystack.
pub open spec fn contains_ci(hay: Seq<char>, needle: Seq<char>) -> bool {
    exists|at: int| 0 <= at <= hay.len() - needle.len() && matches_at(hay, needle, at)
}

/// Whether the needle occurs at position `at` of the haystack.
fn matches_at_exec(hay: &Vec<char>, needle: &Vec<char>, at: usize) -> (r: bool)
    requires
        at + needle@.len() <= hay@.len(),
    ensures
        r == matches_at(hay@, needle@, at as int),
{
    let hl = hay.len();
    let nl = needle.len();
    let mut j: usize = 0;
    while j < nl
        invariant
            j <= nl,
            nl == needle@.len(),
            hl == hay@.len(),
            at + needle@.len() <= hay@.len(),
            forall|k: int| 0 <= k < j ==> chars_eq_ci(hay@[at + k], needle@[k]),
        decreases nl - j,
    {
        if !char_eq_ci(hay[at + j], needle[j]) {
            return false;
        }
        j = j + 1;
    }
    true
}

/// The default filter predicate of the list prompts: a case-insensitive
/// substring match of the filter text over the option's display text.
pub fn contains_ci_exec(hay: &Vec<char>, needle: &Vec<char>) -> (r: bool)
    ensures
        r == contains_ci(hay@, needle@),
{
    if needle.len() > hay.len() {
        return false;
    }
    if needle.len() == 0 {
        proof {
            assert(matches_at(hay@, needle@, 0));
        }
        return true;
    }
    let last = hay.len() - needle.len();
    let mut at: usize = 0;
    loop
        invariant
            at <= last + 1,
            last < usize::MAX,
            last == hay@.len() - needle@.len(),
            forall|k: int| 0 <= k < at ==> !matches_at(hay@, needle@, k),
        decreases last + 1 - at,
    {
        if at > last {
            return false;
        }
        if matches_at_exec(hay, needle, at) {
            return true;
        }
        at = at + 1;
    }
}

/// The positions whose flag is set, in increasing order: the mathematical
/// filtered view of an option list, over an arbitrary match predicate's
/// outcomes.
pub open spec fn filtered_idx(flags: Seq<bool>) -> Seq<int>
    decreases flags.len(),
{
    if flags.len() == 0 {
        Seq::empty()
    } else {
        let prefix = filtered_idx(flags.drop_last());
        if flags.last() {
            prefix.push(flags.len() - 1)
        } else {
            prefix
        }
    }
}

/// The filtered view keeps the original order: its entries are exactly the
/// set positions, and they are strictly increasing, whatever the predicate
/// that produced the flags was.
pub proof fn lemma_filtered_idx(flags: Seq<bool>)
    ensures
        forall|a: int, b: int|
            0 <= a < b < filtered_idx(flags).len() ==> filtered_idx(flags)[a] < filtered_idx(
                flags,
            )[b],
        forall|a: int|
            0 <= a < filtered_idx(flags).len() ==> 0 <= #[trigger] filtered_idx(flags)[a]
                < flags.len() && flags[filtered_idx(flags)[a]],
        forall|i: int| 0 <= i < flags.len() && flags[i] ==> filtered_idx(flags).contains(i),
        filtered_idx(flags).len() <= flags.len(),
    decreases flags.len(),
{
    if flags.len() > 0 {
        let prefix = filtered_idx(flags.drop_last());
        lemma_filtered_idx(flags.drop_last());
        assert forall|i: int| 0 <= i < flags.len() && flags[i] implies filtered_idx(
            flags,
        ).contains(i) by {
            if i < flags.len() - 1 {
                assert(flags.drop_last()[i] == flags[i]);
                assert(prefix.contains(i));
                let a = choose|a: int| 0 <= a < prefix.len() && prefix[a] == i;
                assert(filtered_idx(flags)[a] == i);
            } else {
                assert(flags.last());
                assert(filtered_idx(flags).last() == i);
            }
        }
    }
}

/// The positions whose flag is set, in increasing order.
pub fn filtered_indices(flags: &Vec<bool>) -> (r: Vec<usize>)
    ensures
        r@.map_values(|u: usize| u as int) == filtered_idx(flags@),
{
    let mut r: Vec<usize> = Vec::new();
    let mut i: usize = 0;
    while i < flags.len()
        invariant
            i <= flags@.len(),
            r@.map_values(|u: usize| u as int) == filtered_idx(flags@.take(i as int)),
        decreases flags@.len() - i,
    {
        if flags[i] {
            r.push(i);
        }
        i = i + 1;
        proof {
            let t = flags@.take(i as int);
            assert(t.drop_last() =~= flags@.take(i - 1));
            assert(t.last() == flags@[i - 1]);
            if flags@[i - 1] {
                assert(r@.map_values(|u: usize| u as int) =~= filtered_idx(
                    flags@.take(i - 1),
                ).push(i - 1));
            }
        }
    }
    proof {
        assert(flags@.take(flags@.len() as int) =~= flags@);
    }
    r
}

/// The decimal digit character for a value below ten.
pub open spec fn digit_char(d: int) -> char {
    ((d + 48) as u8) as char
}

/// The decimal notation of a number, most significant digit first.
pub open spec fn dec_str(n: int) -> Seq<char>
    decreases n,
{
    if n < 10 {
        seq![digit_char(n)]
    } else {
        dec_str(n / 10).push(digit_char(n % 10))
    }
}

/// Writes a number in decimal notation.
pub fn fmt_u64(n: u64) -> (r: Vec<char>)
    ensures
        r@ == dec_str(n as int),
    decreases n,
{
    if n < 10 {
        let mut v: Vec<char> = Vec::new();
        let d = (n as u8) + 48;
        v.push(d as char);
        proof {
            assert(v@ =~= seq![digit_char(n as int)]);
        }
        v
    } else {
        let mut r = fmt_u64(n / 10);
        let d = ((n % 10) as u8) + 48;
        r.push(d as char);
        proof {
            assert((((n % 10) as u8) + 48) as u8 as char == digit_char((n as int) % 10));
        }
        r
    }
}

} // verus!
