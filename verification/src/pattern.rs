//! Regular expressions, matched by the `regex` crate.
//!
//! What a pattern matches is not defined here: it is whatever the `regex`
//! crate computes. The library only names that result, so that the contracts
//! of the parsers can say what they do with it.

use vstd::prelude::*;
use vstd::string::StringExecFns;

verus! {

/// Recognises the header of a trace.
pub const TRACE_HEADER: &'static str = r"\[.+\s+TRACE\s+.+BPF Program Instruction Trace";

/// Recognises an instruction record of a trace; captures its program counter
/// and its text.
pub const TRACE_INSTRUCTION: &'static str = r"\d+\s+\[.+\]\s+(\d+):\s+(.+)";

/// Recognises the label of a basic block in a dump; captures its name.
pub const DUMP_BLOCK: &'static str = r"^[[:xdigit:]]+\s+<(LBB.+)>";

/// Recognises the label of a function in a dump; captures its name.
pub const DUMP_FUNCTION: &'static str = r"^[[:xdigit:]]+\s+<(.+)>";

/// Recognises an instruction of a dump; captures its program counter, the
/// last byte of its encoding and its text.
pub const DUMP_INSTRUCTION: &'static str = r"^\s+(\d+)(\s+[[:xdigit:]]{2})+\s+(.+)";

/// The texts of the capture groups of one match: group 0 is the whole match,
/// and a group that took no part in the match is `None`.
pub type Groups = Vec<Option<String>>;

/// Says that a pattern was not accepted as a regular expression.
#[derive(Debug, Clone, Copy, PartialEq, Eq)]
pub struct InvalidPattern;

/// Whether `regex::Regex::new` accepts `pattern`.
pub uninterp spec fn regex_compiles(pattern: Seq<char>) -> bool;

/// What `regex::Regex::captures` finds for `pattern` in `haystack`: nothing,
/// or the texts of the capture groups of the leftmost match.
pub uninterp spec fn regex_captures(pattern: Seq<char>, haystack: Seq<char>) -> Option<
    Seq<Option<Seq<char>>>,
>;

/// How many lines are searched with one compilation of a pattern.
pub const BLOCK: usize = 4096;

/// Compiles `pattern` with `regex::Regex::new` and searches each of the
/// texts `haystacks[from..to]` with `regex::Regex::captures`.
///
/// Trusted: the compilation succeeds exactly when `regex_compiles` says so,
/// and what is handed back for each text, the groups copied out of the match
/// one by one, is what `regex_captures` names for the pattern and that text.
/// Both depend on the pattern and the text alone.
#[verifier::external_body]
pub(crate) fn captures_each(pattern: &str, haystacks: &Vec<String>, from: usize, to: usize) -> (r:
    Result<Vec<Option<Groups>>, InvalidPattern>)
    requires
        from <= to <= haystacks.len(),
    ensures
        r is Ok <==> regex_compiles(pattern@),
        r is Ok ==> r->Ok_0.len() == to - from,
        r is Ok ==> forall|i: int|
            0 <= i < to - from ==> (#[trigger] r->Ok_0[i]).deep_view() == regex_captures(
                pattern@,
                haystacks[from + i]@,
            ),
{
    let re = match regex::Regex::new(pattern) {
        Ok(re) => re,
        Err(_) => return Err(InvalidPattern),
    };
    let mut all = Vec::new();
    for haystack in &haystacks[from..to] {
        let found = re.captures(haystack);
        all.push(found.map(|c| c.iter().map(|m| m.map(|m| m.as_str().to_string())).collect()));
    }
    Ok(all)
}

/// Searches `haystack` for the pattern `pattern`.
pub fn captures(pattern: &str, haystack: &str) -> (r: Result<Option<Groups>, InvalidPattern>)
    ensures
        r is Ok <==> regex_compiles(pattern@),
        r is Ok ==> r->Ok_0.deep_view() == regex_captures(pattern@, haystack@),
{
    let mut one: Vec<String> = Vec::new();
    one.push(String::from_str(haystack));
    match captures_each(pattern, &one, 0, 1) {
        Err(e) => Err(e),
        Ok(all) => {
            let mut all = all;
            Ok(all.pop().unwrap())
        },
    }
}

/// The end of the block of lines that begins at `from`, among `count` lines.
pub fn block_end(from: usize, count: usize) -> (to: usize)
    requires
        from < count,
    ensures
        from < to <= count,
        to - from <= BLOCK,
{
    if count - from > BLOCK {
        from + BLOCK
    } else {
        count
    }
}

} // verus!
