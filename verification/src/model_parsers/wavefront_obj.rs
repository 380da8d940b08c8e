//! Lexing for the Wavefront OBJ mesh format.

use vstd::prelude::*;

verus! {

/// Reader for the Wavefront OBJ mesh format; the free lexing functions of
/// this module are its pieces.
pub struct WavefrontObjInterpreter {}

/// The characters the lexer treats as in-line whitespace.
pub open spec fn is_obj_whitespace(c: char) -> bool {
    c == ' ' || c == '\t'
}

/// Length of the longest whitespace prefix of `s`.
pub open spec fn whitespace_run(s: Seq<char>) -> nat
    decreases s.len(),
{
    if s.len() > 0 && is_obj_whitespace(s[0]) {
        (1 + whitespace_run(s.skip(1))) as nat
    } else {
        0
    }
}

proof fn lemma_whitespace_run_from_scan(s: Seq<char>, k: int)
    requires
        0 <= k <= s.len(),
        forall|i: int| 0 <= i < k ==> is_obj_whitespace(#[trigger] s[i]),
        k == s.len() || !is_obj_whitespace(s[k]),
    ensures
        whitespace_run(s) == k,
    decreases k,
{
    if k == 0 {
    } else {
        assert(is_obj_whitespace(s[0]));
        assert(forall|i: int| 0 <= i < k - 1 ==> #[trigger] s.skip(1)[i] == s[i + 1]);
        lemma_whitespace_run_from_scan(s.skip(1), k - 1);
    }
}

fn obj_whitespace_at(data: &str, i: usize) -> (b: bool)
    requires
        i < data@.len(),
    ensures
        b == is_obj_whitespace(data@[i as int]),
{
    let c = data.get_char(i);
    c == ' ' || c == '\t'
}

/// Drop the longest run of leading spaces and tabs from `data` and hand the
/// rest back.
pub fn lex_whitespace(data: &str) -> (rest: &str)
    ensures
        rest@ == data@.skip(whitespace_run(data@) as int),
{
    let len = data.unicode_len();
    let mut loc: usize = 0;
    while loc < len && obj_whitespace_at(data, loc)
        invariant
            loc <= len,
            len == data@.len(),
            forall|i: int| 0 <= i < loc ==> is_obj_whitespace(#[trigger] data@[i]),
        decreases len - loc,
    {
        loc = loc + 1;
    }
    proof {
        lemma_whitespace_run_from_scan(data@, loc as int);
        assert(data@.skip(loc as int) =~= data@.subrange(loc as int, len as int));
    }
    data.substring_char(loc, len)
}

} // verus!
