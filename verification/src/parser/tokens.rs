//! Looking at and taking the tokens that a parser expects.
use vstd::prelude::*;
use crate::lexer::token::{tkn_eq, Tkn, TknType, TknView, TokenType, TokenView};

verus! {

/// Whether the token at `i` matches `expected` (see [`tkn_eq`]); `false`
/// past the end.
pub open spec fn token_at_matches(tokens: Seq<Tkn>, i: int, expected: TknView) -> bool {
    0 <= i < tokens.len() && tkn_eq(tokens[i].token@, expected)
}

/// Whether the tokens from `i` on match `expected`, one for one.
pub open spec fn tokens_at_match(tokens: Seq<Tkn>, i: int, expected: Seq<TknView>) -> bool {
    0 <= i && tokens_match_from(tokens, i, expected, 0)
}

/// Whether the tokens from `i + k` on match `expected` from its `k`-th on.
pub open spec fn tokens_match_from(tokens: Seq<Tkn>, i: int, expected: Seq<TknView>, k: int) -> bool
    decreases expected.len() - k,
{
    if k < 0 || k >= expected.len() {
        true
    } else {
        token_at_matches(tokens, i + k, expected[k]) && tokens_match_from(tokens, i, expected, k + 1)
    }
}

/// Where the tokens match, they lie within the list.
pub proof fn lemma_tokens_match_bound(tokens: Seq<Tkn>, i: int, expected: Seq<TknView>, k: int)
    requires
        0 <= k < expected.len(),
        0 <= i,
        tokens_match_from(tokens, i, expected, k),
    ensures
        i + expected.len() <= tokens.len(),
    decreases expected.len() - k,
{
    if k + 1 < expected.len() {
        lemma_tokens_match_bound(tokens, i, expected, k + 1);
    }
}

/// A token matches an `Either` where it matches one of its sides.
pub proof fn lemma_tkn_eq_either(x: TknView, l: TknView, r: TknView)
    ensures
        tkn_eq(x, TknView::Either(Box::new(l), Box::new(r))) == (tkn_eq(x, l) || tkn_eq(x, r)),
    decreases x,
{
    if let TknView::Either(a, b) = x {
        lemma_tkn_eq_either(*a, l, r);
        lemma_tkn_eq_either(*b, l, r);
        if let TknView::Either(c, d) = l {
            lemma_tkn_eq_either(*a, *c, *d);
            lemma_tkn_eq_either(*b, *c, *d);
        }
        if let TknView::Either(c, d) = r {
            lemma_tkn_eq_either(*a, *c, *d);
            lemma_tkn_eq_either(*b, *c, *d);
        }
    }
}

/// The views of a list of token types.
pub open spec fn tkn_types_view(s: Seq<TknType>) -> Seq<TknView> {
    s.map_values(|t: TknType| t@)
}

/// Whether the token at `index` matches `expected`, where an `Either`
/// matches what either of its sides matches.
fn token_is(tokens: &[Tkn], expected: &TknType, index: usize) -> (r: bool)
    ensures
        r == token_at_matches(tokens@, index as int, expected@),
{
    if index >= tokens.len() {
        return false;
    }
    let token = &tokens[index].token;
    match expected {
        TokenType::Either(left, right) => {
            proof {
                lemma_tkn_eq_either(token@, left@, right@);
            }
            token.tkn_eq(left) || token.tkn_eq(right)
        },
        _ => token.tkn_eq(expected),
    }
}

/// Takes the token at `index` where it matches `expected`.
pub fn expect_token(tokens: &[Tkn], expected: TknType, index: &mut usize) -> (r: Option<()>)
    ensures
        token_at_matches(tokens@, *old(index) as int, expected@) ==> r is Some && *final(index) == *old(index) + 1,
        !token_at_matches(tokens@, *old(index) as int, expected@) ==> r is None && *final(index) == *old(index),
{
    if token_is(tokens, &expected, *index) {
        assert(*index < tokens.len());
        *index += 1;
        Some(())
    } else {
        None
    }
}

/// Takes the tokens from `index` on where they match `expected`, one for
/// one; takes nothing where one does not.
pub fn expect_tokens(tokens: &[Tkn], expected: &[TknType], index: &mut usize) -> (r: Option<()>)
    ensures
        tokens_at_match(tokens@, *old(index) as int, tkn_types_view(expected@)) ==> r is Some && *final(index)
            == *old(index) + expected@.len(),
        !tokens_at_match(tokens@, *old(index) as int, tkn_types_view(expected@)) ==> r is None && *final(index)
            == *old(index),
{
    if is_expected_tokens(tokens, expected, index) {
        Some(())
    } else {
        None
    }
}

/// Takes the token at `index` where it matches `expected`; says whether it
/// did.
pub fn is_expected_token(tokens: &[Tkn], expected: TknType, index: &mut usize) -> (r: bool)
    ensures
        r == token_at_matches(tokens@, *old(index) as int, expected@),
        r ==> *final(index) == *old(index) + 1,
        !r ==> *final(index) == *old(index),
{
    if token_is(tokens, &expected, *index) {
        assert(*index < tokens.len());
        *index += 1;
        true
    } else {
        false
    }
}

/// Takes the tokens from `index` on where they match `expected`, one for
/// one; says whether they did.
pub fn is_expected_tokens(tokens: &[Tkn], expected: &[TknType], index: &mut usize) -> (r: bool)
    ensures
        r == tokens_at_match(tokens@, *old(index) as int, tkn_types_view(expected@)),
        r ==> *final(index) == *old(index) + expected@.len(),
        !r ==> *final(index) == *old(index),
{
    if is_tokens(tokens, expected, *index) {
        assert(expected.len() == 0 || *index + expected.len() <= tokens.len());
        *index += expected.len();
        true
    } else {
        false
    }
}

/// Whether the token at `index` matches `expected`.
pub fn is_token(tokens: &[Tkn], expected: TknType, index: usize) -> (r: bool)
    ensures
        r == token_at_matches(tokens@, index as int, expected@),
{
    token_is(tokens, &expected, index)
}

/// Whether the tokens from `index` on match `expected`, one for one.
pub fn is_tokens(tokens: &[Tkn], expected: &[TknType], index: usize) -> (r: bool)
    ensures
        r == tokens_at_match(tokens@, index as int, tkn_types_view(expected@)),
        r && expected@.len() > 0 ==> index + expected@.len() <= tokens@.len(),
{
    let ghost ex = tkn_types_view(expected@);
    let n = tokens.len();
    let mut k: usize = 0;
    while k < expected.len()
        invariant
            k <= expected.len(),
            n == tokens@.len(),
            ex == tkn_types_view(expected@),
            ex.len() == expected@.len(),
            tokens_at_match(tokens@, index as int, ex) == tokens_match_from(tokens@, index as int, ex, k as int),
        decreases expected.len() - k,
    {
        if index > usize::MAX - k || !token_is(tokens, &expected[k], index + k) {
            return false;
        }
        k += 1;
    }
    proof {
        if expected@.len() > 0 {
            lemma_tokens_match_bound(tokens@, index as int, ex, 0);
        }
    }
    true
}

/// The token at `index`, if there is one.
pub fn get_token(tokens: &[Tkn], index: usize) -> (r: Option<&Tkn>)
    ensures
        index < tokens@.len() ==> r == Some(&tokens@[index as int]),
        index >= tokens@.len() ==> r is None,
{
    if index >= tokens.len() {
        return None;
    }
    Some(&tokens[index])
}

/// The views of a list of tokens.
pub open spec fn tkns_view(s: Seq<Tkn>) -> Seq<TokenView> {
    s.map_values(|t: Tkn| t@)
}

/// Copies of the tokens from `a` to `b`.
pub fn clone_tokens(tokens: &[Tkn], a: usize, b: usize) -> (r: Vec<Tkn>)
    requires
        a <= b <= tokens@.len(),
    ensures
        r@ == tokens@.subrange(a as int, b as int),
        tkns_view(r@) == tkns_view(tokens@.subrange(a as int, b as int)),
{
    let mut out: Vec<Tkn> = Vec::new();
    let mut k = a;
    while k < b
        invariant
            a <= k <= b <= tokens@.len(),
            out@.len() == k - a,
            forall|j: int| 0 <= j < out@.len() ==> #[trigger] out@[j] == tokens@[a + j],
        decreases b - k,
    {
        out.push(tokens[k].clone());
        k += 1;
    }
    assert(out@ =~= tokens@.subrange(a as int, b as int));
    assert(tkns_view(out@) =~= tkns_view(tokens@.subrange(a as int, b as int)));
    out
}

/// Positions as integers.
pub open spec fn ints(v: Seq<usize>) -> Seq<int> {
    v.map_values(|i: usize| i as int)
}

/// How a scan for the `}` that closes a block ends.
pub enum BraceEnd {
    /// The block closes at this position.
    Closed(int),
    /// The end of the file comes first, at this position, with these braces
    /// (their positions, innermost last) still open.
    Unclosed(int, Seq<int>),
}

/// Scans from `p` for the `}` that closes the outermost of the braces
/// `open`; `None` where the tokens end first without an end-of-file token.
pub open spec fn brace_scan(tokens: Seq<Tkn>, p: int, open: Seq<int>) -> Option<BraceEnd>
    decreases tokens.len() - p,
{
    if p < 0 || p >= tokens.len() {
        None
    } else if token_at_matches(tokens, p, TknView::OpenCurlyBrace) {
        brace_scan(tokens, p + 1, open.push(p))
    } else if token_at_matches(tokens, p, TknView::CloseCurlyBrace) {
        if open.len() <= 1 {
            Some(BraceEnd::Closed(p))
        } else {
            brace_scan(tokens, p + 1, open.drop_last())
        }
    } else if token_at_matches(tokens, p, TknView::EndOfFile) {
        Some(BraceEnd::Unclosed(p, open))
    } else {
        brace_scan(tokens, p + 1, open)
    }
}

/// Scans from `start` for the `}` that closes the brace at `first` (see
/// [`brace_scan`]): `Ok` with its position, or `Err` with the position of
/// the end of the file and the braces still open.
pub fn scan_braces(tokens: &[Tkn], start: usize, first: usize) -> (r: Result<usize, (usize, Vec<usize>)>)
    requires
        brace_scan(tokens@, start as int, seq![first as int]) is Some,
    ensures
        match brace_scan(tokens@, start as int, seq![first as int])->0 {
            BraceEnd::Closed(c) => r == Ok::<usize, (usize, Vec<usize>)>(c as usize),
            BraceEnd::Unclosed(e, open) => r matches Err((x, v)) && x == e && ints(v@)
                == open,
        },
{
    let ghost goal = brace_scan(tokens@, start as int, seq![first as int]);
    let mut open: Vec<usize> = Vec::new();
    open.push(first);
    let mut p = start;
    let n = tokens.len();
    assert(ints(open@) =~= seq![first as int]);
    loop
        invariant
            n == tokens@.len(),
            goal == brace_scan(tokens@, start as int, seq![first as int]),
            goal is Some,
            goal == brace_scan(tokens@, p as int, ints(open@)),
            open@.len() >= 1,
            forall|j: int| 0 <= j < open@.len() ==> open@[j] < p || j == 0,
        decreases tokens@.len() - p,
    {
        let ghost ov = ints(open@);
        let mut q = p;
        if is_expected_token(tokens, TokenType::OpenCurlyBrace, &mut q) {
            open.push(p);
            assert(ints(open@) =~= ov.push(p as int));
            p = q;
        } else if is_expected_token(tokens, TokenType::CloseCurlyBrace, &mut q) {
            if open.len() == 1 {
                return Ok(p);
            }
            open.pop();
            assert(ints(open@) =~= ov.drop_last());
            p = q;
        } else if is_expected_token(tokens, TokenType::EndOfFile, &mut q) {
            return Err((p, open));
        } else {
            assert(p < n);
            p = p + 1;
        }
    }
}

} // verus!
