//! Accessors: named lists of who may and may not see an item.
use vstd::prelude::*;
use crate::full_result::FullResult;
use crate::lexer::token::{Keyword, Tkn, TknView, TokenType, TokenView};
use crate::parser::parser_error::{errors_view, ParserError, ParserErrorView};
use crate::parser::tokens::{
    brace_scan, clone_tokens, expect_token, get_token, is_expected_token, is_token, scan_braces, tkns_view, token_at_matches,
    BraceEnd,
};
use crate::parser::{is_one_of, names_view};

verus! {

/// An accessor as it stands in the source: its name and the tokens of its
/// body.
#[derive(Debug)]
pub struct AccessorDefinition {
    pub name: String,
    pub body_tokens: Vec<Tkn>,
}

/// A parsed accessor.
#[derive(Debug)]
pub struct Accessor {
    pub name: String,
    pub whitelist: Vec<String>,
    pub blacklist: Vec<String>,
}

/// The accessibility that a token states: `public`, `private` or `package`
/// for the keywords, or the name of one of `accessors`.
pub open spec fn accessor_text(token: Option<TknView>, accessors: Seq<Seq<char>>) -> Option<Seq<char>> {
    match token {
        Some(TknView::Identifier(name)) => if accessors.contains(name) {
            Some(name)
        } else {
            None
        },
        Some(TknView::Keyword(Keyword::Public)) => Some("public"@),
        Some(TknView::Keyword(Keyword::Private)) => Some("private"@),
        Some(TknView::Keyword(Keyword::Package)) => Some("package"@),
        _ => None,
    }
}

/// The view of an optional token's type.
pub open spec fn opt_token_view(token: Option<&Tkn>) -> Option<TknView> {
    match token {
        Some(t) => Some(t.token@),
        None => None,
    }
}

/// Takes the accessibility that `token` states (see [`accessor_text`]).
pub fn get_accessor_string(token: Option<&Tkn>, index: &mut usize, accessors: &[&str]) -> (r: Option<String>)
    requires
        *old(index) < usize::MAX,
    ensures
        r matches Some(s) ==> accessor_text(opt_token_view(token), names_view(accessors@)) == Some(s@)
            && *final(index) == *old(index) + 1,
        r is None ==> accessor_text(opt_token_view(token), names_view(accessors@)) is None && *final(index)
            == *old(index),
{
    proof {
        reveal_strlit("public");
        reveal_strlit("private");
        reveal_strlit("package");
    }
    match token {
        Some(t) => match &t.token {
            TokenType::Identifier(ident) => {
                if is_one_of(ident, accessors) {
                    *index += 1;
                    Some(ident.clone())
                } else {
                    None
                }
            },
            TokenType::Keyword(Keyword::Public) => {
                *index += 1;
                Some(String::from_str("public"))
            },
            TokenType::Keyword(Keyword::Private) => {
                *index += 1;
                Some(String::from_str("private"))
            },
            TokenType::Keyword(Keyword::Package) => {
                *index += 1;
                Some(String::from_str("package"))
            },
            _ => None,
        },
        None => None,
    }
}

/// The errors for braces left open at the end of the file: one for each,
/// innermost first, all pointing at the end of the file.
pub open spec fn closing_brace_errors(tokens: Seq<Tkn>, eof: int, open: Seq<int>) -> Seq<ParserErrorView> {
    Seq::new(
        open.len(),
        |k: int|
            ParserErrorView::ExpectedClosingBrace { tkn: tokens[eof]@, open_brace: tokens[open[open.len() - 1 - k]]@ },
    )
}

/// The errors for braces left open (see [`closing_brace_errors`]).
pub fn closing_brace_error_list(tokens: &[Tkn], eof: usize, open: &Vec<usize>) -> (r: Vec<ParserError>)
    requires
        eof < tokens@.len(),
        forall|j: int| 0 <= j < open@.len() ==> #[trigger] open@[j] < tokens@.len(),
    ensures
        errors_view(r@) == closing_brace_errors(tokens@, eof as int, crate::parser::tokens::ints(open@)),
{
    let mut errors: Vec<ParserError> = Vec::new();
    let mut k: usize = open.len();
    while k > 0
        invariant
            k <= open@.len(),
            eof < tokens@.len(),
            forall|j: int| 0 <= j < open@.len() ==> #[trigger] open@[j] < tokens@.len(),
            errors@.len() == open@.len() - k,
            forall|j: int|
                0 <= j < errors@.len() ==> #[trigger] errors@[j]@ == (ParserErrorView::ExpectedClosingBrace {
                    tkn: tokens@[eof as int]@,
                    open_brace: tokens@[open@[open@.len() - 1 - j] as int]@,
                }),
        decreases k,
    {
        k -= 1;
        errors.push(ParserError::ExpectedClosingBrace { tkn: tokens[eof].clone(), open_brace: tokens[open[k]].clone() });
    }
    assert(errors_view(errors@) =~= closing_brace_errors(tokens@, eof as int, crate::parser::tokens::ints(open@)));
    errors
}

/// What reading an accessor definition at `i` gives: nothing where there is
/// no `accessor` keyword there; an error where the name or the `{` is
/// missing or the end of the file comes before the closing `}`; else the
/// name, where its body starts and ends, and where reading goes on.
/// `None` where the reading would fail on the tokens running out.
pub open spec fn accessor_def_spec(tokens: Seq<Tkn>, i: int) -> Option<DefOutcome> {
    if !token_at_matches(tokens, i, TknView::Keyword(Keyword::Accessor)) {
        Some(DefOutcome::Soft)
    } else {
        block_def_spec(tokens, None, i + 1)
    }
}

/// What reading `name { body }` from `p` gives, for a definition whose
/// accessibility token is `acc` (see [`accessor_def_spec`]).
pub open spec fn block_def_spec(tokens: Seq<Tkn>, acc: Option<int>, p: int) -> Option<DefOutcome> {
    if !(0 <= p < tokens.len()) {
        None
    } else if !(tokens[p].token@ is Identifier) {
        Some(DefOutcome::Hard(seq![ParserErrorView::ExpectedIdentifier { tkn: tokens[p]@ }]))
    } else if !token_at_matches(tokens, p + 1, TknView::OpenCurlyBrace) {
        if p + 1 < tokens.len() {
            Some(DefOutcome::Hard(seq![ParserErrorView::ExpectedToken { tkn: tokens[p + 1]@, expected: TknView::OpenCurlyBrace }]))
        } else {
            None
        }
    } else {
        match brace_scan(tokens, p + 2, seq![p + 1]) {
            Some(BraceEnd::Closed(c)) => Some(
                DefOutcome::Defined { acc, name: tokens[p].token@->Identifier_0, body_start: p + 2, body_end: c, next: c + 1 },
            ),
            Some(BraceEnd::Unclosed(e, open)) => Some(DefOutcome::Hard(closing_brace_errors(tokens, e, open))),
            None => None,
        }
    }
}

/// What reading a definition of a block gives.
pub enum DefOutcome {
    /// There is no such definition here.
    Soft,
    /// There is one, written wrongly.
    Hard(Seq<ParserErrorView>),
    /// The definition: its accessibility token, name, body, and the position
    /// after it.
    Defined { acc: Option<int>, name: Seq<char>, body_start: int, body_end: int, next: int },
}

/// Reads an accessor definition at `index` (see [`accessor_def_spec`]).
pub fn define_accessor(tokens: &[Tkn], index: &mut usize) -> (r: FullResult<AccessorDefinition, (), Vec<ParserError>>)
    requires
        accessor_def_spec(tokens@, *old(index) as int) is Some,
    ensures
        match accessor_def_spec(tokens@, *old(index) as int)->0 {
            DefOutcome::Soft => r is SoftErr && *final(index) == *old(index),
            DefOutcome::Hard(es) => r matches FullResult::HardErr(v) && errors_view(v@) == es && *final(index)
                == *old(index),
            DefOutcome::Defined { name, body_start, body_end, next, .. } => r matches FullResult::Okay(d) && d.name@
                == name && d.body_tokens@ == tokens@.subrange(body_start, body_end) && *final(index) == next && 0
                <= body_start <= body_end <= tokens@.len(),
        },
{
    let mut peek = *index;
    if expect_token(tokens, TokenType::Keyword(Keyword::Accessor), &mut peek).is_none() {
        return FullResult::SoftErr(());
    }
    let name = match &tokens[peek].token {
        TokenType::Identifier(ident) => ident.clone(),
        _ => {
            let mut errors = Vec::new();
            errors.push(ParserError::ExpectedIdentifier { tkn: tokens[peek].clone() });
            assert(errors_view(errors@) =~= seq![ParserErrorView::ExpectedIdentifier { tkn: tokens@[peek as int]@ }]);
            return FullResult::HardErr(errors);
        },
    };
    peek += 1;
    if expect_token(tokens, TokenType::OpenCurlyBrace, &mut peek).is_none() {
        let mut errors = Vec::new();
        errors.push(ParserError::ExpectedToken { tkn: tokens[peek].clone(), expected: TokenType::OpenCurlyBrace });
        assert(errors_view(errors@) =~= seq![ParserErrorView::ExpectedToken { tkn: tokens@[peek as int]@, expected: TknView::OpenCurlyBrace }]);
        return FullResult::HardErr(errors);
    }
    let start = peek;
    proof {
        lemma_brace_scan_bounds(tokens@, start as int, seq![start - 1]);
    }
    match scan_braces(tokens, start, start - 1) {
        Ok(end) => {
            let body_tokens = clone_tokens(tokens, start, end);
            *index = end + 1;
            FullResult::Okay(AccessorDefinition { name, body_tokens })
        },
        Err((eof, open)) => {
            assert forall|j: int| 0 <= j < open@.len() implies #[trigger] open@[j] < tokens@.len() by {
                assert(crate::parser::tokens::ints(open@)[j] == open@[j] as int);
            }
            FullResult::HardErr(closing_brace_error_list(tokens, eof, &open))
        },
    }
}

/// A scan for a closing brace stops within the tokens, and the braces it
/// leaves open were all seen before it stopped.
pub proof fn lemma_brace_scan_bounds(tokens: Seq<Tkn>, p: int, open: Seq<int>)
    requires
        forall|j: int| 0 <= j < open.len() ==> 0 <= #[trigger] open[j] < tokens.len(),
    ensures
        match brace_scan(tokens, p, open) {
            Some(BraceEnd::Closed(c)) => p <= c < tokens.len(),
            Some(BraceEnd::Unclosed(e, o)) => p <= e < tokens.len() && forall|j: int| 0 <= j < o.len() ==> 0 <= #[trigger] o[j]
                < tokens.len(),
            None => true,
        },
    decreases tokens.len() - p,
{
    if 0 <= p < tokens.len() {
        if token_at_matches(tokens, p, TknView::OpenCurlyBrace) {
            lemma_brace_scan_bounds(tokens, p + 1, open.push(p));
        } else if token_at_matches(tokens, p, TknView::CloseCurlyBrace) {
            if open.len() > 1 {
                lemma_brace_scan_bounds(tokens, p + 1, open.drop_last());
            }
        } else if !token_at_matches(tokens, p, TknView::EndOfFile) {
            lemma_brace_scan_bounds(tokens, p + 1, open);
        }
    }
}

/// What reading an accessor body has gathered: the errors, the names on
/// the whitelist and on the blacklist, where the whitelist and the
/// blacklist were declared, and the last `{` that opened a list.
pub struct AccessorState {
    pub errors: Seq<ParserErrorView>,
    pub whitelist: Seq<Seq<char>>,
    pub blacklist: Seq<Seq<char>>,
    pub whitelist_defined: Option<int>,
    pub blacklist_defined: Option<int>,
    pub open_brace: Option<int>,
}

/// Reads an accessor body from `p` on: `enclave` and a whitelist, or
/// `exclave` and a blacklist, in any order; anything else is an error that
/// ends the reading.  `None` where reading does not end: a name in a list,
/// or a list that runs to the end of the tokens.
pub open spec fn accessor_body_spec(body: Seq<Tkn>, p: int, st: AccessorState) -> Option<AccessorState>
    decreases body.len() - p, 1int,
{
    if p < 0 || p >= body.len() {
        Some(st)
    } else if token_at_matches(body, p, TknView::Keyword(Keyword::Enclave)) {
        list_start_spec(body, p, true, st)
    } else if token_at_matches(body, p, TknView::Keyword(Keyword::Exclave)) {
        list_start_spec(body, p, false, st)
    } else {
        Some(AccessorState { errors: st.errors.push(ParserErrorView::NoWhitelistOrBlacklist { tkn: body[p]@ }), ..st })
    }
}

/// Reads a list declared by the keyword at `p` (`enclave` where `white`,
/// else `exclave`): a second declaration is an error; then `{` or `$`, else
/// an error.
pub open spec fn list_start_spec(body: Seq<Tkn>, p: int, white: bool, st: AccessorState) -> Option<AccessorState>
    decreases body.len() - p, 0int,
{
    let defined = if white { st.whitelist_defined } else { st.blacklist_defined };
    let errors = match defined {
        Some(d) => st.errors.push(
            if white {
                ParserErrorView::AlreadyDefinedWhitelist { tkn: body[p]@, defined_whitelist: body[d]@ }
            } else {
                ParserErrorView::AlreadyDefinedBlacklist { tkn: body[p]@, defined_blacklist: body[d]@ }
            },
        ),
        None => st.errors,
    };
    let st1 = if white {
        AccessorState { errors, whitelist_defined: Some(p), ..st }
    } else {
        AccessorState { errors, blacklist_defined: Some(p), ..st }
    };
    let p1 = p + 1;
    if p1 > body.len() {
        None
    } else if token_at_matches(body, p1, TknView::OpenCurlyBrace) {
        list_items_spec(body, p1 + 1, white, true, AccessorState { open_brace: Some(p1), ..st1 })
    } else if token_at_matches(body, p1, TknView::Dollar) {
        list_items_spec(body, p1 + 1, white, false, st1)
    } else if p1 < body.len() {
        list_items_spec(
            body,
            p1,
            white,
            false,
            AccessorState {
                errors: st1.errors.push(
                    ParserErrorView::ExpectedTokens {
                        tkn: body[p1]@,
                        received: crate::parser::functions::received_tokens(body, p1, 2),
                        expected: seq![TknView::Dollar, TknView::OpenCurlyBrace],
                    },
                ),
                ..st1
            },
        )
    } else {
        None
    }
}

/// Reads the items of a list from `q`: it ends at `}` (where it opened with
/// `{`; a comma may follow) or before `exclave`; a name never ends the
/// reading; anything else is an error and is passed over.
pub open spec fn list_items_spec(
    body: Seq<Tkn>,
    q: int,
    white: bool,
    expect_closing_brace: bool,
    st: AccessorState,
) -> Option<AccessorState>
    decreases body.len() - q, 2int,
{
    if q < 0 || q > body.len() {
        None
    } else if expect_closing_brace && token_at_matches(body, q, TknView::CloseCurlyBrace) {
        let q2 = if token_at_matches(body, q + 1, TknView::Comma) { q + 2 } else { q + 1 };
        if q2 > body.len() {
            None
        } else {
            accessor_body_spec(body, q2, st)
        }
    } else if token_at_matches(body, q, TknView::Keyword(Keyword::Exclave)) {
        accessor_body_spec(body, q, st)
    } else if q < body.len() && body[q].token@ is Identifier {
        None
    } else if q < body.len() {
        let e = if white {
            ParserErrorView::ExpectedEndOfWhitelist { tkn: body[q]@ }
        } else {
            ParserErrorView::ExpectedEndOfBlacklist { tkn: body[q]@ }
        };
        list_items_spec(body, q + 1, white, expect_closing_brace, AccessorState { errors: st.errors.push(e), ..st })
    } else {
        None
    }
}

/// The state before an accessor body is read: nothing gathered.
pub open spec fn empty_accessor_state() -> AccessorState {
    AccessorState {
        errors: Seq::empty(),
        whitelist: Seq::empty(),
        blacklist: Seq::empty(),
        whitelist_defined: None,
        blacklist_defined: None,
        open_brace: None,
    }
}

/// What parsing an accessor definition gives (see [`accessor_body_spec`]).
pub open spec fn accessor_parse_spec(def: AccessorDefinition) -> Option<AccessorState> {
    accessor_body_spec(def.body_tokens@, 0, empty_accessor_state())
}

/// The texts of a list of names.
pub open spec fn strings_view(v: Seq<String>) -> Seq<Seq<char>> {
    v.map_values(|s: String| s@)
}

/// The view of the state of an accessor parse.
pub open spec fn state_view(
    errors: Seq<ParserError>,
    whitelist: Seq<String>,
    blacklist: Seq<String>,
    whitelist_defined: Option<usize>,
    blacklist_defined: Option<usize>,
    open_brace: Option<usize>,
) -> AccessorState {
    AccessorState {
        errors: errors_view(errors),
        whitelist: strings_view(whitelist),
        blacklist: strings_view(blacklist),
        whitelist_defined: match whitelist_defined {
            Some(d) => Some(d as int),
            None => None,
        },
        blacklist_defined: match blacklist_defined {
            Some(d) => Some(d as int),
            None => None,
        },
        open_brace: match open_brace {
            Some(d) => Some(d as int),
            None => None,
        },
    }
}

/// Parses the body of an accessor definition into its whitelist and
/// blacklist (see [`accessor_body_spec`]): the accessor where nothing was
/// wrong, else all the errors found.
pub fn parse_accessor(accessor_definition: &AccessorDefinition) -> (r: Result<Accessor, Vec<ParserError>>)
    requires
        accessor_parse_spec(*accessor_definition) is Some,
        accessor_definition.body_tokens@.len() < usize::MAX - 4,
    ensures
        ({
            let st = accessor_parse_spec(*accessor_definition)->0;
            if st.errors.len() == 0 {
                r matches Ok(a) && a.name@ == accessor_definition.name@ && strings_view(a.whitelist@) == st.whitelist
                    && strings_view(a.blacklist@) == st.blacklist
            } else {
                r matches Err(v) && errors_view(v@) == st.errors
            }
        }),
{
    let body = accessor_definition.body_tokens.as_slice();
    let ghost goal = accessor_parse_spec(*accessor_definition);
    let mut peek: usize = 0;
    let mut errors: Vec<ParserError> = Vec::new();
    let mut whitelist: Vec<String> = Vec::new();
    let mut blacklist: Vec<String> = Vec::new();
    let mut whitelist_defined: Option<usize> = None;
    let mut blacklist_defined: Option<usize> = None;
    let mut open_brace: Option<usize> = None;
    let mut done = false;
    let n = body.len();
    assert(state_view(errors@, whitelist@, blacklist@, whitelist_defined, blacklist_defined, open_brace)
        =~= empty_accessor_state()) by {
        assert(errors_view(errors@) =~= Seq::<ParserErrorView>::empty());
        assert(strings_view(whitelist@) =~= Seq::<Seq<char>>::empty());
        assert(strings_view(blacklist@) =~= Seq::<Seq<char>>::empty());
    }
    while !done && peek < n
        invariant
            n == body@.len(),
            n < usize::MAX - 4,
            body@ == accessor_definition.body_tokens@,
            goal == accessor_parse_spec(*accessor_definition),
            goal is Some,
            peek <= n,
            whitelist_defined matches Some(d) ==> d < n,
            blacklist_defined matches Some(d) ==> d < n,
            done ==> goal == Some(
                state_view(errors@, whitelist@, blacklist@, whitelist_defined, blacklist_defined, open_brace),
            ),
            !done ==> goal == accessor_body_spec(
                body@,
                peek as int,
                state_view(errors@, whitelist@, blacklist@, whitelist_defined, blacklist_defined, open_brace),
            ),
        decreases n - peek, if done { 0int } else { 1int },
    {
        let at = peek;
        let white;
        if is_expected_token(body, TokenType::Keyword(Keyword::Enclave), &mut peek) {
            white = true;
        } else if is_expected_token(body, TokenType::Keyword(Keyword::Exclave), &mut peek) {
            white = false;
        } else {
            let ghost before = errors@;
            errors.push(ParserError::NoWhitelistOrBlacklist { tkn: body[peek].clone() });
            assert(errors_view(errors@) =~= errors_view(before).push(errors@.last()@));
            done = true;
            continue;
        }
        let defined = if white { whitelist_defined } else { blacklist_defined };
        match defined {
            Some(d) => {
                let ghost before = errors@;
                if white {
                    errors.push(ParserError::AlreadyDefinedWhitelist { tkn: body[at].clone(), defined_whitelist: body[d].clone() });
                } else {
                    errors.push(ParserError::AlreadyDefinedBlacklist { tkn: body[at].clone(), defined_blacklist: body[d].clone() });
                }
                assert(errors_view(errors@) =~= errors_view(before).push(errors@.last()@));
            },
            None => {},
        }
        if white {
            whitelist_defined = Some(at);
        } else {
            blacklist_defined = Some(at);
        }
        let expect_closing_brace;
        if is_expected_token(body, TokenType::OpenCurlyBrace, &mut peek) {
            expect_closing_brace = true;
            open_brace = Some(peek - 1);
        } else if is_expected_token(body, TokenType::Dollar, &mut peek) {
            expect_closing_brace = false;
        } else {
            let expected = vec![TokenType::Dollar, TokenType::OpenCurlyBrace];
            assert(crate::parser::tokens::tkn_types_view(expected@) =~= seq![TknView::Dollar, TknView::OpenCurlyBrace]);
            let received = crate::parser::functions::received_list(body, peek, 2);
            let ghost before = errors@;
            errors.push(ParserError::ExpectedTokens { tkn: body[peek].clone(), received, expected });
            assert(errors_view(errors@) =~= errors_view(before).push(errors@.last()@));
            expect_closing_brace = false;
        }
        let mut list_done = false;
        while !list_done
            invariant
                n == body@.len(),
                n < usize::MAX - 4,
                at < peek,
                goal is Some,
                peek <= n,
                whitelist_defined matches Some(d) ==> d < n,
                blacklist_defined matches Some(d) ==> d < n,
                !list_done ==> goal == list_items_spec(
                    body@,
                    peek as int,
                    white,
                    expect_closing_brace,
                    state_view(errors@, whitelist@, blacklist@, whitelist_defined, blacklist_defined, open_brace),
                ),
                list_done ==> goal == accessor_body_spec(
                    body@,
                    peek as int,
                    state_view(errors@, whitelist@, blacklist@, whitelist_defined, blacklist_defined, open_brace),
                ),
            decreases n - peek, if list_done { 0int } else { 1int },
        {
            let mut q = peek;
            if expect_closing_brace && is_expected_token(body, TokenType::CloseCurlyBrace, &mut q) {
                peek = q;
                let _ = expect_token(body, TokenType::Comma, &mut peek);
                list_done = true;
            } else if is_token(body, TokenType::Keyword(Keyword::Exclave), peek) {
                list_done = true;
            } else {
                match get_token(body, peek) {
                    Some(Tkn { token: TokenType::Identifier(_), .. }) => {
                        // A name in a list never ends the reading; the
                        // precondition rules it out.
                        vstd::pervasive::unreached()
                    },
                    _ => {},
                }
                let ghost before = errors@;
                if white {
                    errors.push(ParserError::ExpectedEndOfWhitelist { tkn: body[peek].clone() });
                } else {
                    errors.push(ParserError::ExpectedEndOfBlacklist { tkn: body[peek].clone() });
                }
                assert(errors_view(errors@) =~= errors_view(before).push(errors@.last()@));
                peek += 1;
            }
        }
    }
    if errors.len() == 0 {
        Ok(Accessor { name: accessor_definition.name.clone(), whitelist, blacklist })
    } else {
        Err(errors)
    }
}

} // verus!
