//! Structs: their definitions in the source and what they parse into.
use vstd::prelude::*;
use crate::full_result::FullResult;
use crate::lexer::token::{Keyword, Tkn, TknView, TokenType};
use crate::parser::accessors::{
    accessor_text, block_def_spec, closing_brace_error_list, get_accessor_string, lemma_brace_scan_bounds,
    opt_token_view, DefOutcome,
};
use crate::parser::expr::{ExprType, TypeView};
use crate::parser::parser_error::{errors_view, ParserError, ParserErrorView};
use crate::parser::tokens::{clone_tokens, expect_token, get_token, scan_braces, tkns_view, token_at_matches};
use crate::parser::{get_ident_token_string, get_type_token_expr_type, names_view, type_end, written_type};

verus! {

/// A parsed struct.
#[derive(Debug)]
pub struct Struct {
    pub accessibility: String,
    pub location: String,
    pub name: String,
    pub fields: Vec<Field>,
}

/// A field of a struct.
#[derive(Debug)]
pub struct Field {
    pub accessibility: String,
    pub field_type: ExprType,
    pub field_name: String,
}

/// A struct as it stands in the source: the token stating its
/// accessibility, its name, and the tokens of its body.
#[derive(Debug)]
pub struct StructDefinition {
    pub accessibility: Option<Tkn>,
    pub name: String,
    pub body_tokens: Vec<Tkn>,
}

/// A token that can state an accessibility: `pub`, `prv`, `pkg` or a name.
pub open spec fn is_accessibility_token(t: TknView) -> bool {
    ||| t == TknView::Keyword(Keyword::Public)
    ||| t == TknView::Keyword(Keyword::Private)
    ||| t == TknView::Keyword(Keyword::Package)
    ||| t is Identifier
}

/// What reading a struct definition at `i` gives: an optional accessibility
/// token, `struct`, a name and a body in braces (see [`block_def_spec`]).
/// `None` where the reading would fail on the tokens running out.
pub open spec fn struct_def_spec(tokens: Seq<Tkn>, i: int) -> Option<DefOutcome> {
    if !(0 <= i < tokens.len()) {
        None
    } else {
        let t = tokens[i].token@;
        if is_accessibility_token(t) {
            if token_at_matches(tokens, i + 1, TknView::Keyword(Keyword::Struct)) {
                block_def_spec(tokens, Some(i), i + 2)
            } else {
                Some(DefOutcome::Soft)
            }
        } else if t == TknView::Keyword(Keyword::Struct) {
            block_def_spec(tokens, None, i + 1)
        } else {
            Some(DefOutcome::Soft)
        }
    }
}

/// Reads a struct definition at `index` (see [`struct_def_spec`]).
pub fn define_struct(tokens: &[Tkn], index: &mut usize) -> (r: FullResult<StructDefinition, (), Vec<ParserError>>)
    requires
        struct_def_spec(tokens@, *old(index) as int) is Some,
    ensures
        match struct_def_spec(tokens@, *old(index) as int)->0 {
            DefOutcome::Soft => r is SoftErr && *final(index) == *old(index),
            DefOutcome::Hard(es) => r matches FullResult::HardErr(v) && errors_view(v@) == es && *final(index)
                == *old(index),
            DefOutcome::Defined { acc, name, body_start, body_end, next } => r matches FullResult::Okay(d)
                && d.name@ == name && d.body_tokens@ == tokens@.subrange(body_start, body_end)
                && 0 <= body_start <= body_end <= tokens@.len() && *final(index) == next && match acc {
                Some(a) => d.accessibility == Some(tokens@[a]),
                None => d.accessibility is None,
            },
        },
{
    let mut peek = *index;
    let accessibility = match &tokens[peek].token {
        TokenType::Keyword(Keyword::Public) | TokenType::Keyword(Keyword::Private) | TokenType::Keyword(
            Keyword::Package,
        ) | TokenType::Identifier(_) => {
            peek += 1;
            Some(tokens[peek - 1].clone())
        },
        TokenType::Keyword(Keyword::Struct) => None,
        _ => {
            return FullResult::SoftErr(());
        },
    };
    if expect_token(tokens, TokenType::Keyword(Keyword::Struct), &mut peek).is_none() {
        return FullResult::SoftErr(());
    }
    let name = match &tokens[peek].token {
        TokenType::Identifier(ident) => ident.clone(),
        _ => {
            let mut errors = Vec::new();
            errors.push(ParserError::ExpectedIdentifier { tkn: tokens[peek].clone() });
            assert(errors_view(errors@) =~= seq![ParserErrorView::ExpectedIdentifier { tkn: tokens@[peek as int]@ }]);
            return FullResult::HardErr(errors);
        },
    };
    peek += 1;
    if expect_token(tokens, TokenType::OpenCurlyBrace, &mut peek).is_none() {
        let mut errors = Vec::new();
        errors.push(ParserError::ExpectedToken { tkn: tokens[peek].clone(), expected: TokenType::OpenCurlyBrace });
        assert(errors_view(errors@) =~= seq![
            ParserErrorView::ExpectedToken { tkn: tokens@[peek as int]@, expected: TknView::OpenCurlyBrace },
        ]);
        return FullResult::HardErr(errors);
    }
    let start = peek;
    proof {
        lemma_brace_scan_bounds(tokens@, start as int, seq![start - 1]);
    }
    match scan_braces(tokens, start, start - 1) {
        Ok(end) => {
            let body_tokens = clone_tokens(tokens, start, end);
            *index = end + 1;
            FullResult::Okay(StructDefinition { accessibility, name, body_tokens })
        },
        Err((eof, open)) => {
            assert forall|j: int| 0 <= j < open@.len() implies #[trigger] open@[j] < tokens@.len() by {
                assert(crate::parser::tokens::ints(open@)[j] == open@[j] as int);
            }
            FullResult::HardErr(closing_brace_error_list(tokens, eof, &open))
        },
    }
}

/// A field as parsed: its accessibility, type and name.
pub struct FieldView {
    pub accessibility: Seq<char>,
    pub field_type: TypeView,
    pub field_name: Seq<char>,
}

/// The view of a field.
pub open spec fn field_view(f: Field) -> FieldView {
    FieldView { accessibility: f.accessibility@, field_type: f.field_type@, field_name: f.field_name@ }
}

/// The views of a list of fields.
pub open spec fn fields_views(v: Seq<Field>) -> Seq<FieldView> {
    v.map_values(|f: Field| field_view(f))
}

/// How reading the fields of a struct body ends.
pub enum FieldsEnd {
    /// All fields read.
    Fields(Seq<FieldView>),
    /// A field is written wrongly.
    Error(ParserErrorView),
    /// Reading fails on the tokens running out in the middle of a field.
    Stuck,
}

/// Reads the fields of a struct body from `p`, after the fields `fields`:
/// each an accessibility, a name that is no struct's, `:`, a type, and a
/// comma before the next.
pub open spec fn struct_fields_spec(
    body: Seq<Tkn>,
    p: int,
    need_comma: bool,
    fields: Seq<FieldView>,
    accessors: Seq<Seq<char>>,
    structs: Seq<Seq<char>>,
) -> FieldsEnd
    decreases body.len() - p,
{
    if p < 0 || p >= body.len() {
        FieldsEnd::Fields(fields)
    } else {
        match accessor_text(Some(body[p].token@), accessors) {
            None => FieldsEnd::Error(ParserErrorView::MissingAccessor { tkn: body[p]@ }),
            Some(acc) => if need_comma {
                FieldsEnd::Error(ParserErrorView::ExpectedEndOfStruct { tkn: body[p]@ })
            } else {
                let p1 = p + 1;
                if !(p1 < body.len() && body[p1].token@ is Identifier && !structs.contains(
                    body[p1].token@->Identifier_0,
                )) {
                    if p1 < body.len() {
                        FieldsEnd::Error(ParserErrorView::ExpectedIdentifier { tkn: body[p1]@ })
                    } else {
                        FieldsEnd::Stuck
                    }
                } else {
                    let name = body[p1].token@->Identifier_0;
                    let p2 = p1 + 1;
                    if !token_at_matches(body, p2, TknView::Colon) {
                        if p2 < body.len() {
                            FieldsEnd::Error(ParserErrorView::ExpectedToken { tkn: body[p2]@, expected: TknView::Colon })
                        } else {
                            FieldsEnd::Stuck
                        }
                    } else {
                        let p3 = p2 + 1;
                        match written_type(body, p3, structs) {
                            None => if p3 < body.len() {
                                FieldsEnd::Error(ParserErrorView::ExpectedType { tkn: body[p3]@ })
                            } else {
                                FieldsEnd::Stuck
                            },
                            Some(t) => {
                                let p4 = type_end(body, p3);
                                let comma = token_at_matches(body, p4, TknView::Comma);
                                let p5 = if comma { p4 + 1 } else { p4 };
                                if p5 > body.len() {
                                    FieldsEnd::Stuck
                                } else {
                                    struct_fields_spec(
                                        body,
                                        p5,
                                        !comma,
                                        fields.push(FieldView { accessibility: acc, field_type: t, field_name: name }),
                                        accessors,
                                        structs,
                                    )
                                }
                            },
                        }
                    }
                }
            },
        }
    }
}

/// The view of an optional owned token's type.
pub open spec fn opt_tkn_view(token: Option<Tkn>) -> Option<TknView> {
    match token {
        Some(t) => Some(t.token@),
        None => None,
    }
}

/// What parsing a struct definition gives (see [`struct_fields_spec`]).
pub open spec fn struct_parse_spec(def: StructDefinition, accessors: Seq<Seq<char>>, structs: Seq<Seq<char>>) -> FieldsEnd {
    struct_fields_spec(def.body_tokens@, 0, false, Seq::empty(), accessors, structs)
}

/// Parses the body of a struct definition into its fields (see
/// [`struct_fields_spec`]); the struct's accessibility is what its
/// accessibility token states.
pub fn parse_struct(struct_def: &StructDefinition, accessors: &[&str], structs: &[&str]) -> (r: Result<Struct, ParserError>)
    requires
        !(struct_parse_spec(*struct_def, names_view(accessors@), names_view(structs@)) is Stuck),
        struct_parse_spec(*struct_def, names_view(accessors@), names_view(structs@)) is Fields ==> accessor_text(
            opt_tkn_view(struct_def.accessibility),
            names_view(accessors@),
        ) is Some,
    ensures
        match struct_parse_spec(*struct_def, names_view(accessors@), names_view(structs@)) {
            FieldsEnd::Fields(fs) => r matches Ok(st) && st.name@ == struct_def.name@ && st.location@ == Seq::<char>::empty()
                && fields_views(st.fields@) == fs && st.accessibility@ == accessor_text(
                opt_tkn_view(struct_def.accessibility),
                names_view(accessors@),
            )->0,
            FieldsEnd::Error(e) => r matches Err(x) && x@ == e,
            FieldsEnd::Stuck => false,
        },
{
    let body_tokens = &struct_def.body_tokens;
    let ghost goal = struct_parse_spec(*struct_def, names_view(accessors@), names_view(structs@));
    let mut peek: usize = 0;
    let mut fields: Vec<Field> = Vec::new();
    let mut need_comma = false;
    let n = body_tokens.len();
    assert(fields_views(fields@) =~= Seq::<FieldView>::empty());
    while peek < n
        invariant
            n == body_tokens@.len(),
            body_tokens@ == struct_def.body_tokens@,
            goal == struct_parse_spec(*struct_def, names_view(accessors@), names_view(structs@)),
            !(goal is Stuck),
            goal == struct_fields_spec(
                body_tokens@,
                peek as int,
                need_comma,
                fields_views(fields@),
                names_view(accessors@),
                names_view(structs@),
            ),
            peek <= n,
        decreases n - peek,
    {
        let accessible = match get_accessor_string(get_token(body_tokens.as_slice(), peek), &mut peek, accessors) {
            Some(a) => a,
            None => {
                return Err(ParserError::MissingAccessor { tkn: body_tokens[peek].clone() });
            },
        };
        if need_comma {
            return Err(ParserError::ExpectedEndOfStruct { tkn: body_tokens[peek - 1].clone() });
        }
        let field_name = match get_ident_token_string(get_token(body_tokens.as_slice(), peek), &mut peek, structs) {
            Some(f) => f,
            None => {
                return Err(ParserError::ExpectedIdentifier { tkn: body_tokens[peek].clone() });
            },
        };
        if expect_token(body_tokens.as_slice(), TokenType::Colon, &mut peek).is_none() {
            return Err(ParserError::ExpectedToken { tkn: body_tokens[peek].clone(), expected: TokenType::Colon });
        }
        let field_type = match get_type_token_expr_type(body_tokens.as_slice(), &mut peek, structs) {
            Some(t) => t,
            None => {
                return Err(ParserError::ExpectedType { tkn: body_tokens[peek].clone() });
            },
        };
        if expect_token(body_tokens.as_slice(), TokenType::Comma, &mut peek).is_none() {
            need_comma = true;
        }
        let ghost before = fields@;
        fields.push(Field { accessibility: accessible, field_type, field_name });
        assert(fields_views(fields@) =~= fields_views(before).push(
            field_view(fields@.last()),
        ));
    }
    let accessibility = get_accessor_string(struct_def.accessibility.as_ref(), &mut 0, accessors);
    match accessibility {
        Some(accessibility) => Ok(
            Struct { accessibility, name: struct_def.name.clone(), location: String::new(), fields },
        ),
        None => vstd::pervasive::unreached(),
    }
}

} // verus!
