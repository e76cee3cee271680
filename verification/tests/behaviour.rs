use pretty_jinja::config::{
    FormatOptions, LanguageOptions, LayoutOptions, LineBreak, OperatorLineBreak, TrailingComma,
};
use pretty_jinja::doc::{lay_out, Document, LayoutError};
use pretty_jinja::grammar::Expected;
use pretty_jinja::parser::{parse_expr, parse_stmt, ParseError};
use pretty_jinja::scanner::is_ident_char;
use pretty_jinja::syntax::{SyntaxElement, SyntaxKind};
use pretty_jinja::{format_expr, format_stmt, FormatError};

fn expr(input: &str) -> String {
    format_expr(input, &FormatOptions::default()).unwrap()
}

fn stmt(input: &str) -> String {
    format_stmt(input, &FormatOptions::default()).unwrap()
}

fn expr_error(input: &str) -> ParseError {
    match format_expr(input, &FormatOptions::default()) {
        Err(FormatError::Parse(e)) => e,
        other => panic!("expected a parse error, got {other:?}"),
    }
}

#[test]
fn empty_expression_is_rejected_at_offset_zero() {
    assert_eq!(expr_error(""), ParseError { offset: 0, expected: Expected::Expression });
}

#[test]
fn blank_statement_is_rejected_after_the_blanks() {
    assert_eq!(
        format_stmt("  ", &FormatOptions::default()),
        Err(FormatError::Parse(ParseError { offset: 2, expected: Expected::Statement }))
    );
}

#[test]
fn dangling_operator_is_trailing_garbage() {
    assert_eq!(expr_error("1 +"), ParseError { offset: 2, expected: Expected::EndOfInput });
}

#[test]
fn error_offset_counts_bytes() {
    assert_eq!(expr_error("\u{e9} )"), ParseError { offset: 3, expected: Expected::EndOfInput });
}

#[test]
fn zero_indent_width_is_a_layout_error() {
    let options = FormatOptions {
        layout: LayoutOptions { indent_width: 0, ..Default::default() },
        language: Default::default(),
    };
    assert_eq!(
        format_expr("a", &options),
        Err(FormatError::Layout(LayoutError::ZeroIndentWidth))
    );
}

#[test]
fn byte_order_marks_are_stripped() {
    assert_eq!(expr("\u{feff}\u{feff}a"), "a");
    assert_eq!(expr_error("\u{feff}a )").offset, 2);
}

#[test]
fn unterminated_string_runs_to_the_end() {
    assert_eq!(expr("'abc"), "'abc");
    assert_eq!(expr("\"a\\\"b"), "\"a\\\"b");
}

#[test]
fn unterminated_string_stops_at_the_line_end() {
    assert_eq!(expr("'abc\n"), "'abc");
    assert_eq!(expr_error("'abc\nx"), ParseError { offset: 5, expected: Expected::EndOfInput });
}

#[test]
fn unterminated_string_swallows_what_is_joined_to_it() {
    let out = expr("['abc\r\n]");
    assert_eq!(out, "['abc]");
    assert_eq!(
        format_expr(&out, &FormatOptions::default()),
        Err(FormatError::Parse(ParseError { offset: 0, expected: Expected::Expression }))
    );
}

#[test]
fn string_ending_in_a_backslash_is_rejected() {
    assert_eq!(expr_error("'abc\\"), ParseError { offset: 0, expected: Expected::Expression });
}

#[test]
fn escaped_quote_stays_inside_the_string() {
    assert_eq!(expr("'a\\'b'  ~  \"c\""), "'a\\'b' ~ \"c\"");
}

#[test]
fn numbers_with_sign_fraction_and_exponent() {
    assert_eq!(expr("-1.5e-3"), "-1.5e-3");
    assert_eq!(expr("1."), "1.");
    assert_eq!(expr("1_000E+2"), "1_000E+2");
    assert_eq!(expr("+1 - -2"), "+1 - -2");
}

#[test]
fn number_followed_by_a_letter_is_rejected() {
    assert_eq!(expr_error("1abc"), ParseError { offset: 0, expected: Expected::Expression });
}

#[test]
fn boolean_with_more_letters_is_an_identifier() {
    let tree = parse_expr("truex").unwrap();
    match tree {
        SyntaxElement::Node { kind, children } => {
            assert_eq!(kind, SyntaxKind::ROOT_EXPR);
            assert_eq!(children.len(), 1);
            assert_eq!(children[0].kind(), SyntaxKind::EXPR_IDENT);
        }
        SyntaxElement::Token { .. } => panic!("the root is a node"),
    }
    let tree = parse_expr("true").unwrap();
    match tree {
        SyntaxElement::Node { children, .. } => {
            assert_eq!(children[0].kind(), SyntaxKind::EXPR_LITERAL);
        }
        SyntaxElement::Token { .. } => panic!("the root is a node"),
    }
}

#[test]
fn root_keeps_the_surrounding_white_space() {
    let tree = parse_stmt(" \tset a = 1 \n").unwrap();
    match tree {
        SyntaxElement::Node { kind, children } => {
            assert_eq!(kind, SyntaxKind::ROOT_STMT);
            assert_eq!(children.len(), 3);
            assert_eq!(children[0].kind(), SyntaxKind::WHITESPACE);
            assert_eq!(children[1].kind(), SyntaxKind::STMT_SET);
            assert_eq!(children[2].kind(), SyntaxKind::WHITESPACE);
            assert_eq!(children[0].text(), " \t");
            assert_eq!(children[1].text(), "set a = 1");
            assert_eq!(children[2].text(), " \n");
        }
        SyntaxElement::Token { .. } => panic!("the root is a node"),
    }
}

#[test]
fn tree_text_is_the_source() {
    for source in [
        "a () [ b ] . c ( ) [ d ] () .e [f]",
        "1+2*3+4/5**6-7%8==true>false and not false or(x in y)",
        " { 'a' : [ 1 , ( 2 , ) ] , }  ",
        "x if y is divisibleby 3 else z | f ( k = 1 ) ~ 'w'",
    ] {
        assert_eq!(parse_expr(source).unwrap().text(), source);
    }
    for source in [
        "for a , b in c if d",
        "macro m ( a , b = 1 )",
        "call ( x ) f ( 1 )",
        "with a , b = 1",
        "set a | upper",
        "from 'a' import b as c ,d",
    ] {
        assert_eq!(parse_stmt(source).unwrap().text(), source);
    }
}

#[test]
fn floor_division_is_one_operator() {
    assert_eq!(expr("a//b"), "a // b");
    assert_eq!(expr("a/b"), "a / b");
}

#[test]
fn comparison_operators() {
    assert_eq!(expr("a<=b>=c!=d<e"), "a <= b >= c != d < e");
}

#[test]
fn not_takes_one_space() {
    assert_eq!(expr("not    a"), "not a");
    assert_eq!(expr("nota"), "nota");
}

#[test]
fn conditional_chains_to_the_right() {
    assert_eq!(expr("a  if  b  else  c  if  d  else  e"), "a if b else c if d else e");
}

#[test]
fn comparison_inside_call_arguments() {
    assert_eq!(expr("f(a == b, c = d)"), "f(a == b, c=d)");
}

#[test]
fn filter_with_arguments() {
    assert_eq!(expr("a|f( 1 )|g"), "a | f(1) | g");
}

#[test]
fn test_with_parentheses() {
    assert_eq!(expr("a is  divisibleby ( 3 )"), "a is divisibleby(3)");
}

#[test]
fn empty_lists() {
    assert_eq!(expr("[ ]"), "[]");
    assert_eq!(expr("{ }"), "{}");
    assert_eq!(expr("( )"), "()");
    assert_eq!(expr("f( )"), "f()");
}

#[test]
fn single_element_tuple_keeps_its_comma_under_never() {
    let options = FormatOptions {
        layout: Default::default(),
        language: LanguageOptions {
            trailing_comma: TrailingComma::Never,
            expr_tuple_trailing_comma: Some(TrailingComma::Never),
            ..Default::default()
        },
    };
    assert_eq!(format_expr("( 1 , )", &options).unwrap(), "(1,)");
    assert_eq!(format_expr("( 1 , 2 , )", &options).unwrap(), "(1, 2)");
}

#[test]
fn parenthesized_expression_is_no_tuple() {
    assert_eq!(expr("( 1 )"), "(1)");
    let tree = parse_expr("(1)").unwrap();
    match tree {
        SyntaxElement::Node { children, .. } => {
            assert_eq!(children[0].kind(), SyntaxKind::EXPR_PAREN);
        }
        SyntaxElement::Token { .. } => panic!("the root is a node"),
    }
}

#[test]
fn override_comes_before_the_global_policy() {
    let options = FormatOptions {
        layout: Default::default(),
        language: LanguageOptions {
            trailing_comma: TrailingComma::Always,
            expr_list_trailing_comma: Some(TrailingComma::Never),
            ..Default::default()
        },
    };
    assert_eq!(format_expr("[1, {'a': 2}]", &options).unwrap(), "[1, {'a': 2,}]");
}

#[test]
fn brace_spacing_leaves_brackets_and_parens_alone() {
    let options = FormatOptions {
        layout: Default::default(),
        language: LanguageOptions { brace_spacing: true, ..Default::default() },
    };
    assert_eq!(
        format_expr("f([1, {'a': (2, 3)}])", &options).unwrap(),
        "f([1, { 'a': (2, 3) }])"
    );
    let options = FormatOptions {
        layout: Default::default(),
        language: LanguageOptions { bracket_spacing: true, ..Default::default() },
    };
    assert_eq!(
        format_expr("f([1, {'a': (2, 3)}])", &options).unwrap(),
        "f([ 1, {'a': (2, 3)} ])"
    );
}

#[test]
fn break_after_operator_by_default() {
    let options = FormatOptions {
        layout: LayoutOptions { print_width: 10, ..Default::default() },
        language: Default::default(),
    };
    assert_eq!(format_expr("aaaa + bbbb + cccc", &options).unwrap(), "aaaa +\n  bbbb +\n  cccc");
}

#[test]
fn break_before_operator() {
    let options = FormatOptions {
        layout: LayoutOptions { print_width: 10, ..Default::default() },
        language: LanguageOptions {
            operator_linebreak: OperatorLineBreak::Before,
            ..Default::default()
        },
    };
    assert_eq!(format_expr("aaaa + bbbb + cccc", &options).unwrap(), "aaaa\n  + bbbb\n  + cccc");
}

#[test]
fn line_ending_and_tabs_follow_the_layout() {
    let options = FormatOptions {
        layout: LayoutOptions { line_break: LineBreak::Crlf, ..Default::default() },
        language: Default::default(),
    };
    assert_eq!(format_expr("[\n1,2]", &options).unwrap(), "[\r\n  1,\r\n  2,\r\n]");
    let options = FormatOptions {
        layout: LayoutOptions { use_tabs: true, indent_width: 4, ..Default::default() },
        language: Default::default(),
    };
    assert_eq!(format_expr("[\n1,2]", &options).unwrap(), "[\n\t1,\n\t2,\n]");
}

#[test]
fn indent_width_sets_the_indentation() {
    let options = FormatOptions {
        layout: LayoutOptions { indent_width: 3, ..Default::default() },
        language: Default::default(),
    };
    assert_eq!(format_expr("[\n1,2]", &options).unwrap(), "[\n   1,\n   2,\n]");
}

#[test]
fn with_header() {
    assert_eq!(stmt("with  a , b=1"), "with a, b = 1");
}

#[test]
fn set_with_filter_arguments() {
    assert_eq!(stmt("set  a|f( 1 )"), "set a | f(1)");
}

#[test]
fn for_with_a_conditional_iterable() {
    assert_eq!(stmt("for x in a if b else c"), "for x in a if b else c");
}

#[test]
fn unknown_header_alone() {
    assert_eq!(stmt("endfor"), "endfor ");
    assert_eq!(stmt(" else "), "else ");
    assert_eq!(stmt("endfor "), "endfor ");
}

#[test]
fn keyword_without_its_grammar_is_an_unknown_header() {
    assert_eq!(stmt("for x"), "for x");
    assert_eq!(stmt("macro  f"), "macro f");
}

#[test]
fn leading_unicode_white_space_is_skipped() {
    assert_eq!(expr("\u{a0}a\u{3000}"), "a\u{3000}");
    assert_eq!(expr("\u{2003} a"), "a");
}

#[test]
fn formatting_twice_changes_nothing() {
    let options = FormatOptions {
        layout: LayoutOptions { print_width: 20, ..Default::default() },
        language: Default::default(),
    };
    for source in [
        "f(aaaaaaaa, bbbbbbbbb, [cccccc, dddddd], {'k': vvvvvvvvvvvvv})",
        "aaaa + bbbb * cccc - dddd / eeee and ffff or gggg",
        "x if yyyyyyyyyyyyyyyyy is divisibleby 3 else zzzzzzzzzzzz",
        "a | bbbbbbbbbbb | cccccccccccc(1, 2) ~ dddddddddd",
    ] {
        let once = format_expr(source, &options).unwrap();
        assert!(parse_expr(&once).is_ok());
        assert_eq!(format_expr(&once, &options).unwrap(), once);
    }
}

#[test]
fn lines_stay_within_the_width_where_they_can_break() {
    let options = FormatOptions {
        layout: LayoutOptions { print_width: 12, ..Default::default() },
        language: Default::default(),
    };
    let out = format_expr("[aaaa, bbbb, cccc, dddd]", &options).unwrap();
    assert_eq!(out, "[\n  aaaa,\n  bbbb,\n  cccc,\n  dddd,\n]");
    assert!(out.lines().all(|line| line.len() <= 12));
}

#[test]
fn ident_chars() {
    assert!(is_ident_char('a'));
    assert!(is_ident_char('Z'));
    assert!(is_ident_char('0'));
    assert!(is_ident_char('_'));
    assert!(is_ident_char('\u{e9}'));
    assert!(!is_ident_char('-'));
    assert!(!is_ident_char(' '));
    assert!(!is_ident_char('\u{7f}'));
}

#[test]
fn kinds_and_their_numbers() {
    assert_eq!(SyntaxKind::WHITESPACE.raw(), 0);
    assert_eq!(SyntaxKind::ROOT_STMT.raw(), 43);
    assert_eq!(SyntaxKind::from_raw(16), Some(SyntaxKind::OPERATOR));
    assert_eq!(SyntaxKind::from_raw(44), None);
    for raw in 0..44u16 {
        assert_eq!(SyntaxKind::from_raw(raw).unwrap().raw(), raw);
    }
}

#[test]
fn option_names() {
    assert_eq!(TrailingComma::from_name("never"), Some(TrailingComma::Never));
    assert_eq!(TrailingComma::from_name("always"), Some(TrailingComma::Always));
    assert_eq!(TrailingComma::from_name("only-multi-line"), Some(TrailingComma::OnlyMultiLine));
    assert_eq!(TrailingComma::from_name("sometimes"), None);
    assert_eq!(OperatorLineBreak::from_name("before"), Some(OperatorLineBreak::Before));
    assert_eq!(OperatorLineBreak::from_name("after"), Some(OperatorLineBreak::After));
    assert_eq!(OperatorLineBreak::from_name(""), None);
    assert_eq!(LineBreak::from_name("lf"), Some(LineBreak::Lf));
    assert_eq!(LineBreak::from_name("crlf"), Some(LineBreak::Crlf));
    assert_eq!(LineBreak::from_name("LF"), None);
}

#[test]
fn defaults() {
    let options = FormatOptions::default();
    assert_eq!(options.layout.print_width, 80);
    assert_eq!(options.layout.indent_width, 2);
    assert!(!options.layout.use_tabs);
    assert_eq!(options.layout.line_break, LineBreak::Lf);
    assert_eq!(options.language.operator_linebreak, OperatorLineBreak::After);
    assert_eq!(options.language.trailing_comma, TrailingComma::OnlyMultiLine);
    assert_eq!(options.language.args_trailing_comma, None);
    assert!(!options.language.prefer_single_line);
    assert!(!options.language.brace_spacing);
}

#[test]
fn document_extent_and_layout() {
    let doc = Document::pair(
        Document::text("ab"),
        Document::pair(Document::LineOrSpace, Document::text("\u{e9}")).nest(3),
    )
    .group();
    assert_eq!(doc.extent(), Some(8 + 1 + 4 + 3));
    let narrow = LayoutOptions { print_width: 2, ..Default::default() };
    assert_eq!(lay_out(&doc, &narrow), Ok("ab\n   \u{e9}".to_string()));
    assert_eq!(lay_out(&doc, &LayoutOptions::default()), Ok("ab \u{e9}".to_string()));
    let broken = LayoutOptions { indent_width: 0, ..Default::default() };
    assert_eq!(lay_out(&doc, &broken), Err(LayoutError::ZeroIndentWidth));
    let huge = Document::text("a").nest(usize::MAX);
    assert_eq!(huge.extent(), None);
    assert_eq!(lay_out(&huge, &LayoutOptions::default()), Err(LayoutError::TooLarge));
}

#[test]
fn formatting_statements_twice_changes_nothing() {
    let options = FormatOptions {
        layout: LayoutOptions { print_width: 24, ..Default::default() },
        language: Default::default(),
    };
    for source in [
        "for item , other in aaaaaaaaaaaa | bbbbbbbbbbbb if cccccccccccc",
        "macro render ( first , second = [ 1 , 2 ] , third = 'x' )",
        "call ( item , other ) render_all ( list , key = value )",
        "set a , b = ( cccccccccccc , dddddddddddd , eeeeeeeeeeee )",
        "with a = b | f ( 1 )",
        "from 'forms.html' import input as input_field , textarea",
    ] {
        let once = format_stmt(source, &options).unwrap();
        assert!(parse_stmt(&once).is_ok());
        assert_eq!(format_stmt(&once, &options).unwrap(), once);
    }
}

#[test]
fn attribute_of_a_number_is_condensed_into_what_parses_no_more() {
    let out = expr("1 . real");
    assert_eq!(out, "1.real");
    assert!(parse_expr(&out).is_err());
}

#[test]
fn call_header_resolves_params_and_args_apart() {
    let options = FormatOptions {
        layout: Default::default(),
        language: LanguageOptions {
            params_paren_spacing: true,
            args_trailing_comma: Some(TrailingComma::Always),
            ..Default::default()
        },
    };
    assert_eq!(
        format_stmt("call(a, b) f(1, 2)", &options).unwrap(),
        "call( a, b ) f(1, 2,)"
    );
}
