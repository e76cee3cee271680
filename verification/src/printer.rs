//! The printer: the layout document of a syntax tree under given options.

use crate::config::{LanguageOptions, ListKind, OperatorLineBreak, TrailingComma};
use crate::doc::{doc_views, lemma_doc_views_index, push_doc, Document, DocView};
use crate::syntax::{lemma_views_index, views, Syntax, SyntaxElement, SyntaxKind};
use vstd::prelude::*;
use vstd::string::*;

verus! {

/// How the tokens among a node's children are printed.
#[derive(Clone, Copy, Debug, PartialEq, Eq, Structural)]
pub enum Style {
    /// Every token as its text.
    Plain,
    /// Operators with a space on one side and a possible break on the other.
    Operator,
    /// The operator `is`, with what follows it indented where the line breaks.
    Test,
    /// The colon of a dictionary entry with a space after it.
    DictItem,
    /// The keywords of a conditional on a line of their own where it breaks.
    Conditional,
    /// A unary operator with a space after it.
    Unary,
    /// The keywords and commas of a `for` header.
    Loop,
    /// The keyword, commas, `=` and filters of a `set` header.
    Assign,
    /// The keyword, commas and `=` of a `with` header.
    Scope,
    /// The keyword and commas of a header without a grammar of its own.
    Unknown,
}

/// One space.
pub open spec fn space() -> DocView {
    DocView::Text(" "@)
}

/// `inner` indented by `iw` columns.
pub open spec fn nested(iw: nat, inner: DocView) -> DocView {
    DocView::Nest(iw, Box::new(inner))
}

/// `parts` as one group.
pub open spec fn grouped(parts: Seq<DocView>) -> DocView {
    DocView::Group(Box::new(DocView::List(parts)))
}

/// An operator with a space on one side and, on the side that the options
/// choose, a break that becomes a space where the line fits.
pub open spec fn operator_doc(text: Seq<char>, o: LanguageOptions, iw: nat) -> DocView {
    match o.operator_linebreak {
        OperatorLineBreak::Before => DocView::List(
            seq![nested(iw, DocView::LineOrSpace), DocView::Text(text), space()],
        ),
        OperatorLineBreak::After => DocView::List(
            seq![space(), DocView::Text(text), nested(iw, DocView::LineOrSpace)],
        ),
    }
}

/// The operator of a test, with a space on one side; where the options
/// break before operators, with the break before it.
pub open spec fn test_operator_doc(text: Seq<char>, o: LanguageOptions, iw: nat) -> DocView {
    match o.operator_linebreak {
        OperatorLineBreak::Before => nested(
            iw,
            DocView::List(seq![DocView::LineOrSpace, DocView::Text(text), space()]),
        ),
        OperatorLineBreak::After => DocView::List(seq![space(), DocView::Text(text)]),
    }
}

/// What follows the operator of a test, indented; where the options break
/// after operators, with the break before it.
pub open spec fn test_operand_doc(operand: DocView, o: LanguageOptions, iw: nat) -> DocView {
    match o.operator_linebreak {
        OperatorLineBreak::Before => nested(iw, operand),
        OperatorLineBreak::After => nested(
            iw,
            DocView::List(seq![DocView::LineOrSpace, operand]),
        ),
    }
}

/// The text followed by one space.
pub open spec fn spaced(text: Seq<char>) -> DocView {
    DocView::List(seq![DocView::Text(text), space()])
}

/// The document of a token of `kind` and `text` under `style`.
pub open spec fn token_doc(
    style: Style,
    kind: SyntaxKind,
    text: Seq<char>,
    o: LanguageOptions,
    iw: nat,
) -> DocView {
    match style {
        Style::Plain => DocView::Text(text),
        Style::Operator => if kind == SyntaxKind::OPERATOR {
            operator_doc(text, o, iw)
        } else {
            DocView::Text(text)
        },
        Style::Test => if kind == SyntaxKind::OPERATOR {
            test_operator_doc(text, o, iw)
        } else {
            DocView::Text(text)
        },
        Style::DictItem => if kind == SyntaxKind::COLON {
            DocView::Text(": "@)
        } else {
            DocView::Text(text)
        },
        Style::Conditional => if kind == SyntaxKind::KEYWORD {
            DocView::List(seq![DocView::LineOrSpace, spaced(text)])
        } else {
            DocView::Text(text)
        },
        Style::Unary => if kind == SyntaxKind::OPERATOR {
            spaced(text)
        } else {
            DocView::Text(text)
        },
        Style::Loop => if kind == SyntaxKind::KEYWORD {
            if text == "for"@ {
                DocView::Text("for "@)
            } else if text == "recursive"@ {
                DocView::Text(" recursive"@)
            } else if text == "if"@ {
                DocView::List(seq![DocView::LineOrSpace, DocView::Text("if "@)])
            } else {
                DocView::Text(" "@ + text + " "@)
            }
        } else if kind == SyntaxKind::COMMA {
            DocView::Text(", "@)
        } else {
            DocView::Text(text)
        },
        Style::Assign | Style::Scope => if kind == SyntaxKind::KEYWORD || kind == SyntaxKind::COMMA {
            spaced(text)
        } else if kind == SyntaxKind::EQ {
            DocView::List(seq![space(), DocView::Text(text), space()])
        } else if kind == SyntaxKind::OPERATOR && style == Style::Assign {
            operator_doc(text, o, iw)
        } else {
            DocView::Text(text)
        },
        Style::Unknown => if kind == SyntaxKind::KEYWORD || kind == SyntaxKind::COMMA {
            spaced(text)
        } else {
            DocView::Text(text)
        },
    }
}

/// Whether `t` is a white-space token.
pub open spec fn is_trivia(t: Syntax) -> bool {
    t matches Syntax::Token { kind, .. } && kind == SyntaxKind::WHITESPACE
}

/// Whether `t` is a token of `kind`.
pub open spec fn is_token(t: Syntax, kind: SyntaxKind) -> bool {
    t matches Syntax::Token { kind: k, .. } && k == kind
}

/// Whether one of `children[i..end]` is a node.
pub open spec fn has_node(children: Seq<Syntax>, i: int, end: int) -> bool
    decreases end - i,
{
    if 0 <= i < end <= children.len() {
        children[i] is Node || has_node(children, i + 1, end)
    } else {
        false
    }
}

/// The number of nodes among `children[i..]`.
pub open spec fn node_count(children: Seq<Syntax>, i: int) -> nat
    decreases children.len() - i,
{
    if 0 <= i < children.len() {
        (if children[i] is Node { 1nat } else { 0nat }) + node_count(children, i + 1)
    } else {
        0
    }
}

/// Whether the first of `children[i..]` that is no white space is a node.
pub open spec fn node_follows(children: Seq<Syntax>, i: int) -> bool
    decreases children.len() - i,
{
    if 0 <= i < children.len() {
        if is_trivia(children[i]) {
            node_follows(children, i + 1)
        } else {
            children[i] is Node
        }
    } else {
        false
    }
}

/// The index of the first of `children[i..end]` that is a token of `kind`,
/// or `end` where there is none.
pub open spec fn find_token(children: Seq<Syntax>, i: int, end: int, kind: SyntaxKind) -> int
    decreases end - i,
{
    if 0 <= i < end <= children.len() {
        if is_token(children[i], kind) {
            i
        } else {
            find_token(children, i + 1, end, kind)
        }
    } else {
        end
    }
}

/// The index of the first of `children[i..]` that is a node, or the number
/// of children where there is none.
pub open spec fn find_node(children: Seq<Syntax>, i: int) -> int
    decreases children.len() - i,
{
    if 0 <= i < children.len() {
        if children[i] is Node {
            i
        } else {
            find_node(children, i + 1)
        }
    } else {
        children.len() as int
    }
}

/// Whether `text` holds a line feed.
pub open spec fn has_newline(text: Seq<char>) -> bool {
    exists|j: int| 0 <= j < text.len() && text[j] == '\n'
}

/// Whether `kind` is the kind of an opening delimiter.
pub open spec fn opens(kind: SyntaxKind) -> bool {
    kind == SyntaxKind::L_PAREN || kind == SyntaxKind::L_BRACKET || kind == SyntaxKind::L_BRACE
}

/// Whether `kind` is the kind of a closing delimiter.
pub open spec fn closes(kind: SyntaxKind) -> bool {
    kind == SyntaxKind::R_PAREN || kind == SyntaxKind::R_BRACKET || kind == SyntaxKind::R_BRACE
}

/// What follows the last element of a list under `policy`: nothing, a
/// comma, or a comma only where the list is broken.
pub open spec fn trailing_comma_doc(policy: TrailingComma) -> DocView {
    match policy {
        TrailingComma::Never => DocView::Nil,
        TrailingComma::Always => DocView::Text(","@),
        TrailingComma::OnlyMultiLine => DocView::TextIfBroken(","@),
    }
}

/// The break inside a delimiter: a space where `spacing` holds and the list
/// is flat, nothing otherwise, and a line break where the list is broken.
pub open spec fn delimiter_break(spacing: bool) -> DocView {
    if spacing {
        DocView::LineOrSpace
    } else {
        DocView::LineOrNil
    }
}

/// The break after an opening delimiter: mandatory where the source has a
/// line break right after the delimiter and `single_line` does not hold.
pub open spec fn opening_break(
    children: Seq<Syntax>,
    next: int,
    end: int,
    single_line: bool,
    spacing: bool,
) -> DocView {
    if !single_line && 0 <= next < end <= children.len() && is_trivia(children[next])
        && has_newline(children[next]->text) {
        DocView::HardLine
    } else {
        delimiter_break(spacing)
    }
}

/// An element of a list that is not the last: the element, a comma, and a
/// break that becomes a space where the list is flat.
pub open spec fn inner_item_doc(item: DocView, iw: nat) -> DocView {
    nested(iw, DocView::List(seq![item, DocView::Text(","@), DocView::LineOrSpace]))
}

/// The last element of a list: the element and what `policy` puts after it.
pub open spec fn last_item_doc(item: DocView, policy: TrailingComma, iw: nat) -> DocView {
    nested(iw, DocView::List(seq![item, trailing_comma_doc(policy)]))
}

/// The document of a tree. `in_bin` says that the tree is an operand of a
/// binary operator, where a chain of operators forms no group of its own.
pub open spec fn print_spec(t: Syntax, in_bin: bool, o: LanguageOptions, iw: nat) -> DocView
    decreases t, 0nat,
{
    match t {
        Syntax::Token { text, .. } => DocView::Text(text),
        Syntax::Node { kind, children } => {
            let n = children.len() as int;
            match kind {
                SyntaxKind::ARG
                | SyntaxKind::PARAM
                | SyntaxKind::EXPR_GET_ATTR
                | SyntaxKind::EXPR_GET_ITEM
                | SyntaxKind::EXPR_PAREN => DocView::List(
                    pieces(children, 0, Style::Plain, false, o, iw),
                ),
                SyntaxKind::EXPR_BIN => if in_bin {
                    DocView::List(pieces(children, 0, Style::Operator, true, o, iw))
                } else {
                    grouped(pieces(children, 0, Style::Operator, true, o, iw))
                },
                SyntaxKind::EXPR_CONCAT | SyntaxKind::EXPR_FILTER => grouped(
                    pieces(children, 0, Style::Operator, false, o, iw),
                ),
                SyntaxKind::EXPR_TEST => grouped(pieces(children, 0, Style::Test, false, o, iw)),
                SyntaxKind::EXPR_DICT_ITEM => DocView::List(
                    pieces(children, 0, Style::DictItem, false, o, iw),
                ),
                SyntaxKind::EXPR_IF => grouped(pieces(children, 0, Style::Conditional, false, o, iw)),
                SyntaxKind::EXPR_UNARY => DocView::List(
                    pieces(children, 0, Style::Unary, false, o, iw),
                ),
                SyntaxKind::STMT_FOR => grouped(pieces(children, 0, Style::Loop, false, o, iw)),
                SyntaxKind::STMT_SET => grouped(pieces(children, 0, Style::Assign, false, o, iw)),
                SyntaxKind::STMT_WITH => DocView::List(
                    pieces(children, 0, Style::Scope, false, o, iw),
                ),
                SyntaxKind::STMT_UNKNOWN => DocView::List(
                    pieces(children, 0, Style::Unknown, false, o, iw),
                ),
                SyntaxKind::EXPR_IDENT | SyntaxKind::EXPR_LITERAL => first_text(children),
                SyntaxKind::EXPR_DICT => comma_list(
                    children,
                    0,
                    n,
                    ListKind::Dict,
                    o.trailing_comma_spec(ListKind::Dict),
                    o,
                    iw,
                ),
                SyntaxKind::EXPR_LIST => comma_list(
                    children,
                    0,
                    n,
                    ListKind::List,
                    o.trailing_comma_spec(ListKind::List),
                    o,
                    iw,
                ),
                SyntaxKind::EXPR_TUPLE => comma_list(
                    children,
                    0,
                    n,
                    ListKind::Tuple,
                    if node_count(children, 0) == 1 {
                        TrailingComma::Always
                    } else {
                        o.trailing_comma_spec(ListKind::Tuple)
                    },
                    o,
                    iw,
                ),
                SyntaxKind::EXPR_CALL => {
                    let open = find_token(children, 0, n, SyntaxKind::L_PAREN);
                    let callee = if n > 0 {
                        print_spec(children[0], false, o, iw)
                    } else {
                        DocView::Nil
                    };
                    if open < n {
                        DocView::List(
                            seq![
                                callee,
                                comma_list(
                                    children,
                                    open,
                                    n,
                                    ListKind::Args,
                                    o.trailing_comma_spec(ListKind::Args),
                                    o,
                                    iw,
                                ),
                            ],
                        )
                    } else {
                        let at = find_node(children, 1);
                        let arg = if 1 <= at < n {
                            print_spec(children[at], false, o, iw)
                        } else {
                            DocView::Nil
                        };
                        DocView::List(seq![callee, bare_argument(arg, o, iw)])
                    }
                },
                SyntaxKind::STMT_MACRO | SyntaxKind::STMT_FILTER => {
                    let name = find_token(children, 0, n, SyntaxKind::IDENT);
                    let open = find_token(children, 0, n, SyntaxKind::L_PAREN);
                    DocView::List(
                        seq![
                            DocView::Text(
                                if kind == SyntaxKind::STMT_MACRO {
                                    "macro "@
                                } else {
                                    "filter "@
                                },
                            ),
                            token_text(children, name),
                            comma_list(
                                children,
                                open,
                                n,
                                ListKind::Params,
                                o.trailing_comma_spec(ListKind::Params),
                                o,
                                iw,
                            ),
                        ],
                    )
                },
                SyntaxKind::STMT_CALL => {
                    let name = find_token(children, 0, n, SyntaxKind::IDENT);
                    DocView::List(
                        seq![
                            DocView::Text("call"@),
                            comma_list(
                                children,
                                find_token(children, 0, name, SyntaxKind::L_PAREN),
                                name,
                                ListKind::Params,
                                o.trailing_comma_spec(ListKind::Params),
                                o,
                                iw,
                            ),
                            space(),
                            token_text(children, name),
                            comma_list(
                                children,
                                find_token(children, name + 1, n, SyntaxKind::L_PAREN),
                                n,
                                ListKind::Args,
                                o.trailing_comma_spec(ListKind::Args),
                                o,
                                iw,
                            ),
                        ],
                    )
                },
                SyntaxKind::ROOT_EXPR | SyntaxKind::ROOT_STMT => {
                    let at = find_node(children, 0);
                    if 0 <= at < n {
                        print_spec(children[at], false, o, iw)
                    } else {
                        DocView::Nil
                    }
                },
                _ => DocView::Nil,
            }
        },
    }
}

/// The text of the first child, where it is a token.
pub open spec fn first_text(children: Seq<Syntax>) -> DocView {
    token_text(children, 0)
}

/// The text of the child at `i`, where there is one and it is a token.
pub open spec fn token_text(children: Seq<Syntax>, i: int) -> DocView {
    if 0 <= i < children.len() && children[i] is Token {
        DocView::Text(children[i]->text)
    } else {
        DocView::Nil
    }
}

/// The argument list of a test that was written without parentheses: the
/// one argument between `(` and `)`, laid out as an argument list.
pub open spec fn bare_argument(arg: DocView, o: LanguageOptions, iw: nat) -> DocView {
    grouped(
        seq![
            nested(
                iw,
                DocView::List(
                    seq![DocView::Text("("@), delimiter_break(o.spacing_spec(ListKind::Args))],
                ),
            ),
            last_item_doc(arg, o.trailing_comma_spec(ListKind::Args), iw),
            DocView::List(
                seq![delimiter_break(o.spacing_spec(ListKind::Args)), DocView::Text(")"@)],
            ),
        ],
    )
}

/// The documents of `children[i..]` that are no white space, under `style`.
/// `in_bin` says that the children are those of a binary operator.
pub open spec fn pieces(
    children: Seq<Syntax>,
    i: int,
    style: Style,
    in_bin: bool,
    o: LanguageOptions,
    iw: nat,
) -> Seq<DocView>
    decreases children, children.len() - i,
{
    if 0 <= i < children.len() {
        let rest = pieces(children, i + 1, style, in_bin, o, iw);
        match children[i] {
            Syntax::Token { kind, text } => if kind == SyntaxKind::WHITESPACE {
                rest
            } else {
                seq![token_doc(style, kind, text, o, iw)] + rest
            },
            Syntax::Node { .. } => {
                let doc = print_spec(children[i], in_bin, o, iw);
                if style == Style::Unknown && node_follows(children, i + 1) {
                    seq![DocView::List(seq![doc, space()])] + rest
                } else if style == Style::Test && i > 0 {
                    seq![test_operand_doc(doc, o, iw)] + rest
                } else {
                    seq![doc] + rest
                }
            },
        }
    } else {
        Seq::empty()
    }
}

/// The bracketed, comma-separated list made of `children[start..end]`, as
/// one group. `policy` is the trailing-comma policy in force.
pub open spec fn comma_list(
    children: Seq<Syntax>,
    start: int,
    end: int,
    list: ListKind,
    policy: TrailingComma,
    o: LanguageOptions,
    iw: nat,
) -> DocView
    decreases children, children.len() + 1,
{
    if 0 <= start <= children.len() {
        grouped(comma_items(children, start, end, list, policy, o, iw))
    } else {
        grouped(Seq::empty())
    }
}

/// The documents of `children[i..end]` that are no white space, as parts of
/// a bracketed, comma-separated list.
pub open spec fn comma_items(
    children: Seq<Syntax>,
    i: int,
    end: int,
    list: ListKind,
    policy: TrailingComma,
    o: LanguageOptions,
    iw: nat,
) -> Seq<DocView>
    decreases children, children.len() - i,
{
    if 0 <= i < end <= children.len() {
        let rest = comma_items(children, i + 1, end, list, policy, o, iw);
        match children[i] {
            Syntax::Token { kind, text } => if kind == SyntaxKind::WHITESPACE {
                rest
            } else if kind == SyntaxKind::COMMA {
                seq![DocView::Nil] + rest
            } else if opens(kind) {
                seq![
                    nested(
                        iw,
                        DocView::List(
                            seq![
                                DocView::Text(text),
                                opening_break(
                                    children,
                                    i + 1,
                                    end,
                                    o.prefer_single_line_spec(list),
                                    o.spacing_spec(list),
                                ),
                            ],
                        ),
                    ),
                ] + rest
            } else if closes(kind) {
                seq![
                    DocView::List(
                        seq![delimiter_break(o.spacing_spec(list)), DocView::Text(text)],
                    ),
                ] + rest
            } else {
                seq![DocView::Text(text)] + rest
            },
            Syntax::Node { .. } => {
                let doc = print_spec(children[i], false, o, iw);
                if has_node(children, i + 1, end) {
                    seq![inner_item_doc(doc, iw)] + rest
                } else {
                    seq![last_item_doc(doc, policy, iw)] + rest
                }
            },
        }
    } else {
        Seq::empty()
    }
}

/// An empty list of documents.
fn no_docs() -> (docs: Vec<Document>)
    ensures
        doc_views(docs@) == Seq::<DocView>::empty(),
{
    let docs: Vec<Document> = Vec::new();
    proof {
        lemma_doc_views_index(docs@);
        assert(doc_views(docs@) =~= Seq::<DocView>::empty());
    }
    docs
}

/// The documents `a`, `b` and `c` one after another.
fn list3(a: Document, b: Document, c: Document) -> (d: Document)
    ensures
        d@ == DocView::List(seq![a@, b@, c@]),
{
    let mut parts = no_docs();
    push_doc(&mut parts, a);
    push_doc(&mut parts, b);
    push_doc(&mut parts, c);
    proof {
        assert(doc_views(parts@) =~= seq![a@, b@, c@]);
    }
    Document::list(parts)
}

/// One space.
fn space_doc() -> (d: Document)
    ensures
        d@ == space(),
{
    Document::text(" ")
}

/// The text followed by one space.
fn spaced_doc(text: &String) -> (d: Document)
    ensures
        d@ == spaced(text@),
{
    Document::pair(Document::Text(text.clone()), space_doc())
}

/// The document of an operator.
fn operator(text: &String, o: &LanguageOptions, iw: usize) -> (d: Document)
    ensures
        d@ == operator_doc(text@, *o, iw as nat),
{
    match o.operator_linebreak {
        OperatorLineBreak::Before => list3(
            Document::LineOrSpace.nest(iw),
            Document::Text(text.clone()),
            space_doc(),
        ),
        OperatorLineBreak::After => list3(
            space_doc(),
            Document::Text(text.clone()),
            Document::LineOrSpace.nest(iw),
        ),
    }
}

/// The document of the operator of a test.
fn test_operator(text: &String, o: &LanguageOptions, iw: usize) -> (d: Document)
    ensures
        d@ == test_operator_doc(text@, *o, iw as nat),
{
    match o.operator_linebreak {
        OperatorLineBreak::Before => list3(
            Document::LineOrSpace,
            Document::Text(text.clone()),
            space_doc(),
        ).nest(iw),
        OperatorLineBreak::After => Document::pair(space_doc(), Document::Text(text.clone())),
    }
}

/// The document of what follows the operator of a test.
fn test_operand(operand: Document, o: &LanguageOptions, iw: usize) -> (d: Document)
    ensures
        d@ == test_operand_doc(operand@, *o, iw as nat),
{
    match o.operator_linebreak {
        OperatorLineBreak::Before => operand.nest(iw),
        OperatorLineBreak::After => Document::pair(Document::LineOrSpace, operand).nest(iw),
    }
}

/// Whether `text` is `word`.
fn is_word(text: &String, word: &str) -> (r: bool)
    ensures
        r == (text@ == word@),
{
    let other = String::from_str(word);
    text.eq(&other)
}

/// The document of a token of `kind` and `text` under `style`.
fn doc_of_token(style: Style, kind: SyntaxKind, text: &String, o: &LanguageOptions, iw: usize) -> (d:
    Document)
    ensures
        d@ == token_doc(style, kind, text@, *o, iw as nat),
{
    match style {
        Style::Plain => Document::Text(text.clone()),
        Style::Operator => if kind == SyntaxKind::OPERATOR {
            operator(text, o, iw)
        } else {
            Document::Text(text.clone())
        },
        Style::Test => if kind == SyntaxKind::OPERATOR {
            test_operator(text, o, iw)
        } else {
            Document::Text(text.clone())
        },
        Style::DictItem => if kind == SyntaxKind::COLON {
            Document::text(": ")
        } else {
            Document::Text(text.clone())
        },
        Style::Conditional => if kind == SyntaxKind::KEYWORD {
            Document::pair(Document::LineOrSpace, spaced_doc(text))
        } else {
            Document::Text(text.clone())
        },
        Style::Unary => if kind == SyntaxKind::OPERATOR {
            spaced_doc(text)
        } else {
            Document::Text(text.clone())
        },
        Style::Loop => if kind == SyntaxKind::KEYWORD {
            if is_word(text, "for") {
                Document::text("for ")
            } else if is_word(text, "recursive") {
                Document::text(" recursive")
            } else if is_word(text, "if") {
                Document::pair(Document::LineOrSpace, Document::text("if "))
            } else {
                Document::Text(String::from_str(" ").concat(text.as_str()).concat(" "))
            }
        } else if kind == SyntaxKind::COMMA {
            Document::text(", ")
        } else {
            Document::Text(text.clone())
        },
        Style::Assign | Style::Scope => if kind == SyntaxKind::KEYWORD || kind
            == SyntaxKind::COMMA {
            spaced_doc(text)
        } else if kind == SyntaxKind::EQ {
            list3(space_doc(), Document::Text(text.clone()), space_doc())
        } else if kind == SyntaxKind::OPERATOR && style == Style::Assign {
            operator(text, o, iw)
        } else {
            Document::Text(text.clone())
        },
        Style::Unknown => if kind == SyntaxKind::KEYWORD || kind == SyntaxKind::COMMA {
            spaced_doc(text)
        } else {
            Document::Text(text.clone())
        },
    }
}

/// Whether `e` is a node.
fn is_node(e: &SyntaxElement) -> (r: bool)
    ensures
        r == (e@ is Node),
{
    match e {
        SyntaxElement::Node { .. } => true,
        SyntaxElement::Token { .. } => false,
    }
}

/// Whether `e` is a token of `kind`.
fn is_token_of(e: &SyntaxElement, kind: SyntaxKind) -> (r: bool)
    ensures
        r == is_token(e@, kind),
{
    match e {
        SyntaxElement::Node { .. } => false,
        SyntaxElement::Token { kind: k, .. } => *k == kind,
    }
}

/// Whether one of `children[start..end]` is a node.
fn any_node(children: &Vec<SyntaxElement>, start: usize, end: usize) -> (r: bool)
    requires
        end <= children.len(),
    ensures
        r == has_node(views(children@), start as int, end as int),
{
    proof {
        lemma_views_index(children@);
    }
    let mut i = start;
    while i < end
        invariant
            end <= children.len(),
            views(children@).len() == children.len(),
            forall|j: int| 0 <= j < children.len() ==> (#[trigger] views(children@)[j]) == children[j]@,
            has_node(views(children@), start as int, end as int) == has_node(
                views(children@),
                i as int,
                end as int,
            ),
        decreases end - i,
    {
        if is_node(&children[i]) {
            return true;
        }
        i += 1;
    }
    false
}

/// The number of nodes among `children`.
fn count_nodes(children: &Vec<SyntaxElement>) -> (n: usize)
    ensures
        n == node_count(views(children@), 0),
{
    proof {
        lemma_views_index(children@);
    }
    let mut i: usize = children.len();
    let mut n: usize = 0;
    while i > 0
        invariant
            i <= children.len(),
            n <= children.len() - i,
            views(children@).len() == children.len(),
            forall|j: int| 0 <= j < children.len() ==> (#[trigger] views(children@)[j]) == children[j]@,
            n == node_count(views(children@), i as int),
        decreases i,
    {
        i -= 1;
        if is_node(&children[i]) {
            n += 1;
        }
    }
    n
}

/// Whether the first of `children[start..]` that is no white space is a node.
fn node_after(children: &Vec<SyntaxElement>, start: usize) -> (r: bool)
    ensures
        r == node_follows(views(children@), start as int),
{
    proof {
        lemma_views_index(children@);
    }
    let mut i = start;
    while i < children.len()
        invariant
            views(children@).len() == children.len(),
            forall|j: int| 0 <= j < children.len() ==> (#[trigger] views(children@)[j]) == children[j]@,
            node_follows(views(children@), start as int) == node_follows(
                views(children@),
                i as int,
            ),
        decreases children.len() - i,
    {
        if !is_token_of(&children[i], SyntaxKind::WHITESPACE) {
            return is_node(&children[i]);
        }
        i += 1;
    }
    false
}

/// The index of the first of `children[start..end]` that is a token of
/// `kind`, or `end`.
fn first_token(children: &Vec<SyntaxElement>, start: usize, end: usize, kind: SyntaxKind) -> (r:
    usize)
    requires
        end <= children.len(),
    ensures
        r == find_token(views(children@), start as int, end as int, kind),
        r <= end,
        start <= end ==> start <= r,
{
    proof {
        lemma_views_index(children@);
    }
    let mut i = start;
    while i < end
        invariant
            end <= children.len(),
            start <= i,
            views(children@).len() == children.len(),
            forall|j: int| 0 <= j < children.len() ==> (#[trigger] views(children@)[j]) == children[j]@,
            find_token(views(children@), start as int, end as int, kind) == find_token(
                views(children@),
                i as int,
                end as int,
                kind,
            ),
        decreases end - i,
    {
        if is_token_of(&children[i], kind) {
            return i;
        }
        i += 1;
    }
    end
}

/// The index of the first of `children[start..]` that is a node, or the
/// number of children.
fn first_node(children: &Vec<SyntaxElement>, start: usize) -> (r: usize)
    ensures
        r == find_node(views(children@), start as int),
        r <= children.len(),
        start <= children.len() ==> start <= r,
{
    proof {
        lemma_views_index(children@);
    }
    let mut i = start;
    while i < children.len()
        invariant
            start <= i,
            views(children@).len() == children.len(),
            forall|j: int| 0 <= j < children.len() ==> (#[trigger] views(children@)[j]) == children[j]@,
            find_node(views(children@), start as int) == find_node(views(children@), i as int),
        decreases children.len() - i,
    {
        if is_node(&children[i]) {
            return i;
        }
        i += 1;
    }
    children.len()
}

/// Whether `text` holds a line feed.
fn contains_newline(text: &str) -> (r: bool)
    ensures
        r == has_newline(text@),
{
    let n = text.unicode_len();
    let mut i: usize = 0;
    while i < n
        invariant
            n == text@.len(),
            i <= n,
            forall|j: int| 0 <= j < i ==> text@[j] != '\n',
        decreases n - i,
    {
        if text.get_char(i) == '\n' {
            return true;
        }
        i += 1;
    }
    false
}

/// The text of the child at `i`, where there is one and it is a token.
fn text_of_token(children: &Vec<SyntaxElement>, i: usize) -> (d: Document)
    ensures
        d@ == token_text(views(children@), i as int),
{
    proof {
        lemma_views_index(children@);
    }
    if i < children.len() {
        match &children[i] {
            SyntaxElement::Token { text, .. } => Document::Text(text.clone()),
            SyntaxElement::Node { .. } => Document::Nil,
        }
    } else {
        Document::Nil
    }
}

/// What follows the last element of a list under `policy`.
fn trailing_comma(policy: TrailingComma) -> (d: Document)
    ensures
        d@ == trailing_comma_doc(policy),
{
    match policy {
        TrailingComma::Never => Document::Nil,
        TrailingComma::Always => Document::text(","),
        TrailingComma::OnlyMultiLine => Document::TextIfBroken(String::from_str(",")),
    }
}

/// The break inside a delimiter.
fn break_inside(spacing: bool) -> (d: Document)
    ensures
        d@ == delimiter_break(spacing),
{
    if spacing {
        Document::LineOrSpace
    } else {
        Document::LineOrNil
    }
}

/// The break after an opening delimiter whose next sibling is at `next`.
fn break_after_opening(
    children: &Vec<SyntaxElement>,
    next: usize,
    end: usize,
    single_line: bool,
    spacing: bool,
) -> (d: Document)
    requires
        end <= children.len(),
    ensures
        d@ == opening_break(views(children@), next as int, end as int, single_line, spacing),
{
    proof {
        lemma_views_index(children@);
    }
    if !single_line && next < end {
        match &children[next] {
            SyntaxElement::Token { kind, text } => {
                if *kind == SyntaxKind::WHITESPACE && contains_newline(text.as_str()) {
                    return Document::HardLine;
                }
            },
            SyntaxElement::Node { .. } => {},
        }
    }
    break_inside(spacing)
}

/// The last element of a list.
fn last_item(item: Document, policy: TrailingComma, iw: usize) -> (d: Document)
    ensures
        d@ == last_item_doc(item@, policy, iw as nat),
{
    Document::pair(item, trailing_comma(policy)).nest(iw)
}

/// Prints a tree as a layout document.
pub fn print_node(e: &SyntaxElement, in_bin: bool, o: &LanguageOptions, iw: usize) -> (d: Document)
    ensures
        d@ == print_spec(e@, in_bin, *o, iw as nat),
    decreases e, 0nat,
{
    match e {
        SyntaxElement::Token { text, .. } => Document::Text(text.clone()),
        SyntaxElement::Node { kind, children } => {
            proof {
                lemma_views_index(children@);
            }
            let n = children.len();
            match *kind {
                SyntaxKind::ARG
                | SyntaxKind::PARAM
                | SyntaxKind::EXPR_GET_ATTR
                | SyntaxKind::EXPR_GET_ITEM
                | SyntaxKind::EXPR_PAREN => Document::list(
                    print_pieces(children, Style::Plain, false, o, iw),
                ),
                SyntaxKind::EXPR_BIN => {
                    let chain = Document::list(print_pieces(children, Style::Operator, true, o, iw));
                    if in_bin {
                        chain
                    } else {
                        chain.group()
                    }
                },
                SyntaxKind::EXPR_CONCAT | SyntaxKind::EXPR_FILTER => Document::list(
                    print_pieces(children, Style::Operator, false, o, iw),
                ).group(),
                SyntaxKind::EXPR_TEST => Document::list(
                    print_pieces(children, Style::Test, false, o, iw),
                ).group(),
                SyntaxKind::EXPR_DICT_ITEM => Document::list(
                    print_pieces(children, Style::DictItem, false, o, iw),
                ),
                SyntaxKind::EXPR_IF => Document::list(
                    print_pieces(children, Style::Conditional, false, o, iw),
                ).group(),
                SyntaxKind::EXPR_UNARY => Document::list(
                    print_pieces(children, Style::Unary, false, o, iw),
                ),
                SyntaxKind::STMT_FOR => Document::list(
                    print_pieces(children, Style::Loop, false, o, iw),
                ).group(),
                SyntaxKind::STMT_SET => Document::list(
                    print_pieces(children, Style::Assign, false, o, iw),
                ).group(),
                SyntaxKind::STMT_WITH => Document::list(
                    print_pieces(children, Style::Scope, false, o, iw),
                ),
                SyntaxKind::STMT_UNKNOWN => Document::list(
                    print_pieces(children, Style::Unknown, false, o, iw),
                ),
                SyntaxKind::EXPR_IDENT | SyntaxKind::EXPR_LITERAL => text_of_token(children, 0),
                SyntaxKind::EXPR_DICT => print_comma_list(
                    children,
                    0,
                    n,
                    ListKind::Dict,
                    o.resolve_trailing_comma(ListKind::Dict),
                    o,
                    iw,
                ),
                SyntaxKind::EXPR_LIST => print_comma_list(
                    children,
                    0,
                    n,
                    ListKind::List,
                    o.resolve_trailing_comma(ListKind::List),
                    o,
                    iw,
                ),
                SyntaxKind::EXPR_TUPLE => {
                    let policy = if count_nodes(children) == 1 {
                        TrailingComma::Always
                    } else {
                        o.resolve_trailing_comma(ListKind::Tuple)
                    };
                    print_comma_list(children, 0, n, ListKind::Tuple, policy, o, iw)
                },
                SyntaxKind::EXPR_CALL => {
                    let open = first_token(children, 0, n, SyntaxKind::L_PAREN);
                    let callee = if n > 0 {
                        print_node(&children[0], false, o, iw)
                    } else {
                        Document::Nil
                    };
                    if open < n {
                        Document::pair(
                            callee,
                            print_comma_list(
                                children,
                                open,
                                n,
                                ListKind::Args,
                                o.resolve_trailing_comma(ListKind::Args),
                                o,
                                iw,
                            ),
                        )
                    } else {
                        let at = first_node(children, 1);
                        let arg = if 1 <= at && at < n {
                            print_node(&children[at], false, o, iw)
                        } else {
                            Document::Nil
                        };
                        Document::pair(callee, print_bare_argument(arg, o, iw))
                    }
                },
                SyntaxKind::STMT_MACRO | SyntaxKind::STMT_FILTER => {
                    let name = first_token(children, 0, n, SyntaxKind::IDENT);
                    let open = first_token(children, 0, n, SyntaxKind::L_PAREN);
                    let keyword = if *kind == SyntaxKind::STMT_MACRO {
                        Document::text("macro ")
                    } else {
                        Document::text("filter ")
                    };
                    list3(
                        keyword,
                        text_of_token(children, name),
                        print_comma_list(
                            children,
                            open,
                            n,
                            ListKind::Params,
                            o.resolve_trailing_comma(ListKind::Params),
                            o,
                            iw,
                        ),
                    )
                },
                SyntaxKind::STMT_CALL => {
                    let name = first_token(children, 0, n, SyntaxKind::IDENT);
                    let params_open = first_token(children, 0, name, SyntaxKind::L_PAREN);
                    let args_open = if name < n {
                        first_token(children, name + 1, n, SyntaxKind::L_PAREN)
                    } else {
                        n
                    };
                    let keyword = Document::text("call");
                    let params = print_comma_list(
                        children,
                        params_open,
                        name,
                        ListKind::Params,
                        o.resolve_trailing_comma(ListKind::Params),
                        o,
                        iw,
                    );
                    let callee = text_of_token(children, name);
                    let arguments = print_comma_list(
                        children,
                        args_open,
                        n,
                        ListKind::Args,
                        o.resolve_trailing_comma(ListKind::Args),
                        o,
                        iw,
                    );
                    let ghost model = seq![keyword@, params@, space(), callee@, arguments@];
                    let mut parts = no_docs();
                    push_doc(&mut parts, keyword);
                    push_doc(&mut parts, params);
                    push_doc(&mut parts, space_doc());
                    push_doc(&mut parts, callee);
                    push_doc(&mut parts, arguments);
                    proof {
                        assert(doc_views(parts@) =~= model);
                    }
                    Document::list(parts)
                },
                SyntaxKind::ROOT_EXPR | SyntaxKind::ROOT_STMT => {
                    let at = first_node(children, 0);
                    if at < n {
                        print_node(&children[at], false, o, iw)
                    } else {
                        Document::Nil
                    }
                },
                _ => Document::Nil,
            }
        },
    }
}

/// The argument list of a test that was written without parentheses.
fn print_bare_argument(arg: Document, o: &LanguageOptions, iw: usize) -> (d: Document)
    ensures
        d@ == bare_argument(arg@, *o, iw as nat),
{
    let spacing = o.resolve_spacing(ListKind::Args);
    list3(
        Document::pair(Document::text("("), break_inside(spacing)).nest(iw),
        last_item(arg, o.resolve_trailing_comma(ListKind::Args), iw),
        Document::pair(break_inside(spacing), Document::text(")")),
    ).group()
}

/// Prints the children that are no white space, under `style`.
fn print_pieces(
    children: &Vec<SyntaxElement>,
    style: Style,
    in_bin: bool,
    o: &LanguageOptions,
    iw: usize,
) -> (docs: Vec<Document>)
    ensures
        doc_views(docs@) == pieces(views(children@), 0, style, in_bin, *o, iw as nat),
    decreases children, 0nat,
{
    let mut docs = no_docs();
    let mut i: usize = 0;
    let ghost model = views(children@);
    proof {
        lemma_views_index(children@);
    }
    while i < children.len()
        invariant
            i <= children.len(),
            model == views(children@),
            model.len() == children.len(),
            forall|j: int| 0 <= j < children.len() ==> (#[trigger] model[j]) == children[j]@,
            doc_views(docs@) + pieces(model, i as int, style, in_bin, *o, iw as nat) == pieces(
                model,
                0,
                style,
                in_bin,
                *o,
                iw as nat,
            ),
        decreases children.len() - i,
    {
        let ghost before = doc_views(docs@);
        let ghost rest = pieces(model, i + 1, style, in_bin, *o, iw as nat);
        match &children[i] {
            SyntaxElement::Token { kind, text } => {
                if !(*kind == SyntaxKind::WHITESPACE) {
                    let d = doc_of_token(style, *kind, text, o, iw);
                    proof {
                        assert(before.push(d@) + rest =~= before + (seq![d@] + rest));
                    }
                    push_doc(&mut docs, d);
                }
            },
            SyntaxElement::Node { .. } => {
                let doc = print_node(&children[i], in_bin, o, iw);
                let d = if style == Style::Unknown && node_after(children, i + 1) {
                    Document::pair(doc, space_doc())
                } else if style == Style::Test && i > 0 {
                    test_operand(doc, o, iw)
                } else {
                    doc
                };
                proof {
                    assert(before.push(d@) + rest =~= before + (seq![d@] + rest));
                }
                push_doc(&mut docs, d);
            },
        }
        i += 1;
    }
    proof {
        assert(doc_views(docs@) + Seq::<DocView>::empty() =~= doc_views(docs@));
    }
    docs
}

/// Prints `children[start..end]` as a bracketed, comma-separated list.
fn print_comma_list(
    children: &Vec<SyntaxElement>,
    start: usize,
    end: usize,
    list: ListKind,
    policy: TrailingComma,
    o: &LanguageOptions,
    iw: usize,
) -> (d: Document)
    requires
        end <= children.len(),
    ensures
        d@ == comma_list(views(children@), start as int, end as int, list, policy, *o, iw as nat),
    decreases children, 0nat,
{
    let mut docs = no_docs();
    let ghost model = views(children@);
    proof {
        lemma_views_index(children@);
    }
    if start > children.len() {
        return Document::list(docs).group();
    }
    let spacing = o.resolve_spacing(list);
    let single_line = o.resolve_prefer_single_line(list);
    let mut i: usize = start;
    while i < end
        invariant
            start <= i,
            end <= children.len(),
            model == views(children@),
            model.len() == children.len(),
            spacing == o.spacing_spec(list),
            single_line == o.prefer_single_line_spec(list),
            forall|j: int| 0 <= j < children.len() ==> (#[trigger] model[j]) == children[j]@,
            doc_views(docs@) + comma_items(
                model,
                i as int,
                end as int,
                list,
                policy,
                *o,
                iw as nat,
            ) == comma_items(model, start as int, end as int, list, policy, *o, iw as nat),
        decreases end - i,
    {
        let ghost before = doc_views(docs@);
        let ghost rest = comma_items(model, i + 1, end as int, list, policy, *o, iw as nat);
        match &children[i] {
            SyntaxElement::Token { kind, text } => {
                if !(*kind == SyntaxKind::WHITESPACE) {
                    let d = if *kind == SyntaxKind::COMMA {
                        Document::Nil
                    } else if *kind == SyntaxKind::L_PAREN || *kind == SyntaxKind::L_BRACKET
                        || *kind == SyntaxKind::L_BRACE {
                        Document::pair(
                            Document::Text(text.clone()),
                            break_after_opening(children, i + 1, end, single_line, spacing),
                        ).nest(iw)
                    } else if *kind == SyntaxKind::R_PAREN || *kind == SyntaxKind::R_BRACKET
                        || *kind == SyntaxKind::R_BRACE {
                        Document::pair(break_inside(spacing), Document::Text(text.clone()))
                    } else {
                        Document::Text(text.clone())
                    };
                    proof {
                        assert(before.push(d@) + rest =~= before + (seq![d@] + rest));
                    }
                    push_doc(&mut docs, d);
                }
            },
            SyntaxElement::Node { .. } => {
                let doc = print_node(&children[i], false, o, iw);
                let d = if any_node(children, i + 1, end) {
                    list3(doc, Document::text(","), Document::LineOrSpace).nest(iw)
                } else {
                    last_item(doc, policy, iw)
                };
                proof {
                    assert(before.push(d@) + rest =~= before + (seq![d@] + rest));
                }
                push_doc(&mut docs, d);
            },
        }
        i += 1;
    }
    proof {
        assert(doc_views(docs@) + Seq::<DocView>::empty() =~= doc_views(docs@));
    }
    Document::list(docs).group()
}

} // verus!
