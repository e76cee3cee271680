//! The parser: reads the grammar from a string and builds the syntax tree.

use crate::grammar::{
    access, access_rest, after_ws, args, bare_call, binary, binary_rest, bom_len, bracketed,
    closed, closer, closer_kind, concat, concat_rest, conditional_tail, dict_item, expr, filter,
    filters, for_tail, fragment, head_at, infix, item, items, lead, named_arg, names, names_rest, node,
    opener, opener_kind, operand, param, paren, rest_len, root, stmt, stmt_call, stmt_call_rest,
    stmt_definition, stmt_for, stmt_set, stmt_unknown, stmt_with, term, test_expr, test_name,
    tok, unary, unknown_rest, ws_at, Expected, ItemRule, Items, Read,
};
use crate::lossless::{law_parse_lossless, rooted};
use crate::scanner::{
    has_char, has_lit, has_reserved, has_word, scan_bool, scan_number, scan_operator, scan_string,
    scan_word, scan_ws,
};
use crate::syntax::{
    append_children, no_children, push_child, text_of, views, Syntax, SyntaxElement, SyntaxKind,
};
use vstd::prelude::*;
use vstd::string::*;

verus! {

/// What a rule of the parser returns: the element read and the position
/// after it.
pub type Parsed = Option<(SyntaxElement, usize)>;

/// Whether the parser's result `r` is what the grammar reads.
pub open spec fn same_read(r: Parsed, m: Read) -> bool {
    match r {
        Some((e, end)) => m == Some((e@, end as int)),
        None => m is None,
    }
}

/// Whether `r`, if it read anything, ends after `pos` and inside the input.
pub open spec fn advances(r: Parsed, pos: usize, len: usize) -> bool {
    match r {
        Some((_, end)) => pos < end <= len,
        None => true,
    }
}

/// The items of a bracketed list as the parser holds them.
pub struct ParsedItems {
    pub children: Vec<SyntaxElement>,
    pub end: usize,
    pub any_item: bool,
    pub any_comma: bool,
}

impl View for ParsedItems {
    type V = Items;

    open spec fn view(&self) -> Items {
        Items {
            children: views(self.children@),
            end: self.end as int,
            any_item: self.any_item,
            any_comma: self.any_comma,
        }
    }
}

/// Appends the white-space token at `pos`, if any; returns the position
/// after it.
fn push_ws(children: &mut Vec<SyntaxElement>, s: &str, len: usize, pos: usize) -> (end: usize)
    requires
        len == s@.len(),
        pos <= len,
    ensures
        views(final(children)@) == views(old(children)@) + ws_at(s@, pos as int),
        end == after_ws(s@, pos as int),
        pos <= end <= len,
{
    let n = scan_ws(s, len, pos);
    if n > 0 {
        push_child(children, SyntaxElement::token(SyntaxKind::WHITESPACE, s, pos, pos + n));
        proof {
            assert(views(children@) =~= views(old(children)@) + ws_at(s@, pos as int));
        }
    } else {
        proof {
            assert(views(children@) =~= views(old(children)@) + ws_at(s@, pos as int));
        }
    }
    pos + n
}

/// Appends the token of `kind` that spans `start..end`.
fn push_tok(
    children: &mut Vec<SyntaxElement>,
    kind: SyntaxKind,
    s: &str,
    start: usize,
    end: usize,
)
    requires
        start <= end <= s@.len(),
    ensures
        views(final(children)@) == views(old(children)@).push(tok(kind, s@, start as int, end as int)),
{
    push_child(children, SyntaxElement::token(kind, s, start, end));
}

/// Appends the white space at `pos`, if any, and `tree`.
fn push_lead(
    children: &mut Vec<SyntaxElement>,
    s: &str,
    len: usize,
    pos: usize,
    tree: SyntaxElement,
)
    requires
        len == s@.len(),
        pos <= len,
    ensures
        views(final(children)@) == lead(views(old(children)@), s@, pos as int, tree@),
{
    let _ = push_ws(children, s, len, pos);
    push_child(children, tree);
    proof {
        assert(views(children@) =~= lead(views(old(children)@), s@, pos as int, tree@));
    }
}

/// Appends the white space at `pos`, if any, and the token of `kind` and
/// `n` characters after it; returns the position after the token.
fn push_closed(
    children: &mut Vec<SyntaxElement>,
    s: &str,
    len: usize,
    pos: usize,
    kind: SyntaxKind,
    n: usize,
) -> (end: usize)
    requires
        len == s@.len(),
        pos <= len,
        after_ws(s@, pos as int) + n <= len,
    ensures
        views(final(children)@) == closed(views(old(children)@), s@, pos as int, kind, n as nat),
        end == after_ws(s@, pos as int) + n,
{
    let start = push_ws(children, s, len, pos);
    push_tok(children, kind, s, start, start + n);
    proof {
        assert(views(children@) =~= closed(
            views(old(children)@),
            s@,
            pos as int,
            kind,
            n as nat,
        ));
    }
    start + n
}

/// Appends the token of `kind` and `n` characters that stands after the
/// white space at `pos`, and `right`, with the white space around the token.
fn push_infix(
    children: &mut Vec<SyntaxElement>,
    s: &str,
    len: usize,
    pos: usize,
    kind: SyntaxKind,
    n: usize,
    right: SyntaxElement,
)
    requires
        len == s@.len(),
        pos <= len,
        after_ws(s@, pos as int) + n <= len,
    ensures
        views(final(children)@) == infix(
            views(old(children)@),
            s@,
            pos as int,
            kind,
            n as nat,
            right@,
        ),
{
    let end = push_closed(children, s, len, pos, kind, n);
    push_lead(children, s, len, end, right);
}

/// A list of children that holds `first` alone.
fn one_child(first: SyntaxElement) -> (children: Vec<SyntaxElement>)
    ensures
        views(children@) == seq![first@],
{
    let mut children = no_children();
    push_child(&mut children, first);
    children
}

/// Reads an expression at `pos`.
pub fn parse_expr_at(s: &str, len: usize, pos: usize) -> (r: Parsed)
    requires
        len == s@.len(),
        pos <= len,
    ensures
        same_read(r, expr(s@, pos as int)),
        advances(r, pos, len),
    decreases rest_len(s@, pos as int), 300int,
{
    if pos >= len {
        return None;
    }
    match parse_binary(0, s, len, pos) {
        None => None,
        Some((first, p1)) => {
            match parse_conditional_tail(s, len, p1) {
                None => Some((first, p1)),
                Some((rest, end)) => {
                    let mut children = one_child(first);
                    append_children(&mut children, rest);
                    Some((SyntaxElement::node(SyntaxKind::EXPR_IF, children), end))
                },
            }
        },
    }
}

/// Reads `if condition else other` at `pos`.
fn parse_conditional_tail(s: &str, len: usize, pos: usize) -> (r: Option<
    (Vec<SyntaxElement>, usize),
>)
    requires
        len == s@.len(),
        pos <= len,
    ensures
        match r {
            Some((children, end)) => conditional_tail(s@, pos as int) == Some(
                (views(children@), end as int),
            ) && pos < end <= len,
            None => conditional_tail(s@, pos as int) is None,
        },
    decreases rest_len(s@, pos as int), 95int,
{
    if pos >= len {
        return None;
    }
    proof {
        reveal_strlit("if");
        reveal_strlit("else");
    }
    let p_if = pos + scan_ws(s, len, pos);
    if !has_word(s, len, p_if, "if") {
        return None;
    }
    let p_cond = p_if + 2 + scan_ws(s, len, p_if + 2);
    match parse_binary(0, s, len, p_cond) {
        None => None,
        Some((cond, p3)) => {
            let p_else = p3 + scan_ws(s, len, p3);
            if !has_word(s, len, p_else, "else") {
                return None;
            }
            let p_other = p_else + 4 + scan_ws(s, len, p_else + 4);
            match parse_expr_at(s, len, p_other) {
                None => None,
                Some((other, end)) => {
                    let mut children = no_children();
                    push_infix(&mut children, s, len, pos, SyntaxKind::KEYWORD, 2, cond);
                    push_infix(&mut children, s, len, p3, SyntaxKind::KEYWORD, 4, other);
                    Some((children, end))
                },
            }
        },
    }
}

/// Reads the operand of a binary operator of precedence `level` at `pos`.
fn parse_operand(level: u8, s: &str, len: usize, pos: usize) -> (r: Parsed)
    requires
        len == s@.len(),
        pos <= len,
        level <= 5,
    ensures
        same_read(r, operand(level as nat, s@, pos as int)),
        advances(r, pos, len),
    decreases rest_len(s@, pos as int), 199int - 2 * level,
{
    if pos >= len {
        None
    } else if level == 5 {
        parse_unary(s, len, pos)
    } else {
        parse_binary(level + 1, s, len, pos)
    }
}

/// Reads a chain of binary operators of precedence `level` at `pos`.
fn parse_binary(level: u8, s: &str, len: usize, pos: usize) -> (r: Parsed)
    requires
        len == s@.len(),
        pos <= len,
        level <= 5,
    ensures
        same_read(r, binary(level as nat, s@, pos as int)),
        advances(r, pos, len),
    decreases rest_len(s@, pos as int), 200int - 2 * level,
{
    if pos >= len {
        return None;
    }
    match parse_operand(level, s, len, pos) {
        None => None,
        Some((first, p1)) => {
            let ghost whole = binary_rest(level as nat, s@, p1 as int, first@);
            let mut left = first;
            let mut p = p1;
            loop
                invariant
                    len == s@.len(),
                    pos < p <= len,
                    level <= 5,
                    binary_rest(level as nat, s@, p as int, left@) == whole,
                ensures
                    whole == (left@, p as int),
                decreases len - p,
            {
                if p >= len {
                    break ;
                }
                let p_op = p + scan_ws(s, len, p);
                let n = scan_operator(level, s, len, p_op);
                if n == 0 {
                    break ;
                }
                let p_right = p_op + n + scan_ws(s, len, p_op + n);
                match parse_operand(level, s, len, p_right) {
                    None => {
                        break ;
                    },
                    Some((right, p2)) => {
                        let mut children = one_child(left);
                        push_infix(&mut children, s, len, p, SyntaxKind::OPERATOR, n, right);
                        left = SyntaxElement::node(SyntaxKind::EXPR_BIN, children);
                        p = p2;
                    },
                }
            }
            Some((left, p))
        },
    }
}

/// Reads `not` and its operand, or a concatenation, at `pos`.
fn parse_unary(s: &str, len: usize, pos: usize) -> (r: Parsed)
    requires
        len == s@.len(),
        pos <= len,
    ensures
        same_read(r, unary(s@, pos as int)),
        advances(r, pos, len),
    decreases rest_len(s@, pos as int), 80int,
{
    if pos >= len {
        return None;
    }
    proof {
        reveal_strlit("not");
    }
    if has_word(s, len, pos, "not") {
        let p_inner = pos + 3 + scan_ws(s, len, pos + 3);
        match parse_concat(s, len, p_inner) {
            None => parse_concat(s, len, pos),
            Some((inner, end)) => {
                let mut children = no_children();
                push_tok(&mut children, SyntaxKind::OPERATOR, s, pos, pos + 3);
                push_lead(&mut children, s, len, pos + 3, inner);
                Some((SyntaxElement::node(SyntaxKind::EXPR_UNARY, children), end))
            },
        }
    } else {
        parse_concat(s, len, pos)
    }
}

/// Reads a chain of `~` at `pos`.
fn parse_concat(s: &str, len: usize, pos: usize) -> (r: Parsed)
    requires
        len == s@.len(),
        pos <= len,
    ensures
        same_read(r, concat(s@, pos as int)),
        advances(r, pos, len),
    decreases rest_len(s@, pos as int), 70int,
{
    if pos >= len {
        return None;
    }
    match parse_test(s, len, pos) {
        None => None,
        Some((first, p1)) => {
            let ghost whole = concat_rest(s@, p1 as int, Seq::empty());
            let mut parts = no_children();
            let mut p = p1;
            loop
                invariant
                    len == s@.len(),
                    pos < p <= len,
                    concat_rest(s@, p as int, views(parts@)) == whole,
                ensures
                    whole == (views(parts@), p as int),
                decreases len - p,
            {
                if p >= len {
                    break ;
                }
                let p_op = p + scan_ws(s, len, p);
                if !has_char(s, len, p_op, '~') {
                    break ;
                }
                let p_right = p_op + 1 + scan_ws(s, len, p_op + 1);
                match parse_test(s, len, p_right) {
                    None => {
                        break ;
                    },
                    Some((right, p2)) => {
                        push_infix(&mut parts, s, len, p, SyntaxKind::OPERATOR, 1, right);
                        p = p2;
                    },
                }
            }
            if parts.len() == 0 {
                proof {
                    crate::syntax::lemma_views_index(parts@);
                }
                Some((first, p1))
            } else {
                proof {
                    crate::syntax::lemma_views_index(parts@);
                }
                let mut children = one_child(first);
                append_children(&mut children, parts);
                Some((SyntaxElement::node(SyntaxKind::EXPR_CONCAT, children), p))
            }
        },
    }
}

/// Reads a filter chain, and a test after it if one follows, at `pos`.
fn parse_test(s: &str, len: usize, pos: usize) -> (r: Parsed)
    requires
        len == s@.len(),
        pos <= len,
    ensures
        same_read(r, test_expr(s@, pos as int)),
        advances(r, pos, len),
    decreases rest_len(s@, pos as int), 60int,
{
    if pos >= len {
        return None;
    }
    proof {
        reveal_strlit("is");
    }
    match parse_filter(s, len, pos) {
        None => None,
        Some((subject, p1)) => {
            let p_is = p1 + scan_ws(s, len, p1);
            if !has_lit(s, len, p_is, "is") {
                return Some((subject, p1));
            }
            let p_name = p_is + 2 + scan_ws(s, len, p_is + 2);
            match parse_test_name(s, len, p_name) {
                None => Some((subject, p1)),
                Some((name, end)) => {
                    let mut children = one_child(subject);
                    push_infix(&mut children, s, len, p1, SyntaxKind::OPERATOR, 2, name);
                    Some((SyntaxElement::node(SyntaxKind::EXPR_TEST, children), end))
                },
            }
        },
    }
}

/// Reads what follows `is` at `pos`.
fn parse_test_name(s: &str, len: usize, pos: usize) -> (r: Parsed)
    requires
        len == s@.len(),
        pos <= len,
    ensures
        same_read(r, test_name(s@, pos as int)),
        advances(r, pos, len),
    decreases rest_len(s@, pos as int), 55int,
{
    if pos >= len {
        return None;
    }
    match parse_bare_call(s, len, pos) {
        Some(sugar) => Some(sugar),
        None => parse_access(s, len, pos),
    }
}

/// Reads a test with one argument written without parentheses at `pos`.
fn parse_bare_call(s: &str, len: usize, pos: usize) -> (r: Parsed)
    requires
        len == s@.len(),
        pos <= len,
    ensures
        same_read(r, bare_call(s@, pos as int)),
        advances(r, pos, len),
    decreases rest_len(s@, pos as int), 52int,
{
    if pos >= len {
        return None;
    }
    match parse_term(s, len, pos) {
        None => None,
        Some((callee, p1)) => {
            let p_arg = p1 + scan_ws(s, len, p1);
            if p_arg == p1 || p_arg >= len || has_char(s, len, p_arg, '(') || has_reserved(
                s,
                len,
                p_arg,
            ) {
                return None;
            }
            match parse_access(s, len, p_arg) {
                None => None,
                Some((arg, end)) => {
                    let wrapped = SyntaxElement::node1(SyntaxKind::ARG, arg);
                    let mut children = one_child(callee);
                    push_lead(&mut children, s, len, p1, wrapped);
                    Some((SyntaxElement::node(SyntaxKind::EXPR_CALL, children), end))
                },
            }
        },
    }
}

/// Reads an access chain and the filters applied to it at `pos`.
fn parse_filter(s: &str, len: usize, pos: usize) -> (r: Parsed)
    requires
        len == s@.len(),
        pos <= len,
    ensures
        same_read(r, filter(s@, pos as int)),
        advances(r, pos, len),
    decreases rest_len(s@, pos as int), 50int,
{
    if pos >= len {
        return None;
    }
    match parse_access(s, len, pos) {
        None => None,
        Some((base, p1)) => {
            let (parts, end) = parse_filters(s, len, p1, no_children());
            proof {
                crate::syntax::lemma_views_index(parts@);
            }
            if parts.len() == 0 {
                Some((base, p1))
            } else {
                let mut children = one_child(base);
                append_children(&mut children, parts);
                Some((SyntaxElement::node(SyntaxKind::EXPR_FILTER, children), end))
            }
        },
    }
}

/// Reads a chain of `| name` and `| name(args)` at `pos`, after `acc`.
pub fn parse_filters(s: &str, len: usize, pos: usize, acc: Vec<SyntaxElement>) -> (r: (
    Vec<SyntaxElement>,
    usize,
))
    requires
        len == s@.len(),
        pos <= len,
    ensures
        filters(s@, pos as int, views(acc@)) == (views(r.0@), r.1 as int),
        pos <= r.1 <= len,
    decreases rest_len(s@, pos as int), 0int,
{
    if pos >= len {
        return (acc, pos);
    }
    let p_op = pos + scan_ws(s, len, pos);
    if !has_char(s, len, p_op, '|') {
        return (acc, pos);
    }
    let p_name = p_op + 1 + scan_ws(s, len, p_op + 1);
    let n = scan_word(s, len, p_name);
    if n == 0 {
        return (acc, pos);
    }
    let name = SyntaxElement::token(SyntaxKind::IDENT, s, p_name, p_name + n);
    let mut acc = acc;
    match parse_args(s, len, p_name + n) {
        Some((more, end)) => {
            let mut children = one_child(SyntaxElement::node1(SyntaxKind::EXPR_IDENT, name));
            append_children(&mut children, more);
            let call = SyntaxElement::node(SyntaxKind::EXPR_CALL, children);
            push_infix(&mut acc, s, len, pos, SyntaxKind::OPERATOR, 1, call);
            parse_filters(s, len, end, acc)
        },
        None => {
            let plain = SyntaxElement::node1(SyntaxKind::EXPR_IDENT, name);
            push_infix(&mut acc, s, len, pos, SyntaxKind::OPERATOR, 1, plain);
            parse_filters(s, len, p_name + n, acc)
        },
    }
}

/// Reads a term and the accesses applied to it at `pos`.
fn parse_access(s: &str, len: usize, pos: usize) -> (r: Parsed)
    requires
        len == s@.len(),
        pos <= len,
    ensures
        same_read(r, access(s@, pos as int)),
        advances(r, pos, len),
    decreases rest_len(s@, pos as int), 40int,
{
    if pos >= len {
        return None;
    }
    match parse_term(s, len, pos) {
        None => None,
        Some((base, p1)) => {
            let (tree, end) = parse_access_rest(s, len, p1, base);
            Some((tree, end))
        },
    }
}

/// Reads the rest of an access chain whose base is `base` at `pos`.
fn parse_access_rest(s: &str, len: usize, pos: usize, base: SyntaxElement) -> (r: (
    SyntaxElement,
    usize,
))
    requires
        len == s@.len(),
        pos <= len,
    ensures
        access_rest(s@, pos as int, base@) == (r.0@, r.1 as int),
        pos <= r.1 <= len,
    decreases rest_len(s@, pos as int), 15int,
{
    if pos >= len {
        return (base, pos);
    }
    let p_op = pos + scan_ws(s, len, pos);
    if has_char(s, len, p_op, '.') {
        let p_name = p_op + 1 + scan_ws(s, len, p_op + 1);
        match parse_term(s, len, p_name) {
            None => (base, pos),
            Some((name, end)) => {
                let mut children = one_child(base);
                push_infix(&mut children, s, len, pos, SyntaxKind::DOT, 1, name);
                parse_access_rest(
                    s,
                    len,
                    end,
                    SyntaxElement::node(SyntaxKind::EXPR_GET_ATTR, children),
                )
            },
        }
    } else if has_char(s, len, p_op, '[') {
        let p_index = p_op + 1 + scan_ws(s, len, p_op + 1);
        match parse_expr_at(s, len, p_index) {
            None => (base, pos),
            Some((index, p2)) => {
                let p_close = p2 + scan_ws(s, len, p2);
                if has_char(s, len, p_close, ']') {
                    let mut children = one_child(base);
                    push_infix(&mut children, s, len, pos, SyntaxKind::L_BRACKET, 1, index);
                    let _ = push_closed(&mut children, s, len, p2, SyntaxKind::R_BRACKET, 1);
                    parse_access_rest(
                        s,
                        len,
                        p_close + 1,
                        SyntaxElement::node(SyntaxKind::EXPR_GET_ITEM, children),
                    )
                } else {
                    (base, pos)
                }
            },
        }
    } else {
        match parse_args(s, len, pos) {
            None => (base, pos),
            Some((more, end)) => {
                let mut children = one_child(base);
                append_children(&mut children, more);
                parse_access_rest(
                    s,
                    len,
                    end,
                    SyntaxElement::node(SyntaxKind::EXPR_CALL, children),
                )
            },
        }
    }
}

/// Reads an argument list, with the white space before it, at `pos`.
pub fn parse_args(s: &str, len: usize, pos: usize) -> (r: Option<(Vec<SyntaxElement>, usize)>)
    requires
        len == s@.len(),
        pos <= len,
    ensures
        match r {
            Some((children, end)) => args(s@, pos as int) == Some((views(children@), end as int))
                && pos < end <= len,
            None => args(s@, pos as int) is None,
        },
    decreases rest_len(s@, pos as int), 10int,
{
    if pos >= len {
        return None;
    }
    let p_open = pos + scan_ws(s, len, pos);
    match parse_bracketed(ItemRule::Arg, s, len, p_open) {
        None => None,
        Some(list) => {
            let mut children = no_children();
            let _ = push_ws(&mut children, s, len, pos);
            let end = list.end;
            append_children(&mut children, list.children);
            proof {
                assert(views(children@) =~= ws_at(s@, pos as int) + list@.children);
            }
            Some((children, end))
        },
    }
}

/// The delimiters of a list of `rule` and the kinds of their tokens.
fn delimiters(rule: ItemRule) -> (d: (char, char, SyntaxKind, SyntaxKind))
    ensures
        d.0 == opener(rule),
        d.1 == closer(rule),
        d.2 == opener_kind(rule),
        d.3 == closer_kind(rule),
{
    match rule {
        ItemRule::ListItem => ('[', ']', SyntaxKind::L_BRACKET, SyntaxKind::R_BRACKET),
        ItemRule::DictItem => ('{', '}', SyntaxKind::L_BRACE, SyntaxKind::R_BRACE),
        _ => ('(', ')', SyntaxKind::L_PAREN, SyntaxKind::R_PAREN),
    }
}

/// Reads a bracketed, comma-separated list of `rule` whose opening
/// delimiter is at `pos`.
pub fn parse_bracketed(rule: ItemRule, s: &str, len: usize, pos: usize) -> (r: Option<ParsedItems>)
    requires
        len == s@.len(),
        pos <= len,
    ensures
        match r {
            Some(list) => bracketed(rule, s@, pos as int) == Some(list@) && pos < list.end <= len,
            None => bracketed(rule, s@, pos as int) is None,
        },
    decreases rest_len(s@, pos as int), 8int,
{
    if pos >= len {
        return None;
    }
    let d = delimiters(rule);
    if !has_char(s, len, pos, d.0) {
        return None;
    }
    let mut children = no_children();
    push_tok(&mut children, d.2, s, pos, pos + 1);
    let read = parse_items(
        rule,
        s,
        len,
        pos + 1,
        ParsedItems { children, end: pos + 1, any_item: false, any_comma: false },
    );
    let p_close = read.end + scan_ws(s, len, read.end);
    if has_char(s, len, p_close, d.1) {
        let mut children = read.children;
        let end = push_closed(&mut children, s, len, read.end, d.3, 1);
        Some(ParsedItems { children, end, any_item: read.any_item, any_comma: read.any_comma })
    } else {
        None
    }
}

/// Reads the items of a list of `rule` from `pos`, after those in `acc`.
fn parse_items(rule: ItemRule, s: &str, len: usize, pos: usize, acc: ParsedItems) -> (r:
    ParsedItems)
    requires
        len == s@.len(),
        pos <= len,
    ensures
        items(rule, s@, pos as int, acc@) == r@,
        pos <= r.end <= len,
    decreases rest_len(s@, pos as int), 330int,
{
    if pos >= len {
        return ParsedItems {
            children: acc.children,
            end: pos,
            any_item: acc.any_item,
            any_comma: acc.any_comma,
        };
    }
    let d = delimiters(rule);
    let p_item = pos + scan_ws(s, len, pos);
    match parse_item(rule, s, len, p_item) {
        None => ParsedItems {
            children: acc.children,
            end: pos,
            any_item: acc.any_item,
            any_comma: acc.any_comma,
        },
        Some((it, p1)) => {
            let p_sep = p1 + scan_ws(s, len, p1);
            if has_char(s, len, p_sep, ',') {
                let mut children = acc.children;
                push_lead(&mut children, s, len, pos, it);
                let end = push_closed(&mut children, s, len, p1, SyntaxKind::COMMA, 1);
                parse_items(
                    rule,
                    s,
                    len,
                    end,
                    ParsedItems { children, end, any_item: true, any_comma: true },
                )
            } else if has_char(s, len, p_sep, d.1) {
                let mut children = acc.children;
                push_lead(&mut children, s, len, pos, it);
                ParsedItems { children, end: p1, any_item: true, any_comma: acc.any_comma }
            } else {
                ParsedItems {
                    children: acc.children,
                    end: pos,
                    any_item: acc.any_item,
                    any_comma: acc.any_comma,
                }
            }
        },
    }
}

/// Reads one item of a list of `rule` at `pos`.
fn parse_item(rule: ItemRule, s: &str, len: usize, pos: usize) -> (r: Parsed)
    requires
        len == s@.len(),
        pos <= len,
    ensures
        same_read(r, item(rule, s@, pos as int)),
        advances(r, pos, len),
    decreases rest_len(s@, pos as int), 320int,
{
    if pos >= len {
        return None;
    }
    match rule {
        ItemRule::ListItem | ItemRule::TupleItem => parse_expr_at(s, len, pos),
        ItemRule::DictItem => parse_dict_item(s, len, pos),
        ItemRule::Arg => {
            match parse_named_arg(s, len, pos) {
                Some(named) => Some(named),
                None => match parse_expr_at(s, len, pos) {
                    None => None,
                    Some((value, end)) => Some((SyntaxElement::node1(SyntaxKind::ARG, value), end)),
                },
            }
        },
        ItemRule::Param => parse_param(s, len, pos),
        ItemRule::Name => {
            let n = scan_word(s, len, pos);
            if n > 0 {
                let name = SyntaxElement::token(SyntaxKind::IDENT, s, pos, pos + n);
                Some((SyntaxElement::node1(SyntaxKind::PARAM, name), pos + n))
            } else {
                None
            }
        },
    }
}

/// Reads a dictionary entry at `pos`.
fn parse_dict_item(s: &str, len: usize, pos: usize) -> (r: Parsed)
    requires
        len == s@.len(),
        pos <= len,
    ensures
        same_read(r, dict_item(s@, pos as int)),
        advances(r, pos, len),
    decreases rest_len(s@, pos as int), 310int,
{
    if pos >= len {
        return None;
    }
    match parse_expr_at(s, len, pos) {
        None => None,
        Some((key, p1)) => {
            let p_colon = p1 + scan_ws(s, len, p1);
            if !has_char(s, len, p_colon, ':') {
                return None;
            }
            let p_value = p_colon + 1 + scan_ws(s, len, p_colon + 1);
            match parse_expr_at(s, len, p_value) {
                None => None,
                Some((value, end)) => {
                    let mut children = one_child(key);
                    push_infix(&mut children, s, len, p1, SyntaxKind::COLON, 1, value);
                    Some((SyntaxElement::node(SyntaxKind::EXPR_DICT_ITEM, children), end))
                },
            }
        },
    }
}

/// Reads a named argument at `pos`.
fn parse_named_arg(s: &str, len: usize, pos: usize) -> (r: Parsed)
    requires
        len == s@.len(),
        pos <= len,
    ensures
        same_read(r, named_arg(s@, pos as int)),
        advances(r, pos, len),
    decreases rest_len(s@, pos as int), 310int,
{
    if pos >= len {
        return None;
    }
    let n = scan_word(s, len, pos);
    if n == 0 {
        return None;
    }
    let p_eq = pos + n + scan_ws(s, len, pos + n);
    if !has_char(s, len, p_eq, '=') {
        return None;
    }
    let p_value = p_eq + 1 + scan_ws(s, len, p_eq + 1);
    match parse_expr_at(s, len, p_value) {
        None => None,
        Some((value, end)) => {
            let mut children = no_children();
            push_tok(&mut children, SyntaxKind::IDENT, s, pos, pos + n);
            push_infix(&mut children, s, len, pos + n, SyntaxKind::EQ, 1, value);
            Some((SyntaxElement::node(SyntaxKind::ARG, children), end))
        },
    }
}

/// Reads a parameter at `pos`.
fn parse_param(s: &str, len: usize, pos: usize) -> (r: Parsed)
    requires
        len == s@.len(),
        pos <= len,
    ensures
        same_read(r, param(s@, pos as int)),
        advances(r, pos, len),
    decreases rest_len(s@, pos as int), 310int,
{
    if pos >= len {
        return None;
    }
    let n = scan_word(s, len, pos);
    if n == 0 {
        return None;
    }
    let mut children = no_children();
    push_tok(&mut children, SyntaxKind::IDENT, s, pos, pos + n);
    let p_eq = pos + n + scan_ws(s, len, pos + n);
    if has_char(s, len, p_eq, '=') {
        let p_value = p_eq + 1 + scan_ws(s, len, p_eq + 1);
        match parse_expr_at(s, len, p_value) {
            None => Some((SyntaxElement::node(SyntaxKind::PARAM, children), pos + n)),
            Some((value, end)) => {
                push_infix(&mut children, s, len, pos + n, SyntaxKind::EQ, 1, value);
                Some((SyntaxElement::node(SyntaxKind::PARAM, children), end))
            },
        }
    } else {
        Some((SyntaxElement::node(SyntaxKind::PARAM, children), pos + n))
    }
}

/// Reads the node of `kind` over the one token of `token_kind` that spans
/// `pos..pos + n`.
fn leaf(kind: SyntaxKind, token_kind: SyntaxKind, s: &str, pos: usize, n: usize) -> (r: Parsed)
    requires
        pos + n <= s@.len() <= usize::MAX,
        n > 0,
    ensures
        same_read(
            r,
            Some((node(kind, seq![tok(token_kind, s@, pos as int, pos + n)]), pos + n)),
        ),
{
    let token = SyntaxElement::token(token_kind, s, pos, pos + n);
    Some((SyntaxElement::node1(kind, token), pos + n))
}

/// Reads a term at `pos`.
fn parse_term(s: &str, len: usize, pos: usize) -> (r: Parsed)
    requires
        len == s@.len(),
        pos <= len,
    ensures
        same_read(r, term(s@, pos as int)),
        advances(r, pos, len),
    decreases rest_len(s@, pos as int), 30int,
{
    if pos >= len {
        return None;
    }
    let n_bool = scan_bool(s, len, pos);
    if n_bool > 0 {
        return leaf(SyntaxKind::EXPR_LITERAL, SyntaxKind::BOOL, s, pos, n_bool);
    }
    let n_number = scan_number(s, len, pos);
    if n_number > 0 {
        return leaf(SyntaxKind::EXPR_LITERAL, SyntaxKind::NUMBER, s, pos, n_number);
    }
    let n_string = scan_string(s, len, pos);
    if n_string > 0 {
        return leaf(SyntaxKind::EXPR_LITERAL, SyntaxKind::STRING, s, pos, n_string);
    }
    let n_word = scan_word(s, len, pos);
    if n_word > 0 {
        return leaf(SyntaxKind::EXPR_IDENT, SyntaxKind::IDENT, s, pos, n_word);
    }
    if has_char(s, len, pos, '(') {
        match parse_paren(s, len, pos) {
            Some(inner) => Some(inner),
            None => match parse_bracketed(ItemRule::TupleItem, s, len, pos) {
                None => None,
                Some(list) => {
                    if !list.any_item || list.any_comma {
                        let end = list.end;
                        Some((SyntaxElement::node(SyntaxKind::EXPR_TUPLE, list.children), end))
                    } else {
                        None
                    }
                },
            },
        }
    } else if has_char(s, len, pos, '[') {
        match parse_bracketed(ItemRule::ListItem, s, len, pos) {
            None => None,
            Some(list) => {
                let end = list.end;
                Some((SyntaxElement::node(SyntaxKind::EXPR_LIST, list.children), end))
            },
        }
    } else if has_char(s, len, pos, '{') {
        match parse_bracketed(ItemRule::DictItem, s, len, pos) {
            None => None,
            Some(list) => {
                let end = list.end;
                Some((SyntaxElement::node(SyntaxKind::EXPR_DICT, list.children), end))
            },
        }
    } else {
        None
    }
}

/// Reads a parenthesized expression at `pos`.
fn parse_paren(s: &str, len: usize, pos: usize) -> (r: Parsed)
    requires
        len == s@.len(),
        pos <= len,
    ensures
        same_read(r, paren(s@, pos as int)),
        advances(r, pos, len),
    decreases rest_len(s@, pos as int), 20int,
{
    if pos >= len || !has_char(s, len, pos, '(') {
        return None;
    }
    let p_inner = pos + 1 + scan_ws(s, len, pos + 1);
    match parse_expr_at(s, len, p_inner) {
        None => None,
        Some((inner, p1)) => {
            let p_close = p1 + scan_ws(s, len, p1);
            if has_char(s, len, p_close, ')') {
                let mut children = no_children();
                push_tok(&mut children, SyntaxKind::L_PAREN, s, pos, pos + 1);
                push_lead(&mut children, s, len, pos + 1, inner);
                let end = push_closed(&mut children, s, len, p1, SyntaxKind::R_PAREN, 1);
                Some((SyntaxElement::node(SyntaxKind::EXPR_PAREN, children), end))
            } else {
                None
            }
        },
    }
}

/// Reads one or more names separated by commas, after `acc` and the white
/// space at `pos`.
fn parse_names(s: &str, len: usize, pos: usize, acc: Vec<SyntaxElement>) -> (r: Option<
    (Vec<SyntaxElement>, usize),
>)
    requires
        len == s@.len(),
        pos <= len,
    ensures
        match r {
            Some((children, end)) => names(s@, pos as int, views(acc@)) == Some(
                (views(children@), end as int),
            ) && pos < end <= len,
            None => names(s@, pos as int, views(acc@)) is None,
        },
{
    let p_name = pos + scan_ws(s, len, pos);
    let n = scan_word(s, len, p_name);
    if n == 0 {
        return None;
    }
    let mut children = acc;
    let mut p = push_closed(&mut children, s, len, pos, SyntaxKind::IDENT, n);
    let ghost whole = names_rest(s@, p as int, views(children@));
    loop
        invariant
            len == s@.len(),
            pos < p <= len,
            names_rest(s@, p as int, views(children@)) == whole,
        ensures
            whole == (views(children@), p as int),
        decreases len - p,
    {
        if p >= len {
            break ;
        }
        let p_comma = p + scan_ws(s, len, p);
        if !has_char(s, len, p_comma, ',') {
            break ;
        }
        let p_next = p_comma + 1 + scan_ws(s, len, p_comma + 1);
        let n_next = scan_word(s, len, p_next);
        if n_next == 0 {
            break ;
        }
        let _ = push_closed(&mut children, s, len, p, SyntaxKind::COMMA, 1);
        p = push_closed(&mut children, s, len, p_comma + 1, SyntaxKind::IDENT, n_next);
    }
    Some((children, p))
}

/// Whether the keyword `lit`, of `n` characters, stands at `pos` with white
/// space after it.
fn has_head(s: &str, len: usize, pos: usize, lit: &str, n: usize) -> (r: bool)
    requires
        len == s@.len(),
        pos <= len,
        lit@.len() == n,
    ensures
        r == head_at(s@, pos as int, lit@, n as nat),
{
    has_lit(s, len, pos, lit) && scan_ws(s, len, pos + n) > 0
}

/// Reads what may end a `for` header at `pos`.
fn parse_for_tail(s: &str, len: usize, pos: usize) -> (r: (Vec<SyntaxElement>, usize))
    requires
        len == s@.len(),
        pos <= len,
    ensures
        for_tail(s@, pos as int) == (views(r.0@), r.1 as int),
        pos <= r.1 <= len,
{
    proof {
        reveal_strlit("if");
        reveal_strlit("recursive");
    }
    let mut children = no_children();
    let p_word = pos + scan_ws(s, len, pos);
    if p_word == pos {
        return (children, pos);
    }
    if has_head(s, len, p_word, "if", 2) {
        let p_cond = p_word + 2 + scan_ws(s, len, p_word + 2);
        match parse_expr_at(s, len, p_cond) {
            Some((cond, end)) => {
                push_infix(&mut children, s, len, pos, SyntaxKind::KEYWORD, 2, cond);
                return (children, end);
            },
            None => {},
        }
    }
    if scan_word(s, len, p_word) == 9 && has_lit(s, len, p_word, "recursive") {
        let end = push_closed(&mut children, s, len, pos, SyntaxKind::KEYWORD, 9);
        (children, end)
    } else {
        (children, pos)
    }
}

/// Reads a `for` header at `pos`.
fn parse_stmt_for(s: &str, len: usize, pos: usize) -> (r: Parsed)
    requires
        len == s@.len(),
        pos <= len,
    ensures
        same_read(r, stmt_for(s@, pos as int)),
        advances(r, pos, len),
{
    proof {
        reveal_strlit("for");
        reveal_strlit("in");
    }
    if !has_head(s, len, pos, "for", 3) {
        return None;
    }
    let mut head = no_children();
    push_tok(&mut head, SyntaxKind::KEYWORD, s, pos, pos + 3);
    match parse_names(s, len, pos + 3, head) {
        None => None,
        Some((bound, p_bound)) => {
            let p_in = p_bound + scan_ws(s, len, p_bound);
            if p_in == p_bound || !has_head(s, len, p_in, "in", 2) {
                return None;
            }
            let p_iter = p_in + 2 + scan_ws(s, len, p_in + 2);
            match parse_expr_at(s, len, p_iter) {
                None => None,
                Some((iter, p_end)) => {
                    let mut children = bound;
                    push_infix(&mut children, s, len, p_bound, SyntaxKind::KEYWORD, 2, iter);
                    let (tail, end) = parse_for_tail(s, len, p_end);
                    append_children(&mut children, tail);
                    Some((SyntaxElement::node(SyntaxKind::STMT_FOR, children), end))
                },
            }
        },
    }
}

/// Reads a `macro` or `filter` header at `pos`: the keyword `lit` of `n`
/// characters, a name, and a parameter list.
fn parse_stmt_definition(
    s: &str,
    len: usize,
    pos: usize,
    lit: &str,
    n: usize,
    kind: SyntaxKind,
) -> (r: Parsed)
    requires
        len == s@.len(),
        pos <= len,
        lit@.len() == n,
    ensures
        same_read(r, stmt_definition(s@, pos as int, lit@, n as nat, kind)),
        advances(r, pos, len),
{
    if !has_head(s, len, pos, lit, n) {
        return None;
    }
    let p_name = pos + n + scan_ws(s, len, pos + n);
    let name_len = scan_word(s, len, p_name);
    if name_len == 0 {
        return None;
    }
    let p_open = p_name + name_len + scan_ws(s, len, p_name + name_len);
    match parse_bracketed(ItemRule::Param, s, len, p_open) {
        None => None,
        Some(list) => {
            let mut children = no_children();
            push_tok(&mut children, SyntaxKind::KEYWORD, s, pos, pos + n);
            let _ = push_closed(&mut children, s, len, pos + n, SyntaxKind::IDENT, name_len);
            let _ = push_ws(&mut children, s, len, p_name + name_len);
            let end = list.end;
            append_children(&mut children, list.children);
            Some((SyntaxElement::node(kind, children), end))
        },
    }
}

/// Reads the callee of a `call` header and its arguments, after `acc` and
/// the white space at `pos`.
fn parse_stmt_call_rest(s: &str, len: usize, pos: usize, acc: Vec<SyntaxElement>) -> (r: Parsed)
    requires
        len == s@.len(),
        pos <= len,
    ensures
        same_read(r, stmt_call_rest(s@, pos as int, views(acc@))),
        advances(r, pos, len),
{
    let p_name = pos + scan_ws(s, len, pos);
    let n = scan_word(s, len, p_name);
    if n == 0 {
        return None;
    }
    match parse_args(s, len, p_name + n) {
        None => None,
        Some((more, end)) => {
            let mut children = acc;
            let _ = push_closed(&mut children, s, len, pos, SyntaxKind::IDENT, n);
            append_children(&mut children, more);
            Some((SyntaxElement::node(SyntaxKind::STMT_CALL, children), end))
        },
    }
}

/// Reads a `call` header at `pos`.
fn parse_stmt_call(s: &str, len: usize, pos: usize) -> (r: Parsed)
    requires
        len == s@.len(),
        pos <= len,
    ensures
        same_read(r, stmt_call(s@, pos as int)),
        advances(r, pos, len),
{
    proof {
        reveal_strlit("call");
    }
    if !has_lit(s, len, pos, "call") {
        return None;
    }
    let mut children = no_children();
    push_tok(&mut children, SyntaxKind::KEYWORD, s, pos, pos + 4);
    let p_open = pos + 4 + scan_ws(s, len, pos + 4);
    if has_char(s, len, p_open, '(') {
        match parse_bracketed(ItemRule::Name, s, len, p_open) {
            None => None,
            Some(list) => {
                let _ = push_ws(&mut children, s, len, pos + 4);
                let end = list.end;
                append_children(&mut children, list.children);
                parse_stmt_call_rest(s, len, end, children)
            },
        }
    } else if p_open > pos + 4 {
        parse_stmt_call_rest(s, len, pos + 4, children)
    } else {
        None
    }
}

/// Reads a `set` header at `pos`.
fn parse_stmt_set(s: &str, len: usize, pos: usize) -> (r: Parsed)
    requires
        len == s@.len(),
        pos <= len,
    ensures
        same_read(r, stmt_set(s@, pos as int)),
        advances(r, pos, len),
{
    proof {
        reveal_strlit("set");
    }
    if !has_head(s, len, pos, "set", 3) {
        return None;
    }
    let mut head = no_children();
    push_tok(&mut head, SyntaxKind::KEYWORD, s, pos, pos + 3);
    match parse_names(s, len, pos + 3, head) {
        None => None,
        Some((targets, p_targets)) => {
            let p_eq = p_targets + scan_ws(s, len, p_targets);
            if has_char(s, len, p_eq, '=') {
                let p_value = p_eq + 1 + scan_ws(s, len, p_eq + 1);
                match parse_expr_at(s, len, p_value) {
                    Some((value, end)) => {
                        let mut children = targets;
                        push_infix(&mut children, s, len, p_targets, SyntaxKind::EQ, 1, value);
                        return Some((SyntaxElement::node(SyntaxKind::STMT_SET, children), end));
                    },
                    None => {},
                }
            }
            let (children, end) = parse_filters(s, len, p_targets, targets);
            Some((SyntaxElement::node(SyntaxKind::STMT_SET, children), end))
        },
    }
}

/// Reads a `with` header at `pos`.
fn parse_stmt_with(s: &str, len: usize, pos: usize) -> (r: Parsed)
    requires
        len == s@.len(),
        pos <= len,
    ensures
        same_read(r, stmt_with(s@, pos as int)),
        advances(r, pos, len),
{
    proof {
        reveal_strlit("with");
    }
    if !has_head(s, len, pos, "with", 4) {
        return None;
    }
    let mut head = no_children();
    push_tok(&mut head, SyntaxKind::KEYWORD, s, pos, pos + 4);
    match parse_names(s, len, pos + 4, head) {
        None => None,
        Some((targets, p_targets)) => {
            let p_eq = p_targets + scan_ws(s, len, p_targets);
            if !has_char(s, len, p_eq, '=') {
                return None;
            }
            let p_value = p_eq + 1 + scan_ws(s, len, p_eq + 1);
            match parse_expr_at(s, len, p_value) {
                None => None,
                Some((value, end)) => {
                    let mut children = targets;
                    push_infix(&mut children, s, len, p_targets, SyntaxKind::EQ, 1, value);
                    Some((SyntaxElement::node(SyntaxKind::STMT_WITH, children), end))
                },
            }
        },
    }
}

/// Reads a header that starts with any other word at `pos`.
fn parse_stmt_unknown(s: &str, len: usize, pos: usize) -> (r: Parsed)
    requires
        len == s@.len(),
        pos <= len,
    ensures
        same_read(r, stmt_unknown(s@, pos as int)),
        advances(r, pos, len),
{
    let n = scan_word(s, len, pos);
    if n == 0 {
        return None;
    }
    let mut children = no_children();
    push_tok(&mut children, SyntaxKind::KEYWORD, s, pos, pos + n);
    let mut p = pos + n;
    let mut after_comma = false;
    let ghost whole = unknown_rest(s@, p as int, views(children@), false);
    loop
        invariant
            len == s@.len(),
            pos < p <= len,
            unknown_rest(s@, p as int, views(children@), after_comma) == whole,
        ensures
            whole == (views(children@), p as int),
        decreases len - p,
    {
        if p >= len {
            break ;
        }
        let p_item = p + scan_ws(s, len, p);
        if p_item == p && !after_comma {
            break ;
        }
        match parse_expr_at(s, len, p_item) {
            None => {
                break ;
            },
            Some((it, p_end)) => {
                push_lead(&mut children, s, len, p, it);
                let p_comma = p_end + scan_ws(s, len, p_end);
                if has_char(s, len, p_comma, ',') {
                    p = push_closed(&mut children, s, len, p_end, SyntaxKind::COMMA, 1);
                    after_comma = true;
                } else {
                    p = p_end;
                    after_comma = false;
                }
            },
        }
    }
    Some((SyntaxElement::node(SyntaxKind::STMT_UNKNOWN, children), p))
}

/// Reads a statement header at `pos`.
pub fn parse_stmt_at(s: &str, len: usize, pos: usize) -> (r: Parsed)
    requires
        len == s@.len(),
        pos <= len,
    ensures
        same_read(r, stmt(s@, pos as int)),
        advances(r, pos, len),
{
    proof {
        reveal_strlit("macro");
        reveal_strlit("filter");
    }
    match parse_stmt_for(s, len, pos) {
        Some(read) => {
            return Some(read);
        },
        None => {},
    }
    match parse_stmt_definition(s, len, pos, "macro", 5, SyntaxKind::STMT_MACRO) {
        Some(read) => {
            return Some(read);
        },
        None => {},
    }
    match parse_stmt_call(s, len, pos) {
        Some(read) => {
            return Some(read);
        },
        None => {},
    }
    match parse_stmt_set(s, len, pos) {
        Some(read) => {
            return Some(read);
        },
        None => {},
    }
    match parse_stmt_definition(s, len, pos, "filter", 6, SyntaxKind::STMT_FILTER) {
        Some(read) => {
            return Some(read);
        },
        None => {},
    }
    match parse_stmt_with(s, len, pos) {
        Some(read) => {
            return Some(read);
        },
        None => {},
    }
    parse_stmt_unknown(s, len, pos)
}

/// Why a fragment could not be read.
#[derive(Clone, Copy, Debug, PartialEq, Eq, Structural)]
pub struct ParseError {
    /// Where reading failed, in bytes from the start of the fragment (after
    /// its byte-order marks).
    pub offset: usize,
    /// What was missing there.
    pub expected: Expected,
}

/// The number of bytes that the first `chars` characters of `s` take in
/// UTF-8.
pub open spec fn byte_offset(s: Seq<char>, chars: int) -> int {
    vstd::utf8::encode_utf8(s.subrange(0, chars)).len() as int
}

/// What parsing the fragment `source` gives: the root of its tree, or the
/// failure with its byte offset.
pub open spec fn parse_spec(source: Seq<char>, statement: bool) -> Result<Syntax, ParseError> {
    match root(fragment(source), statement) {
        Ok(tree) => Ok(tree),
        Err((at, expected)) => Err(
            ParseError { offset: byte_offset(fragment(source), at) as usize, expected },
        ),
    }
}

/// Whether the parser's result `r` is the grammar's result `m`.
pub open spec fn same_result(
    r: Result<SyntaxElement, ParseError>,
    m: Result<Syntax, ParseError>,
) -> bool {
    match r {
        Ok(tree) => m == Ok::<Syntax, ParseError>(tree@),
        Err(e) => m == Err::<Syntax, ParseError>(e),
    }
}

/// The failure at character `at` of `s`.
fn failure(s: &str, len: usize, at: usize, expected: Expected) -> (e: ParseError)
    requires
        len == s@.len(),
        at <= len,
    ensures
        e == (ParseError { offset: byte_offset(s@, at as int) as usize, expected }),
{
    ParseError { offset: s.substring_char(0, at).len(), expected }
}

/// Reads a whole fragment: a statement header where `statement` holds, an
/// expression otherwise.
fn parse_root(source: &str, statement: bool) -> (r: Result<SyntaxElement, ParseError>)
    ensures
        same_result(r, parse_spec(source@, statement)),
{
    let total = source.unicode_len();
    let mut skip: usize = 0;
    while skip < total && source.get_char(skip) == '\u{feff}'
        invariant
            total == source@.len(),
            skip <= total,
            bom_len(source@, 0) == skip + bom_len(source@, skip as int),
        decreases total - skip,
    {
        skip += 1;
    }
    let s = source.substring_char(skip, total);
    let len = total - skip;
    let start = scan_ws(s, len, 0);
    let inner = if statement {
        parse_stmt_at(s, len, start)
    } else {
        parse_expr_at(s, len, start)
    };
    match inner {
        None => Err(
            failure(
                s,
                len,
                start,
                if statement {
                    Expected::Statement
                } else {
                    Expected::Expression
                },
            ),
        ),
        Some((tree, end)) => {
            let p_end = end + scan_ws(s, len, end);
            if p_end == len {
                let mut children = no_children();
                push_lead(&mut children, s, len, 0, tree);
                let _ = push_ws(&mut children, s, len, end);
                Ok(
                    SyntaxElement::node(
                        if statement {
                            SyntaxKind::ROOT_STMT
                        } else {
                            SyntaxKind::ROOT_EXPR
                        },
                        children,
                    ),
                )
            } else {
                Err(failure(s, len, p_end, Expected::EndOfInput))
            }
        },
    }
}

/// Parses an expression fragment into its syntax tree. The tree is the
/// one that the grammar reads, and it is lossless.
pub fn parse_expr(code: &str) -> (r: Result<SyntaxElement, ParseError>)
    ensures
        same_result(r, parse_spec(code@, false)),
        r matches Ok(tree) ==> text_of(tree@) == fragment(code@) && rooted(tree@),
{
    proof {
        law_parse_lossless(code@, false);
    }
    parse_root(code, false)
}

/// Parses a statement-header fragment into its syntax tree. The tree is
/// the one that the grammar reads, and it is lossless.
pub fn parse_stmt(code: &str) -> (r: Result<SyntaxElement, ParseError>)
    ensures
        same_result(r, parse_spec(code@, true)),
        r matches Ok(tree) ==> text_of(tree@) == fragment(code@) && rooted(tree@),
{
    proof {
        law_parse_lossless(code@, true);
    }
    parse_root(code, true)
}

} // verus!
