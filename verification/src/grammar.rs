//! The grammar of expressions and statement headers, as functions from the
//! input and a position to the tree that is read there and the position
//! after it.
//!
//! Alternatives are tried in order and the first that matches is taken;
//! repetitions take as many items as match. Positions count characters.

use crate::scanner::{
    bool_len, char_at, lit_at, number_len, operator_len, reserved_at, string_len, word_at,
    word_len, ws_len,
};
use crate::syntax::{Syntax, SyntaxKind};
use vstd::prelude::*;

verus! {

/// What a grammar rule reads: a tree and the position after it.
pub type Read = Option<(Syntax, int)>;

/// What an open-ended part of a rule reads: children and the position after.
pub type ReadMany = (Seq<Syntax>, int);

/// The token of `kind` that spans `s[start..end]`.
pub open spec fn tok(kind: SyntaxKind, s: Seq<char>, start: int, end: int) -> Syntax {
    Syntax::Token { kind, text: s.subrange(start, end) }
}

/// The node of `kind` with these children.
pub open spec fn node(kind: SyntaxKind, children: Seq<Syntax>) -> Syntax {
    Syntax::Node { kind, children }
}

/// The position after the white space at `pos`, if any.
pub open spec fn after_ws(s: Seq<char>, pos: int) -> int {
    pos + ws_len(s, pos)
}

/// The white-space token at `pos`, if any, as a list of children.
pub open spec fn ws_at(s: Seq<char>, pos: int) -> Seq<Syntax> {
    if ws_len(s, pos) > 0 {
        seq![tok(SyntaxKind::WHITESPACE, s, pos, after_ws(s, pos))]
    } else {
        Seq::empty()
    }
}

/// How much of the input is left at `pos`.
pub open spec fn rest_len(s: Seq<char>, pos: int) -> nat {
    if 0 <= pos <= s.len() {
        (s.len() - pos) as nat
    } else {
        0
    }
}

/// Whether the word `lit`, of `n` characters, stands at `pos` and ends there.
pub open spec fn keyword_at(s: Seq<char>, pos: int, lit: Seq<char>, n: nat) -> bool {
    lit.len() == n && word_at(s, pos, lit)
}

/// `children`, then the white space at `pos` if any, then `tree`.
pub open spec fn lead(children: Seq<Syntax>, s: Seq<char>, pos: int, tree: Syntax) -> Seq<Syntax> {
    children + ws_at(s, pos) + seq![tree]
}

/// `children`, then the white space at `pos` if any, then the token of
/// `kind` and `n` characters that follows it.
pub open spec fn closed(
    children: Seq<Syntax>,
    s: Seq<char>,
    pos: int,
    kind: SyntaxKind,
    n: nat,
) -> Seq<Syntax> {
    lead(children, s, pos, tok(kind, s, after_ws(s, pos), after_ws(s, pos) + n))
}

/// `children`, then the token of `kind` and `n` characters that stands
/// after the white space at `pos`, then `right`, with the white space
/// around the token.
pub open spec fn infix(
    children: Seq<Syntax>,
    s: Seq<char>,
    pos: int,
    kind: SyntaxKind,
    n: nat,
    right: Syntax,
) -> Seq<Syntax> {
    lead(closed(children, s, pos, kind, n), s, after_ws(s, pos) + n, right)
}

/// Whether `r` read something that ends after `pos`.
pub open spec fn ok_after(r: Read, pos: int) -> bool {
    match r {
        Some((_, end)) => end > pos,
        None => false,
    }
}

/// The tree that `r` read.
pub open spec fn tree_of(r: Read) -> Syntax {
    match r {
        Some((tree, _)) => tree,
        None => arbitrary(),
    }
}

/// The position after what `r` read.
pub open spec fn end_of(r: Read) -> int {
    match r {
        Some((_, end)) => end,
        None => 0,
    }
}

/// The constructs that are bracketed, comma-separated lists.
#[derive(Clone, Copy, Debug, PartialEq, Eq, Structural)]
pub enum ItemRule {
    /// `[expr, ..]`
    ListItem,
    /// `(expr, ..)`
    TupleItem,
    /// `{expr: expr, ..}`
    DictItem,
    /// `([name =] expr, ..)`
    Arg,
    /// `(name [= expr], ..)`
    Param,
    /// `(name, ..)`
    Name,
}

/// The character that opens a list of `rule`.
pub open spec fn opener(rule: ItemRule) -> char {
    match rule {
        ItemRule::ListItem => '[',
        ItemRule::DictItem => '{',
        _ => '(',
    }
}

/// The character that closes a list of `rule`.
pub open spec fn closer(rule: ItemRule) -> char {
    match rule {
        ItemRule::ListItem => ']',
        ItemRule::DictItem => '}',
        _ => ')',
    }
}

/// The kind of the token that opens a list of `rule`.
pub open spec fn opener_kind(rule: ItemRule) -> SyntaxKind {
    match rule {
        ItemRule::ListItem => SyntaxKind::L_BRACKET,
        ItemRule::DictItem => SyntaxKind::L_BRACE,
        _ => SyntaxKind::L_PAREN,
    }
}

/// The kind of the token that closes a list of `rule`.
pub open spec fn closer_kind(rule: ItemRule) -> SyntaxKind {
    match rule {
        ItemRule::ListItem => SyntaxKind::R_BRACKET,
        ItemRule::DictItem => SyntaxKind::R_BRACE,
        _ => SyntaxKind::R_PAREN,
    }
}

/// The items of a bracketed list read so far.
pub struct Items {
    /// The children read, the opening delimiter first.
    pub children: Seq<Syntax>,
    /// The position after them.
    pub end: int,
    /// Whether an item was read.
    pub any_item: bool,
    /// Whether a comma was read.
    pub any_comma: bool,
}

/// An expression: a binary expression, or a conditional
/// `value if condition else other`.
pub open spec fn expr(s: Seq<char>, pos: int) -> Read
    decreases rest_len(s, pos), 300int,
{
    if !(0 <= pos < s.len()) {
        None
    } else {
        let first = binary(0, s, pos);
        if ok_after(first, pos) {
            let rest = conditional_tail(s, end_of(first));
            match rest {
                Some((children, end)) => Some((node(SyntaxKind::EXPR_IF, seq![tree_of(first)] + children), end)),
                None => first,
            }
        } else {
            None
        }
    }
}

/// The rest of a conditional after its first operand:
/// `if condition else other`.
pub open spec fn conditional_tail(s: Seq<char>, pos: int) -> Option<ReadMany>
    decreases rest_len(s, pos), 95int,
{
    if !(0 <= pos < s.len()) {
        None
    } else {
        let p_if = after_ws(s, pos);
        if 0 <= pos && keyword_at(s, p_if, "if"@, 2) {
            let p_cond = after_ws(s, p_if + 2);
            let cond = binary(0, s, p_cond);
            if ok_after(cond, p_cond) {
                let p_else = after_ws(s, end_of(cond));
                if keyword_at(s, p_else, "else"@, 4) {
                    let p_other = after_ws(s, p_else + 4);
                    let other = expr(s, p_other);
                    if ok_after(other, p_other) {
                        Some(
                            (
                                infix(
                                    infix(
                                        Seq::empty(),
                                        s,
                                        pos,
                                        SyntaxKind::KEYWORD,
                                        2,
                                        tree_of(cond),
                                    ),
                                    s,
                                    end_of(cond),
                                    SyntaxKind::KEYWORD,
                                    4,
                                    tree_of(other),
                                ),
                                end_of(other),
                            ),
                        )
                    } else {
                        None
                    }
                } else {
                    None
                }
            } else {
                None
            }
        } else {
            None
        }
    }
}

/// The operand of a binary operator of precedence `level`: a binary
/// expression of the next level, and above the last level a unary one.
pub open spec fn operand(level: nat, s: Seq<char>, pos: int) -> Read
    decreases rest_len(s, pos), 199int - 2 * level,
{
    if !(0 <= pos < s.len()) {
        None
    } else {
        if level == 5 {
            unary(s, pos)
        } else if level < 5 {
            binary(level + 1, s, pos)
        } else {
            None
        }
    }
}

/// A chain of binary operators of precedence `level`, folded to the left.
pub open spec fn binary(level: nat, s: Seq<char>, pos: int) -> Read
    decreases rest_len(s, pos), 200int - 2 * level,
{
    if !(0 <= pos < s.len()) {
        None
    } else {
        if level > 5 {
            None
        } else {
            let first = operand(level, s, pos);
            if ok_after(first, pos) {
                Some(binary_rest(level, s, end_of(first), tree_of(first)))
            } else {
                None
            }
        }
    }
}

/// The rest of a chain of binary operators whose left side is `left`.
pub open spec fn binary_rest(level: nat, s: Seq<char>, pos: int, left: Syntax) -> (Syntax, int)
    decreases rest_len(s, pos), 0int,
{
    if !(0 <= pos < s.len()) {
        (left, pos)
    } else {
        let p_op = after_ws(s, pos);
        let n = operator_len(level, s, p_op);
        if 0 <= pos && level <= 5 && n > 0 {
            let p_right = after_ws(s, p_op + n);
            let right = operand(level, s, p_right);
            if ok_after(right, p_right) {
                binary_rest(
                    level,
                    s,
                    end_of(right),
                    node(
                        SyntaxKind::EXPR_BIN,
                        infix(seq![left], s, pos, SyntaxKind::OPERATOR, n, tree_of(right)),
                    ),
                )
            } else {
                (left, pos)
            }
        } else {
            (left, pos)
        }
    }
}

/// `not` and its operand, or a concatenation.
pub open spec fn unary(s: Seq<char>, pos: int) -> Read
    decreases rest_len(s, pos), 80int,
{
    if !(0 <= pos < s.len()) {
        None
    } else {
        if 0 <= pos && keyword_at(s, pos, "not"@, 3) {
            let p_inner = after_ws(s, pos + 3);
            let inner = concat(s, p_inner);
            if ok_after(inner, p_inner) {
                Some(
                    (
                        node(
                            SyntaxKind::EXPR_UNARY,
                            lead(
                                seq![tok(SyntaxKind::OPERATOR, s, pos, pos + 3)],
                                s,
                                pos + 3,
                                tree_of(inner),
                            ),
                        ),
                        end_of(inner),
                    ),
                )
            } else {
                concat(s, pos)
            }
        } else {
            concat(s, pos)
        }
    }
}

/// A chain of `~`, flat.
pub open spec fn concat(s: Seq<char>, pos: int) -> Read
    decreases rest_len(s, pos), 70int,
{
    if !(0 <= pos < s.len()) {
        None
    } else {
        let first = test_expr(s, pos);
        if ok_after(first, pos) {
            let rest = concat_rest(s, end_of(first), Seq::empty());
            if rest.0.len() == 0 {
                first
            } else {
                Some((node(SyntaxKind::EXPR_CONCAT, seq![tree_of(first)] + rest.0), rest.1))
            }
        } else {
            None
        }
    }
}

/// The rest of a chain of `~`, after the children `acc`.
pub open spec fn concat_rest(s: Seq<char>, pos: int, acc: Seq<Syntax>) -> ReadMany
    decreases rest_len(s, pos), 0int,
{
    if !(0 <= pos < s.len()) {
        (acc, pos)
    } else {
        let p_op = after_ws(s, pos);
        if 0 <= pos && char_at(s, p_op, '~') {
            let p_right = after_ws(s, p_op + 1);
            let right = test_expr(s, p_right);
            if ok_after(right, p_right) {
                concat_rest(
                    s,
                    end_of(right),
                    infix(acc, s, pos, SyntaxKind::OPERATOR, 1, tree_of(right)),
                )
            } else {
                (acc, pos)
            }
        } else {
            (acc, pos)
        }
    }
}

/// A filter chain, with a test `is name` after it if one follows.
pub open spec fn test_expr(s: Seq<char>, pos: int) -> Read
    decreases rest_len(s, pos), 60int,
{
    if !(0 <= pos < s.len()) {
        None
    } else {
        let subject = filter(s, pos);
        if ok_after(subject, pos) {
            let p_is = after_ws(s, end_of(subject));
            if "is"@.len() == 2 && lit_at(s, p_is, "is"@) {
                let p_name = after_ws(s, p_is + 2);
                let name = test_name(s, p_name);
                if ok_after(name, p_name) {
                    Some(
                        (
                            node(
                                SyntaxKind::EXPR_TEST,
                                infix(
                                    seq![tree_of(subject)],
                                    s,
                                    end_of(subject),
                                    SyntaxKind::OPERATOR,
                                    2,
                                    tree_of(name),
                                ),
                            ),
                            end_of(name),
                        ),
                    )
                } else {
                    subject
                }
            } else {
                subject
            }
        } else {
            None
        }
    }
}

/// What follows `is`: a test with one argument written without
/// parentheses, or an access chain.
pub open spec fn test_name(s: Seq<char>, pos: int) -> Read
    decreases rest_len(s, pos), 55int,
{
    if !(0 <= pos < s.len()) {
        None
    } else {
        let sugar = bare_call(s, pos);
        if ok_after(sugar, pos) {
            sugar
        } else {
            access(s, pos)
        }
    }
}

/// A test name, white space, and one argument that neither starts with `(`
/// nor is a word that ends an operand.
pub open spec fn bare_call(s: Seq<char>, pos: int) -> Read
    decreases rest_len(s, pos), 52int,
{
    if !(0 <= pos < s.len()) {
        None
    } else {
        let callee = term(s, pos);
        if ok_after(callee, pos) {
            let p_arg = after_ws(s, end_of(callee));
            if p_arg > end_of(callee) && p_arg < s.len() && s[p_arg] != '(' && !reserved_at(s, p_arg) {
                let arg = access(s, p_arg);
                if ok_after(arg, p_arg) {
                    Some(
                        (
                            node(
                                SyntaxKind::EXPR_CALL,
                                lead(
                                    seq![tree_of(callee)],
                                    s,
                                    end_of(callee),
                                    node(SyntaxKind::ARG, seq![tree_of(arg)]),
                                ),
                            ),
                            end_of(arg),
                        ),
                    )
                } else {
                    None
                }
            } else {
                None
            }
        } else {
            None
        }
    }
}

/// An access chain, with the filters applied to it if any.
pub open spec fn filter(s: Seq<char>, pos: int) -> Read
    decreases rest_len(s, pos), 50int,
{
    if !(0 <= pos < s.len()) {
        None
    } else {
        let base = access(s, pos);
        if ok_after(base, pos) {
            let rest = filters(s, end_of(base), Seq::empty());
            if rest.0.len() == 0 {
                base
            } else {
                Some((node(SyntaxKind::EXPR_FILTER, seq![tree_of(base)] + rest.0), rest.1))
            }
        } else {
            None
        }
    }
}

/// A chain of `| name` and `| name(args)`, after the children `acc`.
pub open spec fn filters(s: Seq<char>, pos: int, acc: Seq<Syntax>) -> ReadMany
    decreases rest_len(s, pos), 0int,
{
    if !(0 <= pos < s.len()) {
        (acc, pos)
    } else {
        let p_op = after_ws(s, pos);
        if 0 <= pos && char_at(s, p_op, '|') {
            let p_name = after_ws(s, p_op + 1);
            let n = word_len(s, p_name);
            if n > 0 {
                let name = tok(SyntaxKind::IDENT, s, p_name, p_name + n);
                let call = args(s, p_name + n);
                match call {
                    Some((children, end)) => if end > p_name + n {
                        filters(
                            s,
                            end,
                            infix(
                                acc,
                                s,
                                pos,
                                SyntaxKind::OPERATOR,
                                1,
                                node(
                                    SyntaxKind::EXPR_CALL,
                                    seq![node(SyntaxKind::EXPR_IDENT, seq![name])] + children,
                                ),
                            ),
                        )
                    } else {
                        (acc, pos)
                    },
                    None => filters(
                        s,
                        p_name + n,
                        infix(
                            acc,
                            s,
                            pos,
                            SyntaxKind::OPERATOR,
                            1,
                            node(SyntaxKind::EXPR_IDENT, seq![name]),
                        ),
                    ),
                }
            } else {
                (acc, pos)
            }
        } else {
            (acc, pos)
        }
    }
}

/// A term and the accesses applied to it: `.name`, `[index]`, `(args)`.
pub open spec fn access(s: Seq<char>, pos: int) -> Read
    decreases rest_len(s, pos), 40int,
{
    if !(0 <= pos < s.len()) {
        None
    } else {
        let base = term(s, pos);
        if ok_after(base, pos) {
            Some(access_rest(s, end_of(base), tree_of(base)))
        } else {
            None
        }
    }
}

/// The rest of an access chain whose base is `base`.
pub open spec fn access_rest(s: Seq<char>, pos: int, base: Syntax) -> (Syntax, int)
    decreases rest_len(s, pos), 15int,
{
    if !(0 <= pos < s.len()) {
        (base, pos)
    } else {
        let p_op = after_ws(s, pos);
        if pos < 0 {
            (base, pos)
        } else if char_at(s, p_op, '.') {
            let p_name = after_ws(s, p_op + 1);
            let name = term(s, p_name);
            if ok_after(name, p_name) {
                access_rest(
                    s,
                    end_of(name),
                    node(
                        SyntaxKind::EXPR_GET_ATTR,
                        infix(seq![base], s, pos, SyntaxKind::DOT, 1, tree_of(name)),
                    ),
                )
            } else {
                (base, pos)
            }
        } else if char_at(s, p_op, '[') {
            let p_index = after_ws(s, p_op + 1);
            let index = expr(s, p_index);
            if ok_after(index, p_index) {
                let p_close = after_ws(s, end_of(index));
                if char_at(s, p_close, ']') {
                    access_rest(
                        s,
                        p_close + 1,
                        node(
                            SyntaxKind::EXPR_GET_ITEM,
                            closed(
                                infix(
                                    seq![base],
                                    s,
                                    pos,
                                    SyntaxKind::L_BRACKET,
                                    1,
                                    tree_of(index),
                                ),
                                s,
                                end_of(index),
                                SyntaxKind::R_BRACKET,
                                1,
                            ),
                        ),
                    )
                } else {
                    (base, pos)
                }
            } else {
                (base, pos)
            }
        } else {
            match args(s, pos) {
                Some((children, end)) => if end > pos {
                    access_rest(s, end, node(SyntaxKind::EXPR_CALL, seq![base] + children))
                } else {
                    (base, pos)
                },
                None => (base, pos),
            }
        }
    }
}

/// An argument list with the white space before it: the children that it
/// adds to a call.
pub open spec fn args(s: Seq<char>, pos: int) -> Option<ReadMany>
    decreases rest_len(s, pos), 10int,
{
    if !(0 <= pos < s.len()) {
        None
    } else {
        let p_open = after_ws(s, pos);
        if 0 <= pos {
            match bracketed(ItemRule::Arg, s, p_open) {
                Some(list) => Some((ws_at(s, pos) + list.children, list.end)),
                None => None,
            }
        } else {
            None
        }
    }
}

/// A bracketed, comma-separated list of `rule` whose opening delimiter is
/// at `pos`.
pub open spec fn bracketed(rule: ItemRule, s: Seq<char>, pos: int) -> Option<Items>
    decreases rest_len(s, pos), 8int,
{
    if !(0 <= pos < s.len()) {
        None
    } else {
        if char_at(s, pos, opener(rule)) {
            let read = items(
                rule,
                s,
                pos + 1,
                Items {
                    children: seq![tok(opener_kind(rule), s, pos, pos + 1)],
                    end: pos + 1,
                    any_item: false,
                    any_comma: false,
                },
            );
            let p_close = after_ws(s, read.end);
            if char_at(s, p_close, closer(rule)) {
                Some(
                    Items {
                        children: closed(read.children, s, read.end, closer_kind(rule), 1),
                        end: p_close + 1,
                        any_item: read.any_item,
                        any_comma: read.any_comma,
                    },
                )
            } else {
                None
            }
        } else {
            None
        }
    }
}

/// The items of a list of `rule` from `pos`, after those in `acc`: each is
/// followed by a comma, but the last may stand right before the closing
/// delimiter instead.
pub open spec fn items(rule: ItemRule, s: Seq<char>, pos: int, acc: Items) -> Items
    decreases rest_len(s, pos), 330int,
{
    if !(0 <= pos < s.len()) {
        Items { end: pos, ..acc }
    } else {
        let p_item = after_ws(s, pos);
        let stop = Items { end: pos, ..acc };
        if pos < 0 {
            stop
        } else {
            let it = item(rule, s, p_item);
            if ok_after(it, p_item) {
                let p_sep = after_ws(s, end_of(it));
                if char_at(s, p_sep, ',') {
                    items(
                        rule,
                        s,
                        p_sep + 1,
                        Items {
                            children: closed(
                                lead(acc.children, s, pos, tree_of(it)),
                                s,
                                end_of(it),
                                SyntaxKind::COMMA,
                                1,
                            ),
                            end: p_sep + 1,
                            any_item: true,
                            any_comma: true,
                        },
                    )
                } else if char_at(s, p_sep, closer(rule)) {
                    Items {
                        children: lead(acc.children, s, pos, tree_of(it)),
                        end: end_of(it),
                        any_item: true,
                        any_comma: acc.any_comma,
                    }
                } else {
                    stop
                }
            } else {
                stop
            }
        }
    }
}

/// One item of a list of `rule`.
pub open spec fn item(rule: ItemRule, s: Seq<char>, pos: int) -> Read
    decreases rest_len(s, pos), 320int,
{
    if !(0 <= pos < s.len()) {
        None
    } else {
        match rule {
            ItemRule::ListItem | ItemRule::TupleItem => expr(s, pos),
            ItemRule::DictItem => dict_item(s, pos),
            ItemRule::Arg => {
                let named = named_arg(s, pos);
                if ok_after(named, pos) {
                    named
                } else {
                    let value = expr(s, pos);
                    if ok_after(value, pos) {
                        Some((node(SyntaxKind::ARG, seq![tree_of(value)]), end_of(value)))
                    } else {
                        None
                    }
                }
            },
            ItemRule::Param => param(s, pos),
            ItemRule::Name => {
                let n = word_len(s, pos);
                if n > 0 {
                    Some(
                        (
                            node(SyntaxKind::PARAM, seq![tok(SyntaxKind::IDENT, s, pos, pos + n)]),
                            pos + n,
                        ),
                    )
                } else {
                    None
                }
            },
        }
    }
}

/// A dictionary entry `key: value`.
pub open spec fn dict_item(s: Seq<char>, pos: int) -> Read
    decreases rest_len(s, pos), 310int,
{
    if !(0 <= pos < s.len()) {
        None
    } else {
        let key = expr(s, pos);
        if ok_after(key, pos) {
            let p_colon = after_ws(s, end_of(key));
            if char_at(s, p_colon, ':') {
                let p_value = after_ws(s, p_colon + 1);
                let value = expr(s, p_value);
                if ok_after(value, p_value) {
                    Some(
                        (
                            node(
                                SyntaxKind::EXPR_DICT_ITEM,
                                infix(
                                    seq![tree_of(key)],
                                    s,
                                    end_of(key),
                                    SyntaxKind::COLON,
                                    1,
                                    tree_of(value),
                                ),
                            ),
                            end_of(value),
                        ),
                    )
                } else {
                    None
                }
            } else {
                None
            }
        } else {
            None
        }
    }
}

/// A named argument `name = value`.
pub open spec fn named_arg(s: Seq<char>, pos: int) -> Read
    decreases rest_len(s, pos), 310int,
{
    if !(0 <= pos < s.len()) {
        None
    } else {
        let n = word_len(s, pos);
        let p_eq = after_ws(s, pos + n);
        if 0 <= pos && n > 0 && char_at(s, p_eq, '=') {
            let p_value = after_ws(s, p_eq + 1);
            let value = expr(s, p_value);
            if ok_after(value, p_value) {
                Some(
                    (
                        node(
                            SyntaxKind::ARG,
                            infix(
                                seq![tok(SyntaxKind::IDENT, s, pos, pos + n)],
                                s,
                                pos + n,
                                SyntaxKind::EQ,
                                1,
                                tree_of(value),
                            ),
                        ),
                        end_of(value),
                    ),
                )
            } else {
                None
            }
        } else {
            None
        }
    }
}

/// A parameter `name` or `name = default`.
pub open spec fn param(s: Seq<char>, pos: int) -> Read
    decreases rest_len(s, pos), 310int,
{
    if !(0 <= pos < s.len()) {
        None
    } else {
        let n = word_len(s, pos);
        let p_eq = after_ws(s, pos + n);
        let name = tok(SyntaxKind::IDENT, s, pos, pos + n);
        if pos < 0 || n == 0 {
            None
        } else if char_at(s, p_eq, '=') {
            let p_value = after_ws(s, p_eq + 1);
            let value = expr(s, p_value);
            if ok_after(value, p_value) {
                Some(
                    (
                        node(
                            SyntaxKind::PARAM,
                            infix(seq![name], s, pos + n, SyntaxKind::EQ, 1, tree_of(value)),
                        ),
                        end_of(value),
                    ),
                )
            } else {
                Some((node(SyntaxKind::PARAM, seq![name]), pos + n))
            }
        } else {
            Some((node(SyntaxKind::PARAM, seq![name]), pos + n))
        }
    }
}

/// A literal, an identifier, a parenthesized expression, a list, a
/// dictionary or a tuple.
pub open spec fn term(s: Seq<char>, pos: int) -> Read
    decreases rest_len(s, pos), 30int,
{
    if !(0 <= pos < s.len()) {
        None
    } else {
        if pos < 0 {
            None
        } else if bool_len(s, pos) > 0 {
            let end = pos + bool_len(s, pos);
            Some((node(SyntaxKind::EXPR_LITERAL, seq![tok(SyntaxKind::BOOL, s, pos, end)]), end))
        } else if number_len(s, pos) > 0 {
            let end = pos + number_len(s, pos);
            Some((node(SyntaxKind::EXPR_LITERAL, seq![tok(SyntaxKind::NUMBER, s, pos, end)]), end))
        } else if string_len(s, pos) > 0 {
            let end = pos + string_len(s, pos);
            Some((node(SyntaxKind::EXPR_LITERAL, seq![tok(SyntaxKind::STRING, s, pos, end)]), end))
        } else if word_len(s, pos) > 0 {
            let end = pos + word_len(s, pos);
            Some((node(SyntaxKind::EXPR_IDENT, seq![tok(SyntaxKind::IDENT, s, pos, end)]), end))
        } else if char_at(s, pos, '(') {
            let inner = paren(s, pos);
            if ok_after(inner, pos) {
                inner
            } else {
                match bracketed(ItemRule::TupleItem, s, pos) {
                    Some(list) => if !list.any_item || list.any_comma {
                        Some((node(SyntaxKind::EXPR_TUPLE, list.children), list.end))
                    } else {
                        None
                    },
                    None => None,
                }
            }
        } else if char_at(s, pos, '[') {
            match bracketed(ItemRule::ListItem, s, pos) {
                Some(list) => Some((node(SyntaxKind::EXPR_LIST, list.children), list.end)),
                None => None,
            }
        } else if char_at(s, pos, '{') {
            match bracketed(ItemRule::DictItem, s, pos) {
                Some(list) => Some((node(SyntaxKind::EXPR_DICT, list.children), list.end)),
                None => None,
            }
        } else {
            None
        }
    }
}

/// A parenthesized expression.
pub open spec fn paren(s: Seq<char>, pos: int) -> Read
    decreases rest_len(s, pos), 20int,
{
    if !(0 <= pos < s.len()) {
        None
    } else {
        if char_at(s, pos, '(') {
            let p_inner = after_ws(s, pos + 1);
            let inner = expr(s, p_inner);
            if ok_after(inner, p_inner) {
                let p_close = after_ws(s, end_of(inner));
                if char_at(s, p_close, ')') {
                    Some(
                        (
                            node(
                                SyntaxKind::EXPR_PAREN,
                                closed(
                                    lead(
                                        seq![tok(SyntaxKind::L_PAREN, s, pos, pos + 1)],
                                        s,
                                        pos + 1,
                                        tree_of(inner),
                                    ),
                                    s,
                                    end_of(inner),
                                    SyntaxKind::R_PAREN,
                                    1,
                                ),
                            ),
                            p_close + 1,
                        ),
                    )
                } else {
                    None
                }
            } else {
                None
            }
        } else {
            None
        }
    }
}

/// One or more names separated by commas, after the children `acc` and
/// the white space at `pos`.
pub open spec fn names(s: Seq<char>, pos: int, acc: Seq<Syntax>) -> Option<ReadMany> {
    let n = word_len(s, after_ws(s, pos));
    if 0 <= pos && n > 0 {
        Some(names_rest(s, after_ws(s, pos) + n, closed(acc, s, pos, SyntaxKind::IDENT, n)))
    } else {
        None
    }
}

/// The rest of a list of names: `, name` as often as it follows.
pub open spec fn names_rest(s: Seq<char>, pos: int, acc: Seq<Syntax>) -> ReadMany
    decreases rest_len(s, pos),
{
    let p_comma = after_ws(s, pos);
    let n = word_len(s, after_ws(s, p_comma + 1));
    if 0 <= pos < s.len() && char_at(s, p_comma, ',') && n > 0 {
        names_rest(
            s,
            after_ws(s, p_comma + 1) + n,
            closed(closed(acc, s, pos, SyntaxKind::COMMA, 1), s, p_comma + 1, SyntaxKind::IDENT, n),
        )
    } else {
        (acc, pos)
    }
}

/// Whether the keyword `lit`, of `n` characters, stands at `pos` with white
/// space after it.
pub open spec fn head_at(s: Seq<char>, pos: int, lit: Seq<char>, n: nat) -> bool {
    0 <= pos && lit.len() == n && lit_at(s, pos, lit) && ws_len(s, pos + n) > 0
}

/// What may end a `for` header: `if condition`, or `recursive`.
pub open spec fn for_tail(s: Seq<char>, pos: int) -> ReadMany {
    let p_word = after_ws(s, pos);
    let p_cond = after_ws(s, p_word + 2);
    let cond = expr(s, p_cond);
    if pos < 0 || p_word == pos {
        (Seq::empty(), pos)
    } else if head_at(s, p_word, "if"@, 2) && ok_after(cond, p_cond) {
        (infix(Seq::empty(), s, pos, SyntaxKind::KEYWORD, 2, tree_of(cond)), end_of(cond))
    } else if word_len(s, p_word) == 9 && lit_at(s, p_word, "recursive"@) {
        (closed(Seq::empty(), s, pos, SyntaxKind::KEYWORD, 9), p_word + 9)
    } else {
        (Seq::empty(), pos)
    }
}

/// `for name, .. in iterable`, with `if condition` or `recursive` after it
/// if one follows.
pub open spec fn stmt_for(s: Seq<char>, pos: int) -> Read {
    if head_at(s, pos, "for"@, 3) {
        match names(s, pos + 3, seq![tok(SyntaxKind::KEYWORD, s, pos, pos + 3)]) {
            Some((bound, p_bound)) => {
                let p_in = after_ws(s, p_bound);
                let p_iter = after_ws(s, p_in + 2);
                let iter = expr(s, p_iter);
                if p_in > p_bound && head_at(s, p_in, "in"@, 2) && ok_after(iter, p_iter) {
                    let tail = for_tail(s, end_of(iter));
                    Some(
                        (
                            node(
                                SyntaxKind::STMT_FOR,
                                infix(bound, s, p_bound, SyntaxKind::KEYWORD, 2, tree_of(iter))
                                    + tail.0,
                            ),
                            tail.1,
                        ),
                    )
                } else {
                    None
                }
            },
            None => None,
        }
    } else {
        None
    }
}

/// `macro name(params)` or `filter name(params)`: the keyword `lit` of `n`
/// characters, a name, and a parameter list.
pub open spec fn stmt_definition(
    s: Seq<char>,
    pos: int,
    lit: Seq<char>,
    n: nat,
    kind: SyntaxKind,
) -> Read {
    let p_name = after_ws(s, pos + n);
    let name_len = word_len(s, p_name);
    if head_at(s, pos, lit, n) && name_len > 0 {
        match bracketed(ItemRule::Param, s, after_ws(s, p_name + name_len)) {
            Some(list) => Some(
                (
                    node(
                        kind,
                        closed(
                            seq![tok(SyntaxKind::KEYWORD, s, pos, pos + n)],
                            s,
                            pos + n,
                            SyntaxKind::IDENT,
                            name_len,
                        ) + ws_at(s, p_name + name_len) + list.children,
                    ),
                    list.end,
                ),
            ),
            None => None,
        }
    } else {
        None
    }
}

/// `call name(args)` or `call(names) name(args)`.
pub open spec fn stmt_call(s: Seq<char>, pos: int) -> Read {
    let keyword = seq![tok(SyntaxKind::KEYWORD, s, pos, pos + 4)];
    let p_open = after_ws(s, pos + 4);
    if 0 <= pos && "call"@.len() == 4 && lit_at(s, pos, "call"@) {
        if char_at(s, p_open, '(') {
            match bracketed(ItemRule::Name, s, p_open) {
                Some(list) => stmt_call_rest(
                    s,
                    list.end,
                    keyword + ws_at(s, pos + 4) + list.children,
                ),
                None => None,
            }
        } else if p_open > pos + 4 {
            stmt_call_rest(s, pos + 4, keyword)
        } else {
            None
        }
    } else {
        None
    }
}

/// The callee of a `call` header and its arguments, after the children
/// `acc` and the white space at `pos`.
pub open spec fn stmt_call_rest(s: Seq<char>, pos: int, acc: Seq<Syntax>) -> Read {
    let p_name = after_ws(s, pos);
    let n = word_len(s, p_name);
    if 0 <= pos && n > 0 {
        match args(s, p_name + n) {
            Some((children, end)) => Some(
                (node(SyntaxKind::STMT_CALL, closed(acc, s, pos, SyntaxKind::IDENT, n) + children), end),
            ),
            None => None,
        }
    } else {
        None
    }
}

/// `set name, .. = value`, or `set name, ..` with filters after it.
pub open spec fn stmt_set(s: Seq<char>, pos: int) -> Read {
    if head_at(s, pos, "set"@, 3) {
        match names(s, pos + 3, seq![tok(SyntaxKind::KEYWORD, s, pos, pos + 3)]) {
            Some((targets, p_targets)) => {
                let p_eq = after_ws(s, p_targets);
                let p_value = after_ws(s, p_eq + 1);
                let value = expr(s, p_value);
                if char_at(s, p_eq, '=') && ok_after(value, p_value) {
                    Some(
                        (
                            node(
                                SyntaxKind::STMT_SET,
                                infix(targets, s, p_targets, SyntaxKind::EQ, 1, tree_of(value)),
                            ),
                            end_of(value),
                        ),
                    )
                } else {
                    let chain = filters(s, p_targets, targets);
                    Some((node(SyntaxKind::STMT_SET, chain.0), chain.1))
                }
            },
            None => None,
        }
    } else {
        None
    }
}

/// `with name, .. = value`.
pub open spec fn stmt_with(s: Seq<char>, pos: int) -> Read {
    if head_at(s, pos, "with"@, 4) {
        match names(s, pos + 4, seq![tok(SyntaxKind::KEYWORD, s, pos, pos + 4)]) {
            Some((targets, p_targets)) => {
                let p_eq = after_ws(s, p_targets);
                let p_value = after_ws(s, p_eq + 1);
                let value = expr(s, p_value);
                if char_at(s, p_eq, '=') && ok_after(value, p_value) {
                    Some(
                        (
                            node(
                                SyntaxKind::STMT_WITH,
                                infix(targets, s, p_targets, SyntaxKind::EQ, 1, tree_of(value)),
                            ),
                            end_of(value),
                        ),
                    )
                } else {
                    None
                }
            },
            None => None,
        }
    } else {
        None
    }
}

/// The expressions after the keyword of a header that has no grammar of
/// its own, after the children `acc`: each with a comma after it if one
/// follows, and each after white space, which may be missing only right
/// after a comma (`after_comma`).
pub open spec fn unknown_rest(s: Seq<char>, pos: int, acc: Seq<Syntax>, after_comma: bool) -> ReadMany
    decreases rest_len(s, pos),
{
    let p_item = after_ws(s, pos);
    let it = expr(s, p_item);
    if 0 <= pos < s.len() && (after_comma || p_item > pos) && ok_after(it, p_item) {
        if char_at(s, after_ws(s, end_of(it)), ',') {
            unknown_rest(
                s,
                after_ws(s, end_of(it)) + 1,
                closed(lead(acc, s, pos, tree_of(it)), s, end_of(it), SyntaxKind::COMMA, 1),
                true,
            )
        } else {
            unknown_rest(s, end_of(it), lead(acc, s, pos, tree_of(it)), false)
        }
    } else {
        (acc, pos)
    }
}

/// A header that starts with any other word: the word as keyword, then
/// expressions.
pub open spec fn stmt_unknown(s: Seq<char>, pos: int) -> Read {
    let n = word_len(s, pos);
    if 0 <= pos && n > 0 {
        let rest = unknown_rest(
            s,
            pos + n,
            seq![tok(SyntaxKind::KEYWORD, s, pos, pos + n)],
            false,
        );
        Some((node(SyntaxKind::STMT_UNKNOWN, rest.0), rest.1))
    } else {
        None
    }
}

/// A statement header: the first that matches of `for`, `macro`, `call`,
/// `set`, `filter`, `with`, and the fallback.
pub open spec fn stmt(s: Seq<char>, pos: int) -> Read {
    if stmt_for(s, pos) is Some {
        stmt_for(s, pos)
    } else if stmt_definition(s, pos, "macro"@, 5, SyntaxKind::STMT_MACRO) is Some {
        stmt_definition(s, pos, "macro"@, 5, SyntaxKind::STMT_MACRO)
    } else if stmt_call(s, pos) is Some {
        stmt_call(s, pos)
    } else if stmt_set(s, pos) is Some {
        stmt_set(s, pos)
    } else if stmt_definition(s, pos, "filter"@, 6, SyntaxKind::STMT_FILTER) is Some {
        stmt_definition(s, pos, "filter"@, 6, SyntaxKind::STMT_FILTER)
    } else if stmt_with(s, pos) is Some {
        stmt_with(s, pos)
    } else {
        stmt_unknown(s, pos)
    }
}

/// What was missing where a fragment could not be read.
#[derive(Clone, Copy, Debug, PartialEq, Eq, Structural)]
pub enum Expected {
    /// An expression.
    Expression,
    /// A statement header.
    Statement,
    /// The end of the input.
    EndOfInput,
}

/// The number of leading byte-order marks of `s`.
pub open spec fn bom_len(s: Seq<char>, pos: int) -> nat
    decreases s.len() - pos,
{
    if 0 <= pos < s.len() && s[pos] == '\u{feff}' {
        1 + bom_len(s, pos + 1)
    } else {
        0
    }
}

/// The fragment without its leading byte-order marks.
pub open spec fn fragment(source: Seq<char>) -> Seq<char> {
    source.subrange(bom_len(source, 0) as int, source.len() as int)
}

/// A whole fragment `s` (without byte-order mark): white space if any, one
/// statement header or one expression, white space if any, and the end of
/// the input. Where that fails, the position of the failure in characters,
/// and what was missing there.
pub open spec fn root(s: Seq<char>, statement: bool) -> Result<Syntax, (int, Expected)> {
    let start = after_ws(s, 0);
    let inner = if statement { stmt(s, start) } else { expr(s, start) };
    match inner {
        Some((tree, end)) => if after_ws(s, end) == s.len() {
            Ok(
                node(
                    if statement { SyntaxKind::ROOT_STMT } else { SyntaxKind::ROOT_EXPR },
                    lead(Seq::empty(), s, 0, tree) + ws_at(s, end),
                ),
            )
        } else {
            Err((after_ws(s, end), Expected::EndOfInput))
        },
        None => Err((start, if statement { Expected::Statement } else { Expected::Expression })),
    }
}

} // verus!
