//! Laws of the printer: what holds of the document of every tree.

use crate::config::{LanguageOptions, ListKind, TrailingComma};
use crate::doc::DocView;
use crate::lossless::{all_well_formed, well_formed};
use crate::printer::{
    comma_items, comma_list, find_node, find_token, has_newline, has_node, is_trivia,
    last_item_doc, nested, node_count, node_follows, opening_break, pieces, print_spec,
    token_doc, token_text, Style,
};
use crate::syntax::{Syntax, SyntaxKind};
use vstd::prelude::*;

verus! {

/// Whether a node of `kind` prints a bracketed list of the construct `list`.
pub open spec fn prints_list(kind: SyntaxKind, list: ListKind) -> bool {
    match list {
        ListKind::Args => kind == SyntaxKind::EXPR_CALL || kind == SyntaxKind::STMT_CALL,
        ListKind::Dict => kind == SyntaxKind::EXPR_DICT,
        ListKind::List => kind == SyntaxKind::EXPR_LIST,
        ListKind::Tuple => kind == SyntaxKind::EXPR_TUPLE,
        ListKind::Params => kind == SyntaxKind::STMT_MACRO || kind == SyntaxKind::STMT_FILTER
            || kind == SyntaxKind::STMT_CALL,
    }
}

/// Whether no node of `t` prints a bracketed list of the construct `list`.
pub open spec fn free_of(t: Syntax, list: ListKind) -> bool
    decreases t, 0nat,
{
    match t {
        Syntax::Token { .. } => true,
        Syntax::Node { kind, children } => !prints_list(kind, list) && all_free_of(
            children,
            0,
            list,
        ),
    }
}

/// Whether none of `children[i..]` holds a node that prints a bracketed
/// list of the construct `list`.
pub open spec fn all_free_of(children: Seq<Syntax>, i: int, list: ListKind) -> bool
    decreases children, children.len() - i,
{
    if 0 <= i < children.len() {
        free_of(children[i], list) && all_free_of(children, i + 1, list)
    } else {
        true
    }
}

/// Whether the options `a` and `b` are the same but for the delimiter
/// spacing of the construct `list`.
pub open spec fn same_but_spacing(a: LanguageOptions, b: LanguageOptions, list: ListKind) -> bool {
    &&& a.operator_linebreak == b.operator_linebreak
    &&& a.trailing_comma == b.trailing_comma
    &&& a.args_trailing_comma == b.args_trailing_comma
    &&& a.expr_dict_trailing_comma == b.expr_dict_trailing_comma
    &&& a.expr_list_trailing_comma == b.expr_list_trailing_comma
    &&& a.expr_tuple_trailing_comma == b.expr_tuple_trailing_comma
    &&& a.params_trailing_comma == b.params_trailing_comma
    &&& a.prefer_single_line == b.prefer_single_line
    &&& a.args_prefer_single_line == b.args_prefer_single_line
    &&& a.expr_dict_prefer_single_line == b.expr_dict_prefer_single_line
    &&& a.expr_list_prefer_single_line == b.expr_list_prefer_single_line
    &&& a.expr_tuple_prefer_single_line == b.expr_tuple_prefer_single_line
    &&& a.params_prefer_single_line == b.params_prefer_single_line
    &&& (list != ListKind::Args ==> a.args_paren_spacing == b.args_paren_spacing)
    &&& (list != ListKind::Dict ==> a.brace_spacing == b.brace_spacing)
    &&& (list != ListKind::List ==> a.bracket_spacing == b.bracket_spacing)
    &&& (list != ListKind::Tuple ==> a.tuple_paren_spacing == b.tuple_paren_spacing)
    &&& (list != ListKind::Params ==> a.params_paren_spacing == b.params_paren_spacing)
}

/// Options that are the same but for the spacing of one construct resolve
/// to the same policies, and to the same spacing for every other construct.
pub proof fn lemma_same_resolution(a: LanguageOptions, b: LanguageOptions, list: ListKind)
    requires
        same_but_spacing(a, b, list),
    ensures
        forall|other: ListKind| #[trigger]
            a.trailing_comma_spec(other) == b.trailing_comma_spec(other),
        forall|other: ListKind| #[trigger]
            a.prefer_single_line_spec(other) == b.prefer_single_line_spec(other),
        forall|other: ListKind|
            other != list ==> #[trigger] a.spacing_spec(other) == b.spacing_spec(other),
        forall|style: Style, kind: SyntaxKind, text: Seq<char>, iw: nat| #[trigger]
            token_doc(style, kind, text, a, iw) == token_doc(style, kind, text, b, iw),
{
}

/// Where no child from `i` on holds a list of a construct, the child at
/// `j` holds none.
pub proof fn lemma_free_at(children: Seq<Syntax>, i: int, j: int, list: ListKind)
    requires
        0 <= i <= j < children.len(),
        all_free_of(children, i, list),
    ensures
        free_of(children[j], list),
    decreases j - i,
{
    if i < j {
        lemma_free_at(children, i + 1, j, list);
    }
}

/// `find_token` answers with an index between `i` and `end`.
pub proof fn lemma_find_token_bounds(children: Seq<Syntax>, i: int, end: int, kind: SyntaxKind)
    requires
        0 <= i <= end <= children.len(),
    ensures
        i <= find_token(children, i, end, kind) <= end,
    decreases end - i,
{
    if i < end {
        lemma_find_token_bounds(children, i + 1, end, kind);
    }
}

/// `find_node` answers with an index between `i` and the number of children.
pub proof fn lemma_find_node_bounds(children: Seq<Syntax>, i: int)
    requires
        0 <= i <= children.len(),
    ensures
        i <= find_node(children, i) <= children.len(),
    decreases children.len() - i,
{
    if i < children.len() {
        lemma_find_node_bounds(children, i + 1);
    }
}

/// The spacing toggles are independent: under options that are the same
/// but for the delimiter spacing of one construct, a tree that holds no
/// list of that construct has the same document, whatever other lists it
/// holds.
pub proof fn law_spacing_independent(
    t: Syntax,
    in_bin: bool,
    a: LanguageOptions,
    b: LanguageOptions,
    list: ListKind,
    iw: nat,
)
    requires
        free_of(t, list),
        same_but_spacing(a, b, list),
    ensures
        print_spec(t, in_bin, a, iw) == print_spec(t, in_bin, b, iw),
    decreases t, 0nat,
{
    match t {
        Syntax::Token { .. } => {},
        Syntax::Node { kind, children } => {
            let n = children.len() as int;
            lemma_same_resolution(a, b, list);
            if kind == SyntaxKind::EXPR_DICT {
                lemma_comma_list_spacing(children, 0, n, ListKind::Dict, a.trailing_comma_spec(ListKind::Dict), a, b, list, iw);
            } else if kind == SyntaxKind::EXPR_LIST {
                lemma_comma_list_spacing(children, 0, n, ListKind::List, a.trailing_comma_spec(ListKind::List), a, b, list, iw);
            } else if kind == SyntaxKind::EXPR_TUPLE {
                lemma_comma_list_spacing(children, 0, n, ListKind::Tuple, TrailingComma::Always, a, b, list, iw);
                lemma_comma_list_spacing(children, 0, n, ListKind::Tuple, a.trailing_comma_spec(ListKind::Tuple), a, b, list, iw);
            } else if kind == SyntaxKind::EXPR_CALL {
                lemma_find_token_bounds(children, 0, n, SyntaxKind::L_PAREN);
                let open = find_token(children, 0, n, SyntaxKind::L_PAREN);
                lemma_comma_list_spacing(children, open, n, ListKind::Args, a.trailing_comma_spec(ListKind::Args), a, b, list, iw);
                if n > 0 {
                    law_spacing_independent(children[0], false, a, b, list, iw);
                }
                if n > 1 {
                    lemma_find_node_bounds(children, 1);
                    let arg = find_node(children, 1);
                    if arg < n {
                        lemma_free_at(children, 0, arg, list);
                        law_spacing_independent(children[arg], false, a, b, list, iw);
                    }
                }
            } else if kind == SyntaxKind::STMT_MACRO || kind == SyntaxKind::STMT_FILTER {
                lemma_find_token_bounds(children, 0, n, SyntaxKind::L_PAREN);
                let open = find_token(children, 0, n, SyntaxKind::L_PAREN);
                lemma_comma_list_spacing(children, open, n, ListKind::Params, a.trailing_comma_spec(ListKind::Params), a, b, list, iw);
            } else if kind == SyntaxKind::STMT_CALL {
                lemma_find_token_bounds(children, 0, n, SyntaxKind::IDENT);
                let name = find_token(children, 0, n, SyntaxKind::IDENT);
                lemma_find_token_bounds(children, 0, name, SyntaxKind::L_PAREN);
                lemma_comma_list_spacing(children, find_token(children, 0, name, SyntaxKind::L_PAREN), name, ListKind::Params, a.trailing_comma_spec(ListKind::Params), a, b, list, iw);
                if name < n {
                    lemma_find_token_bounds(children, name + 1, n, SyntaxKind::L_PAREN);
                }
                lemma_comma_list_spacing(children, find_token(children, name + 1, n, SyntaxKind::L_PAREN), n, ListKind::Args, a.trailing_comma_spec(ListKind::Args), a, b, list, iw);
            } else if kind == SyntaxKind::ROOT_EXPR || kind == SyntaxKind::ROOT_STMT {
                lemma_find_node_bounds(children, 0);
                let at = find_node(children, 0);
                if at < n {
                    lemma_free_at(children, 0, at, list);
                    law_spacing_independent(children[at], false, a, b, list, iw);
                }
            } else if kind == SyntaxKind::EXPR_BIN {
                lemma_pieces_spacing(children, 0, Style::Operator, true, a, b, list, iw);
            } else if kind == SyntaxKind::EXPR_CONCAT || kind == SyntaxKind::EXPR_FILTER {
                lemma_pieces_spacing(children, 0, Style::Operator, false, a, b, list, iw);
            } else if kind == SyntaxKind::EXPR_TEST {
                lemma_pieces_spacing(children, 0, Style::Test, false, a, b, list, iw);
            } else if kind == SyntaxKind::EXPR_DICT_ITEM {
                lemma_pieces_spacing(children, 0, Style::DictItem, false, a, b, list, iw);
            } else if kind == SyntaxKind::EXPR_IF {
                lemma_pieces_spacing(children, 0, Style::Conditional, false, a, b, list, iw);
            } else if kind == SyntaxKind::EXPR_UNARY {
                lemma_pieces_spacing(children, 0, Style::Unary, false, a, b, list, iw);
            } else if kind == SyntaxKind::STMT_FOR {
                lemma_pieces_spacing(children, 0, Style::Loop, false, a, b, list, iw);
            } else if kind == SyntaxKind::STMT_SET {
                lemma_pieces_spacing(children, 0, Style::Assign, false, a, b, list, iw);
            } else if kind == SyntaxKind::STMT_WITH {
                lemma_pieces_spacing(children, 0, Style::Scope, false, a, b, list, iw);
            } else if kind == SyntaxKind::STMT_UNKNOWN {
                lemma_pieces_spacing(children, 0, Style::Unknown, false, a, b, list, iw);
            } else {
                lemma_pieces_spacing(children, 0, Style::Plain, false, a, b, list, iw);
            }
        },
    }
}

/// The pieces of children that hold no list of a construct are the same
/// under options that are the same but for the spacing of that construct.
proof fn lemma_pieces_spacing(
    children: Seq<Syntax>,
    i: int,
    style: Style,
    in_bin: bool,
    a: LanguageOptions,
    b: LanguageOptions,
    list: ListKind,
    iw: nat,
)
    requires
        0 <= i,
        all_free_of(children, 0, list),
        same_but_spacing(a, b, list),
    ensures
        pieces(children, i, style, in_bin, a, iw) == pieces(children, i, style, in_bin, b, iw),
    decreases children, children.len() - i,
{
    if i < children.len() {
        lemma_pieces_spacing(children, i + 1, style, in_bin, a, b, list, iw);
        lemma_free_at(children, 0, i, list);
        match children[i] {
            Syntax::Node { .. } => {
                law_spacing_independent(children[i], in_bin, a, b, list, iw);
            },
            Syntax::Token { kind, text } => {
                lemma_same_resolution(a, b, list);
            },
        }
    }
}

/// The parts of a list of another construct, over children that hold no
/// list of a construct, are the same under options that are the same but
/// for the spacing of that construct.
proof fn lemma_comma_items_spacing(
    children: Seq<Syntax>,
    i: int,
    end: int,
    printed: ListKind,
    policy: TrailingComma,
    a: LanguageOptions,
    b: LanguageOptions,
    list: ListKind,
    iw: nat,
)
    requires
        0 <= i,
        printed != list,
        all_free_of(children, 0, list),
        same_but_spacing(a, b, list),
    ensures
        comma_items(children, i, end, printed, policy, a, iw) == comma_items(
            children,
            i,
            end,
            printed,
            policy,
            b,
            iw,
        ),
    decreases children, children.len() - i,
{
    if i < end <= children.len() {
        lemma_comma_items_spacing(children, i + 1, end, printed, policy, a, b, list, iw);
        lemma_same_resolution(a, b, list);
        lemma_free_at(children, 0, i, list);
        if children[i] is Node {
            law_spacing_independent(children[i], false, a, b, list, iw);
        }
    }
}

/// A list of another construct, over children that hold no list of a
/// construct, is the same under options that are the same but for the
/// spacing of that construct.
proof fn lemma_comma_list_spacing(
    children: Seq<Syntax>,
    start: int,
    end: int,
    printed: ListKind,
    policy: TrailingComma,
    a: LanguageOptions,
    b: LanguageOptions,
    list: ListKind,
    iw: nat,
)
    requires
        printed != list,
        all_free_of(children, 0, list),
        same_but_spacing(a, b, list),
    ensures
        comma_list(children, start, end, printed, policy, a, iw) == comma_list(
            children,
            start,
            end,
            printed,
            policy,
            b,
            iw,
        ),
    decreases children, children.len() + 1,
{
    if 0 <= start <= children.len() {
        lemma_comma_items_spacing(children, start, end, printed, policy, a, b, list, iw);
    }
}

/// The trailing-comma policies: the last element of a list is followed by
/// nothing under `Never`, by a comma under `Always`, and under
/// `OnlyMultiLine` by a comma that appears only where the list is broken.
pub proof fn law_trailing_comma_policies(item: DocView, iw: nat)
    ensures
        last_item_doc(item, TrailingComma::Never, iw) == nested(
            iw,
            DocView::List(seq![item, DocView::Nil]),
        ),
        last_item_doc(item, TrailingComma::Always, iw) == nested(
            iw,
            DocView::List(seq![item, DocView::Text(","@)]),
        ),
        last_item_doc(item, TrailingComma::OnlyMultiLine, iw) == nested(
            iw,
            DocView::List(seq![item, DocView::TextIfBroken(","@)]),
        ),
{
}

/// In the parts of a bracketed list, the last element stands with what the
/// policy in force puts after it, whatever stands before and after.
pub proof fn law_last_element(
    children: Seq<Syntax>,
    start: int,
    end: int,
    last: int,
    printed: ListKind,
    policy: TrailingComma,
    o: LanguageOptions,
    iw: nat,
)
    requires
        0 <= start <= last < end <= children.len(),
        children[last] is Node,
        !has_node(children, last + 1, end),
    ensures
        exists|before: Seq<DocView>, after: Seq<DocView>|
            comma_items(children, start, end, printed, policy, o, iw) == before + seq![
                last_item_doc(print_spec(children[last], false, o, iw), policy, iw),
            ] + after,
    decreases last - start,
{
    let whole = comma_items(children, start, end, printed, policy, o, iw);
    let item = last_item_doc(print_spec(children[last], false, o, iw), policy, iw);
    if start == last {
        let after = comma_items(children, last + 1, end, printed, policy, o, iw);
        assert(whole == Seq::<DocView>::empty() + seq![item] + after);
    } else {
        law_last_element(children, start + 1, end, last, printed, policy, o, iw);
        let (before, after) = choose|before: Seq<DocView>, after: Seq<DocView>|
            comma_items(children, start + 1, end, printed, policy, o, iw) == before + seq![item]
                + after;
        let rest = comma_items(children, start + 1, end, printed, policy, o, iw);
        if whole == rest {
            assert(whole == before + seq![item] + after);
        } else {
            let head = whole[0];
            assert(whole == seq![head] + rest);
            assert(whole =~= (seq![head] + before) + seq![item] + after);
        }
    }
}

/// The policy in force for a list literal is the one that the options
/// resolve for lists, for a dictionary the one for dictionaries, and for a
/// tuple the one for tuples; but a tuple of one element has its comma under
/// every policy.
pub proof fn law_policy_in_force(children: Seq<Syntax>, in_bin: bool, o: LanguageOptions, iw: nat)
    ensures
        print_spec(Syntax::Node { kind: SyntaxKind::EXPR_LIST, children }, in_bin, o, iw)
            == comma_list(
            children,
            0,
            children.len() as int,
            ListKind::List,
            o.trailing_comma_spec(ListKind::List),
            o,
            iw,
        ),
        print_spec(Syntax::Node { kind: SyntaxKind::EXPR_DICT, children }, in_bin, o, iw)
            == comma_list(
            children,
            0,
            children.len() as int,
            ListKind::Dict,
            o.trailing_comma_spec(ListKind::Dict),
            o,
            iw,
        ),
        node_count(children, 0) == 1 ==> print_spec(
            Syntax::Node { kind: SyntaxKind::EXPR_TUPLE, children },
            in_bin,
            o,
            iw,
        ) == comma_list(
            children,
            0,
            children.len() as int,
            ListKind::Tuple,
            TrailingComma::Always,
            o,
            iw,
        ),
        node_count(children, 0) != 1 ==> print_spec(
            Syntax::Node { kind: SyntaxKind::EXPR_TUPLE, children },
            in_bin,
            o,
            iw,
        ) == comma_list(
            children,
            0,
            children.len() as int,
            ListKind::Tuple,
            o.trailing_comma_spec(ListKind::Tuple),
            o,
            iw,
        ),
{
}

/// Whether two trees are the same but for the text of their white space,
/// of which they agree on whether it holds a line break.
pub open spec fn alike(a: Syntax, b: Syntax) -> bool
    decreases a, 0nat,
{
    match a {
        Syntax::Token { kind, text } => b is Token && b.kind() == kind && if kind
            == SyntaxKind::WHITESPACE {
            has_newline(text) == has_newline(b->text)
        } else {
            text == b->text
        },
        Syntax::Node { kind, children } => b is Node && b.kind() == kind && b->children.len()
            == children.len() && all_alike(children, b->children, 0),
    }
}

/// Whether `a[i..]` and `b[i..]` are alike, child by child.
pub open spec fn all_alike(a: Seq<Syntax>, b: Seq<Syntax>, i: int) -> bool
    decreases a, a.len() - i,
{
    if 0 <= i < a.len() {
        i < b.len() && alike(a[i], b[i]) && all_alike(a, b, i + 1)
    } else {
        true
    }
}

/// Children that are alike from `i` on are alike at `j`.
pub proof fn lemma_alike_at(a: Seq<Syntax>, b: Seq<Syntax>, i: int, j: int)
    requires
        0 <= i <= j < a.len(),
        all_alike(a, b, i),
    ensures
        j < b.len(),
        alike(a[j], b[j]),
        a[j] is Node == b[j] is Node,
        is_trivia(a[j]) == is_trivia(b[j]),
        a[j] is Token && !is_trivia(a[j]) ==> a[j] == b[j],
        is_trivia(a[j]) ==> has_newline(a[j]->text) == has_newline(b[j]->text),
        forall|kind: SyntaxKind| #[trigger]
            crate::printer::is_token(a[j], kind) == crate::printer::is_token(b[j], kind),
    decreases j - i,
{
    if i < j {
        lemma_alike_at(a, b, i + 1, j);
    }
    assert(alike(a[j], b[j]));
}

/// Where the children from `i` on are well formed, so is the one at `j`.
pub proof fn lemma_well_formed_at(children: Seq<Syntax>, i: int, j: int)
    requires
        0 <= i <= j < children.len(),
        all_well_formed(children, i),
    ensures
        well_formed(children[j]),
    decreases j - i,
{
    if i < j {
        lemma_well_formed_at(children, i + 1, j);
    }
}

/// Where `find_node` answers with the index of a child, the child is a node.
pub proof fn lemma_find_node_finds(children: Seq<Syntax>, i: int)
    requires
        0 <= i,
    ensures
        find_node(children, i) < children.len() ==> children[find_node(children, i)] is Node,
    decreases children.len() - i,
{
    if i < children.len() {
        lemma_find_node_finds(children, i + 1);
    }
}

/// Where `find_token` answers with the index of a child, the child is a
/// token of the kind looked for.
pub proof fn lemma_find_token_finds(children: Seq<Syntax>, i: int, end: int, kind: SyntaxKind)
    requires
        0 <= i,
    ensures
        find_token(children, i, end, kind) < end ==> crate::printer::is_token(
            children[find_token(children, i, end, kind)],
            kind,
        ),
    decreases end - i,
{
    if i < end <= children.len() {
        lemma_find_token_finds(children, i + 1, end, kind);
    }
}

/// What the printer looks for among children is found at the same places
/// among children that are alike.
pub proof fn lemma_alike_scans(a: Seq<Syntax>, b: Seq<Syntax>, i: int, end: int, kind: SyntaxKind)
    requires
        0 <= i,
        a.len() == b.len(),
        all_alike(a, b, 0),
    ensures
        has_node(a, i, end) == has_node(b, i, end),
        node_count(a, i) == node_count(b, i),
        node_follows(a, i) == node_follows(b, i),
        find_token(a, i, end, kind) == find_token(b, i, end, kind),
        find_node(a, i) == find_node(b, i),
    decreases a.len() - i,
{
    if i < a.len() {
        lemma_alike_at(a, b, 0, i);
        lemma_alike_scans(a, b, i + 1, end, kind);
    }
}

/// The printer reads of white space only whether it holds a line break:
/// trees that are the same but for the text of their white space, and that
/// agree on where it holds a line break, have the same document.
pub proof fn law_white_space_is_a_hint(
    a: Syntax,
    b: Syntax,
    in_bin: bool,
    o: LanguageOptions,
    iw: nat,
)
    requires
        alike(a, b),
        well_formed(a),
        !is_trivia(a),
    ensures
        print_spec(a, in_bin, o, iw) == print_spec(b, in_bin, o, iw),
    decreases a, 0nat,
{
    match a {
        Syntax::Token { .. } => {},
        Syntax::Node { kind, children } => {
            let other = b->children;
            let n = children.len() as int;
            lemma_alike_scans(children, other, 0, n, SyntaxKind::L_PAREN);
            lemma_alike_scans(children, other, 0, n, SyntaxKind::IDENT);
            lemma_alike_scans(children, other, 1, n, SyntaxKind::IDENT);
            let name = find_token(children, 0, n, SyntaxKind::IDENT);
            lemma_find_token_bounds(children, 0, n, SyntaxKind::IDENT);
            lemma_alike_scans(children, other, 0, name, SyntaxKind::L_PAREN);
            lemma_alike_scans(children, other, name + 1, n, SyntaxKind::L_PAREN);
            if name < n {
                lemma_alike_at(children, other, 0, name);
                lemma_find_token_finds(children, 0, n, SyntaxKind::IDENT);
            }
            if n > 0 {
                lemma_alike_at(children, other, 0, 0);
            }
            if kind == SyntaxKind::EXPR_DICT {
                lemma_alike_comma_list(children, other, 0, n, ListKind::Dict, o.trailing_comma_spec(ListKind::Dict), o, iw);
            } else if kind == SyntaxKind::EXPR_LIST {
                lemma_alike_comma_list(children, other, 0, n, ListKind::List, o.trailing_comma_spec(ListKind::List), o, iw);
            } else if kind == SyntaxKind::EXPR_TUPLE {
                lemma_alike_comma_list(children, other, 0, n, ListKind::Tuple, TrailingComma::Always, o, iw);
                lemma_alike_comma_list(children, other, 0, n, ListKind::Tuple, o.trailing_comma_spec(ListKind::Tuple), o, iw);
            } else if kind == SyntaxKind::EXPR_CALL {
                lemma_find_token_bounds(children, 0, n, SyntaxKind::L_PAREN);
                let open = find_token(children, 0, n, SyntaxKind::L_PAREN);
                lemma_alike_comma_list(children, other, open, n, ListKind::Args, o.trailing_comma_spec(ListKind::Args), o, iw);
                if n > 0 {
                    law_white_space_is_a_hint(children[0], other[0], false, o, iw);
                }
                if n > 1 {
                    lemma_find_node_bounds(children, 1);
                    let arg = find_node(children, 1);
                    if arg < n {
                        lemma_alike_at(children, other, 0, arg);
                        lemma_well_formed_at(children, 0, arg);
                        lemma_find_node_finds(children, 1);
                        law_white_space_is_a_hint(children[arg], other[arg], false, o, iw);
                    }
                }
            } else if kind == SyntaxKind::STMT_MACRO || kind == SyntaxKind::STMT_FILTER {
                let open = find_token(children, 0, n, SyntaxKind::L_PAREN);
                lemma_alike_comma_list(children, other, open, n, ListKind::Params, o.trailing_comma_spec(ListKind::Params), o, iw);
            } else if kind == SyntaxKind::STMT_CALL {
                lemma_alike_comma_list(children, other, find_token(children, 0, name, SyntaxKind::L_PAREN), name, ListKind::Params, o.trailing_comma_spec(ListKind::Params), o, iw);
                lemma_alike_comma_list(children, other, find_token(children, name + 1, n, SyntaxKind::L_PAREN), n, ListKind::Args, o.trailing_comma_spec(ListKind::Args), o, iw);
            } else if kind == SyntaxKind::ROOT_EXPR || kind == SyntaxKind::ROOT_STMT {
                lemma_find_node_bounds(children, 0);
                let at = find_node(children, 0);
                if at < n {
                    lemma_alike_at(children, other, 0, at);
                    lemma_well_formed_at(children, 0, at);
                    lemma_find_node_finds(children, 0);
                    law_white_space_is_a_hint(children[at], other[at], false, o, iw);
                }
            } else if kind == SyntaxKind::EXPR_BIN {
                lemma_alike_pieces(children, other, 0, Style::Operator, true, o, iw);
            } else if kind == SyntaxKind::EXPR_CONCAT || kind == SyntaxKind::EXPR_FILTER {
                lemma_alike_pieces(children, other, 0, Style::Operator, false, o, iw);
            } else if kind == SyntaxKind::EXPR_TEST {
                lemma_alike_pieces(children, other, 0, Style::Test, false, o, iw);
            } else if kind == SyntaxKind::EXPR_DICT_ITEM {
                lemma_alike_pieces(children, other, 0, Style::DictItem, false, o, iw);
            } else if kind == SyntaxKind::EXPR_IF {
                lemma_alike_pieces(children, other, 0, Style::Conditional, false, o, iw);
            } else if kind == SyntaxKind::EXPR_UNARY {
                lemma_alike_pieces(children, other, 0, Style::Unary, false, o, iw);
            } else if kind == SyntaxKind::STMT_FOR {
                lemma_alike_pieces(children, other, 0, Style::Loop, false, o, iw);
            } else if kind == SyntaxKind::STMT_SET {
                lemma_alike_pieces(children, other, 0, Style::Assign, false, o, iw);
            } else if kind == SyntaxKind::STMT_WITH {
                lemma_alike_pieces(children, other, 0, Style::Scope, false, o, iw);
            } else if kind == SyntaxKind::STMT_UNKNOWN {
                lemma_alike_pieces(children, other, 0, Style::Unknown, false, o, iw);
            } else {
                lemma_alike_pieces(children, other, 0, Style::Plain, false, o, iw);
            }
        },
    }
}

/// Children that are alike have the same pieces.
proof fn lemma_alike_pieces(
    a: Seq<Syntax>,
    b: Seq<Syntax>,
    i: int,
    style: Style,
    in_bin: bool,
    o: LanguageOptions,
    iw: nat,
)
    requires
        0 <= i,
        a.len() == b.len(),
        all_alike(a, b, 0),
        all_well_formed(a, 0),
    ensures
        pieces(a, i, style, in_bin, o, iw) == pieces(b, i, style, in_bin, o, iw),
    decreases a, a.len() - i,
{
    if i < a.len() {
        lemma_alike_pieces(a, b, i + 1, style, in_bin, o, iw);
        lemma_alike_at(a, b, 0, i);
        lemma_alike_scans(a, b, i + 1, a.len() as int, SyntaxKind::IDENT);
        lemma_well_formed_at(a, 0, i);
        if a[i] is Node {
            law_white_space_is_a_hint(a[i], b[i], in_bin, o, iw);
        }
    }
}

/// Children that are alike make the same list.
proof fn lemma_alike_comma_list(
    a: Seq<Syntax>,
    b: Seq<Syntax>,
    start: int,
    end: int,
    printed: ListKind,
    policy: TrailingComma,
    o: LanguageOptions,
    iw: nat,
)
    requires
        a.len() == b.len(),
        all_alike(a, b, 0),
        all_well_formed(a, 0),
    ensures
        comma_list(a, start, end, printed, policy, o, iw) == comma_list(
            b,
            start,
            end,
            printed,
            policy,
            o,
            iw,
        ),
    decreases a, a.len() + 1,
{
    if 0 <= start <= a.len() {
        lemma_alike_comma_items(a, b, start, end, printed, policy, o, iw);
    }
}

/// Children that are alike make the same parts of a list.
proof fn lemma_alike_comma_items(
    a: Seq<Syntax>,
    b: Seq<Syntax>,
    i: int,
    end: int,
    printed: ListKind,
    policy: TrailingComma,
    o: LanguageOptions,
    iw: nat,
)
    requires
        0 <= i,
        a.len() == b.len(),
        all_alike(a, b, 0),
        all_well_formed(a, 0),
    ensures
        comma_items(a, i, end, printed, policy, o, iw) == comma_items(
            b,
            i,
            end,
            printed,
            policy,
            o,
            iw,
        ),
    decreases a, a.len() - i,
{
    if i < end <= a.len() {
        lemma_alike_comma_items(a, b, i + 1, end, printed, policy, o, iw);
        lemma_alike_at(a, b, 0, i);
        lemma_alike_scans(a, b, i + 1, end, SyntaxKind::IDENT);
        if i + 1 < a.len() {
            lemma_alike_at(a, b, 0, i + 1);
        }
        lemma_well_formed_at(a, 0, i);
        if a[i] is Node {
            law_white_space_is_a_hint(a[i], b[i], false, o, iw);
        }
    }
}

} // verus!
