//! The tree that the grammar reads is lossless: the texts of its tokens, in
//! order, are the source that it spans.

use crate::grammar::{
    access, access_rest, after_ws, args, bare_call, binary, binary_rest, bracketed, closed,
    closer, closer_kind, concat, concat_rest, conditional_tail, dict_item, end_of, expr, filter,
    filters, for_tail, fragment, head_at, infix, item, items, keyword_at, lead, named_arg, names,
    names_rest, node, ok_after, opener_kind, operand, param, paren, rest_len, root, stmt,
    stmt_call, stmt_call_rest, stmt_definition, stmt_for, stmt_set, stmt_unknown, stmt_with,
    term, test_expr, test_name, tok, tree_of, unary, unknown_rest, ws_at, ItemRule, Items, Read,
    ReadMany,
};
use crate::parser::parse_spec;
use crate::printer::{is_trivia, node_count};
use crate::scanner::{
    bool_len, char_at, lemma_run_len_bound, lit_at, number_len, operator_len, string_len,
    word_len, ws_len, CharClass,
};
use crate::syntax::{text_from, text_of, Syntax, SyntaxKind};
use vstd::prelude::*;

verus! {

/// The texts of `children`, one after another.
pub open spec fn texts(children: Seq<Syntax>) -> Seq<char> {
    text_from(children, 0)
}

/// Whether a tree is well formed: a token has text, and a node has
/// children, none of them ill formed, of which neither the first nor the
/// last is white space.
pub open spec fn well_formed(t: Syntax) -> bool
    decreases t, 0nat,
{
    match t {
        Syntax::Token { text, .. } => text.len() > 0,
        Syntax::Node { children, .. } => children.len() > 0 && !is_trivia(children[0])
            && !is_trivia(children[children.len() - 1]) && all_well_formed(children, 0),
    }
}

/// Whether each of `children[i..]` is well formed.
pub open spec fn all_well_formed(children: Seq<Syntax>, i: int) -> bool
    decreases children, children.len() - i,
{
    if 0 <= i < children.len() {
        well_formed(children[i]) && all_well_formed(children, i + 1)
    } else {
        true
    }
}

/// Whether `tree` is well formed, is no white space, and has the text
/// `s[from..pos]`.
pub open spec fn sound(tree: Syntax, s: Seq<char>, from: int, pos: int) -> bool {
    text_of(tree) == s.subrange(from, pos) && well_formed(tree) && !is_trivia(tree)
}

/// Whether `children` are well formed and have the text `s[from..pos]`.
pub open spec fn pieces_of(children: Seq<Syntax>, s: Seq<char>, from: int, pos: int) -> bool {
    texts(children) == s.subrange(from, pos) && all_well_formed(children, 0)
}

/// Whether `children` are well formed, have the text `s[from..pos]`, and
/// do not end in white space.
pub open spec fn tail_covers(children: Seq<Syntax>, s: Seq<char>, from: int, pos: int) -> bool {
    pieces_of(children, s, from, pos) && (children.len() > 0 ==> !is_trivia(
        children[children.len() - 1],
    ))
}

/// Whether `children` can be those of a node that spans `s[from..pos]`:
/// there are some, they are well formed, they have that text, and neither
/// the first nor the last is white space.
pub open spec fn covers(children: Seq<Syntax>, s: Seq<char>, from: int, pos: int) -> bool {
    tail_covers(children, s, from, pos) && children.len() > 0 && !is_trivia(children[0])
}

/// Whether what `r` read at `pos` ends inside the input, is well formed,
/// and has the text `s[pos..end]`.
pub open spec fn spans(r: Read, s: Seq<char>, pos: int) -> bool {
    match r {
        Some((tree, end)) => pos < end <= s.len() && sound(tree, s, pos, end) && tree is Node,
        None => true,
    }
}

/// Whether the children `r`, read up to its position, are well formed, have
/// the text `s[from..end]`, and do not end in white space.
pub open spec fn spans_many(r: ReadMany, s: Seq<char>, from: int, pos: int) -> bool {
    pos <= r.1 <= s.len() && tail_covers(r.0, s, from, r.1)
}

/// The text of `a[i..]` followed by `b` is the text of `a[i..]`, then that
/// of `b`.
pub proof fn lemma_text_from_add(a: Seq<Syntax>, b: Seq<Syntax>, i: int)
    requires
        0 <= i <= a.len(),
    ensures
        text_from(a + b, i) == text_from(a, i) + texts(b),
    decreases a.len() - i,
{
    if i < a.len() {
        lemma_text_from_add(a, b, i + 1);
        assert((a + b)[i] == a[i]);
        assert(text_from(a + b, i) =~= text_from(a, i) + texts(b));
    } else {
        lemma_text_from_shift(a, b, 0);
        assert(text_from(a, i) =~= Seq::<char>::empty());
        assert(text_from(a + b, i) =~= text_from(a, i) + texts(b));
    }
}

/// The text of `(a + b)[a.len() + j..]` is the text of `b[j..]`.
pub proof fn lemma_text_from_shift(a: Seq<Syntax>, b: Seq<Syntax>, j: int)
    requires
        0 <= j <= b.len(),
    ensures
        text_from(a + b, a.len() + j) == text_from(b, j),
    decreases b.len() - j,
{
    if j < b.len() {
        lemma_text_from_shift(a, b, j + 1);
        assert((a + b)[a.len() + j] == b[j]);
    }
}

/// The texts of two lists joined are the texts of each, joined.
pub proof fn lemma_texts_add(a: Seq<Syntax>, b: Seq<Syntax>)
    ensures
        texts(a + b) == texts(a) + texts(b),
{
    lemma_text_from_add(a, b, 0);
}

/// Where the trees of `b` from `j` on are well formed, so are those of
/// `a + b` from `a.len() + j` on.
pub proof fn lemma_well_formed_shift(a: Seq<Syntax>, b: Seq<Syntax>, j: int)
    requires
        0 <= j <= b.len(),
        all_well_formed(b, j),
    ensures
        all_well_formed(a + b, a.len() + j),
    decreases b.len() - j,
{
    if j < b.len() {
        lemma_well_formed_shift(a, b, j + 1);
        assert((a + b)[a.len() + j] == b[j]);
    }
}

/// Two lists of well-formed trees, joined, are a list of well-formed trees.
pub proof fn lemma_well_formed_add(a: Seq<Syntax>, b: Seq<Syntax>, i: int)
    requires
        0 <= i <= a.len(),
        all_well_formed(a, i),
        all_well_formed(b, 0),
    ensures
        all_well_formed(a + b, i),
    decreases a.len() - i,
{
    if i < a.len() {
        lemma_well_formed_add(a, b, i + 1);
        assert((a + b)[i] == a[i]);
    } else {
        lemma_well_formed_shift(a, b, 0);
    }
}

/// The text of a list of one tree is the text of the tree.
pub proof fn lemma_texts_one(tree: Syntax)
    ensures
        texts(seq![tree]) == text_of(tree),
        well_formed(tree) ==> all_well_formed(seq![tree], 0),
{
    let one = seq![tree];
    assert(text_from(one, 1) =~= Seq::<char>::empty());
    assert(text_from(one, 0) =~= text_of(one[0]) + text_from(one, 1));
    assert(texts(one) =~= text_of(tree));
    assert(all_well_formed(one, 1));
}

/// The white space at `pos` stays inside the input, and its token, if
/// any, is well formed and has its text.
pub proof fn lemma_ws(s: Seq<char>, pos: int)
    requires
        0 <= pos <= s.len(),
    ensures
        pos <= after_ws(s, pos) <= s.len(),
        pieces_of(ws_at(s, pos), s, pos, after_ws(s, pos)),
{
    lemma_run_len_bound(s, pos, CharClass::Whitespace);
    if ws_len(s, pos) > 0 {
        lemma_texts_one(tok(SyntaxKind::WHITESPACE, s, pos, after_ws(s, pos)));
    } else {
        assert(texts(ws_at(s, pos)) =~= s.subrange(pos, after_ws(s, pos)));
    }
}

/// A list of one token that is no white space can be the children of a
/// node, and the node over it is sound.
pub proof fn lemma_one_token(kind: SyntaxKind, s: Seq<char>, start: int, end: int)
    requires
        0 <= start < end <= s.len(),
        kind != SyntaxKind::WHITESPACE,
    ensures
        covers(seq![tok(kind, s, start, end)], s, start, end),
        forall|outer: SyntaxKind| #[trigger]
            sound(node(outer, seq![tok(kind, s, start, end)]), s, start, end),
{
    lemma_texts_one(tok(kind, s, start, end));
    assert forall|outer: SyntaxKind| #[trigger]
        sound(node(outer, seq![tok(kind, s, start, end)]), s, start, end) by {
        let n = node(outer, seq![tok(kind, s, start, end)]);
        assert(well_formed(n));
    }
}

/// Two lists whose texts are neighbouring pieces of the source, joined,
/// have the text of both pieces; where the second can end a node, so can
/// the whole, and where the first can also start one, the whole can be the
/// children of a node.
pub proof fn lemma_join(
    a: Seq<Syntax>,
    b: Seq<Syntax>,
    s: Seq<char>,
    from: int,
    mid: int,
    end: int,
)
    requires
        0 <= from <= mid <= end <= s.len(),
        pieces_of(a, s, from, mid),
        tail_covers(b, s, mid, end),
        b.len() > 0 || tail_covers(a, s, from, mid),
    ensures
        tail_covers(a + b, s, from, end),
        a.len() > 0 && !is_trivia(a[0]) ==> covers(a + b, s, from, end),
        forall|kind: SyntaxKind|
            a.len() > 0 && !is_trivia(a[0]) ==> #[trigger] sound(
                node(kind, a + b),
                s,
                from,
                end,
            ),
{
    lemma_texts_add(a, b);
    lemma_well_formed_add(a, b, 0);
    assert(s.subrange(from, mid) + s.subrange(mid, end) =~= s.subrange(from, end));
    if b.len() > 0 {
        assert((a + b)[(a + b).len() - 1] == b[b.len() - 1]);
    } else {
        assert(a + b =~= a);
    }
    if a.len() > 0 {
        assert((a + b)[0] == a[0]);
    }
    assert forall|kind: SyntaxKind| a.len() > 0 && !is_trivia(a[0]) implies #[trigger] sound(
        node(kind, a + b),
        s,
        from,
        end,
    ) by {
        assert(well_formed(node(kind, a + b)));
    }
}

/// Children that can start a node, white space, and children that can end
/// one, in this order and over neighbouring pieces of the source, can be
/// the children of a node.
pub proof fn lemma_join_around(
    a: Seq<Syntax>,
    c: Seq<Syntax>,
    s: Seq<char>,
    from: int,
    mid: int,
    end: int,
)
    requires
        0 <= from <= mid <= s.len(),
        after_ws(s, mid) <= end <= s.len(),
        covers(a, s, from, mid),
        covers(c, s, after_ws(s, mid), end),
    ensures
        covers(a + ws_at(s, mid) + c, s, from, end),
        forall|kind: SyntaxKind| #[trigger]
            sound(node(kind, a + ws_at(s, mid) + c), s, from, end),
{
    let blanks = ws_at(s, mid);
    lemma_ws(s, mid);
    lemma_join(blanks, c, s, mid, after_ws(s, mid), end);
    lemma_join(a, blanks + c, s, from, mid, end);
    assert(a + blanks + c =~= a + (blanks + c));
}

/// `lead` extends the children by the white space and the tree.
pub proof fn lemma_lead(
    children: Seq<Syntax>,
    s: Seq<char>,
    from: int,
    pos: int,
    tree: Syntax,
    end: int,
)
    requires
        0 <= from <= pos <= s.len(),
        pieces_of(children, s, from, pos),
        after_ws(s, pos) <= end <= s.len(),
        sound(tree, s, after_ws(s, pos), end),
    ensures
        tail_covers(lead(children, s, pos, tree), s, from, end),
        children.len() > 0 && !is_trivia(children[0]) ==> covers(
            lead(children, s, pos, tree),
            s,
            from,
            end,
        ),
        forall|kind: SyntaxKind|
            children.len() > 0 && !is_trivia(children[0]) ==> #[trigger] sound(
                node(kind, lead(children, s, pos, tree)),
                s,
                from,
                end,
            ),
{
    lemma_ws(s, pos);
    lemma_texts_one(tree);
    let blanks = ws_at(s, pos);
    lemma_texts_add(children, blanks);
    lemma_well_formed_add(children, blanks, 0);
    assert(s.subrange(from, pos) + s.subrange(pos, after_ws(s, pos)) =~= s.subrange(
        from,
        after_ws(s, pos),
    ));
    if children.len() > 0 {
        assert((children + blanks)[0] == children[0]);
    }
    lemma_join(children + blanks, seq![tree], s, from, after_ws(s, pos), end);
}

/// `closed` extends the children by the white space and the token.
pub proof fn lemma_closed(
    children: Seq<Syntax>,
    s: Seq<char>,
    from: int,
    pos: int,
    kind: SyntaxKind,
    n: nat,
)
    requires
        0 <= from <= pos <= s.len(),
        pieces_of(children, s, from, pos),
        after_ws(s, pos) + n <= s.len(),
        n > 0,
        kind != SyntaxKind::WHITESPACE,
    ensures
        tail_covers(closed(children, s, pos, kind, n), s, from, after_ws(s, pos) + n),
        children.len() > 0 && !is_trivia(children[0]) ==> covers(
            closed(children, s, pos, kind, n),
            s,
            from,
            after_ws(s, pos) + n,
        ),
        forall|outer: SyntaxKind|
            children.len() > 0 && !is_trivia(children[0]) ==> #[trigger] sound(
                node(outer, closed(children, s, pos, kind, n)),
                s,
                from,
                after_ws(s, pos) + n,
            ),
{
    lemma_ws(s, pos);
    lemma_lead(
        children,
        s,
        from,
        pos,
        tok(kind, s, after_ws(s, pos), after_ws(s, pos) + n),
        after_ws(s, pos) + n,
    );
}

/// `infix` extends the children by the token, the tree, and the white
/// space around the token.
pub proof fn lemma_infix(
    children: Seq<Syntax>,
    s: Seq<char>,
    from: int,
    pos: int,
    kind: SyntaxKind,
    n: nat,
    right: Syntax,
    end: int,
)
    requires
        0 <= from <= pos <= s.len(),
        pieces_of(children, s, from, pos),
        after_ws(s, pos) + n <= s.len(),
        n > 0,
        kind != SyntaxKind::WHITESPACE,
        after_ws(s, after_ws(s, pos) + n) <= end <= s.len(),
        sound(right, s, after_ws(s, after_ws(s, pos) + n), end),
    ensures
        tail_covers(infix(children, s, pos, kind, n, right), s, from, end),
        children.len() > 0 && !is_trivia(children[0]) ==> covers(
            infix(children, s, pos, kind, n, right),
            s,
            from,
            end,
        ),
        forall|outer: SyntaxKind|
            children.len() > 0 && !is_trivia(children[0]) ==> #[trigger] sound(
                node(outer, infix(children, s, pos, kind, n, right)),
                s,
                from,
                end,
            ),
{
    lemma_ws(s, pos);
    lemma_closed(children, s, from, pos, kind, n);
    let inner = closed(children, s, pos, kind, n);
    if children.len() > 0 {
        assert(inner[0] == children[0]);
    }
    lemma_lead(inner, s, from, after_ws(s, pos) + n, right, end);
}

/// A list of one sound tree can be the children of a node, and the node
/// over it is sound.
pub proof fn lemma_seed(tree: Syntax, s: Seq<char>, from: int, pos: int)
    requires
        sound(tree, s, from, pos),
    ensures
        covers(seq![tree], s, from, pos),
        forall|kind: SyntaxKind| #[trigger] sound(node(kind, seq![tree]), s, from, pos),
{
    lemma_texts_one(tree);
    assert forall|kind: SyntaxKind| #[trigger] sound(node(kind, seq![tree]), s, from, pos) by {
        assert(well_formed(node(kind, seq![tree])));
    }
}

/// An empty list has the empty text.
pub proof fn lemma_texts_empty(s: Seq<char>, pos: int)
    requires
        0 <= pos <= s.len(),
    ensures
        tail_covers(Seq::<Syntax>::empty(), s, pos, pos),
{
    assert(texts(Seq::<Syntax>::empty()) =~= s.subrange(pos, pos));
}

/// What `expr` reads is lossless.
pub proof fn lemma_expr(s: Seq<char>, pos: int)
    requires
        0 <= pos <= s.len(),
    ensures
        spans(expr(s, pos), s, pos),
    decreases rest_len(s, pos), 300int,
{
    if pos < s.len() {
        lemma_binary(0, s, pos);
        let first = binary(0, s, pos);
        if ok_after(first, pos) {
            lemma_conditional_tail(s, end_of(first));
            match conditional_tail(s, end_of(first)) {
                Some((children, end)) => {
                    lemma_seed(tree_of(first), s, pos, end_of(first));
                    lemma_join(seq![tree_of(first)], children, s, pos, end_of(first), end);
                },
                None => {},
            }
        }
    }
}

/// What `conditional_tail` reads is lossless.
pub proof fn lemma_conditional_tail(s: Seq<char>, pos: int)
    requires
        0 <= pos <= s.len(),
    ensures
        match conditional_tail(s, pos) {
            Some(r) => pos < r.1 && spans_many(r, s, pos, pos),
            None => true,
        },
    decreases rest_len(s, pos), 95int,
{
    if pos < s.len() {
        lemma_ws(s, pos);
        let p_if = after_ws(s, pos);
        if keyword_at(s, p_if, "if"@, 2) {
            lemma_ws(s, p_if + 2);
            let p_cond = after_ws(s, p_if + 2);
            lemma_binary(0, s, p_cond);
            let cond = binary(0, s, p_cond);
            if ok_after(cond, p_cond) {
                lemma_ws(s, end_of(cond));
                let p_else = after_ws(s, end_of(cond));
                if keyword_at(s, p_else, "else"@, 4) {
                    lemma_ws(s, p_else + 4);
                    let p_other = after_ws(s, p_else + 4);
                    lemma_expr(s, p_other);
                    let other = expr(s, p_other);
                    if ok_after(other, p_other) {
                        lemma_texts_empty(s, pos);
                        lemma_infix(
                            Seq::empty(),
                            s,
                            pos,
                            pos,
                            SyntaxKind::KEYWORD,
                            2,
                            tree_of(cond),
                            end_of(cond),
                        );
                        lemma_infix(
                            infix(Seq::empty(), s, pos, SyntaxKind::KEYWORD, 2, tree_of(cond)),
                            s,
                            pos,
                            end_of(cond),
                            SyntaxKind::KEYWORD,
                            4,
                            tree_of(other),
                            end_of(other),
                        );
                    }
                }
            }
        }
    }
}

/// What `operand` reads is lossless.
pub proof fn lemma_operand(level: nat, s: Seq<char>, pos: int)
    requires
        0 <= pos <= s.len(),
    ensures
        spans(operand(level, s, pos), s, pos),
    decreases rest_len(s, pos), 199int - 2 * level,
{
    if pos < s.len() {
        if level == 5 {
            lemma_unary(s, pos);
        } else if level < 5 {
            lemma_binary(level + 1, s, pos);
        }
    }
}

/// What `binary` reads is lossless.
pub proof fn lemma_binary(level: nat, s: Seq<char>, pos: int)
    requires
        0 <= pos <= s.len(),
    ensures
        spans(binary(level, s, pos), s, pos),
    decreases rest_len(s, pos), 200int - 2 * level,
{
    if pos < s.len() && level <= 5 {
        lemma_operand(level, s, pos);
        let first = operand(level, s, pos);
        if ok_after(first, pos) {
            lemma_binary_rest(level, s, end_of(first), tree_of(first), pos);
        }
    }
}

/// An operator stays inside the input.
pub proof fn lemma_operator_bound(level: nat, s: Seq<char>, pos: int)
    requires
        0 <= pos <= s.len(),
    ensures
        pos + operator_len(level, s, pos) <= s.len(),
{
    reveal_strlit("or");
    reveal_strlit("and");
    reveal_strlit("in");
    reveal_strlit("==");
    reveal_strlit("!=");
    reveal_strlit("**");
}

/// What `binary_rest` reads is lossless.
pub proof fn lemma_binary_rest(level: nat, s: Seq<char>, pos: int, left: Syntax, from: int)
    requires
        0 <= from <= pos <= s.len(),
        sound(left, s, from, pos),
        left is Node,
    ensures
        pos <= binary_rest(level, s, pos, left).1 <= s.len(),
        sound(
            binary_rest(level, s, pos, left).0,
            s,
            from,
            binary_rest(level, s, pos, left).1,
        ),
        binary_rest(level, s, pos, left).0 is Node,
    decreases rest_len(s, pos), 0int,
{
    if pos < s.len() {
        lemma_ws(s, pos);
        let p_op = after_ws(s, pos);
        let n = operator_len(level, s, p_op);
        lemma_operator_bound(level, s, p_op);
        if level <= 5 && n > 0 {
            lemma_ws(s, p_op + n);
            let p_right = after_ws(s, p_op + n);
            lemma_operand(level, s, p_right);
            let right = operand(level, s, p_right);
            if ok_after(right, p_right) {
                lemma_seed(left, s, from, pos);
                lemma_infix(
                    seq![left],
                    s,
                    from,
                    pos,
                    SyntaxKind::OPERATOR,
                    n,
                    tree_of(right),
                    end_of(right),
                );
                lemma_binary_rest(
                    level,
                    s,
                    end_of(right),
                    node(
                        SyntaxKind::EXPR_BIN,
                        infix(seq![left], s, pos, SyntaxKind::OPERATOR, n, tree_of(right)),
                    ),
                    from,
                );
            }
        }
    }
}

/// What `unary` reads is lossless.
pub proof fn lemma_unary(s: Seq<char>, pos: int)
    requires
        0 <= pos <= s.len(),
    ensures
        spans(unary(s, pos), s, pos),
    decreases rest_len(s, pos), 80int,
{
    if pos < s.len() {
        lemma_concat(s, pos);
        if keyword_at(s, pos, "not"@, 3) {
            lemma_ws(s, pos + 3);
            let p_inner = after_ws(s, pos + 3);
            lemma_concat(s, p_inner);
            let inner = concat(s, p_inner);
            if ok_after(inner, p_inner) {
                lemma_one_token(SyntaxKind::OPERATOR, s, pos, pos + 3);
                lemma_lead(
                    seq![tok(SyntaxKind::OPERATOR, s, pos, pos + 3)],
                    s,
                    pos,
                    pos + 3,
                    tree_of(inner),
                    end_of(inner),
                );
            }
        }
    }
}

/// What `concat` reads is lossless.
pub proof fn lemma_concat(s: Seq<char>, pos: int)
    requires
        0 <= pos <= s.len(),
    ensures
        spans(concat(s, pos), s, pos),
    decreases rest_len(s, pos), 70int,
{
    if pos < s.len() {
        lemma_test_expr(s, pos);
        let first = test_expr(s, pos);
        if ok_after(first, pos) {
            lemma_texts_empty(s, end_of(first));
            lemma_concat_rest(s, end_of(first), Seq::empty(), end_of(first));
            let rest = concat_rest(s, end_of(first), Seq::empty());
            lemma_seed(tree_of(first), s, pos, end_of(first));
            lemma_join(seq![tree_of(first)], rest.0, s, pos, end_of(first), rest.1);
        }
    }
}

/// What `concat_rest` reads is lossless.
pub proof fn lemma_concat_rest(s: Seq<char>, pos: int, acc: Seq<Syntax>, from: int)
    requires
        0 <= from <= pos <= s.len(),
        tail_covers(acc, s, from, pos),
    ensures
        spans_many(concat_rest(s, pos, acc), s, from, pos),
    decreases rest_len(s, pos), 0int,
{
    if pos < s.len() {
        lemma_ws(s, pos);
        let p_op = after_ws(s, pos);
        if char_at(s, p_op, '~') {
            lemma_ws(s, p_op + 1);
            let p_right = after_ws(s, p_op + 1);
            lemma_test_expr(s, p_right);
            let right = test_expr(s, p_right);
            if ok_after(right, p_right) {
                lemma_infix(
                    acc,
                    s,
                    from,
                    pos,
                    SyntaxKind::OPERATOR,
                    1,
                    tree_of(right),
                    end_of(right),
                );
                lemma_concat_rest(
                    s,
                    end_of(right),
                    infix(acc, s, pos, SyntaxKind::OPERATOR, 1, tree_of(right)),
                    from,
                );
            }
        }
    }
}

/// What `test_expr` reads is lossless.
pub proof fn lemma_test_expr(s: Seq<char>, pos: int)
    requires
        0 <= pos <= s.len(),
    ensures
        spans(test_expr(s, pos), s, pos),
    decreases rest_len(s, pos), 60int,
{
    if pos < s.len() {
        lemma_filter(s, pos);
        let subject = filter(s, pos);
        if ok_after(subject, pos) {
            lemma_ws(s, end_of(subject));
            let p_is = after_ws(s, end_of(subject));
            if "is"@.len() == 2 && lit_at(s, p_is, "is"@) {
                lemma_ws(s, p_is + 2);
                let p_name = after_ws(s, p_is + 2);
                lemma_test_name(s, p_name);
                let name = test_name(s, p_name);
                if ok_after(name, p_name) {
                    lemma_seed(tree_of(subject), s, pos, end_of(subject));
                    lemma_infix(
                        seq![tree_of(subject)],
                        s,
                        pos,
                        end_of(subject),
                        SyntaxKind::OPERATOR,
                        2,
                        tree_of(name),
                        end_of(name),
                    );
                }
            }
        }
    }
}

/// What `test_name` reads is lossless.
pub proof fn lemma_test_name(s: Seq<char>, pos: int)
    requires
        0 <= pos <= s.len(),
    ensures
        spans(test_name(s, pos), s, pos),
    decreases rest_len(s, pos), 55int,
{
    if pos < s.len() {
        lemma_bare_call(s, pos);
        lemma_access(s, pos);
    }
}

/// What `bare_call` reads is lossless.
pub proof fn lemma_bare_call(s: Seq<char>, pos: int)
    requires
        0 <= pos <= s.len(),
    ensures
        spans(bare_call(s, pos), s, pos),
    decreases rest_len(s, pos), 52int,
{
    if pos < s.len() {
        lemma_term(s, pos);
        let callee = term(s, pos);
        if ok_after(callee, pos) {
            lemma_ws(s, end_of(callee));
            let p_arg = after_ws(s, end_of(callee));
            if p_arg > end_of(callee) && p_arg < s.len() {
                lemma_access(s, p_arg);
                let arg = access(s, p_arg);
                if ok_after(arg, p_arg) {
                    lemma_seed(tree_of(callee), s, pos, end_of(callee));
                    lemma_seed(tree_of(arg), s, p_arg, end_of(arg));
                    lemma_lead(
                        seq![tree_of(callee)],
                        s,
                        pos,
                        end_of(callee),
                        node(SyntaxKind::ARG, seq![tree_of(arg)]),
                        end_of(arg),
                    );
                }
            }
        }
    }
}

/// What `filter` reads is lossless.
pub proof fn lemma_filter(s: Seq<char>, pos: int)
    requires
        0 <= pos <= s.len(),
    ensures
        spans(filter(s, pos), s, pos),
    decreases rest_len(s, pos), 50int,
{
    if pos < s.len() {
        lemma_access(s, pos);
        let base = access(s, pos);
        if ok_after(base, pos) {
            lemma_texts_empty(s, end_of(base));
            lemma_filters(s, end_of(base), Seq::empty(), end_of(base));
            let rest = filters(s, end_of(base), Seq::empty());
            lemma_seed(tree_of(base), s, pos, end_of(base));
            lemma_join(seq![tree_of(base)], rest.0, s, pos, end_of(base), rest.1);
        }
    }
}

/// An identifier stays inside the input.
pub proof fn lemma_word_bound(s: Seq<char>, pos: int)
    requires
        0 <= pos <= s.len(),
    ensures
        pos + word_len(s, pos) <= s.len(),
{
    if pos < s.len() {
        lemma_run_len_bound(s, pos + 1, CharClass::Ident);
    }
}

/// What `filters` reads is lossless.
pub proof fn lemma_filters(s: Seq<char>, pos: int, acc: Seq<Syntax>, from: int)
    requires
        0 <= from <= pos <= s.len(),
        tail_covers(acc, s, from, pos),
    ensures
        spans_many(filters(s, pos, acc), s, from, pos),
        covers(acc, s, from, pos) ==> covers(
            filters(s, pos, acc).0,
            s,
            from,
            filters(s, pos, acc).1,
        ),
    decreases rest_len(s, pos), 0int,
{
    if pos < s.len() {
        lemma_ws(s, pos);
        let p_op = after_ws(s, pos);
        if char_at(s, p_op, '|') {
            lemma_ws(s, p_op + 1);
            let p_name = after_ws(s, p_op + 1);
            let n = word_len(s, p_name);
            lemma_word_bound(s, p_name);
            if n > 0 {
                let name = tok(SyntaxKind::IDENT, s, p_name, p_name + n);
                lemma_one_token(SyntaxKind::IDENT, s, p_name, p_name + n);
                lemma_args(s, p_name + n);
                match args(s, p_name + n) {
                    Some((children, end)) => {
                        if end > p_name + n {
                            let callee = node(SyntaxKind::EXPR_IDENT, seq![name]);
                            lemma_seed(callee, s, p_name, p_name + n);
                            lemma_join(seq![callee], children, s, p_name, p_name + n, end);
                            let call = node(SyntaxKind::EXPR_CALL, seq![callee] + children);
                            lemma_infix(acc, s, from, pos, SyntaxKind::OPERATOR, 1, call, end);
                            lemma_filters(
                                s,
                                end,
                                infix(acc, s, pos, SyntaxKind::OPERATOR, 1, call),
                                from,
                            );
                        }
                    },
                    None => {
                        let plain = node(SyntaxKind::EXPR_IDENT, seq![name]);
                        lemma_infix(
                            acc,
                            s,
                            from,
                            pos,
                            SyntaxKind::OPERATOR,
                            1,
                            plain,
                            p_name + n,
                        );
                        lemma_filters(
                            s,
                            p_name + n,
                            infix(acc, s, pos, SyntaxKind::OPERATOR, 1, plain),
                            from,
                        );
                    },
                }
            }
        }
    }
}

/// What `access` reads is lossless.
pub proof fn lemma_access(s: Seq<char>, pos: int)
    requires
        0 <= pos <= s.len(),
    ensures
        spans(access(s, pos), s, pos),
    decreases rest_len(s, pos), 40int,
{
    if pos < s.len() {
        lemma_term(s, pos);
        let base = term(s, pos);
        if ok_after(base, pos) {
            lemma_access_rest(s, end_of(base), tree_of(base), pos);
        }
    }
}

/// What `access_rest` reads is lossless.
pub proof fn lemma_access_rest(s: Seq<char>, pos: int, base: Syntax, from: int)
    requires
        0 <= from <= pos <= s.len(),
        sound(base, s, from, pos),
        base is Node,
    ensures
        pos <= access_rest(s, pos, base).1 <= s.len(),
        sound(access_rest(s, pos, base).0, s, from, access_rest(s, pos, base).1),
        access_rest(s, pos, base).0 is Node,
    decreases rest_len(s, pos), 15int,
{
    if pos < s.len() {
        lemma_ws(s, pos);
        lemma_seed(base, s, from, pos);
        let p_op = after_ws(s, pos);
        if char_at(s, p_op, '.') {
            lemma_ws(s, p_op + 1);
            let p_name = after_ws(s, p_op + 1);
            lemma_term(s, p_name);
            let name = term(s, p_name);
            if ok_after(name, p_name) {
                lemma_infix(
                    seq![base],
                    s,
                    from,
                    pos,
                    SyntaxKind::DOT,
                    1,
                    tree_of(name),
                    end_of(name),
                );
                lemma_access_rest(
                    s,
                    end_of(name),
                    node(
                        SyntaxKind::EXPR_GET_ATTR,
                        infix(seq![base], s, pos, SyntaxKind::DOT, 1, tree_of(name)),
                    ),
                    from,
                );
            }
        } else if char_at(s, p_op, '[') {
            lemma_ws(s, p_op + 1);
            let p_index = after_ws(s, p_op + 1);
            lemma_expr(s, p_index);
            let index = expr(s, p_index);
            if ok_after(index, p_index) {
                lemma_ws(s, end_of(index));
                let p_close = after_ws(s, end_of(index));
                if char_at(s, p_close, ']') {
                    let inner = infix(
                        seq![base],
                        s,
                        pos,
                        SyntaxKind::L_BRACKET,
                        1,
                        tree_of(index),
                    );
                    lemma_infix(
                        seq![base],
                        s,
                        from,
                        pos,
                        SyntaxKind::L_BRACKET,
                        1,
                        tree_of(index),
                        end_of(index),
                    );
                    lemma_closed(inner, s, from, end_of(index), SyntaxKind::R_BRACKET, 1);
                    lemma_access_rest(
                        s,
                        p_close + 1,
                        node(
                            SyntaxKind::EXPR_GET_ITEM,
                            closed(inner, s, end_of(index), SyntaxKind::R_BRACKET, 1),
                        ),
                        from,
                    );
                }
            }
        } else {
            lemma_args(s, pos);
            match args(s, pos) {
                Some((children, end)) => {
                    if end > pos {
                        lemma_join(seq![base], children, s, from, pos, end);
                        lemma_access_rest(
                            s,
                            end,
                            node(SyntaxKind::EXPR_CALL, seq![base] + children),
                            from,
                        );
                    }
                },
                None => {},
            }
        }
    }
}

/// What `args` reads is lossless.
pub proof fn lemma_args(s: Seq<char>, pos: int)
    requires
        0 <= pos <= s.len(),
    ensures
        match args(s, pos) {
            Some(r) => pos < r.1 && spans_many(r, s, pos, pos),
            None => true,
        },
    decreases rest_len(s, pos), 10int,
{
    if pos < s.len() {
        lemma_ws(s, pos);
        let p_open = after_ws(s, pos);
        lemma_bracketed(ItemRule::Arg, s, p_open);
        match bracketed(ItemRule::Arg, s, p_open) {
            Some(list) => {
                lemma_join(ws_at(s, pos), list.children, s, pos, p_open, list.end);
            },
            None => {},
        }
    }
}

/// What `bracketed` reads is lossless.
pub proof fn lemma_bracketed(rule: ItemRule, s: Seq<char>, pos: int)
    requires
        0 <= pos <= s.len(),
    ensures
        match bracketed(rule, s, pos) {
            Some(list) => pos < list.end <= s.len() && covers(list.children, s, pos, list.end),
            None => true,
        },
    decreases rest_len(s, pos), 8int,
{
    if pos < s.len() && char_at(s, pos, crate::grammar::opener(rule)) {
        let seed = Items {
            children: seq![tok(opener_kind(rule), s, pos, pos + 1)],
            end: pos + 1,
            any_item: false,
            any_comma: false,
        };
        lemma_one_token(opener_kind(rule), s, pos, pos + 1);
        lemma_items(rule, s, pos + 1, seed, pos);
        let read = items(rule, s, pos + 1, seed);
        lemma_ws(s, read.end);
        let p_close = after_ws(s, read.end);
        if char_at(s, p_close, closer(rule)) {
            lemma_closed(read.children, s, pos, read.end, closer_kind(rule), 1);
        }
    }
}

/// What `items` reads is lossless.
pub proof fn lemma_items(rule: ItemRule, s: Seq<char>, pos: int, acc: Items, from: int)
    requires
        0 <= from <= pos <= s.len(),
        tail_covers(acc.children, s, from, pos),
    ensures
        pos <= items(rule, s, pos, acc).end <= s.len(),
        tail_covers(items(rule, s, pos, acc).children, s, from, items(rule, s, pos, acc).end),
        covers(acc.children, s, from, pos) ==> covers(
            items(rule, s, pos, acc).children,
            s,
            from,
            items(rule, s, pos, acc).end,
        ),
    decreases rest_len(s, pos), 330int,
{
    if pos < s.len() {
        lemma_ws(s, pos);
        let p_item = after_ws(s, pos);
        lemma_item(rule, s, p_item);
        let it = item(rule, s, p_item);
        if ok_after(it, p_item) {
            lemma_ws(s, end_of(it));
            let p_sep = after_ws(s, end_of(it));
            lemma_lead(acc.children, s, from, pos, tree_of(it), end_of(it));
            if char_at(s, p_sep, ',') {
                let more = closed(
                    lead(acc.children, s, pos, tree_of(it)),
                    s,
                    end_of(it),
                    SyntaxKind::COMMA,
                    1,
                );
                lemma_closed(
                    lead(acc.children, s, pos, tree_of(it)),
                    s,
                    from,
                    end_of(it),
                    SyntaxKind::COMMA,
                    1,
                );
                lemma_items(
                    rule,
                    s,
                    p_sep + 1,
                    Items { children: more, end: p_sep + 1, any_item: true, any_comma: true },
                    from,
                );
            }
        }
    }
}

/// What `item` reads is lossless.
pub proof fn lemma_item(rule: ItemRule, s: Seq<char>, pos: int)
    requires
        0 <= pos <= s.len(),
    ensures
        spans(item(rule, s, pos), s, pos),
    decreases rest_len(s, pos), 320int,
{
    if pos < s.len() {
        match rule {
            ItemRule::ListItem | ItemRule::TupleItem => {
                lemma_expr(s, pos);
            },
            ItemRule::DictItem => {
                lemma_dict_item(s, pos);
            },
            ItemRule::Arg => {
                lemma_named_arg(s, pos);
                lemma_expr(s, pos);
                let value = expr(s, pos);
                if ok_after(value, pos) {
                    lemma_seed(tree_of(value), s, pos, end_of(value));
                }
            },
            ItemRule::Param => {
                lemma_param(s, pos);
            },
            ItemRule::Name => {
                lemma_word_bound(s, pos);
                let n = word_len(s, pos);
                if n > 0 {
                    lemma_one_token(SyntaxKind::IDENT, s, pos, pos + n);
                }
            },
        }
    }
}

/// What `dict_item` reads is lossless.
pub proof fn lemma_dict_item(s: Seq<char>, pos: int)
    requires
        0 <= pos <= s.len(),
    ensures
        spans(dict_item(s, pos), s, pos),
    decreases rest_len(s, pos), 310int,
{
    if pos < s.len() {
        lemma_expr(s, pos);
        let key = expr(s, pos);
        if ok_after(key, pos) {
            lemma_ws(s, end_of(key));
            let p_colon = after_ws(s, end_of(key));
            if char_at(s, p_colon, ':') {
                lemma_ws(s, p_colon + 1);
                let p_value = after_ws(s, p_colon + 1);
                lemma_expr(s, p_value);
                let value = expr(s, p_value);
                if ok_after(value, p_value) {
                    lemma_seed(tree_of(key), s, pos, end_of(key));
                    lemma_infix(
                        seq![tree_of(key)],
                        s,
                        pos,
                        end_of(key),
                        SyntaxKind::COLON,
                        1,
                        tree_of(value),
                        end_of(value),
                    );
                }
            }
        }
    }
}

/// What `named_arg` reads is lossless.
pub proof fn lemma_named_arg(s: Seq<char>, pos: int)
    requires
        0 <= pos <= s.len(),
    ensures
        spans(named_arg(s, pos), s, pos),
    decreases rest_len(s, pos), 310int,
{
    if pos < s.len() {
        let n = word_len(s, pos);
        lemma_word_bound(s, pos);
        lemma_ws(s, pos + n);
        let p_eq = after_ws(s, pos + n);
        if n > 0 && char_at(s, p_eq, '=') {
            lemma_ws(s, p_eq + 1);
            let p_value = after_ws(s, p_eq + 1);
            lemma_expr(s, p_value);
            let value = expr(s, p_value);
            if ok_after(value, p_value) {
                lemma_one_token(SyntaxKind::IDENT, s, pos, pos + n);
                lemma_infix(
                    seq![tok(SyntaxKind::IDENT, s, pos, pos + n)],
                    s,
                    pos,
                    pos + n,
                    SyntaxKind::EQ,
                    1,
                    tree_of(value),
                    end_of(value),
                );
            }
        }
    }
}

/// What `param` reads is lossless.
pub proof fn lemma_param(s: Seq<char>, pos: int)
    requires
        0 <= pos <= s.len(),
    ensures
        spans(param(s, pos), s, pos),
    decreases rest_len(s, pos), 310int,
{
    if pos < s.len() {
        let n = word_len(s, pos);
        lemma_word_bound(s, pos);
        lemma_ws(s, pos + n);
        let p_eq = after_ws(s, pos + n);
        if n > 0 {
            lemma_one_token(SyntaxKind::IDENT, s, pos, pos + n);
            if char_at(s, p_eq, '=') {
                lemma_ws(s, p_eq + 1);
                let p_value = after_ws(s, p_eq + 1);
                lemma_expr(s, p_value);
                let value = expr(s, p_value);
                if ok_after(value, p_value) {
                    lemma_infix(
                        seq![tok(SyntaxKind::IDENT, s, pos, pos + n)],
                        s,
                        pos,
                        pos + n,
                        SyntaxKind::EQ,
                        1,
                        tree_of(value),
                        end_of(value),
                    );
                }
            }
        }
    }
}

/// A literal stays inside the input.
pub proof fn lemma_literal_bounds(s: Seq<char>, pos: int)
    requires
        0 <= pos <= s.len(),
    ensures
        pos + bool_len(s, pos) <= s.len(),
        pos + number_len(s, pos) <= s.len(),
        pos + string_len(s, pos) <= s.len(),
{
    reveal_strlit("true");
    reveal_strlit("false");
    reveal_strlit("\r\n");
    lemma_number_bound(s, pos);
    lemma_string_bound(s, pos);
}

/// A run of digits stays inside the input.
pub proof fn lemma_dec_bound(s: Seq<char>, pos: int)
    requires
        0 <= pos <= s.len(),
    ensures
        pos + crate::scanner::dec_len(s, pos) <= s.len(),
{
    if pos < s.len() {
        lemma_run_len_bound(s, pos + 1, CharClass::Digit);
    }
}

/// A number stays inside the input.
pub proof fn lemma_number_bound(s: Seq<char>, pos: int)
    requires
        0 <= pos <= s.len(),
    ensures
        pos + number_len(s, pos) <= s.len(),
{
    let sign = crate::scanner::sign_len(s, pos);
    lemma_dec_bound(s, pos + sign);
    let digits = crate::scanner::dec_len(s, pos + sign);
    let p2 = pos + sign + digits;
    if p2 < s.len() {
        lemma_dec_bound(s, p2 + 1);
    }
    let fraction = crate::scanner::fraction_len(s, p2);
    let p3 = p2 + fraction;
    if p3 < s.len() {
        let sign2 = crate::scanner::sign_len(s, p3 + 1);
        lemma_dec_bound(s, p3 + 1 + sign2);
    }
}

/// The body of a string ends inside the input.
pub proof fn lemma_string_body_bound(s: Seq<char>, pos: int, quote: char)
    requires
        0 <= pos <= s.len(),
    ensures
        crate::scanner::string_body_end(s, pos, quote) <= s.len(),
    decreases s.len() - pos,
{
    if pos < s.len() {
        if s[pos] == '\\' {
            if pos + 1 < s.len() {
                lemma_string_body_bound(s, pos + 2, quote);
            }
        } else if s[pos] == quote || s[pos] == '\n' || s[pos] == '\r' {
        } else {
            lemma_string_body_bound(s, pos + 1, quote);
        }
    }
}

/// A string stays inside the input.
pub proof fn lemma_string_bound(s: Seq<char>, pos: int)
    requires
        0 <= pos <= s.len(),
    ensures
        pos + string_len(s, pos) <= s.len(),
{
    if pos < s.len() {
        lemma_string_body_bound(s, pos + 1, s[pos]);
    }
}

/// What `term` reads is lossless.
pub proof fn lemma_term(s: Seq<char>, pos: int)
    requires
        0 <= pos <= s.len(),
    ensures
        spans(term(s, pos), s, pos),
    decreases rest_len(s, pos), 30int,
{
    if pos < s.len() {
        lemma_literal_bounds(s, pos);
        lemma_word_bound(s, pos);
        if bool_len(s, pos) > 0 {
            lemma_one_token(SyntaxKind::BOOL, s, pos, pos + bool_len(s, pos));
        } else if number_len(s, pos) > 0 {
            lemma_one_token(SyntaxKind::NUMBER, s, pos, pos + number_len(s, pos));
        } else if string_len(s, pos) > 0 {
            lemma_one_token(SyntaxKind::STRING, s, pos, pos + string_len(s, pos));
        } else if word_len(s, pos) > 0 {
            lemma_one_token(SyntaxKind::IDENT, s, pos, pos + word_len(s, pos));
        } else if char_at(s, pos, '(') {
            lemma_paren(s, pos);
            lemma_bracketed(ItemRule::TupleItem, s, pos);
        } else if char_at(s, pos, '[') {
            lemma_bracketed(ItemRule::ListItem, s, pos);
        } else if char_at(s, pos, '{') {
            lemma_bracketed(ItemRule::DictItem, s, pos);
        }
    }
}

/// What `paren` reads is lossless.
pub proof fn lemma_paren(s: Seq<char>, pos: int)
    requires
        0 <= pos <= s.len(),
    ensures
        spans(paren(s, pos), s, pos),
    decreases rest_len(s, pos), 20int,
{
    if pos < s.len() && char_at(s, pos, '(') {
        lemma_ws(s, pos + 1);
        let p_inner = after_ws(s, pos + 1);
        lemma_expr(s, p_inner);
        let inner = expr(s, p_inner);
        if ok_after(inner, p_inner) {
            lemma_ws(s, end_of(inner));
            let p_close = after_ws(s, end_of(inner));
            if char_at(s, p_close, ')') {
                let open = seq![tok(SyntaxKind::L_PAREN, s, pos, pos + 1)];
                lemma_one_token(SyntaxKind::L_PAREN, s, pos, pos + 1);
                lemma_lead(open, s, pos, pos + 1, tree_of(inner), end_of(inner));
                lemma_closed(
                    lead(open, s, pos + 1, tree_of(inner)),
                    s,
                    pos,
                    end_of(inner),
                    SyntaxKind::R_PAREN,
                    1,
                );
            }
        }
    }
}

/// What `names_rest` reads is lossless.
pub proof fn lemma_names_rest(s: Seq<char>, pos: int, acc: Seq<Syntax>, from: int)
    requires
        0 <= from <= pos <= s.len(),
        tail_covers(acc, s, from, pos),
    ensures
        spans_many(names_rest(s, pos, acc), s, from, pos),
        covers(acc, s, from, pos) ==> covers(
            names_rest(s, pos, acc).0,
            s,
            from,
            names_rest(s, pos, acc).1,
        ),
    decreases rest_len(s, pos),
{
    if pos < s.len() {
        lemma_ws(s, pos);
        let p_comma = after_ws(s, pos);
        if char_at(s, p_comma, ',') {
            lemma_ws(s, p_comma + 1);
            let p_name = after_ws(s, p_comma + 1);
            lemma_word_bound(s, p_name);
            let n = word_len(s, p_name);
            if n > 0 {
                let with_comma = closed(acc, s, pos, SyntaxKind::COMMA, 1);
                lemma_closed(acc, s, from, pos, SyntaxKind::COMMA, 1);
                lemma_closed(with_comma, s, from, p_comma + 1, SyntaxKind::IDENT, n);
                lemma_names_rest(
                    s,
                    p_name + n,
                    closed(with_comma, s, p_comma + 1, SyntaxKind::IDENT, n),
                    from,
                );
            }
        }
    }
}

/// What `names` reads is lossless.
pub proof fn lemma_names(s: Seq<char>, pos: int, acc: Seq<Syntax>, from: int)
    requires
        0 <= from <= pos <= s.len(),
        tail_covers(acc, s, from, pos),
    ensures
        match names(s, pos, acc) {
            Some(r) => pos < r.1 && spans_many(r, s, from, pos) && (covers(acc, s, from, pos)
                ==> covers(r.0, s, from, r.1)),
            None => true,
        },
{
    lemma_ws(s, pos);
    let p_name = after_ws(s, pos);
    lemma_word_bound(s, p_name);
    let n = word_len(s, p_name);
    if n > 0 {
        lemma_closed(acc, s, from, pos, SyntaxKind::IDENT, n);
        lemma_names_rest(s, p_name + n, closed(acc, s, pos, SyntaxKind::IDENT, n), from);
    }
}

/// What `for_tail` reads is lossless.
pub proof fn lemma_for_tail(s: Seq<char>, pos: int)
    requires
        0 <= pos <= s.len(),
    ensures
        spans_many(for_tail(s, pos), s, pos, pos),
{
    lemma_ws(s, pos);
    lemma_texts_empty(s, pos);
    let p_word = after_ws(s, pos);
    if p_word > pos {
        if head_at(s, p_word, "if"@, 2) {
            lemma_ws(s, p_word + 2);
            let p_cond = after_ws(s, p_word + 2);
            lemma_expr(s, p_cond);
            let cond = expr(s, p_cond);
            if ok_after(cond, p_cond) {
                lemma_infix(
                    Seq::empty(),
                    s,
                    pos,
                    pos,
                    SyntaxKind::KEYWORD,
                    2,
                    tree_of(cond),
                    end_of(cond),
                );
            }
        }
        lemma_word_bound(s, p_word);
        if word_len(s, p_word) == 9 {
            lemma_closed(Seq::empty(), s, pos, pos, SyntaxKind::KEYWORD, 9);
        }
    }
}

/// What `stmt_for` reads is lossless.
pub proof fn lemma_stmt_for(s: Seq<char>, pos: int)
    requires
        0 <= pos <= s.len(),
    ensures
        spans(stmt_for(s, pos), s, pos),
{
    if head_at(s, pos, "for"@, 3) {
        let seed = seq![tok(SyntaxKind::KEYWORD, s, pos, pos + 3)];
        lemma_one_token(SyntaxKind::KEYWORD, s, pos, pos + 3);
        lemma_names(s, pos + 3, seed, pos);
        match names(s, pos + 3, seed) {
            Some((bound, p_bound)) => {
                lemma_ws(s, p_bound);
                let p_in = after_ws(s, p_bound);
                if p_in > p_bound && head_at(s, p_in, "in"@, 2) {
                    lemma_ws(s, p_in + 2);
                    let p_iter = after_ws(s, p_in + 2);
                    lemma_expr(s, p_iter);
                    let iter = expr(s, p_iter);
                    if ok_after(iter, p_iter) {
                        lemma_infix(
                            bound,
                            s,
                            pos,
                            p_bound,
                            SyntaxKind::KEYWORD,
                            2,
                            tree_of(iter),
                            end_of(iter),
                        );
                        lemma_for_tail(s, end_of(iter));
                        let tail = for_tail(s, end_of(iter));
                        lemma_join(
                            infix(bound, s, p_bound, SyntaxKind::KEYWORD, 2, tree_of(iter)),
                            tail.0,
                            s,
                            pos,
                            end_of(iter),
                            tail.1,
                        );
                    }
                }
            },
            None => {},
        }
    }
}

/// What `stmt_definition` reads is lossless.
pub proof fn lemma_stmt_definition(
    s: Seq<char>,
    pos: int,
    lit: Seq<char>,
    n: nat,
    kind: SyntaxKind,
)
    requires
        0 <= pos <= s.len(),
        n > 0,
    ensures
        spans(stmt_definition(s, pos, lit, n, kind), s, pos),
{
    if head_at(s, pos, lit, n) {
        lemma_ws(s, pos + n);
        let p_name = after_ws(s, pos + n);
        lemma_word_bound(s, p_name);
        let name_len = word_len(s, p_name);
        if name_len > 0 {
            lemma_ws(s, p_name + name_len);
            let p_open = after_ws(s, p_name + name_len);
            lemma_bracketed(ItemRule::Param, s, p_open);
            match bracketed(ItemRule::Param, s, p_open) {
                Some(list) => {
                    let seed = seq![tok(SyntaxKind::KEYWORD, s, pos, pos + n)];
                    lemma_one_token(SyntaxKind::KEYWORD, s, pos, pos + n);
                    let named = closed(seed, s, pos + n, SyntaxKind::IDENT, name_len);
                    lemma_closed(seed, s, pos, pos + n, SyntaxKind::IDENT, name_len);
                    lemma_join_around(named, list.children, s, pos, p_name + name_len, list.end);
                },
                None => {},
            }
        }
    }
}

/// What `stmt_call_rest` reads is lossless.
pub proof fn lemma_stmt_call_rest(s: Seq<char>, pos: int, acc: Seq<Syntax>, from: int)
    requires
        0 <= from <= pos <= s.len(),
        tail_covers(acc, s, from, pos),
    ensures
        match stmt_call_rest(s, pos, acc) {
            Some((tree, end)) => pos < end <= s.len() && tree is Node && (covers(acc, s, from, pos)
                ==> sound(tree, s, from, end)),
            None => true,
        },
{
    lemma_ws(s, pos);
    let p_name = after_ws(s, pos);
    lemma_word_bound(s, p_name);
    let n = word_len(s, p_name);
    if n > 0 {
        lemma_args(s, p_name + n);
        match args(s, p_name + n) {
            Some((children, end)) => {
                lemma_closed(acc, s, from, pos, SyntaxKind::IDENT, n);
                lemma_join(
                    closed(acc, s, pos, SyntaxKind::IDENT, n),
                    children,
                    s,
                    from,
                    p_name + n,
                    end,
                );
            },
            None => {},
        }
    }
}

/// What `stmt_call` reads is lossless.
pub proof fn lemma_stmt_call(s: Seq<char>, pos: int)
    requires
        0 <= pos <= s.len(),
    ensures
        spans(stmt_call(s, pos), s, pos),
{
    if "call"@.len() == 4 && lit_at(s, pos, "call"@) {
        let keyword = seq![tok(SyntaxKind::KEYWORD, s, pos, pos + 4)];
        lemma_one_token(SyntaxKind::KEYWORD, s, pos, pos + 4);
        lemma_ws(s, pos + 4);
        let p_open = after_ws(s, pos + 4);
        if char_at(s, p_open, '(') {
            lemma_bracketed(ItemRule::Name, s, p_open);
            match bracketed(ItemRule::Name, s, p_open) {
                Some(list) => {
                    lemma_join_around(keyword, list.children, s, pos, pos + 4, list.end);
                    lemma_stmt_call_rest(
                        s,
                        list.end,
                        keyword + ws_at(s, pos + 4) + list.children,
                        pos,
                    );
                },
                None => {},
            }
        } else if p_open > pos + 4 {
            lemma_stmt_call_rest(s, pos + 4, keyword, pos);
        }
    }
}

/// What `stmt_set` reads is lossless.
pub proof fn lemma_stmt_set(s: Seq<char>, pos: int)
    requires
        0 <= pos <= s.len(),
    ensures
        spans(stmt_set(s, pos), s, pos),
{
    if head_at(s, pos, "set"@, 3) {
        let seed = seq![tok(SyntaxKind::KEYWORD, s, pos, pos + 3)];
        lemma_one_token(SyntaxKind::KEYWORD, s, pos, pos + 3);
        lemma_names(s, pos + 3, seed, pos);
        match names(s, pos + 3, seed) {
            Some((targets, p_targets)) => {
                lemma_ws(s, p_targets);
                let p_eq = after_ws(s, p_targets);
                lemma_filters(s, p_targets, targets, pos);
                if char_at(s, p_eq, '=') {
                    lemma_ws(s, p_eq + 1);
                    let p_value = after_ws(s, p_eq + 1);
                    lemma_expr(s, p_value);
                    let value = expr(s, p_value);
                    if ok_after(value, p_value) {
                        lemma_infix(
                            targets,
                            s,
                            pos,
                            p_targets,
                            SyntaxKind::EQ,
                            1,
                            tree_of(value),
                            end_of(value),
                        );
                    }
                }
            },
            None => {},
        }
    }
}

/// What `stmt_with` reads is lossless.
pub proof fn lemma_stmt_with(s: Seq<char>, pos: int)
    requires
        0 <= pos <= s.len(),
    ensures
        spans(stmt_with(s, pos), s, pos),
{
    if head_at(s, pos, "with"@, 4) {
        let seed = seq![tok(SyntaxKind::KEYWORD, s, pos, pos + 4)];
        lemma_one_token(SyntaxKind::KEYWORD, s, pos, pos + 4);
        lemma_names(s, pos + 4, seed, pos);
        match names(s, pos + 4, seed) {
            Some((targets, p_targets)) => {
                lemma_ws(s, p_targets);
                let p_eq = after_ws(s, p_targets);
                if char_at(s, p_eq, '=') {
                    lemma_ws(s, p_eq + 1);
                    let p_value = after_ws(s, p_eq + 1);
                    lemma_expr(s, p_value);
                    let value = expr(s, p_value);
                    if ok_after(value, p_value) {
                        lemma_infix(
                            targets,
                            s,
                            pos,
                            p_targets,
                            SyntaxKind::EQ,
                            1,
                            tree_of(value),
                            end_of(value),
                        );
                    }
                }
            },
            None => {},
        }
    }
}

/// What `unknown_rest` reads is lossless.
pub proof fn lemma_unknown_rest(
    s: Seq<char>,
    pos: int,
    acc: Seq<Syntax>,
    after_comma: bool,
    from: int,
)
    requires
        0 <= from <= pos <= s.len(),
        tail_covers(acc, s, from, pos),
    ensures
        spans_many(unknown_rest(s, pos, acc, after_comma), s, from, pos),
        covers(acc, s, from, pos) ==> covers(
            unknown_rest(s, pos, acc, after_comma).0,
            s,
            from,
            unknown_rest(s, pos, acc, after_comma).1,
        ),
    decreases rest_len(s, pos),
{
    if pos < s.len() {
        lemma_ws(s, pos);
        let p_item = after_ws(s, pos);
        lemma_expr(s, p_item);
        let it = expr(s, p_item);
        if (after_comma || p_item > pos) && ok_after(it, p_item) {
            lemma_ws(s, end_of(it));
            lemma_lead(acc, s, from, pos, tree_of(it), end_of(it));
            if char_at(s, after_ws(s, end_of(it)), ',') {
                lemma_closed(
                    lead(acc, s, pos, tree_of(it)),
                    s,
                    from,
                    end_of(it),
                    SyntaxKind::COMMA,
                    1,
                );
                lemma_unknown_rest(
                    s,
                    after_ws(s, end_of(it)) + 1,
                    closed(lead(acc, s, pos, tree_of(it)), s, end_of(it), SyntaxKind::COMMA, 1),
                    true,
                    from,
                );
            } else {
                lemma_unknown_rest(s, end_of(it), lead(acc, s, pos, tree_of(it)), false, from);
            }
        }
    }
}

/// What `stmt_unknown` reads is lossless.
pub proof fn lemma_stmt_unknown(s: Seq<char>, pos: int)
    requires
        0 <= pos <= s.len(),
    ensures
        spans(stmt_unknown(s, pos), s, pos),
{
    lemma_word_bound(s, pos);
    let n = word_len(s, pos);
    if n > 0 {
        lemma_one_token(SyntaxKind::KEYWORD, s, pos, pos + n);
        lemma_unknown_rest(
            s,
            pos + n,
            seq![tok(SyntaxKind::KEYWORD, s, pos, pos + n)],
            false,
            pos,
        );
    }
}

/// What `stmt` reads is lossless.
pub proof fn lemma_stmt(s: Seq<char>, pos: int)
    requires
        0 <= pos <= s.len(),
    ensures
        spans(stmt(s, pos), s, pos),
{
    lemma_stmt_for(s, pos);
    lemma_stmt_definition(s, pos, "macro"@, 5, SyntaxKind::STMT_MACRO);
    lemma_stmt_call(s, pos);
    lemma_stmt_set(s, pos);
    lemma_stmt_definition(s, pos, "filter"@, 6, SyntaxKind::STMT_FILTER);
    lemma_stmt_with(s, pos);
    lemma_stmt_unknown(s, pos);
}

/// Every tree that a rule of the grammar reads is lossless and well
/// formed: it ends inside the input, after where it starts; the texts of
/// its tokens, in order, are the source between the two; and each of its
/// nodes has children, of which neither the first nor the last is white
/// space.
pub proof fn law_rules_lossless(s: Seq<char>, pos: int)
    requires
        0 <= pos <= s.len(),
    ensures
        spans(expr(s, pos), s, pos),
        spans(stmt(s, pos), s, pos),
{
    lemma_expr(s, pos);
    lemma_stmt(s, pos);
}

/// Whether `root` is the root of a parsed fragment: a node whose children
/// are well formed, one of them a node and the others white space.
pub open spec fn rooted(root: Syntax) -> bool {
    match root {
        Syntax::Node { kind, children } => (kind == SyntaxKind::ROOT_EXPR || kind
            == SyntaxKind::ROOT_STMT) && all_well_formed(children, 0) && node_count(children, 0)
            == 1,
        Syntax::Token { .. } => false,
    }
}

/// The children of a root: white space if any, one sound node, white
/// space if any. They have the whole text, are well formed, and hold one
/// node.
pub proof fn lemma_root_children(s: Seq<char>, tree: Syntax, end: int)
    requires
        after_ws(s, 0) <= end <= s.len(),
        after_ws(s, end) == s.len(),
        sound(tree, s, after_ws(s, 0), end),
        tree is Node,
    ensures
        texts(lead(Seq::empty(), s, 0, tree) + ws_at(s, end)) == s,
        all_well_formed(lead(Seq::empty(), s, 0, tree) + ws_at(s, end), 0),
        node_count(lead(Seq::empty(), s, 0, tree) + ws_at(s, end), 0) == 1,
{
    lemma_ws(s, 0);
    lemma_ws(s, end);
    lemma_texts_empty(s, 0);
    lemma_lead(Seq::empty(), s, 0, 0, tree, end);
    let front = lead(Seq::empty(), s, 0, tree);
    let back = ws_at(s, end);
    lemma_texts_add(front, back);
    lemma_well_formed_add(front, back, 0);
    assert(s.subrange(0, end) + s.subrange(end, s.len() as int) =~= s);
    lemma_root_count(ws_at(s, 0), tree, back);
    assert(front =~= ws_at(s, 0) + seq![tree]);
}

/// Among at most one token, a node, and at most one token, one is a node.
pub proof fn lemma_root_count(before: Seq<Syntax>, tree: Syntax, after: Seq<Syntax>)
    requires
        tree is Node,
        before.len() <= 1,
        after.len() <= 1,
        forall|j: int| 0 <= j < before.len() ==> before[j] is Token,
        forall|j: int| 0 <= j < after.len() ==> after[j] is Token,
    ensures
        node_count(before + seq![tree] + after, 0) == 1,
{
    reveal_with_fuel(node_count, 4);
    let all = before + seq![tree] + after;
    if before.len() == 1 {
        assert(all[0] == before[0]);
        assert(all[1] == tree);
        if after.len() == 1 {
            assert(all[2] == after[0]);
        }
    } else {
        assert(all[0] == tree);
        if after.len() == 1 {
            assert(all[1] == after[0]);
        }
    }
}

/// Parsing is lossless: the texts of the tokens of the tree of a fragment,
/// in order, are the fragment, byte-order marks aside. The root holds one
/// construct, with white space before and after it at most, and what it
/// holds is well formed.
pub proof fn law_parse_lossless(source: Seq<char>, statement: bool)
    ensures
        match parse_spec(source, statement) {
            Ok(tree) => text_of(tree) == fragment(source) && rooted(tree),
            Err(_) => true,
        },
{
    let s = fragment(source);
    lemma_ws(s, 0);
    let start = after_ws(s, 0);
    law_rules_lossless(s, start);
    lemma_rules_read_nodes(s, start);
    let inner = if statement {
        stmt(s, start)
    } else {
        expr(s, start)
    };
    match inner {
        Some((tree, end)) => {
            lemma_ws(s, end);
            if after_ws(s, end) == s.len() {
                lemma_root_children(s, tree, end);
            }
        },
        None => {},
    }
}

/// What the grammar reads as an expression or as a statement header is a
/// node.
pub proof fn lemma_rules_read_nodes(s: Seq<char>, pos: int)
    requires
        0 <= pos <= s.len(),
    ensures
        expr(s, pos) is Some ==> tree_of(expr(s, pos)) is Node,
        stmt(s, pos) is Some ==> tree_of(stmt(s, pos)) is Node,
{
    lemma_expr(s, pos);
    lemma_stmt(s, pos);
}

} // verus!
