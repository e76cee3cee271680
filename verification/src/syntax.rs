//! Token and node kinds, and the lossless syntax tree.

use vstd::prelude::*;
use vstd::string::*;

verus! {

/// The kind of a token or of a node of the syntax tree.
#[allow(non_camel_case_types)]
#[derive(Clone, Copy, Debug, PartialEq, Eq, PartialOrd, Ord, Structural, Hash)]
pub enum SyntaxKind {
    // tokens
    WHITESPACE,
    BOOL,
    IDENT,
    NUMBER,
    STRING,
    L_PAREN,
    R_PAREN,
    L_BRACKET,
    R_BRACKET,
    L_BRACE,
    R_BRACE,
    COMMA,
    DOT,
    COLON,
    EQ,
    KEYWORD,
    OPERATOR,
    // nodes
    ARG,
    EXPR_BIN,
    EXPR_CALL,
    EXPR_CONCAT,
    EXPR_DICT,
    EXPR_DICT_ITEM,
    EXPR_FILTER,
    EXPR_GET_ATTR,
    EXPR_GET_ITEM,
    EXPR_IDENT,
    EXPR_IF,
    EXPR_LIST,
    EXPR_LITERAL,
    EXPR_PAREN,
    EXPR_TEST,
    EXPR_TUPLE,
    EXPR_UNARY,
    PARAM,
    STMT_CALL,
    STMT_FILTER,
    STMT_FOR,
    STMT_MACRO,
    STMT_SET,
    STMT_UNKNOWN,
    STMT_WITH,
    ROOT_EXPR,
    ROOT_STMT,
}

impl SyntaxKind {
    /// The number of this kind: its place in the enumeration, from zero.
    pub open spec fn raw_spec(self) -> u16 {
        match self {
            SyntaxKind::WHITESPACE => 0,
            SyntaxKind::BOOL => 1,
            SyntaxKind::IDENT => 2,
            SyntaxKind::NUMBER => 3,
            SyntaxKind::STRING => 4,
            SyntaxKind::L_PAREN => 5,
            SyntaxKind::R_PAREN => 6,
            SyntaxKind::L_BRACKET => 7,
            SyntaxKind::R_BRACKET => 8,
            SyntaxKind::L_BRACE => 9,
            SyntaxKind::R_BRACE => 10,
            SyntaxKind::COMMA => 11,
            SyntaxKind::DOT => 12,
            SyntaxKind::COLON => 13,
            SyntaxKind::EQ => 14,
            SyntaxKind::KEYWORD => 15,
            SyntaxKind::OPERATOR => 16,
            SyntaxKind::ARG => 17,
            SyntaxKind::EXPR_BIN => 18,
            SyntaxKind::EXPR_CALL => 19,
            SyntaxKind::EXPR_CONCAT => 20,
            SyntaxKind::EXPR_DICT => 21,
            SyntaxKind::EXPR_DICT_ITEM => 22,
            SyntaxKind::EXPR_FILTER => 23,
            SyntaxKind::EXPR_GET_ATTR => 24,
            SyntaxKind::EXPR_GET_ITEM => 25,
            SyntaxKind::EXPR_IDENT => 26,
            SyntaxKind::EXPR_IF => 27,
            SyntaxKind::EXPR_LIST => 28,
            SyntaxKind::EXPR_LITERAL => 29,
            SyntaxKind::EXPR_PAREN => 30,
            SyntaxKind::EXPR_TEST => 31,
            SyntaxKind::EXPR_TUPLE => 32,
            SyntaxKind::EXPR_UNARY => 33,
            SyntaxKind::PARAM => 34,
            SyntaxKind::STMT_CALL => 35,
            SyntaxKind::STMT_FILTER => 36,
            SyntaxKind::STMT_FOR => 37,
            SyntaxKind::STMT_MACRO => 38,
            SyntaxKind::STMT_SET => 39,
            SyntaxKind::STMT_UNKNOWN => 40,
            SyntaxKind::STMT_WITH => 41,
            SyntaxKind::ROOT_EXPR => 42,
            SyntaxKind::ROOT_STMT => 43,
        }
    }

    /// The kind of a number, where it is the number of one.
    pub open spec fn from_raw_spec(raw: u16) -> Option<SyntaxKind> {
        match raw {
            0 => Some(SyntaxKind::WHITESPACE),
            1 => Some(SyntaxKind::BOOL),
            2 => Some(SyntaxKind::IDENT),
            3 => Some(SyntaxKind::NUMBER),
            4 => Some(SyntaxKind::STRING),
            5 => Some(SyntaxKind::L_PAREN),
            6 => Some(SyntaxKind::R_PAREN),
            7 => Some(SyntaxKind::L_BRACKET),
            8 => Some(SyntaxKind::R_BRACKET),
            9 => Some(SyntaxKind::L_BRACE),
            10 => Some(SyntaxKind::R_BRACE),
            11 => Some(SyntaxKind::COMMA),
            12 => Some(SyntaxKind::DOT),
            13 => Some(SyntaxKind::COLON),
            14 => Some(SyntaxKind::EQ),
            15 => Some(SyntaxKind::KEYWORD),
            16 => Some(SyntaxKind::OPERATOR),
            17 => Some(SyntaxKind::ARG),
            18 => Some(SyntaxKind::EXPR_BIN),
            19 => Some(SyntaxKind::EXPR_CALL),
            20 => Some(SyntaxKind::EXPR_CONCAT),
            21 => Some(SyntaxKind::EXPR_DICT),
            22 => Some(SyntaxKind::EXPR_DICT_ITEM),
            23 => Some(SyntaxKind::EXPR_FILTER),
            24 => Some(SyntaxKind::EXPR_GET_ATTR),
            25 => Some(SyntaxKind::EXPR_GET_ITEM),
            26 => Some(SyntaxKind::EXPR_IDENT),
            27 => Some(SyntaxKind::EXPR_IF),
            28 => Some(SyntaxKind::EXPR_LIST),
            29 => Some(SyntaxKind::EXPR_LITERAL),
            30 => Some(SyntaxKind::EXPR_PAREN),
            31 => Some(SyntaxKind::EXPR_TEST),
            32 => Some(SyntaxKind::EXPR_TUPLE),
            33 => Some(SyntaxKind::EXPR_UNARY),
            34 => Some(SyntaxKind::PARAM),
            35 => Some(SyntaxKind::STMT_CALL),
            36 => Some(SyntaxKind::STMT_FILTER),
            37 => Some(SyntaxKind::STMT_FOR),
            38 => Some(SyntaxKind::STMT_MACRO),
            39 => Some(SyntaxKind::STMT_SET),
            40 => Some(SyntaxKind::STMT_UNKNOWN),
            41 => Some(SyntaxKind::STMT_WITH),
            42 => Some(SyntaxKind::ROOT_EXPR),
            43 => Some(SyntaxKind::ROOT_STMT),
            _ => None,
        }
    }

    /// The number of this kind.
    pub fn raw(self) -> (r: u16)
        ensures
            r == self.raw_spec(),
    {
        match self {
            SyntaxKind::WHITESPACE => 0,
            SyntaxKind::BOOL => 1,
            SyntaxKind::IDENT => 2,
            SyntaxKind::NUMBER => 3,
            SyntaxKind::STRING => 4,
            SyntaxKind::L_PAREN => 5,
            SyntaxKind::R_PAREN => 6,
            SyntaxKind::L_BRACKET => 7,
            SyntaxKind::R_BRACKET => 8,
            SyntaxKind::L_BRACE => 9,
            SyntaxKind::R_BRACE => 10,
            SyntaxKind::COMMA => 11,
            SyntaxKind::DOT => 12,
            SyntaxKind::COLON => 13,
            SyntaxKind::EQ => 14,
            SyntaxKind::KEYWORD => 15,
            SyntaxKind::OPERATOR => 16,
            SyntaxKind::ARG => 17,
            SyntaxKind::EXPR_BIN => 18,
            SyntaxKind::EXPR_CALL => 19,
            SyntaxKind::EXPR_CONCAT => 20,
            SyntaxKind::EXPR_DICT => 21,
            SyntaxKind::EXPR_DICT_ITEM => 22,
            SyntaxKind::EXPR_FILTER => 23,
            SyntaxKind::EXPR_GET_ATTR => 24,
            SyntaxKind::EXPR_GET_ITEM => 25,
            SyntaxKind::EXPR_IDENT => 26,
            SyntaxKind::EXPR_IF => 27,
            SyntaxKind::EXPR_LIST => 28,
            SyntaxKind::EXPR_LITERAL => 29,
            SyntaxKind::EXPR_PAREN => 30,
            SyntaxKind::EXPR_TEST => 31,
            SyntaxKind::EXPR_TUPLE => 32,
            SyntaxKind::EXPR_UNARY => 33,
            SyntaxKind::PARAM => 34,
            SyntaxKind::STMT_CALL => 35,
            SyntaxKind::STMT_FILTER => 36,
            SyntaxKind::STMT_FOR => 37,
            SyntaxKind::STMT_MACRO => 38,
            SyntaxKind::STMT_SET => 39,
            SyntaxKind::STMT_UNKNOWN => 40,
            SyntaxKind::STMT_WITH => 41,
            SyntaxKind::ROOT_EXPR => 42,
            SyntaxKind::ROOT_STMT => 43,
        }
    }

    /// The kind of a number, or `None` where no kind has that number.
    pub fn from_raw(raw: u16) -> (r: Option<SyntaxKind>)
        ensures
            r == SyntaxKind::from_raw_spec(raw),
    {
        match raw {
            0 => Some(SyntaxKind::WHITESPACE),
            1 => Some(SyntaxKind::BOOL),
            2 => Some(SyntaxKind::IDENT),
            3 => Some(SyntaxKind::NUMBER),
            4 => Some(SyntaxKind::STRING),
            5 => Some(SyntaxKind::L_PAREN),
            6 => Some(SyntaxKind::R_PAREN),
            7 => Some(SyntaxKind::L_BRACKET),
            8 => Some(SyntaxKind::R_BRACKET),
            9 => Some(SyntaxKind::L_BRACE),
            10 => Some(SyntaxKind::R_BRACE),
            11 => Some(SyntaxKind::COMMA),
            12 => Some(SyntaxKind::DOT),
            13 => Some(SyntaxKind::COLON),
            14 => Some(SyntaxKind::EQ),
            15 => Some(SyntaxKind::KEYWORD),
            16 => Some(SyntaxKind::OPERATOR),
            17 => Some(SyntaxKind::ARG),
            18 => Some(SyntaxKind::EXPR_BIN),
            19 => Some(SyntaxKind::EXPR_CALL),
            20 => Some(SyntaxKind::EXPR_CONCAT),
            21 => Some(SyntaxKind::EXPR_DICT),
            22 => Some(SyntaxKind::EXPR_DICT_ITEM),
            23 => Some(SyntaxKind::EXPR_FILTER),
            24 => Some(SyntaxKind::EXPR_GET_ATTR),
            25 => Some(SyntaxKind::EXPR_GET_ITEM),
            26 => Some(SyntaxKind::EXPR_IDENT),
            27 => Some(SyntaxKind::EXPR_IF),
            28 => Some(SyntaxKind::EXPR_LIST),
            29 => Some(SyntaxKind::EXPR_LITERAL),
            30 => Some(SyntaxKind::EXPR_PAREN),
            31 => Some(SyntaxKind::EXPR_TEST),
            32 => Some(SyntaxKind::EXPR_TUPLE),
            33 => Some(SyntaxKind::EXPR_UNARY),
            34 => Some(SyntaxKind::PARAM),
            35 => Some(SyntaxKind::STMT_CALL),
            36 => Some(SyntaxKind::STMT_FILTER),
            37 => Some(SyntaxKind::STMT_FOR),
            38 => Some(SyntaxKind::STMT_MACRO),
            39 => Some(SyntaxKind::STMT_SET),
            40 => Some(SyntaxKind::STMT_UNKNOWN),
            41 => Some(SyntaxKind::STMT_WITH),
            42 => Some(SyntaxKind::ROOT_EXPR),
            43 => Some(SyntaxKind::ROOT_STMT),
            _ => None,
        }
    }
}

/// A kind and its number determine each other.
pub proof fn law_raw_round_trip(kind: SyntaxKind, raw: u16)
    ensures
        SyntaxKind::from_raw_spec(kind.raw_spec()) == Some(kind),
        SyntaxKind::from_raw_spec(raw) == Some(kind) ==> kind.raw_spec() == raw,
        kind.raw_spec() <= SyntaxKind::ROOT_STMT.raw_spec(),
{
}

/// The mathematical model of a syntax tree: a token with its exact source
/// text, or a node with its ordered children.
pub enum Syntax {
    Token { kind: SyntaxKind, text: Seq<char> },
    Node { kind: SyntaxKind, children: Seq<Syntax> },
}

/// An element of the syntax tree as the parser builds it.
#[derive(Debug)]
pub enum SyntaxElement {
    Token { kind: SyntaxKind, text: String },
    Node { kind: SyntaxKind, children: Vec<SyntaxElement> },
}

/// The models of the first `n` elements of a sequence, in order.
pub open spec fn first_views(elements: Seq<SyntaxElement>, n: nat) -> Seq<Syntax>
    decreases elements, n,
{
    if 0 < n <= elements.len() {
        first_views(elements, (n - 1) as nat).push(elements[n - 1]@)
    } else {
        Seq::empty()
    }
}

/// The models of a sequence of elements, in order.
pub open spec fn views(elements: Seq<SyntaxElement>) -> Seq<Syntax> {
    first_views(elements, elements.len())
}

impl View for SyntaxElement {
    type V = Syntax;

    open spec fn view(&self) -> Syntax
        decreases self, 0nat,
    {
        match self {
            SyntaxElement::Token { kind, text } => Syntax::Token { kind: *kind, text: text@ },
            SyntaxElement::Node { kind, children } => Syntax::Node {
                kind: *kind,
                children: first_views(children@, children@.len()),
            },
        }
    }
}

/// `first_views` takes the model of each element, index by index.
pub proof fn lemma_first_views(elements: Seq<SyntaxElement>, n: nat)
    requires
        n <= elements.len(),
    ensures
        first_views(elements, n).len() == n,
        forall|i: int| 0 <= i < n ==> (#[trigger] first_views(elements, n)[i]) == elements[i]@,
    decreases n,
{
    if n > 0 {
        lemma_first_views(elements, (n - 1) as nat);
        assert(first_views(elements, n) == first_views(elements, (n - 1) as nat).push(
            elements[n - 1]@,
        ));
    } else {
        assert(first_views(elements, 0) == Seq::<Syntax>::empty());
    }
}

/// The models of a sequence, index by index.
pub proof fn lemma_views_index(elements: Seq<SyntaxElement>)
    ensures
        views(elements).len() == elements.len(),
        forall|i: int| 0 <= i < elements.len() ==> (#[trigger] views(elements)[i]) == elements[i]@,
{
    lemma_first_views(elements, elements.len());
}

/// The models of two sequences joined are the models of each, joined.
pub proof fn lemma_views_add(a: Seq<SyntaxElement>, b: Seq<SyntaxElement>)
    ensures
        views(a + b) == views(a) + views(b),
{
    lemma_views_index(a);
    lemma_views_index(b);
    lemma_views_index(a + b);
    assert(views(a + b) =~= views(a) + views(b));
}

/// The models of a sequence with one more element are the models of the
/// sequence with one more model.
pub proof fn lemma_views_push(a: Seq<SyntaxElement>, e: SyntaxElement)
    ensures
        views(a.push(e)) == views(a).push(e@),
{
    lemma_views_index(a);
    lemma_views_index(a.push(e));
    assert(views(a.push(e)) =~= views(a).push(e@));
}

/// The source text that a tree spans: the texts of its tokens, in order.
pub open spec fn text_of(t: Syntax) -> Seq<char>
    decreases t, 0nat,
{
    match t {
        Syntax::Token { text, .. } => text,
        Syntax::Node { children, .. } => text_from(children, 0),
    }
}

/// The concatenated text of `children[i..]`.
pub open spec fn text_from(children: Seq<Syntax>, i: int) -> Seq<char>
    decreases children, children.len() - i,
{
    if 0 <= i < children.len() {
        text_of(children[i]) + text_from(children, i + 1)
    } else {
        Seq::empty()
    }
}

impl SyntaxElement {
    /// A token of `kind` whose text is `source[start..end]`.
    pub fn token(kind: SyntaxKind, source: &str, start: usize, end: usize) -> (e: SyntaxElement)
        requires
            start <= end <= source@.len(),
        ensures
            e@ == (Syntax::Token { kind, text: source@.subrange(start as int, end as int) }),
    {
        SyntaxElement::Token { kind, text: source.substring_char(start, end).to_owned() }
    }

    /// A node of `kind` with these children.
    pub fn node(kind: SyntaxKind, children: Vec<SyntaxElement>) -> (e: SyntaxElement)
        ensures
            e@ == (Syntax::Node { kind, children: views(children@) }),
    {
        SyntaxElement::Node { kind, children }
    }

    /// A node of `kind` with one child.
    pub fn node1(kind: SyntaxKind, child: SyntaxElement) -> (e: SyntaxElement)
        ensures
            e@ == (Syntax::Node { kind, children: seq![child@] }),
    {
        let mut children: Vec<SyntaxElement> = Vec::new();
        push_child(&mut children, child);
        proof {
            lemma_views_index(Seq::<SyntaxElement>::empty());
            assert(views(Seq::<SyntaxElement>::empty()).push(child@) =~= seq![child@]);
        }
        SyntaxElement::node(kind, children)
    }

    /// The source text that this element spans.
    pub fn text(&self) -> (r: String)
        ensures
            r@ == text_of(self@),
        decreases self, 0nat,
    {
        match self {
            SyntaxElement::Token { text, .. } => text.clone(),
            SyntaxElement::Node { children, .. } => {
                proof {
                    lemma_views_index(children@);
                }
                text_of_all(children)
            },
        }
    }

    /// The kind of this element.
    pub fn kind(&self) -> (k: SyntaxKind)
        ensures
            k == self@.kind(),
    {
        match self {
            SyntaxElement::Token { kind, .. } => *kind,
            SyntaxElement::Node { kind, .. } => *kind,
        }
    }
}

impl Syntax {
    /// The kind of this element.
    pub open spec fn kind(self) -> SyntaxKind {
        match self {
            Syntax::Token { kind, .. } => kind,
            Syntax::Node { kind, .. } => kind,
        }
    }
}

/// The source text that `children` span, one after another.
fn text_of_all(children: &Vec<SyntaxElement>) -> (r: String)
    ensures
        r@ == text_from(views(children@), 0),
    decreases children, 0nat,
{
    let ghost model = views(children@);
    proof {
        lemma_views_index(children@);
    }
    let mut out = String::new();
    let mut i: usize = 0;
    while i < children.len()
        invariant
            i <= children.len(),
            model == views(children@),
            model.len() == children.len(),
            forall|j: int| 0 <= j < children.len() ==> (#[trigger] model[j]) == children[j]@,
            out@ + text_from(model, i as int) == text_from(model, 0),
        decreases children.len() - i,
    {
        let ghost before = out@;
        let part = children[i].text();
        out.append(part.as_str());
        proof {
            assert(before + part@ + text_from(model, i + 1) =~= before + (part@ + text_from(
                model,
                i + 1,
            )));
        }
        i += 1;
    }
    proof {
        assert(out@ + Seq::<char>::empty() =~= out@);
    }
    out
}

/// Appends one element to a list of children.
pub fn push_child(children: &mut Vec<SyntaxElement>, e: SyntaxElement)
    ensures
        views(final(children)@) == views(old(children)@).push(e@),
        final(children)@.len() == old(children)@.len() + 1,
{
    proof {
        lemma_views_push(children@, e);
    }
    children.push(e);
}

/// Appends a list of elements to a list of children.
pub fn append_children(children: &mut Vec<SyntaxElement>, more: Vec<SyntaxElement>)
    ensures
        views(final(children)@) == views(old(children)@) + views(more@),
{
    let mut more = more;
    proof {
        lemma_views_add(children@, more@);
    }
    children.append(&mut more);
}

/// An empty list of children.
pub fn no_children() -> (children: Vec<SyntaxElement>)
    ensures
        views(children@) == Seq::<Syntax>::empty(),
        children@.len() == 0,
{
    let children: Vec<SyntaxElement> = Vec::new();
    proof {
        lemma_views_index(children@);
        assert(views(children@) =~= Seq::<Syntax>::empty());
    }
    children
}

} // verus!
