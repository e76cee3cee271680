//! The layout document: what the printer describes and the renderer lays out.

use crate::config::{LayoutOptions, LineBreak};
use vstd::prelude::*;
use vstd::string::*;

verus! {

/// The mathematical model of a layout document.
pub enum DocView {
    /// Nothing.
    Nil,
    /// Literal text.
    Text(Seq<char>),
    /// Text that appears only where the enclosing group is broken.
    TextIfBroken(Seq<char>),
    /// A mandatory line break.
    HardLine,
    /// A space where the enclosing group is flat, a line break where broken.
    LineOrSpace,
    /// Nothing where the enclosing group is flat, a line break where broken.
    LineOrNil,
    /// The parts one after another.
    List(Seq<DocView>),
    /// The inner document, with this many columns added to the indentation
    /// of each line break in it.
    Nest(nat, Box<DocView>),
    /// The inner document as one unit that is laid out flat where it fits.
    Group(Box<DocView>),
}

/// A layout document.
#[derive(Debug)]
pub enum Document {
    Nil,
    Text(String),
    TextIfBroken(String),
    HardLine,
    LineOrSpace,
    LineOrNil,
    List(Vec<Document>),
    Nest(usize, Box<Document>),
    Group(Box<Document>),
}

impl View for Document {
    type V = DocView;

    open spec fn view(&self) -> DocView
        decreases self, 0nat,
    {
        match self {
            Document::Nil => DocView::Nil,
            Document::Text(s) => DocView::Text(s@),
            Document::TextIfBroken(s) => DocView::TextIfBroken(s@),
            Document::HardLine => DocView::HardLine,
            Document::LineOrSpace => DocView::LineOrSpace,
            Document::LineOrNil => DocView::LineOrNil,
            Document::List(parts) => DocView::List(first_doc_views(parts@, parts@.len())),
            Document::Nest(n, inner) => DocView::Nest(*n as nat, Box::new((**inner).view())),
            Document::Group(inner) => DocView::Group(Box::new((**inner).view())),
        }
    }
}

/// The models of the first `n` documents of a sequence, in order.
pub open spec fn first_doc_views(docs: Seq<Document>, n: nat) -> Seq<DocView>
    decreases docs, n,
{
    if 0 < n <= docs.len() {
        first_doc_views(docs, (n - 1) as nat).push(docs[n - 1]@)
    } else {
        Seq::empty()
    }
}

/// The models of a sequence of documents, in order.
pub open spec fn doc_views(docs: Seq<Document>) -> Seq<DocView> {
    first_doc_views(docs, docs.len())
}

/// `first_doc_views` takes the model of each document, index by index.
pub proof fn lemma_first_doc_views(docs: Seq<Document>, n: nat)
    requires
        n <= docs.len(),
    ensures
        first_doc_views(docs, n).len() == n,
        forall|i: int| 0 <= i < n ==> (#[trigger] first_doc_views(docs, n)[i]) == docs[i]@,
    decreases n,
{
    if n > 0 {
        lemma_first_doc_views(docs, (n - 1) as nat);
        assert(first_doc_views(docs, n) == first_doc_views(docs, (n - 1) as nat).push(docs[n - 1]@));
    } else {
        assert(first_doc_views(docs, 0) == Seq::<DocView>::empty());
    }
}

/// `first_doc_views` looks at no document past the `n`-th.
pub proof fn lemma_first_doc_views_agree(a: Seq<Document>, b: Seq<Document>, n: nat)
    requires
        n <= a.len(),
        n <= b.len(),
        forall|i: int| 0 <= i < n ==> a[i] == b[i],
    ensures
        first_doc_views(a, n) == first_doc_views(b, n),
    decreases n,
{
    if n > 0 {
        lemma_first_doc_views_agree(a, b, (n - 1) as nat);
    }
}

/// The models of a sequence with one more document are the models of the
/// sequence with one more model.
pub proof fn lemma_doc_views_push(docs: Seq<Document>, d: Document)
    ensures
        doc_views(docs.push(d)) == doc_views(docs).push(d@),
{
    lemma_first_doc_views_agree(docs.push(d), docs, docs.len());
}

/// The models of a sequence, index by index.
pub proof fn lemma_doc_views_index(docs: Seq<Document>)
    ensures
        doc_views(docs).len() == docs.len(),
        forall|i: int| 0 <= i < docs.len() ==> (#[trigger] doc_views(docs)[i]) == docs[i]@,
{
    lemma_first_doc_views(docs, docs.len());
}

impl Document {
    /// Literal text.
    pub fn text(s: &str) -> (d: Document)
        ensures
            d@ == DocView::Text(s@),
    {
        Document::Text(s.to_owned())
    }

    /// The parts one after another.
    pub fn list(parts: Vec<Document>) -> (d: Document)
        ensures
            d@ == DocView::List(doc_views(parts@)),
    {
        Document::List(parts)
    }

    /// Two documents one after the other.
    pub fn pair(a: Document, b: Document) -> (d: Document)
        ensures
            d@ == DocView::List(seq![a@, b@]),
    {
        let mut parts: Vec<Document> = Vec::new();
        parts.push(a);
        parts.push(b);
        proof {
            lemma_doc_views_index(parts@);
            assert(doc_views(parts@) =~= seq![a@, b@]);
        }
        Document::list(parts)
    }

    /// This document with `n` more columns of indentation at its line breaks.
    pub fn nest(self, n: usize) -> (d: Document)
        ensures
            d@ == DocView::Nest(n as nat, Box::new(self@)),
    {
        Document::Nest(n, Box::new(self))
    }

    /// This document as one group.
    pub fn group(self) -> (d: Document)
        ensures
            d@ == DocView::Group(Box::new(self@)),
    {
        Document::Group(Box::new(self))
    }
}

/// Appends one document to a list of parts.
pub fn push_doc(parts: &mut Vec<Document>, d: Document)
    ensures
        doc_views(final(parts)@) == doc_views(old(parts)@).push(d@),
{
    parts.push(d);
    proof {
        lemma_doc_views_push(old(parts)@, d);
    }
}

/// A bound on the number of bytes that `text` takes in UTF-8: four for
/// each character.
pub open spec fn text_width(text: Seq<char>) -> nat {
    4 * text.len()
}

/// An upper bound on every column and indentation that laying out `doc`
/// can reach: the bytes of its texts, its breaks, and its indentations,
/// added up.
pub open spec fn doc_extent(doc: DocView) -> nat
    decreases doc, 0nat,
{
    match doc {
        DocView::Nil | DocView::HardLine => 0,
        DocView::Text(text) | DocView::TextIfBroken(text) => text_width(text),
        DocView::LineOrSpace | DocView::LineOrNil => 1,
        DocView::List(parts) => first_extents(parts, parts.len()),
        DocView::Nest(n, inner) => n + doc_extent(*inner),
        DocView::Group(inner) => doc_extent(*inner),
    }
}

/// The extents of the first `n` documents of `parts`, added up.
pub open spec fn first_extents(parts: Seq<DocView>, n: nat) -> nat
    decreases parts, n,
{
    if 0 < n <= parts.len() {
        first_extents(parts, (n - 1) as nat) + doc_extent(parts[n - 1])
    } else {
        0
    }
}

/// The extents of more documents add up to more.
pub proof fn lemma_first_extents_grow(parts: Seq<DocView>, a: nat, b: nat)
    requires
        a <= b <= parts.len(),
    ensures
        first_extents(parts, a) <= first_extents(parts, b),
    decreases b,
{
    if a < b {
        lemma_first_extents_grow(parts, a, (b - 1) as nat);
        assert(first_extents(parts, b) == first_extents(parts, (b - 1) as nat) + doc_extent(
            parts[b - 1],
        ));
    }
}

impl Document {
    /// The extent of this document, or `None` where it does not fit in a
    /// `usize`.
    pub fn extent(&self) -> (r: Option<usize>)
        ensures
            match r {
                Some(n) => n == doc_extent(self@),
                None => doc_extent(self@) > usize::MAX,
            },
        decreases self, 0nat,
    {
        match self {
            Document::Nil | Document::HardLine => Some(0),
            Document::Text(text) | Document::TextIfBroken(text) => text.as_str().unicode_len().checked_mul(4),
            Document::LineOrSpace | Document::LineOrNil => Some(1),
            Document::List(parts) => {
                proof {
                    lemma_doc_views_index(parts@);
                }
                extent_of_all(parts)
            },
            Document::Nest(n, inner) => match inner.extent() {
                None => None,
                Some(m) => n.checked_add(m),
            },
            Document::Group(inner) => inner.extent(),
        }
    }
}

/// The extents of `parts`, added up, or `None` where the sum does not fit
/// in a `usize`.
fn extent_of_all(parts: &Vec<Document>) -> (r: Option<usize>)
    ensures
        match r {
            Some(n) => n == first_extents(doc_views(parts@), parts@.len()),
            None => first_extents(doc_views(parts@), parts@.len()) > usize::MAX,
        },
    decreases parts, 0nat,
{
    let ghost model = doc_views(parts@);
    proof {
        lemma_doc_views_index(parts@);
    }
    let mut total: usize = 0;
    let mut i: usize = 0;
    while i < parts.len()
        invariant
            i <= parts.len(),
            model == doc_views(parts@),
            model.len() == parts.len(),
            forall|j: int| 0 <= j < parts.len() ==> (#[trigger] model[j]) == parts[j]@,
            total == first_extents(model, i as nat),
        decreases parts.len() - i,
    {
        proof {
            assert(first_extents(model, (i + 1) as nat) == first_extents(model, i as nat)
                + doc_extent(model[i as int]));
            lemma_first_extents_grow(model, (i + 1) as nat, parts.len() as nat);
        }
        match parts[i].extent() {
            None => {
                return None;
            },
            Some(n) => match total.checked_add(n) {
                None => {
                    return None;
                },
                Some(sum) => {
                    total = sum;
                },
            },
        }
        i += 1;
    }
    Some(total)
}

/// The text that the layout renderer makes of a document under a layout:
/// each group flat where it fits in the print width and broken otherwise,
/// lines indented and ended as the layout says.
pub uninterp spec fn rendered(doc: DocView, layout: LayoutOptions) -> Seq<char>;

/// The renderer's own document type.
#[verifier::external_type_specification]
#[verifier::external_body]
pub struct ExLayout<'a>(tiny_pretty::Doc<'a>);

/// Builds the renderer's document for `doc` with `tiny_pretty::Doc`'s own
/// constructors (`nil`, `text`, `flat_or_break`, `hard_line`,
/// `line_or_space`, `line_or_nil`, `list`, `nest`, `group`), one for one.
/// Nothing is claimed of the result.
#[verifier::external_body]
fn lower(doc: &Document) -> tiny_pretty::Doc<'static> {
    match doc {
        Document::Nil => tiny_pretty::Doc::nil(),
        Document::Text(s) => tiny_pretty::Doc::text(s.clone()),
        Document::TextIfBroken(s) => tiny_pretty::Doc::flat_or_break(
            tiny_pretty::Doc::nil(),
            tiny_pretty::Doc::text(s.clone()),
        ),
        Document::HardLine => tiny_pretty::Doc::hard_line(),
        Document::LineOrSpace => tiny_pretty::Doc::line_or_space(),
        Document::LineOrNil => tiny_pretty::Doc::line_or_nil(),
        Document::List(parts) => tiny_pretty::Doc::list(parts.iter().map(lower).collect()),
        Document::Nest(n, inner) => lower(inner).nest(*n),
        Document::Group(inner) => lower(inner).group(),
    }
}

/// Calls `tiny_pretty::print` on the renderer's document for `doc`, with
/// the layout's width, indentation and line ending. The result is named
/// `rendered`: it depends on the document and the layout alone. The
/// renderer panics on a tab size of zero, which `requires` leaves out, and
/// adds up columns and indentations, which the bound on the extent keeps
/// in range.
#[verifier::external_body]
fn render(doc: &Document, layout: &LayoutOptions) -> (out: String)
    requires
        layout.indent_width > 0,
        doc_extent(doc@) <= usize::MAX,
    ensures
        out@ == rendered(doc@, *layout),
{
    let options = tiny_pretty::PrintOptions {
        indent_kind: if layout.use_tabs {
            tiny_pretty::IndentKind::Tab
        } else {
            tiny_pretty::IndentKind::Space
        },
        line_break: match layout.line_break {
            LineBreak::Lf => tiny_pretty::LineBreak::Lf,
            LineBreak::Crlf => tiny_pretty::LineBreak::Crlf,
        },
        width: layout.print_width,
        tab_size: layout.indent_width,
    };
    tiny_pretty::print(&lower(doc), &options)
}

/// Why a document was not laid out.
#[derive(Clone, Copy, Debug, PartialEq, Eq, Structural)]
pub enum LayoutError {
    /// The indent width is zero.
    ZeroIndentWidth,
    /// The document's extent does not fit in a `usize`.
    TooLarge,
}

/// What laying out `doc` gives.
pub open spec fn layout_spec(doc: DocView, layout: LayoutOptions) -> Result<Seq<char>, LayoutError> {
    if layout.indent_width == 0 {
        Err(LayoutError::ZeroIndentWidth)
    } else if doc_extent(doc) > usize::MAX {
        Err(LayoutError::TooLarge)
    } else {
        Ok(rendered(doc, layout))
    }
}

/// Lays out a document as text.
pub fn lay_out(doc: &Document, layout: &LayoutOptions) -> (r: Result<String, LayoutError>)
    ensures
        match r {
            Ok(text) => layout_spec(doc@, *layout) == Ok::<Seq<char>, LayoutError>(text@),
            Err(e) => layout_spec(doc@, *layout) == Err::<Seq<char>, LayoutError>(e),
        },
{
    if layout.indent_width == 0 {
        Err(LayoutError::ZeroIndentWidth)
    } else if doc.extent().is_none() {
        Err(LayoutError::TooLarge)
    } else {
        Ok(render(doc, layout))
    }
}

} // verus!
