use vstd::prelude::*;
use rowan::ast::AstNode;
use crate::reference::{Reference, RefView};

verus! {

/// A node of a parsed Nix file, reduced to what the extractor reads.
pub enum SyntaxItem {
    /// A path literal node, with the number of its child nodes (any child is
    /// an interpolation) and its exact source text.
    PathLiteral { children: usize, text: String },
    /// Any other node.
    Other,
}

pub ghost enum SyntaxItemView {
    PathLiteral { children: nat, text: Seq<char> },
    Other,
}

impl View for SyntaxItem {
    type V = SyntaxItemView;

    open spec fn view(&self) -> SyntaxItemView {
        match self {
            SyntaxItem::PathLiteral { children, text } => SyntaxItemView::PathLiteral { children: *children as nat, text: text@ },
            SyntaxItem::Other => SyntaxItemView::Other,
        }
    }
}

pub open spec fn items_view(v: Seq<SyntaxItem>) -> Seq<SyntaxItemView> {
    v.map_values(|i: SyntaxItem| i@)
}

/// The nodes of the syntax tree that rnix builds for a source text, in
/// preorder, or `None` where rnix reports a parse error.
pub uninterp spec fn parsed_nodes(source: Seq<char>) -> Option<Seq<SyntaxItemView>>;

/// Relies on rnix::Root::parse and Parse::ok to parse a Nix source, and on
/// rowan's preorder `descendants`, `kind`, `children` and `text` to read the
/// nodes; the result depends on the source alone.
#[verifier::external_body]
fn parse_source(source: &str) -> (r: Result<Vec<SyntaxItem>, String>)
    ensures
        match r {
            Ok(v) => parsed_nodes(source@) == Some(items_view(v@)),
            Err(_) => parsed_nodes(source@) is None,
        },
{
    match rnix::Root::parse(source).ok() {
        Ok(root) => Ok(root.syntax().descendants().map(|n| match n.kind() {
            rnix::SyntaxKind::NODE_PATH => SyntaxItem::PathLiteral { children: n.children().count(), text: n.text().to_string() },
            _ => SyntaxItem::Other,
        }).collect()),
        Err(e) => Err(e.to_string()),
    }
}

/// Relies on str::starts_with with a char pattern.
#[verifier::external_body]
fn starts_with_char(s: &str, c: char) -> (r: bool)
    ensures
        r == (s@.len() > 0 && s@[0] == c),
{
    s.starts_with(c)
}

/// What the extractor makes of one path literal.
pub enum Literal {
    /// A plain relative path: it becomes a reference.
    Reference(Reference),
    /// It holds interpolated subexpressions; skipped with a warning.
    Interpolated(String),
    /// A search path such as `<nixpkgs>`; skipped with a warning.
    SearchPath(String),
}

pub ghost enum LiteralView {
    Reference(RefView),
    Interpolated(Seq<char>),
    SearchPath(Seq<char>),
}

impl View for Literal {
    type V = LiteralView;

    open spec fn view(&self) -> LiteralView {
        match self {
            Literal::Reference(r) => LiteralView::Reference(r@),
            Literal::Interpolated(t) => LiteralView::Interpolated(t@),
            Literal::SearchPath(t) => LiteralView::SearchPath(t@),
        }
    }
}

pub open spec fn literals_view(v: Seq<Literal>) -> Seq<LiteralView> {
    v.map_values(|l: Literal| l@)
}

/// The policy for one path literal with `children` child nodes and text
/// `text`, found in `file`.
pub open spec fn literal_spec(file: Seq<char>, children: nat, text: Seq<char>) -> LiteralView {
    if children != 0 {
        LiteralView::Interpolated(text)
    } else if text.len() > 0 && text[0] == '<' {
        LiteralView::SearchPath(text)
    } else {
        LiteralView::Reference(RefView { file, text })
    }
}

/// The outcomes for the path literals among `items`, in order.
pub open spec fn literals_spec(file: Seq<char>, items: Seq<SyntaxItemView>) -> Seq<LiteralView>
    decreases items.len(),
{
    if items.len() == 0 {
        Seq::empty()
    } else {
        let prev = literals_spec(file, items.drop_last());
        match items.last() {
            SyntaxItemView::PathLiteral { children, text } => prev.push(literal_spec(file, children, text)),
            SyntaxItemView::Other => prev,
        }
    }
}

/// Classifies one path literal found in `file`.
pub fn classify_literal(file: &String, children: usize, text: String) -> (r: Literal)
    ensures
        r@ == literal_spec(file@, children as nat, text@),
{
    if children != 0 {
        Literal::Interpolated(text)
    } else if starts_with_char(text.as_str(), '<') {
        Literal::SearchPath(text)
    } else {
        Literal::Reference(Reference::new(file.clone(), text))
    }
}

/// Classifies every path literal among `items`, in order; other nodes are
/// passed over.
pub fn literals_in(file: &String, items: &Vec<SyntaxItem>) -> (r: Vec<Literal>)
    ensures
        literals_view(r@) == literals_spec(file@, items_view(items@)),
{
    let ghost all = items_view(items@);
    let mut out: Vec<Literal> = Vec::new();
    let mut i: usize = 0;
    while i < items.len()
        invariant
            i <= items.len(),
            all == items_view(items@),
            literals_view(out@) == literals_spec(file@, all.subrange(0, i as int)),
        decreases items.len() - i,
    {
        let ghost before = out@;
        assert(all.subrange(0, i + 1).drop_last() =~= all.subrange(0, i as int));
        match &items[i] {
            SyntaxItem::PathLiteral { children, text } => {
                let l = classify_literal(file, *children, text.clone());
                out.push(l);
                assert(literals_view(out@) =~= literals_view(before).push(l@));
            },
            SyntaxItem::Other => {},
        }
        i += 1;
    }
    assert(all.subrange(0, i as int) =~= all);
    out
}

/// Parses the Nix source `source` of `file` and classifies each of its path
/// literals; fails where rnix reports a parse error.
pub fn extract_literals(file: &String, source: &str) -> (r: Result<Vec<Literal>, String>)
    ensures
        match parsed_nodes(source@) {
            Some(items) => r matches Ok(v) && literals_view(v@) == literals_spec(file@, items),
            None => r is Err,
        },
{
    match parse_source(source) {
        Ok(items) => Ok(literals_in(file, &items)),
        Err(e) => Err(e),
    }
}

} // verus!
