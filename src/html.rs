//! Parsing a document, selecting its elements and rendering the matches.
//!
//! Tree construction, selector syntax and matching, and serialisation are the
//! `scraper` crate's; this module decides when a document counts as blank,
//! which elements a selector yields and in what order, and how the matches are
//! laid out.

use crate::selector::{
    compile_selector, element_matches, nesting_bounded, selects, valid_selector,
};
use scraper::{ElementRef, Html};
use vstd::prelude::*;

verus! {

#[verifier::external_type_specification]
#[verifier::external_body]
pub struct ExHtml(scraper::Html);

#[verifier::external_type_specification]
#[verifier::external_body]
pub struct ExElementRef<'a>(scraper::ElementRef<'a>);

/// The tree that `scraper::Html::parse_document` builds for `text`.
pub uninterp spec fn parsed_document(text: Seq<char>) -> Html;

/// Every node of `html` in pre-order (document order), from the document node
/// itself: the element it is, or `None` for a node of another kind.
pub uninterp spec fn preorder_nodes(html: &Html) -> Seq<Option<ElementRef>>;

/// The markup of `element` and its subtree, as `scraper::ElementRef::html` writes it.
pub uninterp spec fn markup(element: ElementRef) -> Seq<char>;

/// Relies on `scraper::Html::parse_document`, which builds a tree for any
/// text, repairing malformed markup.
#[verifier::external_body]
fn parse_document(text: &str) -> (r: Html)
    ensures
        r == parsed_document(text@),
{
    Html::parse_document(text)
}

/// Relies on the tree's `descendants` and on `scraper::ElementRef::wrap`: every
/// node of the document in pre-order, as the element it is or `None`. The
/// traversal visits each node once.
#[verifier::external_body]
fn document_nodes<'a>(html: &'a Html) -> (r: Vec<Option<ElementRef<'a>>>)
    ensures
        r@ == preorder_nodes(html),
        forall|i: int, j: int|
            0 <= i < r.len() && 0 <= j < r.len() && i != j && r[i] is Some && r[j] is Some
                ==> r[i] != r[j],
{
    html.tree.root().descendants().map(ElementRef::wrap).collect()
}

/// Relies on `scraper::ElementRef::html`, the markup of an element and its subtree.
#[verifier::external_body]
fn element_markup(element: &ElementRef) -> (r: String)
    ensures
        r@ == markup(*element),
{
    element.html()
}

/// A failure of the parsing and selecting stages.
#[derive(Debug)]
pub enum CustomError {
    /// The document holds nothing but white space.
    InputEmpty,
    /// The selector is not valid CSS; it is carried along.
    SelectorSyntax(String),
}

/// The characters of Unicode's `White_Space` property, which `str::trim` removes.
pub open spec fn is_white_space(c: char) -> bool {
    ||| ('\t' <= c && c <= '\r')
    ||| c == ' '
    ||| c == '\u{85}'
    ||| c == '\u{a0}'
    ||| c == '\u{1680}'
    ||| ('\u{2000}' <= c && c <= '\u{200a}')
    ||| c == '\u{2028}'
    ||| c == '\u{2029}'
    ||| c == '\u{202f}'
    ||| c == '\u{205f}'
    ||| c == '\u{3000}'
}

/// A text is blank when every character of it is white space (the empty text too).
pub open spec fn is_blank(text: Seq<char>) -> bool {
    forall|i: int| 0 <= i < text.len() ==> is_white_space(#[trigger] text[i])
}

fn white_space_char(c: char) -> (r: bool)
    ensures
        r == is_white_space(c),
{
    ('\t' <= c && c <= '\r') || c == ' ' || c == '\u{85}' || c == '\u{a0}' || c == '\u{1680}'
        || ('\u{2000}' <= c && c <= '\u{200a}') || c == '\u{2028}' || c == '\u{2029}'
        || c == '\u{202f}' || c == '\u{205f}' || c == '\u{3000}'
}

/// Whether `text` is blank.
pub fn blank(text: &str) -> (r: bool)
    ensures
        r == is_blank(text@),
{
    let mut all: bool = true;
    for c in it: text.chars()
        invariant
            it.seq() == text@,
            all == (forall|j: int| 0 <= j < it.index() ==> is_white_space(#[trigger] text@[j])),
    {
        all = all && white_space_char(c);
    }
    all
}

/// Parses a document. Only a blank text is refused; any other text gives the
/// tree that the HTML parser builds, malformed markup being repaired.
pub fn parse_html(html: &str) -> (r: Result<Html, CustomError>)
    ensures
        r is Ok <==> !is_blank(html@),
        r is Ok ==> r->Ok_0 == parsed_document(html@),
        r is Err ==> r matches Err(CustomError::InputEmpty),
{
    if blank(html) {
        Err(CustomError::InputEmpty)
    } else {
        Ok(parse_document(html))
    }
}

/// The elements among `nodes` that the selector written `selector` matches,
/// in the order of `nodes`.
pub open spec fn matches_in_order<'a>(
    nodes: Seq<Option<ElementRef<'a>>>,
    selector: Seq<char>,
) -> Seq<ElementRef<'a>>
    decreases nodes.len(),
{
    if nodes.len() == 0 {
        Seq::empty()
    } else {
        let earlier = matches_in_order(nodes.drop_last(), selector);
        match nodes.last() {
            Some(e) => if selects(selector, e) {
                earlier.push(e)
            } else {
                earlier
            },
            None => earlier,
        }
    }
}

/// Every element that `matches_in_order` keeps is one of the nodes.
pub proof fn lemma_matches_are_nodes<'a>(nodes: Seq<Option<ElementRef<'a>>>, selector: Seq<char>)
    ensures
        forall|k: int|
            0 <= k < matches_in_order(nodes, selector).len() ==> exists|i: int|
                0 <= i < nodes.len() && nodes[i] == Some(#[trigger] matches_in_order(nodes, selector)[k]),
    decreases nodes.len(),
{
    if nodes.len() > 0 {
        let before = nodes.drop_last();
        lemma_matches_are_nodes(before, selector);
        let m = matches_in_order(nodes, selector);
        assert forall|k: int| 0 <= k < m.len() implies exists|i: int|
            0 <= i < nodes.len() && nodes[i] == Some(#[trigger] m[k]) by {
            if k < matches_in_order(before, selector).len() {
                let i = choose|i: int|
                    0 <= i < before.len() && before[i] == Some(matches_in_order(before, selector)[k]);
                assert(nodes[i] == before[i]);
            } else {
                assert(nodes[nodes.len() - 1] == Some(m[k]));
            }
        }
    }
}

/// Where the elements among the nodes are distinct, each match comes once.
pub proof fn lemma_matches_distinct<'a>(nodes: Seq<Option<ElementRef<'a>>>, selector: Seq<char>)
    requires
        forall|i: int, j: int|
            0 <= i < nodes.len() && 0 <= j < nodes.len() && i != j && nodes[i] is Some
                && nodes[j] is Some ==> nodes[i] != nodes[j],
    ensures
        matches_in_order(nodes, selector).no_duplicates(),
    decreases nodes.len(),
{
    if nodes.len() > 0 {
        let before = nodes.drop_last();
        lemma_matches_distinct(before, selector);
        lemma_matches_are_nodes(before, selector);
        let earlier = matches_in_order(before, selector);
        match nodes.last() {
            Some(e) => {
                if selects(selector, e) {
                    assert forall|k: int| 0 <= k < earlier.len() implies earlier[k] != e by {
                        let i = choose|i: int| 0 <= i < before.len() && before[i] == Some(#[trigger] earlier[k]);
                        assert(nodes[i] != nodes[nodes.len() - 1]);
                    }
                    let m = earlier.push(e);
                    assert forall|a: int, b: int| 0 <= a < m.len() && 0 <= b < m.len() && a != b
                        implies m[a] != m[b] by {
                        if a < earlier.len() && b < earlier.len() {
                        } else if a < earlier.len() {
                            assert(m[b] == e);
                        } else {
                            assert(m[a] == e);
                        }
                    }
                }
            },
            None => {},
        }
    }
}

/// The elements of `html` that `selector` matches, each once, in document
/// order; or the selector's text where it is not valid.
pub fn apply_css_selector<'a>(html: &'a Html, selector: &str) -> (r: Result<
    Vec<ElementRef<'a>>,
    CustomError,
>)
    requires
        nesting_bounded(selector@),
    ensures
        r is Ok <==> valid_selector(selector@),
        r is Ok ==> r->Ok_0@ == matches_in_order(preorder_nodes(html), selector@),
        r is Ok ==> r->Ok_0@.no_duplicates(),
        r is Err ==> (r matches Err(CustomError::SelectorSyntax(s)) && s@ == selector@),
{
    match compile_selector(selector) {
        Some(compiled) => {
            let nodes = document_nodes(html);
            let mut found: Vec<ElementRef<'a>> = Vec::new();
            for k in 0..nodes.len()
                invariant
                    compiled@ == selector@,
                    nesting_bounded(selector@),
                    found@ == matches_in_order(nodes@.subrange(0, k as int), selector@),
            {
                proof {
                    assert(nodes@.subrange(0, k + 1).drop_last() == nodes@.subrange(0, k as int));
                }
                match &nodes[k] {
                    Some(element) => {
                        if element_matches(&compiled, element) {
                            found.push(*element);
                        }
                    },
                    None => {},
                }
            }
            proof {
                assert(nodes@.subrange(0, nodes.len() as int) == nodes@);
                lemma_matches_distinct(nodes@, selector@);
            }
            Ok(found)
        },
        None => Err(CustomError::SelectorSyntax(selector.to_owned())),
    }
}

/// The markup of each element, in the order given.
pub fn serialize_elements(elements: &[ElementRef]) -> (r: Vec<String>)
    ensures
        r.len() == elements.len(),
        forall|k: int| 0 <= k < r.len() ==> r[k]@ == markup(elements[k]),
{
    let mut lines: Vec<String> = Vec::new();
    for k in 0..elements.len()
        invariant
            lines.len() == k,
            forall|i: int| 0 <= i < k ==> lines[i]@ == markup(elements[i]),
    {
        lines.push(element_markup(&elements[k]));
    }
    lines
}

/// Each line followed by a newline, in order.
pub open spec fn lines_text(lines: Seq<String>) -> Seq<char>
    decreases lines.len(),
{
    if lines.len() == 0 {
        Seq::empty()
    } else {
        lines_text(lines.drop_last()) + lines.last()@ + seq!['\n']
    }
}

/// The output of a run: each line on a line of its own.
pub fn output_text(lines: &Vec<String>) -> (r: String)
    ensures
        r@ == lines_text(lines@),
{
    let mut out = String::new();
    let newline = "\n";
    proof {
        reveal_strlit("\n");
    }
    for k in 0..lines.len()
        invariant
            newline@ == seq!['\n'],
            out@ == lines_text(lines@.subrange(0, k as int)),
    {
        out.append(lines[k].as_str());
        out.append(newline);
        proof {
            assert(lines@.subrange(0, k + 1).drop_last() == lines@.subrange(0, k as int));
        }
    }
    proof {
        assert(lines@.subrange(0, lines.len() as int) == lines@);
    }
    out
}

} // verus!
