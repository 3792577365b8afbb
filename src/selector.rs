//! Compiled selector groups, kept together with the text they came from.
//!
//! Parsing and matching are recursive in the nesting of the selector: a text
//! that opens more brackets than `MAX_SELECTOR_BRACKETS` is not compiled.

use scraper::{ElementRef, Selector};
use vstd::prelude::*;

verus! {

#[verifier::external_type_specification]
#[verifier::external_body]
pub struct ExSelector(scraper::Selector);

/// The most brackets a selector text may open. Each block that the selector
/// parser enters starts with one of them, so this bounds how deeply a
/// selector nests.
pub const MAX_SELECTOR_BRACKETS: usize = 32;

pub open spec fn is_opening_bracket(c: char) -> bool {
    c == '(' || c == '[' || c == '{'
}

/// How many opening brackets `s` holds.
pub open spec fn bracket_count(s: Seq<char>) -> nat
    decreases s.len(),
{
    if s.len() == 0 {
        0
    } else {
        bracket_count(s.drop_last()) + if is_opening_bracket(s.last()) {
            1nat
        } else {
            0nat
        }
    }
}

/// Whether `s` nests shallowly enough to be compiled and matched.
pub open spec fn nesting_bounded(s: Seq<char>) -> bool {
    bracket_count(s) <= MAX_SELECTOR_BRACKETS
}

/// Whether `selector` is a selector group that `scraper::Selector::parse` accepts.
pub uninterp spec fn valid_selector(selector: Seq<char>) -> bool;

/// Whether `element`, within its document, matches the selector group written
/// `selector`.
pub uninterp spec fn selects(selector: Seq<char>, element: ElementRef) -> bool;

/// A selector group, compiled from its text. Only `compile_selector` builds one.
pub struct CompiledSelector {
    text: String,
    compiled: Selector,
}

impl View for CompiledSelector {
    type V = Seq<char>;

    closed spec fn view(&self) -> Seq<char> {
        self.text@
    }
}

/// Relies on `scraper::Selector::parse`: it succeeds exactly on the valid
/// selector groups. The text is kept beside the result.
#[verifier::external_body]
pub fn compile_selector(selector: &str) -> (r: Option<CompiledSelector>)
    requires
        nesting_bounded(selector@),
    ensures
        r is Some <==> valid_selector(selector@),
        r is Some ==> r->Some_0@ == selector@,
{
    match Selector::parse(selector) {
        Ok(compiled) => Some(CompiledSelector { text: selector.to_owned(), compiled }),
        Err(_) => None,
    }
}

/// Relies on `scraper::Selector::matches`: whether the element, within its
/// document, matches one of the selectors of the group.
#[verifier::external_body]
pub fn element_matches(selector: &CompiledSelector, element: &ElementRef) -> (r: bool)
    requires
        nesting_bounded(selector@),
    ensures
        r == selects(selector@, *element),
{
    selector.compiled.matches(element)
}

/// Whether `selector` opens at most `MAX_SELECTOR_BRACKETS` brackets.
pub fn selector_nesting_bounded(selector: &str) -> (r: bool)
    ensures
        r == nesting_bounded(selector@),
{
    let mut count: usize = 0;
    for c in it: selector.chars()
        invariant
            it.seq() == selector@,
            count <= MAX_SELECTOR_BRACKETS + 1,
            count == if bracket_count(selector@.subrange(0, it.index() as int))
                <= MAX_SELECTOR_BRACKETS {
                bracket_count(selector@.subrange(0, it.index() as int))
            } else {
                MAX_SELECTOR_BRACKETS as nat + 1
            },
    {
        proof {
            let k = it.index() as int;
            assert(selector@.subrange(0, k + 1).drop_last() == selector@.subrange(0, k));
        }
        if (c == '(' || c == '[' || c == '{') && count <= MAX_SELECTOR_BRACKETS {
            count = count + 1;
        }
    }
    proof {
        assert(selector@.subrange(0, selector@.len() as int) == selector@);
    }
    count <= MAX_SELECTOR_BRACKETS
}

} // verus!
