//! The markdown collaborator: conversion of a document body to HTML goes
//! through comrak behind one trusted wrapper whose result is named.

use vstd::prelude::*;

verus! {

/// The HTML that the markdown engine produces for a document body, under
/// the fixed option set this library always passes it.
pub uninterp spec fn html_of(md: Seq<char>) -> Seq<char>;

/// Relies on comrak::markdown_to_html: a pure function of the input text
/// and the options, which are fixed here (frontmatter skipping, raw HTML
/// passed through, plus the table, autolink, tasklist, footnote,
/// strikethrough and description-list extensions), so the result depends
/// on the input text alone.
#[verifier::external_body]
pub(crate) fn markdown_html(markdown: &str) -> (r: String)
    ensures
        r@ == html_of(markdown@),
{
    let mut options = comrak::Options::default();
    options.extension.front_matter_delimiter = Some("---".to_owned());
    options.render.unsafe_ = true;
    options.extension.table = true;
    options.extension.autolink = true;
    options.extension.tasklist = true;
    options.extension.footnotes = true;
    options.extension.strikethrough = true;
    options.extension.description_lists = true;
    comrak::markdown_to_html(markdown, &options)
}

} // verus!
