//! The blob renderer: turns a resolved blob into a display representation —
//! raw pass-through, a binary stub, rendered markdown, or a line-numbered
//! text listing.

use vstd::prelude::*;
use crate::store::BlobData;
use crate::text;

verus! {

/// The text that lossy UTF-8 decoding yields for given bytes. Named; the
/// decoding depends on the bytes alone.
pub uninterp spec fn lossy_chars(bytes: Seq<u8>) -> Seq<char>;

/// Relies on std's `String::from_utf8_lossy`.
#[verifier::external_body]
pub fn lossy_text(bytes: &Vec<u8>) -> (r: String)
    ensures
        r@ == lossy_chars(bytes@),
{
    String::from_utf8_lossy(bytes.as_slice()).into_owned()
}

/// The GitHub-flavored-markdown rendering of a text. Named; the rendering
/// depends on the input text alone.
pub uninterp spec fn gfm_html(s: Seq<char>) -> Seq<char>;

/// Relies on `markdown::to_html_with_options` with `markdown::Options::gfm`.
#[verifier::external_body]
fn render_gfm(s: &str) -> (r: Option<String>)
    ensures
        r matches Some(h) ==> h@ == gfm_html(s@),
{
    markdown::to_html_with_options(s, &markdown::Options::gfm()).ok()
}

/// The human-readable form of a byte count, decimal units, no decimal
/// places. Named; it depends on the count alone.
pub uninterp spec fn human_size(n: usize) -> Seq<char>;

/// Relies on `humansize::format_size` with `humansize::DECIMAL` at zero
/// decimal places.
#[verifier::external_body]
pub fn format_size_decimal(n: usize) -> (r: String)
    ensures
        r@ == human_size(n),
{
    humansize::format_size(n, humansize::DECIMAL.decimal_places(0))
}

/// The GFM HTML of stored bytes; when rendering fails, the decoded text
/// itself, unrendered.
pub fn render_markdown(bytes: &Vec<u8>) -> (r: String)
    ensures
        r@ == gfm_html(lossy_chars(bytes@)) || r@ == lossy_chars(bytes@),
{
    let t = lossy_text(bytes);
    match render_gfm(t.as_str()) {
        Some(h) => h,
        None => t,
    }
}

/// One line of a text listing: its 1-based anchor number and its text.
#[derive(Debug, Clone)]
pub struct TextLine {
    pub number: usize,
    pub text: String,
}

/// Whether a file name marks markdown content.
pub open spec fn markdown_name(s: Seq<char>) -> bool {
    text::is_suffix(".md"@, s) || text::is_suffix(".markdown"@, s)
}

/// Whether numbered lines present exactly the given texts, numbered from 1
/// in order.
pub open spec fn lines_match(lines: Seq<TextLine>, texts: Seq<Seq<char>>) -> bool {
    lines.len() == texts.len() && forall|i: int|
        0 <= i < lines.len() ==> (#[trigger] lines[i]).number == i + 1 && lines[i].text@
            == texts[i]
}

/// Numbers decoded lines from 1, preserving their order.
fn number_lines(texts: Vec<String>) -> (r: Vec<TextLine>)
    ensures
        lines_match(r@, text::views_of(texts@)),
{
    let mut out: Vec<TextLine> = Vec::new();
    let mut i: usize = 0;
    while i < texts.len()
        invariant
            i <= texts@.len(),
            out@.len() == i,
            forall|j: int|
                0 <= j < i ==> (#[trigger] out@[j]).number == j + 1 && out@[j].text@
                    == texts@[j]@,
        decreases texts@.len() - i,
    {
        let t = texts[i].clone();
        out.push(TextLine { number: i + 1, text: t });
        i += 1;
    }
    out
}

/// A blob prepared for display.
#[derive(Debug, Clone)]
pub enum RenderedBlob {
    /// The stored bytes, byte for byte, to be served as
    /// `application/octet-stream` under a content-disposition hint
    /// carrying `filename`.
    Raw { filename: String, bytes: Vec<u8> },
    /// A minimal stub for a binary blob: its name and human-readable
    /// size; following the raw link repeats the request with raw
    /// pass-through.
    BinaryStub { filename: String, size: String },
    /// Markdown content rendered to HTML.
    Markdown { html: String },
    /// A line-numbered text listing with the blob's human-readable size.
    Text { lines: Vec<TextLine>, size: String },
}

/// Renders a blob: binary content passes through raw when requested and
/// collapses to a stub otherwise; markdown files render to HTML; any
/// other text becomes an anchorable, line-numbered listing.
pub fn render(blob: BlobData, filename: &str, raw_requested: bool) -> (r: RenderedBlob)
    ensures
        blob.is_binary && raw_requested ==> (r matches RenderedBlob::Raw {
            filename: f,
            bytes,
        } && f@ == filename@ && bytes@ == blob.bytes@),
        blob.is_binary && !raw_requested ==> (r matches RenderedBlob::BinaryStub {
            filename: f,
            size,
        } && f@ == filename@ && size@ == human_size(blob.bytes@.len() as usize)),
        !blob.is_binary && markdown_name(filename@) ==> (r matches RenderedBlob::Markdown {
            html,
        } && (html@ == gfm_html(lossy_chars(blob.bytes@)) || html@ == lossy_chars(blob.bytes@))),
        !blob.is_binary && !markdown_name(filename@) ==> (r matches RenderedBlob::Text {
            lines,
            size,
        } && lines_match(lines@, text::spec_lines(lossy_chars(blob.bytes@))) && size@
            == human_size(blob.bytes@.len() as usize)),
{
    if blob.is_binary {
        if raw_requested {
            let f = filename.to_owned();
            return RenderedBlob::Raw { filename: f, bytes: blob.bytes };
        }
        let size = format_size_decimal(blob.bytes.len());
        let f = filename.to_owned();
        return RenderedBlob::BinaryStub { filename: f, size };
    }
    let is_md = text::ends_with_str(filename, ".md") || text::ends_with_str(filename, ".markdown");
    if is_md {
        let html = render_markdown(&blob.bytes);
        return RenderedBlob::Markdown { html };
    }
    let size = format_size_decimal(blob.bytes.len());
    let t = lossy_text(&blob.bytes);
    let lines = text::split_lines(t.as_str());
    RenderedBlob::Text { lines: number_lines(lines), size }
}

} // verus!
