//! Gemtext documents: parsing text into elements and rendering them as HTML.
//!
//! A document is read line by line. The first characters of a line decide
//! what it is; the text after the marker is kept exactly as written, leading
//! spaces included. Only link lines are taken apart further. A link is held
//! target first, label second.

use vstd::prelude::*;
use vstd::string::*;
use vstd::utf8::encode_utf8;

use crate::gemini::error::{view_result, Error, ErrorView};
use crate::gemini::text::{
    chars_of, decimal, decimal_string, find_whitespace, find_whitespace_at, is_plain_line,
    is_whitespace, joined, lemma_find_whitespace, lemma_lines_hold_no_newline,
    lemma_lines_of_joined, lemma_lines_of_terminated, lemma_pieces_of_joined,
    lemma_skip_whitespace, lines, lines_view, pieces, push_chars, skip_whitespace,
    skip_whitespace_at, split_lines, string_of, terminated,
};

verus! {

/// A gemtext document, element by element in source order.
#[derive(Debug, PartialEq)]
pub struct Gemtext {
    /// The elements of the document.
    pub elements: Vec<Element>,
}

/// One element of a gemtext document.
#[derive(Debug, PartialEq)]
pub enum Element {
    /// Text without any marker, to be treated like a paragraph.
    Text(String),
    /// A link: where it goes to, then the text to display for it.
    Link(String, String),
    /// A heading.
    Heading(String),
    /// A sub-heading.
    Subheading(String),
    /// A sub-sub-heading.
    Subsubheading(String),
    /// The items of a run of consecutive list lines, in source order.
    UnorderedList(Vec<String>),
    /// A quoted line.
    BlockQuote(String),
    /// A preformatted block: the alt text of the opening fence, then the
    /// lines of the block, joined by line feeds.
    Preformatted(String, String),
}

/// [`Element`] with its strings as character sequences.
pub enum ElementView {
    Text(Seq<char>),
    Link(Seq<char>, Seq<char>),
    Heading(Seq<char>),
    Subheading(Seq<char>),
    Subsubheading(Seq<char>),
    UnorderedList(Seq<Seq<char>>),
    BlockQuote(Seq<char>),
    Preformatted(Seq<char>, Seq<char>),
}

/// The views of a sequence of strings.
pub open spec fn strings_view(v: Seq<String>) -> Seq<Seq<char>> {
    v.map_values(|s: String| s@)
}

/// The views of a sequence of elements.
pub open spec fn elements_view(v: Seq<Element>) -> Seq<ElementView> {
    v.map_values(|e: Element| e@)
}

impl View for Element {
    type V = ElementView;

    open spec fn view(&self) -> ElementView {
        match self {
            Element::Text(text) => ElementView::Text(text@),
            Element::Link(target, label) => ElementView::Link(target@, label@),
            Element::Heading(text) => ElementView::Heading(text@),
            Element::Subheading(text) => ElementView::Subheading(text@),
            Element::Subsubheading(text) => ElementView::Subsubheading(text@),
            Element::UnorderedList(items) => ElementView::UnorderedList(strings_view(items@)),
            Element::BlockQuote(text) => ElementView::BlockQuote(text@),
            Element::Preformatted(alt, block) => ElementView::Preformatted(alt@, block@),
        }
    }
}

impl View for Gemtext {
    type V = Seq<ElementView>;

    open spec fn view(&self) -> Seq<ElementView> {
        elements_view(self.elements@)
    }
}

/// A line that opens or closes a preformatted block: it starts with three
/// backticks.
pub open spec fn is_fence_line(line: Seq<char>) -> bool {
    line.len() >= 3 && line[0] == '`' && line[1] == '`' && line[2] == '`'
}

/// A line that starts with `=>`.
pub open spec fn is_link_line(line: Seq<char>) -> bool {
    line.len() >= 2 && line[0] == '=' && line[1] == '>'
}

/// How many `#` start the line, counted up to three.
pub open spec fn heading_level(line: Seq<char>) -> nat {
    if line.len() >= 1 && line[0] == '#' {
        if line.len() >= 2 && line[1] == '#' {
            if line.len() >= 3 && line[2] == '#' {
                3
            } else {
                2
            }
        } else {
            1
        }
    } else {
        0
    }
}

/// A line that starts with `*`.
pub open spec fn is_list_line(line: Seq<char>) -> bool {
    line.len() >= 1 && line[0] == '*'
}

/// A line that starts with `>`.
pub open spec fn is_quote_line(line: Seq<char>) -> bool {
    line.len() >= 1 && line[0] == '>'
}

/// The link that a link line holds, or `None` where only whitespace follows
/// the marker. The target is the first run of characters that are not
/// whitespace. The label is what follows the whitespace after the target; a
/// line without that whitespace has its target as its label.
pub open spec fn link_of(line: Seq<char>) -> Option<ElementView> {
    let start = skip_whitespace(line, 2);
    let stop = find_whitespace(line, start);
    if start >= line.len() {
        None
    } else if stop < line.len() {
        Some(ElementView::Link(line.subrange(start, stop), line.skip(skip_whitespace(line, stop))))
    } else {
        Some(ElementView::Link(line.skip(start), line.skip(start)))
    }
}

/// Index of the first line at or after `from` that is not a list line, or
/// `lines.len()` if there is none.
pub open spec fn list_end(lines: Seq<Seq<char>>, from: int) -> int
    decreases lines.len() - from,
{
    if 0 <= from < lines.len() && is_list_line(lines[from]) {
        list_end(lines, from + 1)
    } else {
        from
    }
}

/// Index of the first fence line at or after `from`, or `lines.len()` if
/// there is none.
pub open spec fn fence_end(lines: Seq<Seq<char>>, from: int) -> int
    decreases lines.len() - from,
{
    if 0 <= from < lines.len() && !is_fence_line(lines[from]) {
        fence_end(lines, from + 1)
    } else {
        from
    }
}

/// The items of the list lines `lines[from..to]`: each line without its
/// marker.
pub open spec fn list_items(lines: Seq<Seq<char>>, from: int, to: int) -> Seq<Seq<char>> {
    Seq::new((to - from) as nat, |k: int| lines[from + k].skip(1))
}

/// The element that begins at line `at`, with the index of the first line
/// after it; `None` where line `at` is a link line without a target.
///
/// A fence line opens a preformatted block that runs up to the next fence
/// line, which belongs to the block and yields nothing, or to the end of the
/// document. A list line opens a list that takes every list line that
/// follows directly.
pub open spec fn element_at(lines: Seq<Seq<char>>, at: int) -> Option<(ElementView, int)> {
    let line = lines[at];
    if is_fence_line(line) {
        let end = fence_end(lines, at + 1);
        let after = if end < lines.len() {
            end + 1
        } else {
            end
        };
        let block = joined(lines.subrange(at + 1, end));
        Some((ElementView::Preformatted(line.skip(3), block), after))
    } else if is_link_line(line) {
        match link_of(line) {
            Some(link) => Some((link, at + 1)),
            None => None,
        }
    } else if heading_level(line) == 3 {
        Some((ElementView::Subsubheading(line.skip(3)), at + 1))
    } else if heading_level(line) == 2 {
        Some((ElementView::Subheading(line.skip(2)), at + 1))
    } else if heading_level(line) == 1 {
        Some((ElementView::Heading(line.skip(1)), at + 1))
    } else if is_list_line(line) {
        let end = list_end(lines, at);
        Some((ElementView::UnorderedList(list_items(lines, at, end)), end))
    } else if is_quote_line(line) {
        Some((ElementView::BlockQuote(line.skip(1)), at + 1))
    } else {
        Some((ElementView::Text(line), at + 1))
    }
}

/// The message of the error for a link line without a target. `number`
/// counts lines from one.
pub open spec fn link_error(number: int) -> Seq<char> {
    "Invalid link format, there must be something after =>. Line #"@ + decimal(number as nat)
        + ": "@
}

/// `elements` in front of what `rest` holds, or the error of `rest`.
pub open spec fn prepend(elements: Seq<ElementView>, rest: Result<Seq<ElementView>, ErrorView>)
    -> Result<Seq<ElementView>, ErrorView> {
    match rest {
        Ok(tail) => Ok(elements + tail),
        Err(error) => Err(error),
    }
}

/// Putting elements in front one by one, or all at once, comes to the same.
proof fn lemma_prepend_one(
    elements: Seq<ElementView>,
    element: ElementView,
    rest: Result<Seq<ElementView>, ErrorView>,
)
    ensures
        prepend(elements, prepend(seq![element], rest)) == prepend(elements + seq![element], rest),
{
    if let Ok(tail) = rest {
        assert(elements + (seq![element] + tail) == elements + seq![element] + tail);
    }
}

/// `list_end` passes over list lines only and stops at the first line that
/// is none.
pub proof fn lemma_list_end(lines: Seq<Seq<char>>, from: int)
    requires
        0 <= from <= lines.len(),
    ensures
        from <= list_end(lines, from) <= lines.len(),
        forall|k: int| from <= k < list_end(lines, from) ==> is_list_line(#[trigger] lines[k]),
        list_end(lines, from) < lines.len() ==> !is_list_line(lines[list_end(lines, from)]),
    decreases lines.len() - from,
{
    if from < lines.len() && is_list_line(lines[from]) {
        lemma_list_end(lines, from + 1);
    }
}

/// `fence_end` passes over no fence line and stops at the first one.
pub proof fn lemma_fence_end(lines: Seq<Seq<char>>, from: int)
    requires
        0 <= from <= lines.len(),
    ensures
        from <= fence_end(lines, from) <= lines.len(),
        forall|k: int| from <= k < fence_end(lines, from) ==> !is_fence_line(#[trigger] lines[k]),
        fence_end(lines, from) < lines.len() ==> is_fence_line(lines[fence_end(lines, from)]),
    decreases lines.len() - from,
{
    if from < lines.len() && !is_fence_line(lines[from]) {
        lemma_fence_end(lines, from + 1);
    }
}

/// Every element takes at least one line and none beyond the last.
pub proof fn lemma_element_advances(lines: Seq<Seq<char>>, at: int)
    requires
        0 <= at < lines.len(),
    ensures
        element_at(lines, at) matches Some((_, after)) ==> at < after <= lines.len(),
{
    lemma_fence_end(lines, at + 1);
    lemma_list_end(lines, at);
}

/// The elements of the lines from `at` on, or the error for the first link
/// line without a target that is met on the way.
pub open spec fn parse_from(lines: Seq<Seq<char>>, at: int) -> Result<Seq<ElementView>, ErrorView>
    decreases lines.len() - at,
    via parse_from_terminates
{
    if 0 <= at < lines.len() {
        match element_at(lines, at) {
            Some((element, after)) => prepend(seq![element], parse_from(lines, after)),
            None => Err(ErrorView::GemtextFormat(link_error(at + 1))),
        }
    } else {
        Ok(Seq::empty())
    }
}

#[via_fn]
proof fn parse_from_terminates(lines: Seq<Seq<char>>, at: int) {
    if 0 <= at < lines.len() {
        lemma_element_advances(lines, at);
    }
}

/// What a gemtext document parses to.
pub open spec fn parse_document(text: Seq<char>) -> Result<Seq<ElementView>, ErrorView> {
    parse_from(lines(text), 0)
}

/// The first line at or after `from` that is not a list line is found by
/// `list_end`.
proof fn lemma_list_end_is(lines: Seq<Seq<char>>, from: int, end: int)
    requires
        0 <= from <= end <= lines.len(),
        forall|k: int| from <= k < end ==> is_list_line(#[trigger] lines[k]),
        end == lines.len() || !is_list_line(lines[end]),
    ensures
        list_end(lines, from) == end,
    decreases end - from,
{
    if from < end {
        lemma_list_end_is(lines, from + 1, end);
    }
}

/// The first fence line at or after `from` is found by `fence_end`.
proof fn lemma_fence_end_is(lines: Seq<Seq<char>>, from: int, end: int)
    requires
        0 <= from <= end <= lines.len(),
        forall|k: int| from <= k < end ==> !is_fence_line(#[trigger] lines[k]),
        end == lines.len() || is_fence_line(lines[end]),
    ensures
        fence_end(lines, from) == end,
    decreases end - from,
{
    if from < end {
        lemma_fence_end_is(lines, from + 1, end);
    }
}

/// List lines coalesce. Where `count` list lines stand one after another
/// from line `at` on, and the line after them, if there is one, is no list
/// line, they yield exactly one list, which holds the `count` lines without
/// their markers in source order; the line after them begins the next
/// element.
pub proof fn lemma_list_coalesces(lines: Seq<Seq<char>>, at: int, count: int)
    requires
        0 <= at,
        1 <= count,
        at + count <= lines.len(),
        forall|k: int| at <= k < at + count ==> is_list_line(#[trigger] lines[k]),
        at + count == lines.len() || !is_list_line(lines[at + count]),
    ensures
        parse_from(lines, at) == prepend(
            seq![
                ElementView::UnorderedList(
                    Seq::new(count as nat, |k: int| lines[at + k].skip(1)),
                ),
            ],
            parse_from(lines, at + count),
        ),
{
    lemma_list_end_is(lines, at, at + count);
}

/// A preformatted block keeps its lines. Where line `at` is a fence line,
/// the `count` lines after it are none, and the line after those, if there
/// is one, is a fence line again, the block yields exactly one element. It
/// holds what follows the opening fence on its line as alt text, and the
/// `count` lines, joined by line feeds, as block text. The closing fence
/// yields no element: the next element begins on the line after it.
pub proof fn lemma_preformatted_block(lines: Seq<Seq<char>>, at: int, count: int)
    requires
        0 <= at < lines.len(),
        0 <= count,
        at + 1 + count <= lines.len(),
        is_fence_line(lines[at]),
        forall|k: int| at < k <= at + count ==> !is_fence_line(#[trigger] lines[k]),
        at + 1 + count == lines.len() || is_fence_line(lines[at + 1 + count]),
    ensures
        parse_from(lines, at) == prepend(
            seq![
                ElementView::Preformatted(
                    lines[at].skip(3),
                    joined(lines.subrange(at + 1, at + 1 + count)),
                ),
            ],
            parse_from(
                lines,
                if at + 1 + count < lines.len() {
                    at + count + 2
                } else {
                    at + count + 1
                },
            ),
        ),
{
    lemma_fence_end_is(lines, at + 1, at + 1 + count);
}

/// The shape of a link line. Where nothing but whitespace follows the
/// marker, the line holds no link. Otherwise whitespace may follow the
/// marker, and then comes the target, which is not empty and holds no
/// whitespace. Where the line ends with the target, the label is the target.
/// Where it goes on, whitespace follows the target, and the label is what
/// follows that whitespace up to the end of the line; it does not begin
/// with whitespace, and it is empty where the whitespace runs to the end.
pub proof fn lemma_link_shape(line: Seq<char>)
    requires
        is_link_line(line),
    ensures
        match link_of(line) {
            None => forall|k: int| 2 <= k < line.len() ==> is_whitespace(#[trigger] line[k]),
            Some(ElementView::Link(target, label)) => {
                let start = skip_whitespace(line, 2);
                let stop = start + target.len();
                let rest = line.len() - label.len();
                &&& 2 <= start < stop <= line.len()
                &&& forall|k: int| 2 <= k < start ==> is_whitespace(#[trigger] line[k])
                &&& target == line.subrange(start, stop)
                &&& forall|k: int| 0 <= k < target.len() ==> !is_whitespace(#[trigger] target[k])
                &&& stop == line.len() ==> label == target
                &&& stop < line.len() ==> {
                    &&& stop < rest <= line.len()
                    &&& forall|k: int| stop <= k < rest ==> is_whitespace(#[trigger] line[k])
                    &&& label == line.skip(rest)
                    &&& label.len() > 0 ==> !is_whitespace(label[0])
                }
            },
            Some(_) => false,
        },
{
    let start = skip_whitespace(line, 2);
    lemma_skip_whitespace(line, 2);
    if start < line.len() {
        let stop = find_whitespace(line, start);
        lemma_find_whitespace(line, start);
        assert(line.skip(start) == line.subrange(start, line.len() as int));
        if stop < line.len() {
            lemma_skip_whitespace(line, stop);
        }
    }
}

/// A document that is written line by line parses as its lines do, provided
/// that each line is plain.
pub proof fn lemma_document_of_lines(all: Seq<Seq<char>>)
    requires
        forall|k: int| 0 <= k < all.len() ==> is_plain_line(#[trigger] all[k]),
    ensures
        parse_document(terminated(all)) == parse_from(all, 0),
{
    lemma_lines_of_terminated(all);
}

/// A document of nothing but list lines is one list. The list holds as many
/// items as the document has lines, in source order, each the line without
/// its marker.
pub proof fn lemma_list_document(items: Seq<Seq<char>>)
    requires
        items.len() >= 1,
        forall|k: int| 0 <= k < items.len() ==> is_plain_line(#[trigger] items[k]),
    ensures
        parse_document(terminated(Seq::new(items.len(), |k: int| seq!['*'] + items[k]))) == Ok::<
            Seq<ElementView>,
            ErrorView,
        >(seq![ElementView::UnorderedList(items)]),
{
    let all = Seq::new(items.len(), |k: int| seq!['*'] + items[k]);
    assert forall|k: int| 0 <= k < all.len() implies is_plain_line(#[trigger] all[k]) by {}
    lemma_document_of_lines(all);
    assert forall|k: int| 0 <= k < all.len() implies is_list_line(#[trigger] all[k]) by {}
    lemma_list_coalesces(all, 0, all.len() as int);
    assert(Seq::new(all.len(), |k: int| all[0 + k].skip(1)) == items) by {
        assert forall|k: int| 0 <= k < items.len() implies all[0 + k].skip(1) == items[k] by {}
    }
}

/// A document of one preformatted block is one element. Between an opening
/// fence with its alt text and a closing fence stand the lines of `body`,
/// none of them a fence line. The element holds the alt text, and the lines
/// of `body` joined by line feeds: one line feed between neighbours, none
/// after the last. The closing fence adds nothing, whether a line feed
/// follows it or the document ends with it.
pub proof fn lemma_preformatted_document(alt: Seq<char>, body: Seq<Seq<char>>)
    requires
        is_plain_line(alt),
        forall|k: int| 0 <= k < body.len() ==> is_plain_line(#[trigger] body[k]),
        forall|k: int| 0 <= k < body.len() ==> !is_fence_line(#[trigger] body[k]),
    ensures
        parse_document(
            joined(seq![seq!['`', '`', '`'] + alt] + body + seq![seq!['`', '`', '`']]),
        ) == Ok::<Seq<ElementView>, ErrorView>(seq![ElementView::Preformatted(alt, joined(body))]),
        parse_document(
            terminated(seq![seq!['`', '`', '`'] + alt] + body + seq![seq!['`', '`', '`']]),
        ) == Ok::<Seq<ElementView>, ErrorView>(seq![ElementView::Preformatted(alt, joined(body))]),
{
    let fence = seq!['`', '`', '`'];
    let all = seq![fence + alt] + body + seq![fence];
    let count = body.len() as int;
    assert forall|k: int| 0 < k <= count implies all[k] == body[k - 1] by {}
    assert forall|k: int| 0 <= k < all.len() implies is_plain_line(#[trigger] all[k]) by {}
    assert(all.last() == fence);
    lemma_document_of_lines(all);
    lemma_lines_of_joined(all);
    assert forall|k: int| 0 < k <= 0 + count implies !is_fence_line(#[trigger] all[k]) by {}
    lemma_preformatted_block(all, 0, count);
    assert(all[0].skip(3) == alt);
    assert(all.subrange(1, 1 + count) == body);
}

/// The text of a preformatted block gives its lines back. Where a block of
/// a document has at least one line, splitting its text at every line feed
/// gives exactly the lines of the block, in order, empty ones too, and
/// nothing after the last.
pub proof fn lemma_block_keeps_lines(text: Seq<char>, at: int)
    requires
        0 <= at < lines(text).len(),
        is_fence_line(lines(text)[at]),
        fence_end(lines(text), at + 1) > at + 1,
    ensures
        element_at(lines(text), at) matches Some((ElementView::Preformatted(_, block), _))
            && pieces(block) == lines(text).subrange(at + 1, fence_end(lines(text), at + 1)),
{
    let all = lines(text);
    lemma_fence_end(all, at + 1);
    lemma_lines_hold_no_newline(text, 0);
    lemma_pieces_of_joined(all.subrange(at + 1, fence_end(all, at + 1)));
}

/// A document parses unless it holds a link line without a target: where
/// every link line from `at` on has a target, the lines from `at` on parse.
pub proof fn lemma_parse_succeeds(lines: Seq<Seq<char>>, at: int)
    requires
        0 <= at,
        forall|k: int|
            at <= k < lines.len() && is_link_line(#[trigger] lines[k]) ==> link_of(lines[k])
                is Some,
    ensures
        parse_from(lines, at) is Ok,
    decreases lines.len() - at,
{
    if at < lines.len() {
        lemma_element_advances(lines, at);
        if let Some((_, after)) = element_at(lines, at) {
            lemma_parse_succeeds(lines, after);
        }
    }
}

/// A document fails only at a link line without a target, and the error
/// names that line, counting from one.
pub proof fn lemma_parse_fails_at_link(lines: Seq<Seq<char>>, at: int)
    requires
        0 <= at,
        parse_from(lines, at) is Err,
    ensures
        exists|k: int|
            at <= k < lines.len() && is_link_line(#[trigger] lines[k]) && link_of(lines[k])
                is None && parse_from(lines, at) == Err::<Seq<ElementView>, ErrorView>(
                ErrorView::GemtextFormat(link_error(k + 1)),
            ),
    decreases lines.len() - at,
{
    lemma_element_advances(lines, at);
    match element_at(lines, at) {
        Some((_, after)) => {
            lemma_parse_fails_at_link(lines, after);
            let k = choose|k: int|
                after <= k < lines.len() && is_link_line(#[trigger] lines[k]) && link_of(lines[k])
                    is None && parse_from(lines, after) == Err::<Seq<ElementView>, ErrorView>(
                    ErrorView::GemtextFormat(link_error(k + 1)),
                );
        },
        None => {
        },
    }
}

/// The HTML of two runs of elements, one after the other, is the HTML of the
/// first followed by the HTML of the second: every element is rendered by
/// itself, in its place.
pub proof fn lemma_html_of_concat(first: Seq<ElementView>, second: Seq<ElementView>)
    ensures
        html_of(first + second) == html_of(first) + html_of(second),
    decreases second.len(),
{
    if second.len() > 0 {
        lemma_html_of_concat(first, second.drop_last());
        assert((first + second).drop_last() == first + second.drop_last());
    }
}

/// The HTML of a single element is followed by exactly one line feed.
pub proof fn lemma_html_of_one(element: ElementView)
    ensures
        html_of(seq![element]) == html_of_element(element) + "\n"@,
{
    assert(html_of(seq![element].drop_last()) == Seq::<char>::empty());
}

/// Rendering depends on nothing but the elements: two documents with the
/// same elements have the same HTML, character for character and byte for
/// byte.
pub proof fn lemma_html_is_determined(a: Gemtext, b: Gemtext)
    requires
        a@ == b@,
    ensures
        html_of(a@) == html_of(b@),
        encode_utf8(html_of(a@)) == encode_utf8(html_of(b@)),
{
}

/// The HTML of list items: one `<li>` element per item, each on its own
/// line.
pub open spec fn html_of_items(items: Seq<Seq<char>>) -> Seq<char>
    decreases items.len(),
{
    if items.len() == 0 {
        Seq::empty()
    } else {
        html_of_items(items.drop_last()) + "<li>"@ + items.last() + "</li>\n"@
    }
}

/// The HTML of one element. Text is written out as it is, without
/// escaping. The alt text of a preformatted block is not written.
pub open spec fn html_of_element(element: ElementView) -> Seq<char> {
    match element {
        ElementView::Text(text) => "<p>"@ + text + "</p>"@,
        ElementView::Link(target, label) => "<a href=\""@ + target + "\">"@ + label + "</a>"@,
        ElementView::Heading(text) => "<h1>"@ + text + "</h1>"@,
        ElementView::Subheading(text) => "<h2>"@ + text + "</h2>"@,
        ElementView::Subsubheading(text) => "<h3>"@ + text + "</h3>"@,
        ElementView::UnorderedList(items) => "<ul>\n"@ + html_of_items(items) + "</ul>"@,
        ElementView::BlockQuote(text) => "<blockquote>"@ + text + "</blockquote>"@,
        ElementView::Preformatted(_, block) => "<pre>"@ + block + "</pre>"@,
    }
}

/// The HTML of a document: the HTML of each element in order, each followed
/// by one line feed.
pub open spec fn html_of(elements: Seq<ElementView>) -> Seq<char>
    decreases elements.len(),
{
    if elements.len() == 0 {
        Seq::empty()
    } else {
        html_of(elements.drop_last()) + html_of_element(elements.last()) + "\n"@
    }
}

/// Whether the line starts with `count` copies of `marker`.
fn starts_with_run(line: &Vec<char>, marker: char, count: usize) -> (b: bool)
    ensures
        b == (line.len() >= count && forall|k: int| 0 <= k < count ==> line@[k] == marker),
{
    if line.len() < count {
        return false;
    }
    let mut k: usize = 0;
    while k < count
        invariant
            k <= count <= line.len(),
            forall|j: int| 0 <= j < k ==> line@[j] == marker,
        decreases count - k,
    {
        if line[k] != marker {
            return false;
        }
        k += 1;
    }
    true
}

/// The link of a link line, target first.
fn link_from(line: &Vec<char>) -> (r: Option<Element>)
    requires
        is_link_line(line@),
    ensures
        match r {
            Some(link) => link_of(line@) == Some(link@),
            None => link_of(line@) is None,
        },
{
    let start = skip_whitespace_at(line, 2);
    proof {
        lemma_skip_whitespace(line@, 2);
    }
    if start >= line.len() {
        return None;
    }
    let stop = find_whitespace_at(line, start);
    proof {
        lemma_find_whitespace(line@, start as int);
    }
    let target = string_of(line, start, stop);
    if stop < line.len() {
        let from = skip_whitespace_at(line, stop);
        proof {
            lemma_skip_whitespace(line@, stop as int);
        }
        let label = string_of(line, from, line.len());
        Some(Element::Link(target, label))
    } else {
        let label = target.clone();
        Some(Element::Link(target, label))
    }
}

/// The list that begins at line `at`, and the index of the first line after
/// it.
fn list_from(lines: &Vec<Vec<char>>, at: usize) -> (r: (Element, usize))
    requires
        at < lines.len(),
        is_list_line(lines@[at as int]@),
    ensures
        r.1 == list_end(lines_view(lines@), at as int),
        r.0@ == ElementView::UnorderedList(list_items(lines_view(lines@), at as int, r.1 as int)),
{
    let ghost all = lines_view(lines@);
    let mut items: Vec<String> = Vec::new();
    let mut end: usize = at;
    while end < lines.len() && starts_with_run(&lines[end], '*', 1)
        invariant
            at <= end <= lines.len(),
            all == lines_view(lines@),
            list_end(all, at as int) == list_end(all, end as int),
            strings_view(items@) == list_items(all, at as int, end as int),
        decreases lines.len() - end,
    {
        let line = &lines[end];
        let item = string_of(line, 1, line.len());
        let ghost before = strings_view(items@);
        items.push(item);
        assert(strings_view(items@) == before.push(all[end as int].skip(1)));
        end += 1;
    }
    (Element::UnorderedList(items), end)
}

/// The preformatted block that the fence at line `at` opens, and the index
/// of the first line after it.
fn block_from(lines: &Vec<Vec<char>>, at: usize) -> (r: (Element, usize))
    requires
        at < lines.len(),
        is_fence_line(lines@[at as int]@),
    ensures
        element_at(lines_view(lines@), at as int) == Some((r.0@, r.1 as int)),
{
    let ghost all = lines_view(lines@);
    let opening = &lines[at];
    let alt = string_of(opening, 3, opening.len());
    let mut block = String::new();
    let mut end: usize = at + 1;
    while end < lines.len() && !starts_with_run(&lines[end], '`', 3)
        invariant
            at < end <= lines.len(),
            all == lines_view(lines@),
            fence_end(all, at + 1) == fence_end(all, end as int),
            block@ == joined(all.subrange(at + 1, end as int)),
        decreases lines.len() - end,
    {
        let line = &lines[end];
        if end > at + 1 {
            block.push('\n');
        }
        push_chars(&mut block, line, 0, line.len());
        proof {
            let taken = all.subrange(at + 1, end + 1);
            assert(taken.drop_last() == all.subrange(at + 1, end as int));
            assert(taken.last() == line@);
            assert(line@.subrange(0, line.len() as int) == line@);
            assert(block@ == joined(taken));
        }
        end += 1;
    }
    let after = if end < lines.len() {
        end + 1
    } else {
        end
    };
    (Element::Preformatted(alt, block), after)
}

/// The element that begins at line `at`, and the index of the first line
/// after it.
fn element_from(lines: &Vec<Vec<char>>, at: usize) -> (r: Option<(Element, usize)>)
    requires
        at < lines.len(),
    ensures
        match r {
            Some((element, after)) => element_at(lines_view(lines@), at as int) == Some(
                (element@, after as int),
            ),
            None => element_at(lines_view(lines@), at as int) is None,
        },
{
    let line = &lines[at];
    assert(line@.subrange(0, line.len() as int) == line@);
    if starts_with_run(line, '`', 3) {
        Some(block_from(lines, at))
    } else if starts_with_run(line, '=', 1) && line.len() >= 2 && line[1] == '>' {
        match link_from(line) {
            Some(link) => Some((link, at + 1)),
            None => None,
        }
    } else if starts_with_run(line, '#', 3) {
        Some((Element::Subsubheading(string_of(line, 3, line.len())), at + 1))
    } else if starts_with_run(line, '#', 2) {
        Some((Element::Subheading(string_of(line, 2, line.len())), at + 1))
    } else if starts_with_run(line, '#', 1) {
        Some((Element::Heading(string_of(line, 1, line.len())), at + 1))
    } else if starts_with_run(line, '*', 1) {
        Some(list_from(lines, at))
    } else if starts_with_run(line, '>', 1) {
        Some((Element::BlockQuote(string_of(line, 1, line.len())), at + 1))
    } else {
        Some((Element::Text(string_of(line, 0, line.len())), at + 1))
    }
}

/// Appends `open`, `text` and `close` to `html`.
fn push_wrapped(html: &mut String, open: &str, text: &String, close: &str)
    ensures
        final(html)@ == old(html)@ + (open@ + text@ + close@),
{
    html.append(open);
    html.append(text.as_str());
    html.append(close);
}

/// Appends the HTML of one element to `html`.
fn push_element(html: &mut String, element: &Element)
    ensures
        final(html)@ == old(html)@ + html_of_element(element@),
{
    match element {
        Element::Text(text) => push_wrapped(html, "<p>", text, "</p>"),
        Element::Link(target, label) => {
            html.append("<a href=\"");
            html.append(target.as_str());
            push_wrapped(html, "\">", label, "</a>");
        },
        Element::Heading(text) => push_wrapped(html, "<h1>", text, "</h1>"),
        Element::Subheading(text) => push_wrapped(html, "<h2>", text, "</h2>"),
        Element::Subsubheading(text) => push_wrapped(html, "<h3>", text, "</h3>"),
        Element::UnorderedList(items) => {
            html.append("<ul>\n");
            let ghost all = strings_view(items@);
            let mut at: usize = 0;
            while at < items.len()
                invariant
                    at <= items.len(),
                    all == strings_view(items@),
                    html@ == old(html)@ + "<ul>\n"@ + html_of_items(all.take(at as int)),
                decreases items.len() - at,
            {
                push_wrapped(html, "<li>", &items[at], "</li>\n");
                assert(all.take(at + 1).drop_last() == all.take(at as int));
                at += 1;
            }
            assert(all.take(items.len() as int) == all);
            html.append("</ul>");
        },
        Element::BlockQuote(text) => push_wrapped(html, "<blockquote>", text, "</blockquote>"),
        Element::Preformatted(_alt, block) => push_wrapped(html, "<pre>", block, "</pre>"),
    }
}

impl Gemtext {
    /// Renders the document as HTML.
    ///
    /// Nothing is escaped: text that is not trusted has to be made safe
    /// before it is parsed.
    pub fn to_html(&self) -> (html: String)
        ensures
            html@ == html_of(self@),
    {
        let mut html = String::new();
        let mut at: usize = 0;
        while at < self.elements.len()
            invariant
                at <= self.elements.len(),
                html@ == html_of(self@.take(at as int)),
            decreases self.elements.len() - at,
        {
            push_element(&mut html, &self.elements[at]);
            html.append("\n");
            assert(self@.take(at + 1).drop_last() == self@.take(at as int));
            at += 1;
        }
        assert(self@.take(self.elements.len() as int) == self@);
        html
    }

    /// Parses a gemtext document.
    ///
    /// Fails with [`Error::GemtextFormat`] at the first link line, outside a
    /// preformatted block, that has nothing but whitespace after `=>`.
    pub fn new(input: &str) -> (r: Result<Gemtext, Error>)
        ensures
            view_result(r) == parse_document(input@),
    {
        let text = chars_of(input);
        let rows = split_lines(&text);
        let ghost all = lines_view(rows@);
        let mut elements: Vec<Element> = Vec::new();
        let mut at: usize = 0;
        while at < rows.len()
            invariant
                at <= rows.len(),
                all == lines_view(rows@),
                all == lines(input@),
                parse_from(all, 0) == prepend(elements_view(elements@), parse_from(all, at as int)),
            decreases rows.len() - at,
        {
            proof {
                lemma_element_advances(all, at as int);
            }
            match element_from(&rows, at) {
                Some((element, after)) => {
                    proof {
                        lemma_prepend_one(
                            elements_view(elements@),
                            element@,
                            parse_from(all, after as int),
                        );
                    }
                    let ghost before = elements_view(elements@);
                    elements.push(element);
                    assert(elements_view(elements@) == before + seq![element@]);
                    at = after;
                },
                None => {
                    let mut message = String::from_str(
                        "Invalid link format, there must be something after =>. Line #",
                    );
                    message.append(decimal_string((at + 1) as u64).as_str());
                    message.append(": ");
                    return Err(Error::GemtextFormat(message));
                },
            }
        }
        Ok(Gemtext { elements })
    }
}

} // verus!
