//! A rustdoc section rendered as a titled list.
use vstd::prelude::*;

use crate::text::{decimal, decimal_string, trim_quotes, trim_quotes_of};
use crate::tokens::{
    diagnostic, generate_doc_attribute, is_doc_attribute, CompileError, Literal, Span, TokenTree,
};

verus! {

/// How the items of a section are listed.
#[derive(Clone, Copy, PartialEq, Eq, Structural, Debug)]
pub enum ListStyle {
    Numbered,
    Bulleted,
}

/// The level of a section heading.
#[derive(Clone, Copy, PartialEq, Eq, Structural, Debug)]
pub enum HeadingLevel {
    H1,
    H2,
    H3,
}

/// The Markdown marker of a heading level.
pub open spec fn heading_marker(h: HeadingLevel) -> Seq<char> {
    match h {
        HeadingLevel::H1 => "#"@,
        HeadingLevel::H2 => "##"@,
        HeadingLevel::H3 => "###"@,
    }
}

/// The line for the item at `index` (counted from zero).
pub open spec fn list_line(style: ListStyle, index: nat, item: Seq<char>) -> Seq<char> {
    match style {
        ListStyle::Numbered => decimal(index + 1) + ". "@ + item + "\n"@,
        ListStyle::Bulleted => "- "@ + item + "\n"@,
    }
}

/// The lines for all `items`, in order.
pub open spec fn list_body(style: ListStyle, items: Seq<Seq<char>>) -> Seq<char>
    decreases items.len(),
{
    if items.len() == 0 {
        Seq::empty()
    } else {
        list_body(style, items.drop_last()) + list_line(style, (items.len() - 1) as nat, items.last())
    }
}

/// A numbered list has exactly one line per item, in order: line `i` is the
/// number `i + 1` in decimal, `. `, the item and a newline.
pub proof fn law_numbered_list_lines(items: Seq<Seq<char>>)
    ensures
        list_body(ListStyle::Numbered, items) == Seq::new(
            items.len(),
            |i: int| decimal((i + 1) as nat) + ". "@ + items[i] + "\n"@,
        ).flatten(),
    decreases items.len(),
{
    let sn = Seq::new(items.len(), |i: int| decimal((i + 1) as nat) + ". "@ + items[i] + "\n"@);
    if items.len() == 0 {
        assert(sn.flatten() =~= Seq::<char>::empty());
    } else {
        let p = items.drop_last();
        law_numbered_list_lines(p);
        let sp = Seq::new(p.len(), |i: int| decimal((i + 1) as nat) + ". "@ + p[i] + "\n"@);
        assert(sp =~= sn.drop_last());
        assert(sn =~= sn.drop_last().push(sn.last()));
        sn.drop_last().lemma_flatten_push(sn.last());
        assert(sn.last() == list_line(ListStyle::Numbered, (items.len() - 1) as nat, items.last()));
    }
}

/// The text of a section: heading, optional preamble, then the list.
pub open spec fn section_text(
    title: Seq<char>,
    heading_level: HeadingLevel,
    preamble: Option<Seq<char>>,
    style: ListStyle,
    items: Seq<Seq<char>>,
) -> Seq<char> {
    heading_marker(heading_level) + " "@ + title + "\n"@ + match preamble {
        Some(p) => p + "\n\n"@,
        None => "\n"@,
    } + list_body(style, items)
}

/// The characters of each string.
pub open spec fn string_views(items: Seq<String>) -> Seq<Seq<char>> {
    items.map_values(|s: String| s@)
}

/// A rustdoc section rendered as a titled list, e.g.
///
/// ```text
/// # Safety
/// The caller must uphold:
///
/// 1. first condition
/// 2. second condition
/// ```
///
/// Emitted as a single `#[doc = "..."]` attribute.
pub struct DocSection<'a> {
    pub title: &'a str,
    pub heading_level: HeadingLevel,
    pub preamble: Option<&'a str>,
    pub style: ListStyle,
    pub items: Vec<String>,
}

impl<'a> DocSection<'a> {
    /// The text this section renders to.
    pub open spec fn spec_text(&self) -> Seq<char> {
        section_text(
            self.title@,
            self.heading_level,
            match self.preamble {
                Some(p) => Some(p@),
                None => None,
            },
            self.style,
            string_views(self.items@),
        )
    }

    /// Render the section as one `#[doc = "..."]` attribute.
    pub fn render(&self) -> (r: Vec<TokenTree>)
        ensures
            is_doc_attribute(r@, self.spec_text()),
    {
        let marker = match self.heading_level {
            HeadingLevel::H1 => "#",
            HeadingLevel::H2 => "##",
            HeadingLevel::H3 => "###",
        };
        let mut doc = marker.to_owned();
        doc.append(" ");
        doc.append(self.title);
        doc.append("\n");
        match self.preamble {
            Some(preamble) => {
                doc.append(preamble);
                doc.append("\n\n");
            },
            None => {
                doc.append("\n");
            },
        }
        let ghost head = doc@;
        let ghost pre = match self.preamble {
            Some(p) => Some(p@),
            None => None,
        };
        assert(marker@ == heading_marker(self.heading_level));
        assert(head == heading_marker(self.heading_level) + " "@ + self.title@ + "\n"@ + match pre {
            Some(p) => p + "\n\n"@,
            None => "\n"@,
        });
        let ghost views = string_views(self.items@);
        let mut index: usize = 0;
        while index < self.items.len()
            invariant
                index <= self.items@.len(),
                views == string_views(self.items@),
                doc@ == head + list_body(self.style, views.take(index as int)),
            decreases self.items@.len() - index,
        {
            let item = self.items[index].as_str();
            match self.style {
                ListStyle::Numbered => {
                    let number = decimal_string(index + 1);
                    doc.append(number.as_str());
                    doc.append(". ");
                    doc.append(item);
                    doc.append("\n");
                },
                ListStyle::Bulleted => {
                    doc.append("- ");
                    doc.append(item);
                    doc.append("\n");
                },
            }
            proof {
                let t = views.take(index + 1);
                assert(t.drop_last() =~= views.take(index as int));
                assert(t.last() == self.items@[index as int]@);
            }
            index += 1;
        }
        assert(views.take(self.items@.len() as int) =~= views);
        generate_doc_attribute(doc.as_str())
    }
}

} // verus!

verus! {

/// The unquoted contents of each literal.
pub open spec fn trimmed_values(lits: Seq<Literal>) -> Seq<Seq<char>> {
    lits.map_values(|l: Literal| trim_quotes(l.text@))
}

/// The unquoted contents of each literal, as strings.
pub fn trimmed_items(lits: &Vec<Literal>) -> (r: Vec<String>)
    ensures
        string_views(r@) == trimmed_values(lits@),
{
    let mut r: Vec<String> = Vec::new();
    let mut i: usize = 0;
    while i < lits.len()
        invariant
            i <= lits@.len(),
            r@.len() == i,
            forall|j: int| 0 <= j < i ==> (#[trigger] r@[j])@ == trim_quotes(lits@[j].text@),
        decreases lits@.len() - i,
    {
        r.push(trim_quotes_of(lits[i].text.as_str()));
        i += 1;
    }
    assert(string_views(r@) =~= trimmed_values(lits@));
    r
}

/// Rendered docs, or the diagnostic that replaces them.
pub type DocsOutcome = Result<Seq<char>, (Span, Seq<char>)>;

/// `r` is the doc attribute for the text of `s`, or the diagnostic of `s`.
pub open spec fn docs_outcome(r: Result<Vec<TokenTree>, CompileError>, s: DocsOutcome) -> bool {
    match s {
        Ok(text) => r matches Ok(ts) && is_doc_attribute(ts@, text),
        Err(d) => r matches Err(e) && diagnostic(e) == d,
    }
}

} // verus!
