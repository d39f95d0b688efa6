//! The section document: an accumulator for one heading-delimited section.
//! It is created with a title and nesting level, receives sanitized body
//! lines as paragraphs or horizontal rules, and finalizes into an immutable
//! XHTML document together with its metadata and a fresh virtual path.

use vstd::prelude::*;
use vstd::string::StringExecFns;
use crate::markup::{
    append_escaped, append_str, footer_markup, header_markup, paragraph_markup, rule_markup,
};
use crate::sanitize::{
    clean_spec, is_separator_exec, is_separator_line, strip_controls_exec, trim_exec,
};
use crate::text::{chars_to_string, str_chars};

verus! {

/// The mathematical state of a section document: its title, nesting level,
/// start-of-content flag, and the serialized markup accumulated so far.
pub struct SectionModel {
    pub title: Seq<char>,
    pub level: int,
    pub is_start: bool,
    pub markup: Seq<char>,
}

/// What one sanitized body line adds to a section's markup: nothing for an
/// empty line, a horizontal rule for a separator line, a paragraph otherwise.
pub open spec fn line_markup(t: Seq<char>) -> Seq<char> {
    if t.len() == 0 {
        Seq::<char>::empty()
    } else if is_separator_line(t) {
        rule_markup()
    } else {
        paragraph_markup(t)
    }
}

/// One section being accumulated. The title is fixed at creation; the body
/// is append-only until the section is finalized.
pub struct Content {
    title: String,
    level: i32,
    is_start_of_content: bool,
    body: Vec<char>,
}

impl View for Content {
    type V = SectionModel;

    closed spec fn view(&self) -> SectionModel {
        SectionModel {
            title: self.title@,
            level: self.level as int,
            is_start: self.is_start_of_content,
            markup: self.body@,
        }
    }
}

/// A lower-case hexadecimal digit.
pub open spec fn is_lower_hex_char(c: char) -> bool {
    (0x30 <= (c as u32) && (c as u32) <= 0x39) || (0x61 <= (c as u32) && (c as u32) <= 0x66)
}

/// A virtual path of the shape `xhtml/page_<32 lower-case hex digits>.xhtml`.
pub open spec fn is_page_href(s: Seq<char>) -> bool {
    &&& s.len() == 49
    &&& s.subrange(0, 11) == "xhtml/page_"@
    &&& forall|i: int| 11 <= i < 43 ==> is_lower_hex_char(#[trigger] s[i])
    &&& s.subrange(43, 49) == ".xhtml"@
}

/// Relies on `uuid::Uuid::new_v4` and its `Simple` display format: a freshly
/// drawn random identifier printed as exactly 32 lower-case hexadecimal
/// digits. The value is random, so nothing is stated beyond that shape.
#[verifier::external_body]
fn fresh_identifier() -> (s: String)
    ensures
        s@.len() == 32,
        forall|i: int| 0 <= i < 32 ==> is_lower_hex_char(#[trigger] s@[i]),
{
    format!("{}", uuid::Uuid::new_v4().simple())
}

/// A finalized section document: the complete serialized XHTML, the virtual
/// path it will occupy in the package, and its metadata. Immutable once
/// produced; ownership passes to the package assembler.
pub struct FinalizedContent {
    pub xhtml: String,
    pub href: String,
    pub title: String,
    pub level: i32,
    pub is_start_of_content: bool,
}

impl Content {
    /// Opens a new section document: the full document shell with the escaped
    /// title in the head and in the heading element.
    pub fn new(title: String, level: i32) -> (c: Content)
        ensures
            c@ == (SectionModel {
                title: title@,
                level: level as int,
                is_start: false,
                markup: header_markup(title@),
            }),
    {
        let tchars = str_chars(title.as_str());
        let mut body: Vec<char> = Vec::new();
        append_str(
            &mut body,
            "<?xml version=\"1.0\" encoding=\"UTF-8\"?>\n<!DOCTYPE html PUBLIC \"-//W3C//DTD XHTML 1.1//EN\" \"http://www.w3.org/TR/xhtml11/DTD/xhtml11.dtd\">\n<html xmlns=\"http://www.w3.org/1999/xhtml\">\n  <head>\n    <title>",
        );
        append_escaped(&mut body, &tchars);
        append_str(
            &mut body,
            "</title>\n    <link rel=\"stylesheet\" type=\"text/css\" href=\"../css/page.css\"/>\n  </head>\n  <body>\n    <h3>",
        );
        append_escaped(&mut body, &tchars);
        append_str(&mut body, "</h3>");
        proof {
            assert(body@ =~= header_markup(title@));
        }
        Content { title, level, is_start_of_content: false, body }
    }

    /// Marks this section as the start of the book's real content.
    pub fn set_beginning_of_real_content(&mut self)
        ensures
            final(self)@ == (SectionModel { is_start: true, ..old(self)@ }),
    {
        self.is_start_of_content = true;
    }

    /// Sanitizes one line of body text and appends what it leaves: nothing,
    /// a horizontal rule, or an escaped paragraph.
    pub fn write_line(&mut self, text: String)
        ensures
            final(self)@ == (SectionModel {
                markup: old(self)@.markup + line_markup(clean_spec(text@)),
                ..old(self)@
            }),
    {
        let v = str_chars(text.as_str());
        let stripped = strip_controls_exec(&v);
        let trimmed = trim_exec(&stripped);
        if trimmed.len() == 0 {
            proof {
                assert(self.body@ =~= self.body@ + line_markup(clean_spec(text@)));
            }
        } else if is_separator_exec(&trimmed) {
            append_str(&mut self.body, "\n    <hr/>");
        } else {
            append_str(&mut self.body, "\n    <p>");
            append_escaped(&mut self.body, &trimmed);
            append_str(&mut self.body, "</p>");
            proof {
                assert(self.body@ =~= old(self).body@ + line_markup(clean_spec(text@)));
            }
        }
    }

    /// Finalizes the section: closes the body and the document, and yields
    /// the immutable document with its metadata and a fresh virtual path.
    pub fn into_epub_content(self) -> (r: FinalizedContent)
        ensures
            r.xhtml@ == self@.markup + footer_markup(),
            r.title@ == self@.title,
            r.level as int == self@.level,
            r.is_start_of_content == self@.is_start,
            is_page_href(r.href@),
    {
        let mut body = self.body;
        append_str(&mut body, "\n  </body>\n</html>");
        let xhtml = chars_to_string(&body);
        let unique = fresh_identifier();
        let mut href = String::from_str("xhtml/page_");
        href.append(unique.as_str());
        href.append(".xhtml");
        proof {
            reveal_strlit("xhtml/page_");
            reveal_strlit(".xhtml");
            assert(href@.subrange(0, 11) =~= "xhtml/page_"@);
            assert(href@.subrange(43, 49) =~= ".xhtml"@);
            assert forall|i: int| 11 <= i < 43 implies is_lower_hex_char(#[trigger] href@[i]) by {
                assert(href@[i] == unique@[i - 11]);
            }
        }
        FinalizedContent {
            xhtml,
            href,
            title: self.title,
            level: self.level,
            is_start_of_content: self.is_start_of_content,
        }
    }
}

} // verus!
