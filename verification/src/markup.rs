//! Serialization of a section into XHTML: escaping of text content and the
//! exact shape of the document shell, paragraph and horizontal-rule elements.
//!
//! Text content is escaped for the five XML special characters; the escaping
//! is proved lossless (`lemma_escape_round_trip`) and proved to leave no raw
//! special character in the output (`lemma_escape_no_raw_specials`).

use vstd::prelude::*;

verus! {

pub open spec fn amp_entity() -> Seq<char> {
    seq!['&', 'a', 'm', 'p', ';']
}

pub open spec fn lt_entity() -> Seq<char> {
    seq!['&', 'l', 't', ';']
}

pub open spec fn gt_entity() -> Seq<char> {
    seq!['&', 'g', 't', ';']
}

pub open spec fn quot_entity() -> Seq<char> {
    seq!['&', 'q', 'u', 'o', 't', ';']
}

pub open spec fn apos_entity() -> Seq<char> {
    seq!['&', 'a', 'p', 'o', 's', ';']
}

/// What one character of text content becomes in the serialized document:
/// the five XML special characters become entities, all others stand as
/// themselves.
pub open spec fn escape_char(c: char) -> Seq<char> {
    if c == '&' {
        amp_entity()
    } else if c == '<' {
        lt_entity()
    } else if c == '>' {
        gt_entity()
    } else if c == '"' {
        quot_entity()
    } else if c == '\'' {
        apos_entity()
    } else {
        seq![c]
    }
}

/// `s` with every character escaped for XML text content.
pub open spec fn xml_escape(s: Seq<char>) -> Seq<char>
    decreases s.len(),
{
    if s.len() == 0 {
        Seq::<char>::empty()
    } else {
        escape_char(s[0]) + xml_escape(s.drop_first())
    }
}

/// The inverse reading: entities decoded back to characters, any other
/// character kept as itself.
pub open spec fn xml_unescape(s: Seq<char>) -> Seq<char>
    decreases s.len(),
{
    if s.len() == 0 {
        Seq::<char>::empty()
    } else if s.len() >= 5 && s.subrange(0, 5) == amp_entity() {
        seq!['&'] + xml_unescape(s.skip(5))
    } else if s.len() >= 4 && s.subrange(0, 4) == lt_entity() {
        seq!['<'] + xml_unescape(s.skip(4))
    } else if s.len() >= 4 && s.subrange(0, 4) == gt_entity() {
        seq!['>'] + xml_unescape(s.skip(4))
    } else if s.len() >= 6 && s.subrange(0, 6) == quot_entity() {
        seq!['"'] + xml_unescape(s.skip(6))
    } else if s.len() >= 6 && s.subrange(0, 6) == apos_entity() {
        seq!['\''] + xml_unescape(s.skip(6))
    } else {
        seq![s[0]] + xml_unescape(s.drop_first())
    }
}

/// Escaped text never holds a raw `<`, `>`, `"` or `'`; every remaining `&`
/// was written by an entity.
pub proof fn lemma_escape_no_raw_specials(s: Seq<char>)
    ensures
        forall|i: int| 0 <= i < xml_escape(s).len() ==> {
            let c = #[trigger] xml_escape(s)[i];
            c != '<' && c != '>' && c != '"' && c != '\''
        },
    decreases s.len(),
{
    if s.len() > 0 {
        lemma_escape_no_raw_specials(s.drop_first());
        assert forall|i: int| 0 <= i < xml_escape(s).len() implies {
            let c = #[trigger] xml_escape(s)[i];
            c != '<' && c != '>' && c != '"' && c != '\''
        } by {
            let e = escape_char(s[0]);
            if i < e.len() {
                assert(xml_escape(s)[i] == e[i]);
            } else {
                assert(xml_escape(s)[i] == xml_escape(s.drop_first())[i - e.len()]);
            }
        }
    }
}

/// Decoding undoes escaping exactly: the serialized text content of a
/// paragraph reads back as the original string.
pub proof fn lemma_escape_round_trip(s: Seq<char>)
    ensures
        xml_unescape(xml_escape(s)) == s,
    decreases s.len(),
{
    if s.len() == 0 {
        assert(xml_unescape(xml_escape(s)) =~= s);
    } else {
        lemma_escape_round_trip(s.drop_first());
        let c = s[0];
        let e = escape_char(c);
        let rest = xml_escape(s.drop_first());
        let w = xml_escape(s);
        assert(w == e + rest);
        if c == '&' {
            assert(w.subrange(0, 5) =~= amp_entity());
            assert(w.skip(5) =~= rest);
            assert(xml_unescape(w) =~= seq![c] + s.drop_first());
            assert(seq![c] + s.drop_first() =~= s);
        } else if c == '<' {
            assert(w.len() >= 5 ==> w.subrange(0, 5)[1] == 'l');
            assert(w.len() >= 5 ==> w.subrange(0, 5) != amp_entity());
            assert(w.subrange(0, 4) =~= lt_entity());
            assert(w.skip(4) =~= rest);
            assert(xml_unescape(w) =~= seq![c] + s.drop_first());
            assert(seq![c] + s.drop_first() =~= s);
        } else if c == '>' {
            assert(w.len() >= 5 ==> w.subrange(0, 5)[1] == 'g');
            assert(w.len() >= 5 ==> w.subrange(0, 5) != amp_entity());
            assert(w.subrange(0, 4)[1] == 'g');
            assert(w.subrange(0, 4) != lt_entity());
            assert(w.subrange(0, 4) =~= gt_entity());
            assert(w.skip(4) =~= rest);
            assert(xml_unescape(w) =~= seq![c] + s.drop_first());
            assert(seq![c] + s.drop_first() =~= s);
        } else if c == '"' {
            assert(w.subrange(0, 5)[1] == 'q');
            assert(w.subrange(0, 5) != amp_entity());
            assert(w.subrange(0, 4)[1] == 'q');
            assert(w.subrange(0, 4) != lt_entity());
            assert(w.subrange(0, 4) != gt_entity());
            assert(w.subrange(0, 6) =~= quot_entity());
            assert(w.skip(6) =~= rest);
            assert(xml_unescape(w) =~= seq![c] + s.drop_first());
            assert(seq![c] + s.drop_first() =~= s);
        } else if c == '\'' {
            assert(w.subrange(0, 5)[2] == 'p');
            assert(w.subrange(0, 5) != amp_entity());
            assert(w.subrange(0, 4)[1] == 'a');
            assert(w.subrange(0, 4) != lt_entity());
            assert(w.subrange(0, 4) != gt_entity());
            assert(w.len() >= 6 ==> w.subrange(0, 6)[1] == 'a');
            assert(w.len() >= 6 ==> w.subrange(0, 6) != quot_entity());
            assert(w.subrange(0, 6) =~= apos_entity());
            assert(w.skip(6) =~= rest);
            assert(xml_unescape(w) =~= seq![c] + s.drop_first());
            assert(seq![c] + s.drop_first() =~= s);
        } else {
            assert(w[0] == c);
            assert(w.len() >= 5 ==> w.subrange(0, 5)[0] == c);
            assert(w.len() >= 5 ==> w.subrange(0, 5) != amp_entity());
            assert(w.len() >= 4 ==> w.subrange(0, 4)[0] == c);
            assert(w.len() >= 4 ==> w.subrange(0, 4) != lt_entity());
            assert(w.len() >= 4 ==> w.subrange(0, 4) != gt_entity());
            assert(w.len() >= 6 ==> w.subrange(0, 6)[0] == c);
            assert(w.len() >= 6 ==> w.subrange(0, 6) != quot_entity());
            assert(w.len() >= 6 ==> w.subrange(0, 6) != apos_entity());
            assert(w.drop_first() =~= rest);
            assert(xml_unescape(w) =~= seq![c] + s.drop_first());
            assert(seq![c] + s.drop_first() =~= s);
        }
    }
}

/// The document shell up to the text of the `<title>` element.
pub open spec fn shell_before_title() -> Seq<char> {
    "<?xml version=\"1.0\" encoding=\"UTF-8\"?>\n<!DOCTYPE html PUBLIC \"-//W3C//DTD XHTML 1.1//EN\" \"http://www.w3.org/TR/xhtml11/DTD/xhtml11.dtd\">\n<html xmlns=\"http://www.w3.org/1999/xhtml\">\n  <head>\n    <title>"@
}

/// The document shell between the `<title>` text and the `<h3>` heading text:
/// the stylesheet link, the end of the head, and the opening of the body.
pub open spec fn shell_between_titles() -> Seq<char> {
    "</title>\n    <link rel=\"stylesheet\" type=\"text/css\" href=\"../css/page.css\"/>\n  </head>\n  <body>\n    <h3>"@
}

/// The close of the heading element.
pub open spec fn shell_after_heading() -> Seq<char> {
    "</h3>"@
}

/// The opening of a paragraph element, on its own indented line.
pub open spec fn paragraph_open() -> Seq<char> {
    "\n    <p>"@
}

/// The close of a paragraph element.
pub open spec fn paragraph_close() -> Seq<char> {
    "</p>"@
}

/// A self-closing horizontal rule, on its own indented line.
pub open spec fn rule_markup() -> Seq<char> {
    "\n    <hr/>"@
}

/// The close of the body and of the document.
pub open spec fn footer_markup() -> Seq<char> {
    "\n  </body>\n</html>"@
}

/// The full document shell for a section titled `title`: declaration, doctype,
/// head with title and stylesheet link, opened body, and the heading element.
/// The title appears escaped, once in the head and once in the heading.
pub open spec fn header_markup(title: Seq<char>) -> Seq<char> {
    shell_before_title() + xml_escape(title) + shell_between_titles() + xml_escape(title)
        + shell_after_heading()
}

/// One serialized paragraph holding the escaped text.
pub open spec fn paragraph_markup(text: Seq<char>) -> Seq<char> {
    paragraph_open() + xml_escape(text) + paragraph_close()
}

/// Appends the characters of `s` to `out`.
pub fn append_str(out: &mut Vec<char>, s: &str)
    ensures
        final(out)@ == old(out)@ + s@,
{
    let cs = crate::text::str_chars(s);
    let n = cs.len();
    let mut i: usize = 0;
    while i < n
        invariant
            n == cs@.len(),
            cs@ == s@,
            i <= n,
            out@ == old(out)@ + s@.subrange(0, i as int),
        decreases n - i,
    {
        out.push(cs[i]);
        i = i + 1;
        proof {
            assert(out@ =~= old(out)@ + s@.subrange(0, i as int));
        }
    }
    proof {
        assert(old(out)@ + s@.subrange(0, n as int) =~= old(out)@ + s@);
    }
}

/// Appends the escaped form of `text` to `out`.
pub fn append_escaped(out: &mut Vec<char>, text: &Vec<char>)
    ensures
        final(out)@ == old(out)@ + xml_escape(text@),
{
    let n = text.len();
    let mut i: usize = 0;
    proof {
        assert(text@.subrange(0, n as int) =~= text@);
    }
    while i < n
        invariant
            n == text@.len(),
            i <= n,
            out@ + xml_escape(text@.subrange(i as int, n as int)) == old(out)@ + xml_escape(
                text@,
            ),
        decreases n - i,
    {
        let c = text[i];
        proof {
            let suf = text@.subrange(i as int, n as int);
            assert(suf[0] == c);
            assert(suf.drop_first() =~= text@.subrange(i as int + 1, n as int));
        }
        if c == '&' {
            append_str(out, "&amp;");
            proof {
                reveal_strlit("&amp;");
                assert("&amp;"@ =~= amp_entity());
            }
        } else if c == '<' {
            append_str(out, "&lt;");
            proof {
                reveal_strlit("&lt;");
                assert("&lt;"@ =~= lt_entity());
            }
        } else if c == '>' {
            append_str(out, "&gt;");
            proof {
                reveal_strlit("&gt;");
                assert("&gt;"@ =~= gt_entity());
            }
        } else if c == '"' {
            append_str(out, "&quot;");
            proof {
                reveal_strlit("&quot;");
                assert("&quot;"@ =~= quot_entity());
            }
        } else if c == '\'' {
            append_str(out, "&apos;");
            proof {
                reveal_strlit("&apos;");
                assert("&apos;"@ =~= apos_entity());
            }
        } else {
            out.push(c);
        }
        proof {
            assert(out@ + xml_escape(text@.subrange(i as int + 1, n as int)) =~= old(out)@
                + xml_escape(text@));
        }
        i = i + 1;
    }
    proof {
        assert(text@.subrange(n as int, n as int) =~= Seq::<char>::empty());
        assert(out@ =~= out@ + Seq::<char>::empty());
    }
}

} // verus!
