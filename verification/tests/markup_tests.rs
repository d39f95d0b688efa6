use quick_xml::events::Event;
use quick_xml::Reader;
use txt2epub::content::Content;

#[test]
fn document_shell_is_exact() {
    let c = Content::new(String::from("T"), 1);
    let f = c.into_epub_content();
    let expected = "<?xml version=\"1.0\" encoding=\"UTF-8\"?>\n<!DOCTYPE html PUBLIC \"-//W3C//DTD XHTML 1.1//EN\" \"http://www.w3.org/TR/xhtml11/DTD/xhtml11.dtd\">\n<html xmlns=\"http://www.w3.org/1999/xhtml\">\n  <head>\n    <title>T</title>\n    <link rel=\"stylesheet\" type=\"text/css\" href=\"../css/page.css\"/>\n  </head>\n  <body>\n    <h3>T</h3>\n  </body>\n</html>";
    assert_eq!(f.xhtml, expected);
    assert_eq!(f.title, "T");
    assert_eq!(f.level, 1);
    assert!(!f.is_start_of_content);
}

#[test]
fn paragraph_text_is_escaped() {
    let hostile = "<script>&\"'</script>";
    let mut c = Content::new(String::from("标题"), 1);
    c.write_line(hostile.to_string());
    let f = c.into_epub_content();
    assert!(f.xhtml.contains("<p>&lt;script&gt;&amp;&quot;&apos;&lt;/script&gt;</p>"));
    assert!(!f.xhtml.contains(hostile));
}

#[test]
fn title_is_escaped_in_head_and_heading() {
    let c = Content::new(String::from("A&B<C>"), 0);
    let f = c.into_epub_content();
    assert!(f.xhtml.contains("<title>A&amp;B&lt;C&gt;</title>"));
    assert!(f.xhtml.contains("<h3>A&amp;B&lt;C&gt;</h3>"));
    assert_eq!(f.title, "A&B<C>");
}

#[test]
fn escaped_paragraph_decodes_back_to_the_original() {
    let hostile = "<script>&\"'</script>";
    let mut c = Content::new(String::from("t"), 1);
    c.write_line(hostile.to_string());
    let f = c.into_epub_content();

    let mut reader = Reader::from_str(&f.xhtml);
    let mut in_paragraph = false;
    let mut recovered = String::new();
    loop {
        match reader.read_event().expect("the emitted document must be well-formed") {
            Event::Start(e) if e.name().as_ref() == "p" => in_paragraph = true,
            Event::End(e) if e.name().as_ref() == "p" => in_paragraph = false,
            Event::Text(t) if in_paragraph => recovered.push_str(&t.xml10_content()),
            Event::GeneralRef(r) if in_paragraph => {
                let name = r.xml10_content();
                let resolved = quick_xml::escape::resolve_predefined_entity(&name)
                    .expect("only the five predefined entities are emitted");
                recovered.push_str(resolved);
            }
            Event::Eof => break,
            _ => {}
        }
    }
    assert_eq!(recovered, hostile);
}

#[test]
fn whole_document_parses_as_xml() {
    let mut c = Content::new(String::from("第一章 <&>"), 1);
    c.write_line("一段 & 文字".to_string());
    c.write_line("====".to_string());
    c.write_line("another 'line'".to_string());
    let f = c.into_epub_content();
    let mut reader = Reader::from_str(&f.xhtml);
    loop {
        match reader.read_event() {
            Ok(Event::Eof) => break,
            Ok(_) => {}
            Err(e) => panic!("emitted document failed to parse: {e}"),
        }
    }
}
