use txt2epub::classify::TitlePattern;
use txt2epub::content::FinalizedContent;
use txt2epub::convert::ContentConverter;

fn defaults() -> ContentConverter {
    ContentConverter::new(TitlePattern::DefaultVolume, TitlePattern::DefaultChapter)
}

fn run(lines: &[&str]) -> Vec<FinalizedContent> {
    let lines: Vec<String> = lines.iter().map(|s| s.to_string()).collect();
    defaults().covert_content_into_epub(lines)
}

fn paragraph_count(xhtml: &str) -> usize {
    xhtml.matches("<p>").count()
}

#[test]
fn two_chapters_with_one_paragraph_each() {
    let out = run(&["第一章 开始", "这是正文。", "第二章 继续", "更多正文"]);
    assert_eq!(out.len(), 2);
    assert_eq!(out[0].title, "第一章 开始");
    assert_eq!(out[0].level, 1);
    assert!(out[0].is_start_of_content);
    assert_eq!(paragraph_count(&out[0].xhtml), 1);
    assert!(out[0].xhtml.contains("<p>这是正文。</p>"));
    assert_eq!(out[1].title, "第二章 继续");
    assert_eq!(out[1].level, 1);
    assert!(!out[1].is_start_of_content);
    assert_eq!(paragraph_count(&out[1].xhtml), 1);
    assert!(out[1].xhtml.contains("<p>更多正文</p>"));
}

#[test]
fn body_without_heading_gets_the_default_section() {
    let out = run(&["正文没有标题"]);
    assert_eq!(out.len(), 1);
    assert_eq!(out[0].title, "默认章节");
    assert_eq!(out[0].level, 1);
    assert!(out[0].is_start_of_content);
    assert_eq!(paragraph_count(&out[0].xhtml), 1);
    assert!(out[0].xhtml.contains("<p>正文没有标题</p>"));
}

#[test]
fn blank_lines_only_produce_no_sections() {
    let out = run(&["", "   ", "\t"]);
    assert_eq!(out.len(), 0);
}

#[test]
fn empty_input_produces_no_sections() {
    let out = run(&[]);
    assert_eq!(out.len(), 0);
}

#[test]
fn heading_with_no_body_still_emits_a_section() {
    let out = run(&["第一卷"]);
    assert_eq!(out.len(), 1);
    assert_eq!(out[0].title, "第一卷");
    assert_eq!(out[0].level, 0);
    assert!(out[0].is_start_of_content);
    assert_eq!(paragraph_count(&out[0].xhtml), 0);
}

#[test]
fn blank_lines_inside_a_section_emit_nothing() {
    let out = run(&["第一章 一", "", "a", "   "]);
    assert_eq!(out.len(), 1);
    assert_eq!(paragraph_count(&out[0].xhtml), 1);
    assert!(out[0].xhtml.contains("<p>a</p>"));
}

#[test]
fn section_count_with_leading_body() {
    // one body line before the first heading: headings + 1 sections
    let out = run(&["开场白", "第一章 一", "正文", "第二章 二", "正文"]);
    assert_eq!(out.len(), 3);
    assert_eq!(out[0].title, "默认章节");
    assert_eq!(out[1].title, "第一章 一");
    assert_eq!(out[2].title, "第二章 二");
}

#[test]
fn section_count_without_leading_body() {
    let out = run(&["第一章 一", "正文", "第二章 二", "正文"]);
    assert_eq!(out.len(), 2);
}

#[test]
fn exactly_one_section_is_marked_as_start() {
    let out = run(&["开场白", "第一卷 上", "第一章 一", "内容", "====", "第二章 二"]);
    assert!(out.len() >= 1);
    let marked: Vec<usize> = out
        .iter()
        .enumerate()
        .filter(|(_, s)| s.is_start_of_content)
        .map(|(i, _)| i)
        .collect();
    assert_eq!(marked, vec![0]);
}

#[test]
fn volume_headings_get_level_zero() {
    let out = run(&["第一卷 上", "内容"]);
    assert_eq!(out.len(), 1);
    assert_eq!(out[0].title, "第一卷 上");
    assert_eq!(out[0].level, 0);
}

#[test]
fn separator_lines_become_horizontal_rules() {
    let out = run(&["第一章 一", "====", "文字", "----"]);
    assert_eq!(out.len(), 1);
    assert_eq!(out[0].xhtml.matches("<hr/>").count(), 2);
    assert_eq!(paragraph_count(&out[0].xhtml), 1);
}

#[test]
fn consecutive_separators_each_produce_a_rule() {
    let out = run(&["第一章 一", "====", "====", "===="]);
    assert_eq!(out.len(), 1);
    assert_eq!(out[0].xhtml.matches("<hr/>").count(), 3);
}

#[test]
fn lines_are_trimmed_before_classification() {
    let out = run(&["  第一章 一  ", "  正文  "]);
    assert_eq!(out.len(), 1);
    assert_eq!(out[0].title, "第一章 一");
    assert!(out[0].xhtml.contains("<p>正文</p>"));
}

#[test]
fn href_has_the_page_shape_and_is_fresh() {
    let out = run(&["第一章 一", "x", "第二章 二", "y"]);
    assert_eq!(out.len(), 2);
    for s in &out {
        assert_eq!(s.href.len(), 49);
        assert!(s.href.starts_with("xhtml/page_"));
        assert!(s.href.ends_with(".xhtml"));
        let middle = &s.href[11..43];
        assert!(middle.chars().all(|c| c.is_ascii_hexdigit() && !c.is_ascii_uppercase()));
    }
    assert_ne!(out[0].href, out[1].href);
}

#[test]
fn streaming_matches_whole_run() {
    let lines = ["前言", "第一章 一", "正文", "第二章 二"];
    let whole = run(&lines);
    let mut conv = defaults();
    let mut streamed: Vec<FinalizedContent> = Vec::new();
    for l in lines {
        if let Some(s) = conv.process_line(l.to_string()) {
            streamed.push(s);
        }
    }
    if let Some(s) = conv.flush_last_content_buffer() {
        streamed.push(s);
    }
    assert_eq!(whole.len(), streamed.len());
    for (a, b) in whole.iter().zip(streamed.iter()) {
        assert_eq!(a.title, b.title);
        assert_eq!(a.level, b.level);
        assert_eq!(a.is_start_of_content, b.is_start_of_content);
        assert_eq!(a.xhtml, b.xhtml);
    }
}

#[test]
fn custom_patterns_drive_the_engine() {
    let vol = TitlePattern::Custom(regex::Regex::new("^BOOK").unwrap());
    let chap = TitlePattern::Custom(regex::Regex::new("^ch\\.").unwrap());
    let conv = ContentConverter::new(vol, chap);
    let lines: Vec<String> =
        ["BOOK ONE", "ch. 1", "text", "ch. 2"].iter().map(|s| s.to_string()).collect();
    let out = conv.covert_content_into_epub(lines);
    assert_eq!(out.len(), 3);
    assert_eq!(out[0].title, "BOOK ONE");
    assert_eq!(out[0].level, 0);
    assert_eq!(out[1].title, "ch. 1");
    assert_eq!(out[1].level, 1);
    assert_eq!(out[2].title, "ch. 2");
}
