use txt2epub::classify::{classify, matches_line, ClassifiedLine, TitlePattern};

fn volume() -> TitlePattern {
    TitlePattern::DefaultVolume
}

fn chapter() -> TitlePattern {
    TitlePattern::DefaultChapter
}

#[test]
fn default_volume_pattern() {
    let v = volume();
    assert!(matches_line(&v, "第一卷 风起"));
    assert!(matches_line(&v, "第1部"));
    assert!(matches_line(&v, "第十 二卷"));
    assert!(!matches_line(&v, "第一章 开始"));
    assert!(!matches_line(&v, "一卷"));
    assert!(!matches_line(&v, "第卷"));
    assert!(!matches_line(&v, "正文"));
}

#[test]
fn default_chapter_pattern_numbered() {
    let c = chapter();
    assert!(matches_line(&c, "第一章 开始"));
    assert!(matches_line(&c, "第12回"));
    assert!(matches_line(&c, "第三节"));
    assert!(matches_line(&c, "第1集"));
    assert!(matches_line(&c, "第一卷"));
    assert!(matches_line(&c, "第二部"));
    assert!(!matches_line(&c, "第章"));
}

#[test]
fn default_chapter_pattern_latin() {
    let c = chapter();
    assert!(matches_line(&c, "Chapter 1"));
    assert!(matches_line(&c, "chapter one"));
    assert!(matches_line(&c, "Section A"));
    assert!(matches_line(&c, "section 12"));
    assert!(matches_line(&c, "Page 3"));
    assert!(matches_line(&c, "page 3"));
    // no trailing text at all: the pattern wants one to twenty more characters
    assert!(!matches_line(&c, "Chapter"));
    // more than twenty characters after the keyword
    assert!(!matches_line(&c, "Chapter 123456789012345678901"));
}

#[test]
fn default_chapter_pattern_numeric_forms() {
    let c = chapter();
    assert!(matches_line(&c, "1"));
    assert!(matches_line(&c, "1234"));
    assert!(!matches_line(&c, "12345"));
    assert!(matches_line(&c, "3、开始"));
    assert!(matches_line(&c, "12345、开始"));
    assert!(!matches_line(&c, "、开始"));
}

#[test]
fn default_chapter_pattern_markers() {
    let c = chapter();
    assert!(matches_line(&c, "引子"));
    assert!(matches_line(&c, "楔子"));
    assert!(!matches_line(&c, "引子一"));
    assert!(matches_line(&c, "章节目录"));
    assert!(matches_line(&c, "章节"));
    assert!(matches_line(&c, "序章"));
    assert!(matches_line(&c, "序章 缘起"));
    assert!(!matches_line(&c, "目录"));
}

#[test]
fn custom_regex_pattern() {
    let p = TitlePattern::Custom(regex::Regex::new("^PART").unwrap());
    assert!(matches_line(&p, "PART ONE"));
    assert!(!matches_line(&p, "ONE PART"));
    assert!(!matches_line(&p, "part one"));
}

#[test]
fn classification_precedence_volume_wins() {
    // 第一卷 matches both the volume pattern and the chapter pattern
    let v = volume();
    let c = chapter();
    assert!(matches_line(&v, "第一卷"));
    assert!(matches_line(&c, "第一卷"));
    match classify(String::from("第一卷"), &v, &c) {
        ClassifiedLine::VolumeHeading(t) => assert_eq!(t, "第一卷"),
        _ => panic!("a line matching both patterns must classify as a volume heading"),
    }
}

#[test]
fn classification_falls_through_to_body() {
    let v = volume();
    let c = chapter();
    match classify(String::from("这是正文。"), &v, &c) {
        ClassifiedLine::Body(t) => assert_eq!(t, "这是正文。"),
        _ => panic!("plain text must classify as body"),
    }
    match classify(String::from("第二章 继续"), &v, &c) {
        ClassifiedLine::ChapterHeading(t) => assert_eq!(t, "第二章 继续"),
        _ => panic!("chapter heading expected"),
    }
}
