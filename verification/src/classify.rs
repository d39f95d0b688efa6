//! The line classifier: decides whether a trimmed line is a volume heading,
//! a chapter heading, or body text. Two patterns drive it, checked in order
//! (volume first), each either a built-in default or a caller-supplied
//! regular expression.
//!
//! The built-in defaults are implemented here as verified matchers with exact
//! specifications: Chinese numbered volume markers (`第…卷/部`), Chinese
//! numbered chapter markers (`第…章/回/节/集/卷/部`), Latin
//! `Section/Chapter/Page …` lines, bare numeric lines of up to four digits,
//! `N、` enumerations, the literal markers `引子`, `楔子` and lines starting
//! `序章`, `章节` or `章节目录`.

use vstd::prelude::*;
use crate::text::str_chars;

verus! {

/// Declares `regex::Regex` so that compiled patterns can be carried in
/// signatures and fields; the value itself stays opaque.
#[verifier::external_type_specification]
#[verifier::external_body]
pub struct ExRegex(regex::Regex);

/// What `regex::Regex::is_match` returns for a compiled pattern on a text:
/// deterministic in the pattern value and the text alone.
pub uninterp spec fn regex_accepts(re: regex::Regex, text: Seq<char>) -> bool;

/// Relies on `regex::Regex::is_match`: true exactly when the compiled pattern
/// matches somewhere in `text`. The result is a function of the pattern and
/// the text alone, which `regex_accepts` names.
#[verifier::external_body]
fn regex_is_match(re: &regex::Regex, text: &str) -> (r: bool)
    ensures
        r == regex_accepts(*re, text@),
{
    re.is_match(text)
}

/// A character the numbered-heading patterns allow between `第` and the
/// marker: an ASCII digit, a Chinese numeral, or a space.
pub open spec fn numeral_char(c: char) -> bool {
    ||| (0x30 <= (c as u32) && (c as u32) <= 0x39)
    ||| c == '一'
    ||| c == '二'
    ||| c == '三'
    ||| c == '四'
    ||| c == '五'
    ||| c == '六'
    ||| c == '七'
    ||| c == '八'
    ||| c == '九'
    ||| c == '十'
    ||| c == '零'
    ||| c == '〇'
    ||| c == '百'
    ||| c == '千'
    ||| c == '两'
    ||| c == ' '
}

/// The marker that closes a numbered volume heading.
pub open spec fn volume_marker_char(c: char) -> bool {
    c == '卷' || c == '部'
}

/// The marker that closes a numbered chapter heading.
pub open spec fn chapter_marker_char(c: char) -> bool {
    c == '章' || c == '回' || c == '节' || c == '集' || c == '卷' || c == '部'
}

/// All of `s[from..to]` are numeral characters.
pub open spec fn numeral_run(s: Seq<char>, from: int, to: int) -> bool {
    forall|i: int| from <= i < to ==> numeral_char(#[trigger] s[i])
}

/// The line starts with `第`, one or more numeral characters, and a closing
/// marker drawn from `markers`.
pub open spec fn numbered_heading_match(s: Seq<char>, markers: spec_fn(char) -> bool) -> bool {
    &&& s.len() >= 3
    &&& s[0] == '第'
    &&& exists|j: int| #![trigger s[j]] 2 <= j < s.len() && markers(s[j]) && numeral_run(s, 1, j)
}

pub open spec fn default_volume_match(s: Seq<char>) -> bool {
    numbered_heading_match(s, |c: char| volume_marker_char(c))
}

pub open spec fn is_ascii_digit_char(c: char) -> bool {
    0x30 <= (c as u32) && (c as u32) <= 0x39
}

/// A Latin heading: the given keyword (here with its first character in
/// either case), then one to twenty further characters none of which is a
/// newline, and nothing after them.
pub open spec fn keyword_heading_match(s: Seq<char>, word: Seq<char>) -> bool {
    &&& word.len() + 1 <= s.len() <= word.len() + 20
    &&& forall|i: int| 0 <= i < word.len() ==> #[trigger] s[i] == word[i]
    &&& forall|i: int| word.len() <= i < s.len() ==> #[trigger] s[i] != '\n'
}

pub open spec fn section_heading_match(s: Seq<char>) -> bool {
    keyword_heading_match(s, seq!['S', 'e', 'c', 't', 'i', 'o', 'n']) || keyword_heading_match(
        s,
        seq!['s', 'e', 'c', 't', 'i', 'o', 'n'],
    )
}

pub open spec fn chapter_word_heading_match(s: Seq<char>) -> bool {
    keyword_heading_match(s, seq!['C', 'h', 'a', 'p', 't', 'e', 'r']) || keyword_heading_match(
        s,
        seq!['c', 'h', 'a', 'p', 't', 'e', 'r'],
    )
}

pub open spec fn page_heading_match(s: Seq<char>) -> bool {
    keyword_heading_match(s, seq!['P', 'a', 'g', 'e']) || keyword_heading_match(
        s,
        seq!['p', 'a', 'g', 'e'],
    )
}

/// A bare numeric line of one to four ASCII digits.
pub open spec fn bare_number_match(s: Seq<char>) -> bool {
    1 <= s.len() <= 4 && forall|i: int| 0 <= i < s.len() ==> is_ascii_digit_char(#[trigger] s[i])
}

/// One or more digits followed by the enumeration mark `、`.
pub open spec fn enumeration_match(s: Seq<char>) -> bool {
    exists|k: int| #![trigger s[k]] 1 <= k < s.len() && s[k] == '、' && forall|i: int|
        0 <= i < k ==> is_ascii_digit_char(#[trigger] s[i])
}

/// The line is exactly the two given characters.
pub open spec fn exact_pair_match(s: Seq<char>, a: char, b: char) -> bool {
    s.len() == 2 && s[0] == a && s[1] == b
}

/// The line starts with the two given characters.
pub open spec fn prefix_pair_match(s: Seq<char>, a: char, b: char) -> bool {
    s.len() >= 2 && s[0] == a && s[1] == b
}

/// The built-in chapter pattern: any of the numbered, Latin-keyword, bare
/// numeric, enumeration or literal-marker forms. The `章节` prefix also
/// covers lines starting `章节目录`.
pub open spec fn default_chapter_match(s: Seq<char>) -> bool {
    ||| numbered_heading_match(s, |c: char| chapter_marker_char(c))
    ||| section_heading_match(s)
    ||| chapter_word_heading_match(s)
    ||| page_heading_match(s)
    ||| bare_number_match(s)
    ||| enumeration_match(s)
    ||| exact_pair_match(s, '引', '子')
    ||| exact_pair_match(s, '楔', '子')
    ||| prefix_pair_match(s, '章', '节')
    ||| prefix_pair_match(s, '序', '章')
}

fn is_numeral(c: char) -> (r: bool)
    ensures
        r == numeral_char(c),
{
    let u = c as u32;
    (0x30 <= u && u <= 0x39) || c == '一' || c == '二' || c == '三' || c == '四' || c == '五'
        || c == '六' || c == '七' || c == '八' || c == '九' || c == '十' || c == '零' || c == '〇'
        || c == '百' || c == '千' || c == '两' || c == ' '
}

/// The scan behind both numbered-heading matchers: the index of the first
/// character from position 1 on that is not a numeral character.
fn scan_numerals(v: &Vec<char>) -> (i: usize)
    requires
        v@.len() >= 1,
    ensures
        1 <= i <= v@.len(),
        forall|k: int| 1 <= k < i ==> numeral_char(#[trigger] v@[k]),
        i < v@.len() ==> !numeral_char(v@[i as int]),
{
    let n = v.len();
    let mut i: usize = 1;
    loop
        invariant_except_break
            n == v@.len(),
            1 <= i <= n,
            forall|k: int| 1 <= k < i ==> numeral_char(#[trigger] v@[k]),
        ensures
            1 <= i <= n,
            n == v@.len(),
            forall|k: int| 1 <= k < i ==> numeral_char(#[trigger] v@[k]),
            i == n || !numeral_char(v@[i as int]),
        decreases n - i,
    {
        if i == n {
            break;
        }
        if !is_numeral(v[i]) {
            break;
        }
        i = i + 1;
    }
    i
}

/// After the scan, a numbered heading exists exactly when the first
/// non-numeral character is a marker at position two or later; markers are
/// never numeral characters, so the witness is unique.
proof fn lemma_scan_marker_equiv(s: Seq<char>, i: int, markers: spec_fn(char) -> bool)
    requires
        1 <= i <= s.len(),
        forall|k: int| 1 <= k < i ==> numeral_char(#[trigger] s[k]),
        i < s.len() ==> !numeral_char(s[i]),
        forall|c: char| #[trigger] markers(c) ==> !numeral_char(c),
    ensures
        (exists|j: int| #![trigger s[j]] 2 <= j < s.len() && markers(s[j]) && numeral_run(s, 1, j))
            <==> (2 <= i < s.len() && markers(s[i])),
{
    if exists|j: int| #![trigger s[j]] 2 <= j < s.len() && markers(s[j]) && numeral_run(s, 1, j) {
        let j = choose|j: int| #![trigger s[j]] 2 <= j < s.len() && markers(s[j]) && numeral_run(
            s,
            1,
            j,
        );
        assert(!numeral_char(s[j]));
        if j < i {
            assert(numeral_char(s[j]));
            assert(false);
        }
        if j > i {
            assert(i < s.len());
            assert(numeral_char(s[i]));
            assert(false);
        }
        assert(j == i);
    }
    if 2 <= i < s.len() && markers(s[i]) {
        assert(numeral_run(s, 1, i));
        assert(s[i] == s[i]);
    }
}

/// Whether `v` matches the built-in volume pattern `第…卷/部`.
pub fn default_volume_is_match(v: &Vec<char>) -> (r: bool)
    ensures
        r == default_volume_match(v@),
{
    if v.len() < 3 {
        return false;
    }
    if v[0] != '第' {
        return false;
    }
    let i = scan_numerals(v);
    proof {
        lemma_scan_marker_equiv(v@, i as int, |c: char| volume_marker_char(c));
    }
    if i < v.len() {
        let c = v[i];
        i >= 2 && (c == '卷' || c == '部')
    } else {
        false
    }
}

fn is_digit(c: char) -> (r: bool)
    ensures
        r == is_ascii_digit_char(c),
{
    let u = c as u32;
    0x30 <= u && u <= 0x39
}

/// Whether `v` begins with the given keyword, in either case of its first
/// letter, followed by one to twenty non-newline characters and nothing more.
fn keyword_heading_is_match(v: &Vec<char>, upper: &Vec<char>, lower: &Vec<char>) -> (r: bool)
    requires
        upper@.len() == lower@.len(),
        upper@.len() >= 1,
    ensures
        r == (keyword_heading_match(v@, upper@) || keyword_heading_match(v@, lower@)),
{
    let w = upper.len();
    if v.len() <= w {
        return false;
    }
    if v.len() - w > 20 {
        return false;
    }
    let mut i: usize = 0;
    let mut as_upper = true;
    let mut as_lower = true;
    while i < w
        invariant
            w == upper@.len(),
            w == lower@.len(),
            w + 1 <= v@.len() <= w + 20,
            i <= w,
            as_upper == (forall|k: int| 0 <= k < i ==> #[trigger] v@[k] == upper@[k]),
            as_lower == (forall|k: int| 0 <= k < i ==> #[trigger] v@[k] == lower@[k]),
        decreases w - i,
    {
        let c = v[i];
        as_upper = as_upper && c == upper[i];
        as_lower = as_lower && c == lower[i];
        i = i + 1;
    }
    if !as_upper && !as_lower {
        return false;
    }
    let mut j: usize = w;
    while j < v.len()
        invariant
            w == upper@.len(),
            w == lower@.len(),
            w <= j <= v@.len(),
            forall|k: int| w <= k < j ==> #[trigger] v@[k] != '\n',
        decreases v@.len() - j,
    {
        if v[j] == '\n' {
            return false;
        }
        j = j + 1;
    }
    true
}

/// Whether `v` matches the built-in chapter pattern.
pub fn default_chapter_is_match(v: &Vec<char>) -> (r: bool)
    ensures
        r == default_chapter_match(v@),
{
    // 第…章/回/节/集/卷/部
    if v.len() >= 3 && v[0] == '第' {
        let i = scan_numerals(v);
        proof {
            lemma_scan_marker_equiv(v@, i as int, |c: char| chapter_marker_char(c));
        }
        if i >= 2 && i < v.len() {
            let c = v[i];
            if c == '章' || c == '回' || c == '节' || c == '集' || c == '卷' || c == '部' {
                return true;
            }
        }
    }
    proof {
        if v@.len() < 3 || v@[0] != '第' {
            assert(!numbered_heading_match(v@, |c: char| chapter_marker_char(c)));
        }
    }
    // Section… / Chapter… / Page…
    let section_u: Vec<char> = vec!['S', 'e', 'c', 't', 'i', 'o', 'n'];
    let section_l: Vec<char> = vec!['s', 'e', 'c', 't', 'i', 'o', 'n'];
    proof {
        assert(section_u@ =~= seq!['S', 'e', 'c', 't', 'i', 'o', 'n']);
        assert(section_l@ =~= seq!['s', 'e', 'c', 't', 'i', 'o', 'n']);
    }
    if keyword_heading_is_match(v, &section_u, &section_l) {
        return true;
    }
    let chapter_u: Vec<char> = vec!['C', 'h', 'a', 'p', 't', 'e', 'r'];
    let chapter_l: Vec<char> = vec!['c', 'h', 'a', 'p', 't', 'e', 'r'];
    proof {
        assert(chapter_u@ =~= seq!['C', 'h', 'a', 'p', 't', 'e', 'r']);
        assert(chapter_l@ =~= seq!['c', 'h', 'a', 'p', 't', 'e', 'r']);
    }
    if keyword_heading_is_match(v, &chapter_u, &chapter_l) {
        return true;
    }
    let page_u: Vec<char> = vec!['P', 'a', 'g', 'e'];
    let page_l: Vec<char> = vec!['p', 'a', 'g', 'e'];
    proof {
        assert(page_u@ =~= seq!['P', 'a', 'g', 'e']);
        assert(page_l@ =~= seq!['p', 'a', 'g', 'e']);
    }
    if keyword_heading_is_match(v, &page_u, &page_l) {
        return true;
    }
    // bare 1-4 digit line, and digits followed by 、
    if v.len() >= 1 && is_digit(v[0]) {
        let n = v.len();
        let mut i: usize = 0;
        loop
            invariant_except_break
                n == v@.len(),
                i <= n,
                forall|k: int| 0 <= k < i ==> is_ascii_digit_char(#[trigger] v@[k]),
            ensures
                i <= n,
                n == v@.len(),
                forall|k: int| 0 <= k < i ==> is_ascii_digit_char(#[trigger] v@[k]),
                i == n || !is_ascii_digit_char(v@[i as int]),
            decreases n - i,
        {
            if i == n {
                break;
            }
            if !is_digit(v[i]) {
                break;
            }
            i = i + 1;
        }
        if i == v.len() && v.len() <= 4 {
            return true;
        }
        if i >= 1 && i < v.len() && v[i] == '、' {
            return true;
        }
        proof {
            lemma_no_enumeration(v@, i as int);
            if v@.len() <= 4 {
                assert(!(i == v@.len()));
                assert(!bare_number_match(v@));
            }
        }
    } else {
        proof {
            if v@.len() >= 1 {
                assert(!bare_number_match(v@));
                if enumeration_match(v@) {
                    let k = choose|k: int| #![trigger v@[k]] 1 <= k < v@.len() && v@[k] == '、'
                        && forall|i2: int| 0 <= i2 < k ==> is_ascii_digit_char(#[trigger] v@[i2]);
                    assert(is_ascii_digit_char(v@[0]));
                    assert(false);
                }
            }
        }
    }
    // 引子, 楔子, 章节…, 序章…
    if v.len() == 2 {
        let a = v[0];
        let b = v[1];
        if (a == '引' && b == '子') || (a == '楔' && b == '子') {
            return true;
        }
    }
    if v.len() >= 2 {
        let a = v[0];
        let b = v[1];
        if (a == '章' && b == '节') || (a == '序' && b == '章') {
            return true;
        }
    }
    false
}

/// After a digit scan that stopped at `i` with no `、` there, no enumeration
/// form exists: any witness would have to sit exactly at `i`.
proof fn lemma_no_enumeration(s: Seq<char>, i: int)
    requires
        0 <= i <= s.len(),
        forall|k: int| 0 <= k < i ==> is_ascii_digit_char(#[trigger] s[k]),
        i < s.len() ==> !is_ascii_digit_char(s[i]),
        !(1 <= i < s.len() && s[i] == '、'),
    ensures
        !enumeration_match(s),
{
    if enumeration_match(s) {
        let k = choose|k: int| #![trigger s[k]] 1 <= k < s.len() && s[k] == '、' && forall|i2: int|
            0 <= i2 < k ==> is_ascii_digit_char(#[trigger] s[i2]);
        assert(!is_ascii_digit_char(s[k]));
        if k < i {
            assert(is_ascii_digit_char(s[k]));
            assert(false);
        }
        if k > i {
            assert(is_ascii_digit_char(s[i]));
            assert(false);
        }
        assert(false);
    }
}

/// A classification pattern: one of the two built-in defaults, or a
/// caller-supplied regular expression.
pub enum TitlePattern {
    DefaultVolume,
    DefaultChapter,
    Custom(regex::Regex),
}

/// Whether a pattern matches a line.
pub open spec fn pattern_matches(p: TitlePattern, line: Seq<char>) -> bool {
    match p {
        TitlePattern::DefaultVolume => default_volume_match(line),
        TitlePattern::DefaultChapter => default_chapter_match(line),
        TitlePattern::Custom(re) => regex_accepts(re, line),
    }
}

/// Applies a pattern to a line.
pub fn matches_line(p: &TitlePattern, line: &str) -> (r: bool)
    ensures
        r == pattern_matches(*p, line@),
{
    match p {
        TitlePattern::DefaultVolume => {
            let v = str_chars(line);
            default_volume_is_match(&v)
        },
        TitlePattern::DefaultChapter => {
            let v = str_chars(line);
            default_chapter_is_match(&v)
        },
        TitlePattern::Custom(re) => regex_is_match(re, line),
    }
}

/// The decision the classifier owes for a line: the volume pattern is checked
/// first, so a line matching both patterns is a volume heading.
pub enum LineClass {
    Volume,
    Chapter,
    Body,
}

pub open spec fn line_class(vol: TitlePattern, chap: TitlePattern, line: Seq<char>) -> LineClass {
    if pattern_matches(vol, line) {
        LineClass::Volume
    } else if pattern_matches(chap, line) {
        LineClass::Chapter
    } else {
        LineClass::Body
    }
}

/// A line together with its classification; the text is carried unchanged.
pub enum ClassifiedLine {
    VolumeHeading(String),
    ChapterHeading(String),
    Body(String),
}

/// Classifies one trimmed line, volume pattern first.
pub fn classify(line: String, vol: &TitlePattern, chap: &TitlePattern) -> (c: ClassifiedLine)
    ensures
        line_class(*vol, *chap, line@) is Volume ==> c == ClassifiedLine::VolumeHeading(line),
        line_class(*vol, *chap, line@) is Chapter ==> c == ClassifiedLine::ChapterHeading(line),
        line_class(*vol, *chap, line@) is Body ==> c == ClassifiedLine::Body(line),
{
    if matches_line(vol, line.as_str()) {
        ClassifiedLine::VolumeHeading(line)
    } else if matches_line(chap, line.as_str()) {
        ClassifiedLine::ChapterHeading(line)
    } else {
        ClassifiedLine::Body(line)
    }
}

/// Classification precedence: a line that matches both the volume and the
/// chapter pattern is always classified as a volume heading, never as a
/// chapter heading.
pub proof fn lemma_classification_precedence(
    vol: TitlePattern,
    chap: TitlePattern,
    line: Seq<char>,
)
    requires
        pattern_matches(vol, line),
        pattern_matches(chap, line),
    ensures
        line_class(vol, chap, line) is Volume,
{
}

} // verus!
