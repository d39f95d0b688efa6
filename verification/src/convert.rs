//! The segmentation engine: a state machine that consumes raw lines one at a
//! time, opens a new section document on every heading, synthesizes a default
//! section when body text appears before any heading, buffers exactly one
//! open section, and hands each section off as soon as the next heading or
//! the end of the input closes it.

use vstd::prelude::*;
use vstd::string::StringExecFns;
use crate::classify::{line_class, matches_line, LineClass, TitlePattern};
use crate::content::{is_page_href, line_markup, Content, FinalizedContent, SectionModel};
use crate::markup::{footer_markup, header_markup};
use crate::sanitize::{clean_spec, sanitize, trim_exec, trim_spec, SanitizedOutcome};
use crate::text::{chars_to_string, str_chars};

verus! {

/// The title of the section synthesized when body text precedes any heading.
pub open spec fn default_title() -> Seq<char> {
    "默认章节"@
}

/// The mathematical state of one conversion run: the two patterns, the
/// currently open section (at most one), and whether any section has been
/// created yet.
pub struct EngineModel {
    pub vol: TitlePattern,
    pub chap: TitlePattern,
    pub open: Option<SectionModel>,
    pub started: bool,
}

/// A section as it stands when it is first opened: the given title and
/// level, the start-of-content mark exactly when no section came before,
/// and the document shell as its markup.
pub open spec fn fresh_section(title: Seq<char>, level: int, started: bool) -> SectionModel {
    SectionModel { title, level, is_start: !started, markup: header_markup(title) }
}

/// An open section implies that a section has been created.
pub open spec fn engine_wf(m: EngineModel) -> bool {
    m.open is Some ==> m.started
}

/// The state after one line, together with the section that line flushed,
/// if any. The raw line is trimmed, classified (volume pattern first), and
/// either opens a new section (flushing the previous one) or is sanitized
/// and appended to the open section — which is synthesized with the default
/// title if body text arrives before any heading. A line whose sanitized
/// text is empty changes nothing.
pub open spec fn step(m: EngineModel, raw: Seq<char>) -> (EngineModel, Option<SectionModel>) {
    let t = trim_spec(raw);
    match line_class(m.vol, m.chap, t) {
        LineClass::Volume => (
            EngineModel { open: Some(fresh_section(t, 0, m.started)), started: true, ..m },
            m.open,
        ),
        LineClass::Chapter => (
            EngineModel { open: Some(fresh_section(t, 1, m.started)), started: true, ..m },
            m.open,
        ),
        LineClass::Body => {
            let u = clean_spec(t);
            if u.len() == 0 {
                (m, None)
            } else {
                let cur = match m.open {
                    Some(s) => s,
                    None => fresh_section(default_title(), 1, m.started),
                };
                (
                    EngineModel {
                        open: Some(
                            SectionModel { markup: cur.markup + line_markup(u), ..cur },
                        ),
                        started: true,
                        ..m
                    },
                    None,
                )
            }
        },
    }
}

/// The sections emitted by a run over `lines` from state `m`, in order,
/// including the final flush of the section still open at end of input.
pub open spec fn run_emits(m: EngineModel, lines: Seq<Seq<char>>) -> Seq<SectionModel>
    decreases lines.len(),
{
    if lines.len() == 0 {
        opt_emits(m.open)
    } else {
        opt_emits(step(m, lines[0]).1) + run_emits(step(m, lines[0]).0, lines.drop_first())
    }
}

pub open spec fn opt_emits(em: Option<SectionModel>) -> Seq<SectionModel> {
    match em {
        None => Seq::<SectionModel>::empty(),
        Some(s) => seq![s],
    }
}

/// A finalized document faithfully renders a section model: its XHTML is the
/// section's markup closed by the footer, its metadata carries over, and its
/// virtual path has the expected shape.
pub open spec fn finalized_matches(f: FinalizedContent, s: SectionModel) -> bool {
    &&& f.xhtml@ == s.markup + footer_markup()
    &&& f.title@ == s.title
    &&& f.level as int == s.level
    &&& f.is_start_of_content == s.is_start
    &&& is_page_href(f.href@)
}

pub open spec fn emit_matches(r: Option<FinalizedContent>, em: Option<SectionModel>) -> bool {
    match em {
        None => r is None,
        Some(s) => r matches Some(f) && finalized_matches(f, s),
    }
}

pub open spec fn emits_match(out: Seq<FinalizedContent>, ems: Seq<SectionModel>) -> bool {
    &&& out.len() == ems.len()
    &&& forall|i: int| 0 <= i < ems.len() ==> finalized_matches(#[trigger] out[i], ems[i])
}

/// The stateful driver of one conversion run.
pub struct ContentConverter {
    vol_regex: TitlePattern,
    chap_regex: TitlePattern,
    content_buffer: Option<Content>,
    started: bool,
}

impl View for ContentConverter {
    type V = EngineModel;

    closed spec fn view(&self) -> EngineModel {
        EngineModel {
            vol: self.vol_regex,
            chap: self.chap_regex,
            open: match self.content_buffer {
                Some(c) => Some(c@),
                None => None,
            },
            started: self.started,
        }
    }
}

impl ContentConverter {
    /// A fresh run with the given volume and chapter patterns: no open
    /// section, no section created yet.
    pub fn new(vol: TitlePattern, chap: TitlePattern) -> (c: ContentConverter)
        ensures
            c@ == (EngineModel { vol, chap, open: None, started: false }),
    {
        ContentConverter { vol_regex: vol, chap_regex: chap, content_buffer: None, started: false }
    }

    /// Finalizes and hands back the open section, if one exists.
    pub fn flush_last_content_buffer(&mut self) -> (r: Option<FinalizedContent>)
        ensures
            final(self)@ == (EngineModel { open: None, ..old(self)@ }),
            emit_matches(r, old(self)@.open),
    {
        let taken = self.content_buffer.take();
        match taken {
            Some(content) => Some(content.into_epub_content()),
            None => None,
        }
    }

    /// Flushes the open section and opens a new one with the given title and
    /// level, marking it as the start of content when it is the first section
    /// of the run.
    fn create_content_buffer(&mut self, title: String, level: i32) -> (r: Option<FinalizedContent>)
        ensures
            final(self)@ == (EngineModel {
                open: Some(fresh_section(title@, level as int, old(self)@.started)),
                started: true,
                ..old(self)@
            }),
            emit_matches(r, old(self)@.open),
    {
        let r = self.flush_last_content_buffer();
        let mut content = Content::new(title, level);
        if !self.started {
            content.set_beginning_of_real_content();
        }
        self.started = true;
        self.content_buffer = Some(content);
        r
    }

    /// Processes one raw line: trims it, classifies it, and either opens a
    /// new section (returning the one it closed) or appends the sanitized
    /// body text to the open section.
    pub fn process_line(&mut self, line: String) -> (r: Option<FinalizedContent>)
        ensures
            final(self)@ == step(old(self)@, line@).0,
            emit_matches(r, step(old(self)@, line@).1),
    {
        let v = str_chars(line.as_str());
        let tv = trim_exec(&v);
        let t = chars_to_string(&tv);
        if matches_line(&self.vol_regex, t.as_str()) {
            self.create_content_buffer(t, 0)
        } else if matches_line(&self.chap_regex, t.as_str()) {
            self.create_content_buffer(t, 1)
        } else {
            let keep = match sanitize(t.as_str()) {
                SanitizedOutcome::Empty => false,
                SanitizedOutcome::SeparatorRule => true,
                SanitizedOutcome::Paragraph(_) => true,
            };
            if keep {
                if self.content_buffer.is_none() {
                    let _flushed = self.create_content_buffer(String::from_str("默认章节"), 1);
                }
                let mut content = self.content_buffer.take().unwrap();
                content.write_line(t);
                self.content_buffer = Some(content);
                self.started = true;
            }
            None
        }
    }

    /// Runs one full conversion: processes every line in order, flushes the
    /// section still open at end of input, and returns the finalized sections
    /// in emission order.
    pub fn covert_content_into_epub(self, lines: Vec<String>) -> (out: Vec<FinalizedContent>)
        ensures
            emits_match(out@, run_emits(self@, lines.deep_view())),
    {
        let ghost init = self@;
        let ghost ld = lines.deep_view();
        let mut me = self;
        let mut out: Vec<FinalizedContent> = Vec::new();
        let ghost mut emitted: Seq<SectionModel> = Seq::<SectionModel>::empty();
        let n = lines.len();
        let mut i: usize = 0;
        proof {
            assert(ld.skip(0) =~= ld);
            assert(emitted + run_emits(me@, ld.skip(0)) =~= run_emits(init, ld));
        }
        while i < n
            invariant
                i <= n,
                n == lines@.len(),
                ld == lines.deep_view(),
                emitted + run_emits(me@, ld.skip(i as int)) == run_emits(init, ld),
                emits_match(out@, emitted),
            decreases n - i,
        {
            let line = lines[i].clone();
            proof {
                assert(line@ == ld[i as int]);
                let suf = ld.skip(i as int);
                assert(suf.len() == n - i);
                assert(suf[0] == ld[i as int]);
                assert(suf.drop_first() =~= ld.skip(i as int + 1));
            }
            let ghost pre = me@;
            let r = me.process_line(line);
            let ghost em = step(pre, ld[i as int]).1;
            match r {
                Some(f) => {
                    out.push(f);
                },
                None => {},
            }
            proof {
                let old_emitted = emitted;
                emitted = emitted + opt_emits(em);
                assert(run_emits(pre, ld.skip(i as int)) == opt_emits(em) + run_emits(
                    me@,
                    ld.skip(i as int + 1),
                ));
                assert(emitted + run_emits(me@, ld.skip(i as int + 1)) =~= old_emitted
                    + run_emits(pre, ld.skip(i as int)));
                assert forall|j: int| 0 <= j < emitted.len() implies finalized_matches(
                    #[trigger] out@[j],
                    emitted[j],
                ) by {
                    if j < old_emitted.len() {
                        assert(finalized_matches(out@[j], old_emitted[j]));
                    }
                }
            }
            i = i + 1;
        }
        proof {
            assert(ld.skip(n as int) =~= Seq::<Seq<char>>::empty());
        }
        let ghost pre = me@;
        let last = me.flush_last_content_buffer();
        match last {
            Some(f) => {
                out.push(f);
            },
            None => {},
        }
        proof {
            assert(run_emits(pre, ld.skip(n as int)) == opt_emits(pre.open));
            let whole = emitted + opt_emits(pre.open);
            assert(whole == run_emits(init, ld));
            assert forall|j: int| 0 <= j < whole.len() implies finalized_matches(
                #[trigger] out@[j],
                whole[j],
            ) by {
                if j < emitted.len() {
                    assert(finalized_matches(out@[j], emitted[j]));
                }
            }
        }
        out
    }
}

/// A fresh run: the two given patterns, nothing open, nothing created.
pub open spec fn init_model(vol: TitlePattern, chap: TitlePattern) -> EngineModel {
    EngineModel { vol, chap, open: None, started: false }
}

/// A raw line the classifier turns into a heading after trimming.
pub open spec fn is_heading_line(vol: TitlePattern, chap: TitlePattern, raw: Seq<char>) -> bool {
    !(line_class(vol, chap, trim_spec(raw)) is Body)
}

/// A raw body line whose sanitized text is not empty: the kind of line that
/// forces a section to exist.
pub open spec fn is_content_line(vol: TitlePattern, chap: TitlePattern, raw: Seq<char>) -> bool {
    &&& line_class(vol, chap, trim_spec(raw)) is Body
    &&& clean_spec(trim_spec(raw)).len() > 0
}

/// The number of heading lines (volume and chapter combined) in `lines`.
pub open spec fn count_headings(vol: TitlePattern, chap: TitlePattern, lines: Seq<Seq<char>>) -> int
    decreases lines.len(),
{
    if lines.len() == 0 {
        0
    } else {
        (if is_heading_line(vol, chap, lines[0]) {
            1int
        } else {
            0int
        }) + count_headings(vol, chap, lines.drop_first())
    }
}

/// Whether a surviving body line appears before the first heading line.
pub open spec fn content_before_first_heading(
    vol: TitlePattern,
    chap: TitlePattern,
    lines: Seq<Seq<char>>,
) -> bool
    decreases lines.len(),
{
    if lines.len() == 0 {
        false
    } else if is_heading_line(vol, chap, lines[0]) {
        false
    } else if is_content_line(vol, chap, lines[0]) {
        true
    } else {
        content_before_first_heading(vol, chap, lines.drop_first())
    }
}

proof fn lemma_run_emits_count_general(m: EngineModel, lines: Seq<Seq<char>>)
    ensures
        run_emits(m, lines).len() == opt_emits(m.open).len() + count_headings(m.vol, m.chap, lines)
            + (if m.open is None && content_before_first_heading(m.vol, m.chap, lines) {
                1int
            } else {
                0int
            }),
    decreases lines.len(),
{
    if lines.len() > 0 {
        let m2 = step(m, lines[0]).0;
        lemma_run_emits_count_general(m2, lines.drop_first());
    }
}

/// Section count invariant: over any line sequence, a fresh run emits one
/// section per heading line, plus exactly one more when a sanitized-nonempty
/// body line precedes the first heading (the synthesized default section).
pub proof fn lemma_section_count(vol: TitlePattern, chap: TitlePattern, lines: Seq<Seq<char>>)
    ensures
        run_emits(init_model(vol, chap), lines).len() == count_headings(vol, chap, lines) + (
        if content_before_first_heading(vol, chap, lines) {
            1int
        } else {
            0int
        }),
{
    lemma_run_emits_count_general(init_model(vol, chap), lines);
}

/// Whether the next section to be opened — or the one already open — carries
/// the start-of-content mark.
pub open spec fn start_flag(m: EngineModel) -> bool {
    match m.open {
        Some(s) => s.is_start,
        None => !m.started,
    }
}

proof fn lemma_run_emits_start_general(m: EngineModel, lines: Seq<Seq<char>>)
    requires
        engine_wf(m),
    ensures
        forall|i: int| 0 <= i < run_emits(m, lines).len() ==> ((#[trigger] run_emits(
            m,
            lines,
        )[i].is_start) <==> (i == 0 && start_flag(m))),
    decreases lines.len(),
{
    if lines.len() > 0 {
        let t = trim_spec(lines[0]);
        let m2 = step(m, lines[0]).0;
        let em = step(m, lines[0]).1;
        let whole = run_emits(m, lines);
        let rec = run_emits(m2, lines.drop_first());
        assert(engine_wf(m2));
        lemma_run_emits_start_general(m2, lines.drop_first());
        assert(whole == opt_emits(em) + rec);
        assert forall|i: int| 0 <= i < whole.len() implies ((#[trigger] whole[i].is_start) <==> (
        i == 0 && start_flag(m))) by {
            if em is Some {
                assert(m.open is Some && em == m.open);
                assert(m.started);
                assert(!start_flag(m2));
                if i == 0 {
                    assert(whole[0] == em->Some_0);
                } else {
                    assert(whole[i] == rec[i - 1]);
                }
            } else {
                assert(whole =~= rec);
                assert(whole[i] == rec[i]);
                assert(start_flag(m2) == start_flag(m));
            }
        }
    }
}

/// Start marker uniqueness: in a fresh run, a section carries the
/// start-of-content mark exactly when it is the first section emitted; a run
/// that emits at least one section therefore has exactly one marked section.
pub proof fn lemma_start_marker_unique(vol: TitlePattern, chap: TitlePattern, lines: Seq<Seq<char>>)
    ensures
        forall|i: int| 0 <= i < run_emits(init_model(vol, chap), lines).len() ==> ((
        #[trigger] run_emits(init_model(vol, chap), lines)[i].is_start) <==> i == 0),
{
    lemma_run_emits_start_general(init_model(vol, chap), lines);
}

} // verus!
