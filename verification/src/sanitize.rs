//! The line sanitizer: strips non-printable control characters (keeping tab,
//! newline and carriage return), trims surrounding white space, and sorts the
//! remainder into one of three outcomes: nothing left, a decorative separator
//! line, or a paragraph of text.

use vstd::prelude::*;
use crate::text::{chars_to_string, is_space, is_space_char, str_chars};

verus! {

/// A control character that the sanitizer removes: the C0 range and DEL,
/// except tab, newline and carriage return.
pub open spec fn is_dropped_control(c: char) -> bool {
    (((c as u32) < 0x20 || (c as u32) == 0x7F)) && c != '\t' && c != '\n' && c != '\r'
}

/// `s` with every dropped control character removed, other characters kept in
/// order.
pub open spec fn strip_controls(s: Seq<char>) -> Seq<char>
    decreases s.len(),
{
    if s.len() == 0 {
        Seq::<char>::empty()
    } else if is_dropped_control(s[0]) {
        strip_controls(s.drop_first())
    } else {
        seq![s[0]] + strip_controls(s.drop_first())
    }
}

/// `s` without its leading white space.
pub open spec fn trim_start_spec(s: Seq<char>) -> Seq<char>
    decreases s.len(),
{
    if s.len() > 0 && is_space_char(s[0]) {
        trim_start_spec(s.drop_first())
    } else {
        s
    }
}

/// `s` without its trailing white space.
pub open spec fn trim_end_spec(s: Seq<char>) -> Seq<char>
    decreases s.len(),
{
    if s.len() > 0 && is_space_char(s.last()) {
        trim_end_spec(s.drop_last())
    } else {
        s
    }
}

/// `s` without leading and trailing white space, as `str::trim` leaves it.
pub open spec fn trim_spec(s: Seq<char>) -> Seq<char> {
    trim_end_spec(trim_start_spec(s))
}

/// The pure text portion of sanitization: drop control characters, then trim.
pub open spec fn clean_spec(s: Seq<char>) -> Seq<char> {
    trim_spec(strip_controls(s))
}

/// A decorative separator character: `=`, `-`, em-dash, or `*`.
pub open spec fn is_separator_char(c: char) -> bool {
    c == '=' || c == '-' || c == '—' || c == '*'
}

/// One or more repetitions of a single decorative character and nothing else.
pub open spec fn is_separator_line(s: Seq<char>) -> bool {
    &&& s.len() >= 1
    &&& is_separator_char(s[0])
    &&& forall|i: int| 0 <= i < s.len() ==> #[trigger] s[i] == s[0]
}

/// What sanitizing a line leaves: nothing, a horizontal-rule marker, or a
/// paragraph of cleaned text.
pub enum SanitizedOutcome {
    Empty,
    SeparatorRule,
    Paragraph(String),
}

/// Whether outcome `r` is the one owed for cleaned text `t`.
pub open spec fn outcome_matches(r: SanitizedOutcome, t: Seq<char>) -> bool {
    if t.len() == 0 {
        r is Empty
    } else if is_separator_line(t) {
        r is SeparatorRule
    } else {
        r matches SanitizedOutcome::Paragraph(p) && p@ == t
    }
}

proof fn lemma_strip_controls_clean(s: Seq<char>)
    ensures
        forall|i: int| 0 <= i < strip_controls(s).len() ==> !is_dropped_control(
            #[trigger] strip_controls(s)[i],
        ),
    decreases s.len(),
{
    if s.len() > 0 {
        lemma_strip_controls_clean(s.drop_first());
        assert forall|i: int| 0 <= i < strip_controls(s).len() implies !is_dropped_control(
            #[trigger] strip_controls(s)[i],
        ) by {
            if is_dropped_control(s[0]) {
                assert(strip_controls(s)[i] == strip_controls(s.drop_first())[i]);
            } else if i == 0 {
                assert(strip_controls(s)[0] == s[0]);
            } else {
                assert(strip_controls(s)[i] == strip_controls(s.drop_first())[i - 1]);
            }
        }
    }
}

/// Stripping controls from a sequence that has none is the identity.
proof fn lemma_strip_controls_noop(s: Seq<char>)
    requires
        forall|i: int| 0 <= i < s.len() ==> !is_dropped_control(#[trigger] s[i]),
    ensures
        strip_controls(s) == s,
    decreases s.len(),
{
    if s.len() > 0 {
        lemma_strip_controls_noop(s.drop_first());
        assert(strip_controls(s) =~= s);
    } else {
        assert(strip_controls(s) =~= s);
    }
}

/// If the first `a` characters are white space and the one at `a` (if any) is
/// not, trimming the start leaves exactly the suffix from `a`.
proof fn lemma_trim_start_index(s: Seq<char>, a: int)
    requires
        0 <= a <= s.len(),
        forall|i: int| 0 <= i < a ==> is_space_char(#[trigger] s[i]),
        a < s.len() ==> !is_space_char(s[a]),
    ensures
        trim_start_spec(s) == s.subrange(a, s.len() as int),
    decreases a,
{
    if a == 0 {
        assert(trim_start_spec(s) =~= s.subrange(0, s.len() as int));
    } else {
        lemma_trim_start_index(s.drop_first(), a - 1);
        assert(s.drop_first().subrange(a - 1, s.drop_first().len() as int) =~= s.subrange(
            a,
            s.len() as int,
        ));
    }
}

/// If the characters from `k` on are white space and the one before `k`
/// (if any) is not, trimming the end leaves exactly the prefix up to `k`.
proof fn lemma_trim_end_index(s: Seq<char>, k: int)
    requires
        0 <= k <= s.len(),
        forall|i: int| k <= i < s.len() ==> is_space_char(#[trigger] s[i]),
        k > 0 ==> !is_space_char(s[k - 1]),
    ensures
        trim_end_spec(s) == s.subrange(0, k),
    decreases s.len(),
{
    if s.len() > 0 && is_space_char(s.last()) {
        lemma_trim_end_index(s.drop_last(), k);
        assert(s.drop_last().subrange(0, k) =~= s.subrange(0, k));
    } else {
        assert(trim_end_spec(s) =~= s.subrange(0, k));
    }
}

/// Every character of `trim_start_spec(z)` already occurs in `z`, so a
/// property of all characters survives the trim.
proof fn lemma_trim_start_property(z: Seq<char>, q: spec_fn(char) -> bool)
    requires
        forall|i: int| 0 <= i < z.len() ==> q(#[trigger] z[i]),
    ensures
        forall|i: int| 0 <= i < trim_start_spec(z).len() ==> q(#[trigger] trim_start_spec(z)[i]),
    decreases z.len(),
{
    if z.len() > 0 && is_space_char(z[0]) {
        assert(forall|i: int| 0 <= i < z.drop_first().len() ==> q(#[trigger] z.drop_first()[i]));
        lemma_trim_start_property(z.drop_first(), q);
    }
    assert forall|i: int| 0 <= i < trim_start_spec(z).len() implies q(
        #[trigger] trim_start_spec(z)[i],
    ) by {
        if z.len() > 0 && is_space_char(z[0]) {
            assert(trim_start_spec(z)[i] == trim_start_spec(z.drop_first())[i]);
        } else {
            assert(trim_start_spec(z)[i] == z[i]);
        }
    }
}

proof fn lemma_trim_end_property(z: Seq<char>, q: spec_fn(char) -> bool)
    requires
        forall|i: int| 0 <= i < z.len() ==> q(#[trigger] z[i]),
    ensures
        forall|i: int| 0 <= i < trim_end_spec(z).len() ==> q(#[trigger] trim_end_spec(z)[i]),
    decreases z.len(),
{
    if z.len() > 0 && is_space_char(z.last()) {
        assert(forall|i: int| 0 <= i < z.drop_last().len() ==> q(#[trigger] z.drop_last()[i]));
        lemma_trim_end_property(z.drop_last(), q);
    }
    assert forall|i: int| 0 <= i < trim_end_spec(z).len() implies q(
        #[trigger] trim_end_spec(z)[i],
    ) by {
        if z.len() > 0 && is_space_char(z.last()) {
            assert(trim_end_spec(z)[i] == trim_end_spec(z.drop_last())[i]);
        } else {
            assert(trim_end_spec(z)[i] == z[i]);
        }
    }
}

/// Trimming the end keeps a prefix of the input.
proof fn lemma_trim_end_prefix(z: Seq<char>)
    ensures
        trim_end_spec(z).len() <= z.len(),
        trim_end_spec(z) == z.subrange(0, trim_end_spec(z).len() as int),
    decreases z.len(),
{
    if z.len() > 0 && is_space_char(z.last()) {
        lemma_trim_end_prefix(z.drop_last());
        assert(z.drop_last().subrange(0, trim_end_spec(z).len() as int) =~= z.subrange(
            0,
            trim_end_spec(z).len() as int,
        ));
    } else {
        assert(trim_end_spec(z) =~= z.subrange(0, z.len() as int));
    }
}

/// A trimmed-at-start sequence does not begin with white space.
proof fn lemma_trim_start_no_leading(z: Seq<char>)
    ensures
        trim_start_spec(z).len() > 0 ==> !is_space_char(trim_start_spec(z)[0]),
    decreases z.len(),
{
    if z.len() > 0 && is_space_char(z[0]) {
        lemma_trim_start_no_leading(z.drop_first());
    }
}

/// A trimmed-at-end sequence does not end with white space.
proof fn lemma_trim_end_no_trailing(z: Seq<char>)
    ensures
        trim_end_spec(z).len() > 0 ==> !is_space_char(trim_end_spec(z).last()),
    decreases z.len(),
{
    if z.len() > 0 && is_space_char(z.last()) {
        lemma_trim_end_no_trailing(z.drop_last());
    }
}

/// Trimming an already-trimmed sequence changes nothing.
proof fn lemma_trim_idempotent_core(z: Seq<char>)
    ensures
        trim_spec(trim_spec(z)) == trim_spec(z),
{
    let w = trim_start_spec(z);
    let c = trim_end_spec(w);
    lemma_trim_end_prefix(w);
    lemma_trim_start_no_leading(z);
    lemma_trim_end_no_trailing(w);
    if c.len() > 0 {
        assert(c[0] == w[0]);
        assert(w.len() > 0);
        assert(!is_space_char(c[0]));
        assert(trim_start_spec(c) == c);
        assert(!is_space_char(c.last()));
        assert(trim_end_spec(c) == c);
    } else {
        assert(trim_start_spec(c) == c);
        assert(trim_end_spec(c) == c);
    }
}

/// Sanitization idempotence: the cleaning step is idempotent, so sanitizing
/// already-sanitized text owes exactly the same outcome as sanitizing the
/// original line.
pub proof fn lemma_sanitize_idempotent(x: Seq<char>)
    ensures
        clean_spec(clean_spec(x)) == clean_spec(x),
        forall|r: SanitizedOutcome| outcome_matches(r, clean_spec(clean_spec(x)))
            == outcome_matches(r, clean_spec(x)),
{
    let z = strip_controls(x);
    let c = clean_spec(x);
    lemma_strip_controls_clean(x);
    lemma_trim_start_property(z, |ch: char| !is_dropped_control(ch));
    lemma_trim_end_property(trim_start_spec(z), |ch: char| !is_dropped_control(ch));
    assert(forall|i: int| 0 <= i < c.len() ==> !is_dropped_control(#[trigger] c[i]));
    lemma_strip_controls_noop(c);
    lemma_trim_idempotent_core(z);
    assert(clean_spec(c) == trim_spec(c));
    assert(trim_spec(c) == c);
}

/// Drops every control character of `v`, keeping the rest in order.
pub(crate) fn strip_controls_exec(v: &Vec<char>) -> (r: Vec<char>)
    ensures
        r@ == strip_controls(v@),
{
    let n = v.len();
    let mut r: Vec<char> = Vec::new();
    let mut i: usize = 0;
    proof {
        assert(v@.subrange(0, n as int) =~= v@);
    }
    while i < n
        invariant
            n == v@.len(),
            i <= n,
            r@ + strip_controls(v@.subrange(i as int, n as int)) == strip_controls(v@),
        decreases n - i,
    {
        let c = v[i];
        proof {
            let suf = v@.subrange(i as int, n as int);
            assert(suf[0] == c);
            assert(suf.drop_first() =~= v@.subrange(i as int + 1, n as int));
        }
        let u = c as u32;
        if u < 0x20 || u == 0x7F {
            if c == '\t' || c == '\n' || c == '\r' {
                r.push(c);
                proof {
                    assert(r@ + strip_controls(v@.subrange(i as int + 1, n as int))
                        =~= strip_controls(v@));
                }
            } else {
                proof {
                    assert(r@ + strip_controls(v@.subrange(i as int + 1, n as int))
                        =~= strip_controls(v@));
                }
            }
        } else {
            r.push(c);
            proof {
                assert(r@ + strip_controls(v@.subrange(i as int + 1, n as int))
                    =~= strip_controls(v@));
            }
        }
        i = i + 1;
    }
    proof {
        assert(v@.subrange(n as int, n as int) =~= Seq::<char>::empty());
        assert(r@ =~= r@ + Seq::<char>::empty());
    }
    r
}

/// Trims white space from both ends of `v`.
pub(crate) fn trim_exec(v: &Vec<char>) -> (r: Vec<char>)
    ensures
        r@ == trim_spec(v@),
{
    let n = v.len();
    let mut a: usize = 0;
    loop
        invariant_except_break
            n == v@.len(),
            a <= n,
            forall|i: int| 0 <= i < a ==> is_space_char(#[trigger] v@[i]),
        ensures
            a <= n,
            n == v@.len(),
            forall|i: int| 0 <= i < a ==> is_space_char(#[trigger] v@[i]),
            a == n || !is_space_char(v@[a as int]),
        decreases n - a,
    {
        if a == n {
            break;
        }
        if !is_space(v[a]) {
            break;
        }
        a = a + 1;
    }
    let mut b: usize = n;
    loop
        invariant_except_break
            n == v@.len(),
            a <= b <= n,
            forall|i: int| b <= i < n ==> is_space_char(#[trigger] v@[i]),
            a == n || !is_space_char(v@[a as int]),
        ensures
            a <= b <= n,
            n == v@.len(),
            forall|i: int| b <= i < n ==> is_space_char(#[trigger] v@[i]),
            b == a || !is_space_char(v@[b - 1]),
        decreases b,
    {
        if b == a {
            break;
        }
        if !is_space(v[b - 1]) {
            break;
        }
        b = b - 1;
    }
    let mut r: Vec<char> = Vec::new();
    let mut i: usize = a;
    while i < b
        invariant
            a <= i <= b <= n,
            n == v@.len(),
            r@ == v@.subrange(a as int, i as int),
        decreases b - i,
    {
        r.push(v[i]);
        i = i + 1;
        proof {
            assert(r@ =~= v@.subrange(a as int, i as int));
        }
    }
    proof {
        lemma_trim_start_index(v@, a as int);
        let t = v@.subrange(a as int, n as int);
        if b == a {
            lemma_trim_end_index(t, 0);
        } else {
            lemma_trim_end_index(t, b - a);
        }
        assert(t.subrange(0, b - a) =~= v@.subrange(a as int, b as int));
        assert(r@ =~= v@.subrange(a as int, b as int));
    }
    r
}

/// Whether `v` is one or more repetitions of a single decorative character.
pub(crate) fn is_separator_exec(v: &Vec<char>) -> (r: bool)
    ensures
        r == is_separator_line(v@),
{
    if v.len() == 0 {
        return false;
    }
    let c0 = v[0];
    if !(c0 == '=' || c0 == '-' || c0 == '—' || c0 == '*') {
        return false;
    }
    let mut i: usize = 1;
    while i < v.len()
        invariant
            1 <= i <= v@.len(),
            c0 == v@[0],
            is_separator_char(c0),
            forall|j: int| 0 <= j < i ==> #[trigger] v@[j] == v@[0],
        decreases v@.len() - i,
    {
        if v[i] != c0 {
            return false;
        }
        i = i + 1;
    }
    true
}

/// The pure text portion of sanitization: `text` with control characters
/// removed and surrounding white space trimmed.
pub fn sanitize_text_portion(text: &str) -> (r: String)
    ensures
        r@ == clean_spec(text@),
{
    let v = str_chars(text);
    let stripped = strip_controls_exec(&v);
    let trimmed = trim_exec(&stripped);
    chars_to_string(&trimmed)
}

/// Sanitizes one line of body text: cleans it, then reports whether nothing
/// is left, a decorative separator line, or a paragraph of the cleaned text.
pub fn sanitize(text: &str) -> (r: SanitizedOutcome)
    ensures
        outcome_matches(r, clean_spec(text@)),
{
    let v = str_chars(text);
    let stripped = strip_controls_exec(&v);
    let trimmed = trim_exec(&stripped);
    if trimmed.len() == 0 {
        SanitizedOutcome::Empty
    } else if is_separator_exec(&trimmed) {
        SanitizedOutcome::SeparatorRule
    } else {
        SanitizedOutcome::Paragraph(chars_to_string(&trimmed))
    }
}

} // verus!
