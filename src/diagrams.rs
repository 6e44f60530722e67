//! The pure parts of the diagram compiler protocol: the bytes fed to the
//! compiler, the reading of its diagnostic lines, and the font-style repair
//! of the vector output it writes.
use vstd::prelude::*;
use crate::frontmatter::{char_lines, find_first, first_index, lemma_first_index, lines_of, split_lines};
use crate::text::{chars_of, string_of, trim_text, trimmed};

verus! {

/// The channel a diagnostic line is logged to.
#[derive(Debug, Clone, Copy, PartialEq, Eq, Structural)]
pub enum LogLevel {
    Info,
    Error,
}

/// One diagnostic line of the compiler, classified.
pub struct Diagnostic {
    pub level: LogLevel,
    pub message: String,
}

/// The font declaration that replaces a compiler-generated font family of
/// the given style; any other text is kept as `matched`.
pub open spec fn font_declaration_of(style: Seq<char>, matched: Seq<char>) -> Seq<char> {
    if style == "regular"@ {
        "Fira Sans;"@
    } else if style == "bold"@ {
        "Fira Sans;font-weight:bold;"@
    } else if style == "italic"@ {
        "Fira Sans;font-style:italic;"@
    } else if style == "semibold"@ {
        "Fira Sans;font-weight:600;"@
    } else {
        matched
    }
}

/// The replacement for one font-family token whose style group is `style`.
pub fn font_declaration(matched: &str, style: &str) -> (r: String)
    ensures
        r@ == font_declaration_of(style@, matched@),
{
    let s = style.to_owned();
    if s == "regular".to_owned() {
        "Fira Sans;".to_owned()
    } else if s == "bold".to_owned() {
        "Fira Sans;font-weight:bold;".to_owned()
    } else if s == "italic".to_owned() {
        "Fira Sans;font-style:italic;".to_owned()
    } else if s == "semibold".to_owned() {
        "Fira Sans;font-weight:600;".to_owned()
    } else {
        matched.to_owned()
    }
}

/// Style text with every compiler-generated font family replaced.
pub uninterp spec fn font_patched(s: Seq<char>) -> Seq<char>;

/// Relies on regex's `Regex::replace_all`: every leftmost non-overlapping
/// match of `"?d2-<digits>-font-(regular|bold|italic|semibold)"?;` in the
/// text is replaced by `font_declaration` of the match and its style group.
#[verifier::external_body]
fn replace_font_tokens(source: &str) -> (r: String)
    ensures
        r@ == font_patched(source@),
{
    let pattern = regex::Regex::new(r#""?d2-\d+-font-(?P<style>regular|bold|italic|semibold)"?;"#)
        .expect("the font token pattern is valid");
    pattern.replace_all(source, |c: &regex::Captures<'_>| font_declaration(&c[0], &c["style"])).into_owned()
}

/// Rewrites the compiler-generated font families of a style block to the
/// site's font, with the weight or style that each one stands for.
pub fn patch_css(source: &str) -> (r: String)
    ensures
        r@ == font_patched(source@),
{
    replace_font_tokens(source)
}

/// How a diagnostic line is read: split at its first `:`; an `info` or `err`
/// prefix selects the channel and is dropped, anything else is informational
/// and kept whole. The message is trimmed.
pub open spec fn diagnostic_of(line: Seq<char>) -> (LogLevel, Seq<char>) {
    let i = first_index(line, ':');
    if 0 <= i < line.len() && line.subrange(0, i) == "info"@ {
        (LogLevel::Info, trimmed(line.subrange(i + 1, line.len() as int)))
    } else if 0 <= i < line.len() && line.subrange(0, i) == "err"@ {
        (LogLevel::Error, trimmed(line.subrange(i + 1, line.len() as int)))
    } else {
        (LogLevel::Info, trimmed(line))
    }
}

/// Classifies one line of the compiler's error stream.
pub fn classify_diagnostic(line: &str) -> (r: Diagnostic)
    ensures
        (r.level, r.message@) == diagnostic_of(line@),
{
    let cs = chars_of(line);
    let n = cs.len();
    let found = find_first(&cs, ':');
    proof {
        lemma_first_index(cs@, ':');
    }
    if let Some(i) = found {
        let mut head: Vec<char> = Vec::new();
        let mut k: usize = 0;
        while k < i
            invariant
                0 <= k <= i < n,
                n == cs@.len(),
                head@ =~= cs@.subrange(0, k as int),
            decreases i - k,
        {
            head.push(cs[k]);
            k = k + 1;
        }
        let mut tail: Vec<char> = Vec::new();
        let mut k: usize = i + 1;
        while k < n
            invariant
                i + 1 <= k <= n,
                n == cs@.len(),
                tail@ =~= cs@.subrange(i + 1, k as int),
            decreases n - k,
        {
            tail.push(cs[k]);
            k = k + 1;
        }
        let prefix = string_of(head.as_slice());
        let rest = string_of(tail.as_slice());
        if prefix == "info".to_owned() {
            return Diagnostic { level: LogLevel::Info, message: trim_text(rest.as_str()) };
        } else if prefix == "err".to_owned() {
            return Diagnostic { level: LogLevel::Error, message: trim_text(rest.as_str()) };
        }
    }
    Diagnostic { level: LogLevel::Info, message: trim_text(line) }
}

/// The bytes fed to the compiler's standard input: the fixed preamble, then
/// the document.
pub fn d2_input(preamble: &[u8], source: &[u8]) -> (r: Vec<u8>)
    ensures
        r@ == preamble@ + source@,
{
    let mut r: Vec<u8> = Vec::new();
    let mut k: usize = 0;
    while k < preamble.len()
        invariant
            0 <= k <= preamble@.len(),
            r@ =~= preamble@.subrange(0, k as int),
        decreases preamble@.len() - k,
    {
        r.push(preamble[k]);
        k = k + 1;
    }
    let mut m: usize = 0;
    while m < source.len()
        invariant
            0 <= m <= source@.len(),
            r@ =~= preamble@ + source@.subrange(0, m as int),
        decreases source@.len() - m,
    {
        r.push(source[m]);
        m = m + 1;
    }
    r
}

/// The lines of a stream: the text cut at each newline, without the empty
/// piece that follows a final newline (an empty stream has no lines). A
/// carriage return before a newline stays in its line; trimming drops it.
pub open spec fn stream_lines(s: Seq<char>) -> Seq<Seq<char>> {
    let ls = split_lines(s);
    if ls.len() > 0 && ls.last().len() == 0 {
        ls.drop_last()
    } else {
        ls
    }
}

/// Classifies each line of the compiler's error stream, in order.
pub fn classify_diagnostics(stream: &str) -> (r: Vec<Diagnostic>)
    ensures
        r@.len() == stream_lines(stream@).len(),
        forall|k: int| 0 <= k < r@.len() ==> ((#[trigger] r@[k]).level, r@[k].message@) == diagnostic_of(
            stream_lines(stream@)[k],
        ),
{
    let cs = chars_of(stream);
    let n = cs.len();
    let lines = lines_of(&cs, 0, n);
    assert(cs@.subrange(0, n as int) =~= cs@);
    let ghost ls = stream_lines(stream@);
    let mut count = lines.len();
    if count > 0 && lines[count - 1].len() == 0 {
        count = count - 1;
    }
    proof {
        assert(char_lines(lines@).len() == lines@.len());
        if lines@.len() > 0 {
            assert(char_lines(lines@).last() == lines@[lines@.len() - 1]@);
        }
        assert forall|k: int| 0 <= k < count implies ls[k] == (#[trigger] lines@[k])@ by {
            assert(char_lines(lines@)[k] == lines@[k]@);
        }
    }
    let mut r: Vec<Diagnostic> = Vec::new();
    let mut k: usize = 0;
    while k < count
        invariant
            0 <= k <= count <= lines@.len(),
            count == ls.len(),
            forall|j: int| 0 <= j < count ==> ls[j] == (#[trigger] lines@[j])@,
            r@.len() == k,
            forall|j: int| 0 <= j < k ==> ((#[trigger] r@[j]).level, r@[j].message@) == diagnostic_of(ls[j]),
        decreases count - k,
    {
        let line = string_of(lines[k].as_slice());
        assert(ls[k as int] == lines@[k as int]@);
        r.push(classify_diagnostic(line.as_str()));
        k = k + 1;
    }
    r
}

} // verus!
