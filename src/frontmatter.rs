//! The frontmatter block of a document and the classification of the document
//! as an article or a page.
use vstd::prelude::*;
use crate::dates::{eastern_midnight, parse_eastern_date, Timestamp};
use crate::text::{chars_of, lowercase_text, lowered, string_of, trim_text, trimmed};

verus! {

/// What a document's frontmatter says it is.
pub enum Metadata {
    Article { date: Timestamp, modified: Option<Timestamp>, category: String },
    Page { description: String },
}

/// The picture that stands for a document in listings: the first image it
/// shows, or else its first code block, highlighted.
pub enum ListingImage {
    ImageUrl(String),
    CodeBlock(String),
}

#[derive(Debug, Clone, Copy, PartialEq, Eq, Structural)]
pub enum FrontmatterError {
    /// The text holds no blank line to end the frontmatter.
    MissingFrontmatter,
    /// The frontmatter has no `title`.
    MissingTitle,
    /// The frontmatter names neither a dated article nor a described page.
    UnclassifiableMetadata,
}

/// A document split into its title, its metadata and its body.
pub struct Frontmatter {
    pub title: String,
    pub metadata: Metadata,
    pub body: String,
}

/// `s` holds two newlines in a row at `i`.
pub open spec fn blank_at(s: Seq<char>, i: int) -> bool {
    0 <= i && i + 1 < s.len() && s[i] == '\n' && s[i + 1] == '\n'
}

/// The first position at or after `i` where two newlines follow each other, or -1.
pub open spec fn blank_from(s: Seq<char>, i: int) -> int
    decreases s.len() - i,
{
    if i < 0 || i + 1 >= s.len() {
        -1
    } else if blank_at(s, i) {
        i
    } else {
        blank_from(s, i + 1)
    }
}

/// Where the frontmatter ends: the first blank line, or -1 where there is none.
pub open spec fn frontmatter_end(s: Seq<char>) -> int {
    blank_from(s, 0)
}

/// The first position of `c` in `s`, or -1.
pub open spec fn first_index(s: Seq<char>, c: char) -> int
    decreases s.len(),
{
    if s.len() == 0 {
        -1
    } else if s[0] == c {
        0
    } else {
        let k = first_index(s.drop_first(), c);
        if k < 0 {
            -1
        } else {
            k + 1
        }
    }
}

/// The text cut at each newline.
pub open spec fn split_lines(s: Seq<char>) -> Seq<Seq<char>>
    decreases s.len(),
{
    let i = first_index(s, '\n');
    if i < 0 || i >= s.len() {
        seq![s]
    } else {
        seq![s.subrange(0, i)] + split_lines(s.subrange(i + 1, s.len() as int))
    }
}

/// The key a line sets: what comes before its first `:`, trimmed and in lower case.
pub open spec fn line_key(l: Seq<char>) -> Option<Seq<char>> {
    let i = first_index(l, ':');
    if 0 <= i < l.len() {
        Some(lowered(trimmed(l.subrange(0, i))))
    } else {
        None
    }
}

/// The value a line sets: what follows its first `:`, trimmed.
pub open spec fn line_value(l: Seq<char>) -> Seq<char> {
    let i = first_index(l, ':');
    trimmed(l.subrange(i + 1, l.len() as int))
}

/// The value of key `k` among these lines: the last line that sets it wins.
pub open spec fn property(lines: Seq<Seq<char>>, k: Seq<char>) -> Option<Seq<char>>
    decreases lines.len(),
{
    if lines.len() == 0 {
        None
    } else if line_key(lines.last()) == Some(k) {
        Some(line_value(lines.last()))
    } else {
        property(lines.drop_last(), k)
    }
}

/// The frontmatter's lines of a text whose frontmatter ends at `frontmatter_end`.
pub open spec fn frontmatter_lines(s: Seq<char>) -> Seq<Seq<char>> {
    split_lines(s.subrange(0, frontmatter_end(s)))
}

pub open spec fn prop_of(s: Seq<char>, k: &str) -> Option<Seq<char>> {
    property(frontmatter_lines(s), k@)
}

/// The instant that a property's value names as a date, if any.
pub open spec fn date_of(v: Option<Seq<char>>) -> Option<i64> {
    match v {
        Some(d) => eastern_midnight(d),
        None => None,
    }
}

pub(crate) proof fn lemma_first_index(s: Seq<char>, c: char)
    ensures
        -1 <= first_index(s, c) < s.len(),
        first_index(s, c) >= 0 ==> s[first_index(s, c)] == c,
        forall|j: int| 0 <= j < s.len() && (first_index(s, c) < 0 || j < first_index(s, c)) ==> s[j] != c,
    decreases s.len(),
{
    if s.len() > 0 && s[0] != c {
        lemma_first_index(s.drop_first(), c);
        assert forall|j: int| 0 <= j < s.len() && (first_index(s, c) < 0 || j < first_index(s, c)) implies s[j] != c by {
            if j > 0 {
                assert(s[j] == s.drop_first()[j - 1]);
            }
        }
    }
}

/// A run without `c` followed by `c` has its first `c` right after the run.
proof fn lemma_first_index_after(a: Seq<char>, rest: Seq<char>, c: char)
    requires
        !a.contains(c),
        rest.len() > 0,
        rest[0] == c,
    ensures
        first_index(a + rest, c) == a.len(),
    decreases a.len(),
{
    if a.len() == 0 {
        assert(a + rest =~= rest);
    } else {
        assert(a[0] != c);
        assert((a + rest).drop_first() =~= a.drop_first() + rest);
        assert(!a.drop_first().contains(c)) by {
            if a.drop_first().contains(c) {
                let j = choose|j: int| 0 <= j < a.drop_first().len() && a.drop_first()[j] == c;
                assert(a[j + 1] == c);
            }
        }
        lemma_first_index_after(a.drop_first(), rest, c);
    }
}

/// A text without `c` has none.
proof fn lemma_first_index_none(a: Seq<char>, c: char)
    requires
        !a.contains(c),
    ensures
        first_index(a, c) == -1,
    decreases a.len(),
{
    if a.len() > 0 {
        assert(a[0] != c);
        assert(!a.drop_first().contains(c)) by {
            if a.drop_first().contains(c) {
                let j = choose|j: int| 0 <= j < a.drop_first().len() && a.drop_first()[j] == c;
                assert(a[j + 1] == c);
            }
        }
        lemma_first_index_none(a.drop_first(), c);
    }
}

/// The character sequences of these lines.
pub open spec fn char_lines(v: Seq<Vec<char>>) -> Seq<Seq<char>> {
    v.map_values(|l: Vec<char>| l@)
}

/// The view of an optional string.
pub open spec fn opt_view(o: Option<String>) -> Option<Seq<char>> {
    match o {
        Some(s) => Some(s@),
        None => None,
    }
}

/// The characters of `cs` from `a` up to `b`.
fn slice_chars(cs: &Vec<char>, a: usize, b: usize) -> (r: Vec<char>)
    requires
        a <= b <= cs@.len(),
    ensures
        r@ == cs@.subrange(a as int, b as int),
{
    let mut r: Vec<char> = Vec::new();
    let mut k: usize = a;
    while k < b
        invariant
            a <= k <= b <= cs@.len(),
            r@ =~= cs@.subrange(a as int, k as int),
        decreases b - k,
    {
        r.push(cs[k]);
        k = k + 1;
    }
    r
}

/// The first position of `c` in `cs`.
pub(crate) fn find_first(cs: &Vec<char>, c: char) -> (r: Option<usize>)
    ensures
        r is None <==> first_index(cs@, c) == -1,
        r matches Some(i) ==> i == first_index(cs@, c),
{
    proof {
        lemma_first_index(cs@, c);
    }
    let mut i: usize = 0;
    while i < cs.len()
        invariant
            0 <= i <= cs@.len(),
            forall|j: int| 0 <= j < i ==> cs@[j] != c,
            -1 <= first_index(cs@, c) < cs@.len(),
            first_index(cs@, c) >= 0 ==> cs@[first_index(cs@, c)] == c,
            forall|j: int| 0 <= j < cs@.len() && (first_index(cs@, c) < 0 || j < first_index(cs@, c)) ==> cs@[j] != c,
        decreases cs@.len() - i,
    {
        if cs[i] == c {
            return Some(i);
        }
        i = i + 1;
    }
    None
}

/// The first position of a blank line in `cs`.
fn find_blank(cs: &Vec<char>) -> (r: Option<usize>)
    ensures
        r is None <==> frontmatter_end(cs@) == -1,
        r matches Some(i) ==> i == frontmatter_end(cs@) && i + 1 < cs@.len(),
{
    let mut i: usize = 0;
    while i < cs.len()
        invariant
            0 <= i <= cs@.len(),
            blank_from(cs@, 0) == blank_from(cs@, i as int),
        decreases cs@.len() - i,
    {
        if i + 1 == cs.len() {
            return None;
        }
        if cs[i] == '\n' && cs[i + 1] == '\n' {
            return Some(i);
        }
        i = i + 1;
    }
    None
}

/// The value that the last line setting `key` gives it.
fn scan_property(lines: &Vec<Vec<char>>, key: &str) -> (r: Option<String>)
    ensures
        opt_view(r) == property(char_lines(lines@), key@),
{
    let k = key.to_owned();
    let mut found: Option<String> = None;
    let mut j: usize = 0;
    while j < lines.len()
        invariant
            0 <= j <= lines@.len(),
            k@ == key@,
            opt_view(found) == property(char_lines(lines@).subrange(0, j as int), key@),
        decreases lines@.len() - j,
    {
        let line = &lines[j];
        proof {
            assert(char_lines(lines@).subrange(0, j + 1).drop_last() =~= char_lines(lines@).subrange(0, j as int));
            assert(char_lines(lines@).subrange(0, j + 1).last() == line@);
            lemma_first_index(line@, ':');
        }
        match find_first(line, ':') {
            Some(i) => {
                let n = line.len();
                assert(i < n);
                let raw_key = string_of(slice_chars(line, 0, i).as_slice());
                let trimmed_key = trim_text(raw_key.as_str());
                let lower_key = lowercase_text(trimmed_key.as_str());
                if lower_key == k {
                    let raw_value = string_of(slice_chars(line, i + 1, n).as_slice());
                    found = Some(trim_text(raw_value.as_str()));
                }
            },
            None => {},
        }
        j = j + 1;
    }
    assert(char_lines(lines@).subrange(0, lines@.len() as int) =~= char_lines(lines@));
    found
}

/// Cuts the text at each newline.
pub(crate) fn lines_of(cs: &Vec<char>, start: usize, end: usize) -> (r: Vec<Vec<char>>)
    requires
        start <= end <= cs@.len(),
    ensures
        char_lines(r@) == split_lines(cs@.subrange(start as int, end as int)),
{
    let mut done: Vec<Vec<char>> = Vec::new();
    let mut cur: Vec<char> = Vec::new();
    let mut i: usize = start;
    while i < end
        invariant
            start <= i <= end <= cs@.len(),
            !cur@.contains('\n'),
            split_lines(cs@.subrange(start as int, end as int)) == char_lines(done@)
                + split_lines(cur@ + cs@.subrange(i as int, end as int)),
        decreases end - i,
    {
        let ghost rest = cs@.subrange(i as int, end as int);
        if cs[i] == '\n' {
            proof {
                lemma_first_index_after(cur@, rest, '\n');
                let t = cur@ + rest;
                assert(t.subrange(0, cur@.len() as int) =~= cur@);
                assert(t.subrange(cur@.len() as int + 1, t.len() as int) =~= cs@.subrange(i + 1, end as int));
                assert(Seq::<char>::empty() + cs@.subrange(i + 1, end as int) =~= cs@.subrange(i + 1, end as int));
            }
            let ghost before = char_lines(done@);
            let line = cur;
            done.push(line);
            cur = Vec::new();
            proof {
                assert(char_lines(done@) =~= before + seq![line@]);
                assert(before + seq![line@] + split_lines(cs@.subrange(i + 1, end as int))
                    =~= before + (seq![line@] + split_lines(cs@.subrange(i + 1, end as int))));
            }
        } else {
            proof {
                assert(cur@ + rest =~= cur@.push(cs@[i as int]) + cs@.subrange(i + 1, end as int));
                assert(!cur@.push(cs@[i as int]).contains('\n')) by {
                    if cur@.push(cs@[i as int]).contains('\n') {
                        let j = choose|j: int| 0 <= j < cur@.len() + 1 && cur@.push(cs@[i as int])[j] == '\n';
                        if j < cur@.len() {
                            assert(cur@[j] == '\n');
                        }
                    }
                }
            }
            cur.push(cs[i]);
        }
        i = i + 1;
    }
    proof {
        assert(cur@ + cs@.subrange(end as int, end as int) =~= cur@);
        lemma_first_index_none(cur@, '\n');
    }
    let ghost before = char_lines(done@);
    done.push(cur);
    assert(char_lines(done@) =~= before + seq![cur@]);
    done
}

/// The document body: all after the blank line that ends the frontmatter.
pub open spec fn body_of(s: Seq<char>) -> Seq<char> {
    s.subrange(frontmatter_end(s) + 2, s.len() as int)
}

/// The frontmatter dates the document and gives it a category.
pub open spec fn is_article(s: Seq<char>) -> bool {
    date_of(prop_of(s, "date")) is Some && prop_of(s, "category") is Some
}

/// The metadata agrees with what the frontmatter of `s` says.
pub open spec fn metadata_matches(s: Seq<char>, m: Metadata) -> bool {
    match m {
        Metadata::Article { date, modified, category } => {
            &&& is_article(s)
            &&& date_of(prop_of(s, "date")) == Some(date.seconds)
            &&& prop_of(s, "category") == Some(category@)
            &&& date_of(prop_of(s, "modified")) == (match modified {
                Some(t) => Some(t.seconds),
                None => None::<i64>,
            })
        },
        Metadata::Page { description } => {
            &&& !is_article(s)
            &&& prop_of(s, "description") == Some(description@)
        },
    }
}

/// Splits a document at its first blank line and reads the `key: value`
/// lines before it. A document with a parseable `date` and a `category` is an
/// article (with an optional `modified` date); otherwise one with a
/// `description` is a page.
pub fn parse_frontmatter(content: &str) -> (r: Result<Frontmatter, FrontmatterError>)
    ensures
        frontmatter_end(content@) == -1 ==> r == Err::<Frontmatter, _>(FrontmatterError::MissingFrontmatter),
        frontmatter_end(content@) >= 0 && prop_of(content@, "title") is None
            ==> r == Err::<Frontmatter, _>(FrontmatterError::MissingTitle),
        frontmatter_end(content@) >= 0 && prop_of(content@, "title") is Some && !is_article(content@)
            && prop_of(content@, "description") is None
            ==> r == Err::<Frontmatter, _>(FrontmatterError::UnclassifiableMetadata),
        r is Ok <==> (frontmatter_end(content@) >= 0 && prop_of(content@, "title") is Some
            && (is_article(content@) || prop_of(content@, "description") is Some)),
        r matches Ok(f) ==> {
            &&& prop_of(content@, "title") == Some(f.title@)
            &&& f.body@ == body_of(content@)
            &&& metadata_matches(content@, f.metadata)
        },
{
    let cs = chars_of(content);
    let end = match find_blank(&cs) {
        Some(e) => e,
        None => {
            return Err(FrontmatterError::MissingFrontmatter);
        },
    };
    let lines = lines_of(&cs, 0, end);
    let title = match scan_property(&lines, "title") {
        Some(t) => t,
        None => {
            return Err(FrontmatterError::MissingTitle);
        },
    };
    let date = match scan_property(&lines, "date") {
        Some(d) => parse_eastern_date(d.as_str()),
        None => None,
    };
    let category = scan_property(&lines, "category");
    let metadata = match (date, category) {
        (Some(date), Some(category)) => {
            let modified = match scan_property(&lines, "modified") {
                Some(d) => parse_eastern_date(d.as_str()),
                None => None,
            };
            Metadata::Article { date, modified, category }
        },
        _ => match scan_property(&lines, "description") {
            Some(description) => Metadata::Page { description },
            None => {
                return Err(FrontmatterError::UnclassifiableMetadata);
            },
        },
    };
    let n = cs.len();
    let body = string_of(slice_chars(&cs, end + 2, n).as_slice());
    Ok(Frontmatter { title, metadata, body })
}

} // verus!
