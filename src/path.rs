//! Paths as sequences of named components.
use vstd::prelude::*;
use crate::text::{append_text, chars_of, string_of};

verus! {

/// A component is a non-empty name that holds no separator and is neither
/// the current nor the parent directory.
pub open spec fn part_ok(p: Seq<char>) -> bool {
    &&& p.len() > 0
    &&& !p.contains('/')
    &&& p != seq!['.']
    &&& p != seq!['.', '.']
}

/// Every component is valid.
pub open spec fn parts_ok(ps: Seq<Seq<char>>) -> bool {
    forall|i: int| 0 <= i < ps.len() ==> part_ok(#[trigger] ps[i])
}

/// Index of the last `.` of a name, or -1 where it has none.
pub open spec fn last_dot(name: Seq<char>) -> int
    decreases name.len(),
{
    if name.len() == 0 {
        -1
    } else if name.last() == '.' {
        name.len() - 1
    } else {
        last_dot(name.drop_last())
    }
}

/// The file stem of a name: all before its last `.`, unless that dot is the
/// first character or there is none, in which case the whole name.
pub open spec fn stem_of(name: Seq<char>) -> Seq<char> {
    let i = last_dot(name);
    if i <= 0 {
        name
    } else {
        name.subrange(0, i)
    }
}

/// The extension of a name: what follows the dot that ends its stem.
pub open spec fn extension_of(name: Seq<char>) -> Option<Seq<char>> {
    let i = last_dot(name);
    if i <= 0 {
        None
    } else {
        Some(name.subrange(i + 1, name.len() as int))
    }
}

/// The name with its extension replaced by `ext`.
pub open spec fn with_extension(name: Seq<char>, ext: Seq<char>) -> Seq<char> {
    stem_of(name) + seq!['.'] + ext
}

/// An extension that can be given to a name: non-empty, without a separator.
pub open spec fn extension_ok(ext: Seq<char>) -> bool {
    ext.len() > 0 && !ext.contains('/')
}

/// The components written out with `/` between them.
pub open spec fn joined(ps: Seq<Seq<char>>) -> Seq<char>
    decreases ps.len(),
{
    if ps.len() == 0 {
        Seq::empty()
    } else if ps.len() == 1 {
        ps[0]
    } else {
        joined(ps.drop_last()) + seq!['/'] + ps.last()
    }
}

/// Whether `c` occurs in `cs`.
fn contains_char(cs: &Vec<char>, c: char) -> (r: bool)
    ensures
        r == cs@.contains(c),
{
    let mut i: usize = 0;
    while i < cs.len()
        invariant
            0 <= i <= cs@.len(),
            forall|j: int| 0 <= j < i ==> cs@[j] != c,
        decreases cs@.len() - i,
    {
        if cs[i] == c {
            assert(cs@[i as int] == c);
            return true;
        }
        i = i + 1;
    }
    false
}

/// The character sequences of the given strings.
pub open spec fn views_of(v: Seq<String>) -> Seq<Seq<char>> {
    v.map_values(|p: String| p@)
}

proof fn lemma_last_dot(name: Seq<char>)
    ensures
        -1 <= last_dot(name) < name.len(),
        last_dot(name) >= 0 ==> name[last_dot(name)] == '.',
    decreases name.len(),
{
    if name.len() > 0 && name.last() != '.' {
        lemma_last_dot(name.drop_last());
    }
}

/// The file stem of the last component of a valid path is not empty.
pub(crate) proof fn lemma_stem_nonempty(ps: Seq<Seq<char>>)
    requires
        parts_ok(ps),
        ps.len() > 0,
    ensures
        stem_of(ps.last()).len() > 0,
{
    assert(part_ok(ps[ps.len() - 1]));
    lemma_last_dot(ps.last());
}

/// Position of the last `.` in `cs`.
fn find_last_dot(cs: &Vec<char>) -> (r: Option<usize>)
    ensures
        r is None <==> last_dot(cs@) == -1,
        r matches Some(i) ==> i == last_dot(cs@),
{
    let mut best: Option<usize> = None;
    let mut i: usize = 0;
    while i < cs.len()
        invariant
            0 <= i <= cs@.len(),
            best is None <==> last_dot(cs@.subrange(0, i as int)) == -1,
            best matches Some(b) ==> b == last_dot(cs@.subrange(0, i as int)),
        decreases cs@.len() - i,
    {
        proof {
            lemma_last_dot(cs@.subrange(0, i as int));
            assert(cs@.subrange(0, i + 1).drop_last() =~= cs@.subrange(0, i as int));
        }
        if cs[i] == '.' {
            best = Some(i);
        }
        i = i + 1;
    }
    assert(cs@.subrange(0, cs@.len() as int) =~= cs@);
    best
}

/// The file stem of the name, as characters.
fn stem_chars(cs: &Vec<char>) -> (r: Vec<char>)
    ensures
        r@ == stem_of(cs@),
{
    proof {
        lemma_last_dot(cs@);
    }
    let end = match find_last_dot(cs) {
        Some(i) => if i > 0 { i } else { cs.len() },
        None => cs.len(),
    };
    let mut r: Vec<char> = Vec::new();
    let mut k: usize = 0;
    while k < end
        invariant
            0 <= k <= end <= cs@.len(),
            r@ =~= cs@.subrange(0, k as int),
        decreases end - k,
    {
        r.push(cs[k]);
        k = k + 1;
    }
    assert(cs@.subrange(0, cs@.len() as int) =~= cs@);
    r
}

/// A path as the sequence of its named components. The root of an absolute
/// path is not recorded: the build only handles absolute paths of one file
/// system and paths relative to its roots.
pub struct SitePath {
    parts: Vec<String>,
}

impl View for SitePath {
    type V = Seq<Seq<char>>;

    closed spec fn view(&self) -> Seq<Seq<char>> {
        views_of(self.parts@)
    }
}

impl SitePath {
    /// Every component is valid.
    pub open spec fn wf(&self) -> bool {
        parts_ok(self@)
    }

    #[verifier::type_invariant]
    pub(crate) open spec fn inv(&self) -> bool {
        parts_ok(self@)
    }


    /// The empty path.
    pub fn empty() -> (r: Self)
        ensures
            r.wf(),
            r@ == Seq::<Seq<char>>::empty(),
    {
        let r = SitePath { parts: Vec::new() };
        assert(r@ =~= Seq::<Seq<char>>::empty());
        r
    }

    /// Appends one component; returns `false`, and changes nothing, where it is
    /// not a valid component.
    pub fn push(&mut self, part: &str) -> (ok: bool)
        ensures
            ok == part_ok(part@),
            ok ==> final(self)@ == old(self)@.push(part@),
            !ok ==> final(self)@ == old(self)@,
            final(self).wf(),
    {
        proof {
            use_type_invariant(&*self);
        }
        let cs = chars_of(part);
        let n = cs.len();
        if n == 0 {
            return false;
        }
        if contains_char(&cs, '/') {
            return false;
        }
        if n == 1 && cs[0] == '.' {
            assert(cs@ =~= seq!['.']);
            return false;
        }
        if n == 2 && cs[0] == '.' && cs[1] == '.' {
            assert(cs@ =~= seq!['.', '.']);
            return false;
        }
        assert(cs@ != seq!['.']) by {
            if cs@ == seq!['.'] {
                assert(cs@[0] == '.');
            }
        }
        assert(cs@ != seq!['.', '.']) by {
            if cs@ == seq!['.', '.'] {
                assert(cs@[0] == '.' && cs@[1] == '.');
            }
        }
        let mut parts: Vec<String> = Vec::new();
        std::mem::swap(&mut parts, &mut self.parts);
        let ghost before = parts@;
        assert(views_of(before) == old(self)@);
        parts.push(string_of(cs.as_slice()));
        assert(views_of(parts@) =~= old(self)@.push(part@));
        assert forall|j: int| 0 <= j < views_of(parts@).len() implies part_ok(#[trigger] views_of(parts@)[j]) by {
            if j < old(self)@.len() {
                assert(views_of(parts@)[j] == old(self)@[j]);
            }
        }
        self.parts = parts;
        true
    }

    pub fn len(&self) -> (r: usize)
        ensures
            r == self@.len(),
    {
        self.parts.len()
    }

    /// The path below `root`: `None` where `root` is not a leading run of its components.
    pub fn strip_prefix(&self, root: &SitePath) -> (r: Option<SitePath>)
        ensures
            r is Some <==> (root@.len() <= self@.len() && self@.subrange(0, root@.len() as int) == root@),
            r matches Some(p) ==> p.wf() && p@ == self@.subrange(root@.len() as int, self@.len() as int),
    {
        proof {
            use_type_invariant(self);
        }
        let n = root.parts.len();
        if n > self.parts.len() {
            return None;
        }
        let mut i: usize = 0;
        while i < n
            invariant
                0 <= i <= n,
                n == root@.len(),
                n <= self@.len(),
                forall|j: int| 0 <= j < i ==> self@[j] == root@[j],
            decreases n - i,
        {
            if self.parts[i] != root.parts[i] {
                assert(self@[i as int] == self.parts@[i as int]@);
                assert(root@[i as int] == root.parts@[i as int]@);
                assert(self@.subrange(0, n as int)[i as int] != root@[i as int]);
                return None;
            }
            proof {
                assert(self@[i as int] == self.parts@[i as int]@);
                assert(root@[i as int] == root.parts@[i as int]@);
            }
            i = i + 1;
        }
        assert(self@.subrange(0, n as int) =~= root@);
        let mut rest: Vec<String> = Vec::new();
        let mut k: usize = n;
        while k < self.parts.len()
            invariant
                n <= k <= self@.len(),
                self.wf(),
                views_of(rest@) =~= self@.subrange(n as int, k as int),
            decreases self@.len() - k,
        {
            let ghost prev = rest@;
            let c = self.parts[k].clone();
            assert(c@ == self.parts@[k as int]@);
            rest.push(c);
            proof {
                assert(self@[k as int] == self.parts@[k as int]@);
                assert(views_of(prev).len() == prev.len());
            }
            assert(views_of(rest@) =~= self@.subrange(n as int, k + 1));
            k = k + 1;
        }
        let r = SitePath { parts: rest };
        assert(r@ =~= self@.subrange(n as int, self@.len() as int));
        assert forall|j: int| 0 <= j < r@.len() implies part_ok(#[trigger] r@[j]) by {
            assert(r@[j] == self@[n + j]);
        }
        Some(r)
    }

    /// The components of `self` followed by those of `other`.
    pub fn join(&self, other: &SitePath) -> (r: SitePath)
        ensures
            r.wf(),
            r@ == self@ + other@,
    {
        proof {
            use_type_invariant(self);
            use_type_invariant(other);
        }
        let mut parts: Vec<String> = Vec::new();
        let mut k: usize = 0;
        while k < self.parts.len()
            invariant
                0 <= k <= self@.len(),
                views_of(parts@) =~= self@.subrange(0, k as int),
            decreases self@.len() - k,
        {
            let ghost prev = parts@;
            parts.push(self.parts[k].clone());
            proof {
                assert(self@[k as int] == self.parts@[k as int]@);
                assert(views_of(prev).len() == prev.len());
            }
            assert(views_of(parts@) =~= self@.subrange(0, k + 1));
            k = k + 1;
        }
        let mut m: usize = 0;
        while m < other.parts.len()
            invariant
                0 <= m <= other@.len(),
                views_of(parts@) =~= self@ + other@.subrange(0, m as int),
            decreases other@.len() - m,
        {
            let ghost prev = parts@;
            parts.push(other.parts[m].clone());
            proof {
                assert(other@[m as int] == other.parts@[m as int]@);
                assert(views_of(prev).len() == prev.len());
                assert(views_of(parts@)[self@.len() + m] == other@[m as int]);
                assert(views_of(parts@) =~= views_of(prev).push(other@[m as int]));
                assert(other@.subrange(0, m + 1) =~= other@.subrange(0, m as int).push(other@[m as int]));
                assert(self@ + other@.subrange(0, m + 1) =~= (self@ + other@.subrange(0, m as int)).push(other@[m as int]));
            }
            assert(views_of(parts@) =~= self@ + other@.subrange(0, m + 1));
            m = m + 1;
        }
        let r = SitePath { parts };
        assert(r@ =~= self@ + other@);
        assert forall|j: int| 0 <= j < r@.len() implies part_ok(#[trigger] r@[j]) by {
            if j < self@.len() {
                assert(r@[j] == self@[j]);
            } else {
                assert(r@[j] == other@[j - self@.len()]);
            }
        }
        r
    }

    /// The path without its last component.
    pub fn parent(&self) -> (r: SitePath)
        requires
            self@.len() > 0,
        ensures
            r.wf(),
            r@ == self@.drop_last(),
    {
        proof {
            use_type_invariant(self);
        }
        let mut parts: Vec<String> = Vec::new();
        let mut k: usize = 0;
        let n = self.parts.len() - 1;
        while k < n
            invariant
                0 <= k <= n,
                n == self@.len() - 1,
                views_of(parts@) =~= self@.subrange(0, k as int),
            decreases n - k,
        {
            let ghost prev = parts@;
            parts.push(self.parts[k].clone());
            proof {
                assert(self@[k as int] == self.parts@[k as int]@);
                assert(views_of(prev).len() == prev.len());
            }
            assert(views_of(parts@) =~= self@.subrange(0, k + 1));
            k = k + 1;
        }
        let r = SitePath { parts };
        assert(r@ =~= self@.drop_last());
        assert forall|j: int| 0 <= j < r@.len() implies part_ok(#[trigger] r@[j]) by {
            assert(r@[j] == self@[j]);
        }
        r
    }

    /// The last component.
    pub fn file_name(&self) -> (r: &String)
        requires
            self@.len() > 0,
        ensures
            r@ == self@.last(),
    {
        let n = self.parts.len();
        &self.parts[n - 1]
    }

    /// The components written out with `/` between them.
    pub fn to_text(&self) -> (r: String)
        ensures
            r@ == joined(self@),
    {
        let mut r = String::new();
        let mut k: usize = 0;
        while k < self.parts.len()
            invariant
                0 <= k <= self@.len(),
                r@ == joined(self@.subrange(0, k as int)),
            decreases self@.len() - k,
        {
            proof {
                assert(self@[k as int] == self.parts@[k as int]@);
                assert(self@.subrange(0, k + 1).drop_last() =~= self@.subrange(0, k as int));
            }
            if k > 0 {
                append_text(&mut r, "/");
                proof {
                    reveal_strlit("/");
                }
            }
            append_text(&mut r, self.parts[k].as_str());
            proof {
                if k == 0 {
                    assert(r@ =~= self@.subrange(0, 1)[0]);
                } else {
                    assert(r@ =~= joined(self@.subrange(0, k as int)) + seq!['/'] + self@[k as int]);
                }
            }
            k = k + 1;
        }
        assert(self@.subrange(0, self@.len() as int) =~= self@);
        r
    }

    /// The file stem of the last component.
    pub fn file_stem(&self) -> (r: String)
        requires
            self@.len() > 0,
        ensures
            r@ == stem_of(self@.last()),
    {
        let cs = chars_of(self.file_name().as_str());
        let st = stem_chars(&cs);
        string_of(st.as_slice())
    }

    /// The extension of the last component, if it has one.
    pub fn extension(&self) -> (r: Option<String>)
        requires
            self@.len() > 0,
        ensures
            r is Some <==> extension_of(self@.last()) is Some,
            r matches Some(e) ==> extension_of(self@.last()) == Some(e@),
    {
        let cs = chars_of(self.file_name().as_str());
        proof {
            lemma_last_dot(cs@);
        }
        match find_last_dot(&cs) {
            Some(i) => {
                if i == 0 {
                    return None;
                }
                let mut r: Vec<char> = Vec::new();
                let mut k: usize = i + 1;
                while k < cs.len()
                    invariant
                        i + 1 <= k <= cs@.len(),
                        r@ =~= cs@.subrange(i + 1, k as int),
                    decreases cs@.len() - k,
                {
                    r.push(cs[k]);
                    k = k + 1;
                }
                Some(string_of(r.as_slice()))
            },
            None => None,
        }
    }

    /// Replaces the extension of the last component by `ext`.
    pub fn set_extension(&mut self, ext: &str)
        requires
            old(self)@.len() > 0,
            extension_ok(ext@),
        ensures
            final(self).wf(),
            final(self)@ == old(self)@.drop_last().push(with_extension(old(self)@.last(), ext@)),
    {
        proof {
            use_type_invariant(&*self);
        }
        let n = self.parts.len();
        let cs = chars_of(self.parts[n - 1].as_str());
        proof {
            assert(self@.last() == self.parts@[n - 1]@);
            lemma_last_dot(cs@);
        }
        let mut name = stem_chars(&cs);
        name.push('.');
        let ec = chars_of(ext);
        let mut k: usize = 0;
        while k < ec.len()
            invariant
                0 <= k <= ec@.len(),
                name@ =~= stem_of(cs@) + seq!['.'] + ec@.subrange(0, k as int),
            decreases ec@.len() - k,
        {
            name.push(ec[k]);
            k = k + 1;
        }
        assert(ec@.subrange(0, ec@.len() as int) =~= ec@);
        let s = string_of(name.as_slice());
        let mut parts: Vec<String> = Vec::new();
        std::mem::swap(&mut parts, &mut self.parts);
        let ghost before = parts@;
        parts.pop();
        parts.push(s);
        proof {
            let w = with_extension(cs@, ext@);
            assert(parts@ =~= before.drop_last().push(s));
            assert(views_of(parts@) =~= old(self)@.drop_last().push(w));
            assert(!w.contains('/')) by {
                if w.contains('/') {
                    let j = choose|j: int| 0 <= j < w.len() && w[j] == '/';
                    let st = stem_of(cs@);
                    if j < st.len() {
                        assert(cs@[j] == '/');
                    } else if j > st.len() {
                        assert(ext@[j - st.len() - 1] == '/');
                    }
                }
            }
            assert(w.len() >= 3);
            assert forall|j: int| 0 <= j < views_of(parts@).len() implies part_ok(#[trigger] views_of(parts@)[j]) by {
                if j < n - 1 {
                    assert(views_of(parts@)[j] == old(self)@[j]);
                } else {
                    assert(views_of(parts@)[j] == w);
                }
            }
        }
        self.parts = parts;
    }
}

} // verus!
