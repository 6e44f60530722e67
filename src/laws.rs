//! Properties that relate several functions of the library.
use vstd::prelude::*;
use crate::content::{ContentReference, SiteConfiguration};
use crate::frontmatter::Metadata;
use crate::path::{extension_of, extension_ok, last_dot, stem_of, with_extension};
use crate::sitemap::{
    article_entry_matches, article_keys, insert_newest_first, map_entry_matches, names_article,
    sort_newest_first, ArticleEntry, ArticleKey, MapEntry, Sitemap,
};

verus! {

proof fn lemma_last_dot_after(x: Seq<char>, ext: Seq<char>)
    requires
        !ext.contains('.'),
    ensures
        last_dot(x + ext) == last_dot(x),
    decreases ext.len(),
{
    if ext.len() == 0 {
        assert(x + ext =~= x);
    } else {
        assert((x + ext).drop_last() =~= x + ext.drop_last());
        assert((x + ext).last() == ext.last());
        assert(ext[ext.len() - 1] != '.');
        assert(!ext.drop_last().contains('.')) by {
            if ext.drop_last().contains('.') {
                let j = choose|j: int| 0 <= j < ext.drop_last().len() && ext.drop_last()[j] == '.';
                assert(ext[j] == '.');
            }
        }
        lemma_last_dot_after(x, ext.drop_last());
    }
}

/// Giving the output path a new extension (one without a dot) keeps the
/// source path, and so the file that is read, as it was; of the output path
/// it keeps the directory and the file stem, and the extension becomes the
/// new one.
pub proof fn extension_change_keeps_source(
    config: SiteConfiguration,
    before: ContentReference,
    after: ContentReference,
    ext: Seq<char>,
)
    requires
        before.wf(),
        extension_ok(ext),
        !ext.contains('.'),
        after.content_path() == before.content_path(),
        after.output_path() == before.output_path().drop_last().push(
            with_extension(before.output_path().last(), ext),
        ),
    ensures
        config.content_root() + after.content_path() == config.content_root() + before.content_path(),
        after.output_path().len() == before.output_path().len(),
        after.output_path().drop_last() == before.output_path().drop_last(),
        stem_of(after.output_path().last()) == stem_of(before.output_path().last()),
        extension_of(after.output_path().last()) == Some(ext),
{
    before.lemma_paths_valid();
    let name = before.output_path().last();
    let st = stem_of(name);
    let w = with_extension(name, ext);
    assert(after.output_path().drop_last() =~= before.output_path().drop_last());
    assert(after.output_path().last() == w);
    assert(st.len() > 0) by {
        crate::path::lemma_stem_nonempty(before.output_path());
    }
    let head = st + seq!['.'];
    assert(w =~= head + ext);
    assert(head.drop_last() =~= st);
    assert(last_dot(head) == st.len() as int);
    lemma_last_dot_after(head, ext);
    assert(w.subrange(0, st.len() as int) =~= st);
    assert(w.subrange(st.len() as int + 1, w.len() as int) =~= ext);
}

/// Sorted newest first: no key is newer than one before it.
pub open spec fn newest_first(s: Seq<ArticleKey>) -> bool {
    forall|i: int, j: int| 0 <= i < j < s.len() ==> s[i].0 >= s[j].0
}

proof fn lemma_insert_sorted(s: Seq<ArticleKey>, x: ArticleKey)
    requires
        newest_first(s),
    ensures
        newest_first(insert_newest_first(s, x)),
    decreases s.len(),
{
    if s.len() > 0 {
        if s.last().0 >= x.0 {
            let t = s.push(x);
            assert forall|i: int, j: int| 0 <= i < j < t.len() implies t[i].0 >= t[j].0 by {
                if j == s.len() {
                    assert(s[i].0 >= s[s.len() - 1].0 || i == s.len() - 1);
                }
            }
        } else {
            let d = s.drop_last();
            assert(newest_first(d));
            lemma_insert_sorted(d, x);
            let t = insert_newest_first(d, x);
            let floor = s.last().0;
            let p = |y: ArticleKey| y.0 >= floor;
            assert forall|i: int| 0 <= i < d.len() implies p(#[trigger] d[i]) by {
                assert(s[i].0 >= s[s.len() - 1].0);
            }
            crate::sitemap::lemma_insert_keeps(d, x, p);
            let u = t.push(s.last());
            assert forall|i: int, j: int| 0 <= i < j < u.len() implies u[i].0 >= u[j].0 by {
                if j == t.len() {
                    assert(p(t[i]));
                }
            }
        }
    }
}

proof fn lemma_sort_sorted(s: Seq<ArticleKey>)
    ensures
        newest_first(sort_newest_first(s)),
    decreases s.len(),
{
    if s.len() > 0 {
        lemma_sort_sorted(s.drop_last());
        lemma_insert_sorted(sort_newest_first(s.drop_last()), s.last());
    }
}

/// The article listing runs newest first: of two listed articles, the
/// earlier one is at least as new.
pub proof fn article_listing_newest_first(sitemap: Sitemap, config: SiteConfiguration, r: Seq<ArticleEntry>)
    requires
        sitemap.entries().len() <= usize::MAX,
        r.len() == article_keys(sitemap.entries()).len(),
        forall|k: int| 0 <= k < r.len() ==> article_entry_matches(
            #[trigger] r[k],
            sitemap.entries()[sort_newest_first(article_keys(sitemap.entries()))[k].1 as int],
            config,
        ),
    ensures
        forall|i: int, j: int| 0 <= i < j < r.len() ==> r[i].date.seconds >= r[j].date.seconds,
{
    let es = sitemap.entries();
    let sorted = sort_newest_first(article_keys(es));
    crate::sitemap::lemma_article_keys(es);
    let p = |k: ArticleKey| names_article(es, k);
    assert forall|j: int| 0 <= j < article_keys(es).len() implies p(#[trigger] article_keys(es)[j]) by {}
    crate::sitemap::lemma_sort_keeps(article_keys(es), p);
    lemma_sort_sorted(article_keys(es));
    assert forall|i: int, j: int| 0 <= i < j < r.len() implies r[i].date.seconds >= r[j].date.seconds by {
        assert(p(sorted[i]));
        assert(p(sorted[j]));
        assert(article_entry_matches(r[i], es[sorted[i].1 as int], config));
        assert(article_entry_matches(r[j], es[sorted[j].1 as int], config));
    }
}

/// Every page of one sitemap gets the same last-modified instant: the
/// sitemap's build stamp.
pub proof fn pages_share_buildstamp(sitemap: Sitemap, config: SiteConfiguration, r: Seq<MapEntry>)
    requires
        r.len() == sitemap.entries().len(),
        forall|k: int| 0 <= k < r.len() ==> map_entry_matches(
            #[trigger] r[k],
            sitemap.entries()[k],
            config,
            sitemap.stamp(),
        ),
    ensures
        forall|i: int| 0 <= i < r.len() && sitemap.entries()[i].2 is Page ==> r[i].last_modified
            == sitemap.stamp(),
        forall|i: int, j: int|
            0 <= i < r.len() && 0 <= j < r.len() && sitemap.entries()[i].2 is Page
                && sitemap.entries()[j].2 is Page ==> r[i].last_modified == r[j].last_modified,
{
    assert forall|i: int| 0 <= i < r.len() && sitemap.entries()[i].2 is Page implies r[i].last_modified
        == sitemap.stamp() by {
        assert(map_entry_matches(r[i], sitemap.entries()[i], config, sitemap.stamp()));
    }
}

} // verus!
