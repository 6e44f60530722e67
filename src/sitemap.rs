//! The index of all published documents: article listings, newest first, and
//! the records of the XML sitemap.
use vstd::prelude::*;
use crate::content::{ContentReference, SiteConfiguration};
use crate::dates::{current_timestamp, Timestamp};
use crate::frontmatter::Metadata;
use crate::path::{joined, stem_of};
use crate::text::{append_text, concat_text};

verus! {

/// A document of the site: where it came from, its title and its metadata.
pub type SitemapEntry = (ContentReference, String, Metadata);

/// An article as listed on the index pages.
pub struct ArticleEntry {
    pub title: String,
    pub relative_url: String,
    pub listing_url: String,
    pub full_url: String,
    pub date: Timestamp,
    pub category: String,
}

/// A record of the XML sitemap.
pub struct MapEntry {
    pub location: String,
    pub last_modified: Timestamp,
    pub change_frequency: String,
}

pub struct Sitemap {
    entries: Vec<SitemapEntry>,
    buildstamp: Timestamp,
}

/// A sort key: an article's date and its position among the entries.
pub type ArticleKey = (i64, usize);

/// Places `x` into `s`, kept newest first, after every key at least as new.
pub open spec fn insert_newest_first(s: Seq<ArticleKey>, x: ArticleKey) -> Seq<ArticleKey>
    decreases s.len(),
{
    if s.len() == 0 {
        seq![x]
    } else if s.last().0 >= x.0 {
        s.push(x)
    } else {
        insert_newest_first(s.drop_last(), x).push(s.last())
    }
}

/// The keys sorted newest first; keys of equal date keep their order.
pub open spec fn sort_newest_first(s: Seq<ArticleKey>) -> Seq<ArticleKey>
    decreases s.len(),
{
    if s.len() == 0 {
        s
    } else {
        insert_newest_first(sort_newest_first(s.drop_last()), s.last())
    }
}

/// The order that puts newer keys first.
fn newer_first(a: &ArticleKey, b: &ArticleKey) -> (r: core::cmp::Ordering)
    ensures
        r == (if a.0 > b.0 {
            core::cmp::Ordering::Less
        } else if a.0 < b.0 {
            core::cmp::Ordering::Greater
        } else {
            core::cmp::Ordering::Equal
        }),
{
    if a.0 > b.0 {
        core::cmp::Ordering::Less
    } else if a.0 < b.0 {
        core::cmp::Ordering::Greater
    } else {
        core::cmp::Ordering::Equal
    }
}

/// Relies on itertools' `sorted_by`, a stable sort (it uses `slice::sort_by`),
/// here with `newer_first`: by date, newest first.
#[verifier::external_body]
fn sort_keys(keys: Vec<ArticleKey>) -> (r: Vec<ArticleKey>)
    ensures
        r@ == sort_newest_first(keys@),
{
    itertools::Itertools::sorted_by(keys.into_iter(), |a, b| newer_first(a, b)).collect()
}

/// The sort keys of the articles among `es`, in entry order.
pub open spec fn article_keys(es: Seq<SitemapEntry>) -> Seq<ArticleKey>
    decreases es.len(),
{
    if es.len() == 0 {
        Seq::empty()
    } else {
        match es.last().2 {
            Metadata::Article { date, .. } => article_keys(es.drop_last()).push(
                (date.seconds, (es.len() - 1) as usize),
            ),
            Metadata::Page { .. } => article_keys(es.drop_last()),
        }
    }
}

/// The key names an article of `es` with that date.
pub open spec fn names_article(es: Seq<SitemapEntry>, k: ArticleKey) -> bool {
    &&& k.1 < es.len()
    &&& es[k.1 as int].2 matches Metadata::Article { date, .. }
    &&& date.seconds == k.0
}

/// The listing record of the article `e`.
pub open spec fn article_entry_matches(a: ArticleEntry, e: SitemapEntry, config: SiteConfiguration) -> bool {
    &&& a.title@ == e.1@
    &&& a.relative_url@ == joined(e.0.output_path())
    &&& a.listing_url@ == "/images/listing_"@ + stem_of(e.0.content_path().last()) + ".jpeg"@
    &&& a.full_url@ == config.site_url() + joined(e.0.output_path())
    &&& e.2 matches Metadata::Article { date, category, .. }
    &&& a.date == date
    &&& a.category@ == category@
}

/// The sitemap record of the entry `e`, in a site built at `stamp`.
pub open spec fn map_entry_matches(m: MapEntry, e: SitemapEntry, config: SiteConfiguration, stamp: Timestamp) -> bool {
    &&& m.location@ == config.site_url() + joined(e.0.output_path())
    &&& match e.2 {
        Metadata::Article { date, modified, .. } => {
            &&& m.last_modified == (match modified {
                Some(t) => t,
                None => date,
            })
            &&& m.change_frequency@ == "monthly"@
        },
        Metadata::Page { .. } => {
            &&& m.last_modified == stamp
            &&& m.change_frequency@ == "yearly"@
        },
    }
}

pub(crate) proof fn lemma_insert_keeps(s: Seq<ArticleKey>, x: ArticleKey, p: spec_fn(ArticleKey) -> bool)
    requires
        forall|i: int| 0 <= i < s.len() ==> p(#[trigger] s[i]),
        p(x),
    ensures
        forall|i: int| 0 <= i < insert_newest_first(s, x).len() ==> p(#[trigger] insert_newest_first(s, x)[i]),
        insert_newest_first(s, x).len() == s.len() + 1,
    decreases s.len(),
{
    if s.len() > 0 && s.last().0 < x.0 {
        lemma_insert_keeps(s.drop_last(), x, p);
        let t = insert_newest_first(s.drop_last(), x);
        assert forall|i: int| 0 <= i < t.push(s.last()).len() implies p(#[trigger] t.push(s.last())[i]) by {
            if i < t.len() {
                assert(t.push(s.last())[i] == t[i]);
            }
        }
    } else if s.len() > 0 {
        assert forall|i: int| 0 <= i < s.push(x).len() implies p(#[trigger] s.push(x)[i]) by {
            if i < s.len() {
                assert(s.push(x)[i] == s[i]);
            }
        }
    }
}

/// Sorting keeps every property that all keys have.
pub(crate) proof fn lemma_sort_keeps(s: Seq<ArticleKey>, p: spec_fn(ArticleKey) -> bool)
    requires
        forall|i: int| 0 <= i < s.len() ==> p(#[trigger] s[i]),
    ensures
        forall|i: int| 0 <= i < sort_newest_first(s).len() ==> p(#[trigger] sort_newest_first(s)[i]),
        sort_newest_first(s).len() == s.len(),
    decreases s.len(),
{
    if s.len() > 0 {
        assert forall|i: int| 0 <= i < s.drop_last().len() implies p(#[trigger] s.drop_last()[i]) by {
            assert(s.drop_last()[i] == s[i]);
        }
        lemma_sort_keeps(s.drop_last(), p);
        lemma_insert_keeps(sort_newest_first(s.drop_last()), s.last(), p);
    }
}

pub(crate) proof fn lemma_article_keys(es: Seq<SitemapEntry>)
    requires
        es.len() <= usize::MAX,
    ensures
        forall|i: int| 0 <= i < article_keys(es).len() ==> names_article(es, #[trigger] article_keys(es)[i]),
    decreases es.len(),
{
    if es.len() > 0 {
        let d = es.drop_last();
        lemma_article_keys(d);
        assert forall|i: int| 0 <= i < article_keys(es).len() implies names_article(es, #[trigger] article_keys(es)[i]) by {
            if i < article_keys(d).len() {
                assert(article_keys(es)[i] == article_keys(d)[i]);
                assert(names_article(d, article_keys(d)[i]));
                assert(es[article_keys(d)[i].1 as int] == d[article_keys(d)[i].1 as int]);
            } else {
                assert(es[es.len() - 1] == es.last());
            }
        }
    }
}

impl Sitemap {
    pub closed spec fn entries(&self) -> Seq<SitemapEntry> {
        self.entries@
    }

    pub closed spec fn stamp(&self) -> Timestamp {
        self.buildstamp
    }

    /// Collects the entries and stamps the index with the current time.
    pub fn new(entries: Vec<SitemapEntry>) -> (r: Self)
        ensures
            r.entries() == entries@,
    {
        Sitemap { entries, buildstamp: current_timestamp() }
    }

    /// Collects the entries, stamped with `buildstamp`.
    pub fn with_buildstamp(entries: Vec<SitemapEntry>, buildstamp: Timestamp) -> (r: Self)
        ensures
            r.entries() == entries@,
            r.stamp() == buildstamp,
    {
        Sitemap { entries, buildstamp }
    }

    pub fn get_buildstamp(&self) -> (r: Timestamp)
        ensures
            r == self.stamp(),
    {
        self.buildstamp
    }

    /// The articles, newest first; articles of the same date keep their entry order.
    pub fn get_article_entries(&self, site_config: &SiteConfiguration) -> (r: Vec<ArticleEntry>)
        ensures
            r@.len() == article_keys(self.entries()).len(),
            forall|k: int| 0 <= k < r@.len() ==> article_entry_matches(
                #[trigger] r@[k],
                self.entries()[sort_newest_first(article_keys(self.entries()))[k].1 as int],
                *site_config,
            ),
    {
        let ghost es = self.entries@;
        let mut keys: Vec<ArticleKey> = Vec::new();
        let mut i: usize = 0;
        while i < self.entries.len()
            invariant
                0 <= i <= es.len(),
                es == self.entries@,
                keys@ == article_keys(es.subrange(0, i as int)),
            decreases es.len() - i,
        {
            proof {
                assert(es.subrange(0, i + 1).drop_last() =~= es.subrange(0, i as int));
            }
            match &self.entries[i].2 {
                Metadata::Article { date, .. } => {
                    keys.push((date.seconds, i));
                },
                Metadata::Page { .. } => {},
            }
            i = i + 1;
        }
        assert(es.subrange(0, es.len() as int) =~= es);
        let sorted = sort_keys(keys);
        proof {
            lemma_article_keys(es);
            let p = |k: ArticleKey| names_article(es, k);
            assert forall|j: int| 0 <= j < article_keys(es).len() implies p(#[trigger] article_keys(es)[j]) by {}
            lemma_sort_keeps(article_keys(es), p);
            assert forall|j: int| 0 <= j < sorted@.len() implies names_article(es, #[trigger] sorted@[j]) by {
                assert(p(sort_newest_first(article_keys(es))[j]));
            }
        }
        let mut r: Vec<ArticleEntry> = Vec::new();
        let mut k: usize = 0;
        while k < sorted.len()
            invariant
                0 <= k <= sorted@.len(),
                es == self.entries@,
                sorted@ == sort_newest_first(article_keys(es)),
                forall|j: int| 0 <= j < sorted@.len() ==> names_article(es, #[trigger] sorted@[j]),
                r@.len() == k,
                forall|j: int| 0 <= j < k ==> article_entry_matches(#[trigger] r@[j], es[sorted@[j].1 as int], *site_config),
            decreases sorted@.len() - k,
        {
            let idx = sorted[k].1;
            assert(names_article(es, sorted@[k as int]));
            let entry = &self.entries[idx];
            match &entry.2 {
                Metadata::Article { date, category, .. } => {
                    let slug = entry.0.get_slug();
                    let mut listing_url = concat_text("/images/listing_", slug.as_str());
                    append_text(&mut listing_url, ".jpeg");
                    let a = ArticleEntry {
                        title: entry.1.clone(),
                        relative_url: entry.0.get_relative_url(),
                        listing_url,
                        full_url: entry.0.get_full_url(site_config),
                        date: *date,
                        category: category.clone(),
                    };
                    r.push(a);
                },
                Metadata::Page { .. } => {},
            }
            k = k + 1;
        }
        r
    }

    /// One sitemap record per entry, in entry order.
    pub fn get_map_entries(&self, site_config: &SiteConfiguration) -> (r: Vec<MapEntry>)
        ensures
            r@.len() == self.entries().len(),
            forall|k: int| 0 <= k < r@.len() ==> map_entry_matches(
                #[trigger] r@[k],
                self.entries()[k],
                *site_config,
                self.stamp(),
            ),
    {
        let mut r: Vec<MapEntry> = Vec::new();
        let mut i: usize = 0;
        while i < self.entries.len()
            invariant
                0 <= i <= self.entries@.len(),
                r@.len() == i,
                forall|j: int| 0 <= j < i ==> map_entry_matches(#[trigger] r@[j], self.entries@[j], *site_config, self.buildstamp),
            decreases self.entries@.len() - i,
        {
            let entry = &self.entries[i];
            let location = entry.0.get_full_url(site_config);
            let m = match &entry.2 {
                Metadata::Article { date, modified, .. } => MapEntry {
                    location,
                    last_modified: match modified {
                        Some(t) => *t,
                        None => *date,
                    },
                    change_frequency: "monthly".to_owned(),
                },
                Metadata::Page { .. } => MapEntry {
                    location,
                    last_modified: self.buildstamp,
                    change_frequency: "yearly".to_owned(),
                },
            };
            r.push(m);
            i = i + 1;
        }
        r
    }
}

} // verus!
