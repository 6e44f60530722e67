//! The site configuration and the source-to-output mapping of one content file.
use vstd::prelude::*;
use crate::path::{parts_ok, extension_ok, extension_of, joined, stem_of, with_extension, SitePath};
use crate::text::concat_text;

verus! {

/// The font files handed to the diagram compiler and the image renderer.
pub struct FontBook {
    pub regular: SitePath,
    pub italic: SitePath,
    pub bold: SitePath,
    pub semibold: SitePath,
    pub monospace: SitePath,
}

/// Build parameters, fixed for the whole run.
pub struct SiteConfiguration {
    root_content_path: SitePath,
    root_output_path: SitePath,
    root_url: String,
    d2: SitePath,
    fontbook: FontBook,
}

/// A content path that does not lie strictly below the content root.
#[derive(Debug, Clone, Copy, PartialEq, Eq, Structural)]
pub struct PathMappingError;

impl SiteConfiguration {
    pub closed spec fn content_root(&self) -> Seq<Seq<char>> {
        self.root_content_path@
    }

    pub closed spec fn output_root(&self) -> Seq<Seq<char>> {
        self.root_output_path@
    }

    pub closed spec fn site_url(&self) -> Seq<char> {
        self.root_url@
    }

    pub closed spec fn d2_executable(&self) -> Seq<Seq<char>> {
        self.d2@
    }

    pub closed spec fn fonts(&self) -> FontBook {
        self.fontbook
    }

    pub fn new(
        root_content_path: SitePath,
        root_output_path: SitePath,
        root_url: String,
        d2: SitePath,
        fontbook: FontBook,
    ) -> (r: Self)
        ensures
            r.content_root() == root_content_path@,
            r.output_root() == root_output_path@,
            r.site_url() == root_url@,
            r.d2_executable() == d2@,
            r.fonts() == fontbook,
    {
        SiteConfiguration { root_content_path, root_output_path, root_url, d2, fontbook }
    }

    pub fn get_d2_executable(&self) -> (r: &SitePath)
        ensures
            r@ == self.d2_executable(),
    {
        &self.d2
    }

    pub fn get_site_url(&self) -> (r: &str)
        ensures
            r@ == self.site_url(),
    {
        self.root_url.as_str()
    }

    pub fn get_content_root(&self) -> (r: &SitePath)
        ensures
            r@ == self.content_root(),
            r.wf(),
    {
        proof {
            use_type_invariant(&self.root_content_path);
        }
        &self.root_content_path
    }

    pub fn get_output_root(&self) -> (r: &SitePath)
        ensures
            r@ == self.output_root(),
            r.wf(),
    {
        proof {
            use_type_invariant(&self.root_output_path);
        }
        &self.root_output_path
    }

    /// The site's base URL followed by `s`.
    pub fn resolve_relative_url(&self, s: &str) -> (r: String)
        ensures
            r@ == self.site_url() + s@,
    {
        concat_text(self.root_url.as_str(), s)
    }

    pub fn get_fontbook(&self) -> (r: &FontBook)
        ensures
            *r == self.fonts(),
    {
        &self.fontbook
    }
}

/// One source file: where it is read from, below the content root, and where
/// its output goes, below the output root.
pub struct ContentReference {
    content_file_path: SitePath,
    output_file_path: SitePath,
}

impl ContentReference {
    /// The source path, relative to the content root.
    pub closed spec fn content_path(&self) -> Seq<Seq<char>> {
        self.content_file_path@
    }

    /// The output path, relative to the output root.
    pub closed spec fn output_path(&self) -> Seq<Seq<char>> {
        self.output_file_path@
    }

    #[verifier::type_invariant]
    spec fn inv(&self) -> bool {
        &&& self.content_file_path@.len() > 0
        &&& self.output_file_path@.len() == self.content_file_path@.len()
        &&& self.output_file_path@.drop_last() == self.content_file_path@.drop_last()
    }

    /// Both paths are valid, name at least one component, and lie in the same directory.
    pub closed spec fn wf(&self) -> bool {
        &&& self.content_file_path.wf()
        &&& self.output_file_path.wf()
        &&& self.content_file_path@.len() > 0
        &&& self.output_file_path@.len() == self.content_file_path@.len()
        &&& self.output_file_path@.drop_last() == self.content_file_path@.drop_last()
    }

    /// What well-formedness gives callers: both paths are valid and non-empty.
    pub proof fn lemma_paths_valid(&self)
        requires
            self.wf(),
        ensures
            parts_ok(self.content_path()),
            parts_ok(self.output_path()),
            self.content_path().len() > 0,
            self.output_path().len() > 0,
    {
    }

    /// Maps a full source path to its place below the content root; the
    /// output path starts out equal to it.
    pub fn new(site_config: &SiteConfiguration, content_file_full_path: &SitePath) -> (r: Result<Self, PathMappingError>)
        ensures
            r is Ok <==> is_below(site_config.content_root(), content_file_full_path@),
            r matches Ok(c) ==> {
                &&& c.wf()
                &&& c.content_path() == content_file_full_path@.subrange(
                    site_config.content_root().len() as int,
                    content_file_full_path@.len() as int,
                )
                &&& c.output_path() == c.content_path()
            },
    {
        match content_file_full_path.strip_prefix(&site_config.root_content_path) {
            Some(rel) => {
                proof {
                    use_type_invariant(&rel);
                }
                if rel.len() == 0 {
                    Err(PathMappingError)
                } else {
                    let out = rel.join(&SitePath::empty());
                    assert(out@ =~= rel@);
                    Ok(ContentReference { content_file_path: rel, output_file_path: out })
                }
            },
            None => Err(PathMappingError),
        }
    }

    /// The extension of the source file.
    pub fn get_content_extension(&self) -> (r: Option<String>)
        ensures
            r is Some <==> extension_of(self.content_path().last()) is Some,
            r matches Some(e) ==> extension_of(self.content_path().last()) == Some(e@),
    {
        proof {
            use_type_invariant(self);
            use_type_invariant(&self.content_file_path);
            use_type_invariant(&self.output_file_path);
        }
        self.content_file_path.extension()
    }

    /// Replaces the extension of the output path; the source path is untouched.
    pub fn set_output_extension(&mut self, ext: &str)
        requires
            extension_ok(ext@),
        ensures
            final(self).wf(),
            final(self).content_path() == old(self).content_path(),
            final(self).output_path() == old(self).output_path().drop_last().push(
                with_extension(old(self).output_path().last(), ext@),
            ),
    {
        proof {
            use_type_invariant(&*self);
            use_type_invariant(&self.content_file_path);
            use_type_invariant(&self.output_file_path);
        }
        let mut renamed = self.output_file_path.join(&SitePath::empty());
        assert(renamed@ =~= self.output_file_path@);
        renamed.set_extension(ext);
        assert(renamed@.drop_last() =~= self.output_file_path@.drop_last());
        self.output_file_path = renamed;
        proof {
            use_type_invariant(&self.output_file_path);
        }
    }

    /// The output path, written with `/` separators.
    pub fn get_relative_url(&self) -> (r: String)
        ensures
            r@ == joined(self.output_path()),
    {
        self.output_file_path.to_text()
    }

    /// The site's base URL followed by the output path.
    pub fn get_full_url(&self, site_config: &SiteConfiguration) -> (r: String)
        ensures
            r@ == site_config.site_url() + joined(self.output_path()),
    {
        let rel = self.output_file_path.to_text();
        concat_text(site_config.root_url.as_str(), rel.as_str())
    }

    /// The file stem of the source path, which names the document's own assets.
    pub fn get_slug(&self) -> (r: String)
        ensures
            r@ == stem_of(self.content_path().last()),
    {
        proof {
            use_type_invariant(self);
            use_type_invariant(&self.content_file_path);
            use_type_invariant(&self.output_file_path);
        }
        self.content_file_path.file_stem()
    }

    /// `p` taken relative to the directory that holds the output file.
    pub fn resolve_relative_path(&self, site_config: &SiteConfiguration, p: &SitePath) -> (r: SitePath)
        ensures
            r.wf(),
            r@ == site_config.output_root() + self.output_path().drop_last() + p@,
    {
        proof {
            use_type_invariant(self);
            use_type_invariant(&self.content_file_path);
            use_type_invariant(&self.output_file_path);
        }
        let dir = site_config.root_output_path.join(&self.output_file_path.parent());
        dir.join(p)
    }

    /// Where the source file is read from.
    pub fn source_file(&self, site_config: &SiteConfiguration) -> (r: SitePath)
        ensures
            r.wf(),
            r@ == site_config.content_root() + self.content_path(),
    {
        proof {
            use_type_invariant(self);
            use_type_invariant(&self.content_file_path);
            use_type_invariant(&self.output_file_path);
        }
        site_config.root_content_path.join(&self.content_file_path)
    }

    /// Where the output file is written.
    pub fn output_file(&self, site_config: &SiteConfiguration) -> (r: SitePath)
        ensures
            r.wf(),
            r@ == site_config.output_root() + self.output_path(),
    {
        proof {
            use_type_invariant(self);
            use_type_invariant(&self.content_file_path);
            use_type_invariant(&self.output_file_path);
        }
        site_config.root_output_path.join(&self.output_file_path)
    }
}

/// `path` lies strictly below `root`.
pub open spec fn is_below(root: Seq<Seq<char>>, path: Seq<Seq<char>>) -> bool {
    root.len() < path.len() && path.subrange(0, root.len() as int) == root
}

} // verus!
