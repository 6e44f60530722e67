//! The decisions of the two build passes over the content tree.
use vstd::prelude::*;
use crate::content::{ContentReference, PathMappingError, SiteConfiguration};
use crate::path::{extension_of, with_extension, SitePath};

verus! {

/// What the first pass does with one source file.
#[derive(Debug, Clone, Copy, PartialEq, Eq, Structural)]
pub enum FirstPassAction {
    /// A Markdown document, left for the second pass.
    Defer,
    /// A diagram, compiled into the output file (now named `.svg`).
    CompileDiagram,
    /// Any other file, copied byte for byte.
    Copy,
}

/// The source file's extension is `ext`.
pub open spec fn has_extension(c: ContentReference, ext: Seq<char>) -> bool {
    extension_of(c.content_path().last()) == Some(ext)
}

/// Chooses the first pass's work for a source file; a diagram's output is
/// renamed to `.svg`.
pub fn plan_first_pass(content: &mut ContentReference) -> (r: FirstPassAction)
    ensures
        final(content).content_path() == old(content).content_path(),
        has_extension(*old(content), "md"@) ==> r == FirstPassAction::Defer,
        has_extension(*old(content), "d2"@) ==> r == FirstPassAction::CompileDiagram,
        !has_extension(*old(content), "md"@) && !has_extension(*old(content), "d2"@) ==> r
            == FirstPassAction::Copy,
        r == FirstPassAction::CompileDiagram ==> final(content).output_path() == old(
            content,
        ).output_path().drop_last().push(with_extension(old(content).output_path().last(), "svg"@)),
        r != FirstPassAction::CompileDiagram ==> final(content).output_path() == old(content).output_path(),
{
    proof {
        reveal_strlit("svg");
        reveal_strlit("md");
        reveal_strlit("d2");
        assert("md"@[0] != "d2"@[0]);
    }
    match content.get_content_extension() {
        Some(e) => {
            if e == "md".to_owned() {
                FirstPassAction::Defer
            } else if e == "d2".to_owned() {
                content.set_output_extension("svg");
                FirstPassAction::CompileDiagram
            } else {
                FirstPassAction::Copy
            }
        },
        None => FirstPassAction::Copy,
    }
}

/// Whether the second pass renders this source file: it does so for Markdown
/// documents, whose output is renamed to `.html`.
pub fn plan_second_pass(content: &mut ContentReference) -> (r: bool)
    ensures
        final(content).content_path() == old(content).content_path(),
        r == has_extension(*old(content), "md"@),
        r ==> final(content).output_path() == old(content).output_path().drop_last().push(
            with_extension(old(content).output_path().last(), "html"@),
        ),
        !r ==> final(content).output_path() == old(content).output_path(),
{
    proof {
        reveal_strlit("html");
    }
    match content.get_content_extension() {
        Some(e) => {
            if e == "md".to_owned() {
                content.set_output_extension("html");
                true
            } else {
                false
            }
        },
        None => false,
    }
}

/// The output directory that mirrors a directory of the content tree.
pub fn mirrored_directory(site_config: &SiteConfiguration, dir: &SitePath) -> (r: Result<SitePath, PathMappingError>)
    ensures
        r is Ok <==> (site_config.content_root().len() <= dir@.len() && dir@.subrange(
            0,
            site_config.content_root().len() as int,
        ) == site_config.content_root()),
        r matches Ok(p) ==> p.wf() && p@ == site_config.output_root() + dir@.subrange(
            site_config.content_root().len() as int,
            dir@.len() as int,
        ),
{
    match dir.strip_prefix(site_config.get_content_root()) {
        Some(rel) => Ok(site_config.get_output_root().join(&rel)),
        None => Err(PathMappingError),
    }
}

} // verus!
