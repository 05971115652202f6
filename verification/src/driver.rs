//! The decisions of a build: which files are articles, what they are
//! written to, whether a page is encrypted and whether it gets an archive.

use vstd::prelude::*;
use vstd::string::StringExecFns;
use crate::blog::license::{spec_license_text, License};
use crate::blog::manifest::BlogManifest;
use crate::blog::{spec_parse_article, Blog, BlogView};
use crate::blog::manifest::spec_needs_source;
use crate::text::{chars_of, option_text, string_of, texts_view};
use crate::timestamp::Timestamp;

verus! {

/// The switches of a build.
#[derive(Debug, Clone, Copy, PartialEq, Eq, Structural)]
pub struct BuildOptions {
    /// Read and write everything again.
    pub regenerate: bool,
    /// Make no archives.
    pub no_archive: bool,
    /// Write protected articles in the clear.
    pub no_encrypt: bool,
}

/// The names under which an article is written.
#[derive(Debug, Clone, PartialEq, Eq)]
pub struct OutputNames {
    /// The id without its `.md`.
    pub stem: String,
    /// The directory of the article's assets.
    pub assets: String,
    /// The rendered page.
    pub html: String,
    /// The downloadable archive.
    pub archive: String,
}

/// What is done with a rendered article.
#[derive(Debug, Clone, PartialEq, Eq)]
pub enum Plan {
    /// It is encrypted under the password.
    Secret { password: String },
    /// It is written in the clear, with an archive under the license where
    /// there is one.
    Plain { archive: Option<License> },
}

/// The mathematical content of a [`Plan`].
pub enum PlanView {
    Secret { password: Seq<char> },
    Plain { archive: Option<License> },
}

impl View for Plan {
    type V = PlanView;

    open spec fn view(&self) -> PlanView {
        match self {
            Plan::Secret { password } => PlanView::Secret { password: password@ },
            Plan::Plain { archive } => PlanView::Plain { archive: *archive },
        }
    }
}

/// Whether a file name is the id of an article: it ends in `.md`.
pub open spec fn spec_is_article_id(name: Seq<char>) -> bool {
    name.len() >= 3 && name.subrange(name.len() - 3, name.len() as int) == seq!['.', 'm', 'd']
}

/// The id of an article without its `.md`.
pub open spec fn spec_stem(id: Seq<char>) -> Seq<char> {
    id.take(id.len() - 3)
}

/// What is done with a rendered article: it is encrypted where it declares
/// a password and encryption is not switched off; else it is written in
/// the clear, with an archive where it has a license and archives are not
/// switched off.
pub open spec fn spec_plan(blog: BlogView, password: Option<Seq<char>>, options: BuildOptions)
    -> PlanView {
    match password {
        Some(password) if !options.no_encrypt => PlanView::Secret { password },
        _ => PlanView::Plain {
            archive: if options.no_archive {
                None
            } else {
                blog.license
            },
        },
    }
}

/// The article as the catalogue keeps it once it is written: an article
/// written in the clear holds the preview of its page, an encrypted one
/// stays as it is.
pub open spec fn spec_recorded(blog: BlogView, plan: PlanView, preview: Option<Seq<char>>)
    -> BlogView {
    match plan {
        PlanView::Secret { .. } => blog,
        PlanView::Plain { .. } => BlogView { preview, ..blog },
    }
}

/// Whether a file name is the id of an article.
pub fn is_article_id(name: &str) -> (article: bool)
    ensures
        article == spec_is_article_id(name@),
{
    let chars = chars_of(name);
    let len = chars.len();
    if len < 3 {
        return false;
    }
    let article = chars[len - 3] == '.' && chars[len - 2] == 'm' && chars[len - 1] == 'd';
    proof {
        let tail = name@.subrange(len - 3, len as int);
        assert(tail[0] == chars@[len - 3]);
        assert(tail[1] == chars@[len - 2]);
        assert(tail[2] == chars@[len - 1]);
        if article {
            assert(tail =~= seq!['.', 'm', 'd']);
        } else {
            assert(seq!['.', 'm', 'd'][0] == '.');
            assert(seq!['.', 'm', 'd'][1] == 'm');
            assert(seq!['.', 'm', 'd'][2] == 'd');
        }
    }
    article
}

/// The names under which an article is written; `None` for a name that is
/// no article id.
pub fn output_names(id: &str) -> (names: Option<OutputNames>)
    ensures
        names is Some <==> spec_is_article_id(id@),
        names matches Some(n) ==> {
            &&& n.stem@ == spec_stem(id@)
            &&& n.assets@ == spec_stem(id@) + ".assets"@
            &&& n.html@ == spec_stem(id@) + ".html"@
            &&& n.archive@ == spec_stem(id@) + ".zip"@
        },
{
    if !is_article_id(id) {
        return None;
    }
    let chars = chars_of(id);
    let stem = string_of(vstd::slice::slice_subrange(chars.as_slice(), 0, chars.len() - 3));
    assert(stem@ =~= spec_stem(id@));
    let assets = stem.clone().concat(".assets");
    let html = stem.clone().concat(".html");
    let archive = stem.clone().concat(".zip");
    Some(OutputNames { stem, assets, html, archive })
}

/// Whether a front-end asset is copied into the output: when it is not
/// there yet, and on a full regeneration.
pub fn should_stage(present: bool, options: &BuildOptions) -> (stage: bool)
    ensures
        stage == (options.regenerate || !present),
{
    options.regenerate || !present
}

/// What is done with a rendered article.
pub fn plan(blog: &Blog, password: Option<String>, options: &BuildOptions) -> (decided: Plan)
    ensures
        decided@ == spec_plan(blog@, option_text(password), *options),
{
    match password {
        Some(password) if !options.no_encrypt => Plan::Secret { password },
        _ => {
            let archive = match &blog.license {
                Some(license) => {
                    if license.is_permissive() && !options.no_archive {
                        Some(*license)
                    } else {
                        None
                    }
                },
                None => None,
            };
            Plan::Plain { archive }
        },
    }
}

/// Records in the catalogue that an article was written: an article written
/// in the clear gets the preview of its page.
pub fn record(manifest: &mut BlogManifest, id: &str, decided: &Plan, preview: Option<String>)
    requires
        old(manifest).wf(),
    ensures
        final(manifest).wf(),
        final(manifest).tag_index() == old(manifest).tag_index(),
        old(manifest).articles().contains_key(id@) ==> final(manifest).articles() == old(
            manifest,
        ).articles().insert(
            id@,
            spec_recorded(old(manifest).articles()[id@], decided@, option_text(preview)),
        ),
        !old(manifest).articles().contains_key(id@) ==> final(manifest).articles() == old(
            manifest,
        ).articles(),
        old(manifest).consistent() ==> final(manifest).consistent(),
{
    match decided {
        Plan::Secret { .. } => {
            proof {
                if manifest.articles().contains_key(id@) {
                    assert(manifest.articles() =~= manifest.articles().insert(
                        id@,
                        manifest.articles()[id@],
                    ));
                }
            }
        },
        Plan::Plain { .. } => {
            manifest.set_preview(id, preview);
        },
    }
}

/// The notice that goes into the archive of an article. The work is named
/// by the article's id, in the year the article was created.
pub fn archive_notice(id: &str, blog: &Blog, license: &License, copyright_name: &str) -> (notice:
    String)
    ensures
        notice@ == spec_license_text(*license, id@, blog@.created.year as int, copyright_name@),
{
    license.license_text(id, blog.get_copyright_year(), copyright_name)
}

/// The arguments with which the archiver packs the staged directory of an
/// article and removes it: `-r -m`, the archive and the directory.
pub fn archive_arguments(names: &OutputNames) -> (arguments: Vec<String>)
    ensures
        texts_view(arguments@) == seq!["-r"@, "-m"@, names.archive@, names.stem@],
{
    let mut arguments: Vec<String> = Vec::new();
    arguments.push(String::from_str("-r"));
    arguments.push(String::from_str("-m"));
    arguments.push(names.archive.clone());
    arguments.push(names.stem.clone());
    assert(texts_view(arguments@) =~= seq!["-r"@, "-m"@, names.archive@, names.stem@]);
    arguments
}

/// After a build that did not switch encryption off, an article whose page
/// has a first paragraph is protected exactly when it has no preview.
pub proof fn lemma_protected_iff_no_preview(
    source: Seq<char>,
    os_created: Timestamp,
    os_modified: Timestamp,
    local: Option<i32>,
    options: BuildOptions,
    preview: Seq<char>,
)
    requires
        spec_parse_article(source, os_created, os_modified, local) is Ok,
        !options.no_encrypt,
    ensures
        ({
            let (blog, password) = spec_parse_article(source, os_created, os_modified, local)->Ok_0;
            let written = spec_recorded(blog, spec_plan(blog, password, options), Some(preview));
            written.password <==> written.preview is None
        }),
{
}

/// A protected article that is encrypted has no preview, whatever its page
/// holds.
pub proof fn lemma_protected_has_no_preview(
    source: Seq<char>,
    os_created: Timestamp,
    os_modified: Timestamp,
    local: Option<i32>,
    options: BuildOptions,
    preview: Option<Seq<char>>,
)
    requires
        spec_parse_article(source, os_created, os_modified, local) is Ok,
        !options.no_encrypt,
    ensures
        ({
            let (blog, password) = spec_parse_article(source, os_created, os_modified, local)->Ok_0;
            let written = spec_recorded(blog, spec_plan(blog, password, options), preview);
            written.password ==> written.preview is None
        }),
{
}

/// An article that has just been read is not read again: with the same
/// modification time and no regeneration, its source is not needed, and
/// recording its preview does not change that.
pub proof fn lemma_second_build_reads_nothing(
    articles: Map<Seq<char>, BlogView>,
    id: Seq<char>,
    source: Seq<char>,
    os_created: Timestamp,
    os_modified: Timestamp,
    local: Option<i32>,
    decided: PlanView,
    preview: Option<Seq<char>>,
)
    requires
        spec_parse_article(source, os_created, os_modified, local) is Ok,
    ensures
        ({
            let (blog, _) = spec_parse_article(source, os_created, os_modified, local)->Ok_0;
            &&& !spec_needs_source(articles.insert(id, blog), id, os_modified, false)
            &&& !spec_needs_source(
                articles.insert(id, spec_recorded(blog, decided, preview)),
                id,
                os_modified,
                false,
            )
        }),
{
}

} // verus!
