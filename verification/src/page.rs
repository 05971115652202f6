//! What the page templates are filled with.

use vstd::prelude::*;
use vstd::string::StringExecFns;
use crate::blog::license::License;
use crate::blog::{Blog, BlogView};
use crate::text::texts_view;
use crate::timestamp::spec_rfc3339;

verus! {

/// Why the values for a template could not be put together.
#[derive(Debug, Clone, Copy, PartialEq, Eq, Structural)]
pub enum TemplateError {
    /// The modification time cannot be written in RFC 3339.
    Date,
}

/// What a template is told of a license: its name, its address, and which
/// clauses it has.
#[derive(Debug, Clone, PartialEq, Eq)]
pub struct LicenseContext {
    pub name: String,
    pub url: String,
    pub zero: bool,
    pub by: bool,
    pub nc: bool,
    pub nd: bool,
    pub sa: bool,
}

/// The mathematical content of a [`LicenseContext`].
#[verifier::ext_equal]
pub struct LicenseContextView {
    pub name: Seq<char>,
    pub url: Seq<char>,
    pub zero: bool,
    pub by: bool,
    pub nc: bool,
    pub nd: bool,
    pub sa: bool,
}

impl View for LicenseContext {
    type V = LicenseContextView;

    open spec fn view(&self) -> LicenseContextView {
        LicenseContextView {
            name: self.name@,
            url: self.url@,
            zero: self.zero,
            by: self.by,
            nc: self.nc,
            nd: self.nd,
            sa: self.sa,
        }
    }
}

/// What the article template is filled with.
#[derive(Debug, Clone, PartialEq, Eq)]
pub struct PageContext {
    pub title: String,
    /// The modification time in RFC 3339.
    pub date: String,
    pub lang: String,
    pub content: String,
    pub tags: Vec<String>,
    pub copyright_year: i32,
    pub copyright_name: String,
    pub license: Option<LicenseContext>,
}

/// The mathematical content of a [`PageContext`].
#[verifier::ext_equal]
pub struct PageContextView {
    pub title: Seq<char>,
    pub date: Seq<char>,
    pub lang: Seq<char>,
    pub content: Seq<char>,
    pub tags: Seq<Seq<char>>,
    pub copyright_year: i32,
    pub copyright_name: Seq<char>,
    pub license: Option<LicenseContextView>,
}

impl View for PageContext {
    type V = PageContextView;

    open spec fn view(&self) -> PageContextView {
        PageContextView {
            title: self.title@,
            date: self.date@,
            lang: self.lang@,
            content: self.content@,
            tags: texts_view(self.tags@),
            copyright_year: self.copyright_year,
            copyright_name: self.copyright_name@,
            license: match self.license {
                Some(license) => Some(license@),
                None => None,
            },
        }
    }
}

/// What the template of a protected article is filled with.
#[derive(Debug, Clone, PartialEq, Eq)]
pub struct SecretContext {
    pub hint: String,
    /// The encrypted page in base64.
    pub content: String,
}

/// What a template is told of a license. A license is `zero` if it is the
/// public-domain mark and `by` if it is not.
pub open spec fn spec_license_context(license: License) -> LicenseContextView {
    LicenseContextView {
        name: license.spec_canonical_name(),
        url: license.spec_url(),
        zero: license.spec_is_public_domain(),
        by: !license.spec_is_public_domain(),
        nc: license.spec_is_non_commercial(),
        nd: license.spec_is_no_derivatives(),
        sa: license.spec_is_share_alike(),
    }
}

/// What the article template is filled with for an article, the content of
/// its page and the name of the copyright holder; `None` where the
/// modification time cannot be written in RFC 3339.
pub open spec fn spec_page_context(
    blog: BlogView,
    content: Seq<char>,
    copyright_name: Seq<char>,
) -> Option<PageContextView> {
    match spec_rfc3339(blog.modified.unix_nanos, blog.modified.offset_seconds) {
        Some(date) => Some(
            PageContextView {
                title: blog.title,
                date,
                lang: blog.language,
                content,
                tags: blog.tags,
                copyright_year: blog.created.year,
                copyright_name,
                license: match blog.license {
                    Some(license) => Some(spec_license_context(license)),
                    None => None,
                },
            },
        ),
        None => None,
    }
}

/// The line that shows a hint: the hint after `Hint: `, or nothing where
/// there is no hint or an empty one.
pub open spec fn spec_hint_line(hint: Option<Seq<char>>) -> Seq<char> {
    match hint {
        Some(text) => if text.len() > 0 {
            "Hint: "@ + text
        } else {
            Seq::empty()
        },
        None => Seq::empty(),
    }
}

/// What a template is told of a license.
pub fn license_context(license: &License) -> (context: LicenseContext)
    ensures
        context@ == spec_license_context(*license),
{
    LicenseContext {
        name: String::from_str(license.canonical_name()),
        url: String::from_str(license.url()),
        zero: license.is_public_domain(),
        by: !license.is_public_domain(),
        nc: license.is_non_commercial(),
        nd: license.is_no_derivatives(),
        sa: license.is_share_alike(),
    }
}

/// What the article template is filled with.
pub fn page_context(metadata: &Blog, content: String, copyright_name: &str) -> (context: Result<
    PageContext,
    TemplateError,
>)
    ensures
        context is Ok <==> spec_page_context(metadata@, content@, copyright_name@) is Some,
        context matches Ok(page) ==> spec_page_context(metadata@, content@, copyright_name@)
            == Some(page@),
        context matches Err(error) ==> error == TemplateError::Date,
{
    let date = match metadata.modified.rfc3339() {
        Some(date) => date,
        None => {
            return Err(TemplateError::Date);
        },
    };
    let license = match &metadata.license {
        Some(license) => Some(license_context(license)),
        None => None,
    };
    let page = PageContext {
        title: metadata.title.clone(),
        date,
        lang: metadata.language.to_string(),
        content,
        tags: metadata.tags.clone(),
        copyright_year: metadata.get_copyright_year(),
        copyright_name: String::from_str(copyright_name),
        license,
    };
    assert(page@ =~= spec_page_context(metadata@, content@, copyright_name@)->0);
    Ok(page)
}

/// What the template of a protected article is filled with: the hint line
/// and the encrypted page.
pub fn secret_context(metadata: &Blog, content: String) -> (context: SecretContext)
    ensures
        context.hint@ == spec_hint_line(metadata@.hint),
        context.content@ == content@,
{
    let hint = match &metadata.hint {
        Some(text) => {
            if text.as_str().is_empty() {
                String::new()
            } else {
                String::from_str("Hint: ").concat(text.as_str())
            }
        },
        None => String::new(),
    };
    SecretContext { hint, content }
}

} // verus!
