use mkcontent::blog::license::License;
use mkcontent::blog::Blog;
use mkcontent::page::{
    license_context, page_context, secret_context, LicenseContext, PageContext, TemplateError,
};
use mkcontent::timestamp::Timestamp;

fn stamp(seconds: i128) -> Timestamp {
    Timestamp::from_unix_nanos(seconds * 1_000_000_000, 0).unwrap()
}

fn parse(source: &str) -> Blog {
    Blog::parse_with_offset(source, stamp(86400 * 366), stamp(1_704_164_645), Some(0)).unwrap().0
}

#[test]
fn context_of_a_page() {
    let blog = parse(
        "---\ntitle=\"T\"\nlanguage=\"fr\"\ntags=[\"a\",\"b\"]\nlicense=\"CC BY-NC-SA 4.0\"\n---\n",
    );
    let context = page_context(&blog, String::from("<p>x</p>"), "Daniel Gu").unwrap();
    assert_eq!(
        context,
        PageContext {
            title: String::from("T"),
            date: String::from("2024-01-02T03:04:05Z"),
            lang: String::from("fr"),
            content: String::from("<p>x</p>"),
            tags: vec![String::from("a"), String::from("b")],
            copyright_year: 1971,
            copyright_name: String::from("Daniel Gu"),
            license: Some(LicenseContext {
                name: String::from("CC BY-NC-SA 4.0"),
                url: String::from("https://creativecommons.org/licenses/by-nc-sa/4.0/"),
                zero: false,
                by: true,
                nc: true,
                nd: false,
                sa: true,
            }),
        }
    );
}

#[test]
fn context_without_a_license() {
    let blog = parse("---\ntitle=\"T\"\n---\n");
    let context = page_context(&blog, String::new(), "").unwrap();
    assert_eq!(context.license, None);
    assert_eq!(context.lang, "en-US");
    assert_eq!(context.tags, Vec::<String>::new());
}

#[test]
fn a_date_that_cannot_be_written_is_an_error() {
    let mut blog = parse("---\ntitle=\"T\"\n---\n");
    blog.modified = Timestamp::from_unix_nanos(0, 1).unwrap();
    assert_eq!(page_context(&blog, String::new(), ""), Err(TemplateError::Date));
}

#[test]
fn flags_of_each_license() {
    let flags = |l: License| {
        let c = license_context(&l);
        (c.zero, c.by, c.nc, c.nd, c.sa)
    };
    assert_eq!(flags(License::CcBy4_0), (false, true, false, false, false));
    assert_eq!(flags(License::CcByNc4_0), (false, true, true, false, false));
    assert_eq!(flags(License::CcByNcNd4_0), (false, true, true, true, false));
    assert_eq!(flags(License::CcByNcSa4_0), (false, true, true, false, true));
    assert_eq!(flags(License::CcByNd4_0), (false, true, false, true, false));
    assert_eq!(flags(License::CcBySa4_0), (false, true, false, false, true));
    assert_eq!(flags(License::Cc01_0), (true, false, false, false, false));
    assert_eq!(license_context(&License::Cc01_0).name, "CC0 1.0");
    assert_eq!(
        license_context(&License::Cc01_0).url,
        "https://creativecommons.org/publicdomain/zero/1.0/"
    );
}

#[test]
fn hint_line() {
    let hinted = parse("---\ntitle=\"T\"\npassword=\"pw\"\nhint=\"think\"\n---\n");
    let context = secret_context(&hinted, String::from("blob"));
    assert_eq!(context.hint, "Hint: think");
    assert_eq!(context.content, "blob");
    let bare = parse("---\ntitle=\"T\"\npassword=\"pw\"\n---\n");
    assert_eq!(secret_context(&bare, String::new()).hint, "");
    let empty = parse("---\ntitle=\"T\"\npassword=\"pw\"\nhint=\"\"\n---\n");
    assert_eq!(secret_context(&empty, String::new()).hint, "");
}
