use mkcontent::blog::frontmatter::extract_frontmatter;
use mkcontent::blog::license::License;
use mkcontent::blog::{Blog, BlogBuilder, Language, ParseError};
use mkcontent::table::{RawDate, RawDatetime, RawOffset, RawTime};
use mkcontent::timestamp::Timestamp;

fn stamp(seconds: i128) -> Timestamp {
    Timestamp::from_unix_nanos(seconds * 1_000_000_000, 0).unwrap()
}

fn parse(source: &str) -> Result<(Blog, Option<String>), ParseError> {
    Blog::parse_with_offset(source, stamp(100), stamp(200), Some(3600))
}

#[test]
fn minimum_article() {
    let (blog, password) = parse("---\ntitle=\"Hello\"\n---\nHello world.").unwrap();
    assert_eq!(blog.title, "Hello");
    assert_eq!(blog.tags, Vec::<String>::new());
    assert!(!blog.password);
    assert_eq!(password, None);
    assert_eq!(blog.hint, None);
    assert_eq!(blog.language, Language(String::from("en-US")));
    assert_eq!(blog.license, None);
    assert_eq!(blog.created, stamp(100));
    assert_eq!(blog.modified, stamp(200));
    assert_eq!(blog.preview, None);
}

#[test]
fn every_key_of_the_metadata() {
    let source = "---\ntitle = \"T\"\nlanguage = \"zh-CN\"\nlicense = \"CC BY-SA 4.0\"\ntags = \
                  [\"rust\", \"cli\"]\npassword = \"pw\"\nhint = \"think\"\ncreated = \
                  2024-01-02T03:04:05Z\nextra = 1\n---\nbody";
    let (blog, password) = parse(source).unwrap();
    assert_eq!(blog.title, "T");
    assert_eq!(blog.language.to_string(), "zh-CN");
    assert_eq!(blog.license, Some(License::CcBySa4_0));
    assert_eq!(blog.tags, vec![String::from("rust"), String::from("cli")]);
    assert!(blog.password);
    assert_eq!(password, Some(String::from("pw")));
    assert_eq!(blog.hint, Some(String::from("think")));
    assert_eq!(blog.created, Timestamp::from_civil(2024, 1, 2, 3, 4, 5, 0, 0).unwrap());
    assert_eq!(blog.get_copyright_year(), 2024);
    assert_eq!(blog.modified, stamp(200));
    assert_eq!(blog.preview, None);
}

#[test]
fn password_article() {
    let (blog, password) =
        parse("---\ntitle=\"S\"\npassword=\"pw\"\nhint=\"think\"\n---\nsecret").unwrap();
    assert!(blog.password);
    assert_eq!(password, Some(String::from("pw")));
    assert_eq!(blog.hint, Some(String::from("think")));
    assert_eq!(blog.preview, None);
}

#[test]
fn missing_frontmatter() {
    assert_eq!(parse(""), Err(ParseError::MissingFrontmatter));
    assert_eq!(parse("no fences at all"), Err(ParseError::MissingFrontmatter));
    assert_eq!(parse("---\ntitle=\"open\"\n"), Err(ParseError::MissingFrontmatter));
    assert_eq!(parse("----\ntitle=\"x\"\n----\n"), Err(ParseError::MissingFrontmatter));
}

#[test]
fn malformed_frontmatter() {
    assert_eq!(parse("---\ntitle=\n---\n"), Err(ParseError::MalformedFrontmatter));
    assert_eq!(parse("---\nnot toml\n---\n"), Err(ParseError::MalformedFrontmatter));
    // The title is required.
    assert_eq!(parse("---\n---\n"), Err(ParseError::MalformedFrontmatter));
    assert_eq!(parse("---\nhint=\"h\"\n---\n"), Err(ParseError::MalformedFrontmatter));
    // Keys of the wrong shape.
    assert_eq!(parse("---\ntitle=1\n---\n"), Err(ParseError::MalformedFrontmatter));
    assert_eq!(parse("---\ntitle=\"t\"\npassword=1\n---\n"), Err(ParseError::MalformedFrontmatter));
    assert_eq!(parse("---\ntitle=\"t\"\nhint=[]\n---\n"), Err(ParseError::MalformedFrontmatter));
    assert_eq!(
        parse("---\ntitle=\"t\"\nlanguage=true\n---\n"),
        Err(ParseError::MalformedFrontmatter)
    );
    assert_eq!(parse("---\ntitle=\"t\"\nlicense=4\n---\n"), Err(ParseError::MalformedFrontmatter));
    assert_eq!(parse("---\ntitle=\"t\"\ntags=\"a\"\n---\n"), Err(ParseError::MalformedFrontmatter));
    assert_eq!(
        parse("---\ntitle=\"t\"\ntags=[\"a\", 1]\n---\n"),
        Err(ParseError::MalformedFrontmatter)
    );
    assert_eq!(
        parse("---\ntitle=\"t\"\ncreated=\"2024-01-02\"\n---\n"),
        Err(ParseError::MalformedFrontmatter)
    );
    // A creation time needs a date.
    assert_eq!(
        parse("---\ntitle=\"t\"\ncreated=03:04:05\n---\n"),
        Err(ParseError::MalformedFrontmatter)
    );
    // A duplicate key is no TOML.
    assert_eq!(
        parse("---\ntitle=\"t\"\ntitle=\"u\"\n---\n"),
        Err(ParseError::MalformedFrontmatter)
    );
}

#[test]
fn unknown_license() {
    assert_eq!(parse("---\ntitle=\"t\"\nlicense=\"MIT\"\n---\n"), Err(ParseError::UnknownLicense));
    // A malformed key is reported before an unknown license.
    assert_eq!(
        parse("---\nlicense=\"MIT\"\ntitle=\"t\"\ntags=3\n---\n"),
        Err(ParseError::MalformedFrontmatter)
    );
}

#[test]
fn created_without_time_is_midnight() {
    let (blog, _) = parse("---\ntitle=\"t\"\ncreated=2024-05-06\n---\n").unwrap();
    assert_eq!(blog.created, Timestamp::from_civil(2024, 5, 6, 0, 0, 0, 0, 3600).unwrap());
}

#[test]
fn created_without_offset_is_local() {
    let source = "---\ntitle=\"t\"\ncreated=2024-05-06T07:08:09\n---\n";
    let (blog, _) = parse(source).unwrap();
    assert_eq!(blog.created, Timestamp::from_civil(2024, 5, 6, 7, 8, 9, 0, 3600).unwrap());
    assert_eq!(
        Blog::parse_with_offset(source, stamp(1), stamp(2), None),
        Err(ParseError::IndeterminateOffset)
    );
}

#[test]
fn created_with_offset_ignores_the_local_one() {
    let source = "---\ntitle=\"t\"\ncreated=2024-05-06T07:08:09.25-02:30\n---\n";
    let expected = Timestamp::from_civil(2024, 5, 6, 7, 8, 9, 250_000_000, -9000).unwrap();
    assert_eq!(parse(source).unwrap().0.created, expected);
    assert_eq!(
        Blog::parse_with_offset(source, stamp(1), stamp(2), None).unwrap().0.created,
        expected
    );
    assert_eq!(Blog::parse(source, stamp(1), stamp(2)).unwrap().0.created, expected);
}

#[test]
fn parse_asks_for_the_local_offset_only_when_needed() {
    let source = "---\ntitle=\"Hello\"\n---\nHello world.";
    assert_eq!(Blog::parse(source, stamp(100), stamp(200)), parse(source));
}

#[test]
fn tags_are_trimmed_and_empty_ones_dropped() {
    let (blog, _) =
        parse("---\ntitle=\"t\"\ntags=[\" rust \", \"\", \"  \", \"two words\", \"rust\"]\n---\n")
            .unwrap();
    assert_eq!(
        blog.tags,
        vec![String::from("rust"), String::from("two words"), String::from("rust")]
    );
}

#[test]
fn fences_may_have_white_space_around_them() {
    let (blog, _) = parse("  ---\t\r\ntitle=\"crlf\"\r\n --- \r\nbody\r\n").unwrap();
    assert_eq!(blog.title, "crlf");
}

#[test]
fn frontmatter_block() {
    assert_eq!(
        extract_frontmatter("---\na=1\nb=2\n---\nbody\n---\n"),
        Some(String::from("a=1\nb=2\n"))
    );
    assert_eq!(extract_frontmatter("---\n---"), Some(String::new()));
    assert_eq!(extract_frontmatter("---\r\na=1\r\n---\r\n"), Some(String::from("a=1\n")));
    // Lines above the opening fence are no part of the block.
    assert_eq!(extract_frontmatter("x=1\n---\ny=2\n---\n"), Some(String::from("y=2\n")));
    assert_eq!(extract_frontmatter("title=\"x\"\n---\n---\nbody"), Some(String::new()));
    assert_eq!(extract_frontmatter("---\nno end"), None);
    assert_eq!(extract_frontmatter("--- -\nx\n---\n"), None);
    assert_eq!(extract_frontmatter(""), None);
    assert_eq!(extract_frontmatter("\n\n---\n\n---"), Some(String::from("\n")));
}

#[test]
fn metadata_above_the_opening_fence_does_not_count() {
    assert_eq!(parse("title=\"x\"\n---\n---\nbody"), Err(ParseError::MalformedFrontmatter));
    let (blog, _) = parse("title=\"above\"\n---\ntitle=\"inside\"\n---\nbody").unwrap();
    assert_eq!(blog.title, "inside");
}

#[test]
fn builder_reads_a_block() {
    let builder = BlogBuilder::new("title = \"T\"\ncreated = 2024-01-02T03:04:05+01:00\n").unwrap();
    assert_eq!(builder.title, "T");
    assert_eq!(builder.password, None);
    assert_eq!(builder.language, Language::default());
    assert_eq!(
        builder.created,
        Some(RawDatetime {
            date: Some(RawDate { year: 2024, month: 1, day: 2 }),
            time: Some(RawTime { hour: 3, minute: 4, second: 5, nanosecond: 0 }),
            offset: Some(RawOffset::Custom { minutes: 60 }),
        })
    );
    assert!(!builder.needs_local_offset());
    let (blog, password) = builder.build(stamp(1), stamp(2)).unwrap();
    assert_eq!(password, None);
    assert_eq!(blog.created, Timestamp::from_civil(2024, 1, 2, 3, 4, 5, 0, 3600).unwrap());
    assert_eq!(blog.modified, stamp(2));

    let local = BlogBuilder::new("title = \"T\"\ncreated = 2024-01-02\n").unwrap();
    assert!(local.needs_local_offset());
    assert_eq!(BlogBuilder::new("title = "), Err(ParseError::MalformedFrontmatter));
}

#[test]
fn default_language() {
    assert_eq!(Language::default(), Language(String::from("en-US")));
    assert_eq!(Language::default().to_string(), "en-US");
}

#[test]
fn update_leaves_a_fresh_article_alone() {
    let (mut blog, _) = parse("---\ntitle=\"old\"\n---\n").unwrap();
    let before = blog.clone();
    let newer = "---\ntitle=\"new\"\npassword=\"pw\"\n---\n";
    // Modified at the same time as the catalogue holds, and before it.
    assert_eq!(blog.update(newer, stamp(100), stamp(200), false), Ok(None));
    assert_eq!(blog.update(newer, stamp(100), stamp(150), false), Ok(None));
    assert_eq!(blog, before);
    assert!(!blog.is_stale(&stamp(200), false));
    assert!(blog.is_stale(&stamp(201), false));
    assert!(blog.is_stale(&stamp(0), true));
}

#[test]
fn update_reads_a_stale_article_again() {
    let (mut blog, _) = parse("---\ntitle=\"old\"\n---\n").unwrap();
    let newer = "---\ntitle=\"new\"\npassword=\"pw\"\n---\n";
    assert_eq!(
        blog.update(newer, stamp(100), stamp(201), false),
        Ok(Some(Some(String::from("pw"))))
    );
    assert_eq!(blog.title, "new");
    assert!(blog.password);
    assert_eq!(blog.modified, stamp(201));
    // Now it is fresh again.
    assert_eq!(blog.update("---\ntitle=\"newer\"\n---\n", stamp(100), stamp(201), false), Ok(None));
    assert_eq!(blog.title, "new");
}

#[test]
fn update_on_regeneration_reads_even_a_fresh_article() {
    let (mut blog, _) = parse("---\ntitle=\"old\"\n---\n").unwrap();
    assert_eq!(blog.update("---\ntitle=\"new\"\n---\n", stamp(100), stamp(50), true), Ok(Some(None)));
    assert_eq!(blog.title, "new");
    assert_eq!(blog.modified, stamp(50));
}

#[test]
fn update_that_fails_keeps_the_article() {
    let (mut blog, _) = parse("---\ntitle=\"old\"\n---\n").unwrap();
    let before = blog.clone();
    assert_eq!(
        blog.update("no frontmatter", stamp(100), stamp(300), false),
        Err(ParseError::MissingFrontmatter)
    );
    assert_eq!(blog, before);
}

#[test]
fn created_without_offset_asks_the_machine() {
    let source = "---\ntitle=\"t\"\ncreated=2024-05-06T07:08:09\n---\n";
    match Blog::parse(source, stamp(1), stamp(2)) {
        Ok((blog, _)) => {
            // Whatever the offset is, the wall clock is the one that was written.
            let offset = blog.created.offset_seconds;
            assert_eq!(blog.created, Timestamp::from_civil(2024, 5, 6, 7, 8, 9, 0, offset).unwrap());
            assert_eq!(blog.created.year, 2024);
        }
        Err(error) => assert_eq!(error, ParseError::IndeterminateOffset),
    }
}

#[test]
fn a_date_that_does_not_exist_is_malformed() {
    // The TOML parser lets only calendar dates through, so this one is
    // stopped there; the answer is the same.
    assert_eq!(
        parse("---\ntitle=\"t\"\ncreated=2023-02-30\n---\n"),
        Err(ParseError::MalformedFrontmatter)
    );
    // A date that the parser lets through and the calendar refuses.
    let builder = BlogBuilder {
        password: None,
        hint: None,
        title: String::from("t"),
        language: Language::default(),
        license: None,
        tags: Vec::new(),
        created: Some(RawDatetime {
            date: Some(RawDate { year: 2023, month: 2, day: 29 }),
            time: None,
            offset: Some(RawOffset::Z),
        }),
    };
    assert_eq!(builder.build(stamp(1), stamp(2)), Err(ParseError::MalformedFrontmatter));
}
