use mkcontent::blog::license::License;

const ALL: [License; 7] = [
    License::CcBy4_0,
    License::CcByNc4_0,
    License::CcByNcNd4_0,
    License::CcByNcSa4_0,
    License::CcByNd4_0,
    License::CcBySa4_0,
    License::Cc01_0,
];

#[test]
fn canonical_names() {
    assert_eq!(License::CcBy4_0.canonical_name(), "CC BY 4.0");
    assert_eq!(License::CcByNc4_0.canonical_name(), "CC BY-NC 4.0");
    assert_eq!(License::CcByNcNd4_0.canonical_name(), "CC BY-NC-ND 4.0");
    assert_eq!(License::CcByNcSa4_0.canonical_name(), "CC BY-NC-SA 4.0");
    assert_eq!(License::CcByNd4_0.canonical_name(), "CC BY-ND 4.0");
    assert_eq!(License::CcBySa4_0.canonical_name(), "CC BY-SA 4.0");
    assert_eq!(License::Cc01_0.canonical_name(), "CC0 1.0");
}

#[test]
fn parse_reads_back_every_canonical_name() {
    for license in ALL {
        assert_eq!(License::parse(license.canonical_name()), Ok(license));
    }
}

#[test]
fn parse_hands_back_what_it_rejects() {
    assert_eq!(License::parse("MIT"), Err("MIT"));
    assert_eq!(License::parse(""), Err(""));
    assert_eq!(License::parse("CC BY 4.0 "), Err("CC BY 4.0 "));
    assert_eq!(License::parse("cc by 4.0"), Err("cc by 4.0"));
    assert_eq!(License::parse("CC BY-NC-XX 4.0"), Err("CC BY-NC-XX 4.0"));
}

#[test]
fn every_license_is_permissive() {
    for license in ALL {
        assert!(license.is_permissive());
    }
}

#[test]
fn only_cc0_is_public_domain() {
    for license in ALL {
        assert_eq!(license.is_public_domain(), license == License::Cc01_0);
    }
}

#[test]
fn clauses_of_each_license() {
    let clauses = |l: License| (l.is_non_commercial(), l.is_no_derivatives(), l.is_share_alike());
    assert_eq!(clauses(License::CcBy4_0), (false, false, false));
    assert_eq!(clauses(License::CcByNc4_0), (true, false, false));
    assert_eq!(clauses(License::CcByNcNd4_0), (true, true, false));
    assert_eq!(clauses(License::CcByNcSa4_0), (true, false, true));
    assert_eq!(clauses(License::CcByNd4_0), (false, true, false));
    assert_eq!(clauses(License::CcBySa4_0), (false, false, true));
    assert_eq!(clauses(License::Cc01_0), (false, false, false));
}

#[test]
fn urls() {
    assert_eq!(License::CcBy4_0.url(), "https://creativecommons.org/licenses/by/4.0/");
    assert_eq!(License::CcByNc4_0.url(), "https://creativecommons.org/licenses/by-nc/4.0/");
    assert_eq!(License::CcByNcNd4_0.url(), "https://creativecommons.org/licenses/by-nc-nd/4.0/");
    assert_eq!(License::CcByNcSa4_0.url(), "https://creativecommons.org/licenses/by-nc-sa/4.0/");
    assert_eq!(License::CcByNd4_0.url(), "https://creativecommons.org/licenses/by-nd/4.0/");
    assert_eq!(License::CcBySa4_0.url(), "https://creativecommons.org/licenses/by-sa/4.0/");
    assert_eq!(License::Cc01_0.url(), "https://creativecommons.org/publicdomain/zero/1.0/");
}

#[test]
fn urls_are_addresses_and_differ() {
    for (i, license) in ALL.iter().enumerate() {
        let url = license.url();
        assert!(url.starts_with("https://creativecommons.org/"));
        assert!(!url.chars().any(char::is_whitespace));
        for other in &ALL[i + 1..] {
            assert_ne!(url, other.url());
        }
    }
}

#[test]
fn notice_of_a_license() {
    let text = License::CcBy4_0.license_text("c.md", 2024, "Daniel Gu");
    assert_eq!(
        text,
        "c.md © 2024 by Daniel Gu is licensed under CC BY 4.0. To view a copy of this license, \
         visit https://creativecommons.org/licenses/by/4.0/\n\nCC BY 4.0 (\"this license\") \
         applies to all files contained in this archive including its subdirectories (\"these \
         files\"), including text, images, and other media. These files are collectively \
         referred to as \"c.md\", and each are © 2024 by Daniel Gu.\n"
    );
}

#[test]
fn notice_of_the_public_domain_mark() {
    let text = License::Cc01_0.license_text("Work", 1999, "A. Author");
    assert_eq!(
        text,
        "Work © 1999 by A. Author is marked CC0 1.0. To view a copy of this mark, visit \
         https://creativecommons.org/publicdomain/zero/1.0/\n\nCC0 1.0 (\"this mark\") applies to all files contained in this archive \
         including its subdirectories (\"these files\"), including text, images, and other \
         media. These files are collectively referred to as \"Work\".\n"
    );
}

#[test]
fn notice_writes_the_year_in_decimal() {
    assert!(License::CcBy4_0.license_text("t", 0, "c").starts_with("t © 0 by c "));
    assert!(License::CcBy4_0.license_text("t", -44, "c").starts_with("t © -44 by c "));
    assert!(License::CcBy4_0.license_text("t", 10000, "c").starts_with("t © 10000 by c "));
    assert!(License::CcBy4_0
        .license_text("t", i32::MIN, "c")
        .starts_with("t © -2147483648 by c "));
    assert!(License::CcBy4_0
        .license_text("t", i32::MAX, "c")
        .starts_with("t © 2147483647 by c "));
}
