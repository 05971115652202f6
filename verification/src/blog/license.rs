//! The closed set of licenses an article can be published under, and the
//! notice that accompanies a downloadable archive.

use vstd::prelude::*;
use vstd::string::StringExecFns;
use crate::text::{decimal, spec_decimal, spec_is_white_space, str_eq};

verus! {

/// A Creative Commons license, or the CC0 public-domain mark.
#[derive(Debug, Clone, Copy, PartialEq, Eq, Structural)]
pub enum License {
    CcBy4_0,
    CcByNc4_0,
    CcByNcNd4_0,
    CcByNcSa4_0,
    CcByNd4_0,
    CcBySa4_0,
    Cc01_0,
}

/// The license whose canonical name is `name`, if there is one.
pub open spec fn spec_parse(name: Seq<char>) -> Option<License> {
    if name == "CC BY 4.0"@ {
        Some(License::CcBy4_0)
    } else if name == "CC BY-NC 4.0"@ {
        Some(License::CcByNc4_0)
    } else if name == "CC BY-NC-ND 4.0"@ {
        Some(License::CcByNcNd4_0)
    } else if name == "CC BY-NC-SA 4.0"@ {
        Some(License::CcByNcSa4_0)
    } else if name == "CC BY-ND 4.0"@ {
        Some(License::CcByNd4_0)
    } else if name == "CC BY-SA 4.0"@ {
        Some(License::CcBySa4_0)
    } else if name == "CC0 1.0"@ {
        Some(License::Cc01_0)
    } else {
        None
    }
}

/// The text of a license notice.
///
/// The first paragraph names the work, its year and its creator and points at
/// the license; the second says which files the license covers. A
/// public-domain mark is "marked" rather than "licensed under", and its second
/// paragraph ends without the copyright clause.
pub open spec fn spec_license_text(
    license: License,
    title: Seq<char>,
    year: int,
    creator: Seq<char>,
) -> Seq<char> {
    let name = license.spec_canonical_name();
    let owner = title + " © "@ + spec_decimal(year) + " by "@ + creator;
    if license.spec_is_public_domain() {
        owner + " is marked "@ + name + ". To view a copy of this mark, visit "@
            + license.spec_url() + "\n\n"@ + name + " (\"this mark\") applies to all files contained in this archive including its subdirectories (\"these files\"), including text, images, and other media. These files are collectively referred to as \""@
            + title + "\".\n"@
    } else {
        owner + " is licensed under "@ + name + ". To view a copy of this license, visit "@
            + license.spec_url() + "\n\n"@ + name + " (\"this license\") applies to all files contained in this archive including its subdirectories (\"these files\"), including text, images, and other media. These files are collectively referred to as \""@
            + title + "\", and each are © "@ + spec_decimal(year) + " by "@ + creator + ".\n"@
    }
}

impl License {
    /// The canonical display name of a license.
    pub open spec fn spec_canonical_name(self) -> Seq<char> {
        match self {
            License::CcBy4_0 => "CC BY 4.0"@,
            License::CcByNc4_0 => "CC BY-NC 4.0"@,
            License::CcByNcNd4_0 => "CC BY-NC-ND 4.0"@,
            License::CcByNcSa4_0 => "CC BY-NC-SA 4.0"@,
            License::CcByNd4_0 => "CC BY-ND 4.0"@,
            License::CcBySa4_0 => "CC BY-SA 4.0"@,
            License::Cc01_0 => "CC0 1.0"@,
        }
    }

    /// The address at which the license can be read.
    pub open spec fn spec_url(self) -> Seq<char> {
        match self {
            License::CcBy4_0 => "https://creativecommons.org/licenses/by/4.0/"@,
            License::CcByNc4_0 => "https://creativecommons.org/licenses/by-nc/4.0/"@,
            License::CcByNcNd4_0 => "https://creativecommons.org/licenses/by-nc-nd/4.0/"@,
            License::CcByNcSa4_0 => "https://creativecommons.org/licenses/by-nc-sa/4.0/"@,
            License::CcByNd4_0 => "https://creativecommons.org/licenses/by-nd/4.0/"@,
            License::CcBySa4_0 => "https://creativecommons.org/licenses/by-sa/4.0/"@,
            License::Cc01_0 => "https://creativecommons.org/publicdomain/zero/1.0/"@,
        }
    }

    /// Only CC0 places a work in the public domain.
    pub open spec fn spec_is_public_domain(self) -> bool {
        self == License::Cc01_0
    }

    /// Whether the license carries the non-commercial clause.
    pub open spec fn spec_is_non_commercial(self) -> bool {
        self == License::CcByNc4_0 || self == License::CcByNcNd4_0 || self == License::CcByNcSa4_0
    }

    /// Whether the license carries the no-derivatives clause.
    pub open spec fn spec_is_no_derivatives(self) -> bool {
        self == License::CcByNcNd4_0 || self == License::CcByNd4_0
    }

    /// Whether the license carries the share-alike clause.
    pub open spec fn spec_is_share_alike(self) -> bool {
        self == License::CcByNcSa4_0 || self == License::CcBySa4_0
    }

    /// Reads a license from its canonical name. Any other text is handed back
    /// as the error.
    pub fn parse(value: &str) -> (parsed: Result<Self, &str>)
        ensures
            parsed is Ok <==> spec_parse(value@) is Some,
            parsed matches Ok(license) ==> spec_parse(value@) == Some(license)
                && license.spec_canonical_name() == value@,
            parsed matches Err(rejected) ==> rejected@ == value@,
    {
        if str_eq(value, "CC BY 4.0") {
            Ok(License::CcBy4_0)
        } else if str_eq(value, "CC BY-NC 4.0") {
            Ok(License::CcByNc4_0)
        } else if str_eq(value, "CC BY-NC-ND 4.0") {
            Ok(License::CcByNcNd4_0)
        } else if str_eq(value, "CC BY-NC-SA 4.0") {
            Ok(License::CcByNcSa4_0)
        } else if str_eq(value, "CC BY-ND 4.0") {
            Ok(License::CcByNd4_0)
        } else if str_eq(value, "CC BY-SA 4.0") {
            Ok(License::CcBySa4_0)
        } else if str_eq(value, "CC0 1.0") {
            Ok(License::Cc01_0)
        } else {
            Err(value)
        }
    }

    /// Whether the license allows offering the article as a downloadable
    /// archive. Every license of the current set does.
    pub fn is_permissive(&self) -> (permissive: bool)
        ensures
            permissive,
    {
        true
    }

    /// Whether the license places the work in the public domain.
    pub fn is_public_domain(&self) -> (public_domain: bool)
        ensures
            public_domain == self.spec_is_public_domain(),
    {
        match self {
            License::CcBy4_0
            | License::CcByNc4_0
            | License::CcByNcNd4_0
            | License::CcByNcSa4_0
            | License::CcByNd4_0
            | License::CcBySa4_0 => false,
            License::Cc01_0 => true,
        }
    }

    /// Whether the license carries the non-commercial clause.
    pub fn is_non_commercial(&self) -> (flag: bool)
        ensures
            flag == self.spec_is_non_commercial(),
    {
        match self {
            License::CcByNc4_0 | License::CcByNcNd4_0 | License::CcByNcSa4_0 => true,
            _ => false,
        }
    }

    /// Whether the license carries the no-derivatives clause.
    pub fn is_no_derivatives(&self) -> (flag: bool)
        ensures
            flag == self.spec_is_no_derivatives(),
    {
        match self {
            License::CcByNcNd4_0 | License::CcByNd4_0 => true,
            _ => false,
        }
    }

    /// Whether the license carries the share-alike clause.
    pub fn is_share_alike(&self) -> (flag: bool)
        ensures
            flag == self.spec_is_share_alike(),
    {
        match self {
            License::CcByNcSa4_0 | License::CcBySa4_0 => true,
            _ => false,
        }
    }

    /// The canonical display name, under which the license is written and read.
    pub fn canonical_name(&self) -> (name: &'static str)
        ensures
            name@ == self.spec_canonical_name(),
    {
        match self {
            License::CcBy4_0 => "CC BY 4.0",
            License::CcByNc4_0 => "CC BY-NC 4.0",
            License::CcByNcNd4_0 => "CC BY-NC-ND 4.0",
            License::CcByNcSa4_0 => "CC BY-NC-SA 4.0",
            License::CcByNd4_0 => "CC BY-ND 4.0",
            License::CcBySa4_0 => "CC BY-SA 4.0",
            License::Cc01_0 => "CC0 1.0",
        }
    }

    /// The address at which the license can be read.
    pub fn url(&self) -> (address: &'static str)
        ensures
            address@ == self.spec_url(),
    {
        match self {
            License::CcBy4_0 => "https://creativecommons.org/licenses/by/4.0/",
            License::CcByNc4_0 => "https://creativecommons.org/licenses/by-nc/4.0/",
            License::CcByNcNd4_0 => "https://creativecommons.org/licenses/by-nc-nd/4.0/",
            License::CcByNcSa4_0 => "https://creativecommons.org/licenses/by-nc-sa/4.0/",
            License::CcByNd4_0 => "https://creativecommons.org/licenses/by-nd/4.0/",
            License::CcBySa4_0 => "https://creativecommons.org/licenses/by-sa/4.0/",
            License::Cc01_0 => "https://creativecommons.org/publicdomain/zero/1.0/",
        }
    }

    /// The notice that goes into an archive beside the article.
    pub fn license_text(&self, title: &str, year: i32, creator: &str) -> (text: String)
        ensures
            text@ == spec_license_text(*self, title@, year as int, creator@),
    {
        let name = self.canonical_name();
        let year_text = decimal(year as i64);
        let mut text = String::from_str(title);
        text.append(" © ");
        text.append(year_text.as_str());
        text.append(" by ");
        text.append(creator);
        if self.is_public_domain() {
            text.append(" is marked ");
            text.append(name);
            text.append(". To view a copy of this mark, visit ");
            text.append(self.url());
            text.append("\n\n");
            text.append(name);
            text.append(" (\"this mark\") applies to all files contained in this archive including its subdirectories (\"these files\"), including text, images, and other media. These files are collectively referred to as \"");
            text.append(title);
            text.append("\".\n");
        } else {
            text.append(" is licensed under ");
            text.append(name);
            text.append(". To view a copy of this license, visit ");
            text.append(self.url());
            text.append("\n\n");
            text.append(name);
            text.append(" (\"this license\") applies to all files contained in this archive including its subdirectories (\"these files\"), including text, images, and other media. These files are collectively referred to as \"");
            text.append(title);
            text.append("\", and each are © ");
            text.append(year_text.as_str());
            text.append(" by ");
            text.append(creator);
            text.append(".\n");
        }
        assert(text@ =~= spec_license_text(*self, title@, year as int, creator@));
        text
    }
}

/// Reading back the canonical name of a license gives that license: no two
/// licenses share a name.
pub proof fn lemma_parse_canonical_name(license: License)
    ensures
        spec_parse(license.spec_canonical_name()) == Some(license),
{
    reveal_strlit("CC BY 4.0");
    reveal_strlit("CC BY-NC 4.0");
    reveal_strlit("CC BY-NC-ND 4.0");
    reveal_strlit("CC BY-NC-SA 4.0");
    reveal_strlit("CC BY-ND 4.0");
    reveal_strlit("CC BY-SA 4.0");
    reveal_strlit("CC0 1.0");
    assert("CC BY 4.0"@.len() == 9);
    assert("CC0 1.0"@.len() == 7);
    assert("CC BY-NC 4.0"@.len() == 12 && "CC BY-NC 4.0"@[6] == 'N' && "CC BY-NC 4.0"@[7] == 'C');
    assert("CC BY-ND 4.0"@.len() == 12 && "CC BY-ND 4.0"@[6] == 'N' && "CC BY-ND 4.0"@[7] == 'D');
    assert("CC BY-SA 4.0"@.len() == 12 && "CC BY-SA 4.0"@[6] == 'S');
    assert("CC BY-NC-ND 4.0"@.len() == 15 && "CC BY-NC-ND 4.0"@[9] == 'N');
    assert("CC BY-NC-SA 4.0"@.len() == 15 && "CC BY-NC-SA 4.0"@[9] == 'S');
}

/// Whether a text starts with the address of the Creative Commons site.
pub open spec fn spec_is_address(url: Seq<char>) -> bool {
    url.len() >= 28 && url.subrange(0, 28) == "https://creativecommons.org/"@
}

/// The address of every license is an address at the Creative Commons site.
pub proof fn lemma_url_is_address(license: License)
    ensures
        spec_is_address(license.spec_url()),
{
    reveal_strlit("https://creativecommons.org/");
    reveal_strlit("https://creativecommons.org/licenses/by/4.0/");
    reveal_strlit("https://creativecommons.org/licenses/by-nc/4.0/");
    reveal_strlit("https://creativecommons.org/licenses/by-nc-nd/4.0/");
    reveal_strlit("https://creativecommons.org/licenses/by-nc-sa/4.0/");
    reveal_strlit("https://creativecommons.org/licenses/by-nd/4.0/");
    reveal_strlit("https://creativecommons.org/licenses/by-sa/4.0/");
    reveal_strlit("https://creativecommons.org/publicdomain/zero/1.0/");
    assert(license.spec_url().subrange(0, 28) =~= "https://creativecommons.org/"@);
}

/// No character of the address of a license is white space.
pub proof fn lemma_url_has_no_white_space(license: License, i: int)
    requires
        0 <= i < license.spec_url().len(),
    ensures
        !spec_is_white_space(license.spec_url()[i]),
{
    reveal_strlit("https://creativecommons.org/licenses/by/4.0/");
    reveal_strlit("https://creativecommons.org/licenses/by-nc/4.0/");
    reveal_strlit("https://creativecommons.org/licenses/by-nc-nd/4.0/");
    reveal_strlit("https://creativecommons.org/licenses/by-nc-sa/4.0/");
    reveal_strlit("https://creativecommons.org/licenses/by-nd/4.0/");
    reveal_strlit("https://creativecommons.org/licenses/by-sa/4.0/");
    reveal_strlit("https://creativecommons.org/publicdomain/zero/1.0/");
}

/// No two licenses share an address.
pub proof fn lemma_urls_differ(one: License, other: License)
    ensures
        one != other ==> one.spec_url() != other.spec_url(),
{
    reveal_strlit("https://creativecommons.org/licenses/by/4.0/");
    reveal_strlit("https://creativecommons.org/licenses/by-nc/4.0/");
    reveal_strlit("https://creativecommons.org/licenses/by-nc-nd/4.0/");
    reveal_strlit("https://creativecommons.org/licenses/by-nc-sa/4.0/");
    reveal_strlit("https://creativecommons.org/licenses/by-nd/4.0/");
    reveal_strlit("https://creativecommons.org/licenses/by-sa/4.0/");
    reveal_strlit("https://creativecommons.org/publicdomain/zero/1.0/");
    let by = "https://creativecommons.org/licenses/by/4.0/"@;
    let nc = "https://creativecommons.org/licenses/by-nc/4.0/"@;
    let ncnd = "https://creativecommons.org/licenses/by-nc-nd/4.0/"@;
    let ncsa = "https://creativecommons.org/licenses/by-nc-sa/4.0/"@;
    let nd = "https://creativecommons.org/licenses/by-nd/4.0/"@;
    let sa = "https://creativecommons.org/licenses/by-sa/4.0/"@;
    let zero = "https://creativecommons.org/publicdomain/zero/1.0/"@;
    assert(by.len() == 44 && zero.len() == 50 && zero[28] == 'p');
    assert(nc.len() == 47 && nc[40] == 'n' && nc[41] == 'c');
    assert(nd.len() == 47 && nd[40] == 'n' && nd[41] == 'd');
    assert(sa.len() == 47 && sa[40] == 's');
    assert(ncnd.len() == 50 && ncnd[28] == 'l' && ncnd[43] == 'n');
    assert(ncsa.len() == 50 && ncsa[28] == 'l' && ncsa[43] == 's');
}

/// A name is parsed to a license only if it is that license's canonical name.
pub proof fn lemma_parse_exact(name: Seq<char>, license: License)
    ensures
        spec_parse(name) == Some(license) <==> name == license.spec_canonical_name(),
{
    lemma_parse_canonical_name(license);
}

} // verus!
