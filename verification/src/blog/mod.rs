//! Articles and their metadata.

pub mod frontmatter;
pub mod license;
pub mod manifest;

use vstd::prelude::*;
use vstd::string::StringExecFns;
use crate::blog::frontmatter::{extract_frontmatter, spec_frontmatter};
use crate::blog::license::{spec_parse, License};
use crate::table::{
    has_key, list_of, list_view, moment_of, parse_table, spec_list_of, spec_moment_of,
    spec_text_of, spec_toml_fields, table_fields, text_of, FieldView, RawDatetime, RawOffset,
    RawTime,
};
use crate::text::{option_text, spec_trim, texts_view, trim, lemma_trim_is_trimmed};
use crate::timestamp::{current_local_offset, spec_from_civil, Timestamp};

verus! {

/// A locale tag, such as `en-US`.
#[derive(Debug, Clone, PartialEq, Eq)]
pub struct Language(pub String);

impl Default for Language {
    /// The language of an article that names none.
    fn default() -> (language: Self)
        ensures
            language.0@ == "en-US"@,
    {
        Language(String::from_str("en-US"))
    }
}

impl Language {
    /// The tag as a string.
    pub fn to_string(&self) -> (tag: String)
        ensures
            tag@ == self.0@,
    {
        self.0.clone()
    }
}

/// Why an article's metadata could not be read.
#[derive(Debug, Clone, Copy, PartialEq, Eq, Structural)]
pub enum ParseError {
    /// The article has no opening fence, or no closing one.
    MissingFrontmatter,
    /// The metadata block is no TOML document, or a key holds a value of
    /// the wrong shape, or its date does not exist.
    MalformedFrontmatter,
    /// The `license` key names no known license.
    UnknownLicense,
    /// The creation time names no offset and the local one cannot be told.
    IndeterminateOffset,
}

/// The metadata of an article as its block states it.
#[derive(Debug, Clone, PartialEq, Eq)]
pub struct BlogBuilder {
    pub password: Option<String>,
    pub hint: Option<String>,
    pub title: String,
    pub language: Language,
    pub license: Option<License>,
    pub tags: Vec<String>,
    pub created: Option<RawDatetime>,
}

/// The mathematical content of a [`BlogBuilder`].
#[verifier::ext_equal]
pub struct BuilderView {
    pub password: Option<Seq<char>>,
    pub hint: Option<Seq<char>>,
    pub title: Seq<char>,
    pub language: Seq<char>,
    pub license: Option<License>,
    pub tags: Seq<Seq<char>>,
    pub created: Option<RawDatetime>,
}

impl View for BlogBuilder {
    type V = BuilderView;

    open spec fn view(&self) -> BuilderView {
        BuilderView {
            password: option_text(self.password),
            hint: option_text(self.hint),
            title: self.title@,
            language: self.language.0@,
            license: self.license,
            tags: texts_view(self.tags@),
            created: self.created,
        }
    }
}

/// An article: what the catalogue keeps of it.
#[derive(Debug, Clone, PartialEq, Eq)]
pub struct Blog {
    /// Whether the article declared a password.
    pub password: bool,
    pub hint: Option<String>,
    pub title: String,
    pub language: Language,
    pub license: Option<License>,
    pub tags: Vec<String>,
    pub created: Timestamp,
    pub modified: Timestamp,
    /// The text of the first paragraph; absent for a protected article.
    pub preview: Option<String>,
}

/// The mathematical content of a [`Blog`].
#[verifier::ext_equal]
pub struct BlogView {
    pub password: bool,
    pub hint: Option<Seq<char>>,
    pub title: Seq<char>,
    pub language: Seq<char>,
    pub license: Option<License>,
    pub tags: Seq<Seq<char>>,
    pub created: Timestamp,
    pub modified: Timestamp,
    pub preview: Option<Seq<char>>,
}

impl View for Blog {
    type V = BlogView;

    open spec fn view(&self) -> BlogView {
        BlogView {
            password: self.password,
            hint: option_text(self.hint),
            title: self.title@,
            language: self.language.0@,
            license: self.license,
            tags: texts_view(self.tags@),
            created: self.created,
            modified: self.modified,
            preview: option_text(self.preview),
        }
    }
}

/// Whether a tag is clean: not empty, and without white space at its head
/// or its tail.
pub open spec fn spec_clean_tag(tag: Seq<char>) -> bool {
    tag.len() > 0 && spec_trim(tag) == tag
}

impl BlogView {
    /// Every tag is clean.
    pub open spec fn wf(self) -> bool {
        forall|i: int| 0 <= i < self.tags.len() ==> spec_clean_tag(#[trigger] self.tags[i])
    }

    /// The tags as a set.
    pub open spec fn tag_set(self) -> Set<Seq<char>> {
        self.tags.to_set()
    }

    /// The two timestamps are well-formed: the year of each is the year of
    /// its instant in its offset.
    pub open spec fn dated(self) -> bool {
        self.created.wf() && self.modified.wf()
    }
}

/// Whether a key is absent or holds a string.
pub open spec fn spec_optional_text(fields: Map<Seq<char>, FieldView>, key: Seq<char>) -> bool {
    !fields.contains_key(key) || fields[key] is Text
}

/// Whether every key that the metadata reads has the shape it needs: the
/// title is there; title, password, hint, language and license are
/// strings; tags is a list of strings; created is a date-time.
pub open spec fn spec_well_shaped(fields: Map<Seq<char>, FieldView>) -> bool {
    &&& spec_optional_text(fields, "password"@)
    &&& spec_optional_text(fields, "hint"@)
    &&& spec_text_of(fields, "title"@) is Some
    &&& spec_optional_text(fields, "language"@)
    &&& spec_optional_text(fields, "license"@)
    &&& fields.contains_key("tags"@) ==> spec_all_text(spec_list_of(fields, "tags"@))
    &&& fields.contains_key("created"@) ==> spec_moment_of(fields, "created"@) is Some
}

/// Whether there is a list and each of its items is a string.
pub open spec fn spec_all_text(list: Option<Seq<Option<Seq<char>>>>) -> bool {
    match list {
        Some(items) => forall|i: int| 0 <= i < items.len() ==> (#[trigger] items[i]) is Some,
        None => false,
    }
}

/// The tags that a list of raw tags stands for: each one trimmed, the empty
/// ones left out, the order kept.
pub open spec fn spec_clean_tags(items: Seq<Option<Seq<char>>>) -> Seq<Seq<char>>
    decreases items.len(),
{
    if items.len() == 0 {
        Seq::empty()
    } else {
        let head = spec_clean_tags(items.drop_last());
        match items.last() {
            Some(raw) => if spec_trim(raw).len() == 0 {
                head
            } else {
                head.push(spec_trim(raw))
            },
            None => head,
        }
    }
}

/// The metadata that a document states.
///
/// A key of the wrong shape, or a missing title, makes the block
/// malformed; after that, a license name that is not known is reported.
/// An absent language is `en-US`; absent tags are no tags.
pub open spec fn spec_builder(fields: Map<Seq<char>, FieldView>) -> Result<
    BuilderView,
    ParseError,
> {
    if !spec_well_shaped(fields) {
        Err(ParseError::MalformedFrontmatter)
    } else if spec_text_of(fields, "license"@) matches Some(name) && spec_parse(name) is None {
        Err(ParseError::UnknownLicense)
    } else {
        Ok(
            BuilderView {
                password: spec_text_of(fields, "password"@),
                hint: spec_text_of(fields, "hint"@),
                title: spec_text_of(fields, "title"@)->0,
                language: match spec_text_of(fields, "language"@) {
                    Some(tag) => tag,
                    None => "en-US"@,
                },
                license: match spec_text_of(fields, "license"@) {
                    Some(name) => spec_parse(name),
                    None => None,
                },
                tags: match spec_list_of(fields, "tags"@) {
                    Some(items) => spec_clean_tags(items),
                    None => Seq::empty(),
                },
                created: spec_moment_of(fields, "created"@),
            },
        )
    }
}

/// The metadata that the text of a block states.
pub open spec fn spec_builder_of(input: Seq<char>) -> Result<BuilderView, ParseError> {
    match spec_toml_fields(input) {
        Some(fields) => spec_builder(fields),
        None => Err(ParseError::MalformedFrontmatter),
    }
}

/// The offset, in seconds, that a written offset stands for; the local one
/// where none is written.
pub open spec fn spec_offset_seconds(offset: Option<RawOffset>, local: Option<i32>) -> Option<
    i32,
> {
    match offset {
        Some(RawOffset::Z) => Some(0i32),
        Some(RawOffset::Custom { minutes }) => Some((minutes * 60) as i32),
        None => local,
    }
}

/// The creation time of an article: the one its metadata states, or the
/// one the file system reports where it states none. A stated time needs a
/// date; it is midnight where no time of day is stated, and in the local
/// offset where no offset is stated.
pub open spec fn spec_created(
    created: Option<RawDatetime>,
    os_created: Timestamp,
    local: Option<i32>,
) -> Result<Timestamp, ParseError> {
    match created {
        None => Ok(os_created),
        Some(moment) => match moment.date {
            None => Err(ParseError::MalformedFrontmatter),
            Some(date) => {
                let time = match moment.time {
                    Some(time) => time,
                    None => RawTime { hour: 0, minute: 0, second: 0, nanosecond: 0 },
                };
                match spec_offset_seconds(moment.offset, local) {
                    None => Err(ParseError::IndeterminateOffset),
                    Some(offset) => match spec_from_civil(
                        date.year as i32,
                        date.month,
                        date.day,
                        time.hour,
                        time.minute,
                        time.second,
                        time.nanosecond,
                        offset,
                    ) {
                        Some(stamp) => Ok(stamp),
                        None => Err(ParseError::MalformedFrontmatter),
                    },
                }
            },
        },
    }
}

/// Whether the creation time of the metadata depends on the local offset.
pub open spec fn spec_needs_local_offset(created: Option<RawDatetime>) -> bool {
    created matches Some(moment) && moment.date is Some && moment.offset is None
}

/// The article that metadata stands for, and the password it declares.
///
/// The article records that a password was declared, not the password.
/// Its modification time is the file system's; it has no preview yet.
pub open spec fn spec_build(
    builder: BuilderView,
    os_created: Timestamp,
    os_modified: Timestamp,
    local: Option<i32>,
) -> Result<(BlogView, Option<Seq<char>>), ParseError> {
    match spec_created(builder.created, os_created, local) {
        Err(error) => Err(error),
        Ok(created) => Ok(
            (
                BlogView {
                    password: builder.password is Some,
                    hint: builder.hint,
                    title: builder.title,
                    language: builder.language,
                    license: builder.license,
                    tags: builder.tags,
                    created,
                    modified: os_modified,
                    preview: None,
                },
                builder.password,
            ),
        ),
    }
}

/// The article that a source text stands for, and the password it
/// declares.
pub open spec fn spec_parse_article(
    source: Seq<char>,
    os_created: Timestamp,
    os_modified: Timestamp,
    local: Option<i32>,
) -> Result<(BlogView, Option<Seq<char>>), ParseError> {
    match spec_frontmatter(source) {
        None => Err(ParseError::MissingFrontmatter),
        Some(block) => match spec_builder_of(block) {
            Err(error) => Err(error),
            Ok(builder) => spec_build(builder, os_created, os_modified, local),
        },
    }
}

/// Whether the creation time that a source text states depends on the
/// local offset.
pub open spec fn spec_source_needs_local_offset(source: Seq<char>) -> bool {
    spec_frontmatter(source) matches Some(block) && spec_builder_of(block) matches Ok(builder)
        && spec_needs_local_offset(builder.created)
}

/// The mathematical content of the result of reading an article.
pub open spec fn parsed_view(parsed: Result<(Blog, Option<String>), ParseError>) -> Result<
    (BlogView, Option<Seq<char>>),
    ParseError,
> {
    match parsed {
        Ok((blog, password)) => Ok((blog@, option_text(password))),
        Err(error) => Err(error),
    }
}

/// The mathematical content of the result of reading a metadata block.
pub open spec fn builder_view(built: Result<BlogBuilder, ParseError>) -> Result<
    BuilderView,
    ParseError,
> {
    match built {
        Ok(builder) => Ok(builder@),
        Err(error) => Err(error),
    }
}

/// Whether an article has to be read again: always on a full regeneration,
/// else when its file was modified after the time the catalogue holds.
pub open spec fn spec_is_stale(blog: BlogView, os_modified: Timestamp, regenerate: bool) -> bool {
    regenerate || os_modified.unix_nanos > blog.modified.unix_nanos
}

/// Every tag that cleaning lets through is clean.
pub proof fn lemma_clean_tags_are_clean(items: Seq<Option<Seq<char>>>)
    ensures
        forall|i: int|
            0 <= i < spec_clean_tags(items).len() ==> spec_clean_tag(
                #[trigger] spec_clean_tags(items)[i],
            ),
    decreases items.len(),
{
    if items.len() > 0 {
        let head = spec_clean_tags(items.drop_last());
        let all = spec_clean_tags(items);
        lemma_clean_tags_are_clean(items.drop_last());
        match items.last() {
            Some(raw) => {
                lemma_trim_is_trimmed(raw);
            },
            None => {},
        }
        assert forall|i: int| 0 <= i < all.len() implies spec_clean_tag(#[trigger] all[i]) by {
            if i < head.len() {
                assert(all[i] == head[i]);
            }
        }
    }
}

/// The string under a key that may be absent: `Err` where the key holds
/// something that is no string.
fn optional_text(table: &toml::Table, key: &str) -> (text: Result<Option<String>, ParseError>)
    ensures
        text is Ok <==> spec_optional_text(table_fields(*table), key@),
        text matches Ok(found) ==> option_text(found) == spec_text_of(table_fields(*table), key@),
        text matches Err(error) ==> error == ParseError::MalformedFrontmatter,
{
    let found = text_of(table, key);
    if found.is_none() && has_key(table, key) {
        Err(ParseError::MalformedFrontmatter)
    } else {
        Ok(found)
    }
}

/// The clean tags of a list of raw tags: `Err` where an item is no string.
fn clean_tags(items: &Vec<Option<String>>) -> (tags: Result<Vec<String>, ParseError>)
    ensures
        tags is Ok <==> forall|i: int|
            0 <= i < items@.len() ==> (#[trigger] list_view(items@)[i]) is Some,
        tags matches Ok(clean) ==> texts_view(clean@) == spec_clean_tags(list_view(items@)),
        tags matches Err(error) ==> error == ParseError::MalformedFrontmatter,
{
    let mut clean: Vec<String> = Vec::new();
    let mut i: usize = 0;
    assert(list_view(items@).take(0) =~= Seq::empty());
    assert(texts_view(clean@) =~= Seq::empty());
    while i < items.len()
        invariant
            i <= items.len(),
            forall|j: int| 0 <= j < i ==> (#[trigger] list_view(items@)[j]) is Some,
            texts_view(clean@) == spec_clean_tags(list_view(items@).take(i as int)),
        decreases items.len() - i,
    {
        proof {
            let prefix = list_view(items@).take(i + 1);
            assert(prefix.drop_last() =~= list_view(items@).take(i as int));
            assert(prefix.last() == option_text(items@[i as int]));
        }
        match &items[i] {
            None => {
                assert(list_view(items@)[i as int] is None);
                return Err(ParseError::MalformedFrontmatter);
            },
            Some(raw) => {
                let tag = trim(raw.as_str());
                if !tag.as_str().is_empty() {
                    let ghost before = clean@;
                    clean.push(tag);
                    assert(texts_view(clean@) =~= texts_view(before).push(tag@));
                }
            },
        }
        i += 1;
    }
    assert(list_view(items@).take(i as int) =~= list_view(items@));
    Ok(clean)
}

impl BlogBuilder {
    /// Reads the metadata that the text of a block states.
    pub fn new(input: &str) -> (built: Result<Self, ParseError>)
        ensures
            builder_view(built) == spec_builder_of(input@),
    {
        let table = match parse_table(input) {
            Ok(table) => table,
            Err(_) => {
                return Err(ParseError::MalformedFrontmatter);
            },
        };
        let ghost fields = table_fields(table);
        let password = match optional_text(&table, "password") {
            Ok(found) => found,
            Err(error) => {
                return Err(error);
            },
        };
        let hint = match optional_text(&table, "hint") {
            Ok(found) => found,
            Err(error) => {
                return Err(error);
            },
        };
        let title = match text_of(&table, "title") {
            Some(found) => found,
            None => {
                return Err(ParseError::MalformedFrontmatter);
            },
        };
        let language = match optional_text(&table, "language") {
            Ok(Some(tag)) => Language(tag),
            Ok(None) => Language::default(),
            Err(error) => {
                return Err(error);
            },
        };
        let license_name = match optional_text(&table, "license") {
            Ok(found) => found,
            Err(error) => {
                return Err(error);
            },
        };
        let tags = match list_of(&table, "tags") {
            Some(items) => match clean_tags(&items) {
                Ok(clean) => clean,
                Err(error) => {
                    return Err(error);
                },
            },
            None => {
                if has_key(&table, "tags") {
                    return Err(ParseError::MalformedFrontmatter);
                }
                Vec::new()
            },
        };
        let created = moment_of(&table, "created");
        if created.is_none() && has_key(&table, "created") {
            return Err(ParseError::MalformedFrontmatter);
        }
        assert(spec_well_shaped(fields));
        let license = match license_name {
            Some(name) => match License::parse(name.as_str()) {
                Ok(license) => Some(license),
                Err(_) => {
                    return Err(ParseError::UnknownLicense);
                },
            },
            None => None,
        };
        let builder = BlogBuilder { password, hint, title, language, license, tags, created };
        assert(builder@ =~= spec_builder(fields)->Ok_0);
        Ok(builder)
    }

    /// Whether the creation time depends on the local offset.
    pub fn needs_local_offset(&self) -> (needed: bool)
        ensures
            needed == spec_needs_local_offset(self.created),
    {
        match self.created {
            Some(moment) => moment.date.is_some() && moment.offset.is_none(),
            None => false,
        }
    }

    /// The article that the metadata stands for, and the password it
    /// declares, given the local offset where it could be told.
    pub fn build_with_offset(
        self,
        os_created: Timestamp,
        os_modified: Timestamp,
        local: Option<i32>,
    ) -> (built: Result<(Blog, Option<String>), ParseError>)
        ensures
            parsed_view(built) == spec_build(self@, os_created, os_modified, local),
            built matches Ok((blog, _)) ==> (os_created.wf() && os_modified.wf()
                ==> blog@.dated()),
    {
        let created = match self.created {
            None => os_created,
            Some(moment) => match moment.date {
                None => {
                    return Err(ParseError::MalformedFrontmatter);
                },
                Some(date) => {
                    let time = match moment.time {
                        Some(time) => time,
                        None => RawTime { hour: 0, minute: 0, second: 0, nanosecond: 0 },
                    };
                    let offset: i32 = match moment.offset {
                        Some(RawOffset::Z) => 0i32,
                        Some(RawOffset::Custom { minutes }) => {
                            let minutes: i32 = minutes as i32;
                            minutes * 60
                        },
                        None => match local {
                            Some(seconds) => seconds,
                            None => {
                                return Err(ParseError::IndeterminateOffset);
                            },
                        },
                    };
                    match Timestamp::from_civil(
                        date.year as i32,
                        date.month,
                        date.day,
                        time.hour,
                        time.minute,
                        time.second,
                        time.nanosecond,
                        offset,
                    ) {
                        Some(stamp) => stamp,
                        None => {
                            return Err(ParseError::MalformedFrontmatter);
                        },
                    }
                },
            },
        };
        let declared = self.password.is_some();
        let blog = Blog {
            password: declared,
            hint: self.hint,
            title: self.title,
            language: self.language,
            license: self.license,
            tags: self.tags,
            created,
            modified: os_modified,
            preview: None,
        };
        let built = Ok((blog, self.password));
        assert(parsed_view(built) =~= spec_build(self@, os_created, os_modified, local));
        built
    }

    /// The article that the metadata stands for, and the password it
    /// declares. The local offset is asked for only where the creation time
    /// depends on it.
    pub fn build(self, os_created: Timestamp, os_modified: Timestamp) -> (built: Result<
        (Blog, Option<String>),
        ParseError,
    >)
        ensures
            exists|local: Option<i32>|
                parsed_view(built) == #[trigger] spec_build(self@, os_created, os_modified, local),
            !spec_needs_local_offset(self.created) ==> parsed_view(built) == spec_build(
                self@,
                os_created,
                os_modified,
                None,
            ),
            built matches Ok((blog, _)) ==> (os_created.wf() && os_modified.wf()
                ==> blog@.dated()),
    {
        let local = if self.needs_local_offset() {
            current_local_offset()
        } else {
            None
        };
        self.build_with_offset(os_created, os_modified, local)
    }
}

impl Blog {
    /// Reads an article from its source text, given the local offset where
    /// it could be told.
    ///
    /// Fails with `MissingFrontmatter` where the text has no two fences,
    /// with `MalformedFrontmatter` where the block between them cannot be
    /// read, and with `UnknownLicense` where it names a license that is not
    /// known.
    pub fn parse_with_offset(
        source: &str,
        os_created: Timestamp,
        os_modified: Timestamp,
        local: Option<i32>,
    ) -> (parsed: Result<(Self, Option<String>), ParseError>)
        ensures
            parsed_view(parsed) == spec_parse_article(source@, os_created, os_modified, local),
            parsed matches Ok((blog, _)) ==> blog@.wf(),
            parsed matches Ok((blog, _)) ==> (os_created.wf() && os_modified.wf()
                ==> blog@.dated()),
    {
        let block = match extract_frontmatter(source) {
            Some(block) => block,
            None => {
                return Err(ParseError::MissingFrontmatter);
            },
        };
        let builder = match BlogBuilder::new(block.as_str()) {
            Ok(builder) => builder,
            Err(error) => {
                return Err(error);
            },
        };
        proof {
            lemma_builder_tags_clean(block@);
        }
        builder.build_with_offset(os_created, os_modified, local)
    }

    /// Reads an article from its source text.
    ///
    /// The local offset is asked for only where the article states a
    /// creation time without an offset; every other article is read the
    /// same way whatever the machine.
    pub fn parse(source: &str, os_created: Timestamp, os_modified: Timestamp) -> (parsed: Result<
        (Self, Option<String>),
        ParseError,
    >)
        ensures
            exists|local: Option<i32>|
                parsed_view(parsed) == #[trigger] spec_parse_article(
                    source@,
                    os_created,
                    os_modified,
                    local,
                ),
            !spec_source_needs_local_offset(source@) ==> parsed_view(parsed) == spec_parse_article(
                source@,
                os_created,
                os_modified,
                None,
            ),
            parsed matches Ok((blog, _)) ==> blog@.wf(),
            parsed matches Ok((blog, _)) ==> (os_created.wf() && os_modified.wf()
                ==> blog@.dated()),
    {
        let block = match extract_frontmatter(source) {
            Some(block) => block,
            None => {
                assert(parsed_view(Err(ParseError::MissingFrontmatter)) == spec_parse_article(
                    source@,
                    os_created,
                    os_modified,
                    None,
                ));
                return Err(ParseError::MissingFrontmatter);
            },
        };
        let builder = match BlogBuilder::new(block.as_str()) {
            Ok(builder) => builder,
            Err(error) => {
                assert(parsed_view(Err(error)) == spec_parse_article(
                    source@,
                    os_created,
                    os_modified,
                    None,
                ));
                return Err(error);
            },
        };
        proof {
            lemma_builder_tags_clean(block@);
        }
        let local = if builder.needs_local_offset() {
            current_local_offset()
        } else {
            None
        };
        let parsed = builder.build_with_offset(os_created, os_modified, local);
        assert(parsed_view(parsed) == spec_parse_article(source@, os_created, os_modified, local));
        parsed
    }

    /// Whether the article has to be read again.
    pub fn is_stale(&self, os_modified: &Timestamp, regenerate: bool) -> (stale: bool)
        ensures
            stale == spec_is_stale(self@, *os_modified, regenerate),
    {
        regenerate || !os_modified.not_after(&self.modified)
    }

    /// Brings the article up to date with its source.
    ///
    /// Where the article is not stale nothing changes and `None` comes
    /// back. Else the source is read; on success the article is replaced
    /// by what was read and the declared password comes back; on failure
    /// the article stays as it was.
    pub fn update(
        &mut self,
        source: &str,
        os_created: Timestamp,
        os_modified: Timestamp,
        regenerate: bool,
    ) -> (updated: Result<Option<Option<String>>, ParseError>)
        ensures
            !spec_is_stale(old(self)@, os_modified, regenerate) ==> updated == Ok::<
                Option<Option<String>>,
                ParseError,
            >(None) && *final(self) == *old(self),
            spec_is_stale(old(self)@, os_modified, regenerate) ==> exists|local: Option<i32>|
                spec_updated(
                    *old(self),
                    #[trigger] spec_parse_article(source@, os_created, os_modified, local),
                    *final(self),
                    updated,
                ),
            spec_is_stale(old(self)@, os_modified, regenerate) && !spec_source_needs_local_offset(
                source@,
            ) ==> spec_updated(
                *old(self),
                spec_parse_article(source@, os_created, os_modified, None),
                *final(self),
                updated,
            ),
            updated matches Ok(Some(_)) ==> final(self)@.wf(),
            updated matches Ok(Some(_)) ==> (os_created.wf() && os_modified.wf()
                ==> final(self)@.dated()),
    {
        if !self.is_stale(&os_modified, regenerate) {
            return Ok(None);
        }
        match Self::parse(source, os_created, os_modified) {
            Ok((blog, password)) => {
                *self = blog;
                Ok(Some(password))
            },
            Err(error) => Err(error),
        }
    }

    /// The year of the article's copyright: the year it was created in. For
    /// an article whose creation time is well-formed, that is the calendar
    /// year of the instant of its creation in its offset.
    pub fn get_copyright_year(&self) -> (year: i32)
        ensures
            year == self.created.year,
            self.created.wf() ==> crate::timestamp::spec_local_year(
                self.created.unix_nanos,
                self.created.offset_seconds,
            ) == Some(year),
    {
        self.created.year
    }
}

/// What reading the source does to a stale article: where the reading
/// failed, nothing, and the error comes back; where it succeeded, the
/// article is what was read, and the declared password comes back.
pub open spec fn spec_updated(
    before: Blog,
    parsed: Result<(BlogView, Option<Seq<char>>), ParseError>,
    after: Blog,
    updated: Result<Option<Option<String>>, ParseError>,
) -> bool {
    match parsed {
        Err(error) => updated == Err::<Option<Option<String>>, ParseError>(error) && after
            == before,
        Ok((blog, password)) => {
            &&& updated matches Ok(Some(declared))
            &&& option_text(declared) == password
            &&& after@ == blog
        },
    }
}

/// The tags of metadata that could be read are clean.
pub proof fn lemma_builder_tags_clean(input: Seq<char>)
    ensures
        spec_builder_of(input) matches Ok(builder) ==> forall|i: int|
            0 <= i < builder.tags.len() ==> spec_clean_tag(#[trigger] builder.tags[i]),
{
    match spec_toml_fields(input) {
        Some(fields) => {
            match spec_list_of(fields, "tags"@) {
                Some(items) => {
                    lemma_clean_tags_are_clean(items);
                },
                None => {},
            }
        },
        None => {},
    }
}

} // verus!
