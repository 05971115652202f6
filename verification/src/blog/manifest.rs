//! The catalogue of articles and its index from tags to articles.

use vstd::prelude::*;
use crate::blog::{
    parsed_view, spec_is_stale, spec_parse_article, spec_source_needs_local_offset, Blog,
    BlogView, ParseError,
};
use crate::collections::{TextMap, TextSet};
use crate::text::{option_text, texts_view};
use crate::timestamp::Timestamp;

verus! {

/// The catalogue: every article by its id, and for every tag the ids of the
/// articles that carry it.
#[derive(Debug, Clone, PartialEq, Eq)]
pub struct BlogManifest {
    blogs: TextMap<Blog>,
    tags: TextMap<TextSet>,
}

/// The index after the article `id` has been given the tags `tags`: `id` is
/// a member of exactly those tags, every tag of `tags` is a key, and
/// nothing else has changed. A tag that loses its last member stays as a
/// key.
pub open spec fn spec_reindex(
    index: Map<Seq<char>, Set<Seq<char>>>,
    id: Seq<char>,
    tags: Set<Seq<char>>,
) -> Map<Seq<char>, Set<Seq<char>>> {
    Map::new(
        |tag: Seq<char>| index.contains_key(tag) || tags.contains(tag),
        |tag: Seq<char>|
            {
                let members = if index.contains_key(tag) {
                    index[tag]
                } else {
                    Set::empty()
                };
                if tags.contains(tag) {
                    members.insert(id)
                } else {
                    members.remove(id)
                }
            },
    )
}

/// Whether the index agrees with the articles: an article is a member of a
/// tag exactly when it is in the catalogue and carries the tag.
pub open spec fn spec_consistent(
    articles: Map<Seq<char>, BlogView>,
    index: Map<Seq<char>, Set<Seq<char>>>,
) -> bool {
    &&& forall|id: Seq<char>, tag: Seq<char>|
        #![trigger articles[id].tag_set().contains(tag)]
        articles.contains_key(id) && articles[id].tag_set().contains(tag) ==> index.contains_key(
            tag,
        ) && index[tag].contains(id)
    &&& forall|tag: Seq<char>, id: Seq<char>|
        #![trigger index[tag].contains(id)]
        index.contains_key(tag) && index[tag].contains(id) ==> articles.contains_key(id)
            && articles[id].tag_set().contains(tag)
}

/// Putting an article in the catalogue and giving it its tags in the index
/// keeps the index in agreement with the articles.
pub proof fn lemma_reindex_consistent(
    articles: Map<Seq<char>, BlogView>,
    index: Map<Seq<char>, Set<Seq<char>>>,
    id: Seq<char>,
    blog: BlogView,
)
    requires
        spec_consistent(articles, index),
    ensures
        spec_consistent(articles.insert(id, blog), spec_reindex(index, id, blog.tag_set())),
{
    let after = articles.insert(id, blog);
    let reindexed = spec_reindex(index, id, blog.tag_set());
    assert forall|other: Seq<char>, tag: Seq<char>|
        #![trigger after[other].tag_set().contains(tag)]
        after.contains_key(other) && after[other].tag_set().contains(
            tag,
        ) implies reindexed.contains_key(tag) && reindexed[tag].contains(other) by {
        if other != id {
            assert(articles[other].tag_set().contains(tag));
            assert(index[tag].contains(other));
        }
    }
    assert forall|tag: Seq<char>, other: Seq<char>|
        #![trigger reindexed[tag].contains(other)]
        reindexed.contains_key(tag) && reindexed[tag].contains(other) implies after.contains_key(
            other,
        ) && after[other].tag_set().contains(tag) by {
        if other != id {
            assert(index.contains_key(tag) && index[tag].contains(other));
            assert(articles[other].tag_set().contains(tag));
        }
    }
}

/// Changing an article without changing its tags keeps the index in
/// agreement with the articles.
pub proof fn lemma_same_tags_consistent(
    articles: Map<Seq<char>, BlogView>,
    index: Map<Seq<char>, Set<Seq<char>>>,
    id: Seq<char>,
    blog: BlogView,
)
    requires
        spec_consistent(articles, index),
        articles.contains_key(id),
        blog.tags == articles[id].tags,
    ensures
        spec_consistent(articles.insert(id, blog), index),
{
    let after = articles.insert(id, blog);
    assert forall|other: Seq<char>, tag: Seq<char>|
        #![trigger after[other].tag_set().contains(tag)]
        after.contains_key(other) && after[other].tag_set().contains(
            tag,
        ) implies index.contains_key(tag) && index[tag].contains(other) by {
        assert(articles[other].tag_set().contains(tag));
    }
    assert forall|tag: Seq<char>, other: Seq<char>|
        #![trigger index[tag].contains(other)]
        index.contains_key(tag) && index[tag].contains(other) implies after.contains_key(other)
            && after[other].tag_set().contains(tag) by {
        assert(articles[other].tag_set().contains(tag));
    }
}

/// Giving an article its tags a second time changes nothing.
pub proof fn lemma_reindex_idempotent(
    index: Map<Seq<char>, Set<Seq<char>>>,
    id: Seq<char>,
    tags: Set<Seq<char>>,
)
    ensures
        spec_reindex(spec_reindex(index, id, tags), id, tags) == spec_reindex(index, id, tags),
{
    let once = spec_reindex(index, id, tags);
    let twice = spec_reindex(once, id, tags);
    assert forall|tag: Seq<char>| once.contains_key(tag) implies #[trigger] twice[tag] == once[tag] by {
        assert(twice[tag] =~= once[tag]);
    }
    assert(twice =~= once);
}

impl BlogManifest {
    /// The articles by their ids.
    pub closed spec fn articles(&self) -> Map<Seq<char>, BlogView> {
        self.blogs@.map_values(|blog: Blog| blog@)
    }

    /// For every tag the ids of the articles that carry it.
    pub closed spec fn tag_index(&self) -> Map<Seq<char>, Set<Seq<char>>> {
        self.tags@.map_values(|members: TextSet| members@)
    }

    /// No id, no tag and no member of a tag is held twice.
    pub closed spec fn wf(&self) -> bool {
        &&& self.blogs.wf()
        &&& self.tags.wf()
        &&& forall|i: int|
            0 <= i < self.tags.spec_values().len() ==> (#[trigger] self.tags.spec_values()[i]).wf()
    }

    /// The index agrees with the articles.
    pub open spec fn consistent(&self) -> bool {
        spec_consistent(self.articles(), self.tag_index())
    }

    /// The empty catalogue.
    pub fn new() -> (manifest: BlogManifest)
        ensures
            manifest.wf(),
            manifest.consistent(),
            manifest.articles() == Map::<Seq<char>, BlogView>::empty(),
            manifest.tag_index() == Map::<Seq<char>, Set<Seq<char>>>::empty(),
    {
        let manifest = BlogManifest { blogs: TextMap::new(), tags: TextMap::new() };
        proof {
            manifest.tags.lemma_entries();
            assert(manifest.articles() =~= Map::<Seq<char>, BlogView>::empty());
            assert(manifest.tag_index() =~= Map::<Seq<char>, Set<Seq<char>>>::empty());
        }
        manifest
    }

    /// The articles, in the order they came into the catalogue.
    pub fn blogs(&self) -> (blogs: &TextMap<Blog>)
        requires
            self.wf(),
        ensures
            blogs.wf(),
            blogs@.map_values(|blog: Blog| blog@) == self.articles(),
    {
        &self.blogs
    }

    /// The tags with their members, in the order they came into the index.
    pub fn tags(&self) -> (tags: &TextMap<TextSet>)
        requires
            self.wf(),
        ensures
            tags.wf(),
            tags@.map_values(|members: TextSet| members@) == self.tag_index(),
            forall|i: int|
                0 <= i < tags.spec_values().len() ==> (#[trigger] tags.spec_values()[i]).wf(),
    {
        &self.tags
    }

    /// The number of articles.
    pub fn len(&self) -> (len: usize)
        requires
            self.wf(),
        ensures
            len == self.articles().dom().len(),
    {
        proof {
            self.blogs.lemma_entries();
            self.blogs.spec_keys().unique_seq_to_set();
            assert(self.articles().dom() =~= self.blogs@.dom());
        }
        self.blogs.len()
    }

    /// The article with the given id.
    pub fn get(&self, id: &str) -> (blog: Option<&Blog>)
        requires
            self.wf(),
        ensures
            blog is Some <==> self.articles().contains_key(id@),
            blog matches Some(found) ==> found@ == self.articles()[id@],
    {
        self.blogs.get(id)
    }

    /// Whether the article is a member of the tag.
    pub fn is_tagged(&self, tag: &str, id: &str) -> (tagged: bool)
        requires
            self.wf(),
        ensures
            tagged == (self.tag_index().contains_key(tag@) && self.tag_index()[tag@].contains(id@)),
    {
        match self.tags.get(tag) {
            Some(members) => members.contains(id),
            None => false,
        }
    }

    /// Puts an article in the catalogue under an id, in the place of the one
    /// that was there. The index is left as it is.
    pub fn insert(&mut self, id: String, blog: Blog)
        requires
            old(self).wf(),
        ensures
            final(self).wf(),
            final(self).articles() == old(self).articles().insert(id@, blog@),
            final(self).tag_index() == old(self).tag_index(),
    {
        self.blogs.insert(id, blog);
        assert(self.articles() =~= old(self).articles().insert(id@, blog@));
    }

    /// Sets the preview of an article. An id that is not in the catalogue
    /// changes nothing.
    pub fn set_preview(&mut self, id: &str, preview: Option<String>)
        requires
            old(self).wf(),
        ensures
            final(self).wf(),
            final(self).tag_index() == old(self).tag_index(),
            old(self).articles().contains_key(id@) ==> final(self).articles() == old(
                self,
            ).articles().insert(
                id@,
                BlogView { preview: option_text(preview), ..old(self).articles()[id@] },
            ),
            !old(self).articles().contains_key(id@) ==> final(self).articles() == old(
                self,
            ).articles(),
            old(self).consistent() ==> final(self).consistent(),
    {
        match self.blogs.find(id) {
            Some(at) => {
                let placeholder = empty_blog();
                let mut blog = self.blogs.replace_value(at, placeholder);
                blog.preview = preview;
                let _ = self.blogs.replace_value(at, blog);
                assert(self.articles() =~= old(self).articles().insert(
                    id@,
                    BlogView { preview: option_text(preview), ..old(self).articles()[id@] },
                ));
                proof {
                    if old(self).consistent() {
                        lemma_same_tags_consistent(
                            old(self).articles(),
                            old(self).tag_index(),
                            id@,
                            BlogView { preview: option_text(preview), ..old(self).articles()[id@] },
                        );
                    }
                }
            },
            None => {},
        }
    }

    /// Takes the article out of every tag of the index.
    fn strip(&mut self, id: &str)
        requires
            old(self).wf(),
        ensures
            final(self).wf(),
            final(self).articles() == old(self).articles(),
            final(self).tag_index() == spec_reindex(old(self).tag_index(), id@, Set::empty()),
    {
        let ghost index = self.tag_index();
        let ghost keys = self.tags.spec_keys();
        let ghost values = self.tags.spec_values();
        let mut i: usize = 0;
        proof {
            self.tags.lemma_entries();
        }
        while i < self.tags.len()
            invariant
                self.wf(),
                self.blogs == old(self).blogs,
                i <= keys.len(),
                self.tags.spec_keys() == keys,
                values.len() == keys.len(),
                self.tags.spec_values().len() == keys.len(),
                forall|k: int|
                    0 <= k < i ==> (#[trigger] self.tags.spec_values()[k])@ == values[k]@.remove(id@),
                forall|k: int| i <= k < keys.len() ==> #[trigger] self.tags.spec_values()[k] == values[k],
            decreases keys.len() - i,
        {
            let ghost current = self.tags.spec_values();
            let mut members = self.tags.replace_value(i, TextSet::new());
            members.remove(id);
            let _ = self.tags.replace_value(i, members);
            proof {
                assert(self.tags.spec_values() =~= current.update(i as int, members));
                assert forall|k: int| 0 <= k < self.tags.spec_values().len() implies (
                #[trigger] self.tags.spec_values()[k]).wf() by {
                    if k != i {
                        assert(self.tags.spec_values()[k] == current[k]);
                    }
                }
            }
            i += 1;
        }
        proof {
            self.tags.lemma_entries();
            let stripped = spec_reindex(index, id@, Set::empty());
            assert forall|tag: Seq<char>| self.tag_index().contains_key(
                tag,
            ) implies #[trigger] self.tag_index()[tag] == stripped[tag] by {
                let k = choose|k: int| 0 <= k < keys.len() && #[trigger] keys[k] == tag;
                assert(self.tags@[keys[k]] == self.tags.spec_values()[k]);
                assert(old(self).tags@[keys[k]] == values[k]);
            }
            assert(self.tag_index().dom() =~= stripped.dom()) by {
                assert(self.tags@.dom() == keys.to_set());
                assert(old(self).tags@.dom() == keys.to_set());
            }
            assert(self.tag_index() =~= stripped);
        }
    }

    /// Makes a tag a key of the index, without members where it is new.
    pub fn declare_tag(&mut self, tag: &String)
        requires
            old(self).wf(),
        ensures
            final(self).wf(),
            final(self).articles() == old(self).articles(),
            old(self).tag_index().contains_key(tag@) ==> final(self).tag_index() == old(
                self,
            ).tag_index(),
            !old(self).tag_index().contains_key(tag@) ==> final(self).tag_index() == old(
                self,
            ).tag_index().insert(tag@, Set::empty()),
    {
        proof {
            self.tags.lemma_entries();
        }
        if !self.tags.contains_key(tag.as_str()) {
            let ghost current = self.tags.spec_values();
            let members = TextSet::new();
            self.tags.insert(tag.clone(), members);
            proof {
                assert forall|k: int| 0 <= k < self.tags.spec_values().len() implies (
                #[trigger] self.tags.spec_values()[k]).wf() by {
                    if k < current.len() {
                        assert(self.tags.spec_values()[k] == current[k]);
                    }
                }
                assert(self.tag_index() =~= old(self).tag_index().insert(tag@, Set::empty()));
            }
        }
    }

    /// Makes the article a member of one tag, as a new key of the index
    /// where the tag is not one yet. The catalogue is not asked whether the
    /// article carries the tag.
    pub fn add_member(&mut self, tag: &String, id: &str)
        requires
            old(self).wf(),
        ensures
            final(self).wf(),
            final(self).articles() == old(self).articles(),
            final(self).tag_index() == old(self).tag_index().insert(
                tag@,
                if old(self).tag_index().contains_key(tag@) {
                    old(self).tag_index()[tag@].insert(id@)
                } else {
                    set![id@]
                },
            ),
    {
        proof {
            self.tags.lemma_entries();
        }
        match self.tags.find(tag.as_str()) {
            Some(at) => {
                let ghost current = self.tags.spec_values();
                let mut members = self.tags.replace_value(at, TextSet::new());
                members.insert(id.to_owned());
                let _ = self.tags.replace_value(at, members);
                proof {
                    assert(self.tags.spec_values() =~= current.update(at as int, members));
                    assert forall|k: int| 0 <= k < self.tags.spec_values().len() implies (
                    #[trigger] self.tags.spec_values()[k]).wf() by {
                        if k != at {
                            assert(self.tags.spec_values()[k] == current[k]);
                        }
                    }
                    assert(self.tag_index() =~= old(self).tag_index().insert(
                        tag@,
                        old(self).tag_index()[tag@].insert(id@),
                    ));
                }
            },
            None => {
                let ghost current = self.tags.spec_values();
                let mut members = TextSet::new();
                members.insert(id.to_owned());
                self.tags.insert(tag.clone(), members);
                proof {
                    assert(self.tags.spec_values() == current.push(members));
                    assert forall|k: int| 0 <= k < self.tags.spec_values().len() implies (
                    #[trigger] self.tags.spec_values()[k]).wf() by {
                        if k < current.len() {
                            assert(self.tags.spec_values()[k] == current[k]);
                        }
                    }
                    assert(members@ =~= set![id@]);
                    assert(self.tag_index() =~= old(self).tag_index().insert(tag@, set![id@]));
                }
            },
        }
    }

    /// Brings the index up to date with one article: takes it out of every
    /// tag, then makes it a member of each tag it carries. An id that is not
    /// in the catalogue is only taken out.
    pub fn reindex(&mut self, id: &str)
        requires
            old(self).wf(),
        ensures
            final(self).wf(),
            final(self).articles() == old(self).articles(),
            final(self).tag_index() == spec_reindex(
                old(self).tag_index(),
                id@,
                if old(self).articles().contains_key(id@) {
                    old(self).articles()[id@].tag_set()
                } else {
                    Set::empty()
                },
            ),
    {
        let ghost index = self.tag_index();
        self.strip(id);
        let tags: Vec<String> = match self.blogs.get(id) {
            Some(blog) => blog.tags.clone(),
            None => {
                return ;
            },
        };
        assert(texts_view(tags@) == self.articles()[id@].tags);
        let ghost names = texts_view(tags@);
        let mut j: usize = 0;
        assert(names.take(0) =~= Seq::empty());
        assert(Seq::<Seq<char>>::empty().to_set() =~= Set::empty());
        while j < tags.len()
            invariant
                self.wf(),
                self.articles() == old(self).articles(),
                j <= tags.len(),
                names == texts_view(tags@),
                self.tag_index() == spec_reindex(index, id@, names.take(j as int).to_set()),
            decreases tags.len() - j,
        {
            let ghost done = names.take(j as int).to_set();
            let ghost before = self.tag_index();
            self.add_member(&tags[j], id);
            proof {
                let tag = names[j as int];
                assert(tags@[j as int]@ == tag);
                let next = names.take(j + 1).to_set();
                assert(next =~= done.insert(tag)) by {
                    let shorter = names.take(j as int);
                    let longer = names.take(j + 1);
                    assert(longer =~= shorter.push(tag));
                    assert forall|x: Seq<char>| next.contains(x) <==> done.insert(tag).contains(
                        x,
                    ) by {
                        if longer.contains(x) {
                            let i = choose|i: int| 0 <= i < longer.len() && longer[i] == x;
                            if i < j {
                                assert(shorter[i] == x);
                            }
                        }
                        if shorter.contains(x) {
                            let i = choose|i: int| 0 <= i < shorter.len() && shorter[i] == x;
                            assert(longer[i] == x);
                        }
                        if x == tag {
                            assert(longer[j as int] == x);
                        }
                    }
                }
                let target = spec_reindex(index, id@, next);
                assert forall|t: Seq<char>| target.contains_key(t) implies #[trigger] self.tag_index()[t]
                    =~= target[t] by {
                    if t == tag {
                        if before.contains_key(tag) {
                            assert(before[tag].insert(id@) =~= target[tag]);
                        } else {
                            assert(set![id@] =~= target[tag]);
                        }
                    }
                }
                assert(self.tag_index() =~= target);
            }
            j += 1;
        }
        assert(names.take(j as int) =~= names);
    }

    /// Puts an article in the catalogue and brings the index up to date
    /// with it.
    pub fn put(&mut self, id: String, blog: Blog)
        requires
            old(self).wf(),
        ensures
            final(self).wf(),
            final(self).articles() == old(self).articles().insert(id@, blog@),
            final(self).tag_index() == spec_reindex(old(self).tag_index(), id@, blog@.tag_set()),
            old(self).consistent() ==> final(self).consistent(),
    {
        let key = id.clone();
        proof {
            if self.consistent() {
                lemma_reindex_consistent(self.articles(), self.tag_index(), id@, blog@);
            }
        }
        self.insert(id, blog);
        self.reindex(key.as_str());
    }

    /// Whether bringing the article up to date would read its source: it
    /// is not in the catalogue yet, or it is stale.
    pub fn needs_source(&self, id: &str, os_modified: &Timestamp, regenerate: bool) -> (needed:
        bool)
        requires
            self.wf(),
        ensures
            needed == spec_needs_source(self.articles(), id@, *os_modified, regenerate),
    {
        match self.blogs.get(id) {
            Some(blog) => blog.is_stale(os_modified, regenerate),
            None => true,
        }
    }

    /// Brings one article up to date with its source file.
    ///
    /// An article that is in the catalogue and not stale is left alone and
    /// `None` comes back. Else the source is read: on success the article is
    /// put in the catalogue, the index is brought up to date with it, and
    /// the password it declares comes back; on failure nothing changes.
    pub fn refresh(
        &mut self,
        id: &str,
        source: &str,
        os_created: Timestamp,
        os_modified: Timestamp,
        regenerate: bool,
    ) -> (outcome: Result<Option<Option<String>>, ParseError>)
        requires
            old(self).wf(),
        ensures
            final(self).wf(),
            !spec_needs_source(old(self).articles(), id@, os_modified, regenerate) ==> outcome
                == Ok::<Option<Option<String>>, ParseError>(None) && final(self).articles() == old(
                self,
            ).articles() && final(self).tag_index() == old(self).tag_index(),
            spec_needs_source(old(self).articles(), id@, os_modified, regenerate) ==> exists|
                local: Option<i32>,
            |
                spec_refreshed(
                    old(self).articles(),
                    old(self).tag_index(),
                    id@,
                    #[trigger] spec_parse_article(source@, os_created, os_modified, local),
                    final(self).articles(),
                    final(self).tag_index(),
                    outcome,
                ),
            spec_needs_source(old(self).articles(), id@, os_modified, regenerate)
                && !spec_source_needs_local_offset(source@) ==> spec_refreshed(
                old(self).articles(),
                old(self).tag_index(),
                id@,
                spec_parse_article(source@, os_created, os_modified, None),
                final(self).articles(),
                final(self).tag_index(),
                outcome,
            ),
            old(self).consistent() ==> final(self).consistent(),
            outcome matches Ok(Some(_)) ==> (os_created.wf() && os_modified.wf()
                ==> final(self).articles()[id@].dated()),
    {
        if !self.needs_source(id, &os_modified, regenerate) {
            return Ok(None);
        }
        match Blog::parse(source, os_created, os_modified) {
            Ok((blog, password)) => {
                self.put(id.to_owned(), blog);
                Ok(Some(password))
            },
            Err(error) => Err(error),
        }
    }
}

/// Whether bringing an article up to date reads its source.
pub open spec fn spec_needs_source(
    articles: Map<Seq<char>, BlogView>,
    id: Seq<char>,
    os_modified: Timestamp,
    regenerate: bool,
) -> bool {
    !articles.contains_key(id) || spec_is_stale(articles[id], os_modified, regenerate)
}

/// What reading the source of an article does to the catalogue: where the
/// reading failed, nothing, and the error comes back; where it succeeded,
/// the article is in the catalogue, the index is up to date with it, and
/// the declared password comes back.
pub open spec fn spec_refreshed(
    articles: Map<Seq<char>, BlogView>,
    index: Map<Seq<char>, Set<Seq<char>>>,
    id: Seq<char>,
    parsed: Result<(BlogView, Option<Seq<char>>), ParseError>,
    articles_after: Map<Seq<char>, BlogView>,
    index_after: Map<Seq<char>, Set<Seq<char>>>,
    outcome: Result<Option<Option<String>>, ParseError>,
) -> bool {
    match parsed {
        Err(error) => outcome == Err::<Option<Option<String>>, ParseError>(error) && articles_after
            == articles && index_after == index,
        Ok((blog, password)) => {
            &&& outcome matches Ok(Some(declared))
            &&& option_text(declared) == password
            &&& articles_after == articles.insert(id, blog)
            &&& index_after == spec_reindex(index, id, blog.tag_set())
        },
    }
}

/// The article without content: no title, no language, no tags, nothing
/// optional, created and modified at the Unix epoch.
pub open spec fn spec_empty_blog() -> BlogView {
    BlogView {
        password: false,
        hint: None,
        title: Seq::empty(),
        language: Seq::empty(),
        license: None,
        tags: Seq::empty(),
        created: Timestamp { unix_nanos: 0, offset_seconds: 0, year: 1970 },
        modified: Timestamp { unix_nanos: 0, offset_seconds: 0, year: 1970 },
        preview: None,
    }
}

/// The article without content, to stand in a place of the catalogue while
/// the article that belongs there is being changed.
fn empty_blog() -> (blog: Blog)
    ensures
        blog@ == spec_empty_blog(),
{
    let blog = Blog {
        password: false,
        hint: None,
        title: String::new(),
        language: crate::blog::Language(String::new()),
        license: None,
        tags: Vec::new(),
        created: Timestamp { unix_nanos: 0, offset_seconds: 0, year: 1970 },
        modified: Timestamp { unix_nanos: 0, offset_seconds: 0, year: 1970 },
        preview: None,
    };
    assert(blog@ =~= spec_empty_blog());
    blog
}

} // verus!
