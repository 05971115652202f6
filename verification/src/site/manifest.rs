//! The catalogue of sites.

use vstd::prelude::*;
use crate::collections::TextMap;
use crate::site::{Site, SiteView};

verus! {

/// Every site by its id.
#[derive(Debug, Clone, PartialEq, Eq)]
pub struct SiteManifest(pub TextMap<Site>);

impl SiteManifest {
    /// The sites by their ids.
    pub open spec fn sites(&self) -> Map<Seq<char>, SiteView> {
        self.0@.map_values(|site: Site| site@)
    }

    /// No id is held twice.
    pub open spec fn wf(&self) -> bool {
        self.0.wf()
    }

    /// The empty catalogue.
    pub fn new() -> (manifest: SiteManifest)
        ensures
            manifest.wf(),
            manifest.sites() == Map::<Seq<char>, SiteView>::empty(),
    {
        let manifest = SiteManifest(TextMap::new());
        assert(manifest.sites() =~= Map::<Seq<char>, SiteView>::empty());
        manifest
    }

    /// Puts a site in the catalogue under an id, in the place of the one
    /// that was there.
    pub fn insert(&mut self, id: String, site: Site)
        requires
            old(self).wf(),
        ensures
            final(self).wf(),
            final(self).sites() == old(self).sites().insert(id@, site@),
    {
        self.0.insert(id, site);
        assert(self.sites() =~= old(self).sites().insert(id@, site@));
    }

    /// The site with the given id.
    pub fn get(&self, id: &str) -> (site: Option<&Site>)
        requires
            self.wf(),
        ensures
            site is Some <==> self.sites().contains_key(id@),
            site matches Some(found) ==> found@ == self.sites()[id@],
    {
        self.0.get(id)
    }
}

} // verus!
