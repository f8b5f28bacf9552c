//! The resource cache and the byte-reader capability. The cache maps a
//! document path to the shared value loaded from it: written once per key,
//! never evicted, read-shared thereafter. Its lifetime is the caller's.

use std::sync::Arc;

use vstd::prelude::*;

use crate::error::Result;
use crate::template::Template;
use crate::tileset::{Tileset, arc_clone};

verus! {

/// The collaborator that yields a document's text for a path. Implemented
/// outside this crate; a failing path surfaces as an access error.
pub trait ResourceReader {
    fn read_document(&mut self, path: &String) -> Result<String>;
}

/// The associative state of one load session: path to shared tileset, and
/// path to shared template.
pub struct ResourceCache {
    tilesets: Vec<(String, Arc<Tileset>)>,
    templates: Vec<(String, Arc<Template>)>,
}

/// The map an association list denotes; a later entry overrides an earlier
/// one with the same key, though the cache never writes a key twice.
pub open spec fn entries_map<T>(s: Seq<(String, Arc<T>)>) -> Map<Seq<char>, Arc<T>>
    decreases s.len(),
{
    if s.len() == 0 {
        Map::empty()
    } else {
        entries_map(s.drop_last()).insert(s.last().0@, s.last().1)
    }
}

/// Looks a key up in an association list, last entry winning.
fn entries_get<T>(entries: &Vec<(String, Arc<T>)>, path: &String) -> (r: Option<Arc<T>>)
    ensures
        match r {
            Some(t) => entries_map(entries@).contains_key(path@) && t == entries_map(
                entries@,
            )[path@],
            None => !entries_map(entries@).contains_key(path@),
        },
{
    let ghost es = entries@;
    let mut found: Option<Arc<T>> = None;
    let mut i: usize = 0;
    proof {
        assert(es.subrange(0, 0) =~= Seq::<(String, Arc<T>)>::empty());
    }
    while i < entries.len()
        invariant
            es == entries@,
            0 <= i <= es.len(),
            match found {
                Some(t) => entries_map(es.subrange(0, i as int)).contains_key(path@) && t
                    == entries_map(es.subrange(0, i as int))[path@],
                None => !entries_map(es.subrange(0, i as int)).contains_key(path@),
            },
        decreases entries.len() - i,
    {
        proof {
            let pre = es.subrange(0, i as int + 1);
            assert(pre.drop_last() =~= es.subrange(0, i as int));
            assert(pre.last() == es[i as int]);
        }
        let e = &entries[i];
        if e.0.eq(path) {
            found = Some(arc_clone(&e.1));
        }
        i = i + 1;
    }
    proof {
        assert(es.subrange(0, es.len() as int) =~= es);
    }
    found
}

impl ResourceCache {
    /// What paths map to which shared tilesets.
    pub closed spec fn tilesets_map(&self) -> Map<Seq<char>, Arc<Tileset>> {
        entries_map(self.tilesets@)
    }

    /// What paths map to which shared templates.
    pub closed spec fn templates_map(&self) -> Map<Seq<char>, Arc<Template>> {
        entries_map(self.templates@)
    }

    /// An empty cache, ready for one or more load sessions.
    pub fn new() -> (r: ResourceCache)
        ensures
            r.tilesets_map() == Map::<Seq<char>, Arc<Tileset>>::empty(),
            r.templates_map() == Map::<Seq<char>, Arc<Template>>::empty(),
    {
        ResourceCache { tilesets: Vec::new(), templates: Vec::new() }
    }

    /// The shared tileset cached under a path, if one is.
    pub fn get_tileset(&self, path: &String) -> (r: Option<Arc<Tileset>>)
        ensures
            match r {
                Some(t) => self.tilesets_map().contains_key(path@)
                    && t == self.tilesets_map()[path@],
                None => !self.tilesets_map().contains_key(path@),
            },
    {
        entries_get(&self.tilesets, path)
    }

    /// Caches a tileset under a path.
    pub fn insert_tileset(&mut self, path: String, tileset: Arc<Tileset>)
        ensures
            final(self).tilesets_map() == old(self).tilesets_map().insert(path@, tileset),
            final(self).templates_map() == old(self).templates_map(),
    {
        let ghost pre = self.tilesets@;
        self.tilesets.push((path, tileset));
        proof {
            assert(self.tilesets@.drop_last() =~= pre);
        }
    }

    /// The shared template cached under a path, if one is.
    pub fn get_template(&self, path: &String) -> (r: Option<Arc<Template>>)
        ensures
            match r {
                Some(t) => self.templates_map().contains_key(path@)
                    && t == self.templates_map()[path@],
                None => !self.templates_map().contains_key(path@),
            },
    {
        entries_get(&self.templates, path)
    }

    /// Caches a template under a path.
    pub fn insert_template(&mut self, path: String, template: Arc<Template>)
        ensures
            final(self).templates_map() == old(self).templates_map().insert(path@, template),
            final(self).tilesets_map() == old(self).tilesets_map(),
    {
        let ghost pre = self.templates@;
        self.templates.push((path, template));
        proof {
            assert(self.templates@.drop_last() =~= pre);
        }
    }
}

/// The new cache keeps every association the old one had.
pub open spec fn cache_extends(new: &ResourceCache, old: &ResourceCache) -> bool {
    &&& old.tilesets_map().submap_of(new.tilesets_map())
    &&& old.templates_map().submap_of(new.templates_map())
}

/// Extension of the cache is transitive across successive loads.
pub proof fn lemma_cache_extends_trans(a: ResourceCache, b: ResourceCache, c: ResourceCache)
    requires
        cache_extends(&b, &a),
        cache_extends(&c, &b),
    ensures
        cache_extends(&c, &a),
{
    assert forall|k: Seq<char>| #[trigger] a.tilesets_map().dom().contains(k) implies c.tilesets_map().dom().contains(
        k,
    ) && c.tilesets_map()[k] == a.tilesets_map()[k] by {
        assert(b.tilesets_map().dom().contains(k));
    }
    assert forall|k: Seq<char>| #[trigger] a.templates_map().dom().contains(k) implies c.templates_map().dom().contains(
        k,
    ) && c.templates_map()[k] == a.templates_map()[k] by {
        assert(b.templates_map().dom().contains(k));
    }
}

} // verus!
