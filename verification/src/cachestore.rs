use vstd::prelude::*;

use vstd::pervasive::VecAdditionalExecFns;

use crate::errors::{CacheReadError, CacheWriteError};
use crate::ids::{check_identifier, id_valid};

verus! {

/// One cache entry: the secret identifier (also the entry's file name) and
/// the stored blob text.
struct CacheEntry {
    id: String,
    blob: String,
}

/// True when no identifier occurs twice.
spec fn ids_unique(es: Seq<CacheEntry>) -> bool {
    forall|i: int, j: int|
        0 <= i < j < es.len() ==> #[trigger] es[i].id@ != #[trigger] es[j].id@
}

/// True when some entry carries the identifier.
spec fn has_id(es: Seq<CacheEntry>, id: Seq<char>) -> bool {
    exists|i: int| 0 <= i < es.len() && #[trigger] es[i].id@ == id
}

/// The blob of the entry carrying the identifier.
spec fn blob_at(es: Seq<CacheEntry>, id: Seq<char>) -> Seq<char> {
    es[choose|i: int| 0 <= i < es.len() && #[trigger] es[i].id@ == id].blob@
}

/// With unique identifiers, any entry carrying the identifier gives the blob.
proof fn lemma_blob_at(es: Seq<CacheEntry>, id: Seq<char>, i: int)
    requires
        ids_unique(es),
        0 <= i < es.len(),
        es[i].id@ == id,
    ensures
        blob_at(es, id) == es[i].blob@,
{
    let j = choose|j: int| 0 <= j < es.len() && #[trigger] es[j].id@ == id;
    assert(es[i].id@ == id);
    if i < j {
        assert(es[i].id@ != es[j].id@);
    } else if j < i {
        assert(es[j].id@ != es[i].id@);
    }
}

/// The cache directory on disk, modelled as a finite map from identifier to
/// stored blob.  The integration layer loads the real directory into a
/// `CacheStore` and mirrors every change back to disk.
pub struct CacheStore {
    entries: Vec<CacheEntry>,
}

impl View for CacheStore {
    type V = Map<Seq<char>, Seq<char>>;

    closed spec fn view(&self) -> Map<Seq<char>, Seq<char>> {
        Map::new(|id: Seq<char>| has_id(self.entries@, id), |id: Seq<char>| blob_at(self.entries@, id))
    }
}

impl CacheStore {
    /// Identifiers are unique (so the map view is faithful) and valid as
    /// path components.
    pub closed spec fn wf(&self) -> bool {
        &&& ids_unique(self.entries@)
        &&& forall|i: int|
            0 <= i < self.entries@.len() ==> id_valid(#[trigger] self.entries@[i].id@)
    }

    /// An empty store: what an absent or empty cache directory loads to.
    pub fn empty() -> (r: CacheStore)
        ensures
            r.wf(),
            r@ == Map::<Seq<char>, Seq<char>>::empty(),
    {
        let r = CacheStore { entries: Vec::new() };
        proof {
            assert(r@ =~= Map::<Seq<char>, Seq<char>>::empty());
        }
        r
    }

    /// The index of the entry carrying the identifier, if any.
    fn find(&self, id: &str) -> (r: Option<usize>)
        ensures
            r matches Some(i) ==> i < self.entries@.len() && self.entries@[i as int].id@ == id@,
            r is None ==> !has_id(self.entries@, id@),
    {
        let needle: String = id.to_owned();
        let n = self.entries.len();
        let mut i: usize = 0;
        while i < n
            invariant
                i <= n,
                n == self.entries@.len(),
                needle@ == id@,
                forall|j: int| 0 <= j < i ==> #[trigger] self.entries@[j].id@ != id@,
            decreases n - i,
        {
            if self.entries[i].id == needle {
                return Some(i);
            }
            i += 1;
        }
        None
    }

    /// Stores `blob` under `id`, replacing any existing entry for the same
    /// identifier; refused exactly when the identifier may not name a cache
    /// entry.
    pub fn write(&mut self, id: &str, blob: String) -> (r: Result<(), CacheWriteError>)
        requires
            old(self).wf(),
        ensures
            final(self).wf(),
            r is Ok <==> id_valid(id@),
            r is Ok ==> final(self)@ == old(self)@.insert(id@, blob@),
            r matches Err(e) ==> e == CacheWriteError::InvalidIdentifier && *final(self) == *old(
                self,
            ),
    {
        if !check_identifier(id) {
            return Err(CacheWriteError::InvalidIdentifier);
        }
        let ghost old_es = self.entries@;
        let ghost new_blob = blob@;
        match self.find(id) {
            Some(i) => {
                let entry = CacheEntry { id: id.to_owned(), blob };
                self.entries.set(i, entry);
                proof {
                    let es = self.entries@;
                    assert forall|k: Seq<char>| has_id(es, k) implies has_id(old_es, k) by {
                        let w = choose|w: int| 0 <= w < es.len() && #[trigger] es[w].id@ == k;
                        assert(old_es[w].id@ == k);
                    }
                    assert forall|k: Seq<char>| has_id(old_es, k) implies has_id(es, k) by {
                        let w = choose|w: int| 0 <= w < old_es.len() && #[trigger] old_es[w].id@
                            == k;
                        assert(es[w].id@ == k);
                    }
                    assert(ids_unique(es)) by {
                        assert forall|a: int, b: int| 0 <= a < b < es.len() implies #[trigger] es[a].id@
                            != #[trigger] es[b].id@ by {
                            assert(old_es[a].id@ != old_es[b].id@);
                        }
                    }
                    assert(self@ =~= old(self)@.insert(id@, new_blob)) by {
                        assert forall|k: Seq<char>| has_id(es, k) implies blob_at(es, k) == (if k
                            == id@ {
                            new_blob
                        } else {
                            blob_at(old_es, k)
                        }) by {
                            let w = choose|w: int| 0 <= w < es.len() && #[trigger] es[w].id@ == k;
                            if k == id@ {
                                lemma_blob_at(es, k, i as int);
                            } else {
                                lemma_blob_at(es, k, w);
                                assert(old_es[w].id@ == k);
                                lemma_blob_at(old_es, k, w);
                            }
                        }
                    }
                }
                Ok(())
            },
            None => {
                let entry = CacheEntry { id: id.to_owned(), blob };
                self.entries.push(entry);
                proof {
                    let es = self.entries@;
                    let n = old_es.len() as int;
                    assert(ids_unique(es)) by {
                        assert forall|a: int, b: int| 0 <= a < b < es.len() implies #[trigger] es[a].id@
                            != #[trigger] es[b].id@ by {
                            if b < n {
                                assert(old_es[a].id@ != old_es[b].id@);
                            } else {
                                assert(es[b].id@ == id@);
                                assert(old_es[a].id@ == es[a].id@);
                                assert(!has_id(old_es, id@));
                            }
                        }
                    }
                    assert(self@ =~= old(self)@.insert(id@, new_blob)) by {
                        assert forall|k: Seq<char>| has_id(es, k) implies (k == id@ || has_id(
                            old_es,
                            k,
                        )) by {
                            let w = choose|w: int| 0 <= w < es.len() && #[trigger] es[w].id@ == k;
                            if w < n {
                                assert(old_es[w].id@ == k);
                            }
                        }
                        assert forall|k: Seq<char>| has_id(old_es, k) implies has_id(es, k) by {
                            let w = choose|w: int|
                                0 <= w < old_es.len() && #[trigger] old_es[w].id@ == k;
                            assert(es[w].id@ == k);
                        }
                        assert(es[n].id@ == id@);
                        assert(has_id(es, id@));
                        assert forall|k: Seq<char>| has_id(es, k) implies blob_at(es, k) == (if k
                            == id@ {
                            new_blob
                        } else {
                            blob_at(old_es, k)
                        }) by {
                            let w = choose|w: int| 0 <= w < es.len() && #[trigger] es[w].id@ == k;
                            if k == id@ {
                                lemma_blob_at(es, k, n);
                            } else {
                                lemma_blob_at(es, k, w);
                                assert(old_es[w].id@ == k);
                                lemma_blob_at(old_es, k, w);
                            }
                        }
                    }
                }
                Ok(())
            },
        }
    }

    /// The stored blob for `id`, unmodified; `CacheMiss` when no entry
    /// exists.
    pub fn read(&self, id: &str) -> (r: Result<String, CacheReadError>)
        requires
            self.wf(),
        ensures
            r is Ok <==> self@.dom().contains(id@),
            r matches Ok(b) ==> b@ == self@[id@],
            r matches Err(e) ==> e == CacheReadError::CacheMiss,
    {
        match self.find(id) {
            Some(i) => {
                proof {
                    assert(has_id(self.entries@, id@));
                    lemma_blob_at(self.entries@, id@, i as int);
                }
                Ok(self.entries[i].blob.clone())
            },
            None => Err(CacheReadError::CacheMiss),
        }
    }

    /// Deletes every entry; succeeds also on an already-empty store.
    pub fn clear_all(&mut self)
        ensures
            final(self).wf(),
            final(self)@ == Map::<Seq<char>, Seq<char>>::empty(),
    {
        self.entries.clear();
        proof {
            assert(self@ =~= Map::<Seq<char>, Seq<char>>::empty());
        }
    }

    /// True when no entry is stored.
    pub fn is_empty(&self) -> (r: bool)
        ensures
            r <==> self@ =~= Map::<Seq<char>, Seq<char>>::empty(),
    {
        let r = self.entries.is_empty();
        proof {
            if self.entries@.len() > 0 {
                assert(has_id(self.entries@, self.entries@[0].id@));
                assert(self@.dom().contains(self.entries@[0].id@));
            } else {
                assert(self@ =~= Map::<Seq<char>, Seq<char>>::empty());
            }
        }
        r
    }
}

} // verus!
