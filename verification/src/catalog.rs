//! The catalog: every known model, by its id.
use crate::config::{ModelEntry, ModelEntryView};
use crate::env::{resolve_env, resolved};
use crate::order::{sort, sorted};
use crate::table::Table;
use crate::text::{same, texts};
use vstd::prelude::*;

verus! {

/// Models by id.
#[derive(Clone, Debug)]
pub struct ModelCatalog {
    by_id: Table<ModelEntry>,
}

impl View for ModelCatalog {
    type V = Map<Seq<char>, ModelEntryView>;

    closed spec fn view(&self) -> Map<Seq<char>, ModelEntryView> {
        self.by_id@.map_values(|entry: ModelEntry| entry@)
    }
}

/// A catalog after these entries have come in one by one.
pub open spec fn with_entries(
    catalog: Map<Seq<char>, ModelEntryView>,
    entries: Seq<ModelEntryView>,
) -> Map<Seq<char>, ModelEntryView>
    decreases entries.len(),
{
    if entries.len() == 0 {
        catalog
    } else {
        with_entries(catalog, entries.drop_last()).insert(entries.last().id, entries.last())
    }
}

/// Of several entries with one id the last one counts, and no other entry of
/// the catalog is touched.
pub proof fn later_entries_override(
    catalog: Map<Seq<char>, ModelEntryView>,
    entries: Seq<ModelEntryView>,
    i: int,
    other: Seq<char>,
)
    requires
        0 <= i < entries.len(),
        forall|j: int| i < j < entries.len() ==> entries[j].id != entries[i].id,
        forall|j: int| 0 <= j < entries.len() ==> entries[j].id != other,
    ensures
        with_entries(catalog, entries).contains_key(entries[i].id),
        with_entries(catalog, entries)[entries[i].id] == entries[i],
        with_entries(catalog, entries).contains_key(other) == catalog.contains_key(other),
        catalog.contains_key(other) ==> with_entries(catalog, entries)[other] == catalog[other],
    decreases entries.len(),
{
    lemma_untouched(catalog, entries, other);
    if i < entries.len() - 1 {
        assert(entries.drop_last()[i] == entries[i]);
        later_entries_override(catalog, entries.drop_last(), i, other);
    }
}

proof fn lemma_untouched(
    catalog: Map<Seq<char>, ModelEntryView>,
    entries: Seq<ModelEntryView>,
    other: Seq<char>,
)
    requires
        forall|j: int| 0 <= j < entries.len() ==> entries[j].id != other,
    ensures
        with_entries(catalog, entries).contains_key(other) == catalog.contains_key(other),
        catalog.contains_key(other) ==> with_entries(catalog, entries)[other] == catalog[other],
    decreases entries.len(),
{
    if entries.len() > 0 {
        lemma_untouched(catalog, entries.drop_last(), other);
        assert(entries.last().id != other);
    }
}

/// Each entry of the outcome stands under its own id, if that held before.
proof fn lemma_own_ids(catalog: Map<Seq<char>, ModelEntryView>, entries: Seq<ModelEntryView>)
    requires
        forall|id: Seq<char>| #[trigger] catalog.contains_key(id) ==> catalog[id].id == id,
    ensures
        forall|id: Seq<char>| #[trigger]
            with_entries(catalog, entries).contains_key(id) ==> with_entries(
                catalog,
                entries,
            )[id].id == id,
    decreases entries.len(),
{
    if entries.len() > 0 {
        lemma_own_ids(catalog, entries.drop_last());
    }
}

impl ModelCatalog {
    /// Each id stands once, and for an entry with that id.
    pub closed spec fn wf(&self) -> bool {
        &&& self.by_id.wf()
        &&& forall|id: Seq<char>| #[trigger] self.by_id@.contains_key(id) ==> self.by_id@[id].id@ == id
    }

    /// The ids, in the order in which they came.
    pub closed spec fn spec_ids(&self) -> Seq<Seq<char>> {
        self.by_id.keys()
    }

    /// The ids are the keys of the catalog, each once, and each entry stands
    /// under its own id.
    pub proof fn lemma_ids(&self)
        requires
            self.wf(),
        ensures
            self.spec_ids().no_duplicates(),
            forall|id: Seq<char>| self.spec_ids().contains(id) <==> #[trigger] self@.contains_key(id),
            forall|id: Seq<char>| #[trigger] self@.contains_key(id) ==> self@[id].id == id,
    {
        self.by_id.lemma_keys();
        assert forall|id: Seq<char>| self.spec_ids().contains(id) <==> #[trigger] self@.contains_key(
            id,
        ) by {
            assert(self.by_id.keys().contains(id) <==> self.by_id@.contains_key(id));
        }
        assert forall|id: Seq<char>| #[trigger] self@.contains_key(id) implies self@[id].id == id by {
            assert(self.by_id@.contains_key(id));
        }
    }

    pub fn new() -> (catalog: ModelCatalog)
        ensures
            catalog.wf(),
            catalog@ == Map::<Seq<char>, ModelEntryView>::empty(),
    {
        let catalog = ModelCatalog { by_id: Table::new() };
        assert(catalog@ =~= Map::<Seq<char>, ModelEntryView>::empty());
        catalog
    }

    /// The catalog of these entries. Of several with one id the last counts.
    pub fn from_entries(entries: Vec<ModelEntry>) -> (catalog: ModelCatalog)
        ensures
            catalog.wf(),
            catalog@ == with_entries(
                Map::empty(),
                entries@.map_values(|entry: ModelEntry| entry@),
            ),
    {
        let mut catalog = ModelCatalog::new();
        catalog.insert_all(entries);
        catalog
    }

    /// Takes in these entries one by one.
    pub fn insert_all(&mut self, entries: Vec<ModelEntry>)
        requires
            old(self).wf(),
        ensures
            final(self).wf(),
            final(self)@ == with_entries(
                old(self)@,
                entries@.map_values(|entry: ModelEntry| entry@),
            ),
    {
        let ghost all = entries@.map_values(|entry: ModelEntry| entry@);
        assert(all.take(0) =~= Seq::empty());
        let mut i: usize = 0;
        while i < entries.len()
            invariant
                i <= entries@.len(),
                all == entries@.map_values(|entry: ModelEntry| entry@),
                self.wf(),
                self@ == with_entries(old(self)@, all.take(i as int)),
            decreases entries@.len() - i,
        {
            assert(all.take(i + 1).drop_last() =~= all.take(i as int));
            assert(all.take(i + 1).last() == entries@[i as int]@);
            self.insert(entries[i].clone());
            i = i + 1;
        }
        assert(all.take(all.len() as int) =~= all);
    }

    /// Takes in an entry, in place of one with the same id.
    pub fn insert(&mut self, entry: ModelEntry)
        requires
            old(self).wf(),
        ensures
            final(self).wf(),
            final(self)@ == old(self)@.insert(entry@.id, entry@),
            final(self).spec_ids() == (if old(self)@.contains_key(entry@.id) {
                old(self).spec_ids()
            } else {
                old(self).spec_ids().push(entry@.id)
            }),
    {
        let ghost value = entry;
        self.by_id.insert(entry.id.clone(), entry);
        assert(self@ =~= old(self)@.insert(value@.id, value@));
    }

    pub fn get(&self, id: &str) -> (entry: Option<&ModelEntry>)
        requires
            self.wf(),
        ensures
            match entry {
                Some(entry) => self@.contains_key(id@) && entry@ == self@[id@],
                None => !self@.contains_key(id@),
            },
    {
        self.by_id.get(id)
    }

    /// The ids of all models.
    pub fn ids(&self) -> (ids: Vec<String>)
        requires
            self.wf(),
        ensures
            texts(ids@) == self.spec_ids(),
    {
        let mut ids: Vec<String> = Vec::new();
        let mut i: usize = 0;
        while i < self.by_id.len()
            invariant
                i <= self.spec_ids().len(),
                ids@.len() == i,
                forall|j: int| 0 <= j < i ==> ids@[j]@ == self.spec_ids()[j],
            decreases self.spec_ids().len() - i,
        {
            ids.push(self.by_id.key_at(i).clone());
            i = i + 1;
        }
        assert(texts(ids@) =~= self.spec_ids());
        ids
    }

    pub fn len(&self) -> (n: usize)
        requires
            self.wf(),
        ensures
            n == self.spec_ids().len(),
    {
        self.by_id.len()
    }

    pub fn is_empty(&self) -> (b: bool)
        requires
            self.wf(),
        ensures
            b == (self.spec_ids().len() == 0),
    {
        self.by_id.len() == 0
    }

    /// Takes in another catalog. Its entries count over those with the same id.
    pub fn merge(&mut self, other: ModelCatalog)
        requires
            old(self).wf(),
            other.wf(),
        ensures
            final(self).wf(),
            final(self)@ == old(self)@.union_prefer_right(other@),
    {
        let mut i: usize = 0;
        let ghost ids = other.spec_ids();
        proof {
            other.lemma_ids();
            assert(self@ =~= old(self)@.union_prefer_right(other@.restrict(ids.take(0).to_set())));
        }
        while i < other.by_id.len()
            invariant
                i <= ids.len(),
                ids == other.spec_ids(),
                other.wf(),
                self.wf(),
                forall|id: Seq<char>| ids.contains(id) <==> #[trigger] other@.contains_key(id),
                forall|id: Seq<char>| #[trigger] other@.contains_key(id) ==> other@[id].id == id,
                self@ == old(self)@.union_prefer_right(other@.restrict(ids.take(i as int).to_set())),
            decreases ids.len() - i,
        {
            let ghost shorter = ids.take(i as int);
            let ghost longer = ids.take(i + 1);
            let ghost so_far = self@;
            assert(longer =~= shorter.push(ids[i as int]));
            let entry = other.by_id.value_at(i);
            assert(ids.contains(ids[i as int]));
            assert(other@.contains_key(ids[i as int]));
            assert(other.by_id@.contains_key(ids[i as int]));
            assert(entry@ == other@[ids[i as int]]);
            self.insert(entry.clone());
            proof {
                assert forall|id: Seq<char>| longer.contains(id) <==> (id == ids[i as int]
                    || shorter.contains(id)) by {
                    if shorter.contains(id) {
                        assert(longer[shorter.index_of(id)] == id);
                    }
                    if longer.contains(id) && id != ids[i as int] {
                        assert(shorter[longer.index_of(id)] == id);
                    }
                    assert(longer[i as int] == ids[i as int]);
                }
                assert(self@ =~= old(self)@.union_prefer_right(other@.restrict(longer.to_set())));
            }
            i = i + 1;
        }
        assert(ids.take(ids.len() as int) =~= ids);
        assert(other@.restrict(ids.to_set()) =~= other@);
    }
}

/// An entry with the variables that its key and its base URL refer to put in
/// their place.
pub open spec fn entry_resolved(
    entry: ModelEntryView,
    env: Map<Seq<char>, String>,
) -> ModelEntryView {
    ModelEntryView {
        api_key: resolved(entry.api_key, env),
        base_url: resolved(entry.base_url, env),
        ..entry
    }
}

/// Entries with the variables that they refer to put in their place.
pub open spec fn entries_resolved(
    entries: Seq<ModelEntryView>,
    env: Map<Seq<char>, String>,
) -> Seq<ModelEntryView> {
    entries.map_values(|entry: ModelEntryView| entry_resolved(entry, env))
}

impl ModelCatalog {
    /// Takes in the entries of a file, with the variables that their keys and
    /// their base URLs refer to put in their place.
    pub fn load_file(&mut self, entries: Vec<ModelEntry>, env: &Table<String>)
        requires
            old(self).wf(),
            env.wf(),
        ensures
            final(self).wf(),
            final(self)@ == with_entries(
                old(self)@,
                entries_resolved(entries@.map_values(|entry: ModelEntry| entry@), env@),
            ),
    {
        let ghost given = entries@.map_values(|entry: ModelEntry| entry@);
        let mut loaded: Vec<ModelEntry> = Vec::new();
        let mut i: usize = 0;
        while i < entries.len()
            invariant
                i <= entries@.len(),
                env.wf(),
                loaded@.len() == i,
                forall|j: int|
                    0 <= j < i ==> (#[trigger] loaded@[j])@ == entry_resolved(entries@[j]@, env@),
            decreases entries@.len() - i,
        {
            let mut entry = entries[i].clone();
            entry.api_key = resolve_env(entry.api_key.as_str(), env);
            entry.base_url = resolve_env(entry.base_url.as_str(), env);
            loaded.push(entry);
            i = i + 1;
        }
        assert(loaded@.map_values(|entry: ModelEntry| entry@) =~= entries_resolved(given, env@));
        self.insert_all(loaded);
    }
}

/// Whether a file of this name belongs to a catalog: it ends in `.toml`, and
/// something stands before that.
pub open spec fn is_catalog_file(name: Seq<char>) -> bool {
    name.len() > 5 && name.skip(name.len() - 5) == ".toml"@
}

/// The names of files that belong to a catalog.
pub open spec fn catalog_names() -> spec_fn(String) -> bool {
    |name: String| is_catalog_file(name@)
}

fn belongs(name: &String) -> (b: bool)
    ensures
        b == is_catalog_file(name@),
{
    proof {
        reveal_strlit(".toml");
    }
    let n: usize = name.as_str().unicode_len();
    if n <= 5 {
        return false;
    }
    let end = name.as_str().substring_char(n - 5, n);
    assert(end@ =~= name@.skip(name@.len() - 5));
    same(end, ".toml")
}

/// The files of a directory that belong to a catalog, in the order in which
/// they are loaded.
pub fn catalog_files(names: Vec<String>) -> (files: Vec<String>)
    ensures
        sorted(files@),
        files@.to_multiset() == names@.filter(catalog_names()).to_multiset(),
{
    let mut kept: Vec<String> = Vec::new();
    let mut i: usize = 0;
    assert(names@.take(0).filter(catalog_names()) =~= Seq::empty()) by {
        reveal(Seq::filter);
    }
    while i < names.len()
        invariant
            i <= names@.len(),
            kept@ == names@.take(i as int).filter(catalog_names()),
        decreases names@.len() - i,
    {
        proof {
            reveal(Seq::filter);
            assert(names@.take(i + 1).drop_last() =~= names@.take(i as int));
        }
        if belongs(&names[i]) {
            kept.push(names[i].clone());
        }
        i = i + 1;
    }
    assert(names@.take(names@.len() as int) =~= names@);
    sort(kept)
}

} // verus!
