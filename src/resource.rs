//! The bank cache: loaded banks by logical name, and the table from short
//! event names to full event paths.

use vstd::prelude::*;
use crate::naming::{derive_short_name, short_name_of};
use crate::table::{
    entries, find_key, has_key, key_index, keys_unique, lemma_key_index,
    lemma_key_index_same_keys, lemma_key_index_unique, lemma_remove_unique, lemma_upsert_unique,
    lookup, remove_key, upsert,
};

verus! {

/// `names` after recording each of `paths`, in order, under its short name;
/// a later path wins over an earlier one with the same short name.
pub open spec fn with_short_names(
    names: Seq<(Seq<char>, Seq<char>)>,
    paths: Seq<Seq<char>>,
) -> Seq<(Seq<char>, Seq<char>)>
    decreases paths.len(),
{
    if paths.len() == 0 {
        names
    } else {
        upsert(with_short_names(names, paths.drop_last()), short_name_of(paths.last()), paths.last())
    }
}

/// What the cache holds, on mathematical values.
pub struct CacheModel<B> {
    /// Prefix of every bank file's path.
    pub base: Seq<char>,
    /// Loaded banks by logical name.
    pub banks: Seq<(Seq<char>, B)>,
    /// Full event paths by short name.
    pub names: Seq<(Seq<char>, Seq<char>)>,
}

impl<B> CacheModel<B> {
    /// A name maps to at most one bank, a short name to at most one path.
    pub open spec fn wf(self) -> bool {
        keys_unique(self.banks) && keys_unique(self.names)
    }

    pub open spec fn is_loaded(self, name: Seq<char>) -> bool {
        has_key(self.banks, name)
    }

    /// The file that holds the bank of logical name `name`.
    pub open spec fn bank_file(self, name: Seq<char>) -> Seq<char> {
        self.base + name + ".bank"@
    }

    /// The full path for `name`: the one recorded under it as a short name,
    /// else `name` itself.
    pub open spec fn resolve(self, name: Seq<char>) -> Seq<char> {
        match lookup(self.names, name) {
            Some(path) => path,
            None => name,
        }
    }

    /// The cache after `bank`, which defines the events `paths`, was opened
    /// under `name`. A name that is already loaded keeps its bank and the
    /// name table is left as it was.
    pub open spec fn register(self, name: Seq<char>, bank: B, paths: Seq<Seq<char>>) -> Self {
        if self.is_loaded(name) {
            self
        } else {
            CacheModel {
                base: self.base,
                banks: upsert(self.banks, name, bank),
                names: with_short_names(self.names, paths),
            }
        }
    }

    /// The cache after the bank under `name`, if any, was dropped. The name
    /// table keeps its entries.
    pub open spec fn unload(self, name: Seq<char>) -> Self {
        CacheModel { base: self.base, banks: remove_key(self.banks, name), names: self.names }
    }
}

pub proof fn lemma_short_names_unique(names: Seq<(Seq<char>, Seq<char>)>, paths: Seq<Seq<char>>)
    requires
        keys_unique(names),
    ensures
        keys_unique(with_short_names(names, paths)),
    decreases paths.len(),
{
    if paths.len() > 0 {
        lemma_short_names_unique(names, paths.drop_last());
        lemma_upsert_unique(
            with_short_names(names, paths.drop_last()),
            short_name_of(paths.last()),
            paths.last(),
        );
    }
}

/// The bank cache over an engine context `S` whose loaded banks are `B`.
/// Dropping a `B` is what releases the bank in the engine.
pub struct AudioSystem<S, B> {
    system: S,
    banks: Vec<(String, B)>,
    base_path: String,
    simple_names: Vec<(String, String)>,
}

impl<S, B> View for AudioSystem<S, B> {
    type V = CacheModel<B>;

    closed spec fn view(&self) -> CacheModel<B> {
        CacheModel {
            base: self.base_path@,
            banks: entries(self.banks@),
            names: self.simple_names@.map_values(|p: (String, String)| (p.0@, p.1@)),
        }
    }
}

impl<S, B> AudioSystem<S, B> {
    /// The engine context the cache was made with.
    pub closed spec fn engine(&self) -> S {
        self.system
    }

    pub open spec fn wf(&self) -> bool {
        self@.wf()
    }

    /// An empty cache whose bank files are found under `base_path`.
    pub fn new(system: S, base_path: String) -> (r: Self)
        ensures
            r.wf(),
            r.engine() == system,
            r@.base == base_path@,
            r@.banks.len() == 0,
            r@.names.len() == 0,
    {
        let r = AudioSystem { system, banks: Vec::new(), base_path, simple_names: Vec::new() };
        assert(r@.banks =~= Seq::empty());
        assert(r@.names =~= Seq::empty());
        r
    }

    /// The engine context.
    pub fn system(&self) -> (r: &S)
        ensures
            *r == self.engine(),
    {
        &self.system
    }

    /// Path of the file that holds the bank `name`: base path, name, `.bank`.
    pub fn bank_file(&self, name: &str) -> (r: String)
        ensures
            r@ == self@.bank_file(name@),
    {
        let mut r = self.base_path.clone();
        r.append(name);
        r.append(".bank");
        r
    }

    /// Whether a bank is loaded under `name`.
    pub fn is_loaded(&self, name: &str) -> (r: bool)
        ensures
            r == self@.is_loaded(name@),
    {
        find_key(&self.banks, name).is_some()
    }

    /// First half of loading the bank `name`: `None` when it is already
    /// loaded, so that nothing is to be opened; else the file to open. The
    /// bank opened from it, with the paths of its events, is handed to
    /// `register_bank`. A failure to open it leaves the cache as it is.
    pub fn load_bank(&self, name: &str) -> (r: Option<String>)
        ensures
            r is None <==> self@.is_loaded(name@),
            r matches Some(file) ==> file@ == self@.bank_file(name@),
    {
        if self.is_loaded(name) {
            None
        } else {
            Some(self.bank_file(name))
        }
    }

    /// Records each of `event_paths`, in order, under its short name.
    fn populate_simple_names(&mut self, event_paths: &Vec<String>)
        requires
            old(self).wf(),
        ensures
            final(self).wf(),
            final(self)@ == (CacheModel {
                names: with_short_names(old(self)@.names, event_paths@.map_values(|p: String| p@)),
                ..old(self)@
            }),
            final(self).engine() == old(self).engine(),
    {
        let ghost paths = event_paths@.map_values(|p: String| p@);
        let mut i: usize = 0;
        assert(paths.subrange(0, 0) =~= Seq::<Seq<char>>::empty());
        while i < event_paths.len()
            invariant
                i <= event_paths.len(),
                paths == event_paths@.map_values(|p: String| p@),
                self@ == (CacheModel {
                    names: with_short_names(old(self)@.names, paths.subrange(0, i as int)),
                    ..old(self)@
                }),
                self.wf(),
                self.engine() == old(self).engine(),
            decreases event_paths.len() - i,
        {
            let path = &event_paths[i];
            let short = derive_short_name(path.as_str());
            let ghost before = self@.names;
            let ghost done = paths.subrange(0, i + 1);
            assert(done.drop_last() =~= paths.subrange(0, i as int));
            assert(done.last() == path@);
            proof {
                lemma_key_index_same_keys(entries(self.simple_names@), before, short@);
                lemma_key_index(before, short@);
                lemma_upsert_unique(before, short@, path@);
            }
            match find_key(&self.simple_names, short.as_str()) {
                Some(k) => {
                    self.simple_names.set(k, (short, path.clone()));
                },
                None => {
                    self.simple_names.push((short, path.clone()));
                },
            }
            assert(self@.names =~= upsert(before, short_name_of(path@), path@));
            i = i + 1;
        }
        assert(paths.subrange(0, i as int) =~= paths);
    }

    /// Second half of loading the bank `name`: records `bank`, which defines
    /// the events `event_paths`, and their short names. When `name` is
    /// loaded already nothing changes and `bank` is handed back to be dropped.
    pub fn register_bank(&mut self, name: &str, bank: B, event_paths: &Vec<String>) -> (r: Option<B>)
        requires
            old(self).wf(),
        ensures
            final(self).wf(),
            final(self)@ == old(self)@.register(name@, bank, event_paths@.map_values(|p: String| p@)),
            final(self).engine() == old(self).engine(),
            r == (if old(self)@.is_loaded(name@) { Some(bank) } else { None::<B> }),
    {
        if self.is_loaded(name) {
            return Some(bank);
        }
        self.populate_simple_names(event_paths);
        let ghost before = self@.banks;
        proof {
            lemma_upsert_unique(before, name@, bank);
        }
        self.banks.push((String::from_str(name), bank));
        assert(self@.banks =~= upsert(before, name@, bank));
        None
    }

    /// Drops the bank under `name` from the cache and hands it back, to be
    /// released; `None` when no bank has that name. The name table is kept:
    /// its entries for the bank's events go stale.
    pub fn unload_bank(&mut self, name: &str) -> (r: Option<B>)
        requires
            old(self).wf(),
        ensures
            final(self).wf(),
            final(self)@ == old(self)@.unload(name@),
            final(self).engine() == old(self).engine(),
            r == lookup(old(self)@.banks, name@),
    {
        proof {
            lemma_remove_unique(self@.banks, name@);
        }
        match find_key(&self.banks, name) {
            Some(i) => {
                let ghost before = self@.banks;
                let (_, bank) = self.banks.remove(i);
                assert(self@.banks =~= before.remove(i as int));
                Some(bank)
            },
            None => None,
        }
    }

    /// The full path for `name`: the path recorded under it as a short name,
    /// else `name` unchanged.
    pub fn resolve<'a>(&'a self, name: &'a str) -> (r: &'a str)
        ensures
            r@ == self@.resolve(name@),
    {
        proof {
            lemma_key_index_same_keys(entries(self.simple_names@), self@.names, name@);
        }
        match find_key(&self.simple_names, name) {
            Some(i) => self.simple_names[i].1.as_str(),
            None => name,
        }
    }
}

} // verus!

verus! {

/// Loading one bank name twice: once the first load has registered the bank,
/// the name counts as loaded, so a second load opens no file; exactly one
/// entry holds the name; and registering under it again changes neither the
/// banks nor the name table.
pub proof fn lemma_load_idempotent<B>(
    m: CacheModel<B>,
    name: Seq<char>,
    bank: B,
    paths: Seq<Seq<char>>,
    again: B,
    again_paths: Seq<Seq<char>>,
)
    requires
        m.wf(),
    ensures
        ({
            let m1 = m.register(name, bank, paths);
            &&& m1.wf()
            &&& m1.is_loaded(name)
            &&& m1.register(name, again, again_paths) == m1
            &&& exists|i: int|
                0 <= i < m1.banks.len() && m1.banks[i].0 == name && forall|j: int|
                    0 <= j < m1.banks.len() && m1.banks[j].0 == name ==> j == i
        }),
{
    let m1 = m.register(name, bank, paths);
    if !m.is_loaded(name) {
        lemma_upsert_unique(m.banks, name, bank);
        lemma_short_names_unique(m.names, paths);
    }
    lemma_key_index(m1.banks, name);
    let i = key_index(m1.banks, name);
    assert(0 <= i < m1.banks.len() && m1.banks[i].0 == name);
}

/// Unloading a bank drops it from the cache but leaves resolution as it was:
/// a short name of one of its events still resolves to the same full path.
pub proof fn lemma_unload_keeps_resolution<B>(m: CacheModel<B>, name: Seq<char>, query: Seq<char>)
    requires
        m.wf(),
    ensures
        m.unload(name).wf(),
        !m.unload(name).is_loaded(name),
        m.unload(name).resolve(query) == m.resolve(query),
{
    lemma_remove_unique(m.banks, name);
}

} // verus!

verus! {

/// After a bank is registered under a new name, the short name of its last
/// event resolves to that event's full path.
pub proof fn lemma_register_resolves_short_name<B>(
    m: CacheModel<B>,
    name: Seq<char>,
    bank: B,
    paths: Seq<Seq<char>>,
)
    requires
        m.wf(),
        !m.is_loaded(name),
        paths.len() > 0,
    ensures
        m.register(name, bank, paths).resolve(short_name_of(paths.last())) == paths.last(),
{
    lemma_short_names_unique(m.names, paths.drop_last());
    lemma_upsert_unique(
        with_short_names(m.names, paths.drop_last()),
        short_name_of(paths.last()),
        paths.last(),
    );
}

} // verus!
