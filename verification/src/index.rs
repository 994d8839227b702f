//! The executable-resolution index: an environment snapshot and the mapping
//! from executable name to filesystem location built by scanning every
//! search-path directory in order. A directory later in the search path
//! overwrites what an earlier one recorded — the entry recorded last wins.

use vstd::prelude::*;

use crate::invocable::Bin;
use crate::errors::ExecError;
use crate::strmap::StrMap;
use crate::strmap::map_of;
use crate::strmap::merge_maps;
use crate::text::split_on_colon;

verus! {

/// The mapping that merging the per-directory mappings in search-path order
/// produces: on a name two directories share, the later directory wins.
pub open spec fn combined_index(maps: Seq<Map<Seq<char>, Seq<char>>>) -> Map<Seq<char>, Seq<char>>
    decreases maps.len(),
{
    if maps.len() == 0 {
        Map::empty()
    } else {
        combined_index(maps.drop_last()).union_prefer_right(maps.last())
    }
}

/// The index's name set is the union of the scanned directories' name sets.
pub proof fn lemma_index_domain(maps: Seq<Map<Seq<char>, Seq<char>>>)
    ensures
        forall|k: Seq<char>|
            combined_index(maps).contains_key(k) <==> exists|d: int|
                0 <= d < maps.len() && (#[trigger] maps[d]).contains_key(k),
    decreases maps.len(),
{
    if maps.len() > 0 {
        let dl = maps.drop_last();
        lemma_index_domain(dl);
        assert forall|k: Seq<char>|
            combined_index(maps).contains_key(k) <==> exists|d: int|
                0 <= d < maps.len() && (#[trigger] maps[d]).contains_key(k) by {
            if combined_index(maps).contains_key(k) {
                if maps.last().contains_key(k) {
                    assert(maps[maps.len() - 1].contains_key(k));
                } else {
                    assert(combined_index(dl).contains_key(k));
                    let d = choose|d: int| 0 <= d < dl.len() && (#[trigger] dl[d]).contains_key(k);
                    assert(dl[d] == maps[d]);
                    assert(maps[d].contains_key(k));
                }
            }
            if exists|d: int| 0 <= d < maps.len() && (#[trigger] maps[d]).contains_key(k) {
                let d = choose|d: int| 0 <= d < maps.len() && (#[trigger] maps[d]).contains_key(k);
                if d < maps.len() - 1 {
                    assert(dl[d] == maps[d]);
                    assert(dl[d].contains_key(k));
                    assert(combined_index(dl).contains_key(k));
                } else {
                    assert(maps.last().contains_key(k));
                }
                assert(combined_index(maps).contains_key(k));
            }
        }
    }
}

/// Shadowing: on any name, the last search-path directory that carries it
/// decides the stored location.
pub proof fn lemma_last_directory_wins(maps: Seq<Map<Seq<char>, Seq<char>>>, d: int, k: Seq<char>)
    requires
        0 <= d < maps.len(),
        maps[d].contains_key(k),
        forall|d2: int| d < d2 < maps.len() ==> !(#[trigger] maps[d2]).contains_key(k),
    ensures
        combined_index(maps).contains_key(k),
        combined_index(maps)[k] == maps[d][k],
    decreases maps.len(),
{
    if d == maps.len() - 1 {
    } else {
        let dl = maps.drop_last();
        assert(dl[d] == maps[d]);
        assert forall|d2: int| d < d2 < dl.len() implies !(#[trigger] dl[d2]).contains_key(k) by {
            assert(dl[d2] == maps[d2]);
        }
        lemma_last_directory_wins(dl, d, k);
        assert(!maps[maps.len() - 1].contains_key(k));
    }
}

/// When every directory carries its own distinct names, the index is the
/// union of all the names, each mapped to the location its directory gave.
pub proof fn lemma_distinct_names_index(maps: Seq<Map<Seq<char>, Seq<char>>>)
    requires
        forall|d1: int, d2: int, k: Seq<char>|
            0 <= d1 < maps.len() && 0 <= d2 < maps.len() && d1 != d2 && #[trigger] maps[d1].contains_key(k)
                ==> !(#[trigger] maps[d2].contains_key(k)),
    ensures
        forall|k: Seq<char>|
            combined_index(maps).contains_key(k) <==> exists|d: int|
                0 <= d < maps.len() && (#[trigger] maps[d]).contains_key(k),
        forall|d: int, k: Seq<char>|
            0 <= d < maps.len() && #[trigger] maps[d].contains_key(k) ==> combined_index(maps)[k]
                == maps[d][k],
{
    lemma_index_domain(maps);
    assert forall|d: int, k: Seq<char>|
        0 <= d < maps.len() && #[trigger] maps[d].contains_key(k) implies combined_index(maps)[k]
        == maps[d][k] by {
        lemma_last_directory_wins(maps, d, k);
    }
}

/// Index construction is deterministic: two mappings built from the same
/// per-directory scans are equal. With the builder's exact contract this is
/// immediate, and it is the sense in which rebuilding over an unchanged
/// search path and filesystem changes nothing.
pub proof fn lemma_index_deterministic(
    m1: Map<Seq<char>, Seq<char>>,
    m2: Map<Seq<char>, Seq<char>>,
    maps: Seq<Map<Seq<char>, Seq<char>>>,
)
    requires
        m1 == combined_index(maps),
        m2 == combined_index(maps),
    ensures
        m1 == m2,
{
}

/// The per-scan mappings that a sequence of directory scans denotes.
pub open spec fn scan_maps(scans: Seq<Seq<(Seq<char>, Seq<char>)>>) -> Seq<Map<Seq<char>, Seq<char>>> {
    scans.map_values(|s: Seq<(Seq<char>, Seq<char>)>| map_of(s))
}

/// Builds the index from the scans of each search-path directory, given in
/// search-path order: each scan's entries are recorded in scan order, and a
/// later directory overwrites an earlier one.
pub fn build_index(scans: Vec<Vec<(String, String)>>) -> (r: StrMap)
    ensures
        r@ == combined_index(scan_maps(scans.deep_view())),
{
    let ghost scans_all = scans.deep_view();
    let ghost all = scan_maps(scans_all);
    let mut scans = scans;
    let mut acc = StrMap::new();
    let ghost mut i: int = 0;
    proof {
        assert(all.subrange(0, 0) =~= Seq::<Map<Seq<char>, Seq<char>>>::empty());
        assert(scans.deep_view() =~= scans_all.subrange(0, scans_all.len() as int));
    }
    while scans.len() > 0
        invariant
            i + scans@.len() == all.len(),
            all.len() == scans_all.len(),
            all == scan_maps(scans_all),
            0 <= i,
            acc@ == combined_index(all.subrange(0, i)),
            scans.deep_view() =~= scans_all.subrange(i, scans_all.len() as int),
        decreases scans@.len(),
    {
        let ghost pre = scans.deep_view();
        let scan = scans.remove(0);
        proof {
            assert(scans.deep_view() =~= pre.remove(0));
            assert(scan.deep_view() == pre[0]);
            assert(pre[0] == scans_all[i]);
            assert(all[i] == map_of(scans_all[i]));
            assert(map_of(scan.deep_view()) == all[i]);
        }
        let m = StrMap::from_pairs(scan);
        merge_maps(&mut acc, m);
        proof {
            assert(all.subrange(0, i + 1).drop_last() =~= all.subrange(0, i));
            assert(all.subrange(0, i + 1).last() == all[i]);
            assert(scans.deep_view() =~= scans_all.subrange(i + 1, scans_all.len() as int));
            i = i + 1;
        }
    }
    proof {
        assert(all.subrange(0, i) =~= all);
    }
    acc
}

/// Relies on walkdir::WalkDir: recursively walks the tree under `dir`,
/// following symbolic links, and yields each entry, the directory itself
/// included. Entries that error (permission, broken link) are skipped, and so
/// is an entry whose name is not representable as text. What comes back is
/// each entry's name and path, in walk order; it depends on what is on disk,
/// so nothing more is promised of it.
#[verifier::external_body]
fn walk_dir_entries(dir: &str) -> (r: Vec<(String, String)>) {
    let mut out: Vec<(String, String)> = Vec::new();
    for entry in walkdir::WalkDir::new(dir).follow_links(true) {
        if let Ok(e) = entry {
            if let Some(name) = e.file_name().to_str() {
                out.push((String::from(name), e.path().to_string_lossy().into_owned()));
            }
        }
    }
    out
}

/// Scans one search-path directory: every readable entry of its tree, name
/// mapped to path, a later entry overwriting an earlier one of the same name.
fn find_bins_in_path(dir: &str) -> StrMap {
    StrMap::from_pairs(walk_dir_entries(dir))
}

/// The environment snapshot and the executable index built from it: both
/// captured once at construction and immutable afterwards.
#[derive(Debug)]
pub struct Local {
    env: StrMap,
    bins: StrMap,
}

impl Local {
    /// The captured environment, name to value.
    pub closed spec fn spec_env(&self) -> Map<Seq<char>, Seq<char>> {
        self.env@
    }

    /// The executable index, name to location.
    pub closed spec fn spec_bins(&self) -> Map<Seq<char>, Seq<char>> {
        self.bins@
    }

    /// Captures the given environment pairs and scans every directory that
    /// the snapshot's search-path variable lists, in order. Returns nothing
    /// exactly when the snapshot holds no search-path variable. What the
    /// index holds depends on what is on disk; the scanning and merging obey
    /// the contracts of `split_on_colon`, `build_index` and `merge_maps`.
    pub fn new(env_pairs: Vec<(String, String)>) -> (r: Option<Local>)
        ensures
            match r {
                Some(l) => l.spec_env() == map_of(env_pairs.deep_view()) && l.spec_env().contains_key(
                    "PATH"@,
                ),
                None => !map_of(env_pairs.deep_view()).contains_key("PATH"@),
            },
    {
        let env = StrMap::from_pairs(env_pairs);
        match env.get("PATH") {
            None => None,
            Some(path_value) => {
                let dirs = split_on_colon(path_value.as_str());
                let mut bins = StrMap::new();
                let mut i: usize = 0;
                while i < dirs.len()
                    decreases dirs.len() - i,
                {
                    let more = find_bins_in_path(dirs[i].as_str());
                    merge_maps(&mut bins, more);
                    i = i + 1;
                }
                Some(Local { env, bins })
            },
        }
    }

    /// Assembles an index from an already captured snapshot and an already
    /// built mapping.
    pub fn from_parts(env: StrMap, bins: StrMap) -> (r: Local)
        ensures
            r.spec_env() == env@,
            r.spec_bins() == bins@,
    {
        Local { env, bins }
    }

    /// Looks an executable name up: a fresh invocable at the indexed
    /// location, or nothing if the name is absent — never a fabricated
    /// location. Pure read, no side effects.
    pub fn bin(&self, name: &str) -> (r: Option<Bin>)
        ensures
            match r {
                Some(b) => self.spec_bins().contains_key(name@) && b.spec_name() == name@
                    && b.spec_path() == self.spec_bins()[name@] && b.spec_args()
                    == Seq::<Seq<char>>::empty(),
                None => !self.spec_bins().contains_key(name@),
            },
    {
        match self.bins.get(name) {
            Some(p) => Some(Bin::new(name, p.as_str())),
            None => None,
        }
    }

    /// Looks an executable name up, surfacing an absent name as a lookup
    /// failure that carries the name.
    pub fn resolve(&self, name: &str) -> (r: Result<Bin, ExecError>)
        ensures
            match r {
                Ok(b) => self.spec_bins().contains_key(name@) && b.spec_name() == name@
                    && b.spec_path() == self.spec_bins()[name@] && b.spec_args()
                    == Seq::<Seq<char>>::empty(),
                Err(e) => !self.spec_bins().contains_key(name@) && (e matches ExecError::Lookup {
                    name: n,
                } && n@ == name@),
            },
    {
        match self.bin(name) {
            Some(b) => Ok(b),
            None => Err(ExecError::Lookup { name: name.to_owned() }),
        }
    }

    /// Reads one captured environment variable. Pure read of the snapshot;
    /// the live environment is never consulted again.
    pub fn env_var(&self, name: &str) -> (r: Option<String>)
        ensures
            match r {
                Some(v) => self.spec_env().contains_key(name@) && v@ == self.spec_env()[name@],
                None => !self.spec_env().contains_key(name@),
            },
    {
        self.env.get(name)
    }

    /// The executable index as a mapping value.
    pub fn bins_map(&self) -> (r: &StrMap)
        ensures
            r@ == self.spec_bins(),
    {
        &self.bins
    }
}

} // verus!
