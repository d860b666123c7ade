//! A read-only mirror of the latest scan.
//!
//! A scan runs behind a lock that it holds for as long as it takes. The
//! snapshot is swapped in afterwards, so that readers never wait for a scan.
//! Its indexes are built once, when it is installed.
use vstd::prelude::*;
use crate::map::TextMap;
use crate::plugin::source::answers::{SourcePluginInfo, SourcePluginInfoView};
use crate::text::views;
use crate::wallpaper_type::{WallpaperEntry, WallpaperEntryView};

verus! {

/// The places of the wallpapers of one type among the first `n`.
pub open spec fn type_places(entries: Seq<WallpaperEntryView>, wp_type: Seq<char>, n: int) -> Seq<
    int,
>
    decreases n,
{
    if n <= 0 {
        Seq::empty()
    } else if entries[n - 1].wp_type == wp_type {
        type_places(entries, wp_type, n - 1).push(n - 1)
    } else {
        type_places(entries, wp_type, n - 1)
    }
}

/// The place of the last wallpaper with the id among the first `n`.
pub open spec fn last_with_id(
    entries: Seq<WallpaperEntryView>,
    id: Seq<char>,
    n: int,
) -> Option<int>
    decreases n,
{
    if n <= 0 {
        None
    } else if entries[n - 1].id == id {
        Some(n - 1)
    } else {
        last_with_id(entries, id, n - 1)
    }
}

/// The wallpapers of one type, in their order.
pub open spec fn of_type(entries: Seq<WallpaperEntryView>, wp_type: Seq<char>) -> Seq<
    WallpaperEntryView,
> {
    entries.filter(|entry: WallpaperEntryView| entry.wp_type == wp_type)
}

proof fn lemma_type_places(entries: Seq<WallpaperEntryView>, wp_type: Seq<char>, n: int)
    requires
        0 <= n <= entries.len(),
    ensures
        type_places(entries, wp_type, n).len() <= n,
        forall|k: int|
            0 <= k < type_places(entries, wp_type, n).len() ==> 0 <= #[trigger] type_places(
                entries,
                wp_type,
                n,
            )[k] < n,
        type_places(entries, wp_type, n).map_values(|i: int| entries[i]) == of_type(
            entries.take(n),
            wp_type,
        ),
    decreases n,
{
    reveal(Seq::filter);
    let at = |i: int| entries[i];
    let wanted = |entry: WallpaperEntryView| entry.wp_type == wp_type;
    if n > 0 {
        lemma_type_places(entries, wp_type, n - 1);
        assert(entries.take(n).drop_last() =~= entries.take(n - 1));
        assert(entries.take(n).last() == entries[n - 1]);
        let before = type_places(entries, wp_type, n - 1);
        let after = type_places(entries, wp_type, n);
        if entries[n - 1].wp_type == wp_type {
            assert(after.map_values(at) =~= before.map_values(at).push(entries[n - 1]));
        }
    } else {
        assert(entries.take(0) =~= Seq::<WallpaperEntryView>::empty());
        assert(type_places(entries, wp_type, n).map_values(at) =~= of_type(
            entries.take(n),
            wp_type,
        ));
    }
}

proof fn lemma_last_with_id(entries: Seq<WallpaperEntryView>, id: Seq<char>, n: int)
    requires
        0 <= n <= entries.len(),
    ensures
        match last_with_id(entries, id, n) {
            Some(i) => 0 <= i < n && entries[i].id == id && forall|j: int|
                i < j < n ==> (#[trigger] entries[j]).id != id,
            None => forall|j: int| 0 <= j < n ==> (#[trigger] entries[j]).id != id,
        },
    decreases n,
{
    if n > 0 {
        lemma_last_with_id(entries, id, n - 1);
    }
}

pub open spec fn places(list: Seq<usize>) -> Seq<int> {
    list.map_values(|i: usize| i as int)
}

/// The index by type holds the places of one type among the first `n`.
pub open spec fn indexes_type(
    by_type: Map<Seq<char>, Vec<usize>>,
    entries: Seq<WallpaperEntryView>,
    n: int,
    wp_type: Seq<char>,
) -> bool {
    if by_type.contains_key(wp_type) {
        places(by_type[wp_type]@) == type_places(entries, wp_type, n)
    } else {
        type_places(entries, wp_type, n).len() == 0
    }
}

pub open spec fn indexes_types(
    by_type: Map<Seq<char>, Vec<usize>>,
    entries: Seq<WallpaperEntryView>,
    n: int,
) -> bool {
    forall|wp_type: Seq<char>| #[trigger] indexes_type(by_type, entries, n, wp_type)
}

/// The index by id holds the last place of an id among the first `n`.
pub open spec fn indexes_id(
    by_id: Map<Seq<char>, usize>,
    entries: Seq<WallpaperEntryView>,
    n: int,
    id: Seq<char>,
) -> bool {
    if by_id.contains_key(id) {
        last_with_id(entries, id, n) == Some(by_id[id] as int)
    } else {
        last_with_id(entries, id, n) is None
    }
}

pub open spec fn indexes_ids(
    by_id: Map<Seq<char>, usize>,
    entries: Seq<WallpaperEntryView>,
    n: int,
) -> bool {
    forall|id: Seq<char>| #[trigger] indexes_id(by_id, entries, n, id)
}

#[derive(Debug)]
pub struct SourceSnapshot {
    entries: Vec<WallpaperEntry>,
    by_type: TextMap<Vec<usize>>,
    by_id: TextMap<usize>,
    plugins: Vec<SourcePluginInfo>,
}

pub struct SnapshotView {
    pub entries: Seq<WallpaperEntryView>,
    pub plugins: Seq<SourcePluginInfoView>,
}

impl View for SourceSnapshot {
    type V = SnapshotView;

    closed spec fn view(&self) -> SnapshotView {
        SnapshotView { entries: views(self.entries@), plugins: views(self.plugins@) }
    }
}

impl Default for SourceSnapshot {
    fn default() -> (snapshot: Self)
        ensures
            snapshot.wf(),
            snapshot@.entries == Seq::<WallpaperEntryView>::empty(),
            snapshot@.plugins == Seq::<SourcePluginInfoView>::empty(),
    {
        let snapshot = SourceSnapshot {
            entries: Vec::new(),
            by_type: TextMap::new(),
            by_id: TextMap::new(),
            plugins: Vec::new(),
        };
        proof {
            assert(snapshot@.entries =~= Seq::<WallpaperEntryView>::empty());
            assert(snapshot@.plugins =~= Seq::<SourcePluginInfoView>::empty());
        }
        snapshot
    }
}

impl SourceSnapshot {
    /// The indexes agree with the wallpapers.
    pub closed spec fn wf(self) -> bool {
        &&& self.by_type.wf()
        &&& self.by_id.wf()
        &&& indexes_types(self.by_type@, views(self.entries@), self.entries@.len() as int)
        &&& indexes_ids(self.by_id@, views(self.entries@), self.entries@.len() as int)
    }

    /// Replaces the snapshot with a fresh scan.
    pub fn install(&mut self, entries: Vec<WallpaperEntry>, plugins: Vec<SourcePluginInfo>)
        ensures
            final(self).wf(),
            final(self)@ == (SnapshotView {
                entries: views(entries@),
                plugins: views(plugins@),
            }),
    {
        let ghost all = views(entries@);
        let mut by_type: TextMap<Vec<usize>> = TextMap::new();
        let mut by_id: TextMap<usize> = TextMap::new();
        let mut i: usize = 0;
        while i < entries.len()
            invariant
                i <= entries@.len(),
                all == views(entries@),
                by_type.wf(),
                by_id.wf(),
                indexes_types(by_type@, all, i as int),
                indexes_ids(by_id@, all, i as int),
            decreases entries@.len() - i,
        {
            let entry = &entries[i];
            let ghost types = by_type@;
            let ghost ids = by_id@;
            assert(all[i as int] == entry@);
            let mut list = match by_type.remove(entry.wp_type.as_str()) {
                Some(list) => list,
                None => Vec::new(),
            };
            let ghost known = list@;
            proof {
                let t = entry@.wp_type;
                assert(indexes_type(types, all, i as int, t));
                if types.contains_key(t) {
                    assert(places(types[t]@) == type_places(all, t, i as int));
                } else {
                    assert(places(known) =~= type_places(all, t, i as int));
                }
            }
            list.push(i);
            assert(places(list@) =~= places(known).push(i as int));
            by_type.insert(entry.wp_type.clone(), list);
            by_id.insert(entry.id.clone(), i);
            proof {
                assert forall|t: Seq<char>| #[trigger]
                    indexes_type(by_type@, all, i + 1, t) by {
                    assert(indexes_type(types, all, i as int, t));
                }
                assert forall|id: Seq<char>| #[trigger] indexes_id(by_id@, all, i + 1, id) by {
                    assert(indexes_id(ids, all, i as int, id));
                }
            }
            i = i + 1;
        }
        self.entries = entries;
        self.by_type = by_type;
        self.by_id = by_id;
        self.plugins = plugins;
    }

    pub fn list(&self) -> (r: &Vec<WallpaperEntry>)
        ensures
            views(r@) == self@.entries,
    {
        &self.entries
    }

    pub fn list_by_type(&self, wp_type: &str) -> (r: Vec<&WallpaperEntry>)
        requires
            self.wf(),
        ensures
            views(r@) == of_type(self@.entries, wp_type@),
    {
        let ghost all = views(self.entries@);
        let mut out: Vec<&WallpaperEntry> = Vec::new();
        proof {
            lemma_type_places(all, wp_type@, all.len() as int);
            assert(all.take(all.len() as int) =~= all);
        }
        match self.by_type.get(wp_type) {
            Some(list) => {
                let ghost at = |i: int| all[i];
                assert(indexes_type(self.by_type@, all, all.len() as int, wp_type@));
                let mut k: usize = 0;
                assert(views(out@) =~= places(list@).take(0).map_values(at));
                while k < list.len()
                    invariant
                        k <= list@.len(),
                        all == views(self.entries@),
                        at == (|i: int| all[i]),
                        forall|k: int|
                            0 <= k < list@.len() ==> 0 <= #[trigger] places(list@)[k] < all.len(),
                        views(out@) == places(list@).take(k as int).map_values(at),
                    decreases list@.len() - k,
                {
                    assert(places(list@)[k as int] == list@[k as int] as int);
                    let ghost before = views(out@);
                    let entry = &self.entries[list[k]];
                    proof {
                        assert(all[list@[k as int] as int] == entry@);
                        assert(places(list@).take(k + 1) =~= places(list@).take(k as int).push(
                            list@[k as int] as int,
                        ));
                        assert(places(list@).take(k + 1).map_values(at) =~= before.push(entry@));
                    }
                    out.push(entry);
                    k = k + 1;
                    assert(views(out@) =~= before.push(entry@));
                }
                assert(places(list@).take(k as int) =~= places(list@));
            },
            None => {
                proof {
                    assert(indexes_type(self.by_type@, all, all.len() as int, wp_type@));
                    assert(views(out@) =~= of_type(all, wp_type@));
                }
            },
        }
        out
    }

    /// The wallpaper with the id; the last one where several have it.
    pub fn get(&self, id: &str) -> (r: Option<&WallpaperEntry>)
        requires
            self.wf(),
        ensures
            match r {
                Some(entry) => exists|i: int|
                    0 <= i < self@.entries.len() && #[trigger] self@.entries[i] == entry@
                        && self@.entries[i].id == id@ && forall|j: int|
                        i < j < self@.entries.len() ==> (#[trigger] self@.entries[j]).id != id@,
                None => forall|j: int|
                    0 <= j < self@.entries.len() ==> (#[trigger] self@.entries[j]).id != id@,
            },
    {
        let ghost all = views(self.entries@);
        proof {
            lemma_last_with_id(all, id@, all.len() as int);
        }
        match self.by_id.get(id) {
            Some(i) => {
                proof {
                    assert(indexes_id(self.by_id@, all, all.len() as int, id@));
                    assert(self@.entries[*i as int] == self.entries@[*i as int]@);
                }
                Some(&self.entries[*i])
            },
            None => {
                proof {
                    assert(indexes_id(self.by_id@, all, all.len() as int, id@));
                }
                None
            },
        }
    }

    pub fn plugins(&self) -> (r: &Vec<SourcePluginInfo>)
        ensures
            views(r@) == self@.plugins,
    {
        &self.plugins
    }

    pub fn len(&self) -> (n: usize)
        ensures
            n == self@.entries.len(),
    {
        self.entries.len()
    }
}

/// The wallpapers of a type are those whose type it is, in their order.
pub proof fn law_wallpapers_of_a_type(
    entries: Seq<WallpaperEntryView>,
    more: Seq<WallpaperEntryView>,
    wp_type: Seq<char>,
)
    ensures
        of_type(entries + more, wp_type) == of_type(entries, wp_type) + of_type(more, wp_type),
        forall|entry: WallpaperEntryView|
            #![trigger of_type(seq![entry], wp_type)]
            entry.wp_type == wp_type ==> of_type(seq![entry], wp_type) == seq![entry],
        forall|entry: WallpaperEntryView|
            #![trigger of_type(seq![entry], wp_type)]
            entry.wp_type != wp_type ==> of_type(seq![entry], wp_type).len() == 0,
    decreases more.len(),
{
    let keep = |entry: WallpaperEntryView| entry.wp_type == wp_type;
    reveal(Seq::filter);
    if more.len() == 0 {
        assert(entries + more =~= entries);
        assert(of_type(entries, wp_type) + of_type(more, wp_type) =~= of_type(entries, wp_type));
    } else {
        law_wallpapers_of_a_type(entries, more.drop_last(), wp_type);
        assert((entries + more).drop_last() =~= entries + more.drop_last());
        assert(of_type(entries + more, wp_type) =~= of_type(entries, wp_type) + of_type(
            more,
            wp_type,
        ));
    }
    assert forall|entry: WallpaperEntryView| #![trigger of_type(seq![entry], wp_type)] true implies {
        &&& entry.wp_type == wp_type ==> of_type(seq![entry], wp_type) == seq![entry]
        &&& entry.wp_type != wp_type ==> of_type(seq![entry], wp_type).len() == 0
    } by {
        assert(seq![entry].drop_last() =~= Seq::<WallpaperEntryView>::empty());
        assert(Seq::<WallpaperEntryView>::empty().filter(keep).len() == 0);
        if entry.wp_type == wp_type {
            assert(seq![entry].filter(keep) =~= seq![entry]);
        }
    }
}

} // verus!
