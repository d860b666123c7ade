//! The wallpapers that the last scan of all plugins has found.
use vstd::prelude::*;
use crate::error;
use crate::error::{Error, Fault};
use crate::plugin::source::runtime;
use crate::plugin::source::runtime::{entries_of_type, find_entry};
use crate::text;
use crate::text::{copy_list, join_texts, lemma_views_push, order, views, Order};
use crate::wallpaper::types::{WallpaperEntry, WallpaperEntryView};

verus! {

// ---------------------------------------------------------------------------
// The order of the catalog

/// Wallpapers are ordered by their plugin and, within it, by their resource.
pub open spec fn entry_order(a: WallpaperEntryView, b: WallpaperEntryView) -> Order {
    match text::text_order(a.plugin_name, b.plugin_name) {
        Order::Equal => text::text_order(a.resource, b.resource),
        other => other,
    }
}

/// No wallpaper comes after one that it should come before.
pub open spec fn in_order(entries: Seq<WallpaperEntryView>) -> bool {
    forall|i: int, j: int|
        0 <= i < j < entries.len() ==> !(entry_order(
            #[trigger] entries[i],
            #[trigger] entries[j],
        ) is Greater)
}

/// The wallpapers with one more behind all that do not come after it.
pub open spec fn with_entry(entries: Seq<WallpaperEntryView>, entry: WallpaperEntryView) -> Seq<
    WallpaperEntryView,
>
    decreases entries.len(),
{
    if entries.len() > 0 && entry_order(entries.last(), entry) is Greater {
        with_entry(entries.drop_last(), entry).push(entries.last())
    } else {
        entries.push(entry)
    }
}

/// The wallpapers in order; those of the same order keep the one they came in.
pub open spec fn sorted(entries: Seq<WallpaperEntryView>) -> Seq<WallpaperEntryView>
    decreases entries.len(),
{
    if entries.len() == 0 {
        Seq::empty()
    } else {
        with_entry(sorted(entries.drop_last()), entries.last())
    }
}

proof fn lemma_order_carries(a: WallpaperEntryView, b: WallpaperEntryView, c: WallpaperEntryView)
    requires
        !(entry_order(a, b) is Greater),
        !(entry_order(b, c) is Greater),
    ensures
        !(entry_order(a, c) is Greater),
{
    text::law_text_order_transitive(a.plugin_name, b.plugin_name, c.plugin_name);
    text::law_text_order_equal(a.plugin_name, b.plugin_name);
    text::law_text_order_equal(b.plugin_name, c.plugin_name);
    text::law_text_order_equal(a.plugin_name, c.plugin_name);
    if a.plugin_name == b.plugin_name && b.plugin_name == c.plugin_name {
        text::law_text_order_transitive(a.resource, b.resource, c.resource);
    }
}

proof fn lemma_with_entry(entries: Seq<WallpaperEntryView>, entry: WallpaperEntryView)
    requires
        in_order(entries),
    ensures
        in_order(with_entry(entries, entry)),
        with_entry(entries, entry).to_multiset() == entries.to_multiset().insert(entry),
        with_entry(entries, entry).len() == entries.len() + 1,
        forall|i: int|
            0 <= i < with_entry(entries, entry).len() ==> (#[trigger] with_entry(entries, entry)[i]
                == entry || entries.contains(with_entry(entries, entry)[i])),
    decreases entries.len(),
{
    broadcast use vstd::seq_lib::group_to_multiset_ensures;
    let out = with_entry(entries, entry);
    if entries.len() > 0 && entry_order(entries.last(), entry) is Greater {
        let last = entries.last();
        let front = entries.drop_last();
        assert(in_order(front));
        lemma_with_entry(front, entry);
        let inner = with_entry(front, entry);
        assert(entries =~= front.push(last));
        assert(out == inner.push(last));
        text::law_text_order_reverses(last.plugin_name, entry.plugin_name);
        text::law_text_order_reverses(last.resource, entry.resource);
        assert(!(entry_order(entry, last) is Greater));
        assert forall|i: int, j: int| 0 <= i < j < out.len() implies !(entry_order(
            #[trigger] out[i],
            #[trigger] out[j],
        ) is Greater) by {
            if j == out.len() - 1 {
                if inner[i] != entry {
                    let k = choose|k: int| 0 <= k < front.len() && front[k] == inner[i];
                    assert(entries[k] == inner[i]);
                    assert(entries[entries.len() - 1] == last);
                }
            } else {
                assert(out[i] == inner[i] && out[j] == inner[j]);
            }
        }
        assert forall|i: int| 0 <= i < out.len() implies (#[trigger] out[i] == entry
            || entries.contains(out[i])) by {
            if i < inner.len() {
                if inner[i] != entry {
                    let k = choose|k: int| 0 <= k < front.len() && front[k] == inner[i];
                    assert(entries[k] == inner[i]);
                }
            } else {
                assert(entries[entries.len() - 1] == last);
            }
        }
        assert(out.to_multiset() =~= entries.to_multiset().insert(entry));
    } else {
        assert forall|i: int, j: int| 0 <= i < j < out.len() implies !(entry_order(
            #[trigger] out[i],
            #[trigger] out[j],
        ) is Greater) by {
            if j == out.len() - 1 {
                assert(out[i] == entries[i]);
                if i < entries.len() - 1 {
                    assert(!(entry_order(entries[i], entries[entries.len() - 1]) is Greater));
                    lemma_order_carries(entries[i], entries.last(), entry);
                }
            } else {
                assert(out[i] == entries[i] && out[j] == entries[j]);
            }
        }
        assert forall|i: int| 0 <= i < out.len() implies (#[trigger] out[i] == entry
            || entries.contains(out[i])) by {
            if i < entries.len() {
                assert(entries[i] == out[i]);
            }
        }
    }
}

/// The catalog holds the wallpapers that were found, in order.
pub proof fn law_sorted(entries: Seq<WallpaperEntryView>)
    ensures
        in_order(sorted(entries)),
        sorted(entries).to_multiset() == entries.to_multiset(),
        sorted(entries).len() == entries.len(),
    decreases entries.len(),
{
    broadcast use vstd::seq_lib::group_to_multiset_ensures;
    if entries.len() > 0 {
        let front = entries.drop_last();
        law_sorted(front);
        lemma_with_entry(sorted(front), entries.last());
        assert(entries =~= front.push(entries.last()));
    } else {
        assert(sorted(entries) =~= entries);
    }
}

fn comes_after(a: &WallpaperEntry, b: &WallpaperEntry) -> (r: bool)
    ensures
        r == (entry_order(a@, b@) is Greater),
{
    let relation = match order(a.plugin_name.as_str(), b.plugin_name.as_str()) {
        Order::Equal => order(a.resource.as_str(), b.resource.as_str()),
        other => other,
    };
    match relation {
        Order::Greater => true,
        _ => false,
    }
}

/// Puts a wallpaper in its place.
fn insert_entry(entries: &mut Vec<WallpaperEntry>, entry: WallpaperEntry)
    ensures
        views(final(entries)@) == with_entry(views(old(entries)@), entry@),
{
    let ghost all = views(entries@);
    let mut i: usize = entries.len();
    proof {
        assert(all.take(i as int) =~= all);
        assert(with_entry(all, entry@) =~= with_entry(all.take(i as int), entry@) + all.skip(
            i as int,
        ));
    }
    while i > 0 && comes_after(&entries[i - 1], &entry)
        invariant
            i <= entries@.len(),
            all == views(entries@),
            with_entry(all, entry@) == with_entry(all.take(i as int), entry@) + all.skip(i as int),
        decreases i,
    {
        proof {
            let head = all.take(i as int);
            assert(head.last() == entries@[i - 1]@);
            assert(head.drop_last() =~= all.take(i - 1));
            assert(with_entry(head, entry@) == with_entry(head.drop_last(), entry@).push(
                head.last(),
            ));
            assert(with_entry(all.take(i - 1), entry@).push(head.last()) + all.skip(i as int)
                =~= with_entry(all.take(i - 1), entry@) + all.skip(i - 1));
        }
        i = i - 1;
    }
    proof {
        let head = all.take(i as int);
        if i > 0 {
            assert(head.last() == entries@[i - 1]@);
        }
        assert(with_entry(head, entry@) == head.push(entry@));
        assert(all.insert(i as int, entry@) =~= head.push(entry@) + all.skip(i as int));
    }
    let ghost before = entries@;
    entries.insert(i, entry);
    assert(views(entries@) =~= all.insert(i as int, entry@)) by {
        assert(entries@ == before.insert(i as int, entry));
    }
}

// ---------------------------------------------------------------------------
// The catalog

#[derive(Debug)]
pub struct SourceCatalog {
    pub entries: Vec<WallpaperEntry>,
}

impl View for SourceCatalog {
    type V = Seq<WallpaperEntryView>;

    open spec fn view(&self) -> Seq<WallpaperEntryView> {
        views(self.entries@)
    }
}

impl Default for SourceCatalog {
    fn default() -> (catalog: Self)
        ensures
            catalog@ == Seq::<WallpaperEntryView>::empty(),
    {
        let catalog = SourceCatalog { entries: Vec::new() };
        assert(catalog@ =~= Seq::<WallpaperEntryView>::empty());
        catalog
    }
}

impl SourceCatalog {
    pub fn replace(&mut self, entries: Vec<WallpaperEntry>)
        ensures
            final(self)@ == views(entries@),
    {
        self.entries = entries;
    }

    pub fn clear(&mut self)
        ensures
            final(self)@ == Seq::<WallpaperEntryView>::empty(),
    {
        self.entries.clear();
        assert(self@ =~= Seq::<WallpaperEntryView>::empty());
    }

    /// A copy of the wallpapers.
    pub fn list(&self) -> (r: Vec<WallpaperEntry>)
        ensures
            views(r@) == self@,
    {
        copy_list(&self.entries)
    }

    pub fn list_by_type(&self, wp_type: &str) -> (r: Vec<WallpaperEntry>)
        ensures
            views(r@) == runtime::of_type(self@, wp_type@),
    {
        let found = entries_of_type(&self.entries, wp_type);
        let mut out: Vec<WallpaperEntry> = Vec::new();
        let mut i: usize = 0;
        assert(views(out@) =~= views(found@).take(0));
        while i < found.len()
            invariant
                i <= found@.len(),
                views(out@) == views(found@).take(i as int),
            decreases found@.len() - i,
        {
            let entry = found[i].clone();
            proof {
                lemma_views_push(out@, entry);
                assert(views(found@)[i as int] == entry@);
            }
            out.push(entry);
            i = i + 1;
            assert(views(out@) =~= views(found@).take(i as int));
        }
        assert(views(found@).take(i as int) =~= views(found@));
        out
    }

    pub fn get(&self, id: &str) -> (r: Option<WallpaperEntry>)
        ensures
            match r {
                Some(entry) => exists|i: int|
                    #[trigger] runtime::is_first_with_id(self@, id@, i) && entry@ == self@[i],
                None => forall|i: int|
                    0 <= i < self@.len() ==> text::decimal((#[trigger] self@[i]).item_id as int)
                        != id@,
            },
    {
        match find_entry(&self.entries, id) {
            Some(entry) => {
                let copy = entry.clone();
                proof {
                    let i = choose|i: int|
                        #[trigger] runtime::is_first_with_id(views(self.entries@), id@, i)
                            && entry@ == self.entries@[i]@;
                    assert(runtime::is_first_with_id(self@, id@, i) && copy@ == self@[i]);
                }
                Some(copy)
            },
            None => {
                proof {
                    assert forall|i: int| 0 <= i < self@.len() implies text::decimal(
                        (#[trigger] self@[i]).item_id as int,
                    ) != id@ by {
                        assert(self@[i] == self.entries@[i]@);
                        assert(text::decimal(self.entries@[i].item_id as int) != id@);
                    }
                }
                None
            },
        }
    }
}

// ---------------------------------------------------------------------------
// Scans of all plugins

/// What a scan of one plugin came to.
#[derive(Debug)]
pub enum ScanOutcome {
    Found(Vec<WallpaperEntry>),
    Failed(String),
}

/// What the first `n` scans have found.
pub open spec fn found_by(outcomes: Seq<ScanOutcome>, n: int) -> Seq<WallpaperEntryView>
    decreases n,
{
    if n <= 0 {
        Seq::empty()
    } else {
        match outcomes[n - 1] {
            ScanOutcome::Found(entries) => found_by(outcomes, n - 1) + views(entries@),
            ScanOutcome::Failed(_) => found_by(outcomes, n - 1),
        }
    }
}

/// The messages of those of the first `n` scans that failed.
pub open spec fn failures_of(outcomes: Seq<ScanOutcome>, n: int) -> Seq<Seq<char>>
    decreases n,
{
    if n <= 0 {
        Seq::empty()
    } else {
        match outcomes[n - 1] {
            ScanOutcome::Found(_) => failures_of(outcomes, n - 1),
            ScanOutcome::Failed(message) => failures_of(outcomes, n - 1).push(message@),
        }
    }
}

pub open spec fn scan_all_fault(outcomes: Seq<ScanOutcome>) -> Option<Fault> {
    let failures = failures_of(outcomes, outcomes.len() as int);
    if failures.len() == 0 {
        None
    } else {
        Some(Fault::Internal("source scan failed: "@ + text::join(failures, "; "@)))
    }
}

impl SourceCatalog {
    /// Replaces the catalog with what the healthy plugins have found, in order.
    /// That some plugins failed is told afterwards.
    pub fn scan_all(&mut self, outcomes: &Vec<ScanOutcome>) -> (r: Result<(), Error>)
        ensures
            final(self)@ == sorted(found_by(outcomes@, outcomes@.len() as int)),
            error::outcome_check(r, scan_all_fault(outcomes@)),
    {
        let mut entries: Vec<WallpaperEntry> = Vec::new();
        let mut failures: Vec<String> = Vec::new();
        let mut i: usize = 0;
        proof {
            assert(views(entries@) =~= Seq::<WallpaperEntryView>::empty());
            assert(views(failures@) =~= Seq::<Seq<char>>::empty());
        }
        while i < outcomes.len()
            invariant
                i <= outcomes@.len(),
                views(entries@) == sorted(found_by(outcomes@, i as int)),
                views(failures@) == failures_of(outcomes@, i as int),
            decreases outcomes@.len() - i,
        {
            match &outcomes[i] {
                ScanOutcome::Found(found) => {
                    let ghost before = found_by(outcomes@, i as int);
                    let mut j: usize = 0;
                    assert(before + views(found@).take(0) =~= before);
                    while j < found.len()
                        invariant
                            j <= found@.len(),
                            views(entries@) == sorted(before + views(found@).take(j as int)),
                        decreases found@.len() - j,
                    {
                        let ghost now = before + views(found@).take(j as int);
                        let ghost next = before + views(found@).take(j + 1);
                        proof {
                            assert(views(found@)[j as int] == found@[j as int]@);
                            assert(next.drop_last() =~= now);
                            assert(next.last() == found@[j as int]@);
                        }
                        insert_entry(&mut entries, found[j].clone());
                        j = j + 1;
                    }
                    assert(views(found@).take(j as int) =~= views(found@));
                },
                ScanOutcome::Failed(message) => {
                    let message = message.clone();
                    proof {
                        lemma_views_push(failures@, message);
                    }
                    failures.push(message);
                },
            }
            i = i + 1;
        }
        self.replace(entries);
        if failures.len() == 0 {
            Ok(())
        } else {
            let mut message = "source scan failed: ".to_owned();
            let all = join_texts(&failures, "; ");
            message.append(all.as_str());
            Err(Error::Internal(message))
        }
    }
}

// ---------------------------------------------------------------------------
// Laws

proof fn lemma_found_by(outcomes: Seq<ScanOutcome>, n: int, k: int, j: int)
    requires
        0 <= k < n <= outcomes.len(),
        outcomes[k] is Found,
        0 <= j < outcomes[k]->Found_0@.len(),
    ensures
        found_by(outcomes, n).contains(outcomes[k]->Found_0@[j]@),
    decreases n,
{
    let wanted = outcomes[k]->Found_0@[j]@;
    let before = found_by(outcomes, n - 1);
    if k == n - 1 {
        let own = views(outcomes[k]->Found_0@);
        assert(own[j] == wanted);
        assert((before + own)[before.len() + j] == wanted);
    } else {
        lemma_found_by(outcomes, n - 1, k, j);
        let i = choose|i: int| 0 <= i < before.len() && before[i] == wanted;
        assert(found_by(outcomes, n)[i] == wanted);
    }
}

/// Whatever a plugin has found is in the catalog, though the scans of other
/// plugins failed.
pub proof fn law_failures_hide_nothing(outcomes: Seq<ScanOutcome>, k: int, j: int)
    requires
        0 <= k < outcomes.len(),
        outcomes[k] is Found,
        0 <= j < outcomes[k]->Found_0@.len(),
    ensures
        sorted(found_by(outcomes, outcomes.len() as int)).contains(outcomes[k]->Found_0@[j]@),
{
    broadcast use vstd::seq_lib::group_to_multiset_ensures;

    let all = found_by(outcomes, outcomes.len() as int);
    lemma_found_by(outcomes, outcomes.len() as int, k, j);
    law_sorted(all);
    assert(all.to_multiset().count(outcomes[k]->Found_0@[j]@) > 0);
}

/// A scan that failed is never passed off as one that found nothing.
pub proof fn law_failure_is_told(outcomes: Seq<ScanOutcome>, k: int)
    requires
        0 <= k < outcomes.len(),
        outcomes[k] is Failed,
    ensures
        scan_all_fault(outcomes) is Some,
{
    lemma_failures(outcomes, outcomes.len() as int, k);
}

proof fn lemma_failures(outcomes: Seq<ScanOutcome>, n: int, k: int)
    requires
        0 <= k < n <= outcomes.len(),
        outcomes[k] is Failed,
    ensures
        failures_of(outcomes, n).len() > 0,
    decreases n,
{
    if k < n - 1 {
        lemma_failures(outcomes, n - 1, k);
    }
}

/// The wallpapers of a scan go by the name of their plugin, then by their
/// resource.
pub proof fn law_order_of_the_catalog(entries: Seq<WallpaperEntryView>, i: int, j: int)
    requires
        0 <= i < j < sorted(entries).len(),
    ensures
        !(text::text_order(sorted(entries)[i].plugin_name, sorted(entries)[j].plugin_name)
            is Greater),
        sorted(entries)[i].plugin_name == sorted(entries)[j].plugin_name ==> !(text::text_order(
            sorted(entries)[i].resource,
            sorted(entries)[j].resource,
        ) is Greater),
{
    law_sorted(entries);
    let a = sorted(entries)[i];
    let b = sorted(entries)[j];
    assert(!(entry_order(a, b) is Greater));
    text::law_text_order_equal(a.plugin_name, b.plugin_name);
}

/// Wallpapers of one plugin and one resource stay in the order they were found
/// in.
pub proof fn law_catalog_keeps_order_of_equals(
    entries: Seq<WallpaperEntryView>,
    plugin_name: Seq<char>,
    resource: Seq<char>,
)
    ensures
        ({
            let alike = |e: WallpaperEntryView|
                e.plugin_name == plugin_name && e.resource == resource;
            sorted(entries).filter(alike) == entries.filter(alike)
        }),
    decreases entries.len(),
{
    let alike = |e: WallpaperEntryView| e.plugin_name == plugin_name && e.resource == resource;
    reveal(Seq::filter);
    if entries.len() > 0 {
        law_catalog_keeps_order_of_equals(entries.drop_last(), plugin_name, resource);
        lemma_equals_stay(sorted(entries.drop_last()), entries.last(), plugin_name, resource);
    } else {
        assert(sorted(entries) =~= entries);
    }
}

proof fn lemma_equals_stay(
    entries: Seq<WallpaperEntryView>,
    entry: WallpaperEntryView,
    plugin_name: Seq<char>,
    resource: Seq<char>,
)
    ensures
        ({
            let alike = |e: WallpaperEntryView|
                e.plugin_name == plugin_name && e.resource == resource;
            with_entry(entries, entry).filter(alike) == (if alike(entry) {
                entries.filter(alike).push(entry)
            } else {
                entries.filter(alike)
            })
        }),
    decreases entries.len(),
{
    let alike = |e: WallpaperEntryView| e.plugin_name == plugin_name && e.resource == resource;
    reveal(Seq::filter);
    if entries.len() > 0 && entry_order(entries.last(), entry) is Greater {
        lemma_equals_stay(entries.drop_last(), entry, plugin_name, resource);
        let rest = with_entry(entries.drop_last(), entry);
        assert(rest.push(entries.last()).drop_last() =~= rest);
        if alike(entry) {
            text::law_text_order_equal(entries.last().plugin_name, entry.plugin_name);
            text::law_text_order_equal(entries.last().resource, entry.resource);
            assert(!alike(entries.last()));
        }
    } else {
        assert(entries.push(entry).drop_last() =~= entries);
    }
}

/// What the plugins found is taken up one after another; what failed is told in
/// the same order, in one message.
pub proof fn law_outcomes_of_a_scan(
    outcomes: Seq<ScanOutcome>,
    entries: Vec<WallpaperEntry>,
    message: String,
)
    ensures
        found_by(outcomes.push(ScanOutcome::Found(entries)), outcomes.len() as int + 1) == found_by(
            outcomes,
            outcomes.len() as int,
        ) + views(entries@),
        found_by(outcomes.push(ScanOutcome::Failed(message)), outcomes.len() as int + 1)
            == found_by(
            outcomes,
            outcomes.len() as int,
        ),
        failures_of(outcomes.push(ScanOutcome::Found(entries)), outcomes.len() as int + 1)
            == failures_of(outcomes, outcomes.len() as int),
        failures_of(outcomes.push(ScanOutcome::Failed(message)), outcomes.len() as int + 1)
            == failures_of(outcomes, outcomes.len() as int).push(message@),
        failures_of(outcomes, outcomes.len() as int).len() == 0
            ==> scan_all_fault(outcomes) is None,
        failures_of(outcomes, outcomes.len() as int).len() > 0 ==> scan_all_fault(outcomes) == Some(
            Fault::Internal(
                "source scan failed: "@ + text::join(
                    failures_of(outcomes, outcomes.len() as int),
                    "; "@,
                ),
            ),
        ),
{
    lemma_first_outcomes(
        outcomes,
        outcomes.push(ScanOutcome::Found(entries)),
        outcomes.len() as int,
    );
    lemma_first_outcomes(
        outcomes,
        outcomes.push(ScanOutcome::Failed(message)),
        outcomes.len() as int,
    );
}

proof fn lemma_first_outcomes(a: Seq<ScanOutcome>, b: Seq<ScanOutcome>, n: int)
    requires
        n <= a.len(),
        n <= b.len(),
        forall|i: int| 0 <= i < n ==> #[trigger] a[i] == b[i],
    ensures
        found_by(a, n) == found_by(b, n),
        failures_of(a, n) == failures_of(b, n),
    decreases n,
{
    if n > 0 {
        assert(a[n - 1] == b[n - 1]);
        lemma_first_outcomes(a, b, n - 1);
    }
}

} // verus!
