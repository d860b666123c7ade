//! Which executables can attach the daemon's output to a desktop.
use vstd::prelude::*;
use crate::path;
use crate::path::join_path;
use crate::text::same;

verus! {

/// A display manifest.
#[derive(Debug)]
pub struct DisplayManifest {
    pub display: DisplayDef,
}

/// Who starts a display backend.
#[derive(Clone, Copy, Debug, PartialEq, Eq, Structural)]
pub enum SpawnMode {
    /// The daemon starts `bin` as a subprocess.
    Daemon,
    /// The desktop starts it on its own.
    External,
}

impl Default for SpawnMode {
    fn default() -> (mode: Self)
        ensures
            mode == SpawnMode::Daemon,
    {
        SpawnMode::Daemon
    }
}

#[derive(Debug)]
pub struct DisplayDef {
    pub name: String,
    /// Executable path; read only where the daemon starts the backend.
    pub bin: String,
    /// Desktops that the backend is for; `*` stands for any.
    pub de: Vec<String>,
    pub priority: i32,
    /// Capabilities that the backend needs.
    pub requires: Vec<String>,
    pub extra_args: Vec<String>,
    pub spawn: SpawnMode,
}

pub fn default_priority() -> (priority: i32)
    ensures
        priority == 100,
{
    100
}

/// The entries without those of a name.
pub open spec fn without(defs: Seq<DisplayDef>, name: Seq<char>) -> Seq<DisplayDef>
    decreases defs.len(),
{
    if defs.len() == 0 {
        defs
    } else if defs.last().name@ == name {
        without(defs.drop_last(), name)
    } else {
        without(defs.drop_last(), name).push(defs.last())
    }
}

/// How many entries have at least a priority.
pub open spec fn at_least(defs: Seq<DisplayDef>, priority: int) -> int
    decreases defs.len(),
{
    if defs.len() == 0 {
        0
    } else {
        at_least(defs.drop_last(), priority) + if defs.last().priority >= priority {
            1int
        } else {
            0int
        }
    }
}

/// The entries after one more: it takes the place of its namesake and comes
/// behind the others of its priority.
pub open spec fn with_entry(defs: Seq<DisplayDef>, def: DisplayDef) -> Seq<DisplayDef> {
    let rest = without(defs, def.name@);
    rest.insert(at_least(rest, def.priority as int), def)
}

/// The entries after a list of them, one after the other.
pub open spec fn with_entries(defs: Seq<DisplayDef>, more: Seq<DisplayDef>) -> Seq<DisplayDef>
    decreases more.len(),
{
    if more.len() == 0 {
        defs
    } else {
        with_entry(with_entries(defs, more.drop_last()), more.last())
    }
}

/// The entries after several directories: each is put in order by itself and
/// then entered, so that a later one shadows an earlier one by name.
pub open spec fn with_directories(dirs: Seq<Vec<DisplayDef>>) -> Seq<DisplayDef>
    decreases dirs.len(),
{
    if dirs.len() == 0 {
        Seq::empty()
    } else {
        with_entries(
            with_directories(dirs.drop_last()),
            with_entries(Seq::empty(), dirs.last()@),
        )
    }
}

/// Highest priority first, no name twice.
pub open spec fn in_order(defs: Seq<DisplayDef>) -> bool {
    &&& forall|i: int, j: int|
        0 <= i < j < defs.len() ==> (#[trigger] defs[i]).priority >= (#[trigger] defs[j]).priority
    &&& forall|i: int, j: int|
        0 <= i < j < defs.len() ==> (#[trigger] defs[i]).name@ != (#[trigger] defs[j]).name@
}

proof fn lemma_without_absent(defs: Seq<DisplayDef>, name: Seq<char>)
    requires
        forall|i: int| 0 <= i < defs.len() ==> (#[trigger] defs[i]).name@ != name,
    ensures
        without(defs, name) == defs,
    decreases defs.len(),
{
    if defs.len() > 0 {
        assert(defs[defs.len() - 1].name@ != name);
        lemma_without_absent(defs.drop_last(), name);
        assert(defs.drop_last().push(defs.last()) =~= defs);
    }
}

proof fn lemma_without_found(defs: Seq<DisplayDef>, i: int)
    requires
        in_order(defs),
        0 <= i < defs.len(),
    ensures
        without(defs, defs[i].name@) == defs.remove(i),
    decreases defs.len(),
{
    let name = defs[i].name@;
    if i == defs.len() - 1 {
        assert forall|j: int| 0 <= j < defs.drop_last().len() implies (
        #[trigger] defs.drop_last()[j]).name@ != name by {
            assert(defs[j].name@ != defs[i].name@);
        }
        lemma_without_absent(defs.drop_last(), name);
        assert(defs.drop_last() =~= defs.remove(i));
    } else {
        assert(defs[i].name@ != defs[defs.len() - 1].name@);
        lemma_without_found(defs.drop_last(), i);
        assert(defs.drop_last().remove(i).push(defs.last()) =~= defs.remove(i));
    }
}

proof fn lemma_without_in_order(defs: Seq<DisplayDef>, name: Seq<char>)
    requires
        in_order(defs),
    ensures
        in_order(without(defs, name)),
        forall|i: int|
            0 <= i < without(defs, name).len() ==> (#[trigger] without(defs, name)[i]).name@ != name,
{
    if exists|i: int| 0 <= i < defs.len() && (#[trigger] defs[i]).name@ == name {
        let i = choose|i: int| 0 <= i < defs.len() && (#[trigger] defs[i]).name@ == name;
        lemma_without_found(defs, i);
        let rest = defs.remove(i);
        assert forall|j: int| 0 <= j < rest.len() implies (#[trigger] rest[j]).name@ != name by {
            if j < i {
                assert(rest[j] == defs[j]);
            } else {
                assert(rest[j] == defs[j + 1]);
            }
        }
        assert forall|a: int, b: int| 0 <= a < b < rest.len() implies (#[trigger] rest[a]).priority
            >= (#[trigger] rest[b]).priority && rest[a].name@ != rest[b].name@ by {
            let x = if a < i { a } else { a + 1 };
            let y = if b < i { b } else { b + 1 };
            assert(rest[a] == defs[x] && rest[b] == defs[y]);
        }
    } else {
        lemma_without_absent(defs, name);
    }
}

/// In an ordered list the entries of at least a priority come first.
proof fn lemma_at_least(defs: Seq<DisplayDef>, priority: int, k: int)
    requires
        0 <= k <= defs.len(),
        forall|i: int| 0 <= i < k ==> (#[trigger] defs[i]).priority >= priority,
        forall|i: int| k <= i < defs.len() ==> (#[trigger] defs[i]).priority < priority,
    ensures
        at_least(defs, priority) == k,
    decreases defs.len(),
{
    if defs.len() > 0 {
        assert(defs.last() == defs[defs.len() - 1]);
        if k == defs.len() {
            lemma_at_least(defs.drop_last(), priority, k - 1);
        } else {
            lemma_at_least(defs.drop_last(), priority, k);
        }
    }
}

/// Entering an entry keeps the order, and the entry is found under its name.
pub proof fn law_with_entry_in_order(defs: Seq<DisplayDef>, def: DisplayDef)
    requires
        in_order(defs),
    ensures
        in_order(with_entry(defs, def)),
        with_entry(defs, def).contains(def),
        forall|other: DisplayDef|
            #![trigger with_entry(defs, def).contains(other)]
            other.name@ != def.name@ ==> (with_entry(defs, def).contains(other) <==> defs.contains(
                other,
            )),
{
    let rest = without(defs, def.name@);
    lemma_without_in_order(defs, def.name@);
    let k = lemma_first_below(rest, def.priority as int);
    lemma_at_least(rest, def.priority as int, k);
    let after = rest.insert(k, def);
    assert(after[k] == def);
    assert forall|a: int, b: int| 0 <= a < b < after.len() implies (#[trigger] after[a]).priority
        >= (#[trigger] after[b]).priority && after[a].name@ != after[b].name@ by {
        let x = if a < k { a } else { a - 1 };
        let y = if b < k { b } else { b - 1 };
        if a != k {
            assert(after[a] == rest[x]);
        }
        if b != k {
            assert(after[b] == rest[y]);
        }
    }
    assert forall|other: DisplayDef| other.name@ != def.name@ implies (
    #[trigger] with_entry(defs, def).contains(other) <==> defs.contains(other)) by {
        lemma_without_contains(defs, def.name@, other);
        if rest.contains(other) {
            let j = choose|j: int| 0 <= j < rest.len() && rest[j] == other;
            let at = if j < k { j } else { j + 1 };
            assert(after[at] == other);
        }
        if after.contains(other) {
            let j = choose|j: int| 0 <= j < after.len() && after[j] == other;
            let at = if j < k { j } else { j - 1 };
            assert(j != k);
            assert(rest[at] == other);
        }
    }
}

/// Some entry has the name.
pub open spec fn has_name(defs: Seq<DisplayDef>, name: Seq<char>) -> bool {
    exists|i: int| 0 <= i < defs.len() && (#[trigger] defs[i]).name@ == name
}

/// What is found after a list was entered: what the list names is taken from it,
/// the rest is as before.
pub open spec fn shadows(
    before: Seq<DisplayDef>,
    more: Seq<DisplayDef>,
    after: Seq<DisplayDef>,
) -> bool {
    &&& forall|name: Seq<char>| #[trigger]
        has_name(after, name) <==> has_name(before, name) || has_name(more, name)
    &&& forall|def: DisplayDef| #[trigger]
        after.contains(def) ==> if has_name(more, def.name@) {
            more.contains(def)
        } else {
            before.contains(def)
        }
}

proof fn lemma_has_name(defs: Seq<DisplayDef>, def: DisplayDef)
    requires
        defs.contains(def),
    ensures
        has_name(defs, def.name@),
{
    let i = choose|i: int| 0 <= i < defs.len() && defs[i] == def;
    assert(defs[i].name@ == def.name@);
}

proof fn lemma_one_of_a_name(defs: Seq<DisplayDef>, def: DisplayDef, other: DisplayDef)
    requires
        in_order(defs),
        defs.contains(def),
        defs.contains(other),
        other.name@ == def.name@,
    ensures
        other == def,
{
    let i = choose|i: int| 0 <= i < defs.len() && defs[i] == other;
    let j = choose|j: int| 0 <= j < defs.len() && defs[j] == def;
    if i < j {
        assert(defs[i].name@ != defs[j].name@);
    } else if j < i {
        assert(defs[j].name@ != defs[i].name@);
    }
}

proof fn lemma_with_entry_names(defs: Seq<DisplayDef>, def: DisplayDef, name: Seq<char>)
    requires
        in_order(defs),
    ensures
        has_name(with_entry(defs, def), name) <==> has_name(defs, name) || name == def.name@,
{
    law_with_entry_in_order(defs, def);
    let after = with_entry(defs, def);
    lemma_has_name(after, def);
    if name != def.name@ {
        if has_name(after, name) {
            let i = choose|i: int| 0 <= i < after.len() && (#[trigger] after[i]).name@ == name;
            assert(after.contains(after[i]));
            lemma_has_name(defs, after[i]);
        }
        if has_name(defs, name) {
            let i = choose|i: int| 0 <= i < defs.len() && (#[trigger] defs[i]).name@ == name;
            assert(defs.contains(defs[i]));
            assert(after.contains(defs[i]));
            lemma_has_name(after, defs[i]);
        }
    }
}

/// Entering a list keeps the order, and the list shadows what was there by name.
pub proof fn law_with_entries_in_order(defs: Seq<DisplayDef>, more: Seq<DisplayDef>)
    requires
        in_order(defs),
    ensures
        in_order(with_entries(defs, more)),
        shadows(defs, more, with_entries(defs, more)),
    decreases more.len(),
{
    if more.len() > 0 {
        let rest = more.drop_last();
        let last = more.last();
        let before = with_entries(defs, rest);
        let after = with_entries(defs, more);
        law_with_entries_in_order(defs, rest);
        law_with_entry_in_order(before, last);
        assert(rest.push(last) =~= more);
        assert forall|name: Seq<char>| has_name(more, name) <==> (has_name(rest, name) || name
            == last.name@) by {
            if has_name(rest, name) {
                let i = choose|i: int| 0 <= i < rest.len() && (#[trigger] rest[i]).name@ == name;
                assert(more[i].name@ == name);
            }
            if has_name(more, name) && name != last.name@ {
                let i = choose|i: int| 0 <= i < more.len() && (#[trigger] more[i]).name@ == name;
                assert(rest[i].name@ == name);
            }
            assert(more[more.len() - 1].name@ == last.name@);
        }
        assert forall|name: Seq<char>| #[trigger] has_name(after, name) <==> has_name(defs, name)
            || has_name(more, name) by {
            lemma_with_entry_names(before, last, name);
        }
        assert forall|def: DisplayDef| #[trigger] after.contains(def) implies if has_name(
            more,
            def.name@,
        ) {
            more.contains(def)
        } else {
            defs.contains(def)
        } by {
            if def.name@ == last.name@ {
                lemma_one_of_a_name(after, last, def);
                assert(more[more.len() - 1] == def);
            } else {
                assert(before.contains(def));
                if rest.contains(def) {
                    let i = choose|i: int| 0 <= i < rest.len() && rest[i] == def;
                    assert(more[i] == def);
                }
            }
        }
    } else {
        assert(with_entries(defs, more) == defs);
    }
}

/// The displays of several directories are in order, and the last directory
/// shadows the ones before by name.
pub proof fn law_later_directory_shadows(dirs: Seq<Vec<DisplayDef>>)
    requires
        dirs.len() > 0,
    ensures
        in_order(with_directories(dirs)),
        shadows(with_directories(dirs.drop_last()), dirs.last()@, with_directories(dirs)),
    decreases dirs.len(),
{
    let before = with_directories(dirs.drop_last());
    if dirs.len() > 1 {
        law_later_directory_shadows(dirs.drop_last());
    }
    let own = dirs.last()@;
    let sorted = with_entries(Seq::empty(), own);
    let after = with_directories(dirs);
    law_with_entries_in_order(Seq::empty(), own);
    law_with_entries_in_order(before, sorted);
    assert forall|name: Seq<char>| has_name(sorted, name) == has_name(own, name) by {
        assert(!has_name(Seq::<DisplayDef>::empty(), name));
    }
    assert forall|def: DisplayDef| #[trigger] after.contains(def) implies if has_name(own, def.name@) {
        own.contains(def)
    } else {
        before.contains(def)
    } by {
        if has_name(own, def.name@) {
            assert(has_name(sorted, def.name@));
            assert(sorted.contains(def));
        } else {
            assert(!has_name(sorted, def.name@));
        }
    }
    assert forall|name: Seq<char>| #[trigger] has_name(after, name) <==> has_name(before, name)
        || has_name(own, name) by {
        assert(has_name(sorted, name) == has_name(own, name));
    }
}

proof fn lemma_without_contains(defs: Seq<DisplayDef>, name: Seq<char>, other: DisplayDef)
    requires
        other.name@ != name,
    ensures
        without(defs, name).contains(other) <==> defs.contains(other),
    decreases defs.len(),
{
    if defs.len() > 0 {
        let before = defs.drop_last();
        lemma_without_contains(before, name, other);
        assert(before.push(defs.last()) =~= defs);
        if before.contains(other) {
            let j = choose|j: int| 0 <= j < before.len() && before[j] == other;
            assert(defs[j] == other);
        }
        if defs.contains(other) && !before.contains(other) {
            let j = choose|j: int| 0 <= j < defs.len() && defs[j] == other;
            if j < before.len() {
                assert(before[j] == other);
            }
            assert(defs.last() == other);
        }
        let kept = without(before, name);
        if kept.contains(other) {
            let j = choose|j: int| 0 <= j < kept.len() && kept[j] == other;
            if defs.last().name@ != name {
                assert(kept.push(defs.last())[j] == other);
            }
        }
        if defs.last().name@ != name {
            let all = kept.push(defs.last());
            assert(all[all.len() - 1] == defs.last());
            if all.contains(other) && defs.last() != other {
                let j = choose|j: int| 0 <= j < all.len() && all[j] == other;
                assert(kept[j] == other);
            }
            if defs.last() == other {
                assert(defs[defs.len() - 1] == other);
            }
        }
    }
}

proof fn lemma_first_below(defs: Seq<DisplayDef>, priority: int) -> (k: int)
    requires
        in_order(defs),
    ensures
        0 <= k <= defs.len(),
        forall|i: int| 0 <= i < k ==> (#[trigger] defs[i]).priority >= priority,
        forall|i: int| k <= i < defs.len() ==> (#[trigger] defs[i]).priority < priority,
    decreases defs.len(),
{
    if defs.len() == 0 {
        0
    } else {
        let before = defs.drop_last();
        assert(in_order(before)) by {
            assert forall|a: int, b: int| 0 <= a < b < before.len() implies (
            #[trigger] before[a]).priority >= (#[trigger] before[b]).priority && before[a].name@
                != before[b].name@ by {
                assert(defs[a].priority >= defs[b].priority);
            }
        }
        let k = lemma_first_below(before, priority);
        assert forall|i: int| 0 <= i < k implies (#[trigger] defs[i]).priority >= priority by {
            assert(before[i] == defs[i]);
        }
        if defs.last().priority >= priority {
            if k < before.len() {
                assert(before[k].priority < priority);
                assert(defs[k].priority >= defs[defs.len() - 1].priority);
            }
            defs.len() as int
        } else {
            assert forall|i: int| k <= i < defs.len() implies (#[trigger] defs[i]).priority
                < priority by {
                if i < before.len() {
                    assert(before[i] == defs[i]);
                }
            }
            k
        }
    }
}

/// The known display backends, highest priority first.
pub struct DisplayRegistry {
    defs: Vec<DisplayDef>,
}

impl View for DisplayRegistry {
    type V = Seq<DisplayDef>;

    closed spec fn view(&self) -> Seq<DisplayDef> {
        self.defs@
    }
}

impl DisplayRegistry {
    pub fn new() -> (registry: Self)
        ensures
            registry@ == Seq::<DisplayDef>::empty(),
            in_order(registry@),
    {
        DisplayRegistry { defs: Vec::new() }
    }

    /// Enters a backend in place of the one with the same name.
    pub fn register(&mut self, def: DisplayDef)
        requires
            in_order(old(self)@),
        ensures
            final(self)@ == with_entry(old(self)@, def),
            in_order(final(self)@),
    {
        let ghost before = self.defs@;
        proof {
            law_with_entry_in_order(before, def);
            lemma_without_in_order(before, def.name@);
        }
        let mut i: usize = 0;
        while i < self.defs.len() && !same(self.defs[i].name.as_str(), def.name.as_str())
            invariant
                i <= self.defs.len(),
                self.defs@ == before,
                forall|j: int| 0 <= j < i ==> (#[trigger] before[j]).name@ != def.name@,
            decreases self.defs.len() - i,
        {
            i = i + 1;
        }
        if i < self.defs.len() {
            proof {
                lemma_without_found(before, i as int);
            }
            let _ = self.defs.remove(i);
        } else {
            proof {
                lemma_without_absent(before, def.name@);
            }
        }
        let ghost rest = self.defs@;
        assert(rest == without(before, def.name@));
        let mut k: usize = 0;
        while k < self.defs.len() && self.defs[k].priority >= def.priority
            invariant
                k <= self.defs.len(),
                self.defs@ == rest,
                in_order(rest),
                forall|j: int| 0 <= j < k ==> (#[trigger] rest[j]).priority >= def.priority,
            decreases self.defs.len() - k,
        {
            k = k + 1;
        }
        proof {
            assert forall|j: int| k <= j < rest.len() implies (#[trigger] rest[j]).priority
                < def.priority by {
                if j > k {
                    assert(rest[k as int].priority >= rest[j].priority);
                }
            }
            lemma_at_least(rest, def.priority as int, k as int);
        }
        self.defs.insert(k, def);
    }

    pub fn all(&self) -> (defs: &Vec<DisplayDef>)
        ensures
            defs@ == self@,
    {
        &self.defs
    }

    /// The backend with a name.
    pub fn find(&self, name: &str) -> (r: Option<&DisplayDef>)
        ensures
            match r {
                Some(def) => self@.contains(*def) && def.name@ == name@,
                None => forall|i: int| 0 <= i < self@.len() ==> (#[trigger] self@[i]).name@ != name@,
            },
            match r {
                Some(def) => exists|i: int|
                    0 <= i < self@.len() && #[trigger] self@[i] == *def && forall|j: int|
                        0 <= j < i ==> (#[trigger] self@[j]).name@ != name@,
                None => true,
            },
    {
        let mut i: usize = 0;
        while i < self.defs.len()
            invariant
                i <= self.defs.len(),
                forall|j: int| 0 <= j < i ==> (#[trigger] self@[j]).name@ != name@,
            decreases self.defs.len() - i,
        {
            if same(self.defs[i].name.as_str(), name) {
                assert(self@[i as int] == self.defs@[i as int]);
                return Some(&self.defs[i]);
            }
            i = i + 1;
        }
        None
    }

    /// Collects the backends of one directory. A relative `bin` is taken from
    /// the directory of the manifest; the caller has read the manifests.
    pub fn scan(found: Vec<DisplayDef>) -> (registry: Self)
        ensures
            registry@ == with_entries(Seq::empty(), found@),
            in_order(registry@),
    {
        let mut registry = DisplayRegistry::new();
        registry.register_all(found);
        registry
    }

    /// Enters backends one after the other.
    pub fn register_all(&mut self, found: Vec<DisplayDef>)
        requires
            in_order(old(self)@),
        ensures
            final(self)@ == with_entries(old(self)@, found@),
            in_order(final(self)@),
    {
        let ghost before = self@;
        let ghost all = found@;
        let mut left = found;
        let ghost mut done: int = 0;
        assert(all.take(0) =~= Seq::<DisplayDef>::empty());
        while left.len() > 0
            invariant
                0 <= done <= all.len(),
                left@ == all.skip(done),
                in_order(self@),
                self@ == with_entries(before, all.take(done)),
            decreases left.len(),
        {
            let def = left.remove(0);
            proof {
                assert(def == all[done]);
                assert(all.take(done + 1).drop_last() =~= all.take(done));
                assert(all.take(done + 1).last() == def);
                assert(left@ =~= all.skip(done + 1));
                done = done + 1;
            }
            self.register(def);
        }
        assert(all.take(done) =~= all);
    }
}

/// Where a manifest's executable is: relative to the manifest unless it is
/// absolute or not given.
pub open spec fn manifest_bin(dir: Seq<char>, bin: Seq<char>) -> Seq<char> {
    if bin.len() == 0 {
        bin
    } else {
        path::joined(dir, bin)
    }
}

pub fn resolve_manifest_bin(dir: &str, bin: &str) -> (r: String)
    ensures
        r@ == manifest_bin(dir@, bin@),
{
    if bin.is_empty() {
        bin.to_owned()
    } else {
        join_path(dir, bin)
    }
}

/// Builds the registry from the directories that were read, bundled ones
/// before those of the user, so that the user's entries shadow by name.
pub fn build_default_registry(dirs: Vec<Vec<DisplayDef>>) -> (registry: DisplayRegistry)
    ensures
        registry@ == with_directories(dirs@),
        in_order(registry@),
{
    let ghost all = dirs@;
    let mut registry = DisplayRegistry::new();
    let mut dirs = dirs;
    let ghost mut done: int = 0;
    assert(all.take(0) =~= Seq::<Vec<DisplayDef>>::empty());
    while dirs.len() > 0
        invariant
            0 <= done <= all.len(),
            dirs@ == all.skip(done),
            in_order(registry@),
            registry@ == with_directories(all.take(done)),
        decreases dirs.len(),
    {
        let found = dirs.remove(0);
        proof {
            assert(found == all[done]);
            assert(all.take(done + 1).drop_last() =~= all.take(done));
            assert(all.take(done + 1).last() == found);
            assert(dirs@ =~= all.skip(done + 1));
            done = done + 1;
        }
        let scanned = DisplayRegistry::scan(found);
        registry.register_all(scanned.defs);
    }
    assert(all.take(done) =~= all);
    registry
}

/// A backend that is registered stands behind all of its priority or a higher
/// one and before all of a lower one; the others stay in their order, but for
/// one of its own name, which it replaces.
pub proof fn law_place_of_an_entry(defs: Seq<DisplayDef>, def: DisplayDef) -> (k: int)
    requires
        in_order(defs),
    ensures
        0 <= k < with_entry(defs, def).len(),
        with_entry(defs, def)[k] == def,
        with_entry(defs, def).remove(k) == defs.filter(
            |other: DisplayDef| other.name@ != def.name@,
        ),
        forall|i: int|
            0 <= i < k ==> (#[trigger] with_entry(defs, def)[i]).priority >= def.priority,
        forall|i: int|
            k < i < with_entry(defs, def).len() ==> (#[trigger] with_entry(defs, def)[i]).priority
                < def.priority,
{
    let rest = without(defs, def.name@);
    lemma_without_in_order(defs, def.name@);
    lemma_without_is_filter(defs, def.name@);
    let k = lemma_first_below(rest, def.priority as int);
    lemma_at_least(rest, def.priority as int, k);
    lemma_inserted(rest, def, k);
    let name = def.name@;
    assert((|other: DisplayDef| other.name@ != name) =~= (|other: DisplayDef|
        other.name@ != def.name@));
    k
}

proof fn lemma_inserted(rest: Seq<DisplayDef>, def: DisplayDef, k: int)
    requires
        0 <= k <= rest.len(),
        forall|i: int| 0 <= i < k ==> (#[trigger] rest[i]).priority >= def.priority,
        forall|i: int| k <= i < rest.len() ==> (#[trigger] rest[i]).priority < def.priority,
    ensures
        rest.insert(k, def)[k] == def,
        rest.insert(k, def).remove(k) == rest,
        forall|i: int|
            0 <= i < k ==> (#[trigger] rest.insert(k, def)[i]).priority >= def.priority,
        forall|i: int|
            k < i < rest.len() + 1 ==> (#[trigger] rest.insert(k, def)[i]).priority < def.priority,
{
    let after = rest.insert(k, def);
    assert(after.remove(k) =~= rest);
    assert forall|i: int| k < i < rest.len() + 1 implies (#[trigger] after[i]).priority
        < def.priority by {
        assert(after[i] == rest[i - 1]);
    }
}

proof fn lemma_without_is_filter(defs: Seq<DisplayDef>, name: Seq<char>)
    ensures
        without(defs, name) == defs.filter(|other: DisplayDef| other.name@ != name),
    decreases defs.len(),
{
    reveal(Seq::filter);
    if defs.len() > 0 {
        lemma_without_is_filter(defs.drop_last(), name);
    }
}

/// Of several backends of one name the one registered last is kept.
pub proof fn law_last_of_a_name_is_kept(defs: Seq<DisplayDef>, more: Seq<DisplayDef>, i: int)
    requires
        in_order(defs),
        0 <= i < more.len(),
        forall|j: int| i < j < more.len() ==> (#[trigger] more[j]).name@ != more[i].name@,
    ensures
        with_entries(defs, more).contains(more[i]),
    decreases more.len(),
{
    let before = with_entries(defs, more.drop_last());
    law_with_entries_in_order(defs, more.drop_last());
    law_with_entry_in_order(before, more.last());
    if i < more.len() - 1 {
        assert(more.drop_last()[i] == more[i]);
        assert forall|j: int| i < j < more.drop_last().len() implies (
        #[trigger] more.drop_last()[j]).name@ != more.drop_last()[i].name@ by {
            assert(more[j].name@ != more[i].name@);
        }
        law_last_of_a_name_is_kept(defs, more.drop_last(), i);
        assert(more[more.len() - 1].name@ != more[i].name@);
    }
}

/// A program is found below the directory of its manifest, unless its path is
/// absolute or none is given.
pub proof fn law_manifest_bin(dir: Seq<char>, bin: Seq<char>)
    ensures
        bin.len() == 0 ==> manifest_bin(dir, bin).len() == 0,
        path::is_absolute(bin) ==> manifest_bin(dir, bin) == bin,
        bin.len() > 0 && !path::is_absolute(bin) ==> path::components(manifest_bin(dir, bin))
            == path::components(dir) + path::components(bin),
        bin.len() > 0 && !path::is_absolute(bin) ==> path::is_absolute(manifest_bin(dir, bin))
            == path::is_absolute(dir),
{
    path::law_joined(dir, bin);
}

} // verus!
