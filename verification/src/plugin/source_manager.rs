//! All Lua plugins of the daemon and the catalog of what they have found.
//!
//! Each plugin has a handle. Registries name handles, so that a registry that
//! takes the place of another can keep some of its plugins running.
use vstd::prelude::*;
use crate::error;
use crate::error::{Error, Fault};
use crate::map::{texts_of, TextMap};
use crate::plugin::source::answers::{
    DiscoverSourceInfo, DiscoverSourceInfoView, SourcePluginInfo, SourcePluginInfoView,
};
use crate::plugin::source::catalog;
use crate::plugin::source::catalog::{ScanOutcome, SourceCatalog};
use crate::plugin::source::patch;
use crate::plugin::source::patch::validate_settings_patch;
use crate::plugin::source::requests;
use crate::plugin::source::runtime;
use crate::plugin::source::runtime::{
    describe_discover, describe_source, has_role, retag, GenerationState, PluginRole,
};
use crate::plugin::source::types::{
    LoadedPluginInfo, LoadedPluginInfoView, RemoteCapability, SourceAction, SourceActionKind,
    SourceActionView, SourceStatus, SourceStatusView,
};
use crate::text;
use crate::text::{copy_list, holds_text, insert_sorted, lemma_views_push, same, views};
use crate::wallpaper::types::{WallpaperEntry, WallpaperEntryView};

verus! {

// ---------------------------------------------------------------------------
// Handles

#[derive(Debug)]
pub struct PluginHandle {
    pub info: LoadedPluginInfo,
    pub generation_state: GenerationState,
}

pub struct HandleView {
    pub info: LoadedPluginInfoView,
    pub generation_state: GenerationState,
}

impl View for PluginHandle {
    type V = HandleView;

    open spec fn view(&self) -> HandleView {
        HandleView { info: self.info@, generation_state: self.generation_state }
    }
}

/// The handles of all plugins that were ever loaded, by number.
#[derive(Debug)]
pub struct PluginHandles {
    pub list: Vec<PluginHandle>,
}

impl View for PluginHandles {
    type V = Seq<HandleView>;

    open spec fn view(&self) -> Seq<HandleView> {
        views(self.list@)
    }
}

impl PluginHandles {
    pub fn new() -> (handles: Self)
        ensures
            handles@ == Seq::<HandleView>::empty(),
    {
        let handles = PluginHandles { list: Vec::new() };
        assert(handles@ =~= Seq::<HandleView>::empty());
        handles
    }

    /// The state that a handle is in.
    pub fn state(&self, id: usize) -> (r: GenerationState)
        requires
            id < self@.len(),
        ensures
            r == self@[id as int].generation_state,
    {
        self.list[id].generation_state
    }

    fn set_state(&mut self, id: usize, state: GenerationState)
        requires
            id < old(self)@.len(),
        ensures
            final(self)@ == old(self)@.update(
                id as int,
                HandleView { generation_state: state, ..old(self)@[id as int] },
            ),
    {
        let ghost before = self@;
        let info = self.list[id].info.clone();
        self.list.set(id, PluginHandle { info, generation_state: state });
        assert(self@ =~= before.update(
            id as int,
            HandleView { generation_state: state, ..before[id as int] },
        ));
    }
}

/// The handles with the states of some of them changed.
pub open spec fn restated(
    handles: Seq<HandleView>,
    ids: Set<int>,
    change: spec_fn(GenerationState) -> GenerationState,
) -> Seq<HandleView> {
    Seq::new(
        handles.len(),
        |i: int|
            if ids.contains(i) {
                HandleView { generation_state: change(handles[i].generation_state), ..handles[i] }
            } else {
                handles[i]
            },
    )
}

/// How a request to all plugins changes the state of one.
#[derive(Clone, Copy, Debug, PartialEq, Eq, Structural)]
pub enum StateChange {
    Activate,
    Drain,
    Retire,
    /// What is draining becomes active again; all else stays.
    Resume,
}

pub open spec fn changed(change: StateChange, state: GenerationState) -> GenerationState {
    match change {
        StateChange::Activate => GenerationState::Active,
        StateChange::Drain => GenerationState::Draining,
        StateChange::Retire => GenerationState::Inactive,
        StateChange::Resume => if state is Draining {
            GenerationState::Active
        } else {
            state
        },
    }
}

fn change_state(change: StateChange, state: GenerationState) -> (r: GenerationState)
    ensures
        r == changed(change, state),
{
    match change {
        StateChange::Activate => GenerationState::Active,
        StateChange::Drain => GenerationState::Draining,
        StateChange::Retire => GenerationState::Inactive,
        StateChange::Resume => match state {
            GenerationState::Draining => GenerationState::Active,
            other => other,
        },
    }
}

// ---------------------------------------------------------------------------
// The registry

#[derive(Debug)]
pub struct LuaPluginRegistry {
    plugins: TextMap<usize>,
    catalog: SourceCatalog,
}

/// The registry that answers for all sources of wallpapers.
pub type SourceManager = LuaPluginRegistry;

pub struct RegistryView {
    /// The handles of the plugins by name.
    pub plugins: Map<Seq<char>, int>,
    pub catalog: Seq<WallpaperEntryView>,
}

impl View for LuaPluginRegistry {
    type V = RegistryView;

    closed spec fn view(&self) -> RegistryView {
        RegistryView {
            plugins: self.plugins@.map_values(|id: usize| id as int),
            catalog: self.catalog@,
        }
    }
}

impl RegistryView {
    pub open spec fn ids(self) -> Set<int> {
        self.plugins.values()
    }

    pub open spec fn missing(self, name: Seq<char>) -> Option<Fault> {
        error::unless(self.plugins.contains_key(name), Fault::SourcePluginNotFound(name))
    }

    pub open spec fn info(self, handles: Seq<HandleView>, name: Seq<char>) -> LoadedPluginInfoView {
        handles[self.plugins[name]].info
    }
}

impl LuaPluginRegistry {
    /// Every name stands for a handle of a plugin of that name.
    pub closed spec fn wf(self, handles: Seq<HandleView>) -> bool {
        &&& self.plugins.wf()
        &&& forall|name: Seq<char>| #[trigger]
            self.plugins@.contains_key(name) ==> {
                &&& self.plugins@[name] < handles.len()
                &&& handles[self.plugins@[name] as int].info.name == name
            }
    }

    pub proof fn lemma_wf(self, handles: Seq<HandleView>)
        requires
            self.wf(handles),
        ensures
            forall|name: Seq<char>| #[trigger]
                self@.plugins.contains_key(name) ==> {
                    &&& 0 <= self@.plugins[name] < handles.len()
                    &&& handles[self@.plugins[name]].info.name == name
                },
    {
        assert forall|name: Seq<char>| #[trigger] self@.plugins.contains_key(name) implies {
            &&& 0 <= self@.plugins[name] < handles.len()
            &&& handles[self@.plugins[name]].info.name == name
        } by {
            assert(self.plugins@.contains_key(name));
        }
    }

    /// A registry stays well-formed as long as the names of its plugins stay.
    pub proof fn lemma_wf_kept(self, before: Seq<HandleView>, after: Seq<HandleView>)
        requires
            self.wf(before),
            before.len() <= after.len(),
            forall|i: int|
                0 <= i < before.len() ==> (#[trigger] after[i]).info.name == before[i].info.name,
        ensures
            self.wf(after),
    {
    }

    pub fn new() -> (registry: Self)
        ensures
            forall|handles: Seq<HandleView>| #[trigger] registry.wf(handles),
            registry@.plugins == Map::<Seq<char>, int>::empty(),
            registry@.catalog == Seq::<WallpaperEntryView>::empty(),
    {
        let registry = LuaPluginRegistry {
            plugins: TextMap::new(),
            catalog: SourceCatalog::default(),
        };
        assert(registry@.plugins =~= Map::<Seq<char>, int>::empty());
        registry
    }

    /// The handle of a plugin.
    pub fn handle(&self, name: &str, handles: &PluginHandles) -> (r: Result<usize, Error>)
        requires
            self.wf(handles@),
        ensures
            match r {
                Ok(id) => self@.plugins.contains_key(name@) && self@.plugins[name@] == id as int
                    && id < handles@.len() && handles@[id as int].info.name == name@,
                Err(e) => self@.missing(name@) == Some(e@),
            },
    {
        match self.plugins.get(name) {
            Some(id) => Ok(*id),
            None => Err(Error::SourcePluginNotFound(name.to_owned())),
        }
    }

    fn info<'a>(&self, name: &str, handles: &'a PluginHandles) -> (r: Result<
        &'a LoadedPluginInfo,
        Error,
    >)
        requires
            self.wf(handles@),
        ensures
            match r {
                Ok(info) => self@.plugins.contains_key(name@) && info@ == self@.info(
                    handles@,
                    name@,
                ),
                Err(e) => self@.missing(name@) == Some(e@),
            },
    {
        let id = self.handle(name, handles)?;
        Ok(&handles.list[id].info)
    }

    /// Changes the states of all plugins of this registry.
    fn change_all(&self, handles: &mut PluginHandles, change: StateChange)
        requires
            self.wf(old(handles)@),
        ensures
            final(handles)@ == restated(
                old(handles)@,
                self@.ids(),
                |state: GenerationState| changed(change, state),
            ),
    {
        let ghost before = handles@;
        let ghost order = self.plugins.order();
        let ghost f = |state: GenerationState| changed(change, state);
        let n: usize = self.plugins.len();
        let mut i: usize = 0;
        proof {
            self.plugins.lemma_order();
            assert(forall|s: GenerationState| #[trigger] f(f(s)) == f(s));
        }
        let ghost mut done = Set::<int>::empty();
        assert(handles@ =~= restated(before, done, f));
        while i < n
            invariant
                self.wf(before),
                self.plugins.wf(),
                n == order.len(),
                order == self.plugins.order(),
                i <= n,
                f == (|state: GenerationState| changed(change, state)),
                forall|s: GenerationState| #[trigger] f(f(s)) == f(s),
                forall|k: int|
                    0 <= k < order.len() ==> self.plugins@.contains_key(#[trigger] order[k]),
                forall|x: int| #[trigger]
                    done.contains(x) ==> exists|k: int|
                        0 <= k < i && self.plugins@[#[trigger] order[k]] as int == x,
                forall|k: int|
                    0 <= k < i ==> done.contains(self.plugins@[#[trigger] order[k]] as int),
                handles@ == restated(before, done, f),
            decreases n - i,
        {
            let id = *self.plugins.value_at(i);
            let ghost name = order[i as int];
            assert(self.plugins@.contains_key(name));
            let ghost now = handles@;
            let state = handles.state(id);
            handles.set_state(id, change_state(change, state));
            proof {
                let more = done.insert(id as int);
                assert(handles@ =~= restated(before, more, f)) by {
                    assert forall|x: int| 0 <= x < before.len() implies handles@[x] == restated(
                        before,
                        more,
                        f,
                    )[x] by {
                        if x == id as int {
                            assert(f(f(before[x].generation_state)) == f(
                                before[x].generation_state,
                            ));
                        }
                    }
                }
                assert forall|x: int| #[trigger] more.contains(x) implies exists|k: int|
                    0 <= k < i + 1 && self.plugins@[#[trigger] order[k]] as int == x by {
                    if x == id as int {
                        assert(self.plugins@[order[i as int]] as int == x);
                    } else {
                        assert(done.contains(x));
                        let k = choose|k: int|
                            0 <= k < i && self.plugins@[#[trigger] order[k]] as int == x;
                        assert(self.plugins@[order[k]] as int == x);
                    }
                }
                done = more;
            }
            i = i + 1;
        }
        proof {
            assert(done =~= self@.ids()) by {
                assert forall|x: int| done.contains(x) <==> self@.ids().contains(x) by {
                    if done.contains(x) {
                        let k = choose|k: int|
                            0 <= k < n && self.plugins@[#[trigger] order[k]] as int == x;
                        assert(self@.plugins.contains_key(order[k]));
                        assert(self@.plugins[order[k]] == x);
                    }
                    if self@.ids().contains(x) {
                        let name = choose|name: Seq<char>| #[trigger]
                            self@.plugins.contains_key(name) && self@.plugins[name] == x;
                        assert(self.plugins@.contains_key(name));
                        assert(order.contains(name));
                        let k = choose|k: int| 0 <= k < order.len() && order[k] == name;
                        assert(done.contains(self.plugins@[order[k]] as int));
                    }
                }
            }
        }
    }
}

pub open spec fn retired(handles: Seq<HandleView>, ids: Set<int>) -> Seq<HandleView> {
    restated(handles, ids, |state: GenerationState| changed(StateChange::Retire, state))
}

pub open spec fn drained(handles: Seq<HandleView>, ids: Set<int>) -> Seq<HandleView> {
    restated(handles, ids, |state: GenerationState| changed(StateChange::Drain, state))
}

pub open spec fn resumed(handles: Seq<HandleView>, ids: Set<int>) -> Seq<HandleView> {
    restated(handles, ids, |state: GenerationState| changed(StateChange::Resume, state))
}

pub open spec fn activated(handles: Seq<HandleView>, ids: Set<int>) -> Seq<HandleView> {
    restated(handles, ids, |state: GenerationState| changed(StateChange::Activate, state))
}

/// Plugins that were active before they were suspended are active once they are
/// resumed.
pub proof fn law_resume_undoes_suspend(handles: Seq<HandleView>, ids: Set<int>)
    requires
        forall|i: int|
            0 <= i < handles.len() && ids.contains(i) ==> (#[trigger] handles[i]).generation_state
                is Active,
    ensures
        resumed(drained(handles, ids), ids) == handles,
{
    assert(resumed(drained(handles, ids), ids) =~= handles);
}

/// Suspended plugins are in a state in which no callback is let in, and nothing
/// else of any plugin changes.
pub proof fn law_suspended_is_not_active(handles: Seq<HandleView>, ids: Set<int>, i: int)
    requires
        0 <= i < handles.len(),
    ensures
        ids.contains(i) ==> !(drained(handles, ids)[i].generation_state is Active),
        !ids.contains(i) ==> drained(handles, ids)[i] == handles[i],
        drained(handles, ids)[i].info == handles[i].info,
{
}

/// After a replacement the plugins of the new registry are active, and those of
/// the old one that it did not keep are not.
pub proof fn law_replacement_is_active(
    handles: Seq<HandleView>,
    old_ids: Set<int>,
    new_ids: Set<int>,
)
    ensures
        ({
            let after = activated(retired(handles, old_ids), new_ids);
            forall|i: int|
                0 <= i < handles.len() ==> {
                    &&& new_ids.contains(i) ==> (#[trigger] after[i]).generation_state is Active
                    &&& old_ids.contains(i) && !new_ids.contains(i) ==> after[i].generation_state
                        is Inactive
                    &&& !old_ids.contains(i) && !new_ids.contains(i) ==> after[i] == handles[i]
                    &&& after[i].info == handles[i].info
                }
        }),
{
}

impl LuaPluginRegistry {
    pub fn clear_plugins(&mut self, handles: &mut PluginHandles)
        requires
            old(self).wf(old(handles)@),
        ensures
            final(self).wf(final(handles)@),
            final(handles)@ == retired(old(handles)@, old(self)@.ids()),
            final(self)@.plugins == Map::<Seq<char>, int>::empty(),
            final(self)@.catalog == Seq::<WallpaperEntryView>::empty(),
    {
        self.change_all(handles, StateChange::Retire);
        self.plugins.clear();
        self.catalog.clear();
        assert(self@.plugins =~= Map::<Seq<char>, int>::empty());
    }

    /// No callback of a plugin of this registry is asked from now on.
    pub fn suspend_plugins(&self, handles: &mut PluginHandles)
        requires
            self.wf(old(handles)@),
        ensures
            self.wf(final(handles)@),
            final(handles)@ == drained(old(handles)@, self@.ids()),
    {
        let ghost before = handles@;
        self.change_all(handles, StateChange::Drain);
        proof {
            self.lemma_wf_kept(before, handles@);
        }
    }

    pub fn resume_plugins(&self, handles: &mut PluginHandles)
        requires
            self.wf(old(handles)@),
        ensures
            self.wf(final(handles)@),
            final(handles)@ == resumed(old(handles)@, self@.ids()),
    {
        let ghost before = handles@;
        self.change_all(handles, StateChange::Resume);
        proof {
            self.lemma_wf_kept(before, handles@);
        }
    }

    /// Takes the place of this registry's plugins and catalog.
    pub fn replace_plugins(&mut self, replacement: Self, handles: &mut PluginHandles)
        requires
            old(self).wf(old(handles)@),
            replacement.wf(old(handles)@),
        ensures
            final(self).wf(final(handles)@),
            final(self)@ == replacement@,
            final(handles)@ == activated(
                retired(old(handles)@, old(self)@.ids()),
                replacement@.ids(),
            ),
    {
        let ghost first = handles@;
        self.change_all(handles, StateChange::Retire);
        let ghost second = handles@;
        proof {
            replacement.lemma_wf_kept(first, second);
        }
        replacement.change_all(handles, StateChange::Activate);
        proof {
            replacement.lemma_wf_kept(second, handles@);
        }
        self.plugins = replacement.plugins;
        self.catalog = replacement.catalog;
    }
}

// ---------------------------------------------------------------------------
// Loading and keeping plugins

/// The plugins among the first `n` names that belong to one of the packages.
pub open spec fn retained(
    current: RegistryView,
    names: Seq<Seq<char>>,
    handles: Seq<HandleView>,
    plugin_ids: Seq<Seq<char>>,
    n: int,
) -> Map<Seq<char>, int>
    decreases n,
{
    if n <= 0 {
        Map::empty()
    } else {
        let name = names[n - 1];
        let before = retained(current, names, handles, plugin_ids, n - 1);
        if plugin_ids.contains(current.info(handles, name).plugin_id) {
            before.insert(name, current.plugins[name])
        } else {
            before
        }
    }
}

/// A plugin that is to be kept has the name of one that is there.
pub open spec fn is_duplicate(
    registry: RegistryView,
    current: RegistryView,
    handles: Seq<HandleView>,
    plugin_ids: Seq<Seq<char>>,
    name: Seq<char>,
) -> bool {
    plugin_ids.contains(current.info(handles, name).plugin_id) && registry.plugins.contains_key(
        name,
    )
}

impl LuaPluginRegistry {
    /// The names of the plugins in the order in which they came.
    pub closed spec fn names(self) -> Seq<Seq<char>> {
        self.plugins.order()
    }

    /// The names are those of the registered plugins, each once.
    pub proof fn law_names(self, handles: Seq<HandleView>)
        requires
            self.wf(handles),
        ensures
            self.names().no_duplicates(),
            forall|name: Seq<char>|
                self@.plugins.contains_key(name) <==> #[trigger] self.names().contains(name),
    {
        self.plugins.lemma_order();
        assert forall|name: Seq<char>|
            self@.plugins.contains_key(name) <==> #[trigger] self.names().contains(name) by {
            assert(self.plugins@.contains_key(name) <==> self.plugins.order().contains(name));
        }
    }

    /// Registers a loaded plugin under its name, which no other may have.
    pub fn load_plugin(
        &mut self,
        info: LoadedPluginInfo,
        handles: &mut PluginHandles,
    ) -> (r: Result<String, Error>)
        requires
            old(self).wf(old(handles)@),
        ensures
            final(self).wf(final(handles)@),
            match r {
                Ok(name) => {
                    &&& name@ == info@.name
                    &&& !old(self)@.plugins.contains_key(info@.name)
                    &&& final(handles)@ == old(handles)@.push(
                        (HandleView { info: info@, generation_state: GenerationState::Active }),
                    )
                    &&& final(self)@ == (RegistryView {
                        plugins: old(self)@.plugins.insert(
                            info@.name,
                            old(handles)@.len() as int,
                        ),
                        ..old(self)@
                    })
                },
                Err(e) => {
                    &&& old(self)@.plugins.contains_key(info@.name)
                    &&& e@ == Fault::Internal("duplicate Lua plugin name '"@ + info@.name + "'"@)
                    &&& final(self)@ == old(self)@
                    &&& final(handles)@ == old(handles)@
                },
            },
    {
        let name = info.name.clone();
        if self.plugins.contains_key(name.as_str()) {
            let mut message = "duplicate Lua plugin name '".to_owned();
            message.append(name.as_str());
            message.append("'");
            return Err(Error::Internal(message));
        }
        let ghost before = self@;
        let ghost known = handles@;
        let id = handles.list.len();
        let handle = PluginHandle { info, generation_state: GenerationState::Active };
        proof {
            lemma_views_push(handles.list@, handle);
            self.lemma_wf_kept(known, known.push(handle@));
        }
        handles.list.push(handle);
        self.plugins.insert(name.clone(), id);
        proof {
            assert(self@.plugins =~= before.plugins.insert(name@, id as int));
        }
        Ok(name)
    }

    /// Keeps the plugins of some packages from another registry. A name that is
    /// taken already ends it; the plugins before it are kept.
    pub fn retain_plugins_from(
        &mut self,
        current: &Self,
        plugin_ids: &Vec<String>,
        handles: &PluginHandles,
    ) -> (r: Result<(), Error>)
        requires
            old(self).wf(handles@),
            current.wf(handles@),
        ensures
            final(self).wf(handles@),
            final(self)@.catalog == old(self)@.catalog,
            match r {
                Ok(_) => {
                    &&& forall|i: int|
                        0 <= i < current.names().len() ==> !is_duplicate(
                            old(self)@,
                            current@,
                            handles@,
                            views(plugin_ids@),
                            #[trigger] current.names()[i],
                        )
                    &&& final(self)@.plugins == old(self)@.plugins.union_prefer_right(
                        retained(
                            current@,
                            current.names(),
                            handles@,
                            views(plugin_ids@),
                            current.names().len() as int,
                        ),
                    )
                },
                Err(e) => exists|i: int|
                    0 <= i < current.names().len() && #[trigger] is_duplicate(
                        old(self)@,
                        current@,
                        handles@,
                        views(plugin_ids@),
                        current.names()[i],
                    ) && e@ == Fault::Internal(
                        "duplicate retained Lua plugin name '"@ + current.names()[i] + "'"@,
                    ) && final(self)@.plugins == old(self)@.plugins.union_prefer_right(
                        retained(current@, current.names(), handles@, views(plugin_ids@), i),
                    ),
            },
    {
        let ghost before = self@;
        let ghost names = current.names();
        let ghost ids = views(plugin_ids@);
        let n: usize = current.plugins.len();
        let mut i: usize = 0;
        proof {
            current.plugins.lemma_order();
            assert(before.plugins =~= before.plugins.union_prefer_right(
                retained(current@, names, handles@, ids, 0),
            ));
        }
        while i < n
            invariant
                self.wf(handles@),
                current.wf(handles@),
                names == current.names(),
                names == current.plugins.order(),
                ids == views(plugin_ids@),
                before == old(self)@,
                n == names.len(),
                i <= n,
                names.no_duplicates(),
                forall|k: int|
                    0 <= k < names.len() ==> current.plugins@.contains_key(#[trigger] names[k]),
                self@.catalog == before.catalog,
                forall|k: int|
                    0 <= k < i ==> !is_duplicate(
                        before,
                        current@,
                        handles@,
                        ids,
                        #[trigger] names[k],
                    ),
                forall|name: Seq<char>| #[trigger]
                    retained(current@, names, handles@, ids, i as int).contains_key(name)
                        ==> exists|k: int| 0 <= k < i && #[trigger] names[k] == name,
                self@.plugins == before.plugins.union_prefer_right(
                    retained(current@, names, handles@, ids, i as int),
                ),
            decreases n - i,
        {
            let name = current.plugins.key_at(i);
            let id = *current.plugins.value_at(i);
            let ghost held = retained(current@, names, handles@, ids, i as int);
            proof {
                assert(current.plugins@.contains_key(names[i as int]));
                assert(current@.plugins[name@] == id as int);
            }
            if holds_text(plugin_ids, handles.list[id].info.plugin_id.as_str()) {
                if self.plugins.contains_key(name.as_str()) {
                    proof {
                        assert(self@.plugins.contains_key(name@));
                        if held.contains_key(name@) {
                            let k = choose|k: int| 0 <= k < i && #[trigger] names[k] == name@;
                            assert(names[k] == names[i as int]);
                        }
                        assert(before.plugins.contains_key(name@));
                        assert(is_duplicate(before, current@, handles@, ids, names[i as int]));
                    }
                    let mut message = "duplicate retained Lua plugin name '".to_owned();
                    message.append(name.as_str());
                    message.append("'");
                    return Err(Error::Internal(message));
                }
                let ghost now = self@;
                self.plugins.insert(name.clone(), id);
                proof {
                    assert(!now.plugins.contains_key(name@));
                    assert(self@.plugins =~= now.plugins.insert(name@, id as int));
                    let more = retained(current@, names, handles@, ids, i + 1);
                    assert(more == held.insert(name@, id as int));
                    assert(self@.plugins =~= before.plugins.union_prefer_right(more));
                    assert(!before.plugins.contains_key(name@));
                }
            }
            proof {
                let more = retained(current@, names, handles@, ids, i + 1);
                assert forall|x: Seq<char>| #[trigger] more.contains_key(x) implies exists|k: int|
                    0 <= k < i + 1 && #[trigger] names[k] == x by {
                    if held.contains_key(x) {
                        let k = choose|k: int| 0 <= k < i && #[trigger] names[k] == x;
                        assert(names[k] == x);
                    } else {
                        assert(names[i as int] == x);
                    }
                }
            }
            i = i + 1;
        }
        Ok(())
    }
}

// ---------------------------------------------------------------------------
// The catalog

impl LuaPluginRegistry {
    /// Replaces the catalog with what the scans have found.
    pub fn scan_all(&mut self, outcomes: &Vec<ScanOutcome>, handles: &PluginHandles) -> (r: Result<
        (),
        Error,
    >)
        requires
            old(self).wf(handles@),
        ensures
            final(self).wf(handles@),
            error::outcome_check(r, catalog::scan_all_fault(outcomes@)),
            final(self)@ == (RegistryView {
                catalog: catalog::sorted(catalog::found_by(outcomes@, outcomes@.len() as int)),
                ..old(self)@
            }),
    {
        self.catalog.scan_all(outcomes)
    }

    pub fn list(&self) -> (r: Vec<WallpaperEntry>)
        ensures
            views(r@) == self@.catalog,
    {
        self.catalog.list()
    }

    pub fn list_by_type(&self, wp_type: &str) -> (r: Vec<WallpaperEntry>)
        ensures
            views(r@) == runtime::of_type(self@.catalog, wp_type@),
    {
        self.catalog.list_by_type(wp_type)
    }

    pub fn get(&self, id: &str) -> (r: Option<WallpaperEntry>)
        ensures
            match r {
                Some(entry) => exists|i: int|
                    #[trigger] runtime::is_first_with_id(self@.catalog, id@, i) && entry@
                        == self@.catalog[i],
                None => forall|i: int|
                    0 <= i < self@.catalog.len() ==> text::decimal(
                        (#[trigger] self@.catalog[i]).item_id as int,
                    ) != id@,
            },
    {
        self.catalog.get(id)
    }
}

// ---------------------------------------------------------------------------
// What the plugins declare

impl LuaPluginRegistry {
    /// The kind of an action of a plugin.
    pub fn action_kind(&self, name: &str, action_id: &str, handles: &PluginHandles) -> (r: Option<
        SourceActionKind,
    >)
        requires
            self.wf(handles@),
        ensures
            r == (if self@.plugins.contains_key(name@) {
                let actions = self@.info(handles@, name@).actions;
                match requests::action_at(actions, action_id@, 0) {
                    Some(i) => Some(actions[i].kind),
                    None => None,
                }
            } else {
                None
            }),
    {
        match self.info(name, handles) {
            Ok(info) => {
                let actions = &info.actions;
                let ghost all = views(actions@);
                let mut i: usize = 0;
                while i < actions.len()
                    invariant
                        i <= actions@.len(),
                        all == views(actions@),
                        all == self@.info(handles@, name@).actions,
                        self@.plugins.contains_key(name@),
                        requests::action_at(all, action_id@, 0) == requests::action_at(
                            all,
                            action_id@,
                            i as int,
                        ),
                    decreases actions@.len() - i,
                {
                    assert(all[i as int] == actions@[i as int]@);
                    if same(actions[i].id.as_str(), action_id) {
                        return Some(actions[i].kind);
                    }
                    i = i + 1;
                }
                None
            },
            Err(_) => None,
        }
    }

    /// The names of the plugins of a role, in order.
    pub fn names_with(&self, role: PluginRole, handles: &PluginHandles) -> (names: Vec<String>)
        requires
            self.wf(handles@),
        ensures
            text::ascending(views(names@)),
            forall|name: Seq<char>| #[trigger]
                views(names@).contains(name) <==> self@.plugins.contains_key(name)
                    && runtime::plays(self@.info(handles@, name), role),
    {
        let mut names: Vec<String> = Vec::new();
        let n: usize = self.plugins.len();
        let ghost order = self.plugins.order();
        let mut i: usize = 0;
        proof {
            assert(views(names@) =~= Seq::<Seq<char>>::empty());
            self.plugins.lemma_order();
        }
        while i < n
            invariant
                self.wf(handles@),
                order == self.plugins.order(),
                n == order.len(),
                i <= n,
                text::ascending(views(names@)),
                forall|k: int|
                    0 <= k < order.len() ==> self.plugins@.contains_key(#[trigger] order[k]),
                forall|name: Seq<char>| #[trigger]
                    views(names@).contains(name) ==> self@.plugins.contains_key(name)
                        && runtime::plays(self@.info(handles@, name), role),
                forall|k: int|
                    0 <= k < i && runtime::plays(
                        self@.info(handles@, #[trigger] order[k]),
                        role,
                    ) ==> views(names@).contains(order[k]),
            decreases n - i,
        {
            let ghost before = views(names@);
            let ghost key = order[i as int];
            let id = *self.plugins.value_at(i);
            proof {
                assert(self.plugins@.contains_key(key));
                assert(self@.plugins[key] == id as int);
                assert(handles@[id as int] == handles.list@[id as int]@);
            }
            if has_role(&handles.list[id].info, role) {
                insert_sorted(&mut names, self.plugins.key_at(i).as_str());
                proof {
                    let after = views(names@);
                    assert forall|name: Seq<char>| #[trigger] after.contains(name) <==> (
                    before.contains(name) || name == key) by {
                        assert(after.to_set().contains(name) == after.contains(name));
                        assert(before.to_set().contains(name) == before.contains(name));
                    }
                    assert forall|k: int|
                        0 <= k < i + 1 && runtime::plays(
                            self@.info(handles@, #[trigger] order[k]),
                            role,
                        ) implies after.contains(order[k]) by {
                        if k < i {
                            assert(before.contains(order[k]));
                        }
                    }
                }
            }
            i = i + 1;
        }
        proof {
            assert forall|name: Seq<char>|
                self@.plugins.contains_key(name) && runtime::plays(
                    self@.info(handles@, name),
                    role,
                ) implies #[trigger] views(names@).contains(name) by {
                assert(self.plugins@.contains_key(name));
                assert(order.contains(name));
                let k = choose|k: int| 0 <= k < order.len() && order[k] == name;
                assert(runtime::plays(self@.info(handles@, order[k]), role));
            }
        }
        names
    }

    /// The plugins that browse remote wallpapers, by name.
    pub fn discover_sources(&self, handles: &PluginHandles) -> (out: Vec<DiscoverSourceInfo>)
        requires
            self.wf(handles@),
        ensures
            text::ascending(views(out@).map_values(|s: DiscoverSourceInfoView| s.name)),
            forall|i: int|
                0 <= i < out@.len() ==> {
                    let shown = #[trigger] views(out@)[i];
                    &&& self@.plugins.contains_key(shown.name)
                    &&& runtime::plays(self@.info(handles@, shown.name), PluginRole::Discover)
                    &&& shown == runtime::discover_source(self@.info(handles@, shown.name))
                },
            forall|name: Seq<char>| #[trigger]
                self@.plugins.contains_key(name) && runtime::plays(
                    self@.info(handles@, name),
                    PluginRole::Discover,
                ) ==> views(out@).map_values(|s: DiscoverSourceInfoView| s.name).contains(name),
    {
        let names = self.names_with(PluginRole::Discover, handles);
        let ghost name_of = |s: DiscoverSourceInfoView| s.name;
        let mut out: Vec<DiscoverSourceInfo> = Vec::new();
        let mut i: usize = 0;
        proof {
            self.lemma_wf(handles@);
        }
        while i < names.len()
            invariant
                self.wf(handles@),
                i <= names@.len(),
                name_of == (|s: DiscoverSourceInfoView| s.name),
                out@.len() == i,
                forall|name: Seq<char>| #[trigger]
                    self@.plugins.contains_key(name) ==> {
                        &&& 0 <= self@.plugins[name] < handles@.len()
                        &&& handles@[self@.plugins[name]].info.name == name
                    },
                forall|name: Seq<char>| #[trigger]
                    views(names@).contains(name) <==> self@.plugins.contains_key(name)
                        && runtime::plays(self@.info(handles@, name), PluginRole::Discover),
                views(out@).map_values(name_of) == views(names@).take(i as int),
                forall|j: int|
                    0 <= j < i ==> {
                        let shown = #[trigger] views(out@)[j];
                        &&& self@.plugins.contains_key(shown.name)
                        &&& runtime::plays(self@.info(handles@, shown.name), PluginRole::Discover)
                        &&& shown == runtime::discover_source(self@.info(handles@, shown.name))
                    },
            decreases names@.len() - i,
        {
            proof {
                assert(views(names@)[i as int] == names@[i as int]@);
                assert(views(names@).contains(names@[i as int]@));
            }
            if let Ok(info) = self.info(names[i].as_str(), handles) {
                if let Some(shown) = describe_discover(info) {
                    proof {
                        lemma_views_push(out@, shown);
                    }
                    out.push(shown);
                    assert(views(out@).map_values(name_of) =~= views(names@).take(i + 1));
                }
            }
            i = i + 1;
        }
        proof {
            assert(views(names@).take(i as int) =~= views(names@));
        }
        out
    }

    /// The plugins that find local wallpapers, by name.
    pub fn plugins(&self, handles: &PluginHandles) -> (out: Vec<SourcePluginInfo>)
        requires
            self.wf(handles@),
        ensures
            text::ascending(views(out@).map_values(|s: SourcePluginInfoView| s.name)),
            forall|i: int|
                0 <= i < out@.len() ==> {
                    let shown = #[trigger] views(out@)[i];
                    &&& self@.plugins.contains_key(shown.name)
                    &&& runtime::plays(self@.info(handles@, shown.name), PluginRole::Source)
                    &&& shown == runtime::source_plugin(self@.info(handles@, shown.name))
                },
            forall|name: Seq<char>| #[trigger]
                self@.plugins.contains_key(name) && runtime::plays(
                    self@.info(handles@, name),
                    PluginRole::Source,
                ) ==> views(out@).map_values(|s: SourcePluginInfoView| s.name).contains(name),
    {
        let names = self.names_with(PluginRole::Source, handles);
        let ghost name_of = |s: SourcePluginInfoView| s.name;
        let mut out: Vec<SourcePluginInfo> = Vec::new();
        let mut i: usize = 0;
        proof {
            self.lemma_wf(handles@);
        }
        while i < names.len()
            invariant
                self.wf(handles@),
                i <= names@.len(),
                name_of == (|s: SourcePluginInfoView| s.name),
                out@.len() == i,
                forall|name: Seq<char>| #[trigger]
                    self@.plugins.contains_key(name) ==> {
                        &&& 0 <= self@.plugins[name] < handles@.len()
                        &&& handles@[self@.plugins[name]].info.name == name
                    },
                forall|name: Seq<char>| #[trigger]
                    views(names@).contains(name) <==> self@.plugins.contains_key(name)
                        && runtime::plays(self@.info(handles@, name), PluginRole::Source),
                views(out@).map_values(name_of) == views(names@).take(i as int),
                forall|j: int|
                    0 <= j < i ==> {
                        let shown = #[trigger] views(out@)[j];
                        &&& self@.plugins.contains_key(shown.name)
                        &&& runtime::plays(self@.info(handles@, shown.name), PluginRole::Source)
                        &&& shown == runtime::source_plugin(self@.info(handles@, shown.name))
                    },
            decreases names@.len() - i,
        {
            proof {
                assert(views(names@)[i as int] == names@[i as int]@);
                assert(views(names@).contains(names@[i as int]@));
            }
            if let Ok(info) = self.info(names[i].as_str(), handles) {
                if let Some(shown) = describe_source(info) {
                    proof {
                        lemma_views_push(out@, shown);
                    }
                    out.push(shown);
                    assert(views(out@).map_values(name_of) =~= views(names@).take(i + 1));
                }
            }
            i = i + 1;
        }
        proof {
            assert(views(names@).take(i as int) =~= views(names@));
        }
        out
    }

    /// Checks a change to the settings of a plugin that browses remote
    /// wallpapers.
    pub fn validate_remote_settings_patch(
        &self,
        source_id: &str,
        values: &TextMap<String>,
        singles: &TextMap<String>,
        handles: &PluginHandles,
    ) -> (r: Result<TextMap<String>, Error>)
        requires
            self.wf(handles@),
            values.wf(),
            singles.wf(),
        ensures
            ({
                let info = self@.info(handles@, source_id@);
                let given = texts_of(values@);
                let fault = error::first(
                    self@.missing(source_id@),
                    patch::patch_fault(
                        source_id@,
                        info,
                        values.order(),
                        given,
                        texts_of(singles@),
                    ),
                );
                match r {
                    Ok(kept) => {
                        &&& fault is None
                        &&& kept.wf()
                        &&& texts_of(kept@) == patch::patch_value(
                            info.settings,
                            values.order(),
                            given,
                            texts_of(singles@),
                            values.order().len() as int,
                        )
                    },
                    Err(e) => fault == Some(e@),
                }
            }),
    {
        let info = self.info(source_id, handles)?;
        validate_settings_patch(source_id, info, values, singles)
    }

    pub fn supports_item_remove(&self, name: &str, handles: &PluginHandles) -> (r: bool)
        requires
            self.wf(handles@),
        ensures
            r == (self@.plugins.contains_key(name@) && self@.info(
                handles@,
                name@,
            ).capabilities.source_item_remove),
    {
        match self.info(name, handles) {
            Ok(info) => info.capabilities.source_item_remove,
            Err(_) => false,
        }
    }

    /// A subscription can be ended for wallpapers that have a remote id and come
    /// from a plugin that takes subscriptions.
    pub fn supports_item_unsubscribe(&self, entry: &WallpaperEntry, handles: &PluginHandles) -> (r:
        bool)
        requires
            self.wf(handles@),
        ensures
            r == {
                &&& entry@.external_id matches Some(id)
                &&& id.len() > 0
                &&& self@.plugins.contains_key(entry@.plugin_name)
                &&& self@.info(handles@, entry@.plugin_name).capabilities.discover matches Some(
                    discover,
                )
                &&& discover.remote == Some(RemoteCapability::Subscription)
            },
    {
        let known = match &entry.external_id {
            Some(id) => !id.as_str().is_empty(),
            None => false,
        };
        if !known {
            return false;
        }
        match self.info(entry.plugin_name.as_str(), handles) {
            Ok(info) => match &info.capabilities.discover {
                Some(discover) => match discover.remote {
                    Some(remote) => remote == RemoteCapability::Subscription,
                    None => false,
                },
                None => false,
            },
            Err(_) => false,
        }
    }

    pub fn plugin_version(&self, name: &str, handles: &PluginHandles) -> (r: Option<String>)
        requires
            self.wf(handles@),
        ensures
            match r {
                Some(version) => self@.plugins.contains_key(name@) && version@ == self@.info(
                    handles@,
                    name@,
                ).version,
                None => !self@.plugins.contains_key(name@),
            },
    {
        match self.info(name, handles) {
            Ok(info) => Some(info.version.clone()),
            Err(_) => None,
        }
    }

    /// Offers new tags of a plugin to choose from.
    pub fn refresh_dynamic_tags(&self, name: &str, tags: &Vec<String>, handles: &mut PluginHandles)
        requires
            self.wf(old(handles)@),
        ensures
            self.wf(final(handles)@),
            final(handles)@ == (if self@.plugins.contains_key(name@) {
                let id = self@.plugins[name@];
                old(handles)@.update(
                    id,
                    HandleView {
                        info: runtime::retagged(old(handles)@[id].info, views(tags@)),
                        ..old(handles)@[id]
                    },
                )
            } else {
                old(handles)@
            }),
    {
        let ghost before = handles@;
        if let Ok(id) = self.handle(name, handles) {
            let mut info = handles.list[id].info.clone();
            let generation_state = handles.list[id].generation_state;
            let ghost known = before[id as int].info;
            retag(&mut info, tags);
            let ghost fresh = info@;
            handles.list.set(id, PluginHandle { info, generation_state });
            proof {
                assert(handles@ =~= before.update(
                    id as int,
                    HandleView { info: fresh, ..before[id as int] },
                ));
                assert(fresh.name == known.name);
                self.lemma_wf_kept(before, handles@);
            }
        }
    }
}

// ---------------------------------------------------------------------------
// Sources with their present state

/// What the status callback of a plugin has shown.
#[derive(Debug)]
pub struct SourceState {
    pub actions: Vec<SourceAction>,
    pub status: Vec<SourceStatus>,
    pub avatar_url: String,
}

pub struct SourceStateView {
    pub actions: Seq<SourceActionView>,
    pub status: Seq<SourceStatusView>,
    pub avatar_url: Seq<char>,
}

impl View for SourceState {
    type V = SourceStateView;

    open spec fn view(&self) -> SourceStateView {
        SourceStateView {
            actions: views(self.actions@),
            status: views(self.status@),
            avatar_url: self.avatar_url@,
        }
    }
}

/// A source as its plugin shows it now; one whose plugin did not answer is shown
/// as it is declared.
pub open spec fn with_state(
    source: DiscoverSourceInfoView,
    states: Map<Seq<char>, SourceState>,
) -> DiscoverSourceInfoView {
    if states.contains_key(source.plugin_id) {
        let state = states[source.plugin_id]@;
        DiscoverSourceInfoView {
            actions: state.actions,
            status: state.status,
            avatar_url: state.avatar_url,
            ..source
        }
    } else {
        source
    }
}

/// Shows the sources as their plugins show them now.
pub fn discover_sources_with_status(
    sources: &Vec<DiscoverSourceInfo>,
    states: &TextMap<SourceState>,
) -> (out: Vec<DiscoverSourceInfo>)
    requires
        states.wf(),
    ensures
        views(out@) == views(sources@).map_values(
            |source: DiscoverSourceInfoView| with_state(source, states@),
        ),
{
    let ghost shown = |source: DiscoverSourceInfoView| with_state(source, states@);
    let mut out: Vec<DiscoverSourceInfo> = Vec::new();
    let mut i: usize = 0;
    assert(views(out@) =~= views(sources@).take(0).map_values(shown));
    while i < sources.len()
        invariant
            states.wf(),
            i <= sources@.len(),
            shown == (|source: DiscoverSourceInfoView| with_state(source, states@)),
            views(out@) == views(sources@).take(i as int).map_values(shown),
        decreases sources@.len() - i,
    {
        let mut source = sources[i].clone();
        if let Some(state) = states.get(sources[i].plugin_id.as_str()) {
            source.actions = copy_list(&state.actions);
            source.status = copy_list(&state.status);
            source.avatar_url = state.avatar_url.clone();
        }
        proof {
            assert(views(sources@)[i as int] == sources@[i as int]@);
            assert(source@ == with_state(sources@[i as int]@, states@));
            lemma_views_push(out@, source);
        }
        out.push(source);
        i = i + 1;
        assert(views(out@) =~= views(sources@).take(i as int).map_values(shown));
    }
    assert(views(sources@).take(i as int) =~= views(sources@));
    out
}

/// Of the handles that are named, retiring makes inactive, draining makes
/// draining, activating makes active, and resuming makes those active that are
/// draining; the plugins and the other handles stay as they are.
pub proof fn law_states_of_handles(handles: Seq<HandleView>, ids: Set<int>, i: int)
    requires
        0 <= i < handles.len(),
    ensures
        retired(handles, ids).len() == handles.len(),
        drained(handles, ids).len() == handles.len(),
        resumed(handles, ids).len() == handles.len(),
        activated(handles, ids).len() == handles.len(),
        !ids.contains(i) ==> retired(handles, ids)[i] == handles[i] && drained(handles, ids)[i]
            == handles[i] && resumed(handles, ids)[i] == handles[i] && activated(handles, ids)[i]
            == handles[i],
        ids.contains(i) ==> {
            &&& retired(handles, ids)[i].generation_state is Inactive
            &&& drained(handles, ids)[i].generation_state is Draining
            &&& activated(handles, ids)[i].generation_state is Active
            &&& handles[i].generation_state is Draining
                ==> resumed(handles, ids)[i].generation_state
                is Active
            &&& !(handles[i].generation_state is Draining) ==> resumed(handles, ids)[i]
                == handles[i]
            &&& retired(handles, ids)[i].info == handles[i].info
            &&& drained(handles, ids)[i].info == handles[i].info
            &&& resumed(handles, ids)[i].info == handles[i].info
            &&& activated(handles, ids)[i].info == handles[i].info
        },
{
}

/// A registry keeps of another the plugins of the packages that are named,
/// under their names and with their handles, and nothing else of it.
pub proof fn law_retained_plugins(
    current: RegistryView,
    names: Seq<Seq<char>>,
    handles: Seq<HandleView>,
    plugin_ids: Seq<Seq<char>>,
    n: int,
    name: Seq<char>,
)
    requires
        0 <= n <= names.len(),
    ensures
        retained(current, names, handles, plugin_ids, n).contains_key(name) <==> (exists|i: int|
            0 <= i < n && #[trigger] names[i] == name) && plugin_ids.contains(
            handles[current.plugins[name]].info.plugin_id,
        ),
        retained(current, names, handles, plugin_ids, n).contains_key(name) ==> retained(
            current,
            names,
            handles,
            plugin_ids,
            n,
        )[name] == current.plugins[name],
    decreases n,
{
    if n > 0 {
        law_retained_plugins(current, names, handles, plugin_ids, n - 1, name);
        assert(names[n - 1] == names[n - 1]);
    }
}

/// A name stands in both registries where the other one's plugin is to be kept
/// and this one has a plugin of that name.
pub proof fn law_duplicates(
    registry: RegistryView,
    current: RegistryView,
    handles: Seq<HandleView>,
    plugin_ids: Seq<Seq<char>>,
    name: Seq<char>,
)
    ensures
        is_duplicate(registry, current, handles, plugin_ids, name) <==> plugin_ids.contains(
            handles[current.plugins[name]].info.plugin_id,
        ) && registry.plugins.contains_key(name),
        registry.missing(name) == (if registry.plugins.contains_key(name) {
            None
        } else {
            Some(Fault::SourcePluginNotFound(name))
        }),
        registry.info(handles, name) == handles[registry.plugins[name]].info,
{
}

/// A source is shown with the state of its plugin where that is known: with the
/// actions, the status and the picture of it. All else is as declared.
pub proof fn law_sources_with_state(
    source: DiscoverSourceInfoView,
    states: Map<Seq<char>, SourceState>,
)
    ensures
        !states.contains_key(source.plugin_id) ==> with_state(source, states) == source,
        states.contains_key(source.plugin_id) ==> {
            let shown = with_state(source, states);
            &&& shown.actions == views(states[source.plugin_id].actions@)
            &&& shown.status == views(states[source.plugin_id].status@)
            &&& shown.avatar_url == states[source.plugin_id].avatar_url@
            &&& shown == (DiscoverSourceInfoView {
                actions: shown.actions,
                status: shown.status,
                avatar_url: shown.avatar_url,
                ..source
            })
        },
{
}

/// What is said of a `PluginHandle` is said of its own fields.
pub proof fn law_plugin_handle_in_contracts(handle: PluginHandle)
    ensures
        handle@.info == handle.info@,
        handle@.generation_state == handle.generation_state,
{
}

/// What is said of a `SourceState` is said of its own fields.
pub proof fn law_source_state_in_contracts(state: SourceState)
    ensures
        state@.actions == views(state.actions@),
        state@.status == views(state.status@),
        state@.avatar_url == state.avatar_url@,
{
}

} // verus!
