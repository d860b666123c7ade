//! The states that plugins keep between runs of the daemon.
use vstd::prelude::*;
use crate::error::{Error, Fault};
use crate::plugin::source::callbacks::Callback;
use crate::plugin::source::runtime;
use crate::plugin::source::runtime::{GenerationState, LuaPluginRuntime, RuntimeView};
use crate::plugin::source::types::{PluginStateMigration, PluginStateMigrationView};
use crate::text;
use crate::text::{copy_list, same, views};

verus! {

// ---------------------------------------------------------------------------
// Setting a state up

/// What is to be done next to set up the state of a plugin.
#[derive(Clone, Copy, Debug, PartialEq, Eq, Structural)]
pub enum SetupKind {
    /// Read the state that the package keeps.
    ReadStored,
    /// Hand it to the plugin.
    LoadStored,
    /// Read the file of a migration.
    ReadLegacy,
    /// Have the plugin take the file over.
    Migrate,
    /// Hand the state that came of it to the plugin.
    LoadMigrated,
    /// Keep that state.
    SaveMigrated,
    /// Put the file aside.
    PreserveLegacy,
    /// Tell the plugin that there is no state.
    LoadNothing,
    Finished,
}

/// How far the state of a plugin is set up. `text` is the state or the file
/// that is at hand, `index` the migration that is tried.
#[derive(Debug)]
pub struct StateSetup {
    kind: SetupKind,
    index: usize,
    text: Option<String>,
    migrations: Vec<PluginStateMigration>,
}

pub struct SetupView {
    pub kind: SetupKind,
    pub index: int,
    pub text: Option<Seq<char>>,
    pub migrations: Seq<PluginStateMigrationView>,
}

impl View for StateSetup {
    type V = SetupView;

    closed spec fn view(&self) -> SetupView {
        SetupView {
            kind: self.kind,
            index: self.index as int,
            text: text::view_of(self.text),
            migrations: views(self.migrations@),
        }
    }
}

impl SetupView {
    pub open spec fn start(migrations: Seq<PluginStateMigrationView>) -> SetupView {
        SetupView { kind: SetupKind::ReadStored, index: 0, text: None, migrations }
    }

    /// The migration that is tried is one that the plugin declares.
    pub open spec fn wf(self) -> bool {
        &&& 0 <= self.index <= self.migrations.len()
        &&& (self.kind is ReadLegacy || self.kind is Migrate || self.kind is LoadMigrated
            || self.kind is SaveMigrated || self.kind is PreserveLegacy) ==> self.index
            < self.migrations.len()
        &&& (self.kind is LoadStored || self.kind is Migrate || self.kind is LoadMigrated
            || self.kind is SaveMigrated || self.kind is PreserveLegacy) ==> self.text is Some
        &&& (self.kind is ReadStored || self.kind is ReadLegacy || self.kind is LoadNothing)
            ==> self.text is None
    }

    /// Tries the migrations from `i` on, and does without a state where none is
    /// left.
    pub open spec fn try_legacy(self, i: int) -> SetupView {
        SetupView {
            kind: if i < self.migrations.len() {
                SetupKind::ReadLegacy
            } else {
                SetupKind::LoadNothing
            },
            index: i,
            text: None,
            migrations: self.migrations,
        }
    }

    pub open spec fn go(self, kind: SetupKind) -> SetupView {
        SetupView { kind, ..self }
    }

    /// The step after one that was carried out. `answer` is what was read or
    /// what the migration gave.
    pub open spec fn next(self, can_migrate: bool, answer: Option<Seq<char>>) -> Result<
        SetupView,
        Fault,
    > {
        match self.kind {
            SetupKind::ReadStored => match answer {
                Some(_) => Ok(SetupView { kind: SetupKind::LoadStored, text: answer, ..self }),
                None => Ok(self.try_legacy(0)),
            },
            SetupKind::LoadStored => Ok(self.go(SetupKind::Finished)),
            SetupKind::ReadLegacy => match answer {
                Some(_) => if can_migrate {
                    Ok(SetupView { kind: SetupKind::Migrate, text: answer, ..self })
                } else {
                    Err(Fault::Internal("module.lifecycle.migrate required"@))
                },
                None => Ok(self.try_legacy(self.index + 1)),
            },
            SetupKind::Migrate => match answer {
                Some(_) => Ok(SetupView { kind: SetupKind::LoadMigrated, text: answer, ..self }),
                None => Err(Fault::Internal("module.lifecycle.migrate must return a string"@)),
            },
            SetupKind::LoadMigrated => Ok(self.go(SetupKind::SaveMigrated)),
            SetupKind::SaveMigrated => Ok(self.go(SetupKind::PreserveLegacy)),
            SetupKind::PreserveLegacy => Ok(self.go(SetupKind::Finished)),
            SetupKind::LoadNothing => Ok(self.go(SetupKind::Finished)),
            SetupKind::Finished => Ok(self),
        }
    }

    /// How many steps are left at most.
    pub open spec fn left(self) -> int {
        let tries = 5 * (self.migrations.len() - self.index);
        match self.kind {
            SetupKind::ReadStored => 5 * self.migrations.len() as int + 7,
            SetupKind::LoadStored => 1,
            SetupKind::ReadLegacy => tries + 1,
            SetupKind::Migrate => 4,
            SetupKind::LoadMigrated => 3,
            SetupKind::SaveMigrated => 2,
            SetupKind::PreserveLegacy => 1,
            SetupKind::LoadNothing => 1,
            SetupKind::Finished => 0,
        }
    }
}

impl StateSetup {
    pub fn kind(&self) -> (kind: SetupKind)
        ensures
            kind == self@.kind,
    {
        self.kind
    }

    /// The state or the file at hand.
    pub fn text(&self) -> (r: &Option<String>)
        ensures
            text::view_of(*r) == self@.text,
    {
        &self.text
    }

    /// The migration that is tried.
    pub fn migration(&self) -> (r: Option<&PluginStateMigration>)
        ensures
            match r {
                Some(migration) => 0 <= self@.index < self@.migrations.len() && migration@
                    == self@.migrations[self@.index],
                None => !(0 <= self@.index < self@.migrations.len()),
            },
    {
        if self.index < self.migrations.len() {
            assert(views(self.migrations@)[self.index as int] == self.migrations@[self.index as int]@);
            Some(&self.migrations[self.index])
        } else {
            None
        }
    }

    fn legacy_from(&mut self, i: usize)
        ensures
            final(self)@ == old(self)@.try_legacy(i as int),
    {
        self.kind = if i < self.migrations.len() {
            SetupKind::ReadLegacy
        } else {
            SetupKind::LoadNothing
        };
        self.index = i;
        self.text = None;
    }

    /// Goes on to the next step.
    pub fn advance(&mut self, can_migrate: bool, answer: Option<String>) -> (r: Result<(), Error>)
        requires
            old(self)@.wf(),
        ensures
            match r {
                Ok(_) => old(self)@.next(can_migrate, text::view_of(answer))
                    == Ok::<SetupView, Fault>(final(self)@) && final(self)@.wf(),
                Err(e) => old(self)@.next(can_migrate, text::view_of(answer))
                    == Err::<SetupView, Fault>(e@) && final(self)@ == old(self)@,
            },
    {
        match self.kind {
            SetupKind::ReadStored => {
                if answer.is_some() {
                    self.kind = SetupKind::LoadStored;
                    self.text = answer;
                } else {
                    self.legacy_from(0);
                }
            },
            SetupKind::LoadStored => {
                self.kind = SetupKind::Finished;
            },
            SetupKind::ReadLegacy => {
                if answer.is_some() {
                    if !can_migrate {
                        return Err(
                            Error::Internal("module.lifecycle.migrate required".to_owned()),
                        );
                    }
                    self.kind = SetupKind::Migrate;
                    self.text = answer;
                } else {
                    let ghost size = self.migrations@.len();
                    assert(views(self.migrations@).len() == size);
                    let n: usize = self.migrations.len();
                    assert(self.index < n);
                    self.legacy_from(self.index + 1);
                }
            },
            SetupKind::Migrate => {
                if answer.is_none() {
                    return Err(
                        Error::Internal("module.lifecycle.migrate must return a string".to_owned()),
                    );
                }
                self.kind = SetupKind::LoadMigrated;
                self.text = answer;
            },
            SetupKind::LoadMigrated => {
                self.kind = SetupKind::SaveMigrated;
            },
            SetupKind::SaveMigrated => {
                self.kind = SetupKind::PreserveLegacy;
            },
            SetupKind::PreserveLegacy => {
                self.kind = SetupKind::Finished;
            },
            SetupKind::LoadNothing => {
                self.kind = SetupKind::Finished;
            },
            SetupKind::Finished => {},
        }
        Ok(())
    }
}

/// Setting a state up comes to an end.
pub proof fn law_setup_ends(v: SetupView, can_migrate: bool, answer: Option<Seq<char>>)
    requires
        v.wf(),
        !(v.kind is Finished),
    ensures
        v.next(can_migrate, answer) matches Ok(after) ==> after.wf() && 0 <= after.left()
            < v.left(),
{
}

/// Once a state has been handed to the plugin, it is the one that is known from
/// then on.
pub proof fn law_loaded_state_is_known(v: SetupView, can_migrate: bool, answer: Option<Seq<char>>)
    requires
        v.kind is LoadStored || v.kind is LoadMigrated || v.kind is SaveMigrated
            || v.kind is PreserveLegacy || v.kind is LoadNothing || v.kind is Finished,
    ensures
        v.next(can_migrate, answer) matches Ok(after) && after.text == v.text,
{
}

/// Where the package keeps a state, no migration is tried.
pub proof fn law_kept_state_comes_first(
    migrations: Seq<PluginStateMigrationView>,
    state: Seq<char>,
    can_migrate: bool,
    answer: Option<Seq<char>>,
)
    ensures
        ({
            let read = SetupView::start(migrations).next(can_migrate, Some(state))->Ok_0;
            &&& read.kind is LoadStored
            &&& read.text == Some(state)
            &&& read.next(can_migrate, answer)->Ok_0.kind is Finished
        }),
{
}

/// The file of a migration is put aside only once the plugin has taken over what
/// came of it and that was kept; a migration that fails leaves the file.
pub proof fn law_file_outlives_failure(
    v: SetupView,
    can_migrate: bool,
    answer: Option<Seq<char>>,
)
    requires
        v.wf(),
    ensures
        v.next(can_migrate, answer) matches Ok(after) ==> {
            &&& after.kind is PreserveLegacy ==> v.kind is SaveMigrated && after.text == v.text
            &&& after.kind is SaveMigrated ==> v.kind is LoadMigrated && after.text == v.text
            &&& after.kind is LoadMigrated ==> v.kind is Migrate && after.text == answer
        },
        v.kind is Migrate && answer is None ==> v.next(can_migrate, answer) is Err,
        v.kind is ReadLegacy && answer is Some && !can_migrate ==> v.next(
            can_migrate,
            answer,
        ) is Err,
{
}

// ---------------------------------------------------------------------------
// Which plugins keep a state

/// A plugin that keeps no state is left as it is.
pub open spec fn setup_request(v: RuntimeView, name: Seq<char>) -> Result<Option<Callback>, Fault> {
    if !v.plugins.contains_key(name) {
        Err(Fault::SourcePluginNotFound(name))
    } else if !v.plugins[name].info.capabilities.lifecycle {
        Ok(None)
    } else if !v.plugins[name].callbacks.contains(Callback::LifecycleLoad) {
        Err(Fault::Internal("module.lifecycle.load required"@))
    } else {
        Ok(Some(Callback::LifecycleLoad))
    }
}

/// The package is known to keep the very state.
pub open spec fn is_kept(v: RuntimeView, plugin_id: Seq<char>, state: Seq<char>) -> bool {
    v.saved_states.contains_key(plugin_id) && v.saved_states[plugin_id] == Some(state)
}

/// What is known of the states after one was written where it had to be.
pub open spec fn recorded(
    v: RuntimeView,
    plugin_id: Seq<char>,
    state: Seq<char>,
    written: bool,
) -> RuntimeView {
    if written {
        RuntimeView { saved_states: v.saved_states.insert(plugin_id, Some(state)), ..v }
    } else {
        v
    }
}

/// A state that is written where it has changed is kept afterwards, so it is
/// not written again; the states of other packages stay as they are.
pub proof fn law_state_is_written_once(
    v: RuntimeView,
    plugin_id: Seq<char>,
    state: Seq<char>,
    other: Seq<char>,
    other_state: Seq<char>,
)
    ensures
        ({
            let after = recorded(v, plugin_id, state, !is_kept(v, plugin_id, state));
            &&& is_kept(after, plugin_id, state)
            &&& other != plugin_id ==> is_kept(after, other, other_state) == is_kept(
                v,
                other,
                other_state,
            )
        }),
{
}

pub open spec fn save_request(v: RuntimeView, name: Seq<char>) -> Result<Option<Callback>, Fault> {
    if !v.plugins.contains_key(name) {
        Err(Fault::SourcePluginNotFound(name))
    } else if !v.plugins[name].info.capabilities.lifecycle {
        Ok(None)
    } else if !v.plugins[name].callbacks.contains(Callback::LifecycleSave) {
        Err(Fault::Internal("module.lifecycle.save required"@))
    } else {
        Ok(Some(Callback::LifecycleSave))
    }
}

impl LuaPluginRuntime {
    /// Begins to set up the state of a plugin.
    pub fn initialize_state(&self, name: &str) -> (r: Result<Option<StateSetup>, Error>)
        requires
            self.wf(),
        ensures
            match r {
                Ok(Some(setup)) => {
                    &&& setup_request(self@, name@) == Ok::<Option<Callback>, Fault>(
                        Some(Callback::LifecycleLoad),
                    )
                    &&& setup@ == SetupView::start(self@.plugins[name@].info.state_migrations)
                    &&& setup@.wf()
                },
                Ok(None) => setup_request(self@, name@) == Ok::<Option<Callback>, Fault>(None),
                Err(e) => setup_request(self@, name@) == Err::<Option<Callback>, Fault>(e@),
            },
    {
        let plugin = self.plugin(name)?;
        if !plugin.info.capabilities.lifecycle {
            return Ok(None);
        }
        if !plugin.callbacks.has(Callback::LifecycleLoad) {
            return Err(Error::Internal("module.lifecycle.load required".to_owned()));
        }
        Ok(
            Some(
                StateSetup {
                    kind: SetupKind::ReadStored,
                    index: 0,
                    text: None,
                    migrations: copy_list(&plugin.info.state_migrations),
                },
            ),
        )
    }

    /// Which callback gives the state that is to be kept.
    pub fn persist_state(&self, name: &str) -> (r: Result<Option<Callback>, Error>)
        requires
            self.wf(),
        ensures
            runtime::asks(r, save_request(self@, name@)),
    {
        let plugin = self.plugin(name)?;
        if !plugin.info.capabilities.lifecycle {
            return Ok(None);
        }
        if !plugin.callbacks.has(Callback::LifecycleSave) {
            return Err(Error::Internal("module.lifecycle.save required".to_owned()));
        }
        Ok(Some(Callback::LifecycleSave))
    }

    /// Whether a state has to be written: it is not the one that the package is
    /// known to keep.
    pub fn state_changed(&self, plugin_id: &str, state: &str) -> (r: bool)
        requires
            self.wf(),
        ensures
            r == !is_kept(self@, plugin_id@, state@),
    {
        match self.saved_state(plugin_id) {
            Some(kept) => !same(kept.as_str(), state),
            None => true,
        }
    }

    /// Notes a state that was written; one that did not have to be written is
    /// known already.
    pub fn record_state(&mut self, plugin_id: &str, state: String, written: bool)
        requires
            old(self).wf(),
        ensures
            final(self).wf(),
            final(self)@ == recorded(old(self)@, plugin_id@, state@, written),
    {
        if written {
            self.note_state(plugin_id, Some(state));
        }
    }

    /// The packages whose web sessions are kept when the plugins go, each once.
    /// An inactive generation has kept them before.
    pub fn persist_all_http_sessions(&self, state: GenerationState) -> (ids: Vec<String>)
        requires
            self.wf(),
        ensures
            text::ascending(views(ids@)),
            state is Inactive ==> ids@.len() == 0,
            !(state is Inactive) ==> forall|id: Seq<char>| #[trigger]
                views(ids@).contains(id) <==> exists|name: Seq<char>| #[trigger]
                    self@.plugins.contains_key(name) && self@.plugins[name].info.plugin_id == id,
    {
        if let GenerationState::Inactive = state {
            return Vec::new();
        }
        self.package_ids()
    }
}

/// What came of keeping the state of a plugin and its web session: the failure
/// of the first is told before that of the second.
pub fn settle_persist(lifecycle: Result<(), Error>, session: Result<(), Error>) -> (r: Result<
    (),
    Error,
>)
    ensures
        match lifecycle {
            Err(e) => r == Err::<(), Error>(e),
            Ok(_) => r == session,
        },
{
    match lifecycle {
        Err(e) => Err(e),
        Ok(_) => session,
    }
}

/// State that is kept is handed to the plugin and that is all. Without it the
/// files of the migrations are tried one after another; without any of them the
/// plugin is told that there is no state.
pub proof fn law_where_state_is_looked_for(
    v: SetupView,
    can_migrate: bool,
    state: Seq<char>,
)
    requires
        v.kind is ReadStored || v.kind is ReadLegacy,
    ensures
        v.kind is ReadStored ==> (v.next(can_migrate, Some(state)) matches Ok(after) && {
            &&& after.kind is LoadStored
            &&& after.text == Some(state)
            &&& after.index == v.index
            &&& after.migrations == v.migrations
        }),
        v.next(can_migrate, None) matches Ok(after) && {
            let i = if v.kind is ReadStored {
                0
            } else {
                v.index + 1
            };
            &&& after.kind is ReadLegacy <==> i < v.migrations.len()
            &&& after.kind is LoadNothing <==> i >= v.migrations.len()
            &&& after.index == i
            &&& after.text is None
            &&& after.migrations == v.migrations
        },
        v.kind is ReadLegacy && can_migrate ==> (v.next(can_migrate, Some(state)) matches Ok(after)
            && {
            &&& after.kind is Migrate
            &&& after.text == Some(state)
            &&& after.index == v.index
            &&& after.migrations == v.migrations
        }),
        v.kind is ReadLegacy && !can_migrate ==> v.next(can_migrate, Some(state)) == Err::<
            SetupView,
            _,
        >(Fault::Internal("module.lifecycle.migrate required"@)),
{
}

/// State that a migration gave is loaded, then kept, and only then is the file
/// put aside; the migration and its place stay the same all the while.
pub proof fn law_order_of_a_migration(
    v: SetupView,
    can_migrate: bool,
    answer: Option<Seq<char>>,
    state: Seq<char>,
)
    ensures
        v.kind is Migrate ==> (v.next(can_migrate, Some(state)) matches Ok(after) && after.kind
            is LoadMigrated && after.text == Some(state) && after.index == v.index
            && after.migrations == v.migrations),
        v.kind is Migrate ==> v.next(can_migrate, None) == Err::<SetupView, _>(
            Fault::Internal("module.lifecycle.migrate must return a string"@),
        ),
        v.kind is LoadMigrated ==> (v.next(can_migrate, answer) matches Ok(after) && after.kind
            is SaveMigrated && after.index == v.index && after.migrations == v.migrations),
        v.kind is SaveMigrated ==> (v.next(can_migrate, answer) matches Ok(after) && after.kind
            is PreserveLegacy && after.index == v.index && after.migrations == v.migrations),
        v.kind is LoadStored || v.kind is LoadNothing || v.kind is PreserveLegacy || v.kind
            is Finished ==> (v.next(can_migrate, answer) matches Ok(after) && after.kind
            is Finished),
{
}

/// Setup begins with reading the kept state, before the first migration.
pub proof fn law_setup_begins(migrations: Seq<PluginStateMigrationView>)
    ensures
        SetupView::start(migrations).kind is ReadStored,
        SetupView::start(migrations).index == 0,
        SetupView::start(migrations).text is None,
        SetupView::start(migrations).migrations == migrations,
{
}

/// Only a plugin that has been loaded is asked for its state, and only one that
/// declares a lifecycle; it then has to have the function that is asked for.
pub proof fn law_state_requests(v: RuntimeView, name: Seq<char>)
    ensures
        !v.plugins.contains_key(name) ==> setup_request(v, name) == Err::<Option<Callback>, _>(
            Fault::SourcePluginNotFound(name),
        ) && save_request(v, name) == Err::<Option<Callback>, _>(
            Fault::SourcePluginNotFound(name),
        ),
        v.plugins.contains_key(name) && !v.plugins[name].info.capabilities.lifecycle
            ==> setup_request(v, name) == Ok::<Option<Callback>, Fault>(None) && save_request(
            v,
            name,
        ) == Ok::<Option<Callback>, Fault>(None),
        v.plugins.contains_key(name) && v.plugins[name].info.capabilities.lifecycle ==> {
            &&& setup_request(v, name) == (if v.plugins[name].callbacks.contains(
                Callback::LifecycleLoad,
            ) {
                Ok::<Option<Callback>, Fault>(Some(Callback::LifecycleLoad))
            } else {
                Err(Fault::Internal("module.lifecycle.load required"@))
            })
            &&& save_request(v, name) == (if v.plugins[name].callbacks.contains(
                Callback::LifecycleSave,
            ) {
                Ok::<Option<Callback>, Fault>(Some(Callback::LifecycleSave))
            } else {
                Err(Fault::Internal("module.lifecycle.save required"@))
            })
        },
{
}

/// What was written is remembered as the plugin's state; what could not be
/// written is not. Nothing else of the plugins changes.
pub proof fn law_recorded_state(v: RuntimeView, plugin_id: Seq<char>, state: Seq<char>)
    ensures
        is_kept(v, plugin_id, state) <==> v.saved_states.contains_key(plugin_id)
            && v.saved_states[plugin_id] == Some(state),
        recorded(v, plugin_id, state, false) == v,
        recorded(v, plugin_id, state, true).saved_states == v.saved_states.insert(
            plugin_id,
            Some(state),
        ),
        recorded(v, plugin_id, state, true).plugins == v.plugins,
        recorded(v, plugin_id, state, true).entries == v.entries,
{
}

} // verus!
