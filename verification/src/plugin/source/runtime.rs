//! The plugins of one Lua runtime: what they declare, what they have found, and
//! which of their callbacks a request asks.
use vstd::prelude::*;
use crate::error;
use crate::error::{Error, Fault};
use crate::map::TextMap;
use crate::plugin::lua;
use crate::plugin::lua::{explain_text, LuaTable, LuaValue};
use crate::plugin::source::answers::{
    DiscoverSourceInfo, DiscoverSourceInfoView, QrLoginBegin, QrLoginBeginView, QrLoginPollState,
    SourcePluginInfo, SourcePluginInfoView,
};
use crate::plugin::source::callbacks;
use crate::plugin::source::callbacks::{parse_callbacks, Callback, PluginCallbacks};
use crate::plugin::source::entry;
use crate::plugin::source::entry::{Contract, Dialect};
use crate::plugin::source::filters;
use crate::plugin::source::filters::legacy_discover_filter;
use crate::plugin::source::info;
use crate::plugin::source::info::{parse_plugin_info, require_info_function};
use crate::plugin::source::redact;
use crate::plugin::source::redact::redact_secrets;
use crate::plugin::source::replies;
use crate::plugin::source::replies::{read_qr_begin, read_qr_state, read_scan, terminal};
use crate::plugin::source::types::{
    LoadedPluginInfo, LoadedPluginInfoView, SourceActionKind, SourceActionView,
};
use crate::text;
use crate::text::{copy_list, copy_texts, decimal_i64, insert_sorted, same, views};
use crate::wallpaper::types::{WallpaperEntry, WallpaperEntryView};

verus! {

// ---------------------------------------------------------------------------
// Replies

/// What came of asking a callback.
#[derive(Debug)]
pub enum CallbackReply {
    Returned(LuaValue),
    Failed(String),
}

/// Why a reply is no table.
pub open spec fn no_table(reply: CallbackReply) -> Option<Seq<char>> {
    match reply {
        CallbackReply::Returned(LuaValue::Table(_)) => None,
        CallbackReply::Returned(value) => Some(
            "error converting Lua "@ + value.kind() + " to table"@,
        ),
        CallbackReply::Failed(text) => Some(text@),
    }
}

pub open spec fn reply_table(reply: CallbackReply) -> LuaTable {
    reply->Returned_0->Table_0
}

/// Why a reply is a failure where its value does not matter.
pub open spec fn no_reply(reply: CallbackReply) -> Option<Seq<char>> {
    match reply {
        CallbackReply::Returned(_) => None,
        CallbackReply::Failed(text) => Some(text@),
    }
}

pub fn take_table(reply: &CallbackReply) -> (r: Result<&LuaTable, String>)
    ensures
        match r {
            Ok(t) => no_table(*reply) is None && *t == reply_table(*reply),
            Err(text) => no_table(*reply) == Some(text@),
        },
{
    match reply {
        CallbackReply::Returned(LuaValue::Table(t)) => Ok(t),
        CallbackReply::Returned(value) => {
            let mut text = "error converting Lua ".to_owned();
            text.append(value.kind_name());
            text.append(" to table");
            Err(text)
        },
        CallbackReply::Failed(text) => Err(text.clone()),
    }
}

/// The fault of a discover callback that did not return a table.
pub open spec fn discover_reply_fault(reply: CallbackReply, plugin: Seq<char>) -> Option<Fault> {
    match no_table(reply) {
        Some(text) => Some(replies::failed(plugin, redact::redacted(text))),
        None => None,
    }
}

pub fn discover_table<'a>(
    reply: &'a CallbackReply,
    plugin: &str,
) -> (r: Result<&'a LuaTable, Error>)
    ensures
        match r {
            Ok(t) => discover_reply_fault(*reply, plugin@) is None && *t == reply_table(*reply),
            Err(e) => discover_reply_fault(*reply, plugin@) == Some(e@),
        },
{
    match take_table(reply) {
        Ok(t) => Ok(t),
        Err(text) => Err(replies::fail(plugin, redact_secrets(text.as_str()).as_str())),
    }
}

/// The fault of a discover callback whose value does not matter.
pub open spec fn discover_call_fault(reply: CallbackReply, plugin: Seq<char>) -> Option<Fault> {
    match no_reply(reply) {
        Some(text) => Some(replies::failed(plugin, redact::redacted(text))),
        None => None,
    }
}

/// What became of a discover callback whose value does not matter.
pub fn discover_call(reply: &CallbackReply, plugin: &str) -> (r: Result<(), Error>)
    ensures
        error::outcome_check(r, discover_call_fault(*reply, plugin@)),
{
    match reply {
        CallbackReply::Returned(_) => Ok(()),
        CallbackReply::Failed(text) => Err(
            replies::fail(plugin, redact_secrets(text.as_str()).as_str()),
        ),
    }
}

// ---------------------------------------------------------------------------
// Whether callbacks are asked at all

/// The state of a generation of plugins.
#[derive(Clone, Copy, Debug, PartialEq, Eq, Structural)]
pub enum GenerationState {
    Active,
    Draining,
    Inactive,
}

/// A callback is asked only while its generation is active.
pub fn admit_callback(state: GenerationState) -> (r: Result<(), CallbackReply>)
    ensures
        match r {
            Ok(_) => state is Active,
            Err(reply) => !(state is Active) && no_reply(reply) == Some(
                "runtime error: source plugin runtime is reloading"@,
            ),
        },
{
    match state {
        GenerationState::Active => Ok(()),
        _ => Err(
            CallbackReply::Failed("runtime error: source plugin runtime is reloading".to_owned()),
        ),
    }
}

/// A callback has succeeded only if its web session was kept too; its own
/// failure comes before that of keeping the session.
pub fn settle_callback(reply: CallbackReply, session_failure: Option<String>) -> (r: CallbackReply)
    ensures
        match (reply, session_failure) {
            (CallbackReply::Returned(_), Some(text)) => no_reply(r) == Some(text@),
            _ => r == reply,
        },
{
    match (reply, session_failure) {
        (CallbackReply::Returned(_), Some(text)) => CallbackReply::Failed(text),
        (reply, _) => reply,
    }
}

// ---------------------------------------------------------------------------
// The runtime

#[derive(Debug)]
pub struct LoadedPlugin {
    pub dialect: Dialect,
    pub info: LoadedPluginInfo,
    pub callbacks: PluginCallbacks,
}

pub struct LoadedPluginView {
    pub dialect: Dialect,
    pub info: LoadedPluginInfoView,
    pub callbacks: Set<Callback>,
}

impl View for LoadedPlugin {
    type V = LoadedPluginView;

    open spec fn view(&self) -> LoadedPluginView {
        LoadedPluginView { dialect: self.dialect, info: self.info@, callbacks: self.callbacks@ }
    }
}

#[derive(Debug)]
pub struct LuaPluginRuntime {
    plugins: TextMap<LoadedPlugin>,
    entries: Vec<WallpaperEntry>,
    saved_states: TextMap<Option<String>>,
    qr_operations: Vec<u64>,
    next_qr_operation_id: u64,
}

pub struct RuntimeView {
    /// The loaded plugins by name.
    pub plugins: Map<Seq<char>, LoadedPluginView>,
    /// What the last scan has found.
    pub entries: Seq<WallpaperEntryView>,
    /// The states that the packages of the plugins were last known to keep.
    pub saved_states: Map<Seq<char>, Option<Seq<char>>>,
    /// The QR logins that are under way.
    pub qr_operations: Set<u64>,
    pub next_qr_operation_id: u64,
}

impl View for LuaPluginRuntime {
    type V = RuntimeView;

    closed spec fn view(&self) -> RuntimeView {
        RuntimeView {
            plugins: self.plugins@.map_values(|plugin: LoadedPlugin| plugin@),
            entries: views(self.entries@),
            saved_states: self.saved_states@.map_values(
                |state: Option<String>| text::view_of(state),
            ),
            qr_operations: self.qr_operations@.to_set(),
            next_qr_operation_id: self.next_qr_operation_id,
        }
    }
}

/// Which callback a request asks, if any.
pub open spec fn asks(
    r: Result<Option<Callback>, Error>,
    wanted: Result<Option<Callback>, Fault>,
) -> bool {
    match (r, wanted) {
        (Ok(callback), Ok(expected)) => callback == expected,
        (Err(e), Err(fault)) => e@ == fault,
        _ => false,
    }
}

/// The fault of a request.
pub open spec fn request_fault(request: Result<Option<Callback>, Fault>) -> Option<Fault> {
    match request {
        Ok(_) => None,
        Err(fault) => Some(fault),
    }
}

/// A kind of plugin that requests to all plugins look for.
#[derive(Clone, Copy, Debug, PartialEq, Eq, Structural)]
pub enum PluginRole {
    Source,
    AutoDetect,
    Discover,
    DynamicTags,
}

pub open spec fn plays(info: LoadedPluginInfoView, role: PluginRole) -> bool {
    match role {
        PluginRole::Source => info.capabilities.source is Some,
        PluginRole::AutoDetect => info.capabilities.source matches Some(source)
            && source.auto_detect,
        PluginRole::Discover => info.capabilities.discover is Some,
        PluginRole::DynamicTags => info.capabilities.discover matches Some(discover)
            && discover.dynamic_tags,
    }
}

pub fn has_role(info: &LoadedPluginInfo, role: PluginRole) -> (r: bool)
    ensures
        r == plays(info@, role),
{
    match role {
        PluginRole::Source => info.capabilities.source.is_some(),
        PluginRole::AutoDetect => match &info.capabilities.source {
            Some(source) => source.auto_detect,
            None => false,
        },
        PluginRole::Discover => info.capabilities.discover.is_some(),
        PluginRole::DynamicTags => match &info.capabilities.discover {
            Some(discover) => discover.dynamic_tags,
            None => false,
        },
    }
}

/// What is shown of a plugin that finds local wallpapers.
pub open spec fn source_plugin(info: LoadedPluginInfoView) -> SourcePluginInfoView {
    let source = info.capabilities.source->0;
    SourcePluginInfoView {
        name: info.name,
        plugin_id: info.plugin_id,
        types: source.types,
        version: info.version,
        library_label: source.library_label,
        library_hint: source.library_hint,
        settings: info.settings,
    }
}

pub fn describe_source(info: &LoadedPluginInfo) -> (r: Option<SourcePluginInfo>)
    ensures
        match r {
            Some(shown) => info@.capabilities.source is Some && shown@ == source_plugin(info@),
            None => info@.capabilities.source is None,
        },
{
    match &info.capabilities.source {
        Some(source) => Some(
            SourcePluginInfo {
                name: info.name.clone(),
                plugin_id: info.plugin_id.clone(),
                types: copy_texts(&source.types),
                version: info.version.clone(),
                library_label: source.library_label.clone(),
                library_hint: source.library_hint.clone(),
                settings: copy_list(&info.settings),
            },
        ),
        None => None,
    }
}

/// What is shown of a plugin that browses remote wallpapers.
pub open spec fn discover_source(info: LoadedPluginInfoView) -> DiscoverSourceInfoView {
    let discover = info.capabilities.discover->0;
    DiscoverSourceInfoView {
        plugin_id: info.name,
        name: info.name,
        display_name: info.display_name,
        supports_search: discover.supports_search,
        remote_capability: discover.remote,
        remote_hint: discover.remote_hint,
        sorts: discover.sorts,
        filters: discover.filters,
        owner_plugin_id: info.plugin_id,
        settings: info.settings,
        actions: info.actions,
        status: info.status,
        avatar_url: Seq::empty(),
    }
}

pub fn describe_discover(info: &LoadedPluginInfo) -> (r: Option<DiscoverSourceInfo>)
    ensures
        match r {
            Some(shown) => info@.capabilities.discover is Some && shown@ == discover_source(info@),
            None => info@.capabilities.discover is None,
        },
{
    match &info.capabilities.discover {
        Some(discover) => Some(
            DiscoverSourceInfo {
                plugin_id: info.name.clone(),
                name: info.name.clone(),
                display_name: info.display_name.clone(),
                supports_search: discover.supports_search,
                remote_capability: discover.remote,
                remote_hint: discover.remote_hint.clone(),
                sorts: copy_list(&discover.sorts),
                filters: copy_list(&discover.filters),
                owner_plugin_id: info.plugin_id.clone(),
                settings: copy_list(&info.settings),
                actions: copy_list(&info.actions),
                status: copy_list(&info.status),
                avatar_url: String::new(),
            },
        ),
        None => None,
    }
}

/// The wallpapers of one type, in their order.
pub open spec fn of_type(entries: Seq<WallpaperEntryView>, wp_type: Seq<char>) -> Seq<
    WallpaperEntryView,
> {
    entries.filter(|entry: WallpaperEntryView| entry.wp_type == wp_type)
}

pub fn entries_of_type<'a>(entries: &'a Vec<WallpaperEntry>, wp_type: &str) -> (r: Vec<
    &'a WallpaperEntry,
>)
    ensures
        views(r@) == of_type(views(entries@), wp_type@),
{
    let ghost all = views(entries@);
    let ghost wanted = |entry: WallpaperEntryView| entry.wp_type == wp_type@;
    let mut out: Vec<&'a WallpaperEntry> = Vec::new();
    let mut i: usize = 0;
    proof {
        reveal(Seq::filter);
        assert(views(out@) =~= all.take(0).filter(wanted));
    }
    while i < entries.len()
        invariant
            i <= entries@.len(),
            all == views(entries@),
            wanted == (|entry: WallpaperEntryView| entry.wp_type == wp_type@),
            views(out@) == all.take(i as int).filter(wanted),
        decreases entries@.len() - i,
    {
        let ghost before = out@;
        let entry = &entries[i];
        proof {
            reveal(Seq::filter);
            assert(all.take(i + 1).drop_last() =~= all.take(i as int));
            assert(all.take(i + 1).last() == entry@);
        }
        if same(entry.wp_type.as_str(), wp_type) {
            out.push(entry);
            assert(views(out@) =~= views(before).push(entry@));
        }
        i = i + 1;
    }
    assert(all.take(i as int) =~= all);
    out
}

/// The first wallpaper with the id.
pub open spec fn is_first_with_id(entries: Seq<WallpaperEntryView>, id: Seq<char>, i: int) -> bool {
    &&& 0 <= i < entries.len()
    &&& text::decimal(entries[i].item_id as int) == id
    &&& forall|j: int| 0 <= j < i ==> text::decimal((#[trigger] entries[j]).item_id as int) != id
}

pub fn find_entry<'a>(entries: &'a Vec<WallpaperEntry>, id: &str) -> (r: Option<&'a WallpaperEntry>)
    ensures
        match r {
            Some(entry) => exists|i: int|
                #[trigger] is_first_with_id(views(entries@), id@, i) && entry@ == entries@[i]@,
            None => forall|i: int|
                0 <= i < entries@.len() ==> text::decimal((#[trigger] entries@[i]).item_id as int)
                    != id@,
        },
{
    let ghost all = views(entries@);
    let mut i: usize = 0;
    while i < entries.len()
        invariant
            i <= entries@.len(),
            all == views(entries@),
            forall|j: int|
                0 <= j < i ==> text::decimal((#[trigger] entries@[j]).item_id as int) != id@,
        decreases entries@.len() - i,
    {
        let number = decimal_i64(entries[i].item_id);
        if same(number.as_str(), id) {
            proof {
                assert forall|j: int| 0 <= j < i implies text::decimal(
                    (#[trigger] all[j]).item_id as int,
                ) != id@ by {
                    assert(all[j] == entries@[j]@);
                    assert(text::decimal(entries@[j].item_id as int) != id@);
                }
                assert(all[i as int] == entries@[i as int]@);
                assert(is_first_with_id(all, id@, i as int));
            }
            return Some(&entries[i]);
        }
        i = i + 1;
    }
    None
}

impl RuntimeView {
    pub open spec fn empty() -> RuntimeView {
        RuntimeView {
            plugins: Map::empty(),
            entries: Seq::empty(),
            saved_states: Map::empty(),
            qr_operations: Set::empty(),
            next_qr_operation_id: 1,
        }
    }

    pub open spec fn missing(self, name: Seq<char>) -> Option<Fault> {
        error::unless(self.plugins.contains_key(name), Fault::SourcePluginNotFound(name))
    }
}

impl LuaPluginRuntime {
    /// Every plugin stands under its own name, and the number of the next QR
    /// login is not 0.
    pub closed spec fn wf(self) -> bool {
        &&& self.plugins.wf()
        &&& self.saved_states.wf()
        &&& self.next_qr_operation_id >= 1
        &&& self.qr_operations@.no_duplicates()
        &&& forall|name: Seq<char>| #[trigger]
            self.plugins@.contains_key(name) ==> self.plugins@[name].info.name@ == name
    }

    /// What a well-formed runtime promises of its contents.
    pub proof fn lemma_wf(self)
        requires
            self.wf(),
        ensures
            self@.next_qr_operation_id >= 1,
            forall|name: Seq<char>| #[trigger]
                self@.plugins.contains_key(name) ==> self@.plugins[name].info.name == name,
    {
        assert forall|name: Seq<char>| #[trigger] self@.plugins.contains_key(name) implies self@.plugins[name].info.name
            == name by {
            assert(self.plugins@.contains_key(name));
        }
    }

    pub fn new() -> (runtime: Self)
        ensures
            runtime.wf(),
            runtime@ == RuntimeView::empty(),
    {
        let runtime = LuaPluginRuntime {
            plugins: TextMap::new(),
            entries: Vec::new(),
            saved_states: TextMap::new(),
            qr_operations: Vec::new(),
            next_qr_operation_id: 1,
        };
        proof {
            assert(runtime@.plugins =~= Map::<Seq<char>, LoadedPluginView>::empty());
            assert(runtime@.entries =~= Seq::<WallpaperEntryView>::empty());
            assert(runtime@.saved_states =~= Map::<Seq<char>, Option<Seq<char>>>::empty());
            assert(runtime@.qr_operations =~= Set::<u64>::empty());
        }
        runtime
    }

    /// Forgets every plugin and what it has found. Numbers of QR logins are not
    /// given out again.
    pub fn clear_plugins(&mut self)
        requires
            old(self).wf(),
        ensures
            final(self).wf(),
            final(self)@ == (RuntimeView {
                next_qr_operation_id: old(self)@.next_qr_operation_id,
                ..RuntimeView::empty()
            }),
    {
        self.plugins.clear();
        self.saved_states.clear();
        self.qr_operations.clear();
        self.entries.clear();
        proof {
            assert(self@.plugins =~= Map::<Seq<char>, LoadedPluginView>::empty());
            assert(self@.entries =~= Seq::<WallpaperEntryView>::empty());
            assert(self@.saved_states =~= Map::<Seq<char>, Option<Seq<char>>>::empty());
            assert(self@.qr_operations =~= Set::<u64>::empty());
        }
    }

    pub fn loaded_plugin_info(&self, name: &str) -> (r: Option<LoadedPluginInfo>)
        requires
            self.wf(),
        ensures
            match r {
                Some(found) => self@.plugins.contains_key(name@) && found@
                    == self@.plugins[name@].info,
                None => !self@.plugins.contains_key(name@),
            },
    {
        match self.plugins.get(name) {
            Some(plugin) => Some(plugin.info.clone()),
            None => None,
        }
    }

    pub fn plugin(&self, name: &str) -> (r: Result<&LoadedPlugin, Error>)
        requires
            self.wf(),
        ensures
            match r {
                Ok(plugin) => self@.plugins.contains_key(name@) && plugin@ == self@.plugins[name@],
                Err(e) => self@.missing(name@) == Some(e@),
            },
    {
        match self.plugins.get(name) {
            Some(plugin) => Ok(plugin),
            None => Err(Error::SourcePluginNotFound(name.to_owned())),
        }
    }
}

// ---------------------------------------------------------------------------
// Loading

pub open spec fn version_fault(contract: Contract, entry_version: u32) -> Option<Fault> {
    error::unless(
        entry::dialect_of(contract, entry_version) is Some,
        Fault::Internal(
            "unsupported Lua entry_version "@ + text::decimal(entry_version as int)
                + "; supported versions are "@ + entry::supported_text(contract),
        ),
    )
}

/// The dialect of an entry; one of a version that is not served is refused.
pub fn check_entry_version(contract: Contract, entry_version: u32) -> (r: Result<Dialect, Error>)
    ensures
        match r {
            Ok(dialect) => version_fault(contract, entry_version) is None && entry::dialect_of(
                contract,
                entry_version,
            ) == Some(dialect),
            Err(e) => version_fault(contract, entry_version) == Some(e@),
        },
{
    match entry::select_dialect(contract, entry_version) {
        Some(dialect) => Ok(dialect),
        None => {
            let mut text = "unsupported Lua entry_version ".to_owned();
            let number = text::decimal_u64(entry_version as u64);
            text.append(number.as_str());
            text.append("; supported versions are ");
            text.append(entry::supported_versions(contract));
            Err(Error::Internal(text))
        },
    }
}

/// Why a module is not loaded.
pub open spec fn load_fault(
    module: LuaTable,
    table: LuaTable,
    contract: Contract,
    entry_version: u32,
) -> Option<Fault> {
    let dialect = entry::dialect_of(contract, entry_version)->0;
    error::first(
        version_fault(contract, entry_version),
        error::first(
            info::info_export_fault(module),
            error::first(
                info::info_fault(module, table, dialect),
                callbacks::callbacks_fault(dialect, module),
            ),
        ),
    )
}

/// The plugin that a module is loaded as.
pub open spec fn loaded(
    module: LuaTable,
    table: LuaTable,
    plugin_id: Seq<char>,
    plugin_version: Seq<char>,
    dialect: Dialect,
) -> LoadedPluginView {
    LoadedPluginView {
        dialect,
        info: info::info_value(dialect, module, table, plugin_id, plugin_version),
        callbacks: callbacks::exported_callbacks(dialect, module),
    }
}

impl LuaPluginRuntime {
    /// Loads a module. `table` is what its `info()` has returned. A plugin of
    /// the same name is replaced.
    pub fn load_plugin(
        &mut self,
        module: &LuaTable,
        table: &LuaTable,
        plugin_id: &str,
        plugin_version: &str,
        contract: Contract,
        entry_version: u32,
    ) -> (r: Result<String, Error>)
        requires
            old(self).wf(),
        ensures
            final(self).wf(),
            match r {
                Ok(name) => {
                    &&& load_fault(*module, *table, contract, entry_version) is None
                    &&& name@ == lua::text_field(*table, "name"@)
                    &&& final(self)@ == (RuntimeView {
                        plugins: old(self)@.plugins.insert(
                            name@,
                            loaded(
                                *module,
                                *table,
                                plugin_id@,
                                plugin_version@,
                                entry::dialect_of(contract, entry_version)->0,
                            ),
                        ),
                        ..old(self)@
                    })
                },
                Err(e) => load_fault(*module, *table, contract, entry_version) == Some(e@) && final(self)@
                    == old(self)@,
            },
    {
        let dialect = check_entry_version(contract, entry_version)?;
        require_info_function(module)?;
        let info = parse_plugin_info(module, table, plugin_id, plugin_version, dialect)?;
        let callbacks = parse_callbacks(dialect, module)?;
        let name = info.name.clone();
        let ghost before = self@;
        let plugin = LoadedPlugin { dialect, info, callbacks };
        let ghost shown = plugin@;
        self.plugins.insert(name.clone(), plugin);
        proof {
            assert(self@.plugins =~= before.plugins.insert(name@, shown));
        }
        Ok(name)
    }

    /// Takes a plugin out again whose state could not be set up.
    pub fn unload_plugin(&mut self, name: &str)
        requires
            old(self).wf(),
        ensures
            final(self).wf(),
            final(self)@ == (RuntimeView {
                plugins: old(self)@.plugins.remove(name@),
                ..old(self)@
            }),
    {
        let ghost before = self@;
        let _ = self.plugins.remove(name);
        proof {
            assert(self@.plugins =~= before.plugins.remove(name@));
        }
    }
}

// ---------------------------------------------------------------------------
// Queries

impl LuaPluginRuntime {
    /// The names of the plugins of a role, in order.
    pub fn names_with(&self, role: PluginRole) -> (names: Vec<String>)
        requires
            self.wf(),
        ensures
            text::ascending(views(names@)),
            forall|name: Seq<char>| #[trigger]
                views(names@).contains(name) <==> self@.plugins.contains_key(name) && plays(
                    self@.plugins[name].info,
                    role,
                ),
    {
        let mut names: Vec<String> = Vec::new();
        let n: usize = self.plugins.len();
        let mut i: usize = 0;
        proof {
            assert(views(names@) =~= Seq::<Seq<char>>::empty());
            self.plugins.lemma_order();
        }
        while i < n
            invariant
                self.wf(),
                n == self.plugins.order().len(),
                i <= n,
                text::ascending(views(names@)),
                forall|key: Seq<char>|
                    #![auto]
                    self.plugins@.contains_key(key) <==> self.plugins.order().contains(key),
                forall|k: int|
                    0 <= k < self.plugins.order().len() ==> self.plugins@.contains_key(
                        #[trigger] self.plugins.order()[k],
                    ),
                forall|name: Seq<char>| #[trigger]
                    views(names@).contains(name) ==> self@.plugins.contains_key(name) && plays(
                        self@.plugins[name].info,
                        role,
                    ),
                forall|k: int|
                    0 <= k < i && plays(
                        self@.plugins[#[trigger] self.plugins.order()[k]].info,
                        role,
                    ) ==> views(names@).contains(self.plugins.order()[k]),
            decreases n - i,
        {
            let ghost before = views(names@);
            let ghost key = self.plugins.order()[i as int];
            let plugin = self.plugins.value_at(i);
            assert(self@.plugins[key] == plugin@);
            if has_role(&plugin.info, role) {
                insert_sorted(&mut names, self.plugins.key_at(i).as_str());
                proof {
                    let after = views(names@);
                    assert forall|name: Seq<char>| #[trigger] after.contains(name) <==> (
                    before.contains(name) || name == key) by {
                        assert(after.to_set().contains(name) == after.contains(name));
                        assert(before.to_set().contains(name) == before.contains(name));
                    }
                    assert forall|k: int|
                        0 <= k < i + 1 && plays(
                            self@.plugins[#[trigger] self.plugins.order()[k]].info,
                            role,
                        ) implies after.contains(self.plugins.order()[k]) by {
                        if k < i {
                            assert(before.contains(self.plugins.order()[k]));
                        }
                    }
                }
            }
            i = i + 1;
        }
        proof {
            assert forall|name: Seq<char>|
                self@.plugins.contains_key(name) && plays(self@.plugins[name].info, role) implies #[trigger] views(
                names@,
            ).contains(name) by {
                assert(self.plugins@.contains_key(name));
                assert(self.plugins.order().contains(name));
                let k = choose|k: int|
                    0 <= k < self.plugins.order().len() && self.plugins.order()[k] == name;
                assert(plays(self@.plugins[self.plugins.order()[k]].info, role));
            }
        }
        names
    }

    /// The plugins that browse remote wallpapers, by name.
    pub fn discover_sources(&self) -> (out: Vec<DiscoverSourceInfo>)
        requires
            self.wf(),
        ensures
            text::ascending(views(out@).map_values(|s: DiscoverSourceInfoView| s.name)),
            forall|i: int|
                0 <= i < out@.len() ==> {
                    let shown = #[trigger] views(out@)[i];
                    &&& self@.plugins.contains_key(shown.name)
                    &&& plays(self@.plugins[shown.name].info, PluginRole::Discover)
                    &&& shown == discover_source(self@.plugins[shown.name].info)
                },
            forall|name: Seq<char>| #[trigger]
                self@.plugins.contains_key(name) && plays(
                    self@.plugins[name].info,
                    PluginRole::Discover,
                ) ==> views(out@).map_values(|s: DiscoverSourceInfoView| s.name).contains(name),
    {
        let names = self.names_with(PluginRole::Discover);
        let ghost name_of = |s: DiscoverSourceInfoView| s.name;
        let mut out: Vec<DiscoverSourceInfo> = Vec::new();
        let mut i: usize = 0;
        proof {
            self.lemma_wf();
        }
        while i < names.len()
            invariant
                self.wf(),
                i <= names@.len(),
                name_of == (|s: DiscoverSourceInfoView| s.name),
                out@.len() == i,
                forall|name: Seq<char>| #[trigger]
                    self@.plugins.contains_key(name) ==> self@.plugins[name].info.name == name,
                forall|name: Seq<char>| #[trigger]
                    views(names@).contains(name) <==> self@.plugins.contains_key(name) && plays(
                        self@.plugins[name].info,
                        PluginRole::Discover,
                    ),
                views(out@).map_values(name_of) == views(names@).take(i as int),
                forall|j: int|
                    0 <= j < i ==> {
                        let shown = #[trigger] views(out@)[j];
                        &&& self@.plugins.contains_key(shown.name)
                        &&& plays(self@.plugins[shown.name].info, PluginRole::Discover)
                        &&& shown == discover_source(self@.plugins[shown.name].info)
                    },
            decreases names@.len() - i,
        {
            proof {
                assert(views(names@)[i as int] == names@[i as int]@);
                assert(views(names@).contains(names@[i as int]@));
            }
            if let Ok(plugin) = self.plugin(names[i].as_str()) {
                if let Some(shown) = describe_discover(&plugin.info) {
                    proof {
                        text::lemma_views_push(out@, shown);
                    }
                    out.push(shown);
                    assert(views(out@).map_values(name_of) =~= views(names@).take(i + 1));
                }
            }
            i = i + 1;
        }
        proof {
            assert(views(names@).take(i as int) =~= views(names@));
        }
        out
    }

    /// The plugins that find local wallpapers, by name.
    pub fn plugins(&self) -> (out: Vec<SourcePluginInfo>)
        requires
            self.wf(),
        ensures
            text::ascending(views(out@).map_values(|s: SourcePluginInfoView| s.name)),
            forall|i: int|
                0 <= i < out@.len() ==> {
                    let shown = #[trigger] views(out@)[i];
                    &&& self@.plugins.contains_key(shown.name)
                    &&& plays(self@.plugins[shown.name].info, PluginRole::Source)
                    &&& shown == source_plugin(self@.plugins[shown.name].info)
                },
            forall|name: Seq<char>| #[trigger]
                self@.plugins.contains_key(name) && plays(
                    self@.plugins[name].info,
                    PluginRole::Source,
                ) ==> views(out@).map_values(|s: SourcePluginInfoView| s.name).contains(name),
    {
        let names = self.names_with(PluginRole::Source);
        let ghost name_of = |s: SourcePluginInfoView| s.name;
        let mut out: Vec<SourcePluginInfo> = Vec::new();
        let mut i: usize = 0;
        proof {
            self.lemma_wf();
        }
        while i < names.len()
            invariant
                self.wf(),
                i <= names@.len(),
                name_of == (|s: SourcePluginInfoView| s.name),
                out@.len() == i,
                forall|name: Seq<char>| #[trigger]
                    self@.plugins.contains_key(name) ==> self@.plugins[name].info.name == name,
                forall|name: Seq<char>| #[trigger]
                    views(names@).contains(name) <==> self@.plugins.contains_key(name) && plays(
                        self@.plugins[name].info,
                        PluginRole::Source,
                    ),
                views(out@).map_values(name_of) == views(names@).take(i as int),
                forall|j: int|
                    0 <= j < i ==> {
                        let shown = #[trigger] views(out@)[j];
                        &&& self@.plugins.contains_key(shown.name)
                        &&& plays(self@.plugins[shown.name].info, PluginRole::Source)
                        &&& shown == source_plugin(self@.plugins[shown.name].info)
                    },
            decreases names@.len() - i,
        {
            proof {
                assert(views(names@)[i as int] == names@[i as int]@);
                assert(views(names@).contains(names@[i as int]@));
            }
            if let Ok(plugin) = self.plugin(names[i].as_str()) {
                if let Some(shown) = describe_source(&plugin.info) {
                    proof {
                        text::lemma_views_push(out@, shown);
                    }
                    out.push(shown);
                    assert(views(out@).map_values(name_of) =~= views(names@).take(i + 1));
                }
            }
            i = i + 1;
        }
        proof {
            assert(views(names@).take(i as int) =~= views(names@));
        }
        out
    }

    pub fn list(&self) -> (r: &Vec<WallpaperEntry>)
        ensures
            views(r@) == self@.entries,
    {
        &self.entries
    }

    pub fn list_by_type(&self, wp_type: &str) -> (r: Vec<&WallpaperEntry>)
        ensures
            views(r@) == of_type(self@.entries, wp_type@),
    {
        entries_of_type(&self.entries, wp_type)
    }

    pub fn get(&self, id: &str) -> (r: Option<&WallpaperEntry>)
        ensures
            match r {
                Some(entry) => exists|i: int|
                    #[trigger] is_first_with_id(self@.entries, id@, i) && entry@
                        == self@.entries[i],
                None => forall|i: int|
                    0 <= i < self@.entries.len() ==> text::decimal(
                        (#[trigger] self@.entries[i]).item_id as int,
                    ) != id@,
            },
    {
        let found = find_entry(&self.entries, id);
        proof {
            assert(forall|i: int|
                0 <= i < self@.entries.len() ==> self@.entries[i] == (#[trigger] self.entries@[i])@);
            if found is None {
                assert forall|i: int| 0 <= i < self@.entries.len() implies text::decimal(
                    (#[trigger] self@.entries[i]).item_id as int,
                ) != id@ by {
                    assert(text::decimal(self.entries@[i].item_id as int) != id@);
                }
            }
        }
        found
    }

    pub fn supports_item_remove(&self, plugin_name: &str) -> (r: bool)
        requires
            self.wf(),
        ensures
            r == (self@.plugins.contains_key(plugin_name@)
                && self@.plugins[plugin_name@].info.capabilities.source_item_remove),
    {
        match self.plugins.get(plugin_name) {
            Some(plugin) => plugin.info.capabilities.source_item_remove,
            None => false,
        }
    }

    pub fn plugin_version(&self, plugin_name: &str) -> (r: Option<String>)
        requires
            self.wf(),
        ensures
            match r {
                Some(version) => self@.plugins.contains_key(plugin_name@) && version@
                    == self@.plugins[plugin_name@].info.version,
                None => !self@.plugins.contains_key(plugin_name@),
            },
    {
        match self.plugins.get(plugin_name) {
            Some(plugin) => Some(plugin.info.version.clone()),
            None => None,
        }
    }
}

// ---------------------------------------------------------------------------
// Scans

/// The fault of a scan that did not return a table.
pub open spec fn scan_reply_fault(reply: CallbackReply, plugin: Seq<char>) -> Option<Fault> {
    match no_table(reply) {
        Some(text) => Some(
            Fault::Internal(
                "source plugin '"@ + plugin + "' scan failed: "@ + redact::redacted(text),
            ),
        ),
        None => None,
    }
}

/// A plugin that finds no local wallpapers is not asked.
pub open spec fn scan_request(v: RuntimeView, name: Seq<char>) -> Result<Option<Callback>, Fault> {
    if !v.plugins.contains_key(name) {
        Err(Fault::SourcePluginNotFound(name))
    } else if v.plugins[name].info.capabilities.source is None {
        Ok(None)
    } else if !v.plugins[name].callbacks.contains(Callback::SourceScan) {
        Err(Fault::SourcePluginNotFound(name))
    } else {
        Ok(Some(Callback::SourceScan))
    }
}

pub open spec fn scan_plugin_fault(v: RuntimeView, name: Seq<char>, reply: CallbackReply) -> Option<
    Fault,
> {
    match scan_request(v, name) {
        Err(fault) => Some(fault),
        Ok(None) => None,
        Ok(Some(_)) => error::first(
            scan_reply_fault(reply, name),
            replies::scan_fault(reply_table(reply).sequence@),
        ),
    }
}

/// The wallpapers that a scan adds.
pub open spec fn scan_plugin_value(v: RuntimeView, name: Seq<char>, reply: CallbackReply) -> Seq<
    WallpaperEntryView,
> {
    if scan_request(v, name) == Ok::<Option<Callback>, Fault>(Some(Callback::SourceScan)) && no_table(
        reply,
    ) is None {
        replies::scan_value(v.plugins[name].dialect, reply_table(reply).sequence@, name)
    } else {
        Seq::empty()
    }
}

/// The answer to a scan of all plugins of which some failed.
pub open spec fn scan_failure(failures: Seq<Seq<char>>) -> Option<Fault> {
    if failures.len() == 0 {
        None
    } else {
        Some(Fault::Internal("source scan failed for "@ + text::join(failures, "; "@)))
    }
}

/// One line of that answer.
pub fn describe_failure(name: &str, message: &str) -> (line: String)
    ensures
        line@ == name@ + ": "@ + message@,
{
    let mut line = name.to_owned();
    line.append(": ");
    line.append(message);
    line
}

/// Whether a scan of all plugins has succeeded. Every plugin is scanned even if
/// one before it has failed.
pub fn finish_scan(failures: &Vec<String>) -> (r: Result<(), Error>)
    ensures
        error::outcome_check(r, scan_failure(views(failures@))),
{
    if failures.len() == 0 {
        Ok(())
    } else {
        let mut message = "source scan failed for ".to_owned();
        let all = text::join_texts(failures, "; ");
        message.append(all.as_str());
        Err(Error::Internal(message))
    }
}

impl LuaPluginRuntime {
    /// Begins a scan of all plugins: what the last one has found is dropped, and
    /// the plugins to be scanned are named in order.
    pub fn scan_all(&mut self) -> (names: Vec<String>)
        requires
            old(self).wf(),
        ensures
            final(self).wf(),
            final(self)@ == (RuntimeView { entries: Seq::empty(), ..old(self)@ }),
            text::ascending(views(names@)),
            forall|name: Seq<char>| #[trigger]
                views(names@).contains(name) <==> old(self)@.plugins.contains_key(name) && plays(
                    old(self)@.plugins[name].info,
                    PluginRole::Source,
                ),
    {
        let ghost before = self@;
        self.entries.clear();
        assert(self@.entries =~= Seq::<WallpaperEntryView>::empty());
        assert(self@.plugins == before.plugins);
        self.names_with(PluginRole::Source)
    }

    /// Which callback scans for wallpapers.
    pub fn prepare_scan(&self, name: &str) -> (r: Result<Option<Callback>, Error>)
        requires
            self.wf(),
        ensures
            asks(r, scan_request(self@, name@)),
    {
        let plugin = self.plugin(name)?;
        if plugin.info.capabilities.source.is_none() {
            return Ok(None);
        }
        if !plugin.callbacks.has(Callback::SourceScan) {
            return Err(Error::SourcePluginNotFound(name.to_owned()));
        }
        Ok(Some(Callback::SourceScan))
    }

    /// Takes over what a scan of one plugin has found.
    pub fn scan_plugin(&mut self, name: &str, reply: &CallbackReply) -> (r: Result<(), Error>)
        requires
            old(self).wf(),
        ensures
            final(self).wf(),
            error::outcome_check(r, scan_plugin_fault(old(self)@, name@, *reply)),
            final(self)@ == (RuntimeView {
                entries: old(self)@.entries + scan_plugin_value(old(self)@, name@, *reply),
                ..old(self)@
            }),
    {
        let ghost before = self@;
        assert(before.entries + Seq::<WallpaperEntryView>::empty() =~= before.entries);
        if self.prepare_scan(name)?.is_none() {
            return Ok(());
        }
        let dialect = self.plugin(name)?.dialect;
        match take_table(reply) {
            Ok(t) => {
                let r = read_scan(dialect, &t.sequence, name, &mut self.entries);
                assert(self@.entries == before.entries + scan_plugin_value(before, name@, *reply));
                r
            },
            Err(text) => {
                let mut message = "source plugin '".to_owned();
                message.append(name);
                message.append("' scan failed: ");
                let shown = redact_secrets(text.as_str());
                message.append(shown.as_str());
                Err(Error::Internal(message))
            },
        }
    }
}

// ---------------------------------------------------------------------------
// Tags that are asked for while the plugin runs

pub open spec fn tags_request(v: RuntimeView, name: Seq<char>) -> Result<Option<Callback>, Fault> {
    if !v.plugins.contains_key(name) {
        Err(Fault::SourcePluginNotFound(name))
    } else if !v.plugins[name].callbacks.contains(Callback::DiscoverTags) {
        Err(Fault::DiscoverUnsupported(name))
    } else {
        Ok(Some(Callback::DiscoverTags))
    }
}

/// Why a reply is no list of strings.
pub open spec fn no_texts(reply: CallbackReply) -> Option<Seq<char>> {
    match reply {
        CallbackReply::Returned(LuaValue::Table(t)) => lua::sequence_defect(t.sequence@, 0),
        CallbackReply::Returned(value) => Some(
            "error converting Lua "@ + value.kind() + " to Vec<String> (expected table)"@,
        ),
        CallbackReply::Failed(text) => Some(text@),
    }
}

pub open spec fn tags_fault(
    v: RuntimeView,
    name: Seq<char>,
    reply: CallbackReply,
) -> Option<Fault> {
    error::first(
        request_fault(tags_request(v, name)),
        match no_texts(reply) {
            Some(text) => Some(replies::failed(name, redact::redacted(text))),
            None => None,
        },
    )
}

fn take_texts(reply: &CallbackReply) -> (r: Result<Vec<String>, String>)
    ensures
        match r {
            Ok(texts) => no_texts(*reply) is None && views(texts@) == lua::text_items(
                reply_table(*reply).sequence@,
            ),
            Err(text) => no_texts(*reply) == Some(text@),
        },
{
    match reply {
        CallbackReply::Returned(LuaValue::Table(t)) => {
            let items = &t.sequence;
            let mut out: Vec<String> = Vec::new();
            let mut i: usize = 0;
            assert(views(out@) =~= lua::text_items(items@.take(0)));
            while i < items.len()
                invariant
                    i <= items@.len(),
                    *items == t.sequence,
                    *reply == CallbackReply::Returned(LuaValue::Table(*t)),
                    lua::sequence_defect(items@, 0) == lua::sequence_defect(items@, i as int),
                    views(out@) == lua::text_items(items@.take(i as int)),
                decreases items@.len() - i,
            {
                match items[i].to_text() {
                    Some(text) => {
                        proof {
                            text::lemma_views_push(out@, text);
                        }
                        out.push(text);
                        assert(views(out@) =~= lua::text_items(items@.take(i + 1)));
                    },
                    None => {
                        return Err(explain_text(&items[i]));
                    },
                }
                i = i + 1;
            }
            assert(items@.take(i as int) =~= items@);
            Ok(out)
        },
        CallbackReply::Returned(value) => {
            let mut text = "error converting Lua ".to_owned();
            text.append(value.kind_name());
            text.append(" to Vec<String> (expected table)");
            Err(text)
        },
        CallbackReply::Failed(text) => Err(text.clone()),
    }
}

/// A plugin with new tags to choose from; none given leave the old ones.
pub open spec fn retagged(
    info: LoadedPluginInfoView,
    tags: Seq<Seq<char>>,
) -> LoadedPluginInfoView {
    match info.capabilities.discover {
        Some(discover) => if tags.len() > 0 {
            LoadedPluginInfoView {
                capabilities: crate::plugin::source::types::PluginCapabilitiesView {
                    discover: Some(
                        crate::plugin::source::types::DiscoverCapabilityView {
                            filters: filters::legacy_filter(tags),
                            ..discover
                        },
                    ),
                    ..info.capabilities
                },
                ..info
            }
        } else {
            info
        },
        None => info,
    }
}

pub fn retag(info: &mut LoadedPluginInfo, tags: &Vec<String>)
    ensures
        final(info)@ == retagged(old(info)@, views(tags@)),
{
    if tags.len() > 0 {
        let mut fresh = info.clone();
        if let Some(discover) = &info.capabilities.discover {
            let mut changed = discover.clone();
            changed.filters = legacy_discover_filter(tags);
            fresh.capabilities.discover = Some(changed);
        }
        *info = fresh;
    }
}

impl LuaPluginRuntime {
    pub fn prepare_tags(&self, name: &str) -> (r: Result<Option<Callback>, Error>)
        requires
            self.wf(),
        ensures
            asks(r, tags_request(self@, name@)),
    {
        let plugin = self.plugin(name)?;
        if !plugin.callbacks.has(Callback::DiscoverTags) {
            return Err(Error::DiscoverUnsupported(name.to_owned()));
        }
        Ok(Some(Callback::DiscoverTags))
    }

    pub fn call_tags(&self, name: &str, reply: &CallbackReply) -> (r: Result<Vec<String>, Error>)
        requires
            self.wf(),
        ensures
            error::outcome_list(
                r,
                tags_fault(self@, name@, *reply),
                lua::text_items(reply_table(*reply).sequence@),
            ),
    {
        let _ = self.prepare_tags(name)?;
        match take_texts(reply) {
            Ok(tags) => Ok(tags),
            Err(text) => Err(replies::fail(name, redact_secrets(text.as_str()).as_str())),
        }
    }

    /// Offers new tags of a plugin to choose from.
    pub fn refresh_dynamic_tags(&mut self, name: &str, tags: &Vec<String>)
        requires
            old(self).wf(),
        ensures
            final(self).wf(),
            final(self)@ == (if old(self)@.plugins.contains_key(name@) {
                RuntimeView {
                    plugins: old(self)@.plugins.insert(
                        name@,
                        LoadedPluginView {
                            info: retagged(old(self)@.plugins[name@].info, views(tags@)),
                            ..old(self)@.plugins[name@]
                        },
                    ),
                    ..old(self)@
                }
            } else {
                old(self)@
            }),
    {
        let ghost before = self@;
        if let Some(plugin) = self.plugins.remove(name) {
            let mut plugin = plugin;
            let ghost known = plugin@;
            retag(&mut plugin.info, tags);
            let ghost shown = plugin@;
            self.plugins.insert(name.to_owned(), plugin);
            proof {
                assert(known == before.plugins[name@]);
                assert(self@.plugins =~= before.plugins.insert(name@, shown));
            }
        } else {
            assert(self@.plugins =~= before.plugins);
        }
    }
}

// ---------------------------------------------------------------------------
// QR logins

/// Some action with the id is a QR login.
pub open spec fn is_qr_login(actions: Seq<SourceActionView>, action_id: Seq<char>) -> bool {
    exists|i: int|
        0 <= i < actions.len() && (#[trigger] actions[i]).id == action_id && actions[i].kind
            == SourceActionKind::QrLogin
}

/// A message about an action of a plugin.
pub open spec fn action_message(
    plugin: Seq<char>,
    action: Seq<char>,
    what: Seq<char>,
) -> Seq<char> {
    "plugin action '"@ + plugin + ":"@ + action + "'"@ + what
}

pub fn describe_action(plugin: &str, action: &str, what: &str) -> (message: String)
    ensures
        message@ == action_message(plugin@, action@, what@),
{
    let mut message = "plugin action '".to_owned();
    message.append(plugin);
    message.append(":");
    message.append(action);
    message.append("'");
    message.append(what);
    message
}

pub open spec fn qr_begin_request(v: RuntimeView, name: Seq<char>, action_id: Seq<char>) -> Result<
    Option<Callback>,
    Fault,
> {
    if !v.plugins.contains_key(name) {
        Err(Fault::SourcePluginNotFound(name))
    } else if !is_qr_login(v.plugins[name].info.actions, action_id) {
        Err(Fault::InvalidArgument(action_message(name, action_id, " is not a QR login"@)))
    } else if !v.plugins[name].callbacks.contains(Callback::QrloginBegin) {
        Err(Fault::InvalidArgument("QR login is unsupported"@))
    } else {
        Ok(Some(Callback::QrloginBegin))
    }
}

pub open spec fn qr_login_fault(
    v: RuntimeView,
    name: Seq<char>,
    action_id: Seq<char>,
    reply: CallbackReply,
) -> Option<Fault> {
    error::first(
        request_fault(qr_begin_request(v, name, action_id)),
        error::first(
            discover_reply_fault(reply, name),
            replies::qr_begin_fault(v.plugins[name].dialect, reply_table(reply)),
        ),
    )
}

/// The number of the next QR login; 0 is never one.
pub open spec fn next_id(id: u64) -> u64 {
    if id == u64::MAX {
        1
    } else {
        (id + 1) as u64
    }
}

pub open spec fn qr_poll_request(v: RuntimeView, name: Seq<char>, operation_id: u64) -> Result<
    Option<Callback>,
    Fault,
> {
    if !v.plugins.contains_key(name) {
        Err(Fault::SourcePluginNotFound(name))
    } else if !v.plugins[name].callbacks.contains(Callback::QrloginPoll) {
        Err(Fault::InvalidArgument("QR login is unsupported"@))
    } else if !v.qr_operations.contains(operation_id) {
        Err(Fault::InvalidArgument("QR login operation is not active"@))
    } else {
        Ok(Some(Callback::QrloginPoll))
    }
}

pub open spec fn qr_settle_fault(
    v: RuntimeView,
    name: Seq<char>,
    operation_id: u64,
    reply: CallbackReply,
) -> Option<Fault> {
    error::first(
        request_fault(qr_poll_request(v, name, operation_id)),
        error::first(
            discover_reply_fault(reply, name),
            replies::qr_state_fault(reply_table(reply)),
        ),
    )
}

pub open spec fn polled_state(reply: CallbackReply) -> QrLoginPollState {
    replies::qr_poll_state(lua::text_field(reply_table(reply), "state"@))->0
}

impl LuaPluginRuntime {
    fn operation(&self, operation_id: u64) -> (r: Option<usize>)
        ensures
            match r {
                Some(i) => i < self.qr_operations@.len() && self.qr_operations@[i as int]
                    == operation_id && self@.qr_operations.contains(operation_id),
                None => !self@.qr_operations.contains(operation_id),
            },
    {
        let mut i: usize = 0;
        while i < self.qr_operations.len()
            invariant
                i <= self.qr_operations@.len(),
                forall|j: int| 0 <= j < i ==> self.qr_operations@[j] != operation_id,
            decreases self.qr_operations@.len() - i,
        {
            if self.qr_operations[i] == operation_id {
                assert(self.qr_operations@.contains(operation_id));
                return Some(i);
            }
            i = i + 1;
        }
        None
    }

    fn drop_operation(&mut self, i: usize)
        requires
            old(self).wf(),
            i < old(self).qr_operations@.len(),
        ensures
            final(self).wf(),
            final(self)@ == (RuntimeView {
                qr_operations: old(self)@.qr_operations.remove(old(self).qr_operations@[i as int]),
                ..old(self)@
            }),
    {
        let ghost before = self.qr_operations@;
        let gone = self.qr_operations.remove(i);
        proof {
            let after = self.qr_operations@;
            assert forall|x: u64| after.contains(x) <==> (before.contains(x) && x != gone) by {
                if after.contains(x) {
                    let j = choose|j: int| 0 <= j < after.len() && after[j] == x;
                    let b = if j < i {
                        j
                    } else {
                        j + 1
                    };
                    assert(before[b] == x);
                }
                if before.contains(x) && x != gone {
                    let b = choose|b: int| 0 <= b < before.len() && before[b] == x;
                    let j = if b < i {
                        b
                    } else {
                        b - 1
                    };
                    assert(after[j] == x);
                }
            }
            assert(after.to_set() =~= before.to_set().remove(gone));
        }
    }

    pub fn prepare_qr_begin(&self, name: &str, action_id: &str) -> (r: Result<
        Option<Callback>,
        Error,
    >)
        requires
            self.wf(),
        ensures
            asks(r, qr_begin_request(self@, name@, action_id@)),
    {
        let plugin = self.plugin(name)?;
        let actions = &plugin.info.actions;
        let ghost shown = views(actions@);
        let mut found = false;
        let mut i: usize = 0;
        while i < actions.len()
            invariant
                i <= actions@.len(),
                shown == views(actions@),
                found == exists|j: int|
                    0 <= j < i && (#[trigger] shown[j]).id == action_id@ && shown[j].kind
                        == SourceActionKind::QrLogin,
            decreases actions@.len() - i,
        {
            assert(shown[i as int] == actions@[i as int]@);
            if same(actions[i].id.as_str(), action_id) && actions[i].kind
                == SourceActionKind::QrLogin {
                found = true;
            }
            i = i + 1;
        }
        if !found {
            return Err(
                Error::InvalidArgument(describe_action(name, action_id, " is not a QR login")),
            );
        }
        if !plugin.callbacks.has(Callback::QrloginBegin) {
            return Err(Error::InvalidArgument("QR login is unsupported".to_owned()));
        }
        Ok(Some(Callback::QrloginBegin))
    }

    /// Begins a QR login, which gets a number of its own.
    pub fn begin_qr_login(&mut self, name: &str, action_id: &str, reply: &CallbackReply) -> (r:
        Result<QrLoginBegin, Error>)
        requires
            old(self).wf(),
        ensures
            final(self).wf(),
            match r {
                Ok(begun) => {
                    let challenge = replies::qr_begin_value(
                        old(self)@.plugins[name@].dialect,
                        reply_table(*reply),
                    );
                    let id = old(self)@.next_qr_operation_id;
                    &&& qr_login_fault(old(self)@, name@, action_id@, *reply) is None
                    &&& begun@ == (QrLoginBeginView {
                        operation_id: id,
                        challenge: challenge.challenge,
                        poll_after_ms: challenge.poll_after_ms,
                        expires_in_ms: challenge.expires_in_ms,
                        title: challenge.title,
                        instruction: challenge.instruction,
                    })
                    &&& final(self)@ == (RuntimeView {
                        qr_operations: old(self)@.qr_operations.insert(id),
                        next_qr_operation_id: next_id(id),
                        ..old(self)@
                    })
                },
                Err(e) => qr_login_fault(old(self)@, name@, action_id@, *reply) == Some(e@)
                    && final(self)@ == old(self)@,
            },
    {
        let ghost before = self@;
        let _ = self.prepare_qr_begin(name, action_id)?;
        let t = discover_table(reply, name)?;
        let dialect = self.plugin(name)?.dialect;
        let challenge = read_qr_begin(dialect, t)?;
        let operation_id = self.next_qr_operation_id;
        self.next_qr_operation_id = if operation_id == u64::MAX {
            1
        } else {
            operation_id + 1
        };
        let ghost known = self.qr_operations@;
        if self.operation(operation_id).is_none() {
            self.qr_operations.push(operation_id);
            proof {
                let after = self.qr_operations@;
                assert forall|x: u64|
                    after.contains(x) <==> (known.contains(x) || x == operation_id) by {
                    if known.contains(x) {
                        let j = choose|j: int| 0 <= j < known.len() && known[j] == x;
                        assert(after[j] == x);
                    }
                    assert(after[known.len() as int] == operation_id);
                }
                assert(after.to_set() =~= known.to_set().insert(operation_id));
                assert(!known.to_set().contains(operation_id));
                assert(after.no_duplicates());
            }
        } else {
            assert(known.to_set() =~= known.to_set().insert(operation_id));
        }
        Ok(
            QrLoginBegin {
                operation_id,
                challenge: challenge.challenge,
                poll_after_ms: challenge.poll_after_ms,
                expires_in_ms: challenge.expires_in_ms,
                title: challenge.title,
                instruction: challenge.instruction,
            },
        )
    }

    pub fn prepare_qr_poll(&self, name: &str, operation_id: u64) -> (r: Result<
        Option<Callback>,
        Error,
    >)
        requires
            self.wf(),
        ensures
            asks(r, qr_poll_request(self@, name@, operation_id)),
    {
        let plugin = self.plugin(name)?;
        if !plugin.callbacks.has(Callback::QrloginPoll) {
            return Err(Error::InvalidArgument("QR login is unsupported".to_owned()));
        }
        if self.operation(operation_id).is_none() {
            return Err(Error::InvalidArgument("QR login operation is not active".to_owned()));
        }
        Ok(Some(Callback::QrloginPoll))
    }

    /// How a QR login stands. A login that has come to its end is over, whatever
    /// else the plugin answers.
    pub fn poll_qr_login(&mut self, name: &str, operation_id: u64, reply: &CallbackReply) -> (r:
        Result<QrLoginPollState, Error>)
        requires
            old(self).wf(),
        ensures
            final(self).wf(),
            match r {
                Ok(state) => {
                    &&& qr_settle_fault(old(self)@, name@, operation_id, *reply) is None
                    &&& state == polled_state(*reply)
                    &&& final(self)@ == (RuntimeView {
                        qr_operations: if replies::is_terminal(state) {
                            old(self)@.qr_operations.remove(operation_id)
                        } else {
                            old(self)@.qr_operations
                        },
                        ..old(self)@
                    })
                },
                Err(e) => qr_settle_fault(old(self)@, name@, operation_id, *reply) == Some(e@)
                    && final(self)@ == old(self)@,
            },
    {
        let _ = self.prepare_qr_poll(name, operation_id)?;
        let t = discover_table(reply, name)?;
        let state = read_qr_state(t)?;
        if terminal(state) {
            if let Some(i) = self.operation(operation_id) {
                self.drop_operation(i);
            }
        }
        Ok(state)
    }

    /// Ends a QR login and names the callback that is to be told of it.
    pub fn cancel_qr_login(&mut self, name: &str, operation_id: u64) -> (r: Option<Callback>)
        requires
            old(self).wf(),
        ensures
            final(self).wf(),
            final(self)@ == (RuntimeView {
                qr_operations: old(self)@.qr_operations.remove(operation_id),
                ..old(self)@
            }),
            r == (if old(self)@.qr_operations.contains(operation_id)
                && old(self)@.plugins.contains_key(name@)
                && old(self)@.plugins[name@].callbacks.contains(Callback::QrloginCancel) {
                Some(Callback::QrloginCancel)
            } else {
                None
            }),
    {
        match self.operation(operation_id) {
            Some(i) => {
                self.drop_operation(i);
                match self.plugins.get(name) {
                    Some(plugin) => if plugin.callbacks.has(Callback::QrloginCancel) {
                        Some(Callback::QrloginCancel)
                    } else {
                        None
                    },
                    None => None,
                }
            },
            None => {
                assert(self@.qr_operations =~= self@.qr_operations.remove(operation_id));
                None
            },
        }
    }
}

/// A QR login that is over is refused from there on.
pub proof fn law_finished_login_is_refused(v: RuntimeView, name: Seq<char>, operation_id: u64)
    ensures
        request_fault(
            qr_poll_request(
                RuntimeView { qr_operations: v.qr_operations.remove(operation_id), ..v },
                name,
                operation_id,
            ),
        ) is Some,
{
}

/// The number of a QR login is never 0.
pub proof fn law_login_number_is_not_zero(id: u64)
    ensures
        next_id(id) != 0,
        next_id(id) != id,
{
}

// ---------------------------------------------------------------------------
// States of plugins

impl LuaPluginRuntime {
    /// The state that a package was last known to keep.
    pub fn saved_state(&self, plugin_id: &str) -> (r: Option<&String>)
        requires
            self.wf(),
        ensures
            match r {
                Some(state) => self@.saved_states.contains_key(plugin_id@)
                    && self@.saved_states[plugin_id@] == Some(state@),
                None => !self@.saved_states.contains_key(plugin_id@)
                    || self@.saved_states[plugin_id@] is None,
            },
    {
        match self.saved_states.get(plugin_id) {
            Some(Some(state)) => Some(state),
            _ => None,
        }
    }

    /// Notes the state that a package keeps.
    pub fn note_state(&mut self, plugin_id: &str, state: Option<String>)
        requires
            old(self).wf(),
        ensures
            final(self).wf(),
            final(self)@ == (RuntimeView {
                saved_states: old(self)@.saved_states.insert(plugin_id@, text::view_of(state)),
                ..old(self)@
            }),
    {
        let ghost before = self@;
        let ghost shown = text::view_of(state);
        self.saved_states.insert(plugin_id.to_owned(), state);
        assert(self@.saved_states =~= before.saved_states.insert(plugin_id@, shown));
    }
}

impl LuaPluginRuntime {
    /// The packages that the plugins come from, in order and each once.
    pub fn package_ids(&self) -> (ids: Vec<String>)
        requires
            self.wf(),
        ensures
            text::ascending(views(ids@)),
            forall|id: Seq<char>| #[trigger]
                views(ids@).contains(id) <==> exists|name: Seq<char>| #[trigger]
                    self@.plugins.contains_key(name) && self@.plugins[name].info.plugin_id == id,
    {
        let mut ids: Vec<String> = Vec::new();
        let n: usize = self.plugins.len();
        let ghost order = self.plugins.order();
        let mut i: usize = 0;
        proof {
            assert(views(ids@) =~= Seq::<Seq<char>>::empty());
            self.plugins.lemma_order();
        }
        while i < n
            invariant
                self.wf(),
                order == self.plugins.order(),
                n == order.len(),
                i <= n,
                text::ascending(views(ids@)),
                forall|k: int|
                    0 <= k < order.len() ==> self.plugins@.contains_key(#[trigger] order[k]),
                forall|id: Seq<char>| #[trigger]
                    views(ids@).contains(id) ==> exists|k: int|
                        0 <= k < i && self@.plugins[#[trigger] order[k]].info.plugin_id == id,
                forall|k: int|
                    0 <= k < i ==> views(ids@).contains(
                        self@.plugins[#[trigger] order[k]].info.plugin_id,
                    ),
            decreases n - i,
        {
            let ghost before = views(ids@);
            let plugin = self.plugins.value_at(i);
            let ghost id = plugin@.info.plugin_id;
            assert(self@.plugins[order[i as int]] == plugin@);
            insert_sorted(&mut ids, plugin.info.plugin_id.as_str());
            proof {
                let after = views(ids@);
                assert forall|x: Seq<char>| #[trigger] after.contains(x) <==> (before.contains(x)
                    || x == id) by {
                    assert(after.to_set().contains(x) == after.contains(x));
                    assert(before.to_set().contains(x) == before.contains(x));
                }
                assert forall|x: Seq<char>| #[trigger] after.contains(x) implies exists|k: int|
                    0 <= k < i + 1 && self@.plugins[#[trigger] order[k]].info.plugin_id == x by {
                    if before.contains(x) {
                        let k = choose|k: int|
                            0 <= k < i && self@.plugins[#[trigger] order[k]].info.plugin_id == x;
                        assert(self@.plugins[order[k]].info.plugin_id == x);
                    } else {
                        assert(self@.plugins[order[i as int]].info.plugin_id == x);
                    }
                }
            }
            i = i + 1;
        }
        proof {
            assert forall|id: Seq<char>| #[trigger] views(ids@).contains(id) <==> exists|
                name: Seq<char>,
            | #[trigger]
                self@.plugins.contains_key(name) && self@.plugins[name].info.plugin_id == id by {
                if views(ids@).contains(id) {
                    let k = choose|k: int|
                        0 <= k < n && self@.plugins[#[trigger] order[k]].info.plugin_id == id;
                    assert(self@.plugins.contains_key(order[k]));
                }
                if exists|name: Seq<char>| #[trigger]
                    self@.plugins.contains_key(name) && self@.plugins[name].info.plugin_id == id {
                    let name = choose|name: Seq<char>| #[trigger]
                        self@.plugins.contains_key(name) && self@.plugins[name].info.plugin_id
                            == id;
                    assert(self.plugins@.contains_key(name));
                    assert(order.contains(name));
                    let k = choose|k: int| 0 <= k < order.len() && order[k] == name;
                    assert(views(ids@).contains(self@.plugins[order[k]].info.plugin_id));
                }
            }
        }
        ids
    }
}

// ---------------------------------------------------------------------------
// Laws on loaded plugins

/// A callback has answered where it has returned; a table is needed by most. A
/// failure is told with the redacted text of the callback.
pub proof fn law_answers(reply: CallbackReply, plugin: Seq<char>)
    ensures
        no_table(reply) is None <==> (reply matches CallbackReply::Returned(value)
            && value is Table),
        no_reply(reply) is None <==> reply is Returned,
        reply matches CallbackReply::Failed(text) ==> no_table(reply) == Some(text@) && no_reply(
            reply,
        ) == Some(text@) && discover_reply_fault(reply, plugin) == Some(
            Fault::DiscoverFailed { plugin, message: redact::redacted(text@) },
        ) && discover_call_fault(reply, plugin) == Some(
            Fault::DiscoverFailed { plugin, message: redact::redacted(text@) },
        ),
        reply matches CallbackReply::Returned(LuaValue::Table(t)) ==> reply_table(reply) == t
            && discover_reply_fault(reply, plugin) is None,
        reply is Returned ==> discover_call_fault(reply, plugin) is None,
        reply matches CallbackReply::Returned(value) ==> (!(value is Table)
            ==> discover_reply_fault(reply, plugin) is Some),
{
}

/// Which plugins scan, detect libraries, search and give tags while they run.
pub proof fn law_roles(info: LoadedPluginInfoView)
    ensures
        plays(info, PluginRole::Source) <==> info.capabilities.source is Some,
        plays(info, PluginRole::AutoDetect) <==> info.capabilities.source is Some
            && info.capabilities.source->0.auto_detect,
        plays(info, PluginRole::Discover) <==> info.capabilities.discover is Some,
        plays(info, PluginRole::DynamicTags) <==> info.capabilities.discover is Some
            && info.capabilities.discover->0.dynamic_tags,
{
}

/// A source of wallpapers is shown with its name, its package, its version, its
/// types, the texts for its libraries and its settings.
pub proof fn law_shown_source(info: LoadedPluginInfoView)
    requires
        info.capabilities.source is Some,
    ensures
        ({
            let shown = source_plugin(info);
            let source = info.capabilities.source->0;
            &&& shown.name == info.name
            &&& shown.plugin_id == info.plugin_id
            &&& shown.version == info.version
            &&& shown.types == source.types
            &&& shown.library_label == source.library_label
            &&& shown.library_hint == source.library_hint
            &&& shown.settings == info.settings
        }),
{
}

/// A remote source is shown under its name, with its package as its owner and
/// with what it declares.
pub proof fn law_shown_remote_source(info: LoadedPluginInfoView)
    requires
        info.capabilities.discover is Some,
    ensures
        ({
            let shown = discover_source(info);
            let discover = info.capabilities.discover->0;
            &&& shown.plugin_id == info.name
            &&& shown.name == info.name
            &&& shown.display_name == info.display_name
            &&& shown.owner_plugin_id == info.plugin_id
            &&& shown.supports_search == discover.supports_search
            &&& shown.remote_capability == discover.remote
            &&& shown.remote_hint == discover.remote_hint
            &&& shown.sorts == discover.sorts
            &&& shown.filters == discover.filters
            &&& shown.settings == info.settings
            &&& shown.actions == info.actions
            &&& shown.status == info.status
            &&& shown.avatar_url.len() == 0
        }),
{
}

/// The wallpapers of a type are those of that type and no others.
pub proof fn law_wallpapers_of_type(
    entries: Seq<WallpaperEntryView>,
    wp_type: Seq<char>,
    entry: WallpaperEntryView,
)
    ensures
        of_type(entries, wp_type).contains(entry) <==> entries.contains(entry) && entry.wp_type
            == wp_type,
        of_type(entries, wp_type).len() <= entries.len(),
{
    let wanted = |entry: WallpaperEntryView| entry.wp_type == wp_type;
    entries.lemma_filter_len(wanted);
    if of_type(entries, wp_type).contains(entry) {
        let i = choose|i: int|
            0 <= i < of_type(entries, wp_type).len() && of_type(entries, wp_type)[i] == entry;
        entries.lemma_filter_pred(wanted, i);
        entries.lemma_filter_contains_rev(wanted, entry);
    }
    if entries.contains(entry) && entry.wp_type == wp_type {
        let i = choose|i: int| 0 <= i < entries.len() && entries[i] == entry;
        entries.lemma_filter_contains(wanted, i);
    }
}

/// A module is loaded exactly where the release of its contract is served, it
/// exports `info()`, its declaration is accepted and every callback is a
/// function. It is kept with its dialect, what it declares and what it exports.
pub proof fn law_loading(
    module: LuaTable,
    table: LuaTable,
    contract: Contract,
    entry_version: u32,
    plugin_id: Seq<char>,
    plugin_version: Seq<char>,
)
    ensures
        load_fault(module, table, contract, entry_version) is None <==> {
            &&& entry::dialect_of(contract, entry_version) matches Some(dialect)
                && info::info_fault(module, table, dialect) is None && callbacks::callbacks_fault(
                dialect,
                module,
            ) is None
            &&& module.field("info"@) is Function
        },
        entry::dialect_of(contract, entry_version) matches Some(dialect) ==> ({
            let kept = loaded(module, table, plugin_id, plugin_version, dialect);
            &&& kept.dialect == dialect
            &&& kept.info.plugin_id == plugin_id
            &&& kept.info.version == plugin_version
            &&& kept.info == info::info_value(dialect, module, table, plugin_id, plugin_version)
            &&& forall|callback: Callback|
                kept.callbacks.contains(callback) <==> callbacks::exported(
                    dialect,
                    module,
                    callback,
                )
        }),
{
}

/// A plugin is scanned exactly where it is a source and exports the scan; one
/// that is no source is passed over, one that is not loaded is not found.
pub proof fn law_scan_requests(v: RuntimeView, name: Seq<char>)
    ensures
        ({
            let r = scan_request(v, name);
            &&& !v.plugins.contains_key(name) ==> r == Err::<Option<Callback>, Fault>(
                Fault::SourcePluginNotFound(name),
            )
            &&& v.plugins.contains_key(name) && v.plugins[name].info.capabilities.source is None
                ==> r == Ok::<Option<Callback>, Fault>(None)
            &&& v.plugins.contains_key(name) && v.plugins[name].info.capabilities.source is Some
                ==> (
            r == Ok::<Option<Callback>, Fault>(Some(Callback::SourceScan))
                <==> v.plugins[name].callbacks.contains(Callback::SourceScan))
            &&& r is Err || r == Ok::<Option<Callback>, Fault>(None) || r == Ok::<
                Option<Callback>,
                Fault,
            >(Some(Callback::SourceScan))
        }),
{
}

/// A scan of a plugin succeeds exactly where the plugin is no source, or has
/// answered with a table of rows that can be read; what it adds are the rows
/// that were read, under the name of the plugin.
pub proof fn law_scan_of_a_plugin(v: RuntimeView, name: Seq<char>, reply: CallbackReply)
    ensures
        scan_request(v, name) is Ok && scan_request(v, name)->Ok_0 is Some ==> {
            &&& scan_plugin_fault(v, name, reply) is None <==> (
            reply matches CallbackReply::Returned(LuaValue::Table(t)) && replies::scan_fault(
                t.sequence@,
            ) is None)
            &&& reply matches CallbackReply::Returned(LuaValue::Table(t)) ==> scan_plugin_value(
                v,
                name,
                reply,
            ) == replies::scan_value(v.plugins[name].dialect, t.sequence@, name)
            &&& !(reply matches CallbackReply::Returned(value) && value is Table)
                ==> scan_plugin_value(v, name, reply).len() == 0
        },
        scan_request(v, name) == Ok::<Option<Callback>, Fault>(None) ==> scan_plugin_fault(
            v,
            name,
            reply,
        ) is None && scan_plugin_value(v, name, reply).len() == 0,
        scan_request(v, name) is Err ==> scan_plugin_fault(v, name, reply) is Some
            && scan_plugin_value(v, name, reply).len() == 0,
{
    law_scan_requests(v, name);
}

/// A scan of all plugins fails exactly where that of one has failed.
pub proof fn law_scan_of_all(failures: Seq<Seq<char>>)
    ensures
        scan_failure(failures) is None <==> failures.len() == 0,
        scan_failure(failures) matches Some(fault) ==> fault == Fault::Internal(
            "source scan failed for "@ + text::join(failures, "; "@),
        ),
{
}

/// Tags are asked of a plugin that exports them, and accepted where they are a
/// list of strings.
pub proof fn law_tag_requests(v: RuntimeView, name: Seq<char>, reply: CallbackReply)
    ensures
        !v.plugins.contains_key(name) ==> tags_request(v, name) == Err::<Option<Callback>, Fault>(
            Fault::SourcePluginNotFound(name),
        ),
        v.plugins.contains_key(name) ==> (tags_request(v, name) == Ok::<Option<Callback>, Fault>(
            Some(Callback::DiscoverTags),
        ) <==> v.plugins[name].callbacks.contains(Callback::DiscoverTags)),
        tags_fault(v, name, reply) is None <==> v.plugins.contains_key(name)
            && v.plugins[name].callbacks.contains(Callback::DiscoverTags) && (
        reply matches CallbackReply::Returned(LuaValue::Table(t)) && lua::sequence_defect(
            t.sequence@,
            0,
        ) is None),
{
}

/// Tags that a plugin gives while it runs replace its filters by one of which
/// any number can be selected; no tags, or a plugin without searches, change
/// nothing.
pub proof fn law_retagged(info: LoadedPluginInfoView, tags: Seq<Seq<char>>)
    ensures
        ({
            let after = retagged(info, tags);
            &&& tags.len() == 0 || info.capabilities.discover is None ==> after == info
            &&& tags.len() > 0 && info.capabilities.discover is Some ==> {
                let before = info.capabilities.discover->0;
                let discover = after.capabilities.discover->0;
                &&& after.capabilities.discover is Some
                &&& discover.filters == filters::legacy_filter(tags)
                &&& discover.sorts == before.sorts && discover.remote == before.remote
                &&& discover.remote_hint == before.remote_hint && discover.dynamic_tags
                    == before.dynamic_tags
                &&& discover.supports_search == before.supports_search
                    && discover.supports_details == before.supports_details
                &&& discover.supports_download == before.supports_download
                    && discover.supports_resolve == before.supports_resolve
            }
            &&& after.name == info.name && after.plugin_id == info.plugin_id && after.version
                == info.version && after.display_name == info.display_name
            &&& after.settings == info.settings && after.actions == info.actions && after.status
                == info.status && after.state_migrations == info.state_migrations
            &&& after.capabilities.source == info.capabilities.source
                && after.capabilities.wallpaper == info.capabilities.wallpaper
                && after.capabilities.lifecycle == info.capabilities.lifecycle
                && after.capabilities.source_item_remove == info.capabilities.source_item_remove
        }),
{
}

/// A QR login is begun with an action that is one, and by a plugin that exports
/// it; it is polled by a plugin that exports it while it is under way.
pub proof fn law_qr_requests(
    v: RuntimeView,
    name: Seq<char>,
    action_id: Seq<char>,
    operation_id: u64,
)
    ensures
        qr_begin_request(v, name, action_id) == Ok::<Option<Callback>, Fault>(
            Some(Callback::QrloginBegin),
        ) <==> v.plugins.contains_key(name) && v.plugins[name].callbacks.contains(
            Callback::QrloginBegin,
        ) && exists|i: int|
            0 <= i < v.plugins[name].info.actions.len() && (
            #[trigger] v.plugins[name].info.actions[i]).id == action_id
                && v.plugins[name].info.actions[i].kind is QrLogin,
        qr_begin_request(v, name, action_id) is Err || qr_begin_request(v, name, action_id) == Ok::<
            Option<Callback>,
            Fault,
        >(Some(Callback::QrloginBegin)),
        qr_poll_request(v, name, operation_id) == Ok::<Option<Callback>, Fault>(
            Some(Callback::QrloginPoll),
        ) <==> v.plugins.contains_key(name) && v.plugins[name].callbacks.contains(
            Callback::QrloginPoll,
        ) && v.qr_operations.contains(operation_id),
        qr_poll_request(v, name, operation_id) is Err || qr_poll_request(v, name, operation_id)
            == Ok::<Option<Callback>, Fault>(Some(Callback::QrloginPoll)),
        !v.plugins.contains_key(name) ==> qr_begin_request(v, name, action_id) == Err::<
            Option<Callback>,
            Fault,
        >(Fault::SourcePluginNotFound(name)) && qr_poll_request(v, name, operation_id) == Err::<
            Option<Callback>,
            Fault,
        >(Fault::SourcePluginNotFound(name)),
{
    if v.plugins.contains_key(name) {
        let actions = v.plugins[name].info.actions;
        if exists|i: int|
            0 <= i < actions.len() && (#[trigger] actions[i]).id == action_id
                && actions[i].kind is QrLogin {
            let i = choose|i: int|
                0 <= i < actions.len() && (#[trigger] actions[i]).id == action_id
                    && actions[i].kind is QrLogin;
            assert(actions[i].kind == SourceActionKind::QrLogin);
        }
        if is_qr_login(actions, action_id) {
            let i = choose|i: int|
                0 <= i < actions.len() && (#[trigger] actions[i]).id == action_id
                    && actions[i].kind == SourceActionKind::QrLogin;
            assert(actions[i].kind is QrLogin);
        }
    }
}

/// A QR login begins, and a poll of it is settled, exactly where it may be asked
/// for and the plugin answers with what is needed.
pub proof fn law_qr_answers(
    v: RuntimeView,
    name: Seq<char>,
    action_id: Seq<char>,
    operation_id: u64,
    reply: CallbackReply,
)
    ensures
        qr_login_fault(v, name, action_id, reply) is None <==> qr_begin_request(
            v,
            name,
            action_id,
        ) is Ok && (reply matches CallbackReply::Returned(LuaValue::Table(t))
            && replies::qr_begin_fault(v.plugins[name].dialect, t) is None),
        qr_settle_fault(v, name, operation_id, reply) is None <==> qr_poll_request(
            v,
            name,
            operation_id,
        ) is Ok && (reply matches CallbackReply::Returned(LuaValue::Table(t))
            && replies::qr_state_fault(t) is None),
{
}

/// The numbers of QR logins follow each other, and begin anew after the last.
pub proof fn law_login_numbers(id: u64)
    ensures
        id < u64::MAX ==> next_id(id) == id + 1,
        id == u64::MAX ==> next_id(id) == 1,
{
}

// ---------------------------------------------------------------------------
// What is told of what is refused

/// A release that is not served is told of with those that are.
pub proof fn law_refused_release(contract: Contract, entry_version: u32)
    ensures
        ({
            version_fault(contract, entry_version)
                == (if !(entry::dialect_of(contract, entry_version) is Some) {
                Some(
                    Fault::Internal(
                        "unsupported Lua entry_version "@ + text::decimal(entry_version as int)
                            + "; supported versions are "@ + entry::supported_text(contract),
                    ),
                )
            } else {
                None
            })
        }),
{
}

/// A plugin is refused for its release, then for its module, then for its
/// declaration, then for its callbacks.
pub proof fn law_refused_load(
    module: LuaTable,
    table: LuaTable,
    contract: Contract,
    entry_version: u32,
)
    ensures
        ({
            let dialect = entry::dialect_of(contract, entry_version)->0;
            let version = version_fault(contract, entry_version);
            let info_export = info::info_export_fault(module);
            let info = info::info_fault(module, table, dialect);
            let callbacks = callbacks::callbacks_fault(dialect, module);
            load_fault(module, table, contract, entry_version) == (if version is Some {
                version
            } else if info_export is Some {
                info_export
            } else if info is Some {
                info
            } else if callbacks is Some {
                callbacks
            } else {
                None
            })
        }),
{
}

/// A call for tags fails for the request, then for the call or the reply.
pub proof fn law_refused_tags_call(v: RuntimeView, name: Seq<char>, reply: CallbackReply)
    ensures
        ({
            let request = request_fault(tags_request(v, name));
            let rule = match no_texts(reply) {
                Some(text) => Some(replies::failed(name, redact::redacted(text))),
                None => None,
            };
            tags_fault(v, name, reply) == (if request is Some {
                request
            } else if rule is Some {
                rule
            } else {
                None
            })
        }),
{
}

/// A login fails to begin for the request, then for the call, then for the reply.
pub proof fn law_refused_login_call(
    v: RuntimeView,
    name: Seq<char>,
    action_id: Seq<char>,
    reply: CallbackReply,
)
    ensures
        ({
            let request = request_fault(qr_begin_request(v, name, action_id));
            let discover_reply = discover_reply_fault(reply, name);
            let qr_begin = replies::qr_begin_fault(v.plugins[name].dialect, reply_table(reply));
            qr_login_fault(v, name, action_id, reply) == (if request is Some {
                request
            } else if discover_reply is Some {
                discover_reply
            } else if qr_begin is Some {
                qr_begin
            } else {
                None
            })
        }),
{
}

/// A poll of a login fails for the request, then for the call, then for the reply.
pub proof fn law_refused_poll_call(
    v: RuntimeView,
    name: Seq<char>,
    operation_id: u64,
    reply: CallbackReply,
)
    ensures
        ({
            let request = request_fault(qr_poll_request(v, name, operation_id));
            let discover_reply = discover_reply_fault(reply, name);
            let qr_state = replies::qr_state_fault(reply_table(reply));
            qr_settle_fault(v, name, operation_id, reply) == (if request is Some {
                request
            } else if discover_reply is Some {
                discover_reply
            } else if qr_state is Some {
                qr_state
            } else {
                None
            })
        }),
{
}

/// A scan that fails, or gives no table, is told of by the plugin, with its
/// message without the secrets.
pub proof fn law_failed_scans(reply: CallbackReply, plugin: Seq<char>, why: String, value: LuaValue)
    ensures
        reply == CallbackReply::Failed(why) ==> scan_reply_fault(reply, plugin) == Some(
            Fault::Internal(
                "source plugin '"@ + plugin + "' scan failed: "@ + redact::redacted(why@),
            ),
        ),
        reply == CallbackReply::Returned(value) && !(value is Table) ==> {
            let told = "error converting Lua "@ + value.kind() + " to table"@;
            &&& scan_reply_fault(reply, plugin) == Some(
                Fault::Internal(
                    "source plugin '"@ + plugin + "' scan failed: "@ + redact::redacted(told),
                ),
            )
            &&& discover_reply_fault(reply, plugin) == Some(
                Fault::DiscoverFailed { plugin, message: redact::redacted(told) },
            )
            &&& no_texts(reply) == Some(
                "error converting Lua "@ + value.kind() + " to Vec<String> (expected table)"@,
            )
        },
        reply == CallbackReply::Returned(value) && value is Table
            ==> scan_reply_fault(reply, plugin)
            is None,
{
}

/// A scan fails for the request, then for the call, then for the reply; a source
/// without its function is not found.
pub proof fn law_refused_scan(v: RuntimeView, name: Seq<char>, reply: CallbackReply)
    ensures
        scan_request(v, name) matches Err(fault) ==> scan_plugin_fault(v, name, reply) == Some(
            fault,
        ) && fault == Fault::SourcePluginNotFound(name),
        scan_request(v, name) == Ok::<Option<Callback>, Fault>(Some(Callback::SourceScan)) ==> {
            &&& scan_reply_fault(reply, name) is Some ==> scan_plugin_fault(v, name, reply)
                == scan_reply_fault(reply, name)
            &&& reply matches CallbackReply::Returned(LuaValue::Table(t)) ==> scan_plugin_fault(
                v,
                name,
                reply,
            ) == replies::scan_fault(t.sequence@)
        },
{
}

/// What is told of a login that is refused.
pub proof fn law_refused_logins(
    v: RuntimeView,
    name: Seq<char>,
    action_id: Seq<char>,
    operation_id: u64,
)
    requires
        v.plugins.contains_key(name),
    ensures
        ({
            let p = v.plugins[name];
            let unsupported = Err::<Option<Callback>, Fault>(
                Fault::InvalidArgument("QR login is unsupported"@),
            );
            &&& !is_qr_login(p.info.actions, action_id) ==> qr_begin_request(v, name, action_id)
                == Err::<Option<Callback>, Fault>(
                Fault::InvalidArgument(
                    "plugin action '"@ + name + ":"@ + action_id + "'"@ + " is not a QR login"@,
                ),
            )
            &&& is_qr_login(p.info.actions, action_id) && !p.callbacks.contains(
                Callback::QrloginBegin,
            ) ==> qr_begin_request(v, name, action_id) == unsupported
            &&& !p.callbacks.contains(Callback::QrloginPoll) ==> qr_poll_request(
                v,
                name,
                operation_id,
            ) == unsupported
            &&& p.callbacks.contains(Callback::QrloginPoll) && !v.qr_operations.contains(
                operation_id,
            ) ==> qr_poll_request(v, name, operation_id) == Err::<Option<Callback>, Fault>(
                Fault::InvalidArgument("QR login operation is not active"@),
            )
            &&& !p.callbacks.contains(Callback::DiscoverTags) ==> tags_request(v, name) == Err::<
                Option<Callback>,
                Fault,
            >(Fault::DiscoverUnsupported(name))
        }),
{
}

/// A daemon begins without plugins, wallpapers, states and logins, and counts
/// logins from one.
pub proof fn law_nothing_at_first()
    ensures
        RuntimeView::empty().plugins == Map::<Seq<char>, LoadedPluginView>::empty(),
        RuntimeView::empty().entries == Seq::<WallpaperEntryView>::empty(),
        RuntimeView::empty().saved_states == Map::<Seq<char>, Option<Seq<char>>>::empty(),
        RuntimeView::empty().qr_operations == Set::<u64>::empty(),
        RuntimeView::empty().next_qr_operation_id == 1,
{
}

/// What is said of a `LoadedPlugin` is said of its own fields.
pub proof fn law_loaded_plugin_in_contracts(plugin: LoadedPlugin)
    ensures
        plugin@.dialect == plugin.dialect,
        plugin@.info == plugin.info@,
        plugin@.callbacks == plugin.callbacks@,
{
}

/// A request is answered with the callback to make, with none, or with the fault
/// that keeps it from being made.
pub proof fn law_requests(
    wanted: Result<Option<Callback>, Fault>,
    callback: Option<Callback>,
    e: Error,
    fault: Fault,
)
    ensures
        asks(Ok(callback), wanted) <==> wanted == Ok::<Option<Callback>, Fault>(callback),
        asks(Err(e), wanted) <==> wanted == Err::<Option<Callback>, Fault>(e@),
        request_fault(Ok(callback)) is None,
        request_fault(Err(fault)) == Some(fault),
{
}

/// The wallpaper with a number is the first of that number.
pub proof fn law_wallpaper_with_a_number(
    entries: Seq<WallpaperEntryView>,
    id: Seq<char>,
    i: int,
    j: int,
)
    requires
        is_first_with_id(entries, id, i),
    ensures
        0 <= i < entries.len(),
        text::decimal(entries[i].item_id as int) == id,
        is_first_with_id(entries, id, j) ==> i == j,
{
}

/// A plugin that is not loaded is not found.
pub proof fn law_missing_plugin(v: RuntimeView, name: Seq<char>)
    ensures
        v.plugins.contains_key(name) ==> v.missing(name) is None,
        !v.plugins.contains_key(name) ==> v.missing(name) == Some(
            Fault::SourcePluginNotFound(name),
        ),
{
}

} // verus!
