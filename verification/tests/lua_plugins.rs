use mlua::{Function, Lua, MultiValue, Table, UserData, Value, Variadic};
use std::collections::HashMap;
use std::sync::{Arc, Mutex};
use waywallen::error::Error;
use waywallen::map::TextMap;
use waywallen::plugin::i18n::LocalizedText;
use waywallen::plugin::lua::{LuaField, LuaNumber, LuaPair, LuaString, LuaTable, LuaValue};
use waywallen::plugin::source::answers::{
    DiscoverDetails, DiscoverDownload, DiscoverResolve, DiscoverSearchResult, DiscoverSourceInfo,
    PluginLifecycleCheck, PluginLifecycleState, QrLoginBegin, QrLoginPoll, QrLoginPollState,
    SubscriptionSetResult, SubscriptionState, SubscriptionStatusResult, WallpaperApply,
};
use waywallen::plugin::source::callbacks::Callback;
use waywallen::plugin::source::catalog::ScanOutcome;
use waywallen::plugin::source::context::{
    import_candidates, probe_table, read_window, resolve_plugin_import, text_list, tr,
    wallpaper_entry_table,
};
use waywallen::plugin::source::entry::{
    Contract, ENTRY_VERSION_V2, ENTRY_VERSION_V3, ENTRY_VERSION_V4, LATEST_ENTRY_VERSION,
};
use waywallen::plugin::source::info::require_info_function;
use waywallen::plugin::source::interface::{
    context_for, context_places, ContextKind, HostPart,
};
use waywallen::plugin::source::replies::{read_qr_poll, DEFAULT_POLL_AFTER_MS};
use waywallen::plugin::source::requests::{
    action_values, discover_params, resolve_params, ItemRequest, PropertySchema,
};
use waywallen::plugin::source::runtime::{
    admit_callback, check_entry_version, take_table, CallbackReply, LuaPluginRuntime, PluginRole,
};
use waywallen::plugin::source::schema::normalize_localized_value;
use waywallen::plugin::source::state::SetupKind;
use waywallen::plugin::source::types::{RemoteCapability, SourceActionKind};
use waywallen::plugin::source_manager::{
    discover_sources_with_status, LuaPluginRegistry, PluginHandles, SourceState,
};
use waywallen::wallpaper::types::WallpaperEntry;

// ---------------------------------------------------------------------------
// Values

/// What `tr()` hands to Lua.
struct Marked(LocalizedText);

impl UserData for Marked {}

fn whole(lua: &Lua, value: &Value) -> Option<i128> {
    if let Ok(Some(n)) = lua.coerce_integer(value.clone()) {
        return Some(i128::from(n));
    }
    match lua.coerce_number(value.clone()) {
        Ok(Some(n)) if !n.is_nan() => Some(n.trunc() as i128),
        _ => None,
    }
}

fn defect(string: &mlua::String) -> String {
    match std::str::from_utf8(&string.as_bytes()) {
        Ok(_) => String::new(),
        Err(e) => e.to_string(),
    }
}

fn to_value(lua: &Lua, value: &Value) -> LuaValue {
    match value {
        Value::Nil => LuaValue::Nil,
        Value::Boolean(b) => LuaValue::Boolean(*b),
        Value::Integer(n) => LuaValue::Integer(*n),
        Value::Number(n) => {
            let coerced = lua.coerce_string(value.clone()).unwrap().unwrap();
            LuaValue::Number(LuaNumber {
                coerced: coerced.to_str().unwrap().to_owned(),
                shown: n.to_string(),
                exact: matches!(lua.coerce_integer(value.clone()), Ok(Some(_))),
                whole: whole(lua, value),
            })
        }
        Value::String(s) => LuaValue::Text(LuaString {
            text: s.to_str().ok().map(|s| s.to_owned()),
            defect: defect(s),
            whole: whole(lua, value),
        }),
        Value::Table(t) => LuaValue::Table(to_table(lua, t)),
        Value::Function(_) => LuaValue::Function,
        Value::UserData(data) => match data.borrow::<Marked>() {
            Ok(marked) => LuaValue::Localized(marked.0.clone()),
            Err(_) => LuaValue::Other("userdata".to_owned()),
        },
        _ => LuaValue::Other("userdata".to_owned()),
    }
}

fn to_table(lua: &Lua, table: &Table) -> LuaTable {
    let mut sequence = Vec::new();
    loop {
        let value: Value = table.raw_get(sequence.len() + 1).unwrap();
        if value.is_nil() {
            break;
        }
        sequence.push(to_value(lua, &value));
    }
    let mut fields = Vec::new();
    let mut others = Vec::new();
    for pair in table.pairs::<Value, Value>() {
        let (key, value) = pair.unwrap();
        if let Value::Integer(n) = key {
            if n >= 1 && n as usize <= sequence.len() {
                continue;
            }
        }
        let name = match &key {
            Value::String(s) => s.to_str().ok().map(|s| s.to_owned()),
            _ => None,
        };
        let value = to_value(lua, &value);
        match name {
            Some(key) => fields.push(LuaField { key, value }),
            None => others.push(LuaPair { key: to_value(lua, &key), value }),
        }
    }
    LuaTable { fields, sequence, others }
}

fn from_value(lua: &Lua, value: &LuaValue) -> Value {
    match value {
        LuaValue::Boolean(b) => Value::Boolean(*b),
        LuaValue::Integer(n) => Value::Integer(*n),
        LuaValue::Text(s) => {
            Value::String(lua.create_string(s.text.as_deref().unwrap_or_default()).unwrap())
        }
        LuaValue::Table(t) => Value::Table(from_table(lua, t)),
        _ => Value::Nil,
    }
}

fn from_table(lua: &Lua, table: &LuaTable) -> Table {
    let out = lua.create_table().unwrap();
    for (i, value) in table.sequence.iter().enumerate() {
        out.raw_set(i + 1, from_value(lua, value)).unwrap();
    }
    for field in &table.fields {
        out.raw_set(field.key.as_str(), from_value(lua, &field.value)).unwrap();
    }
    out
}

fn to_json(value: &LuaValue) -> serde_json::Value {
    match value {
        LuaValue::Boolean(b) => serde_json::Value::from(*b),
        LuaValue::Integer(n) => serde_json::Value::from(*n),
        LuaValue::Text(s) => serde_json::Value::from(s.text.clone()),
        LuaValue::Table(t) if !t.sequence.is_empty() => {
            serde_json::Value::Array(t.sequence.iter().map(to_json).collect())
        }
        LuaValue::Table(t) => serde_json::Value::Object(
            t.fields.iter().map(|f| (f.key.clone(), to_json(&f.value))).collect(),
        ),
        _ => serde_json::Value::Null,
    }
}

fn text_map(pairs: &[(&str, &str)]) -> TextMap<String> {
    let mut map = TextMap::new();
    for (key, value) in pairs {
        map.insert(key.to_string(), value.to_string());
    }
    map
}

fn internal(text: String) -> Error {
    Error::Internal(text)
}

// ---------------------------------------------------------------------------
// A host without files and network

/// The one file that plugins can read, with a byte that is no text.
const CONTAINER_PATH: &str = "/library/container.bin";
const CONTAINER: &[u8] = b"HEAD\xffTAIL";

/// The files that states are kept in.
#[derive(Clone, Default)]
struct Store {
    states: Arc<Mutex<HashMap<String, String>>>,
    legacy: Arc<Mutex<HashMap<String, String>>>,
    preserved: Arc<Mutex<Vec<String>>>,
}

struct Host {
    contract: Contract,
    lua: Lua,
    module: Table,
    runtime: LuaPluginRuntime,
    qr_keys: HashMap<u64, Value>,
    removed: Arc<Mutex<Vec<String>>>,
}

struct Manager {
    contract: Contract,
    registry: LuaPluginRegistry,
    handles: PluginHandles,
    hosts: Vec<Host>,
    store: Store,
}

/// The plugin's globals: `import` and `tr` beside those of Lua.
fn environment(lua: &Lua, files: &[(&str, &str)], plugin_id: &str) -> Table {
    let env = lua.create_table().unwrap();
    let base = lua.create_table().unwrap();
    base.set("__index", lua.globals()).unwrap();
    env.set_metatable(Some(base));
    let files: Vec<(String, String)> =
        files.iter().map(|(path, text)| (format!("/plugin/{path}"), text.to_string())).collect();
    let shared = env.clone();
    let import = lua
        .create_function(move |lua, name: String| {
            let fail = mlua::Error::runtime;
            let (file, directory) = import_candidates("/plugin", &name).map_err(fail)?;
            let known = |path: &str| files.iter().find(|(p, _)| p == path).map(|f| f.0.clone());
            let path = resolve_plugin_import("/plugin", &name, known(&file), known(&directory))
                .map_err(fail)?;
            let text = &files.iter().find(|(p, _)| *p == path).unwrap().1;
            lua.load(text).set_environment(shared.clone()).eval::<Value>()
        })
        .unwrap();
    env.set("import", import).unwrap();
    let owner = plugin_id.to_owned();
    let mark = lua
        .create_function(move |lua, arguments: Variadic<Value>| {
            let values = arguments.iter().map(|v| to_value(lua, v)).collect();
            match tr(&owner, &values) {
                Ok(text) => lua.create_userdata(Marked(text)),
                Err(message) => Err(mlua::Error::runtime(message)),
            }
        })
        .unwrap();
    env.set("tr", mark).unwrap();
    env
}

fn read_bytes(lua: &Lua, (path, offset, len): (String, i64, i64)) -> mlua::Result<Value> {
    let (from, count) = match read_window(offset, len) {
        Some(window) => window,
        None => return Ok(Value::Nil),
    };
    let window = CONTAINER.iter().skip(from as usize).take(count as usize);
    let bytes: Vec<u8> = window.copied().collect();
    if path != CONTAINER_PATH || bytes.is_empty() {
        return Ok(Value::Nil);
    }
    Ok(Value::String(lua.create_string(&bytes)?))
}

impl Host {
    fn context(&self, kind: ContextKind) -> Table {
        let ctx = self.lua.create_table().unwrap();
        for place in context_places(kind, self.contract) {
            let value = self.part(place.part);
            if place.group.is_empty() {
                ctx.set(place.name, value).unwrap();
            } else {
                let group = match ctx.get::<Option<Table>>(place.group).unwrap() {
                    Some(group) => group,
                    None => self.lua.create_table().unwrap(),
                };
                group.set(place.name, value).unwrap();
                ctx.set(place.group, group).unwrap();
            }
        }
        ctx
    }

    /// The parts that plugins use here; the others do nothing.
    fn part(&self, part: HostPart) -> Value {
        let function = match part {
            HostPart::RemoveFile => {
                let removed = self.removed.clone();
                self.lua.create_function(move |_, path: String| {
                    removed.lock().unwrap().push(path);
                    Ok(())
                })
            }
            HostPart::Probe => self.lua.create_function(|lua, _: String| {
                Ok(probe_table(None, Some(1920), Some(1080)).map(|t| from_table(lua, &t)))
            }),
            HostPart::ReadBytes => self.lua.create_function(read_bytes),
            HostPart::Json => {
                let json = self.lua.create_table().unwrap();
                json.set("parse", self.part(HostPart::JsonParse)).unwrap();
                json.set("encode", self.part(HostPart::JsonEncode)).unwrap();
                return Value::Table(json);
            }
            _ => self.lua.create_function(|_, _: Variadic<Value>| Ok(())),
        };
        Value::Function(function.unwrap())
    }

    fn function(&self, name: &str, callback: Callback) -> Function {
        let dialect = self.runtime.plugin(name).unwrap().dialect;
        let api: Table = self.module.get(callback.table_name()).unwrap();
        api.get(callback.function_name(dialect)).unwrap()
    }

    fn call(&self, name: &str, callback: Callback, args: Vec<Value>) -> CallbackReply {
        let function = self.function(name, callback);
        match function.call::<Value>(MultiValue::from_vec(args)) {
            Ok(value) => CallbackReply::Returned(to_value(&self.lua, &value)),
            Err(error) => CallbackReply::Failed(error.to_string()),
        }
    }

    fn text(&self, text: &str) -> Value {
        Value::String(self.lua.create_string(text).unwrap())
    }

    fn entry(&self, entry: &WallpaperEntry) -> Value {
        let root = format!("{}/", entry.library_root);
        let relative = entry.resource.strip_prefix(&root).map(str::to_owned);
        Value::Table(from_table(&self.lua, &wallpaper_entry_table(entry, &relative)))
    }

    fn persist(&mut self, name: &str, store: &Store) -> Result<(), Error> {
        if let Some(callback) = self.runtime.persist_state(name)? {
            let state = match self.call(name, callback, Vec::new()) {
                CallbackReply::Returned(value) => value.to_text().unwrap(),
                CallbackReply::Failed(text) => return Err(internal(text)),
            };
            let id = self.runtime.plugin(name)?.info.plugin_id.clone();
            let written = self.runtime.state_changed(&id, &state);
            if written {
                store.states.lock().unwrap().insert(id.clone(), state.clone());
            }
            self.runtime.record_state(&id, state, written);
        }
        Ok(())
    }

    /// Sets the state of a plugin up.
    fn set_up(&mut self, name: &str, store: &Store) -> Result<(), Error> {
        let id = self.runtime.plugin(name)?.info.plugin_id.clone();
        let mut setup = match self.runtime.initialize_state(name)? {
            Some(setup) => setup,
            None => return Ok(()),
        };
        let can_migrate = self.runtime.plugin(name)?.callbacks.has(Callback::LifecycleMigrate);
        loop {
            let at_hand = setup.text().clone();
            let answer = match setup.kind() {
                SetupKind::ReadStored => store.states.lock().unwrap().get(&id).cloned(),
                SetupKind::ReadLegacy => {
                    let file = setup.migration().unwrap().file.clone();
                    store.legacy.lock().unwrap().get(&file).cloned()
                }
                SetupKind::Migrate => {
                    let schema = setup.migration().unwrap().schema_id.clone();
                    let args = vec![self.text(&schema), self.text(at_hand.as_deref().unwrap())];
                    match self.call(name, Callback::LifecycleMigrate, args) {
                        CallbackReply::Returned(value) => value.to_text(),
                        CallbackReply::Failed(text) => return Err(internal(text)),
                    }
                }
                SetupKind::LoadStored | SetupKind::LoadMigrated | SetupKind::LoadNothing => {
                    let blob = match &at_hand {
                        Some(text) => self.text(text),
                        None => Value::Nil,
                    };
                    match self.call(name, Callback::LifecycleLoad, vec![blob]) {
                        CallbackReply::Returned(_) => None,
                        CallbackReply::Failed(text) => return Err(internal(text)),
                    }
                }
                SetupKind::SaveMigrated => {
                    store.states.lock().unwrap().insert(id.clone(), at_hand.unwrap());
                    None
                }
                SetupKind::PreserveLegacy => {
                    let file = setup.migration().unwrap().file.clone();
                    store.legacy.lock().unwrap().remove(&file);
                    store.preserved.lock().unwrap().push(file);
                    None
                }
                SetupKind::Finished => {
                    self.runtime.note_state(&id, at_hand);
                    return Ok(());
                }
            };
            setup.advance(can_migrate, answer)?;
        }
    }
}

impl Manager {
    fn new(contract: Contract) -> Self {
        Manager {
            contract,
            registry: LuaPluginRegistry::new(),
            handles: PluginHandles::new(),
            hosts: Vec::new(),
            store: Store::default(),
        }
    }

    fn plain() -> Self {
        Manager::new(Contract::Plain)
    }

    fn localized() -> Self {
        Manager::new(Contract::Localized)
    }

    /// A registry that shares the plugins of this one.
    fn candidate(&mut self) -> LuaPluginRegistry {
        LuaPluginRegistry::new()
    }

    fn host_for(
        &self,
        files: &[(&str, &str)],
        plugin_id: &str,
        version: &str,
        entry_version: u32,
    ) -> Result<(Host, String), Error> {
        check_entry_version(self.contract, entry_version)?;
        let lua = Lua::new();
        let env = environment(&lua, files, plugin_id);
        let module: Table = lua
            .load(files[0].1)
            .set_environment(env)
            .eval()
            .map_err(|e| internal(format!("eval: {e}")))?;
        let exported = to_table(&lua, &module);
        require_info_function(&exported)?;
        let info_fn: Function = module.get("info").unwrap();
        let info: Table =
            info_fn.call(()).map_err(|e| internal(format!("info() failed: {e}")))?;
        let info = to_table(&lua, &info);
        let mut host = Host {
            contract: self.contract,
            lua,
            module,
            runtime: LuaPluginRuntime::new(),
            qr_keys: HashMap::new(),
            removed: Arc::default(),
        };
        let name = host.runtime.load_plugin(
            &exported,
            &info,
            plugin_id,
            version,
            self.contract,
            entry_version,
        )?;
        host.set_up(&name, &self.store)?;
        Ok((host, name))
    }

    fn load_files(
        &mut self,
        files: &[(&str, &str)],
        plugin_id: &str,
        version: &str,
        entry_version: u32,
    ) -> Result<String, Error> {
        let (host, name) = self.host_for(files, plugin_id, version, entry_version)?;
        let info = host.runtime.loaded_plugin_info(&name).unwrap();
        self.registry.load_plugin(info, &mut self.handles)?;
        self.hosts.push(host);
        Ok(name)
    }

    fn load(
        &mut self,
        source: &str,
        plugin_id: &str,
        version: &str,
        entry_version: u32,
    ) -> Result<String, Error> {
        self.load_files(&[("main.lua", source)], plugin_id, version, entry_version)
    }

    fn host(&mut self, name: &str) -> Result<&mut Host, Error> {
        let id = self.registry.handle(name, &self.handles)?;
        Ok(&mut self.hosts[id])
    }

    /// Asks a callback, unless the plugin's generation is over.
    fn ask(&mut self, name: &str, callback: Callback, args: Vec<Value>) -> CallbackReply {
        let id = self.registry.handle(name, &self.handles).unwrap();
        match admit_callback(self.handles.state(id)) {
            Ok(()) => self.hosts[id].call(name, callback, args),
            Err(reply) => reply,
        }
    }

    fn ctx(&mut self, name: &str, callback: Callback) -> Value {
        let kind = context_for(callback).unwrap();
        Value::Table(self.host(name).unwrap().context(kind))
    }

    fn text(&mut self, name: &str, text: &str) -> Value {
        self.host(name).unwrap().text(text)
    }

    fn persist(&mut self, name: &str) -> Result<(), Error> {
        let store = self.store.clone();
        self.host(name)?.persist(name, &store)
    }

    fn scan_all(&mut self) -> Result<(), Error> {
        let mut outcomes = Vec::new();
        for name in self.registry.names_with(PluginRole::Source, &self.handles) {
            self.host(&name)?.runtime.scan_all();
            let callback = self.host(&name)?.runtime.prepare_scan(&name)?.unwrap();
            let ctx = self.ctx(&name, callback);
            let reply = self.ask(&name, callback, vec![ctx]);
            let host = self.host(&name)?;
            let outcome = match host.runtime.scan_plugin(&name, &reply) {
                Ok(()) => {
                    let found = host.runtime.list().iter().map(|e| e.clone()).collect();
                    self.persist(&name)?;
                    ScanOutcome::Found(found)
                }
                Err(error) => ScanOutcome::Failed(format!("{name}: {}", error.message())),
            };
            outcomes.push(outcome);
        }
        self.registry.scan_all(&outcomes, &self.handles)
    }

    fn call_discover(
        &mut self,
        name: &str,
        query: &str,
        tags: &[&str],
    ) -> Result<DiscoverSearchResult, Error> {
        let tags: Vec<String> = tags.iter().map(|t| t.to_string()).collect();
        let callback = self.host(name)?.runtime.prepare_discover(name, &tags)?.unwrap();
        let host = self.host(name)?;
        let params = from_table(&host.lua, &discover_params(query, "", 1, &tags));
        let ctx = self.ctx(name, callback);
        let reply = self.ask(name, callback, vec![ctx, Value::Table(params)]);
        let found = self.host(name)?.runtime.call_discover(name, &tags, &reply)?;
        self.persist(name)?;
        Ok(found)
    }

    fn ask_item(&mut self, name: &str, request: ItemRequest, id: &str) -> Result<CallbackReply, Error> {
        let callback = self.host(name)?.runtime.prepare_item(name, request)?.unwrap();
        let ctx = self.ctx(name, callback);
        let argument = if request == ItemRequest::Resolve {
            Value::Table(from_table(&self.host(name)?.lua, &resolve_params(id, "/some/dir")))
        } else {
            self.text(name, id)
        };
        Ok(self.ask(name, callback, vec![ctx, argument]))
    }

    fn call_details(&mut self, name: &str, id: &str) -> Result<DiscoverDetails, Error> {
        let reply = self.ask_item(name, ItemRequest::Details, id)?;
        self.host(name)?.runtime.call_details(name, &reply)
    }

    fn call_download(&mut self, name: &str, id: &str) -> Result<DiscoverDownload, Error> {
        let reply = self.ask_item(name, ItemRequest::Download, id)?;
        self.host(name)?.runtime.call_download(name, &reply)
    }

    fn call_resolve(&mut self, name: &str, id: &str) -> Result<DiscoverResolve, Error> {
        let reply = self.ask_item(name, ItemRequest::Resolve, id)?;
        self.host(name)?.runtime.call_resolve(name, &reply)
    }

    fn check_lifecycle(&mut self, name: &str) -> Result<Option<PluginLifecycleCheck>, Error> {
        let reply = match self.host(name)?.runtime.prepare_check(name)? {
            Some(callback) => {
                let ctx = self.ctx(name, callback);
                self.ask(name, callback, vec![ctx])
            }
            None => CallbackReply::Returned(LuaValue::Nil),
        };
        let checked = self.host(name)?.runtime.check_lifecycle(name, &reply)?;
        self.persist(name)?;
        Ok(checked)
    }

    fn action_status(&mut self, name: &str) -> Result<SourceState, Error> {
        let checked = self.check_lifecycle(name)?;
        let reply = match self.host(name)?.runtime.prepare_action_status(name)? {
            Some(callback) => {
                let ctx = self.ctx(name, callback);
                self.ask(name, callback, vec![ctx])
            }
            None => CallbackReply::Returned(LuaValue::Nil),
        };
        let (actions, status, avatar_url) =
            self.host(name)?.runtime.call_action_status(name, &checked, &reply)?;
        self.persist(name)?;
        Ok(SourceState { actions, status, avatar_url })
    }

    fn sources(&self) -> Vec<DiscoverSourceInfo> {
        self.registry.discover_sources(&self.handles)
    }

    fn sources_with_status(&mut self) -> Vec<DiscoverSourceInfo> {
        let sources = self.sources();
        let mut states = TextMap::new();
        for source in &sources {
            if let Ok(state) = self.action_status(&source.name) {
                states.insert(source.plugin_id.clone(), state);
            }
        }
        discover_sources_with_status(&sources, &states)
    }

    fn invoke(&mut self, name: &str, action: &str, values: &[(&str, &str)]) -> Result<(), Error> {
        let values = text_map(values);
        let callback = self.host(name)?.runtime.prepare_invoke(name, action, &values)?.unwrap();
        let host = self.host(name)?;
        let table = from_table(&host.lua, &action_values(&values));
        let ctx = self.ctx(name, callback);
        let action_id = self.text(name, action);
        let reply = self.ask(name, callback, vec![ctx, action_id, Value::Table(table)]);
        self.host(name)?.runtime.invoke_action(name, action, &values, &reply)?;
        self.persist(name)
    }

    fn begin_qr_login(&mut self, name: &str, action: &str) -> Result<QrLoginBegin, Error> {
        let callback = self.host(name)?.runtime.prepare_qr_begin(name, action)?.unwrap();
        let ctx = self.ctx(name, callback);
        let host = self.host(name)?;
        let function = host.function(name, callback);
        let answer = function.call::<Value>((ctx, action)).unwrap();
        let reply = CallbackReply::Returned(to_value(&host.lua, &answer));
        let begun = host.runtime.begin_qr_login(name, action, &reply)?;
        let key: Value = answer.as_table().unwrap().get("key").unwrap();
        host.qr_keys.insert(begun.operation_id, key);
        Ok(begun)
    }

    fn poll_qr_login(&mut self, name: &str, operation_id: u64) -> Result<QrLoginPoll, Error> {
        let callback = self.host(name)?.runtime.prepare_qr_poll(name, operation_id)?.unwrap();
        let ctx = self.ctx(name, callback);
        let key = self.host(name)?.qr_keys[&operation_id].clone();
        let reply = self.ask(name, callback, vec![ctx, key]);
        let host = self.host(name)?;
        let state = host.runtime.poll_qr_login(name, operation_id, &reply)?;
        let dialect = host.runtime.plugin(name)?.dialect;
        if state == QrLoginPollState::Succeeded {
            self.persist(name)?;
        }
        read_qr_poll(dialect, take_table(&reply).unwrap(), state)
    }

    fn subscription_status(
        &mut self,
        name: &str,
        ids: &[&str],
    ) -> Result<SubscriptionStatusResult, Error> {
        let ids: Vec<String> = ids.iter().map(|id| id.to_string()).collect();
        let callback =
            self.host(name)?.runtime.prepare_subscription(name, Callback::SubscriptionStatus)?;
        let callback = callback.unwrap();
        let list = from_table(&self.host(name)?.lua, &text_list(&ids));
        let ctx = self.ctx(name, callback);
        let reply = self.ask(name, callback, vec![ctx, Value::Table(list)]);
        let states = self.host(name)?.runtime.subscription_status(name, &ids, &reply)?;
        self.persist(name)?;
        Ok(states)
    }

    fn set_subscription(
        &mut self,
        name: &str,
        id: &str,
        subscribed: bool,
    ) -> Result<SubscriptionSetResult, Error> {
        let callback = if subscribed {
            Callback::SubscriptionSubscribe
        } else {
            Callback::SubscriptionUnsubscribe
        };
        let callback = self.host(name)?.runtime.prepare_subscription(name, callback)?.unwrap();
        let ctx = self.ctx(name, callback);
        let item = self.text(name, id);
        let reply = self.ask(name, callback, vec![ctx, item]);
        let set = self.host(name)?.runtime.set_subscription(name, subscribed, &reply)?;
        self.persist(name)?;
        Ok(set)
    }

    fn call_apply(&mut self, name: &str, entry: &WallpaperEntry) -> Result<WallpaperApply, Error> {
        let reply = match self.host(name)?.runtime.prepare_apply(name)? {
            Some(callback) => {
                let item = self.host(name)?.entry(entry);
                let ctx = self.ctx(name, callback);
                self.ask(name, callback, vec![item, ctx])
            }
            None => CallbackReply::Returned(LuaValue::Nil),
        };
        self.host(name)?.runtime.call_apply(name, &reply)
    }

    fn remove_item(&mut self, name: &str, entry: &WallpaperEntry) -> Result<(), Error> {
        let callback = self.host(name)?.runtime.prepare_remove(name)?.unwrap();
        let item = self.host(name)?.entry(entry);
        let ctx = self.ctx(name, callback);
        let reply = self.ask(name, callback, vec![ctx, item]);
        self.host(name)?.runtime.remove_item(name, &reply)
    }

    fn call_tags(&mut self, name: &str) -> Result<Vec<String>, Error> {
        let callback = self.host(name)?.runtime.prepare_tags(name)?.unwrap();
        let ctx = self.ctx(name, callback);
        let reply = self.ask(name, callback, vec![ctx]);
        self.host(name)?.runtime.call_tags(name, &reply)
    }

    fn refresh_dynamic_tags(&mut self) {
        for name in self.registry.names_with(PluginRole::DynamicTags, &self.handles) {
            if let Ok(tags) = self.call_tags(&name) {
                self.registry.refresh_dynamic_tags(&name, &tags, &mut self.handles);
            }
        }
    }
}

fn wallpaper(plugin_name: &str, resource: &str) -> WallpaperEntry {
    WallpaperEntry {
        item_id: 42,
        name: "Wallpaper".to_string(),
        wp_type: "image".to_string(),
        resource: resource.to_string(),
        preview: None,
        plugin_name: plugin_name.to_string(),
        library_root: "/library".to_string(),
        description: None,
        tags: vec!["tag".to_string()],
        external_id: Some("ext-1".to_string()),
        web_url: None,
        size: None,
        width: None,
        height: None,
        content_rating: None,
        modified_at: None,
        create_at: 0,
    }
}

// ---------------------------------------------------------------------------
// Messages of failed callbacks

const REDACTION: &str = r#"
local M = {}
function M.info()
    return { name = "redaction", capabilities = { discover = { search = true } } }
end
M.discover = {}
function M.discover.search(ctx, params)
    error("request failed: access_token=access-secret&refresh_token=refresh-secret")
end
return M
"#;

fn assert_discover_is_redacted(mut manager: Manager) {
    manager.load(REDACTION, "org.redaction", "1", ENTRY_VERSION_V3).unwrap();
    let error = manager.call_discover("redaction", "", &[]).unwrap_err().message();
    assert!(!error.contains("access-secret"));
    assert!(!error.contains("refresh-secret"));
    assert!(error.contains("[REDACTED]"));
}

#[test]
fn tests_discover_callback_errors_do_not_expose_credentials() {
    assert_discover_is_redacted(Manager::localized());
}

#[test]
fn source_manager_discover_callback_errors_do_not_expose_credentials() {
    assert_discover_is_redacted(Manager::plain());
}

// ---------------------------------------------------------------------------
// Settings

const SETTINGS: &str = r#"
local M = {}
function M.info()
    return {
        name = "settings_remote",
        settings = {
            { key = "count", type = "u32", default = 1 },
            { key = "enabled", type = "bool", default = false },
            { key = "mode", type = "string", default = "one", choices = { "one", "two" } },
        },
        capabilities = { discover = { search = true } },
    }
end
M.discover = {}
function M.discover.search(ctx, params)
    return { items = {}, has_more = false }
end
return M
"#;

fn assert_patch_uses_schema(mut manager: Manager) {
    manager.load(SETTINGS, "org.settings", "1", ENTRY_VERSION_V3).unwrap();
    let none = TextMap::new();
    let values = text_map(&[("count", "007"), ("enabled", "true"), ("mode", "two")]);
    let validated = manager
        .registry
        .validate_remote_settings_patch("settings_remote", &values, &none, &manager.handles)
        .unwrap();
    assert_eq!(validated.get("count").map(String::as_str), Some("7"));
    assert_eq!(validated.get("enabled").map(String::as_str), Some("true"));
    assert_eq!(validated.get("mode").map(String::as_str), Some("two"));

    for values in [("missing", "value"), ("enabled", "yes"), ("mode", "three")] {
        let values = text_map(&[values]);
        assert!(manager
            .registry
            .validate_remote_settings_patch("settings_remote", &values, &none, &manager.handles)
            .is_err());
    }
}

#[test]
fn tests_remote_settings_patch_uses_source_schema() {
    assert_patch_uses_schema(Manager::localized());
}

#[test]
fn source_manager_remote_settings_patch_uses_source_schema() {
    assert_patch_uses_schema(Manager::plain());
}

fn with_settings(settings: &str) -> String {
    format!(
        r#"
local M = {{}}
function M.info()
    return {{
        name = "invalid_settings",
        settings = {{ {settings} }},
        capabilities = {{ discover = {{ search = true }} }},
    }}
end
M.discover = {{}}
function M.discover.search(ctx, params)
    return {{ items = {{}}, has_more = false }}
end
return M
"#,
    )
}

fn assert_rejects_invalid_schema(contract: Contract) {
    let twice = with_settings(r#"{ key = "same" }, { key = "same" }"#);
    let error =
        Manager::new(contract).load(&twice, "org.invalid", "1", ENTRY_VERSION_V3).unwrap_err();
    assert_eq!(error.message(), "info().settings contains duplicate key 'same'");
    let object = with_settings(r#"{ key = "value", type = "object" }"#);
    let error =
        Manager::new(contract).load(&object, "org.invalid", "1", ENTRY_VERSION_V3).unwrap_err();
    assert_eq!(error.message(), "info().settings type 'object' is unsupported");
}

#[test]
fn tests_source_settings_reject_invalid_schema() {
    assert_rejects_invalid_schema(Contract::Localized);
}

#[test]
fn source_manager_source_settings_reject_invalid_schema() {
    assert_rejects_invalid_schema(Contract::Plain);
}

// ---------------------------------------------------------------------------
// Scans

const PROBE: &str = r#"
local M = {}
function M.info()
    return {
        name = "probe_test",
        capabilities = {
            source = { types = {"video"}, scan = true },
        },
    }
end
M.source = {}
function M.source.scan(ctx)
    local m = ctx.probe("/fake/path/video.mp4")
    if m == nil then error("probe returned nil") end
    return {
        {
            id = "v1",
            name = "Video",
            wp_type = "video",
            resource = "/lib/v1.mp4",
            library_root = "/lib",
            metadata = {},
            width = m.width,
            height = m.height,
        },
    }
end
return M
"#;

fn assert_probe_is_callable(mut mgr: Manager, entry_version: u32) {
    mgr.load(PROBE, "test.plugin", "1.0", entry_version).unwrap();
    mgr.scan_all().unwrap();
    let entries = mgr.registry.list();
    assert_eq!(entries.len(), 1);
    assert_eq!(entries[0].resource, "/lib/v1.mp4");
    assert_eq!(entries[0].width, Some(1920));
    assert_eq!(entries[0].height, Some(1080));
}

#[test]
fn tests_ctx_probe_callable_from_lua() {
    assert_probe_is_callable(Manager::localized(), ENTRY_VERSION_V3);
}

#[test]
fn source_manager_ctx_probe_callable_from_lua() {
    assert_probe_is_callable(Manager::plain(), ENTRY_VERSION_V2);
}

const FAILING: &str = r#"
local M = {}
function M.info()
    return {
        name = "failing",
        capabilities = {
            source = { types = {"image"}, scan = true },
        },
    }
end
M.source = {}
function M.source.scan(ctx)
    error("library root is unreadable")
end
return M
"#;

fn assert_context_is_grouped(mut manager: Manager) {
    let source = r#"
local M = {}
function M.info()
    return {
        name = "grouped_ctx",
        capabilities = { source = { types = {"image"}, scan = true } },
    }
end
M.source = {}
function M.source.scan(ctx)
    assert(type(ctx.fs) == "table" and type(ctx.fs.exists) == "function")
    assert(type(ctx.config) == "table" and type(ctx.config.get) == "function")
    assert(type(ctx.json) == "table" and type(ctx.json.parse) == "function")
    assert(type(ctx.file_exists) == "function")
    assert(type(ctx.plugin_config) == "function")
    assert(type(ctx.json_parse) == "function")
    return {}
end
return M
"#;
    manager.load(source, "org.grouped", "1", ENTRY_VERSION_V3).unwrap();
    manager.scan_all().unwrap();
}

#[test]
fn tests_v3_source_context_has_grouped_interfaces_and_v2_aliases() {
    assert_context_is_grouped(Manager::localized());
}

#[test]
fn source_manager_v3_source_context_has_grouped_interfaces_and_v2_aliases() {
    assert_context_is_grouped(Manager::plain());
}

#[test]
fn a_remote_context_has_no_files() {
    let mut manager = Manager::localized();
    let source = r#"
local M = {}
function M.info()
    return { name = "guarded", capabilities = { discover = { search = true } } }
end
M.discover = {}
function M.discover.search(ctx, params)
    local guarded = ctx.remove_dir == nil and ctx.libraries == nil and ctx.fs == nil
        and ctx.env == nil and ctx.probe == nil and ctx.library_meta_get == nil
        and ctx.config ~= nil and ctx.json ~= nil and ctx.http ~= nil
        and ctx.base64 ~= nil and ctx.time ~= nil and ctx.random ~= nil
        and ctx.json_parse ~= nil and ctx.base64_decode ~= nil and ctx.time_unix ~= nil
    return {
        items = { { id = tostring(guarded), title = "", preview_url = "", author = "" } },
        has_more = false,
    }
end
return M
"#;
    manager.load(source, "test.plugin", "1.0", ENTRY_VERSION_V3).unwrap();
    assert_eq!(manager.call_discover("guarded", "", &[]).unwrap().items[0].id, "true");
}

#[test]
fn fs_read_bytes_returns_a_binary_window_and_refuses_oversized_requests() {
    let source = format!(
        r#"
local M = {{}}
function M.info()
    return {{
        name = "read_bytes",
        capabilities = {{ source = {{ types = {{"image"}}, scan = true }} }},
    }}
end
M.source = {{}}
function M.source.scan(ctx)
    local path = "{CONTAINER_PATH}"
    assert(ctx.fs.read_bytes(path, 0, 4) == "HEAD", "head window")
    assert(ctx.fs.read_bytes(path, 4, 1) == "\xff", "binary byte survives")
    assert(ctx.fs.read_bytes(path, 5, 64) == "TAIL", "short read at EOF")
    assert(ctx.fs.read_bytes(path, 9, 4) == nil, "read past EOF")
    assert(ctx.fs.read_bytes(path, -1, 4) == nil, "negative offset")
    assert(ctx.fs.read_bytes(path, 0, 0) == nil, "empty window")
    assert(ctx.fs.read_bytes(path, 0, 1048577) == nil, "over the cap")
    assert(ctx.fs.read_bytes(path .. ".missing", 0, 4) == nil, "missing file")
    return {{}}
end
return M
"#
    );
    let mut manager = Manager::localized();
    manager.load(&source, "org.read_bytes", "1", ENTRY_VERSION_V4).unwrap();
    manager.scan_all().unwrap();
}

fn assert_failing_scan_is_reported(mut mgr: Manager, entry_version: u32) {
    mgr.load(FAILING, "failing.plugin", "1.0", entry_version).unwrap();
    let err = mgr.scan_all().expect_err("a failing source scan must not report success");
    assert!(err.message().contains("failing"));
    assert!(mgr.registry.list().is_empty());
}

#[test]
fn tests_scan_all_reports_a_failing_plugin_instead_of_reporting_success() {
    assert_failing_scan_is_reported(Manager::localized(), ENTRY_VERSION_V3);
}

#[test]
fn source_manager_scan_all_reports_a_failing_plugin_instead_of_reporting_success() {
    assert_failing_scan_is_reported(Manager::plain(), ENTRY_VERSION_V2);
}

const SCANNED: &str = r#"
local M = {}
function M.info()
    return {
        name = "test",
        capabilities = {
            source = { types = {"image"}, scan = true },
        },
    }
end
M.source = {}
function M.source.scan(ctx)
    return {
        { id = "w1", name = "Test Wallpaper", wp_type = "image",
           resource = "/tmp/test.png", metadata = {} },
    }
end
return M
"#;

fn assert_load_and_scan(mut mgr: Manager, entry_version: u32) {
    let name = mgr.load(SCANNED, "test.plugin", "1.0", entry_version).unwrap();
    assert_eq!(name, "test");

    mgr.scan_all().unwrap();
    let list = mgr.registry.list();
    assert_eq!(list.len(), 1);
    assert_eq!(list[0].name, "Test Wallpaper");
    assert_eq!(list[0].wp_type, "image");
    assert_eq!(list[0].plugin_name, "test");

    assert_eq!(mgr.registry.list_by_type("image").len(), 1);
    assert!(mgr.registry.list_by_type("video").is_empty());
    assert!(mgr.registry.get("0").is_some());

    let plugins = mgr.registry.plugins(&mgr.handles);
    assert_eq!(plugins.len(), 1);
    assert_eq!(plugins[0].name, "test");
    assert_eq!(plugins[0].version, "1.0");
    assert_eq!(mgr.registry.plugin_version("test", &mgr.handles).as_deref(), Some("1.0"));
}

#[test]
fn tests_test_load_and_scan_plugin() {
    assert_load_and_scan(Manager::localized(), ENTRY_VERSION_V3);
}

#[test]
fn source_manager_test_load_and_scan_plugin() {
    assert_load_and_scan(Manager::plain(), ENTRY_VERSION_V2);
}

// ---------------------------------------------------------------------------
// Imports

const NAMES: &str = r#"
local M = {}
function M.name()
    return "Imported"
end
return M
"#;

const IMPORTING: &str = r#"
local names = import("helpers.names")
local M = {}
function M.info()
    return {
        name = "imported",
        capabilities = {
            source = { types = {"image"}, scan = true },
            discover = { search = true, details = true, download = true },
        },
    }
end
M.source = {}
function M.source.scan(ctx)
    return {
        { name = names.name(), wp_type = "image", resource = "/tmp/imported.png",
          web_url = "https://example.invalid/local" },
    }
end
M.discover = {}
function M.discover.search(ctx, params)
    return {
        items = {
            { id = "abc", title = names.name(), preview_url = "", author = "" },
        },
        has_more = false,
    }
end
function M.discover.details(ctx, id)
    return {
        author = "Imported Author",
        description = names.name(),
        size = "42",
        width = 10,
        height = 20,
        tags = {"tag"},
        web_url = "https://example.invalid/item/" .. id,
    }
end
function M.discover.download(ctx, id)
    return {
        wp_type = "image",
        url = "https://example.invalid/" .. id,
        filename = id .. ".jpg",
        title = names.name(),
        tags = {"tag"},
        external_id = id,
        web_url = "https://example.invalid/item/" .. id,
        size = 42,
        width = 10,
        height = 20,
        content_rating = "Everyone",
    }
end
return M
"#;

fn import_and_ask(mgr: &mut Manager, entry_version: u32) -> DiscoverDownload {
    let files = [("main.lua", IMPORTING), ("helpers/names.lua", NAMES)];
    let name = mgr.load_files(&files, "test.plugin", "1.0", entry_version).unwrap();
    assert_eq!(name, "imported");
    mgr.scan_all().unwrap();
    assert_eq!(mgr.registry.list()[0].name, "Imported");

    let search = mgr.call_discover("imported", "", &[]).unwrap();
    assert_eq!(search.items[0].wp_type, "image");

    let dl = mgr.call_download("imported", "abc").unwrap();
    assert_eq!(dl.wp_type, "image");
    assert_eq!(dl.filename, "abc.jpg");
    assert_eq!(dl.title, "Imported");
    assert_eq!(dl.tags, vec!["tag"]);
    assert_eq!(dl.external_id, "abc");
    assert_eq!(dl.size, Some(42));
    let detail = mgr.call_details("imported", "abc").unwrap();
    assert_eq!(detail.width, Some(10));
    assert_eq!(detail.height, Some(20));
    assert_eq!(detail.web_url, "https://example.invalid/item/abc");
    assert_eq!(detail.author, "Imported Author");
    dl
}

#[test]
fn tests_plugin_import_loads_plugin_local_modules() {
    let mut mgr = Manager::localized();
    let dl = import_and_ask(&mut mgr, ENTRY_VERSION_V3);
    assert_eq!(dl.web_url, "https://example.invalid/item/abc");
    let list = mgr.registry.list();
    assert_eq!(list[0].web_url.as_deref(), Some("https://example.invalid/local"));
}

#[test]
fn source_manager_plugin_import_loads_plugin_local_modules() {
    let mut mgr = Manager::plain();
    let dl = import_and_ask(&mut mgr, ENTRY_VERSION_V2);
    assert_eq!(dl.web_url, "");
    assert_eq!(mgr.registry.list()[0].web_url, None);
}

const ESCAPING: &str = r#"
local bad = import("../outside")
return bad
"#;

#[test]
fn tests_plugin_import_rejects_path_escape() {
    let mut mgr = Manager::localized();
    assert!(mgr.load(ESCAPING, "test.plugin", "1.0", ENTRY_VERSION_V3).is_err());
}

#[test]
fn source_manager_plugin_import_rejects_path_escape() {
    let mut mgr = Manager::plain();
    assert!(mgr.load(ESCAPING, "test.plugin", "1.0", ENTRY_VERSION_V2).is_err());
}

// ---------------------------------------------------------------------------
// Texts for the user

const TEXT_HELPER: &str = r#"
local M = {}
function M.library_label()
    return tr("Test Library")
end
return M
"#;

const LOCALIZED: &str = r#"
local text = import("helpers.text")
local M = {}
function M.info()
    return {
        name = "localized",
        settings = {
            {
                key = "enabled",
                type = "bool",
                default = true,
                label = tr("Enabled"),
                group = "general",
                group_label = tr("General"),
            },
        },
        capabilities = {
            source = {
                types = {"image"},
                scan = true,
                library_label = text.library_label(),
                library_hint = tr("Request failed with HTTP %1", 503),
            },
            wallpaper = { properties = true },
        },
    }
end
M.source = {}
function M.source.scan(ctx)
    return {}
end
M.wallpaper = {}
function M.wallpaper.properties()
    return {
        mode = {
            text = tr("Mode"),
            type = "combo",
            value = "one",
            options = {
                { label = tr("One"), value = "one" },
            },
        },
    }
end
return M
"#;

#[test]
fn localized_text_keeps_owning_plugin_across_imports_and_properties() {
    let mut manager = Manager::localized();
    let files = [("main.lua", LOCALIZED), ("helpers/text.lua", TEXT_HELPER)];
    manager.load_files(&files, "org.test.localized", "1.0", ENTRY_VERSION_V3).unwrap();

    let plugins = manager.registry.plugins(&manager.handles);
    assert_eq!(plugins.len(), 1);
    assert_eq!(plugins[0].library_label.text(), "Test Library");
    assert_eq!(plugins[0].library_label.message().unwrap().plugin_id, "org.test.localized");
    assert_eq!(plugins[0].library_hint.text(), "Request failed with HTTP %1");
    assert_eq!(plugins[0].library_hint.message().unwrap().arguments.as_slice(), ["503"]);
    assert_eq!(plugins[0].settings[0].label.text(), "Enabled");
    assert_eq!(plugins[0].settings[0].label.message().unwrap().plugin_id, "org.test.localized");
    assert_eq!(plugins[0].settings[0].group, "general");
    assert_eq!(plugins[0].settings[0].group_label.text(), "General");
    assert_eq!(
        plugins[0].settings[0].group_label.message().unwrap().plugin_id,
        "org.test.localized"
    );

    let name = "localized";
    let callback = manager.host(name).unwrap().runtime.prepare_properties(name).unwrap().unwrap();
    let reply = manager.ask(name, callback, Vec::new());
    let schema = manager.host(name).unwrap().runtime.call_properties(name, reply).unwrap();
    let value = match schema {
        PropertySchema::Value(value) => value,
        other => panic!("unexpected schema {other:?}"),
    };
    let properties = to_json(&normalize_localized_value(&value).unwrap());
    assert_eq!(properties["mode"]["text"], "Mode");
    assert_eq!(properties["mode"]["localized_text"]["pluginId"], "org.test.localized");
    assert_eq!(properties["mode"]["localized_text"]["msgid"], "Mode");
    assert_eq!(properties["mode"]["options"][0]["label"], "One");
    assert_eq!(properties["mode"]["options"][0]["localized_label"]["msgid"], "One");
}

#[test]
fn tr_rejects_invalid_runtime_arguments() {
    for expression in [r#"tr("Message", {})"#, r#"tr()"#, r#"tr({})"#, r#"tr("")"#] {
        let source = format!(
            r#"
local M = {{}}
function M.info()
    return {{
        name = "invalid_tr",
        display_name = {expression},
        capabilities = {{}},
    }}
end
return M
"#
        );
        let mut manager = Manager::localized();
        assert!(manager.load(&source, "org.test.invalid-tr", "1.0", ENTRY_VERSION_V3).is_err());
    }
}

#[test]
fn plugin_messages_are_namespaced_by_the_owning_vm() {
    let mut manager = Manager::localized();
    for (name, plugin_id) in [("first", "org.test.first"), ("second", "org.test.second")] {
        let source = format!(
            r#"
local M = {{}}
function M.info()
    return {{
        name = "{name}",
        capabilities = {{
            source = {{
                types = {{"image"}},
                scan = true,
                library_label = tr("Status"),
            }},
        }},
    }}
end
M.source = {{}}
function M.source.scan(ctx) return {{}} end
return M
"#
        );
        manager.load(&source, plugin_id, "1.0", ENTRY_VERSION_V3).unwrap();
    }
    let plugins = manager.registry.plugins(&manager.handles);
    let first = plugins[0].library_label.message().unwrap();
    let second = plugins[1].library_label.message().unwrap();
    assert_eq!(first.msgid, "Status");
    assert_eq!(second.msgid, "Status");
    assert_eq!(first.plugin_id, "org.test.first");
    assert_eq!(second.plugin_id, "org.test.second");
}

// ---------------------------------------------------------------------------
// Removing wallpapers

const REMOVING: &str = r#"
local M = {}
function M.info()
    return {
        name = "remove_only",
        capabilities = {},
    }
end
M.source = {}
function M.source.remove(ctx, item)
    if item.path ~= item.resource then error("path/resource mismatch") end
    if item.relative_path ~= "wallpaper.png" then error("wrong relative path") end
    if item.external_id ~= "ext-1" then error("missing external id") end
    ctx.remove_file(item.path)
end
return M
"#;

fn assert_remove_without_scan(mut mgr: Manager, entry_version: u32) {
    let name = mgr.load(REMOVING, "test.plugin", "1.0", entry_version).unwrap();
    assert_eq!(name, "remove_only");
    assert!(mgr.registry.supports_item_remove("remove_only", &mgr.handles));
    let entry = wallpaper("remove_only", "/library/wallpaper.png");
    mgr.remove_item("remove_only", &entry).unwrap();
    let removed = mgr.host("remove_only").unwrap().removed.lock().unwrap().clone();
    assert_eq!(removed, vec!["/library/wallpaper.png"]);
}

#[test]
fn tests_source_item_remove_works_without_scan_capability() {
    assert_remove_without_scan(Manager::localized(), ENTRY_VERSION_V3);
}

#[test]
fn source_manager_source_item_remove_works_without_scan_capability() {
    assert_remove_without_scan(Manager::plain(), ENTRY_VERSION_V2);
}

const NO_REMOVE: &str = r#"
local M = {}
function M.info()
    return {
        name = "no_remove",
        capabilities = {},
    }
end
return M
"#;

fn assert_remove_is_rejected(mut mgr: Manager, entry_version: u32) {
    let name = mgr.load(NO_REMOVE, "test.plugin", "1.0", entry_version).unwrap();
    assert_eq!(name, "no_remove");
    assert!(!mgr.registry.supports_item_remove("no_remove", &mgr.handles));
    let entry = wallpaper("no_remove", "/tmp/wallpaper.png");
    let err = mgr.remove_item("no_remove", &entry).unwrap_err();
    assert!(matches!(
        err,
        Error::SourceItemRemoveUnsupported(plugin) if plugin == "no_remove"
    ));
}

#[test]
fn tests_source_item_remove_rejects_plugins_without_remove() {
    assert_remove_is_rejected(Manager::localized(), ENTRY_VERSION_V3);
}

#[test]
fn source_manager_source_item_remove_rejects_plugins_without_remove() {
    assert_remove_is_rejected(Manager::plain(), ENTRY_VERSION_V2);
}

// ---------------------------------------------------------------------------
// Releases of the entry contract

const SEARCH_ONLY: &str = r#"
local M = {}
function M.info()
    return {
        name = "too_new",
        capabilities = {
            discover = { search = true },
        },
    }
end
M.discover = {}
function M.discover.search(ctx, params)
    return { items = {}, has_more = false }
end
return M
"#;

fn loads(contract: Contract, source: &str, entry_version: u32) -> bool {
    Manager::new(contract).load(source, "test.plugin", "1.0", entry_version).is_ok()
}

#[test]
fn entry_versions_v3_and_v4_are_supported_and_other_versions_are_rejected() {
    assert!(!loads(Contract::Localized, SEARCH_ONLY, ENTRY_VERSION_V3 - 1));
    assert!(loads(Contract::Localized, SEARCH_ONLY, ENTRY_VERSION_V3));
    assert!(loads(Contract::Localized, SEARCH_ONLY, ENTRY_VERSION_V4));
    assert!(!loads(Contract::Localized, SEARCH_ONLY, LATEST_ENTRY_VERSION + 1));
}

#[test]
fn entry_versions_v2_and_v3_are_supported_and_newer_is_rejected() {
    assert!(loads(Contract::Plain, SEARCH_ONLY, ENTRY_VERSION_V2));
    assert!(loads(Contract::Plain, SEARCH_ONLY, ENTRY_VERSION_V3));
    assert!(!loads(Contract::Plain, SEARCH_ONLY, ENTRY_VERSION_V3 + 1));
}

#[test]
fn a_refused_release_names_the_served_ones() {
    let error = Manager::plain().load(SEARCH_ONLY, "p", "1", 9).unwrap_err();
    assert_eq!(
        error.message(),
        "unsupported Lua entry_version 9; supported versions are [2, 3]"
    );
    let error = Manager::localized().load(SEARCH_ONLY, "p", "1", 9).unwrap_err();
    assert_eq!(
        error.message(),
        "unsupported Lua entry_version 9; supported versions are [3, 4]"
    );
}

// ---------------------------------------------------------------------------
// Remote items

const RESOLVER: &str = r#"
local M = {}
function M.info()
    return { name = "resolver", capabilities = { discover = { search = true, resolve = true } } }
end
M.discover = {}
function M.discover.search(ctx, params) return { items = {}, has_more = false } end
function M.discover.resolve(ctx, params)
    return {
        name = "R " .. params.id,
        wp_type = "scene",
        resource = "scene.pkg",
        preview = "preview.jpg",
        description = "d",
        tags = { "t" },
        external_id = params.id,
        size = 7,
    }
end
return M
"#;

fn assert_resolve_relays(mut mgr: Manager, entry_version: u32) {
    mgr.load(RESOLVER, "test.plugin", "1.0", entry_version).unwrap();
    let got = mgr.call_resolve("resolver", "id1").unwrap();
    assert_eq!(got.name, "R id1");
    assert_eq!(got.wp_type, "scene");
    assert_eq!(got.resource, "scene.pkg");
    assert_eq!(got.preview.as_deref(), Some("preview.jpg"));
    assert_eq!(got.external_id, "id1");
    assert_eq!(got.size, Some(7));
}

#[test]
fn tests_call_resolve_relays_directory_item() {
    assert_resolve_relays(Manager::localized(), ENTRY_VERSION_V3);
}

#[test]
fn source_manager_call_resolve_relays_directory_item() {
    assert_resolve_relays(Manager::plain(), ENTRY_VERSION_V2);
}

const DYNAMIC: &str = r#"
local M = {}
function M.info()
    return {
        name = "dyn",
        capabilities = { discover = { search = true, tags = { "fallback" } } },
    }
end
M.discover = {}
function M.discover.search(ctx, params) return { items = {}, has_more = false } end
function M.discover.tags(ctx) return { "Live1", "Live2" } end
return M
"#;

fn first_values(mgr: &Manager) -> Vec<String> {
    mgr.sources()[0].filters[0].options.iter().map(|option| option.value.clone()).collect()
}

fn assert_tags_are_refreshed(mut mgr: Manager, entry_version: u32) {
    mgr.load(DYNAMIC, "test.plugin", "1.0", entry_version).unwrap();
    assert_eq!(first_values(&mgr), vec!["fallback"]);
    mgr.refresh_dynamic_tags();
    assert_eq!(first_values(&mgr), vec!["Live1", "Live2"]);
}

#[test]
fn tests_refresh_dynamic_tags_replaces_declared_tags() {
    assert_tags_are_refreshed(Manager::localized(), ENTRY_VERSION_V3);
}

#[test]
fn source_manager_refresh_dynamic_tags_replaces_declared_tags() {
    assert_tags_are_refreshed(Manager::plain(), ENTRY_VERSION_V2);
}

#[test]
fn callbacks_are_handed_what_was_asked_for() {
    let lua = Lua::new();
    let tags = vec!["a".to_string(), "12".to_string()];
    let search = from_table(&lua, &discover_params("cats", "new", 3, &tags));
    assert_eq!(search.get::<String>("query").unwrap(), "cats");
    assert_eq!(search.get::<String>("sort").unwrap(), "new");
    assert_eq!(search.get::<u32>("page").unwrap(), 3);
    assert_eq!(search.get::<Vec<String>>("tags").unwrap(), tags);
    assert_eq!(search.pairs::<String, Value>().count(), 4);
    let search = from_table(&lua, &discover_params("", "", u32::MAX, &Vec::new()));
    assert_eq!(search.get::<u32>("page").unwrap(), u32::MAX);
    assert_eq!(search.get::<Table>("tags").unwrap().raw_len(), 0);

    let resolve = from_table(&lua, &resolve_params("42", "/downloads/42"));
    assert_eq!(resolve.get::<String>("id").unwrap(), "42");
    assert_eq!(resolve.get::<String>("dir").unwrap(), "/downloads/42");
    assert_eq!(resolve.pairs::<String, Value>().count(), 2);

    let values = from_table(&lua, &action_values(&text_map(&[("alias", "me"), ("note", "")])));
    assert_eq!(values.get::<String>("alias").unwrap(), "me");
    assert_eq!(values.get::<String>("note").unwrap(), "");
    assert_eq!(values.pairs::<String, Value>().count(), 2);
}

#[test]
fn a_state_is_written_only_where_it_has_changed() {
    let mut runtime = LuaPluginRuntime::new();
    assert!(runtime.state_changed("org.a", "1"));
    runtime.record_state("org.a", "1".to_string(), false);
    assert!(runtime.state_changed("org.a", "1"));
    runtime.record_state("org.a", "1".to_string(), true);
    assert!(!runtime.state_changed("org.a", "1"));
    assert!(runtime.state_changed("org.a", "2"));
    assert!(runtime.state_changed("org.b", "1"));
    runtime.note_state("org.a", None);
    assert!(runtime.state_changed("org.a", "1"));
}

#[test]
fn an_answer_that_is_no_list_of_tags_is_explained() {
    let lua = Lua::new();
    for answer in ["{ 'a', '\\255' }", "{ 'a', true }", "{ {}, '\\255' }", "true"] {
        let why = lua.load(format!("return {answer}")).eval::<Vec<String>>().unwrap_err();
        let source = DYNAMIC.replace(r#"{ "Live1", "Live2" }"#, answer);
        let mut mgr = Manager::localized();
        mgr.load(&source, "test.plugin", "1.0", ENTRY_VERSION_V3).unwrap();
        let error = mgr.call_tags("dyn").unwrap_err();
        assert!(matches!(error, Error::DiscoverFailed { ref plugin, .. } if plugin == "dyn"));
        assert_eq!(error.message(), why.to_string());
        mgr.refresh_dynamic_tags();
        assert_eq!(first_values(&mgr), vec!["fallback"]);
    }
}

fn with_filters(name: &str, filters: &str) -> String {
    format!(
        r#"
local M = {{}}
function M.info()
    return {{
        name = "{name}",
        capabilities = {{
            discover = {{
                search = true,
                filters = {{ {filters} }},
            }},
        }},
    }}
end
M.discover = {{}}
function M.discover.search(ctx, params) return {{ items = {{}}, has_more = false }} end
return M
"#
    )
}

fn assert_selected_values(mut mgr: Manager, filters: &str) {
    let source = with_filters("filters", filters);
    mgr.load(&source, "test.plugin", "1.0", ENTRY_VERSION_V3).unwrap();
    let sources = mgr.sources();
    let kind = sources[0].filters.iter().find(|filter| filter.id == "kind").unwrap();
    assert_eq!(kind.options[0].label, LocalizedText::raw("Alpha"));
    assert_eq!(kind.options[1].label, LocalizedText::raw("Beta"));
    assert!(mgr.call_discover("filters", "", &["A", "X"]).is_ok());
    assert!(mgr.call_discover("filters", "", &["A", "B"]).is_err());
    assert!(mgr.call_discover("filters", "", &["unknown"]).is_err());
    assert!(mgr.call_discover("filters", "", &["X", "X"]).is_err());
}

#[test]
fn tests_discover_filters_validate_selected_values() {
    assert_selected_values(
        Manager::localized(),
        r#"
        {
            id = "kind",
            title = "Kind",
            type = "select",
            options = {
                { value = "A", label = "Alpha" },
                { value = "B", label = "Beta" },
            },
        },
        { id = "tags", title = "Tags", type = "multi_select", options = {
            { value = "X", label = "X" }, { value = "Y", label = "Y" },
        } },
"#,
    );
}

#[test]
fn source_manager_discover_filters_validate_selected_values() {
    assert_selected_values(
        Manager::plain(),
        r#"
        {
            id = "kind",
            title = "Kind",
            type = "select",
            values = { "A", "B" },
            value_labels = { "Alpha", "Beta" },
        },
        { id = "tags", title = "Tags", type = "multi_select", values = { "X", "Y" } },
"#,
    );
}

#[test]
fn discover_filters_require_object_options() {
    for (name, options) in [
        ("raw", "{ \"A\", \"B\" }"),
        ("missing_label", "{ { value = \"A\" } }"),
        ("empty_label", "{ { value = \"A\", label = \"\" } }"),
        ("duplicate", "{ { value = \"A\", label = \"A\" }, { value = \"A\", label = \"B\" } }"),
    ] {
        let filter = format!(
            r#"{{ id = "kind", title = "Kind", type = "select", options = {options} }}"#
        );
        assert!(!loads(Contract::Localized, &with_filters(name, &filter), ENTRY_VERSION_V3));
    }
}

const LEGACY_FILTER: &str =
    r#"{ id = "type", title = "Type", type = "multi_select", values = { "Scene", "Video" } }"#;

#[test]
fn discover_filters_accept_legacy_values_only_for_v3() {
    let source = with_filters("legacy_filters", LEGACY_FILTER);
    let mut mgr = Manager::localized();
    mgr.load(&source, "test.plugin", "1.0", ENTRY_VERSION_V3).unwrap();
    let sources = mgr.sources();
    let options = &sources[0].filters[0].options;
    assert_eq!(options.len(), 2);
    assert_eq!(options[0].value, "Scene");
    assert_eq!(options[0].label, LocalizedText::raw("Scene"));
    assert_eq!(options[1].value, "Video");
    assert_eq!(options[1].label, LocalizedText::raw("Video"));
    assert!(mgr.call_discover("legacy_filters", "", &["Scene"]).is_ok());

    let error = Manager::localized()
        .load(&source, "test.plugin", "1.0", ENTRY_VERSION_V4)
        .unwrap_err();
    assert!(error.message().contains("values is only supported for entry_version 3"));
}

#[test]
fn discover_filters_reject_options_with_legacy_values() {
    let filter = r#"{
        id = "type",
        title = "Type",
        type = "multi_select",
        options = { { value = "Scene", label = "Scene" } },
        values = { "Scene" },
    }"#;
    let source = with_filters("ambiguous_filters", filter);
    assert!(!loads(Contract::Localized, &source, ENTRY_VERSION_V3));
}

#[test]
fn plain_filters_have_a_label_for_every_value_or_for_none() {
    let complaint = |filter: &str| {
        let source = with_filters("labels", filter);
        let loaded = Manager::plain().load(&source, "p", "1", ENTRY_VERSION_V3);
        loaded.unwrap_err().message()
    };
    let place = "info().capabilities.discover.filters[1].value_labels";
    let short = r#"{ id = "a", title = "A", type = "select", values = { "x", "y" },
        value_labels = { "X" } }"#;
    assert_eq!(
        complaint(short),
        format!("{place} must be empty or contain one label per value")
    );
    let empty = r#"{ id = "a", title = "A", type = "select", values = { "x" },
        value_labels = { "" } }"#;
    assert_eq!(complaint(empty), format!("{place} must not contain an empty label"));
}

#[test]
fn no_value_is_offered_by_two_filters() {
    let filters = r#"
        { id = "a", title = "A", type = "select", values = { "x" } },
        { id = "b", title = "B", type = "select", values = { "x" } },
"#;
    let error = Manager::localized()
        .load(&with_filters("twice", filters), "p", "1", ENTRY_VERSION_V3)
        .unwrap_err();
    assert_eq!(
        error.message(),
        "info().capabilities.discover.filters[2].values contains duplicate discover value 'x'"
    );
    let filters = r#"
        { id = "a", title = "A", type = "select", values = { "x" } },
        { id = "a", title = "B", type = "select", values = { "y" } },
"#;
    let error = Manager::localized()
        .load(&with_filters("twice", filters), "p", "1", ENTRY_VERSION_V3)
        .unwrap_err();
    assert_eq!(
        error.message(),
        "info().capabilities.discover.filters[2].id 'a' is declared more than once"
    );
}

// ---------------------------------------------------------------------------
// Accounts

/// A plugin with an account; the texts of its answers are given.
fn account_provider(status: &str, title: &str, instruction: &str, waiting: &str, denied: &str) -> String {
    r#"
local M = {}
local signed_in = false
local display = ""
local subscriptions = {}

function M.info()
    return {
        name = "account_provider",
        capabilities = {
            discover = { search = true, subscription = true },
        },
        actions = {
            {
                id = "sign_in",
                kind = "qr_login",
                label = "Log in",
                description = "Open the account app",
                browse_description = "Log in to browse this source",
                browse_button_label = "Continue",
            },
            { id = "sign_out", kind = "invoke" },
            {
                id = "set_alias",
                kind = "form",
                fields = {
                    { key = "alias", label = "Alias", required = true },
                },
            },
        },
        status = { { id = "account" } },
        state_migrations = {
            { schema_id = "legacy-session-v1", file = "legacy-session.json" },
        },
    }
end

M.lifecycle = {}
function M.lifecycle.load(blob)
    if blob == nil then return end
    local flag, value = string.match(blob, "^([^|]+)|(.*)$")
    signed_in = flag == "1"
    display = value or ""
end
function M.lifecycle.save()
    return (signed_in and "1" or "0") .. "|" .. display
end
function M.lifecycle.check(ctx)
    return {
        state = signed_in and "signed_in" or "signed_out",
        display_value = display,
        avatar_url = "https://example.invalid/avatar.png",
    }
end
function M.lifecycle.migrate(schema_id, raw)
    if schema_id ~= "legacy-session-v1" or raw ~= "legacy secret" then
        error("wrong migration input")
    end
    return "0|migrated"
end

M.actions = {}
function M.actions.status(ctx)
    return {
        status = { account = STATUS },
        actions = {
            sign_in = { visible = not signed_in, enabled = not signed_in },
            sign_out = { visible = signed_in, enabled = signed_in },
        },
    }
end
function M.actions.invoke(ctx, action_id, values)
    if action_id == "sign_out" then
        signed_in = false
        display = ""
    elseif action_id == "set_alias" then
        display = values.alias
    else
        error("unexpected action")
    end
end

M.qrlogin = {}
function M.qrlogin.begin(ctx, action_id)
    return {
        key = { polls = 0 },
        challenge = "https://example.invalid/challenge",
        poll_after_ms = 25,
        expires_in_ms = 1000,
        title = TITLE,
        instruction = INSTRUCTION,
    }
end
function M.qrlogin.poll(ctx, key)
    key.polls = key.polls + 1
    if key.polls == 1 then
        return { state = "awaiting_confirmation", display_value = WAITING }
    end
    signed_in = true
    display = "alice"
    return { state = "succeeded", display_value = display }
end
function M.qrlogin.cancel(ctx, key)
    key.cancelled = true
end

M.discover = {}
function M.discover.search(ctx, params)
    return { items = {}, has_more = false }
end

M.subscription = {}
function M.subscription.status(ctx, ids)
    local result = {}
    for _, id in ipairs(ids) do result[id] = subscriptions[id] or "unknown" end
    if ids[1] == "status-error" then
        return { items = result, error = tr("Request failed with HTTP %1", 503) }
    end
    return result
end
function M.subscription.subscribe(ctx, id)
    if id == "rejected" then
        return { accepted = false, error = DENIED }
    end
    subscriptions[id] = "subscribed"
    return { accepted = true }
end
function M.subscription.unsubscribe(ctx, id)
    subscriptions[id] = "unsubscribed"
    return { accepted = true }
end

return M
"#
    .replace("STATUS", status)
    .replace("TITLE", title)
    .replace("INSTRUCTION", instruction)
    .replace("WAITING", waiting)
    .replace("DENIED", denied)
}

const ACCOUNT: &str = "account_provider";

/// Loads the plugin with an account, which takes an old session over.
fn with_account(mut manager: Manager, source: &str) -> Manager {
    let legacy = ("legacy-session.json".to_string(), "legacy secret".to_string());
    manager.store.legacy.lock().unwrap().insert(legacy.0, legacy.1);
    manager.load(source, "org.test", "1.0", ENTRY_VERSION_V3).unwrap();
    assert_eq!(*manager.store.preserved.lock().unwrap(), vec!["legacy-session.json"]);
    assert_eq!(manager.store.states.lock().unwrap()["org.test"], "0|migrated");
    assert_eq!(manager.sources()[0].remote_capability, Some(RemoteCapability::Subscription));
    let sources = manager.sources_with_status();
    assert_eq!(sources[0].avatar_url, "https://example.invalid/avatar.png");
    assert_eq!(sources[0].actions[0].label.text(), "Log in");
    assert_eq!(sources[0].actions[0].description.text(), "Open the account app");
    assert_eq!(sources[0].actions[0].browse_button_label.text(), "Continue");
    assert_eq!(
        sources[0].actions[0].browse_description.text(),
        "Log in to browse this source"
    );
    assert!(sources[0].actions[0].label.message().is_none());
    assert!(sources[0].actions[0].visible);
    assert!(!sources[0].actions[1].visible);
    assert_eq!(sources[0].actions[2].fields[0].key, "alias");
    manager
}

/// Signs in by a QR code and gives the answer to the first poll.
fn sign_in(manager: &mut Manager) -> (QrLoginBegin, QrLoginPoll) {
    let begin = manager.begin_qr_login(ACCOUNT, "sign_in").unwrap();
    assert_eq!(begin.challenge, "https://example.invalid/challenge");
    assert_eq!(begin.poll_after_ms, 25);
    assert_ne!(begin.operation_id, 0);
    let first = manager.poll_qr_login(ACCOUNT, begin.operation_id).unwrap();
    assert_eq!(first.state, QrLoginPollState::AwaitingConfirmation);
    let second = manager.poll_qr_login(ACCOUNT, begin.operation_id).unwrap();
    assert_eq!(second.state, QrLoginPollState::Succeeded);
    let checked = manager.check_lifecycle(ACCOUNT).unwrap().unwrap();
    assert_eq!(checked.state, PluginLifecycleState::SignedIn);
    assert_eq!(manager.store.states.lock().unwrap()["org.test"], "1|alice");
    assert!(manager.poll_qr_login_is_over(begin.operation_id));
    (begin, first)
}

impl Manager {
    fn poll_qr_login_is_over(&mut self, operation_id: u64) -> bool {
        let host = self.host(ACCOUNT).unwrap();
        let error = host.runtime.prepare_qr_poll(ACCOUNT, operation_id).unwrap_err();
        error.message() == "QR login operation is not active"
    }
}

fn subscribe_and_end(manager: &mut Manager, ids: &[&str]) {
    let before = manager.subscription_status(ACCOUNT, ids).unwrap();
    assert!(before.items.iter().all(|item| item.state == SubscriptionState::Unknown));
    assert!(manager.set_subscription(ACCOUNT, "item", true).unwrap().accepted);
    let subscribed = manager.subscription_status(ACCOUNT, ids).unwrap();
    assert_eq!(subscribed.items[0].state, SubscriptionState::Subscribed);
    assert_eq!(subscribed.items[1].state, SubscriptionState::Unknown);
    manager.set_subscription(ACCOUNT, "item", false).unwrap();
    let unsubscribed = manager.subscription_status(ACCOUNT, ids).unwrap();
    assert_eq!(unsubscribed.items[0].state, SubscriptionState::Unsubscribed);
}

fn use_actions(manager: &mut Manager) {
    let missing = manager.invoke(ACCOUNT, "set_alias", &[]).unwrap_err();
    assert!(missing.message().contains("requires field 'alias'"));
    let strange = manager.invoke(ACCOUNT, "set_alias", &[("alias", "a"), ("x", "y")]).unwrap_err();
    assert!(strange.message().contains("has no field 'x'"));
    manager.invoke(ACCOUNT, "set_alias", &[("alias", "configured")]).unwrap();
    let checked = manager.check_lifecycle(ACCOUNT).unwrap().unwrap();
    assert_eq!(checked.display_value.text(), "configured");

    assert!(manager.invoke(ACCOUNT, "sign_out", &[("x", "y")]).is_err());
    assert!(manager.invoke(ACCOUNT, "sign_in", &[]).is_err());
    assert!(manager.invoke(ACCOUNT, "unknown", &[]).is_err());
    manager.invoke(ACCOUNT, "sign_out", &[]).unwrap();
    let checked = manager.check_lifecycle(ACCOUNT).unwrap().unwrap();
    assert_eq!(checked.state, PluginLifecycleState::SignedOut);
    let kind = |id: &str| manager.registry.action_kind(ACCOUNT, id, &manager.handles);
    assert_eq!(kind("sign_in"), Some(SourceActionKind::QrLogin));
    assert_eq!(kind("set_alias"), Some(SourceActionKind::Form));
    assert_eq!(kind("unknown"), None);
}

#[test]
fn tests_v3_lifecycle_actions_qrlogin_and_subscription_share_plugin_owned_state() {
    let source = account_provider(
        r#"tr("Account: %1", display)"#,
        r#"tr("Sign in")"#,
        r#"tr("Scan with %1", "phone")"#,
        r#"tr("Approve on %1", "phone")"#,
        r#"tr("Denied %1", id)"#,
    );
    let mut manager = with_account(Manager::localized(), &source);
    let sources = manager.sources_with_status();
    assert_eq!(sources[0].status[0].value.text(), "Account: %1");
    assert_eq!(sources[0].status[0].value.message().unwrap().arguments, ["migrated"]);

    let (begin, first) = sign_in(&mut manager);
    assert_eq!(begin.title.message().unwrap().msgid, "Sign in");
    assert_eq!(begin.instruction.message().unwrap().arguments, ["phone"]);
    assert_eq!(first.display_value.message().unwrap().arguments, ["phone"]);

    subscribe_and_end(&mut manager, &["item", "missing", "items"]);
    let status_error = manager.subscription_status(ACCOUNT, &["status-error"]).unwrap();
    assert_eq!(status_error.error.message().unwrap().arguments, ["503"]);
    let rejected = manager.set_subscription(ACCOUNT, "rejected", true).unwrap();
    assert!(!rejected.accepted);
    assert_eq!(rejected.error.text(), "Denied %1");
    assert_eq!(rejected.error.message().unwrap().arguments, ["rejected"]);
    use_actions(&mut manager);
}

#[test]
fn source_manager_v3_lifecycle_actions_qrlogin_and_subscription_share_plugin_owned_state() {
    let source = account_provider(
        "display",
        r#""Sign in""#,
        r#""Scan""#,
        r#""phone""#,
        r#""denied""#,
    );
    let mut manager = with_account(Manager::plain(), &source);
    let sources = manager.sources_with_status();
    assert_eq!(sources[0].status[0].value.text(), "migrated");

    let (begin, first) = sign_in(&mut manager);
    assert_eq!(begin.title.text(), "Sign in");
    assert_eq!(begin.instruction.text(), "Scan");
    assert_eq!(first.display_value.text(), "phone");

    subscribe_and_end(&mut manager, &["item", "missing"]);
    let rejected = manager.set_subscription(ACCOUNT, "rejected", true).unwrap_err();
    assert!(rejected.message().contains("denied"));
    use_actions(&mut manager);
}

// ---------------------------------------------------------------------------
// Capabilities

fn remote(flags: &str, api: &str) -> String {
    format!(
        r#"
local M = {{}}
function M.info()
    return {{ name = "remote", capabilities = {{ discover = {{ search = true, {flags} }} }} }}
end
M.discover = {{}}
function M.discover.search(ctx, params) return {{ items = {{}}, has_more = false }} end
{api}
return M
"#
    )
}

const SUBSCRIPTION_API: &str = r#"
M.subscription = {}
function M.subscription.status(ctx, ids) return {} end
function M.subscription.subscribe(ctx, id) return {} end
function M.subscription.unsubscribe(ctx, id) return {} end
"#;

const ORPHAN_DETAILS: &str = "function M.discover.details(ctx, id) return {} end";

fn assert_remote_is_exclusive(contract: Contract) {
    let v3 = ENTRY_VERSION_V3;
    assert!(loads(contract, &remote("", ""), v3));
    assert!(!loads(contract, &remote("", ORPHAN_DETAILS), v3));

    let orphan_actions = "M.actions = {}\nfunction M.actions.status(ctx) return {} end";
    assert!(!loads(contract, &remote("", orphan_actions), v3));

    let download = "function M.discover.download(ctx, id) return { wp_type = \"image\" } end";
    let mut download_manager = Manager::new(contract);
    download_manager.load(&remote("download = true", download), "org.test", "1", v3).unwrap();
    assert!(download_manager.subscription_status("remote", &["item"]).is_err());

    let mut subscription_manager = Manager::new(contract);
    subscription_manager
        .load(&remote("subscription = true", SUBSCRIPTION_API), "org.test", "1", v3)
        .unwrap();
    assert!(subscription_manager.call_download("remote", "item").is_err());

    let both = format!("function M.discover.download(ctx, id) return {{}} end\n{SUBSCRIPTION_API}");
    assert!(!loads(contract, &remote("subscription = true", &both), v3));
    assert!(!loads(contract, &remote("download = true", &both), v3));
    assert!(!loads(contract, &remote("download = true, subscription = true", &both), v3));
}

#[test]
fn supported_remote_capabilities_are_mutually_exclusive() {
    assert_remote_is_exclusive(Contract::Localized);
    assert!(!loads(Contract::Localized, &remote("", ORPHAN_DETAILS), ENTRY_VERSION_V4));
}

#[test]
fn v3_remote_capabilities_are_mutually_exclusive() {
    assert_remote_is_exclusive(Contract::Plain);
    assert!(loads(Contract::Plain, &remote("", ORPHAN_DETAILS), ENTRY_VERSION_V2));
    let source = remote("subscription = true", SUBSCRIPTION_API);
    let error = Manager::plain().load(&source, "p", "1", ENTRY_VERSION_V2).unwrap_err();
    assert_eq!(error.message(), "subscription capability requires entry_version 3");
}

#[test]
fn a_mismatched_remote_capability_is_named() {
    let mut manager = Manager::localized();
    manager.load(&remote("", ""), "org.test", "1", ENTRY_VERSION_V3).unwrap();
    let error = manager.subscription_status("remote", &["item"]).unwrap_err();
    assert_eq!(
        error.message(),
        "remote capability mismatch for 'remote': expected Subscription, got None"
    );
}

#[test]
fn what_stands_in_the_place_of_a_callback_is_a_function() {
    let source = remote("", "M.wallpaper = { apply = 1 }");
    let error = Manager::localized().load(&source, "p", "1", ENTRY_VERSION_V3).unwrap_err();
    assert_eq!(error.message(), "module.wallpaper.apply must be a function, got integer");
    let source = remote("", "M.wallpaper = { extras = {} }");
    let error = Manager::plain().load(&source, "p", "1", ENTRY_VERSION_V3).unwrap_err();
    assert_eq!(error.message(), "module.wallpaper.extras must be a function, got table");
    assert!(loads(Contract::Localized, &source, ENTRY_VERSION_V3));
}

/// Why a module is refused whose `info()` returns a table.
fn refusal(info: &str) -> String {
    let source = format!("return {{ info = function() return {info} end }}");
    Manager::localized().load(&source, "p", "1", ENTRY_VERSION_V3).unwrap_err().message()
}

#[test]
fn a_refused_value_is_explained_as_the_lua_host_does() {
    let lua = Lua::new();
    let info: Table = lua.load(r#"return { broken = "\255", flag = true }"#).eval().unwrap();
    let missing = info.get::<String>("missing").unwrap_err();
    let broken = info.get::<String>("broken").unwrap_err();
    let flag = info.get::<String>("flag").unwrap_err();
    let table = info.get::<Table>("missing").unwrap_err();
    let number = lua.load("return 1").eval::<Table>().unwrap_err();

    assert_eq!(refusal("{}"), format!("info().name required: {missing}"));
    assert_eq!(refusal(r#"{ name = "\255" }"#), format!("info().name required: {broken}"));
    assert_eq!(refusal("{ name = true }"), format!("info().name required: {flag}"));
    assert_eq!(refusal("{ name = 'x' }"), format!("info().capabilities required: {table}"));
    assert_eq!(
        refusal("{ name = 'x', capabilities = {}, settings = { 1 } }"),
        format!("info().settings entry: {number}")
    );
    for order in ["3000000000", "3e9", "3000000000.5", "1/0", "'3e9'", "'1e999'", "'x'", "{}"] {
        let value: Table = lua.load(format!("return {{ order = {order} }}")).eval().unwrap();
        let why = value.get::<Option<i32>>("order").unwrap_err();
        let setting = format!("{{ key = 'k', order = {order} }}");
        assert_eq!(
            refusal(&format!("{{ name = 'x', capabilities = {{}}, settings = {{ {setting} }} }}")),
            format!("info().settings.order: {why}")
        );
    }
    let source = "return { info = true }";
    let error = Manager::localized().load(source, "p", "1", ENTRY_VERSION_V3).unwrap_err();
    assert_eq!(
        error.message(),
        format!("plugin must export info(): {}", info.get::<Function>("flag").unwrap_err())
    );
}

// ---------------------------------------------------------------------------
// States

const MIGRATION_FAILURE: &str = r#"
local M = {}
function M.info()
    return {
        name = "migration_failure",
        capabilities = {},
        state_migrations = { { schema_id = "legacy", file = "legacy.json" } },
    }
end
M.lifecycle = {}
function M.lifecycle.load(blob) end
function M.lifecycle.save() return "new" end
function M.lifecycle.check(ctx) return { state = "signed_out" } end
function M.lifecycle.migrate(schema_id, raw) error("migration rejected") end
return M
"#;

fn assert_failed_migration_keeps_file(mut manager: Manager) {
    manager
        .store
        .legacy
        .lock()
        .unwrap()
        .insert("legacy.json".to_string(), "legacy secret".to_string());
    assert!(manager.load(MIGRATION_FAILURE, "org.failure", "1", ENTRY_VERSION_V3).is_err());
    assert_eq!(manager.store.legacy.lock().unwrap()["legacy.json"], "legacy secret");
    assert!(manager.store.preserved.lock().unwrap().is_empty());
    assert!(manager.store.states.lock().unwrap().is_empty());
}

#[test]
fn tests_failed_state_migration_preserves_the_legacy_blob() {
    assert_failed_migration_keeps_file(Manager::localized());
}

#[test]
fn source_manager_failed_state_migration_preserves_the_legacy_blob() {
    assert_failed_migration_keeps_file(Manager::plain());
}

const INVALID_QR: &str = r#"
local M = {}
function M.info()
    return {
        name = "invalid_qr",
        capabilities = {},
        actions = { { id = "sign_in", kind = "qr_login" } },
    }
end
M.actions = {}
function M.actions.status(ctx) return { actions = {} } end
M.qrlogin = {}
function M.qrlogin.begin(ctx, action_id) return { key = {} } end
function M.qrlogin.poll(ctx, key) return { state = "awaiting_scan" } end
return M
"#;

fn assert_invalid_login_is_dropped(mut manager: Manager) {
    manager.load(INVALID_QR, "org.invalid", "1", ENTRY_VERSION_V3).unwrap();
    assert!(manager.begin_qr_login("invalid_qr", "sign_in").is_err());
    let host = manager.host("invalid_qr").unwrap();
    assert!(host.qr_keys.is_empty());
    assert!(host.runtime.prepare_qr_poll("invalid_qr", 1).is_err());
}

#[test]
fn tests_invalid_qr_begin_result_does_not_retain_the_opaque_key() {
    assert_invalid_login_is_dropped(Manager::localized());
}

#[test]
fn source_manager_invalid_qr_begin_result_does_not_retain_the_opaque_key() {
    assert_invalid_login_is_dropped(Manager::plain());
}

const SEPARATE_FLOWS: &str = r#"
local M = {}
local scans = 0
function M.info()
    return {
        name = "separate_flows",
        capabilities = {
            source = { scan = true, types = { "image" } },
            discover = { search = true, subscription = true },
        },
    }
end
M.lifecycle = {}
function M.lifecycle.load(blob) end
function M.lifecycle.save() return tostring(scans) end
function M.lifecycle.check(ctx)
    return { state = "signed_in", display_value = "test" }
end
M.source = {}
function M.source.scan(ctx) scans = scans + 1 return {} end
M.discover = {}
function M.discover.search(ctx, params) return { items = {}, has_more = false } end
M.subscription = {}
function M.subscription.status(ctx, ids)
    local result = {}
    for _, id in ipairs(ids) do result[id] = "unknown" end
    return result
end
function M.subscription.subscribe(ctx, id) return { accepted = true } end
function M.subscription.unsubscribe(ctx, id) return { accepted = true } end
return M
"#;

fn assert_subscription_does_not_scan(mut manager: Manager) {
    manager.load(SEPARATE_FLOWS, "org.test", "1", ENTRY_VERSION_V3).unwrap();
    let mut entry = wallpaper("separate_flows", "item.jpg");
    assert!(manager.registry.supports_item_unsubscribe(&entry, &manager.handles));
    entry.external_id = None;
    assert!(!manager.registry.supports_item_unsubscribe(&entry, &manager.handles));

    manager.set_subscription("separate_flows", "item", true).unwrap();
    assert_eq!(manager.store.states.lock().unwrap()["org.test"], "0");
    manager.scan_all().unwrap();
    assert_eq!(manager.store.states.lock().unwrap()["org.test"], "1");
}

#[test]
fn tests_subscription_mutation_does_not_scan_source_libraries() {
    assert_subscription_does_not_scan(Manager::localized());
}

#[test]
fn source_manager_subscription_mutation_does_not_scan_source_libraries() {
    assert_subscription_does_not_scan(Manager::plain());
}

// ---------------------------------------------------------------------------
// Replaced plugins

fn searching(name: &str) -> String {
    format!(
        r#"
local M = {{}}
function M.info()
    return {{ name = "{name}", capabilities = {{ discover = {{ search = true }} }} }}
end
M.discover = {{}}
function M.discover.search(ctx, params) return {{ items = {{}}, has_more = false }} end
return M
"#
    )
}

fn assert_replacement(mut current: Manager) {
    current.load(&searching("old"), "org.old", "1", ENTRY_VERSION_V3).unwrap();
    current.registry.suspend_plugins(&mut current.handles);
    let mut invalid = Manager::new(current.contract);
    assert!(invalid
        .load("error('invalid replacement')", "org.new", "1", ENTRY_VERSION_V3)
        .is_err());
    assert_eq!(current.sources()[0].name, "old");
    let refused = current.call_discover("old", "", &[]).unwrap_err();
    assert!(refused.message().contains("source plugin runtime is reloading"));
    current.registry.resume_plugins(&mut current.handles);
    assert!(current.call_discover("old", "", &[]).is_ok());

    let mut replacement = current.candidate();
    let (host, name) =
        current.host_for(&[("new.lua", &searching("new"))], "org.new", "1", ENTRY_VERSION_V3).unwrap();
    let info = host.runtime.loaded_plugin_info(&name).unwrap();
    replacement.load_plugin(info, &mut current.handles).unwrap();
    current.hosts.push(host);
    replacement
        .retain_plugins_from(&current.registry, &vec!["org.old".to_string()], &current.handles)
        .unwrap();
    current.registry.suspend_plugins(&mut current.handles);
    current.registry.replace_plugins(replacement, &mut current.handles);
    let names: Vec<_> = current.sources().into_iter().map(|source| source.name).collect();
    assert_eq!(names, vec!["new", "old"]);
    assert!(current.call_discover("old", "", &[]).is_ok());
    assert!(current.call_discover("new", "", &[]).is_ok());
}

#[test]
fn tests_plugin_registry_replacement_keeps_current_runtime_until_candidate_is_valid() {
    assert_replacement(Manager::localized());
}

#[test]
fn source_manager_plugin_registry_replacement_keeps_current_runtime_until_candidate_is_valid() {
    assert_replacement(Manager::plain());
}

#[test]
fn a_name_is_registered_once() {
    let mut manager = Manager::localized();
    manager.load(&searching("same"), "org.a", "1", ENTRY_VERSION_V3).unwrap();
    let error = manager.load(&searching("same"), "org.b", "1", ENTRY_VERSION_V3).unwrap_err();
    assert!(error.message().contains("same"));
    assert_eq!(manager.sources().len(), 1);
}

// ---------------------------------------------------------------------------
// Showing wallpapers

const APPLYING: &str = r#"
local M = {}
function M.info()
    return {
        name = "apply_test",
        capabilities = { wallpaper = { apply = true } },
    }
end
M.wallpaper = {}
function M.wallpaper.apply(entry, ctx)
    return {
        extras = { path = entry.resource, token = "resource" },
        default_user_properties = {
            ["waywallen.scheme_color"] = "0.1 0.2 0.3",
        },
    }
end
return M
"#;

#[test]
fn wallpaper_apply_returns_resources_and_authored_defaults() {
    let mut mgr = Manager::localized();
    mgr.load(APPLYING, "test.plugin", "1.0", ENTRY_VERSION_V3).unwrap();
    let entry = wallpaper("apply_test", "/tmp/wallpaper.mp4");
    let apply = mgr.call_apply("apply_test", &entry).unwrap();
    assert_eq!(apply.extras.get("path"), Some(&entry.resource));
    assert_eq!(apply.extras.get("token").map(String::as_str), Some("resource"));
    assert_eq!(
        apply.default_user_properties.get("waywallen.scheme_color").map(String::as_str),
        Some("0.1 0.2 0.3")
    );
}

#[test]
fn plain_plugins_answer_with_the_extras_alone() {
    let source = r#"
local M = {}
function M.info()
    return { name = "extras_test", capabilities = { wallpaper = { extras = true } } }
end
M.wallpaper = {}
function M.wallpaper.extras(entry, ctx)
    if entry.resource == "bad" then return { path = {} } end
    if entry.resource == "secret" then error("access_token=abc") end
    return { path = entry.resource, count = 3 }
end
return M
"#;
    let mut mgr = Manager::plain();
    mgr.load(source, "test.plugin", "1.0", ENTRY_VERSION_V2).unwrap();
    let apply = mgr.call_apply("extras_test", &wallpaper("extras_test", "/tmp/a.mp4")).unwrap();
    assert_eq!(apply.extras.get("path").map(String::as_str), Some("/tmp/a.mp4"));
    assert_eq!(apply.extras.get("count").map(String::as_str), Some("3"));
    assert!(apply.default_user_properties.is_empty());
    let error = mgr.call_apply("extras_test", &wallpaper("extras_test", "bad")).unwrap_err();
    assert!(matches!(error, Error::SourceExtrasFailed { ref plugin, .. } if plugin == "extras_test"));
    let error = mgr.call_apply("extras_test", &wallpaper("extras_test", "secret")).unwrap_err();
    assert!(error.message().contains("access_token=[REDACTED]"));
}

#[test]
fn a_table_that_is_no_string_map_is_explained() {
    let lua = Lua::new();
    let entry = wallpaper("maps", "/tmp/a.mp4");
    for table in [
        "{ path = {} }",
        "{ path = '\\255' }",
        "{ ['\\255'] = 'x' }",
        "{ [true] = 'x' }",
        "{ [{}] = {} }",
        "{ 'a', true }",
        "{ 'a', 'a\\255' }",
    ] {
        let value: Table = lua.load(format!("return {table}")).eval().unwrap();
        let why = value.pairs::<String, String>().find_map(Result::err).unwrap();

        let mut plain = Manager::plain();
        let source = format!(
            "return {{ info = function() return {{ name = 'maps', capabilities = {{
                wallpaper = {{ extras = true }} }} }} end,
                wallpaper = {{ extras = function() return {table} end }} }}"
        );
        plain.load(&source, "p", "1", ENTRY_VERSION_V2).unwrap();
        assert_eq!(plain.call_apply("maps", &entry).unwrap_err().message(), why.to_string());

        let mut localized = Manager::localized();
        let source = format!(
            "return {{ info = function() return {{ name = 'maps', capabilities = {{
                wallpaper = {{ apply = true }} }} }} end,
                wallpaper = {{ apply = function() return {{ extras = {table} }} end }} }}"
        );
        localized.load(&source, "p", "1", ENTRY_VERSION_V3).unwrap();
        assert_eq!(
            localized.call_apply("maps", &entry).unwrap_err().message(),
            format!("wallpaper.apply result.extras must be a string map: {why}")
        );
    }
}

#[test]
fn a_plugin_that_applies_nothing_is_not_asked() {
    let mut mgr = Manager::localized();
    mgr.load(&searching("quiet"), "test.plugin", "1.0", ENTRY_VERSION_V3).unwrap();
    let apply = mgr.call_apply("quiet", &wallpaper("quiet", "/tmp/a.png")).unwrap();
    assert!(apply.extras.is_empty());
    assert!(mgr.call_apply("missing", &wallpaper("missing", "/tmp/a.png")).is_err());
}

// ---------------------------------------------------------------------------
// Answers

#[test]
fn answers_are_read_leniently_where_they_may_be() {
    let source = r#"
local M = {}
function M.info()
    return { name = "lenient", capabilities = { source = { types = {"image"}, scan = true } } }
end
M.source = {}
function M.source.scan(ctx)
    return {
        { name = 1, wp_type = "image", resource = "/a", size = 2.9, width = "17", height = -1,
          tags = { "x", {} } },
        { name = "b", wp_type = "image", resource = "/b", size = "big", tags = { "x", 2 } },
    }
end
return M
"#;
    let mut mgr = Manager::localized();
    mgr.load(source, "p", "1", ENTRY_VERSION_V3).unwrap();
    mgr.scan_all().unwrap();
    let list = mgr.registry.list();
    assert_eq!(list[0].name, "1");
    assert_eq!(list[0].size, Some(2));
    assert_eq!(list[0].width, Some(17));
    assert_eq!(list[0].height, None);
    assert!(list[0].tags.is_empty());
    assert_eq!(list[1].size, None);
    assert_eq!(list[1].tags, vec!["x", "2"]);
}

#[test]
fn a_login_without_an_interval_is_polled_at_the_usual_one() {
    let source = INVALID_QR.replace("{ key = {} }", "{ key = 1, challenge = \"c\" }");
    let mut mgr = Manager::localized();
    mgr.load(&source, "p", "1", ENTRY_VERSION_V3).unwrap();
    let first = mgr.begin_qr_login("invalid_qr", "sign_in").unwrap();
    assert_eq!(first.poll_after_ms, DEFAULT_POLL_AFTER_MS);
    assert_eq!(first.expires_in_ms, None);
    let second = mgr.begin_qr_login("invalid_qr", "sign_in").unwrap();
    assert_eq!((first.operation_id, second.operation_id), (1, 2));
    let host = mgr.host("invalid_qr").unwrap();
    assert_eq!(host.runtime.cancel_qr_login("invalid_qr", 1), None);
    assert!(host.runtime.prepare_qr_poll("invalid_qr", 1).is_err());
    assert!(host.runtime.prepare_qr_poll("invalid_qr", 2).is_ok());
}
