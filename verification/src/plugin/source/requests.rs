//! The requests that a source plugin answers through its callbacks.
//!
//! Each request comes in two parts. A `prepare_` function says which callback
//! the request asks, if any, or why it is refused; the function that has the
//! request's own name takes what came of asking it and gives the answer.
use vstd::prelude::*;
use crate::error;
use crate::error::{Error, Fault};
use crate::map::{texts_of, TextMap};
use crate::plugin::lua;
use crate::plugin::lua::{explain_utf8, LuaField, LuaTable, LuaValue};
use crate::plugin::source::answers::{
    DiscoverDetails, DiscoverDownload, DiscoverResolve, DiscoverSearchResult, PluginLifecycleCheck,
    SubscriptionSetResult, SubscriptionStatusResult, WallpaperApply, WallpaperApplyView,
};
use crate::plugin::source::callbacks::Callback;
use crate::plugin::source::context;
use crate::plugin::source::context::{text_list, text_value, EntryField, EntryValue};
use crate::plugin::source::entry::Dialect;
use crate::plugin::source::filters;
use crate::plugin::source::filters::validate_discover_filter_values;
use crate::plugin::source::redact;
use crate::plugin::source::redact::redact_secrets;
use crate::plugin::source::replies;
use crate::plugin::source::replies::{
    read_action_status, read_apply, read_check, read_details, read_download, read_resolve,
    read_search, read_subscription_set, read_subscription_status, read_texts,
};
use crate::plugin::source::runtime;
use crate::plugin::source::runtime::{
    describe_action, discover_call, discover_table, take_table, CallbackReply, LuaPluginRuntime,
    RuntimeView,
};
use crate::plugin::source::types::{
    LoadedPluginInfoView, RemoteCapability, SourceAction, SourceActionFieldView, SourceActionKind,
    SourceActionView, SourceStatus,
};
use crate::text;
use crate::text::{copy_list, same, views};

verus! {

// ---------------------------------------------------------------------------
// Applying a wallpaper

/// A failure of the callback that shows a wallpaper.
pub open spec fn apply_failure(dialect: Dialect, plugin: Seq<char>, text: Seq<char>) -> Fault {
    if dialect.localized() {
        Fault::SourceApplyFailed { plugin, message: redact::redacted(text) }
    } else {
        Fault::SourceExtrasFailed { plugin, message: redact::redacted(text) }
    }
}

pub open spec fn apply_missing(dialect: Dialect) -> Seq<char> {
    if dialect.localized() {
        "module.wallpaper.apply required"@
    } else {
        "module.wallpaper.extras required"@
    }
}

/// A plugin that does not apply wallpapers is not asked.
pub open spec fn apply_request(v: RuntimeView, name: Seq<char>) -> Result<Option<Callback>, Fault> {
    if !v.plugins.contains_key(name) {
        Err(Fault::SourcePluginNotFound(name))
    } else if !v.plugins[name].info.capabilities.wallpaper.apply {
        Ok(None)
    } else if !v.plugins[name].callbacks.contains(Callback::WallpaperApply) {
        Err(apply_failure(v.plugins[name].dialect, name, apply_missing(v.plugins[name].dialect)))
    } else {
        Ok(Some(Callback::WallpaperApply))
    }
}

/// Why the answer to an apply callback is refused, in its own words.
pub open spec fn apply_reply_fault(dialect: Dialect, reply: CallbackReply) -> Option<Seq<char>> {
    match runtime::no_table(reply) {
        Some(text) => Some(text),
        None => match replies::apply_fault(dialect, runtime::reply_table(reply)) {
            Some(fault) => Some(fault.message()),
            None => None,
        },
    }
}

pub open spec fn call_apply_fault(v: RuntimeView, name: Seq<char>, reply: CallbackReply) -> Option<
    Fault,
> {
    match apply_request(v, name) {
        Err(fault) => Some(fault),
        Ok(None) => None,
        Ok(Some(_)) => match apply_reply_fault(v.plugins[name].dialect, reply) {
            Some(text) => Some(apply_failure(v.plugins[name].dialect, name, text)),
            None => None,
        },
    }
}

pub open spec fn call_apply_value(
    v: RuntimeView,
    name: Seq<char>,
    reply: CallbackReply,
) -> WallpaperApplyView {
    match apply_request(v, name) {
        Ok(Some(_)) => replies::apply_value(
            v.plugins[name].dialect,
            runtime::reply_table(reply),
        ),
        _ => WallpaperApplyView { extras: Map::empty(), default_user_properties: Map::empty() },
    }
}

fn apply_failed(dialect: Dialect, name: &str, text: &str) -> (e: Error)
    ensures
        e@ == apply_failure(dialect, name@, text@),
{
    if dialect.is_localized() {
        Error::SourceApplyFailed { plugin: name.to_owned(), message: redact_secrets(text) }
    } else {
        Error::SourceExtrasFailed { plugin: name.to_owned(), message: redact_secrets(text) }
    }
}

impl LuaPluginRuntime {
    pub fn prepare_apply(&self, name: &str) -> (r: Result<Option<Callback>, Error>)
        requires
            self.wf(),
        ensures
            runtime::asks(r, apply_request(self@, name@)),
    {
        let plugin = self.plugin(name)?;
        if !plugin.info.capabilities.wallpaper.apply {
            return Ok(None);
        }
        if !plugin.callbacks.has(Callback::WallpaperApply) {
            let what = if plugin.dialect.is_localized() {
                "module.wallpaper.apply required"
            } else {
                "module.wallpaper.extras required"
            };
            return Err(apply_failed(plugin.dialect, name, what));
        }
        Ok(Some(Callback::WallpaperApply))
    }

    /// What a renderer needs to show a wallpaper.
    pub fn call_apply(&self, name: &str, reply: &CallbackReply) -> (r: Result<
        WallpaperApply,
        Error,
    >)
        requires
            self.wf(),
        ensures
            error::outcome(
                r,
                call_apply_fault(self@, name@, *reply),
                call_apply_value(self@, name@, *reply),
            ),
            r matches Ok(apply) ==> apply.extras.wf() && apply.default_user_properties.wf(),
    {
        if self.prepare_apply(name)?.is_none() {
            let extras: TextMap<String> = TextMap::new();
            let default_user_properties: TextMap<String> = TextMap::new();
            assert(texts_of(extras@) =~= Map::<Seq<char>, Seq<char>>::empty());
            assert(texts_of(default_user_properties@) =~= Map::<Seq<char>, Seq<char>>::empty());
            return Ok(WallpaperApply { extras, default_user_properties });
        }
        let dialect = self.plugin(name)?.dialect;
        match take_table(reply) {
            Ok(t) => match read_apply(dialect, t) {
                Ok(apply) => Ok(apply),
                Err(e) => Err(apply_failed(dialect, name, e.message().as_str())),
            },
            Err(text) => Err(apply_failed(dialect, name, text.as_str())),
        }
    }

    /// The extras alone.
    pub fn call_extras(&self, name: &str, reply: &CallbackReply) -> (r: Result<
        TextMap<String>,
        Error,
    >)
        requires
            self.wf(),
        ensures
            match r {
                Ok(extras) => {
                    &&& call_apply_fault(self@, name@, *reply) is None
                    &&& extras.wf()
                    &&& texts_of(extras@) == call_apply_value(self@, name@, *reply).extras
                },
                Err(e) => call_apply_fault(self@, name@, *reply) == Some(e@),
            },
    {
        let apply = self.call_apply(name, reply)?;
        Ok(apply.extras)
    }
}

// ---------------------------------------------------------------------------
// Properties of a wallpaper

pub open spec fn properties_request(v: RuntimeView, name: Seq<char>) -> Result<
    Option<Callback>,
    Fault,
> {
    if !v.plugins.contains_key(name) {
        Err(Fault::SourcePluginNotFound(name))
    } else if !v.plugins[name].info.capabilities.wallpaper.properties {
        Ok(None)
    } else if !v.plugins[name].callbacks.contains(Callback::WallpaperProperties) {
        Err(Fault::Internal("module.wallpaper.properties required"@))
    } else {
        Ok(Some(Callback::WallpaperProperties))
    }
}

/// A schema of properties: none, as text, or a value that is yet to be encoded.
#[derive(Debug)]
pub enum PropertySchema {
    Absent,
    Text(String),
    Value(LuaValue),
}

pub open spec fn properties_fault(v: RuntimeView, name: Seq<char>, reply: CallbackReply) -> Option<
    Fault,
> {
    match properties_request(v, name) {
        Err(fault) => Some(fault),
        Ok(None) => None,
        Ok(Some(_)) => match reply {
            CallbackReply::Failed(text) => Some(
                Fault::Internal("properties("@ + name + "): "@ + redact::redacted(text@)),
            ),
            CallbackReply::Returned(LuaValue::Text(string)) => error::unless(
                string.text is Some,
                Fault::Internal(lua::not_utf8(string)),
            ),
            CallbackReply::Returned(_) => None,
        },
    }
}

/// Whether the schema is the one that the reply gives.
pub open spec fn is_schema(
    schema: PropertySchema,
    v: RuntimeView,
    name: Seq<char>,
    reply: CallbackReply,
) -> bool {
    match properties_request(v, name) {
        Ok(Some(_)) => match reply->Returned_0 {
            LuaValue::Nil => schema is Absent,
            LuaValue::Text(string) => schema matches PropertySchema::Text(text) && text@
                == string.text->0@,
            value => schema == PropertySchema::Value(value),
        },
        _ => schema is Absent,
    }
}

impl LuaPluginRuntime {
    pub fn prepare_properties(&self, name: &str) -> (r: Result<Option<Callback>, Error>)
        requires
            self.wf(),
        ensures
            runtime::asks(r, properties_request(self@, name@)),
    {
        let plugin = self.plugin(name)?;
        if !plugin.info.capabilities.wallpaper.properties {
            return Ok(None);
        }
        if !plugin.callbacks.has(Callback::WallpaperProperties) {
            return Err(Error::Internal("module.wallpaper.properties required".to_owned()));
        }
        Ok(Some(Callback::WallpaperProperties))
    }

    /// The schema of a wallpaper's properties.
    pub fn call_properties(&self, name: &str, reply: CallbackReply) -> (r: Result<
        PropertySchema,
        Error,
    >)
        requires
            self.wf(),
        ensures
            match r {
                Ok(schema) => properties_fault(self@, name@, reply) is None && is_schema(
                    schema,
                    self@,
                    name@,
                    reply,
                ),
                Err(e) => properties_fault(self@, name@, reply) == Some(e@),
            },
    {
        if self.prepare_properties(name)?.is_none() {
            return Ok(PropertySchema::Absent);
        }
        match reply {
            CallbackReply::Failed(text) => {
                let mut message = "properties(".to_owned();
                message.append(name);
                message.append("): ");
                let shown = redact_secrets(text.as_str());
                message.append(shown.as_str());
                Err(Error::Internal(message))
            },
            CallbackReply::Returned(value) => match value {
                LuaValue::Nil => Ok(PropertySchema::Absent),
                LuaValue::Text(string) => match &string.text {
                    Some(text) => Ok(PropertySchema::Text(text.clone())),
                    None => Err(Error::Internal(explain_utf8(&string))),
                },
                value => Ok(PropertySchema::Value(value)),
            },
        }
    }
}

// ---------------------------------------------------------------------------
// Finding libraries

/// A plugin that cannot look for libraries is not asked.
pub open spec fn detect_request(
    v: RuntimeView,
    name: Seq<char>,
) -> Result<Option<Callback>, Fault> {
    if !v.plugins.contains_key(name) || !runtime::plays(
        v.plugins[name].info,
        runtime::PluginRole::AutoDetect,
    ) {
        Ok(None)
    } else if !v.plugins[name].callbacks.contains(Callback::SourceAutoDetect) {
        Err(Fault::Internal("module.source.auto_detect required"@))
    } else {
        Ok(Some(Callback::SourceAutoDetect))
    }
}

/// The libraries that a plugin has found; a failure counts as none.
pub open spec fn detected(reply: CallbackReply) -> Seq<Seq<char>> {
    if runtime::no_table(reply) is None {
        let items = runtime::reply_table(reply).sequence@;
        replies::readable_texts(items, items.len() as int)
    } else {
        Seq::empty()
    }
}

impl LuaPluginRuntime {
    pub fn prepare_auto_detect(&self, name: &str) -> (r: Result<Option<Callback>, Error>)
        requires
            self.wf(),
        ensures
            runtime::asks(r, detect_request(self@, name@)),
    {
        match self.plugin(name) {
            Ok(plugin) => {
                if !runtime::has_role(&plugin.info, runtime::PluginRole::AutoDetect) {
                    return Ok(None);
                }
                if !plugin.callbacks.has(Callback::SourceAutoDetect) {
                    return Err(Error::Internal("module.source.auto_detect required".to_owned()));
                }
                Ok(Some(Callback::SourceAutoDetect))
            },
            Err(_) => Ok(None),
        }
    }
}

/// Puts the libraries that a plugin has found under its name, if there are any.
pub fn auto_detect_all(out: &mut TextMap<Vec<String>>, name: &str, reply: &CallbackReply)
    requires
        old(out).wf(),
    ensures
        final(out).wf(),
        detected(*reply).len() == 0 ==> final(out)@ == old(out)@,
        detected(*reply).len() > 0 ==> {
            &&& final(out)@.contains_key(name@)
            &&& views(final(out)@[name@]@) == detected(*reply)
            &&& final(out)@.remove(name@) == old(out)@.remove(name@)
        },
{
    if let Ok(t) = take_table(reply) {
        let paths = read_texts(&t.sequence);
        assert(views(paths@) == detected(*reply));
        if paths.len() > 0 {
            let ghost before = out@;
            out.insert(name.to_owned(), paths);
            assert(out@.remove(name@) =~= before.remove(name@));
        }
    }
}

// ---------------------------------------------------------------------------
// Searching

/// The type of remote items that do not give one.
pub open spec fn default_type(info: LoadedPluginInfoView) -> Seq<char> {
    match info.capabilities.source {
        Some(source) => if source.types.len() > 0 {
            source.types[0]
        } else {
            Seq::empty()
        },
        None => Seq::empty(),
    }
}

pub open spec fn search_request(v: RuntimeView, name: Seq<char>, tags: Seq<Seq<char>>) -> Result<
    Option<Callback>,
    Fault,
> {
    if !v.plugins.contains_key(name) {
        Err(Fault::SourcePluginNotFound(name))
    } else {
        match v.plugins[name].info.capabilities.discover {
            None => Err(Fault::DiscoverUnsupported(name)),
            Some(discover) => match filters::selected_values_fault(name, discover.filters, tags) {
                Some(fault) => Err(fault),
                None => if !v.plugins[name].callbacks.contains(Callback::DiscoverSearch) {
                    Err(Fault::DiscoverUnsupported(name))
                } else {
                    Ok(Some(Callback::DiscoverSearch))
                },
            },
        }
    }
}

/// The fields of the table that a search hands to its callback.
pub open spec fn search_fields(
    query: Seq<char>,
    sort: Seq<char>,
    page: int,
    tags: Seq<Seq<char>>,
) -> Seq<EntryField> {
    seq![
        context::text_entry("query"@, query),
        context::text_entry("sort"@, sort),
        EntryField { key: "page"@, value: EntryValue::Number(page) },
        EntryField { key: "tags"@, value: EntryValue::Texts(tags) },
    ]
}

/// What a search is asked for, as the table that is handed to its callback.
pub fn discover_params(query: &str, sort: &str, page: u32, tags: &Vec<String>) -> (t: LuaTable)
    ensures
        context::hold_entries(
            t.fields@,
            search_fields(query@, sort@, page as int, views(tags@)),
        ),
        t.sequence@.len() == 0,
        t.others@.len() == 0,
{
    let mut fields: Vec<LuaField> = Vec::new();
    fields.push(LuaField { key: "query".to_owned(), value: text_value(query) });
    fields.push(LuaField { key: "sort".to_owned(), value: text_value(sort) });
    fields.push(LuaField { key: "page".to_owned(), value: LuaValue::Integer(page as i64) });
    fields.push(LuaField { key: "tags".to_owned(), value: LuaValue::Table(text_list(tags)) });
    LuaTable { fields, sequence: Vec::new(), others: Vec::new() }
}

pub open spec fn call_discover_fault(
    v: RuntimeView,
    name: Seq<char>,
    tags: Seq<Seq<char>>,
    reply: CallbackReply,
) -> Option<Fault> {
    error::first(
        runtime::request_fault(search_request(v, name, tags)),
        error::first(
            runtime::discover_reply_fault(reply, name),
            replies::search_fault(runtime::reply_table(reply), name),
        ),
    )
}

impl LuaPluginRuntime {
    pub fn prepare_discover(&self, name: &str, tags: &Vec<String>) -> (r: Result<
        Option<Callback>,
        Error,
    >)
        requires
            self.wf(),
        ensures
            runtime::asks(r, search_request(self@, name@, views(tags@))),
    {
        let plugin = self.plugin(name)?;
        match &plugin.info.capabilities.discover {
            None => Err(Error::DiscoverUnsupported(name.to_owned())),
            Some(discover) => {
                validate_discover_filter_values(name, &discover.filters, tags)?;
                if !plugin.callbacks.has(Callback::DiscoverSearch) {
                    return Err(Error::DiscoverUnsupported(name.to_owned()));
                }
                Ok(Some(Callback::DiscoverSearch))
            },
        }
    }

    /// The remote items that a search has found.
    pub fn call_discover(&self, name: &str, tags: &Vec<String>, reply: &CallbackReply) -> (r:
        Result<DiscoverSearchResult, Error>)
        requires
            self.wf(),
        ensures
            error::outcome(
                r,
                call_discover_fault(self@, name@, views(tags@), *reply),
                replies::search_value(
                    runtime::reply_table(*reply),
                    default_type(self@.plugins[name@].info),
                ),
            ),
            r matches Ok(found) ==> replies::items_wf(found.items@),
    {
        let _ = self.prepare_discover(name, tags)?;
        let t = discover_table(reply, name)?;
        let plugin = self.plugin(name)?;
        match &plugin.info.capabilities.source {
            Some(source) => if source.types.len() > 0 {
                assert(views(source.types@)[0] == source.types@[0]@);
                read_search(t, name, source.types[0].as_str())
            } else {
                proof {
                    reveal_strlit("");
                    assert(""@ =~= Seq::<char>::empty());
                }
                read_search(t, name, "")
            },
            None => {
                proof {
                    reveal_strlit("");
                    assert(""@ =~= Seq::<char>::empty());
                }
                read_search(t, name, "")
            },
        }
    }
}

// ---------------------------------------------------------------------------
// One remote item

/// What may be asked of one remote item.
#[derive(Clone, Copy, Debug, PartialEq, Eq, Structural)]
pub enum ItemRequest {
    Details,
    Download,
    Resolve,
}

pub open spec fn item_callback(request: ItemRequest) -> Callback {
    match request {
        ItemRequest::Details => Callback::DiscoverDetails,
        ItemRequest::Download => Callback::DiscoverDownload,
        ItemRequest::Resolve => Callback::DiscoverResolve,
    }
}

pub open spec fn item_supported(info: LoadedPluginInfoView, request: ItemRequest) -> bool {
    info.capabilities.discover matches Some(discover) && match request {
        ItemRequest::Details => discover.supports_details,
        ItemRequest::Download => discover.supports_download,
        ItemRequest::Resolve => discover.supports_resolve,
    }
}

pub open spec fn item_request(v: RuntimeView, name: Seq<char>, request: ItemRequest) -> Result<
    Option<Callback>,
    Fault,
> {
    if !v.plugins.contains_key(name) {
        Err(Fault::SourcePluginNotFound(name))
    } else if !item_supported(v.plugins[name].info, request)
        || !v.plugins[name].callbacks.contains(item_callback(request)) {
        Err(Fault::DiscoverUnsupported(name))
    } else {
        Ok(Some(item_callback(request)))
    }
}

/// The fields of the table that hands a downloaded item to its callback.
pub open spec fn resolve_fields(id: Seq<char>, dir: Seq<char>) -> Seq<EntryField> {
    seq![context::text_entry("id"@, id), context::text_entry("dir"@, dir)]
}

/// Which item is to be resolved and where it lies, as the table that is handed
/// to the callback.
pub fn resolve_params(id: &str, dir: &str) -> (t: LuaTable)
    ensures
        context::hold_entries(t.fields@, resolve_fields(id@, dir@)),
        t.sequence@.len() == 0,
        t.others@.len() == 0,
{
    let mut fields: Vec<LuaField> = Vec::new();
    fields.push(LuaField { key: "id".to_owned(), value: text_value(id) });
    fields.push(LuaField { key: "dir".to_owned(), value: text_value(dir) });
    LuaTable { fields, sequence: Vec::new(), others: Vec::new() }
}

pub open spec fn call_details_fault(
    v: RuntimeView,
    name: Seq<char>,
    reply: CallbackReply,
) -> Option<Fault> {
    error::first(
        runtime::request_fault(item_request(v, name, ItemRequest::Details)),
        error::first(
            runtime::discover_reply_fault(reply, name),
            replies::details_fault(runtime::reply_table(reply)),
        ),
    )
}

pub open spec fn call_download_fault(
    v: RuntimeView,
    name: Seq<char>,
    reply: CallbackReply,
) -> Option<Fault> {
    error::first(
        runtime::request_fault(item_request(v, name, ItemRequest::Download)),
        error::first(
            runtime::discover_reply_fault(reply, name),
            replies::download_fault(v.plugins[name].dialect, runtime::reply_table(reply)),
        ),
    )
}

pub open spec fn call_resolve_fault(
    v: RuntimeView,
    name: Seq<char>,
    reply: CallbackReply,
) -> Option<Fault> {
    error::first(
        runtime::request_fault(item_request(v, name, ItemRequest::Resolve)),
        match runtime::no_table(reply) {
            Some(text) => Some(
                Fault::ResolveFailed { plugin: name, message: redact::redacted(text) },
            ),
            None => replies::resolve_fault(runtime::reply_table(reply)),
        },
    )
}

impl LuaPluginRuntime {
    pub fn prepare_item(&self, name: &str, request: ItemRequest) -> (r: Result<
        Option<Callback>,
        Error,
    >)
        requires
            self.wf(),
        ensures
            runtime::asks(r, item_request(self@, name@, request)),
    {
        let plugin = self.plugin(name)?;
        let supported = match &plugin.info.capabilities.discover {
            Some(discover) => match request {
                ItemRequest::Details => discover.supports_details,
                ItemRequest::Download => discover.supports_download,
                ItemRequest::Resolve => discover.supports_resolve,
            },
            None => false,
        };
        let callback = match request {
            ItemRequest::Details => Callback::DiscoverDetails,
            ItemRequest::Download => Callback::DiscoverDownload,
            ItemRequest::Resolve => Callback::DiscoverResolve,
        };
        if !supported || !plugin.callbacks.has(callback) {
            return Err(Error::DiscoverUnsupported(name.to_owned()));
        }
        Ok(Some(callback))
    }

    pub fn call_details(&self, name: &str, reply: &CallbackReply) -> (r: Result<
        DiscoverDetails,
        Error,
    >)
        requires
            self.wf(),
        ensures
            error::outcome(
                r,
                call_details_fault(self@, name@, *reply),
                replies::details_value(runtime::reply_table(*reply)),
            ),
            r matches Ok(details) ==> details.extra.wf(),
    {
        let _ = self.prepare_item(name, ItemRequest::Details)?;
        let t = discover_table(reply, name)?;
        read_details(t)
    }

    pub fn call_download(&self, name: &str, reply: &CallbackReply) -> (r: Result<
        DiscoverDownload,
        Error,
    >)
        requires
            self.wf(),
        ensures
            error::outcome(
                r,
                call_download_fault(self@, name@, *reply),
                replies::download_value(self@.plugins[name@].dialect, runtime::reply_table(*reply)),
            ),
    {
        let _ = self.prepare_item(name, ItemRequest::Download)?;
        let t = discover_table(reply, name)?;
        let dialect = self.plugin(name)?.dialect;
        read_download(dialect, t)
    }

    pub fn call_resolve(&self, name: &str, reply: &CallbackReply) -> (r: Result<
        DiscoverResolve,
        Error,
    >)
        requires
            self.wf(),
        ensures
            error::outcome(
                r,
                call_resolve_fault(self@, name@, *reply),
                replies::resolve_value(runtime::reply_table(*reply)),
            ),
    {
        let _ = self.prepare_item(name, ItemRequest::Resolve)?;
        match take_table(reply) {
            Ok(t) => read_resolve(t),
            Err(text) => Err(
                Error::ResolveFailed {
                    plugin: name.to_owned(),
                    message: redact_secrets(text.as_str()),
                },
            ),
        }
    }
}

// ---------------------------------------------------------------------------
// Sign-in state and actions

pub open spec fn check_request(v: RuntimeView, name: Seq<char>) -> Result<Option<Callback>, Fault> {
    if !v.plugins.contains_key(name) {
        Err(Fault::SourcePluginNotFound(name))
    } else if !v.plugins[name].info.capabilities.lifecycle {
        Ok(None)
    } else if !v.plugins[name].callbacks.contains(Callback::LifecycleCheck) {
        Err(Fault::Internal("module.lifecycle.check required"@))
    } else {
        Ok(Some(Callback::LifecycleCheck))
    }
}

pub open spec fn check_lifecycle_fault(
    v: RuntimeView,
    name: Seq<char>,
    reply: CallbackReply,
) -> Option<Fault> {
    match check_request(v, name) {
        Err(fault) => Some(fault),
        Ok(None) => None,
        Ok(Some(_)) => error::first(
            runtime::discover_reply_fault(reply, name),
            replies::check_fault(v.plugins[name].dialect, runtime::reply_table(reply)),
        ),
    }
}

/// A plugin without actions and status rows is not asked for them.
pub open spec fn status_request(
    v: RuntimeView,
    name: Seq<char>,
) -> Result<Option<Callback>, Fault> {
    if !v.plugins.contains_key(name) {
        Err(Fault::SourcePluginNotFound(name))
    } else if !v.plugins[name].callbacks.contains(Callback::ActionsStatus) {
        Ok(None)
    } else {
        Ok(Some(Callback::ActionsStatus))
    }
}

pub open spec fn call_status_fault(v: RuntimeView, name: Seq<char>, reply: CallbackReply) -> Option<
    Fault,
> {
    match status_request(v, name) {
        Err(fault) => Some(fault),
        Ok(None) => None,
        Ok(Some(_)) => error::first(
            runtime::discover_reply_fault(reply, name),
            replies::action_status_fault(
                v.plugins[name].dialect,
                runtime::reply_table(reply),
                v.plugins[name].info.actions,
                v.plugins[name].info.status,
            ),
        ),
    }
}

impl LuaPluginRuntime {
    pub fn prepare_check(&self, name: &str) -> (r: Result<Option<Callback>, Error>)
        requires
            self.wf(),
        ensures
            runtime::asks(r, check_request(self@, name@)),
    {
        let plugin = self.plugin(name)?;
        if !plugin.info.capabilities.lifecycle {
            return Ok(None);
        }
        if !plugin.callbacks.has(Callback::LifecycleCheck) {
            return Err(Error::Internal("module.lifecycle.check required".to_owned()));
        }
        Ok(Some(Callback::LifecycleCheck))
    }

    /// Whether the user is signed in; a plugin without a state of its own does
    /// not say.
    pub fn check_lifecycle(&self, name: &str, reply: &CallbackReply) -> (r: Result<
        Option<PluginLifecycleCheck>,
        Error,
    >)
        requires
            self.wf(),
        ensures
            match r {
                Ok(None) => check_lifecycle_fault(self@, name@, *reply) is None
                    && check_request(self@, name@) == Ok::<Option<Callback>, Fault>(None),
                Ok(Some(checked)) => {
                    &&& check_lifecycle_fault(self@, name@, *reply) is None
                    &&& check_request(self@, name@) == Ok::<Option<Callback>, Fault>(
                        Some(Callback::LifecycleCheck),
                    )
                    &&& checked@ == replies::check_value(self@.plugins[name@].dialect, runtime::reply_table(*reply))
                },
                Err(e) => check_lifecycle_fault(self@, name@, *reply) == Some(e@),
            },
    {
        if self.prepare_check(name)?.is_none() {
            return Ok(None);
        }
        let t = discover_table(reply, name)?;
        let dialect = self.plugin(name)?.dialect;
        let checked = read_check(dialect, t)?;
        Ok(Some(checked))
    }

    pub fn prepare_action_status(&self, name: &str) -> (r: Result<Option<Callback>, Error>)
        requires
            self.wf(),
        ensures
            runtime::asks(r, status_request(self@, name@)),
    {
        let plugin = self.plugin(name)?;
        if plugin.callbacks.has(Callback::ActionsStatus) {
            Ok(Some(Callback::ActionsStatus))
        } else {
            Ok(None)
        }
    }

    /// The actions and status rows of a plugin as they are now, and the picture
    /// of the account that the check before has shown.
    pub fn call_action_status(
        &self,
        name: &str,
        checked: &Option<PluginLifecycleCheck>,
        reply: &CallbackReply,
    ) -> (r: Result<(Vec<SourceAction>, Vec<SourceStatus>, String), Error>)
        requires
            self.wf(),
        ensures
            match r {
                Ok((actions, status, avatar_url)) => {
                    let info = self@.plugins[name@].info;
                    &&& call_status_fault(self@, name@, *reply) is None
                    &&& avatar_url@ == (match checked {
                        Some(checked) => checked.avatar_url@,
                        None => Seq::empty(),
                    })
                    &&& match status_request(self@, name@) {
                        Ok(Some(_)) => {
                            let t = runtime::reply_table(*reply);
                            &&& views(actions@) == replies::shown_actions(t, info.actions)
                            &&& views(status@) == replies::shown_status(
                                self@.plugins[name@].dialect,
                                t,
                                info.status,
                            )
                        },
                        _ => views(actions@) == info.actions && views(status@) == info.status,
                    }
                },
                Err(e) => call_status_fault(self@, name@, *reply) == Some(e@),
            },
    {
        let plugin = self.plugin(name)?;
        let avatar_url = match checked {
            Some(checked) => checked.avatar_url.clone(),
            None => String::new(),
        };
        if self.prepare_action_status(name)?.is_none() {
            return Ok((copy_list(&plugin.info.actions), copy_list(&plugin.info.status), avatar_url));
        }
        let t = discover_table(reply, name)?;
        let (actions, status) = read_action_status(
            plugin.dialect,
            t,
            &plugin.info.actions,
            &plugin.info.status,
        )?;
        Ok((actions, status, avatar_url))
    }
}

/// The place of the first action with the id.
pub open spec fn action_at(actions: Seq<SourceActionView>, action_id: Seq<char>, i: int) -> Option<
    int,
>
    decreases actions.len() - i,
{
    if i >= actions.len() {
        None
    } else if actions[i].id == action_id {
        Some(i)
    } else {
        action_at(actions, action_id, i + 1)
    }
}

pub open spec fn has_field(fields: Seq<SourceActionFieldView>, key: Seq<char>) -> bool {
    exists|i: int| 0 <= i < fields.len() && (#[trigger] fields[i]).key == key
}

/// A field that must be filled and is not.
pub open spec fn unfilled(field: SourceActionFieldView, values: Map<Seq<char>, Seq<char>>) -> bool {
    field.required && (!values.contains_key(field.key) || values[field.key].len() == 0)
}

/// The fault of the values given to an action: a form takes the fields that it
/// declares and needs the required ones, any other action takes none.
pub open spec fn action_values_fault(
    name: Seq<char>,
    action: SourceActionView,
    keys: Seq<Seq<char>>,
    values: Map<Seq<char>, Seq<char>>,
) -> Option<Fault> {
    if action.kind == SourceActionKind::Form {
        error::first(
            error::first_of(
                keys.len() as int,
                |i: int|
                    error::unless(
                        has_field(action.fields, keys[i]),
                        Fault::InvalidArgument(
                            runtime::action_message(
                                name,
                                action.id,
                                " has no field '"@ + keys[i] + "'"@,
                            ),
                        ),
                    ),
            ),
            error::first_of(
                action.fields.len() as int,
                |i: int|
                    error::unless(
                        !unfilled(action.fields[i], values),
                        Fault::InvalidArgument(
                            runtime::action_message(
                                name,
                                action.id,
                                " requires field '"@ + action.fields[i].key + "'"@,
                            ),
                        ),
                    ),
            ),
        )
    } else {
        error::unless(
            keys.len() == 0,
            Fault::InvalidArgument(
                runtime::action_message(name, action.id, " does not accept fields"@),
            ),
        )
    }
}

/// The fields of the table that hands the values of an action to its callback.
pub open spec fn given_fields(order: Seq<Seq<char>>, values: Map<Seq<char>, Seq<char>>) -> Seq<
    EntryField,
> {
    order.map_values(|key: Seq<char>| context::text_entry(key, values[key]))
}

/// The values that an action is invoked with, as the table that is handed to
/// its callback.
pub fn action_values(values: &TextMap<String>) -> (t: LuaTable)
    requires
        values.wf(),
    ensures
        context::hold_entries(t.fields@, given_fields(values.order(), texts_of(values@))),
        t.sequence@.len() == 0,
        t.others@.len() == 0,
{
    let ghost entries = given_fields(values.order(), texts_of(values@));
    let mut fields: Vec<LuaField> = Vec::new();
    let n: usize = values.len();
    let mut i: usize = 0;
    assert(entries.take(0) =~= Seq::<EntryField>::empty());
    while i < n
        invariant
            values.wf(),
            n == values.order().len(),
            i <= n,
            entries == given_fields(values.order(), texts_of(values@)),
            context::hold_entries(fields@, entries.take(i as int)),
        decreases n - i,
    {
        proof {
            values.lemma_order();
            assert(values@.contains_key(values.order()[i as int]));
            assert(entries.take(i + 1) =~= entries.take(i as int).push(entries[i as int]));
        }
        let value = text_value(values.value_at(i).as_str());
        fields.push(LuaField { key: values.key_at(i).clone(), value });
        i = i + 1;
    }
    assert(entries.take(i as int) =~= entries);
    LuaTable { fields, sequence: Vec::new(), others: Vec::new() }
}

pub open spec fn invoke_request(
    v: RuntimeView,
    name: Seq<char>,
    action_id: Seq<char>,
    keys: Seq<Seq<char>>,
    values: Map<Seq<char>, Seq<char>>,
) -> Result<Option<Callback>, Fault> {
    if !v.plugins.contains_key(name) {
        Err(Fault::SourcePluginNotFound(name))
    } else {
        let actions = v.plugins[name].info.actions;
        let refused = Fault::InvalidArgument(
            runtime::action_message(name, action_id, " is not invokable"@),
        );
        match action_at(actions, action_id, 0) {
            None => Err(refused),
            Some(i) => if actions[i].kind == SourceActionKind::QrLogin {
                Err(refused)
            } else {
                match action_values_fault(name, actions[i], keys, values) {
                    Some(fault) => Err(fault),
                    None => if !v.plugins[name].callbacks.contains(Callback::ActionsInvoke) {
                        Err(Fault::InvalidArgument("plugin action is unsupported"@))
                    } else {
                        Ok(Some(Callback::ActionsInvoke))
                    },
                }
            },
        }
    }
}

fn find_action<'a>(actions: &'a Vec<SourceAction>, action_id: &str) -> (r: Option<&'a SourceAction>)
    ensures
        match r {
            Some(action) => action_at(views(actions@), action_id@, 0) is Some && action@ == views(
                actions@,
            )[action_at(views(actions@), action_id@, 0)->0] && action@.id == action_id@,
            None => action_at(views(actions@), action_id@, 0) is None,
        },
{
    let ghost all = views(actions@);
    let mut i: usize = 0;
    while i < actions.len()
        invariant
            i <= actions@.len(),
            all == views(actions@),
            action_at(all, action_id@, 0) == action_at(all, action_id@, i as int),
        decreases actions@.len() - i,
    {
        assert(all[i as int] == actions@[i as int]@);
        if same(actions[i].id.as_str(), action_id) {
            return Some(&actions[i]);
        }
        i = i + 1;
    }
    None
}

fn action_refused(name: &str, action_id: &str, before: &str, key: &str) -> (e: Error)
    ensures
        e@ == Fault::InvalidArgument(
            runtime::action_message(name@, action_id@, before@ + key@ + "'"@),
        ),
{
    let mut what = before.to_owned();
    what.append(key);
    what.append("'");
    Error::InvalidArgument(describe_action(name, action_id, what.as_str()))
}

fn check_action_values(name: &str, action: &SourceAction, values: &TextMap<String>) -> (r: Result<
    (),
    Error,
>)
    requires
        values.wf(),
    ensures
        error::outcome_check(
            r,
            action_values_fault(name@, action@, values.order(), texts_of(values@)),
        ),
{
    let action_id = action.id.as_str();
    if action.kind != SourceActionKind::Form {
        if values.len() > 0 {
            return Err(
                Error::InvalidArgument(describe_action(name, action_id, " does not accept fields")),
            );
        }
        return Ok(());
    }
    let ghost keys = values.order();
    let ghost fields = action@.fields;
    let ghost strange = |i: int|
        error::unless(
            has_field(action@.fields, keys[i]),
            Fault::InvalidArgument(
                runtime::action_message(
                    name@,
                    action@.id,
                    " has no field '"@ + keys[i] + "'"@,
                ),
            ),
        );
    let ghost lacking = |i: int|
        error::unless(
            !unfilled(action@.fields[i], texts_of(values@)),
            Fault::InvalidArgument(
                runtime::action_message(
                    name@,
                    action@.id,
                    " requires field '"@ + action@.fields[i].key + "'"@,
                ),
            ),
        );
    let n: usize = values.len();
    let mut k: usize = 0;
    while k < n
        invariant
            values.wf(),
            n == values.order().len(),
            k <= n,
            keys == values.order(),
            fields == action@.fields,
            action_id@ == action@.id,
            action@.kind == SourceActionKind::Form,
            strange == (|i: int|
                error::unless(
                    has_field(action@.fields, keys[i]),
                    Fault::InvalidArgument(
                        runtime::action_message(
                            name@,
                            action@.id,
                            " has no field '"@ + keys[i] + "'"@,
                        ),
                    ),
                )),
            lacking == (|i: int|
                error::unless(
                    !unfilled(action@.fields[i], texts_of(values@)),
                    Fault::InvalidArgument(
                        runtime::action_message(
                            name@,
                            action@.id,
                            " requires field '"@ + action@.fields[i].key + "'"@,
                        ),
                    ),
                )),
            action_values_fault(name@, action@, keys, texts_of(values@)) == error::first(
                error::first_of(keys.len() as int, strange),
                error::first_of(fields.len() as int, lacking),
            ),
            error::first_of(k as int, strange) is None,
        decreases n - k,
    {
        let key = values.key_at(k);
        let mut known = false;
        let mut j: usize = 0;
        while j < action.fields.len()
            invariant
                j <= action.fields@.len(),
                fields == views(action.fields@),
                known == exists|x: int| 0 <= x < j && (#[trigger] fields[x]).key == key@,
            decreases action.fields@.len() - j,
        {
            assert(fields[j as int] == action.fields@[j as int]@);
            if same(action.fields[j].key.as_str(), key.as_str()) {
                known = true;
            }
            j = j + 1;
        }
        assert(known == has_field(fields, key@));
        if !known {
            proof {
                assert(strange(k as int) is Some);
                error::lemma_first_of_found(k as int, keys.len() as int, strange);
            }
            return Err(action_refused(name, action_id, " has no field '", key.as_str()));
        }
        assert(strange(k as int) is None);
        k = k + 1;
    }
    let mut j: usize = 0;
    while j < action.fields.len()
        invariant
            values.wf(),
            j <= action.fields@.len(),
            fields == views(action.fields@),
            fields == action@.fields,
            action_id@ == action@.id,
            lacking == (|i: int|
                error::unless(
                    !unfilled(action@.fields[i], texts_of(values@)),
                    Fault::InvalidArgument(
                        runtime::action_message(
                            name@,
                            action@.id,
                            " requires field '"@ + action@.fields[i].key + "'"@,
                        ),
                    ),
                )),
            action_values_fault(name@, action@, keys, texts_of(values@)) == error::first_of(
                fields.len() as int,
                lacking,
            ),
            keys == values.order(),
            error::first_of(j as int, lacking) is None,
        decreases action.fields@.len() - j,
    {
        let field = &action.fields[j];
        assert(fields[j as int] == field@);
        let filled = match values.get(field.key.as_str()) {
            Some(value) => !value.as_str().is_empty(),
            None => false,
        };
        if field.required && !filled {
            proof {
                assert(unfilled(fields[j as int], texts_of(values@)));
                assert(lacking(j as int) is Some);
                error::lemma_first_of_found(j as int, fields.len() as int, lacking);
            }
            return Err(action_refused(name, action_id, " requires field '", field.key.as_str()));
        }
        assert(!unfilled(fields[j as int], texts_of(values@)));
        assert(lacking(j as int) is None);
        j = j + 1;
    }
    Ok(())
}

impl LuaPluginRuntime {
    pub fn prepare_invoke(
        &self,
        name: &str,
        action_id: &str,
        values: &TextMap<String>,
    ) -> (r: Result<Option<Callback>, Error>)
        requires
            self.wf(),
            values.wf(),
        ensures
            runtime::asks(
                r,
                invoke_request(self@, name@, action_id@, values.order(), texts_of(values@)),
            ),
    {
        let plugin = self.plugin(name)?;
        let action = match find_action(&plugin.info.actions, action_id) {
            Some(action) => action,
            None => {
                return Err(
                    Error::InvalidArgument(describe_action(name, action_id, " is not invokable")),
                );
            },
        };
        if action.kind == SourceActionKind::QrLogin {
            return Err(
                Error::InvalidArgument(describe_action(name, action_id, " is not invokable")),
            );
        }
        check_action_values(name, action, values)?;
        if !plugin.callbacks.has(Callback::ActionsInvoke) {
            return Err(Error::InvalidArgument("plugin action is unsupported".to_owned()));
        }
        Ok(Some(Callback::ActionsInvoke))
    }

    /// Carries an action out.
    pub fn invoke_action(
        &self,
        name: &str,
        action_id: &str,
        values: &TextMap<String>,
        reply: &CallbackReply,
    ) -> (r: Result<(), Error>)
        requires
            self.wf(),
            values.wf(),
        ensures
            error::outcome_check(
                r,
                error::first(
                    runtime::request_fault(
                        invoke_request(self@, name@, action_id@, values.order(), texts_of(values@)),
                    ),
                    runtime::discover_call_fault(*reply, name@),
                ),
            ),
    {
        let _ = self.prepare_invoke(name, action_id, values)?;
        discover_call(reply, name)
    }
}

// ---------------------------------------------------------------------------
// Subscriptions

pub open spec fn capability_name(capability: RemoteCapability) -> Seq<char> {
    match capability {
        RemoteCapability::Download => "Download"@,
        RemoteCapability::Subscription => "Subscription"@,
    }
}

pub open spec fn capability_text(capability: Option<RemoteCapability>) -> Seq<char> {
    match capability {
        Some(capability) => "Some("@ + capability_name(capability) + ")"@,
        None => "None"@,
    }
}

pub open spec fn remote_of(v: RuntimeView, name: Seq<char>) -> Option<RemoteCapability> {
    if v.plugins.contains_key(name) {
        match v.plugins[name].info.capabilities.discover {
            Some(discover) => discover.remote,
            None => None,
        }
    } else {
        None
    }
}

pub open spec fn remote_fault(
    v: RuntimeView,
    name: Seq<char>,
    expected: RemoteCapability,
) -> Option<Fault> {
    error::unless(
        remote_of(v, name) == Some(expected),
        Fault::InvalidArgument(
            "remote capability mismatch for '"@ + name + "': expected "@ + capability_name(expected)
                + ", got "@ + capability_text(remote_of(v, name)),
        ),
    )
}

fn name_capability(capability: RemoteCapability) -> (name: &'static str)
    ensures
        name@ == capability_name(capability),
{
    match capability {
        RemoteCapability::Download => "Download",
        RemoteCapability::Subscription => "Subscription",
    }
}

pub open spec fn subscription_request(
    v: RuntimeView,
    name: Seq<char>,
    callback: Callback,
) -> Result<Option<Callback>, Fault> {
    match remote_fault(v, name, RemoteCapability::Subscription) {
        Some(fault) => Err(fault),
        None => if !v.plugins[name].callbacks.contains(callback) {
            Err(Fault::DiscoverUnsupported(name))
        } else {
            Ok(Some(callback))
        },
    }
}

pub open spec fn subscription_callback(subscribed: bool) -> Callback {
    if subscribed {
        Callback::SubscriptionSubscribe
    } else {
        Callback::SubscriptionUnsubscribe
    }
}

pub open spec fn subscription_status_fault(
    v: RuntimeView,
    name: Seq<char>,
    reply: CallbackReply,
) -> Option<Fault> {
    error::first(
        runtime::request_fault(subscription_request(v, name, Callback::SubscriptionStatus)),
        error::first(
            runtime::discover_reply_fault(reply, name),
            replies::subscription_fault(v.plugins[name].dialect, runtime::reply_table(reply)),
        ),
    )
}

pub open spec fn set_subscription_fault(
    v: RuntimeView,
    name: Seq<char>,
    subscribed: bool,
    reply: CallbackReply,
) -> Option<Fault> {
    error::first(
        runtime::request_fault(subscription_request(v, name, subscription_callback(subscribed))),
        error::first(
            runtime::discover_reply_fault(reply, name),
            replies::subscription_set_fault(
                v.plugins[name].dialect,
                runtime::reply_table(reply),
                name,
            ),
        ),
    )
}

impl LuaPluginRuntime {
    pub fn require_remote_capability(&self, name: &str, expected: RemoteCapability) -> (r: Result<
        (),
        Error,
    >)
        requires
            self.wf(),
        ensures
            error::outcome_check(r, remote_fault(self@, name@, expected)),
    {
        let actual = match self.plugin(name) {
            Ok(plugin) => match &plugin.info.capabilities.discover {
                Some(discover) => discover.remote,
                None => None,
            },
            Err(_) => None,
        };
        assert(actual == remote_of(self@, name@));
        let fits = match actual {
            Some(actual) => actual == expected,
            None => false,
        };
        if fits {
            return Ok(());
        }
        let mut message = "remote capability mismatch for '".to_owned();
        message.append(name);
        message.append("': expected ");
        message.append(name_capability(expected));
        message.append(", got ");
        let ghost before = message@;
        match actual {
            Some(actual) => {
                message.append("Some(");
                message.append(name_capability(actual));
                message.append(")");
            },
            None => {
                message.append("None");
            },
        }
        assert(message@ =~= before + capability_text(actual));
        Err(Error::InvalidArgument(message))
    }

    pub fn prepare_subscription(&self, name: &str, callback: Callback) -> (r: Result<
        Option<Callback>,
        Error,
    >)
        requires
            self.wf(),
        ensures
            runtime::asks(r, subscription_request(self@, name@, callback)),
    {
        self.require_remote_capability(name, RemoteCapability::Subscription)?;
        let plugin = self.plugin(name)?;
        if !plugin.callbacks.has(callback) {
            return Err(Error::DiscoverUnsupported(name.to_owned()));
        }
        Ok(Some(callback))
    }

    /// Which of some remote items are subscribed to.
    pub fn subscription_status(&self, name: &str, ids: &Vec<String>, reply: &CallbackReply) -> (r:
        Result<SubscriptionStatusResult, Error>)
        requires
            self.wf(),
        ensures
            error::outcome(
                r,
                subscription_status_fault(self@, name@, *reply),
                replies::subscription_value(
                    self@.plugins[name@].dialect,
                    runtime::reply_table(*reply),
                    views(ids@),
                ),
            ),
    {
        let _ = self.prepare_subscription(name, Callback::SubscriptionStatus)?;
        let t = discover_table(reply, name)?;
        let dialect = self.plugin(name)?.dialect;
        read_subscription_status(dialect, t, ids)
    }

    /// What came of subscribing to a remote item, or of ending a subscription.
    pub fn set_subscription(&self, name: &str, subscribed: bool, reply: &CallbackReply) -> (r:
        Result<SubscriptionSetResult, Error>)
        requires
            self.wf(),
        ensures
            error::outcome(
                r,
                set_subscription_fault(self@, name@, subscribed, *reply),
                replies::subscription_set_value(self@.plugins[name@].dialect, runtime::reply_table(*reply)),
            ),
    {
        let callback = if subscribed {
            Callback::SubscriptionSubscribe
        } else {
            Callback::SubscriptionUnsubscribe
        };
        let _ = self.prepare_subscription(name, callback)?;
        let t = discover_table(reply, name)?;
        let dialect = self.plugin(name)?.dialect;
        read_subscription_set(dialect, t, name)
    }
}

// ---------------------------------------------------------------------------
// Removing a wallpaper

pub open spec fn remove_request(
    v: RuntimeView,
    name: Seq<char>,
) -> Result<Option<Callback>, Fault> {
    if !v.plugins.contains_key(name) {
        Err(Fault::SourcePluginNotFound(name))
    } else if !v.plugins[name].info.capabilities.source_item_remove
        || !v.plugins[name].callbacks.contains(Callback::SourceRemove) {
        Err(Fault::SourceItemRemoveUnsupported(name))
    } else {
        Ok(Some(Callback::SourceRemove))
    }
}

pub open spec fn remove_fault(
    v: RuntimeView,
    name: Seq<char>,
    reply: CallbackReply,
) -> Option<Fault> {
    error::first(
        runtime::request_fault(remove_request(v, name)),
        match runtime::no_reply(reply) {
            Some(text) => Some(
                Fault::SourceItemRemoveFailed { plugin: name, message: redact::redacted(text) },
            ),
            None => None,
        },
    )
}

impl LuaPluginRuntime {
    pub fn prepare_remove(&self, name: &str) -> (r: Result<Option<Callback>, Error>)
        requires
            self.wf(),
        ensures
            runtime::asks(r, remove_request(self@, name@)),
    {
        let plugin = self.plugin(name)?;
        if !plugin.info.capabilities.source_item_remove || !plugin.callbacks.has(
            Callback::SourceRemove,
        ) {
            return Err(Error::SourceItemRemoveUnsupported(name.to_owned()));
        }
        Ok(Some(Callback::SourceRemove))
    }

    pub fn remove_item(&self, name: &str, reply: &CallbackReply) -> (r: Result<(), Error>)
        requires
            self.wf(),
        ensures
            error::outcome_check(r, remove_fault(self@, name@, *reply)),
    {
        let _ = self.prepare_remove(name)?;
        match reply {
            CallbackReply::Returned(_) => Ok(()),
            CallbackReply::Failed(text) => Err(
                Error::SourceItemRemoveFailed {
                    plugin: name.to_owned(),
                    message: redact_secrets(text.as_str()),
                },
            ),
        }
    }
}

// ---------------------------------------------------------------------------
// Laws

/// Every marker of a secret in the text is followed by its mask.
pub open spec fn hides_secrets(text: Seq<char>) -> bool {
    forall|k: int|
        0 <= k < redact::marker_count() ==> redact::covered(
            text,
            #[trigger] redact::marker(k),
            redact::marker_kind(k).mask(),
            0,
        )
}

/// Whatever a callback fails with, what is told of it shows no secret.
pub proof fn law_failures_hide_secrets(reply: CallbackReply, plugin: Seq<char>, dialect: Dialect)
    ensures
        runtime::discover_reply_fault(reply, plugin) matches Some(fault) ==> hides_secrets(
            fault.message(),
        ),
        runtime::discover_call_fault(reply, plugin) matches Some(fault) ==> hides_secrets(
            fault.message(),
        ),
        apply_reply_fault(dialect, reply) matches Some(text) ==> hides_secrets(
            apply_failure(dialect, plugin, text).message(),
        ),
{
    assert forall|text: Seq<char>| hides_secrets(#[trigger] redact::redacted(text)) by {
        assert forall|k: int| 0 <= k < redact::marker_count() implies redact::covered(
            redact::redacted(text),
            #[trigger] redact::marker(k),
            redact::marker_kind(k).mask(),
            0,
        ) by {
            redact::law_secrets_are_masked(text, k);
        }
    }
}

/// A failed search, download, resolution or removal shows no secret either.
pub proof fn law_failed_requests_hide_secrets(v: RuntimeView, name: Seq<char>, failure: String)
    ensures
        ({
            let reply = CallbackReply::Failed(failure);
            &&& runtime::request_fault(item_request(v, name, ItemRequest::Details)) is None
                ==> hides_secrets(call_details_fault(v, name, reply)->0.message())
            &&& runtime::request_fault(item_request(v, name, ItemRequest::Download)) is None
                ==> hides_secrets(call_download_fault(v, name, reply)->0.message())
            &&& runtime::request_fault(item_request(v, name, ItemRequest::Resolve)) is None
                ==> hides_secrets(call_resolve_fault(v, name, reply)->0.message())
            &&& runtime::request_fault(remove_request(v, name)) is None ==> hides_secrets(
                remove_fault(v, name, reply)->0.message(),
            )
            &&& forall|tags: Seq<Seq<char>>| #[trigger]
                runtime::request_fault(search_request(v, name, tags)) is None ==> hides_secrets(
                    call_discover_fault(v, name, tags, reply)->0.message(),
                )
        }),
{
    assert forall|text: Seq<char>| hides_secrets(#[trigger] redact::redacted(text)) by {
        assert forall|k: int| 0 <= k < redact::marker_count() implies redact::covered(
            redact::redacted(text),
            #[trigger] redact::marker(k),
            redact::marker_kind(k).mask(),
            0,
        ) by {
            redact::law_secrets_are_masked(text, k);
        }
    }
}

// ---------------------------------------------------------------------------
// Laws on requests

/// Wallpapers are applied, their properties asked for and sign-ins checked by
/// plugins that declare and export it; a plugin that does not declare it is not
/// asked, and one that is not loaded is not found.
pub proof fn law_optional_requests(v: RuntimeView, name: Seq<char>)
    ensures
        !v.plugins.contains_key(name) ==> ({
            let missing = Err::<Option<Callback>, Fault>(Fault::SourcePluginNotFound(name));
            &&& apply_request(v, name) == missing
            &&& properties_request(v, name) == missing
            &&& check_request(v, name) == missing
            &&& status_request(v, name) == missing
            &&& remove_request(v, name) == missing
            &&& detect_request(v, name) == Ok::<Option<Callback>, Fault>(None)
        }),
        v.plugins.contains_key(name) ==> ({
            let p = v.plugins[name];
            let none = Ok::<Option<Callback>, Fault>(None);
            &&& apply_request(v, name) == none <==> !p.info.capabilities.wallpaper.apply
            &&& apply_request(v, name) == Ok::<Option<Callback>, Fault>(
                Some(Callback::WallpaperApply),
            ) <==> p.info.capabilities.wallpaper.apply && p.callbacks.contains(
                Callback::WallpaperApply,
            )
            &&& properties_request(v, name) == none <==> !p.info.capabilities.wallpaper.properties
            &&& properties_request(v, name) == Ok::<Option<Callback>, Fault>(
                Some(Callback::WallpaperProperties),
            ) <==> p.info.capabilities.wallpaper.properties && p.callbacks.contains(
                Callback::WallpaperProperties,
            )
            &&& check_request(v, name) == none <==> !p.info.capabilities.lifecycle
            &&& check_request(v, name) == Ok::<Option<Callback>, Fault>(
                Some(Callback::LifecycleCheck),
            ) <==> p.info.capabilities.lifecycle && p.callbacks.contains(Callback::LifecycleCheck)
            &&& status_request(v, name) == none <==> !p.callbacks.contains(Callback::ActionsStatus)
            &&& status_request(v, name) == Ok::<Option<Callback>, Fault>(
                Some(Callback::ActionsStatus),
            ) <==> p.callbacks.contains(Callback::ActionsStatus)
            &&& detect_request(v, name) == none <==> !(p.info.capabilities.source is Some
                && p.info.capabilities.source->0.auto_detect)
            &&& detect_request(v, name) == Ok::<Option<Callback>, Fault>(
                Some(Callback::SourceAutoDetect),
            ) <==> p.info.capabilities.source is Some && p.info.capabilities.source->0.auto_detect
                && p.callbacks.contains(Callback::SourceAutoDetect)
            &&& remove_request(v, name) == Ok::<Option<Callback>, Fault>(
                Some(Callback::SourceRemove),
            ) <==> p.info.capabilities.source_item_remove && p.callbacks.contains(
                Callback::SourceRemove,
            )
            &&& remove_request(v, name) is Err || remove_request(v, name) == Ok::<
                Option<Callback>,
                Fault,
            >(Some(Callback::SourceRemove))
        }),
{
}

/// A remote source is searched exactly where it is loaded, declares and exports
/// the search, and the selected values are accepted.
pub proof fn law_search_requests(v: RuntimeView, name: Seq<char>, tags: Seq<Seq<char>>)
    ensures
        !v.plugins.contains_key(name) ==> search_request(v, name, tags) == Err::<
            Option<Callback>,
            Fault,
        >(Fault::SourcePluginNotFound(name)),
        v.plugins.contains_key(name) && v.plugins[name].info.capabilities.discover is None
            ==> search_request(v, name, tags) == Err::<Option<Callback>, Fault>(
            Fault::DiscoverUnsupported(name),
        ),
        search_request(v, name, tags) == Ok::<Option<Callback>, Fault>(
            Some(Callback::DiscoverSearch),
        ) <==> v.plugins.contains_key(name) && v.plugins[name].callbacks.contains(
            Callback::DiscoverSearch,
        ) && (v.plugins[name].info.capabilities.discover matches Some(discover)
            && filters::selected_values_fault(name, discover.filters, tags) is None),
        search_request(v, name, tags) is Err || search_request(v, name, tags) == Ok::<
            Option<Callback>,
            Fault,
        >(Some(Callback::DiscoverSearch)),
{
}

/// The details, the download and the resolving of an item are each asked of the
/// callback of that name, where the plugin declares and exports it.
pub proof fn law_item_requests(v: RuntimeView, name: Seq<char>, request: ItemRequest)
    ensures
        !v.plugins.contains_key(name) ==> item_request(v, name, request) == Err::<
            Option<Callback>,
            Fault,
        >(Fault::SourcePluginNotFound(name)),
        v.plugins.contains_key(name) ==> ({
            let p = v.plugins[name];
            let r = item_request(v, name, request);
            let there = |declared: bool, callback: Callback|
                if declared && p.callbacks.contains(callback) {
                    Ok::<Option<Callback>, Fault>(Some(callback))
                } else {
                    Err::<Option<Callback>, Fault>(Fault::DiscoverUnsupported(name))
                };
            &&& p.info.capabilities.discover is None ==> r == Err::<Option<Callback>, Fault>(
                Fault::DiscoverUnsupported(name),
            )
            &&& p.info.capabilities.discover matches Some(d) ==> {
                &&& request is Details ==> r == there(d.supports_details, Callback::DiscoverDetails)
                &&& request is Download ==> r == there(
                    d.supports_download,
                    Callback::DiscoverDownload,
                )
                &&& request is Resolve ==> r == there(d.supports_resolve, Callback::DiscoverResolve)
            }
        }),
{
}

/// An answer to a request is taken exactly where the request may be made and the
/// answer is a table that is accepted.
pub proof fn law_taken_answers(
    v: RuntimeView,
    name: Seq<char>,
    tags: Seq<Seq<char>>,
    subscribed: bool,
    reply: CallbackReply,
)
    ensures
        call_discover_fault(v, name, tags, reply) is None <==> search_request(v, name, tags) is Ok
            && (reply matches CallbackReply::Returned(LuaValue::Table(t)) && replies::search_fault(
            t,
            name,
        ) is None),
        call_details_fault(v, name, reply) is None <==> item_request(v, name, ItemRequest::Details)
            is Ok && (reply matches CallbackReply::Returned(LuaValue::Table(t))
            && replies::details_fault(t) is None),
        call_download_fault(v, name, reply) is None <==> item_request(
            v,
            name,
            ItemRequest::Download,
        ) is Ok && (reply matches CallbackReply::Returned(LuaValue::Table(t))
            && replies::download_fault(v.plugins[name].dialect, t) is None),
        call_resolve_fault(v, name, reply) is None <==> item_request(v, name, ItemRequest::Resolve)
            is Ok && (reply matches CallbackReply::Returned(LuaValue::Table(t))
            && replies::resolve_fault(t) is None),
        subscription_status_fault(v, name, reply) is None <==> subscription_request(
            v,
            name,
            Callback::SubscriptionStatus,
        ) is Ok && (reply matches CallbackReply::Returned(LuaValue::Table(t))
            && replies::subscription_fault(v.plugins[name].dialect, t) is None),
        set_subscription_fault(v, name, true, reply) is None <==> subscription_request(
            v,
            name,
            Callback::SubscriptionSubscribe,
        ) is Ok && (reply matches CallbackReply::Returned(LuaValue::Table(t))
            && replies::subscription_set_fault(v.plugins[name].dialect, t, name) is None),
        set_subscription_fault(v, name, false, reply) is None <==> subscription_request(
            v,
            name,
            Callback::SubscriptionUnsubscribe,
        ) is Ok && (reply matches CallbackReply::Returned(LuaValue::Table(t))
            && replies::subscription_set_fault(v.plugins[name].dialect, t, name) is None),
        remove_fault(v, name, reply) is None <==> remove_request(v, name) is Ok
            && reply is Returned,
{
}

/// An answer to a request that a plugin need not serve is taken where the plugin
/// is not asked, or where it is a table that is accepted.
pub proof fn law_taken_optional_answers(v: RuntimeView, name: Seq<char>, reply: CallbackReply)
    requires
        v.plugins.contains_key(name),
    ensures
        ({
            let p = v.plugins[name];
            &&& !p.info.capabilities.wallpaper.apply ==> call_apply_fault(v, name, reply) is None
                && call_apply_value(v, name, reply).extras == Map::<Seq<char>, Seq<char>>::empty()
                && call_apply_value(v, name, reply).default_user_properties == Map::<
                Seq<char>,
                Seq<char>,
            >::empty()
            &&& p.info.capabilities.wallpaper.apply && p.callbacks.contains(
                Callback::WallpaperApply,
            ) ==> (call_apply_fault(v, name, reply) is None <==> (
            reply matches CallbackReply::Returned(LuaValue::Table(t)) && replies::apply_fault(
                p.dialect,
                t,
            ) is None)) && (reply matches CallbackReply::Returned(LuaValue::Table(t))
                ==> call_apply_value(v, name, reply) == replies::apply_value(p.dialect, t))
            &&& !p.info.capabilities.lifecycle ==> check_lifecycle_fault(v, name, reply) is None
            &&& p.info.capabilities.lifecycle && p.callbacks.contains(Callback::LifecycleCheck)
                ==> (
            check_lifecycle_fault(v, name, reply) is None <==> (
            reply matches CallbackReply::Returned(LuaValue::Table(t)) && replies::check_fault(
                p.dialect,
                t,
            ) is None))
            &&& !p.callbacks.contains(Callback::ActionsStatus) ==> call_status_fault(v, name, reply)
                is None
            &&& p.callbacks.contains(Callback::ActionsStatus) ==> (call_status_fault(v, name, reply)
                is None <==> (reply matches CallbackReply::Returned(LuaValue::Table(t))
                && replies::action_status_fault(p.dialect, t, p.info.actions, p.info.status)
                is None))
            &&& !p.info.capabilities.wallpaper.properties ==> properties_fault(v, name, reply)
                is None
            &&& p.info.capabilities.wallpaper.properties && p.callbacks.contains(
                Callback::WallpaperProperties,
            ) ==> (properties_fault(v, name, reply) is None <==> reply is Returned && !(
            reply matches CallbackReply::Returned(LuaValue::Text(s)) && s.text is None))
        }),
{
}

/// The schema of properties is what the plugin answers with, a text where that
/// is one, and absent where it answers with nothing.
pub proof fn law_properties_schema(
    schema: PropertySchema,
    v: RuntimeView,
    name: Seq<char>,
    value: LuaValue,
)
    requires
        properties_request(v, name) == Ok::<Option<Callback>, Fault>(
            Some(Callback::WallpaperProperties),
        ),
        is_schema(schema, v, name, CallbackReply::Returned(value)),
    ensures
        value is Nil <==> schema is Absent,
        value matches LuaValue::Text(s) ==> (schema matches PropertySchema::Text(text) && (
        s.text matches Some(given) ==> text@ == given@)),
        !(value is Nil) && !(value is Text) ==> schema == PropertySchema::Value(value),
{
}

/// An item of a remote source without a type has the first type of the source.
pub proof fn law_default_type(info: LoadedPluginInfoView)
    ensures
        info.capabilities.source matches Some(source) ==> (source.types.len() > 0 ==> default_type(
            info,
        ) == source.types[0]),
        info.capabilities.source is None ==> default_type(info).len() == 0,
{
}

proof fn lemma_action_at(actions: Seq<SourceActionView>, action_id: Seq<char>, i: int)
    requires
        0 <= i,
    ensures
        action_at(actions, action_id, i) matches Some(k) ==> i <= k < actions.len()
            && actions[k].id == action_id && forall|j: int|
            i <= j < k ==> (#[trigger] actions[j]).id != action_id,
        action_at(actions, action_id, i) is None ==> forall|j: int|
            i <= j < actions.len() ==> (#[trigger] actions[j]).id != action_id,
    decreases actions.len() - i,
{
    if i < actions.len() && actions[i].id != action_id {
        lemma_action_at(actions, action_id, i + 1);
    }
}

/// An action is invoked exactly where the plugin is loaded and exports it, the
/// action is declared and no QR login, and the values fit it: a form is given
/// values of its fields only, and all that are required are filled; nothing else
/// is given any.
pub proof fn law_invocations(
    v: RuntimeView,
    name: Seq<char>,
    keys: Seq<Seq<char>>,
    values: Map<Seq<char>, Seq<char>>,
    k: int,
)
    requires
        v.plugins.contains_key(name),
        0 <= k < v.plugins[name].info.actions.len(),
        forall|j: int|
            0 <= j < k ==> (#[trigger] v.plugins[name].info.actions[j]).id
                != v.plugins[name].info.actions[k].id,
    ensures
        ({
            let action = v.plugins[name].info.actions[k];
            let r = invoke_request(v, name, action.id, keys, values);
            &&& r == Ok::<Option<Callback>, Fault>(Some(Callback::ActionsInvoke)) <==> {
                &&& !(action.kind is QrLogin)
                &&& v.plugins[name].callbacks.contains(Callback::ActionsInvoke)
                &&& action.kind is Invoke ==> keys.len() == 0
                &&& action.kind is Form ==> (forall|i: int|
                    0 <= i < keys.len() ==> exists|j: int|
                        0 <= j < action.fields.len() && (#[trigger] action.fields[j]).key
                            == #[trigger] keys[i]) && (forall|j: int|
                    0 <= j < action.fields.len() && (#[trigger] action.fields[j]).required
                        ==> values.contains_key(action.fields[j].key)
                            && values[action.fields[j].key].len()
                        > 0)
            }
            &&& r is Err || r == Ok::<Option<Callback>, Fault>(Some(Callback::ActionsInvoke))
        }),
{
    let actions = v.plugins[name].info.actions;
    let action = actions[k];
    lemma_action_at(actions, action.id, 0);
    assert(action_at(actions, action.id, 0) == Some(k)) by {
        let found = action_at(actions, action.id, 0);
        if found is None {
            assert(actions[k].id != action.id);
        } else if found->0 > k {
            assert(actions[k].id != action.id);
        } else if found->0 < k {
            assert(actions[found->0].id != actions[k].id);
        }
    }
    if action.kind == SourceActionKind::Form {
        let unknown = |i: int|
            error::unless(
                has_field(action.fields, keys[i]),
                Fault::InvalidArgument(
                    runtime::action_message(
                        name,
                        action.id,
                        " has no field '"@ + keys[i] + "'"@,
                    ),
                ),
            );
        let open = |i: int|
            error::unless(
                !unfilled(action.fields[i], values),
                Fault::InvalidArgument(
                    runtime::action_message(
                        name,
                        action.id,
                        " requires field '"@ + action.fields[i].key + "'"@,
                    ),
                ),
            );
        error::lemma_first_of_none(keys.len() as int, unknown);
        error::lemma_first_of_none(action.fields.len() as int, open);
        if action_values_fault(name, action, keys, values) is None {
            assert forall|i: int| 0 <= i < keys.len() implies exists|j: int|
                0 <= j < action.fields.len() && (#[trigger] action.fields[j]).key
                    == #[trigger] keys[i] by {
                assert(unknown(i) is None);
                assert(has_field(action.fields, keys[i]));
            }
            assert forall|j: int|
                0 <= j < action.fields.len() && (
                #[trigger] action.fields[j]).required implies values.contains_key(
                action.fields[j].key,
            ) && values[action.fields[j].key].len() > 0 by {
                assert(open(j) is None);
            }
        } else if error::first_of(keys.len() as int, unknown) is Some {
            let i = choose|i: int| 0 <= i < keys.len() && (#[trigger] unknown(i)) is Some;
            assert(!has_field(action.fields, keys[i]));
        } else {
            let j = choose|j: int|
                0 <= j < action.fields.len() && (#[trigger] open(j)) is Some;
            assert(unfilled(action.fields[j], values));
        }
    }
}

/// An action that no plugin declares is not invoked.
pub proof fn law_unknown_actions_are_refused(
    v: RuntimeView,
    name: Seq<char>,
    action_id: Seq<char>,
    keys: Seq<Seq<char>>,
    values: Map<Seq<char>, Seq<char>>,
)
    requires
        v.plugins.contains_key(name) ==> forall|j: int|
            0 <= j < v.plugins[name].info.actions.len() ==> (
            #[trigger] v.plugins[name].info.actions[j]).id != action_id,
    ensures
        invoke_request(v, name, action_id, keys, values) is Err,
{
    if v.plugins.contains_key(name) {
        lemma_action_at(v.plugins[name].info.actions, action_id, 0);
    }
}

/// Subscriptions are asked of plugins whose remote capability they are, and
/// which export them; subscribing and unsubscribing have callbacks of their own.
pub proof fn law_subscription_requests(v: RuntimeView, name: Seq<char>, callback: Callback)
    ensures
        subscription_request(v, name, callback) == Ok::<Option<Callback>, Fault>(Some(callback))
            <==> v.plugins.contains_key(name) && v.plugins[name].callbacks.contains(callback) && (
        v.plugins[name].info.capabilities.discover matches Some(discover) && discover.remote
            == Some(RemoteCapability::Subscription)),
        subscription_request(v, name, callback) is Err || subscription_request(v, name, callback)
            == Ok::<Option<Callback>, Fault>(Some(callback)),
        subscription_callback(true) is SubscriptionSubscribe,
        subscription_callback(false) is SubscriptionUnsubscribe,
        remote_fault(v, name, RemoteCapability::Download) is None <==> v.plugins.contains_key(name)
            && (v.plugins[name].info.capabilities.discover matches Some(discover)
            && discover.remote == Some(RemoteCapability::Download)),
{
}

/// What is handed to the callbacks of a search, of a resolving and of an action
/// stands under the keys of their names.
pub proof fn law_handed_tables(
    search: LuaTable,
    resolve: LuaTable,
    query: Seq<char>,
    sort: Seq<char>,
    page: int,
    tags: Seq<Seq<char>>,
    id: Seq<char>,
    dir: Seq<char>,
)
    requires
        context::hold_entries(search.fields@, search_fields(query, sort, page, tags)),
        context::hold_entries(resolve.fields@, resolve_fields(id, dir)),
        i64::MIN <= page <= i64::MAX,
    ensures
        search.field("query"@).as_text() == Some(query),
        search.field("sort"@).as_text() == Some(sort),
        search.field("page"@) == LuaValue::Integer(page as i64),
        search.field("tags"@) matches LuaValue::Table(list) && list.sequence@.len() == tags.len()
            && forall|k: int|
            0 <= k < tags.len() ==> (#[trigger] list.sequence@[k]).as_text() == Some(tags[k]),
        resolve.field("id"@).as_text() == Some(id),
        resolve.field("dir"@).as_text() == Some(dir),
{
    reveal_strlit("query");
    reveal_strlit("sort");
    reveal_strlit("page");
    reveal_strlit("tags");
    reveal_strlit("id");
    reveal_strlit("dir");
    assert("query"@.len() == 5 && "sort"@.len() == 4 && "page"@.len() == 4 && "tags"@.len() == 4);
    assert("sort"@[0] == 's' && "page"@[0] == 'p' && "tags"@[0] == 't');
    assert("id"@.len() == 2 && "dir"@.len() == 3);
    let f = search.fields@;
    let e = search_fields(query, sort, page, tags);
    assert(context::holds_entry(f[0], e[0]) && context::holds_entry(f[1], e[1])
        && context::holds_entry(f[2], e[2]) && context::holds_entry(f[3], e[3]));
    lua::law_field_is_found(search, "query"@, 0);
    lua::law_field_is_found(search, "sort"@, 1);
    lua::law_field_is_found(search, "page"@, 2);
    lua::law_field_is_found(search, "tags"@, 3);
    let g = resolve.fields@;
    let h = resolve_fields(id, dir);
    assert(context::holds_entry(g[0], h[0]) && context::holds_entry(g[1], h[1]));
    lua::law_field_is_found(resolve, "id"@, 0);
    lua::law_field_is_found(resolve, "dir"@, 1);
}

// ---------------------------------------------------------------------------
// What is told of what is refused

/// A search fails for the request, then for the call, then for the reply.
pub proof fn law_refused_search_call(
    v: RuntimeView,
    name: Seq<char>,
    tags: Seq<Seq<char>>,
    reply: CallbackReply,
)
    ensures
        ({
            let request = runtime::request_fault(search_request(v, name, tags));
            let discover_reply = runtime::discover_reply_fault(reply, name);
            let search = replies::search_fault(runtime::reply_table(reply), name);
            call_discover_fault(v, name, tags, reply) == (if request is Some {
                request
            } else if discover_reply is Some {
                discover_reply
            } else if search is Some {
                search
            } else {
                None
            })
        }),
{
}

/// A call for details fails for the request, then for the call, then for the
/// reply.
pub proof fn law_refused_details_call(v: RuntimeView, name: Seq<char>, reply: CallbackReply)
    ensures
        ({
            let request = runtime::request_fault(item_request(v, name, ItemRequest::Details));
            let discover_reply = runtime::discover_reply_fault(reply, name);
            let details = replies::details_fault(runtime::reply_table(reply));
            call_details_fault(v, name, reply) == (if request is Some {
                request
            } else if discover_reply is Some {
                discover_reply
            } else if details is Some {
                details
            } else {
                None
            })
        }),
{
}

/// A call for a download fails for the request, then for the call, then for the
/// reply.
pub proof fn law_refused_download_call(v: RuntimeView, name: Seq<char>, reply: CallbackReply)
    ensures
        ({
            let request = runtime::request_fault(item_request(v, name, ItemRequest::Download));
            let discover_reply = runtime::discover_reply_fault(reply, name);
            let download = replies::download_fault(
                v.plugins[name].dialect,
                runtime::reply_table(reply),
            );
            call_download_fault(v, name, reply) == (if request is Some {
                request
            } else if discover_reply is Some {
                discover_reply
            } else if download is Some {
                download
            } else {
                None
            })
        }),
{
}

/// A call that resolves an item fails for the request, then for the call or the
/// reply.
pub proof fn law_refused_resolve_call(v: RuntimeView, name: Seq<char>, reply: CallbackReply)
    ensures
        ({
            let request = runtime::request_fault(item_request(v, name, ItemRequest::Resolve));
            let rule = match runtime::no_table(reply) {
                Some(text) => Some(
                    Fault::ResolveFailed { plugin: name, message: redact::redacted(text) },
                ),
                None => replies::resolve_fault(runtime::reply_table(reply)),
            };
            call_resolve_fault(v, name, reply) == (if request is Some {
                request
            } else if rule is Some {
                rule
            } else {
                None
            })
        }),
{
}

/// A plugin that brings items in another way is told of by both ways.
pub proof fn law_refused_remote_capability(
    v: RuntimeView,
    name: Seq<char>,
    expected: RemoteCapability,
)
    ensures
        ({
            remote_fault(v, name, expected) == (if !(remote_of(v, name) == Some(expected)) {
                Some(
                    Fault::InvalidArgument(
                        "remote capability mismatch for '"@ + name + "': expected "@
                            + capability_name(expected) + ", got "@
                            + capability_text(remote_of(v, name)),
                    ),
                )
            } else {
                None
            })
        }),
{
}

/// A call for subscriptions fails for the request, then for the call, then for the
/// reply.
pub proof fn law_refused_subscription_call(v: RuntimeView, name: Seq<char>, reply: CallbackReply)
    ensures
        ({
            let request = runtime::request_fault(
                subscription_request(v, name, Callback::SubscriptionStatus),
            );
            let discover_reply = runtime::discover_reply_fault(reply, name);
            let subscription = replies::subscription_fault(
                v.plugins[name].dialect,
                runtime::reply_table(reply),
            );
            subscription_status_fault(v, name, reply) == (if request is Some {
                request
            } else if discover_reply is Some {
                discover_reply
            } else if subscription is Some {
                subscription
            } else {
                None
            })
        }),
{
}

/// A change of a subscription fails for the request, then for the call, then for
/// the reply.
pub proof fn law_refused_subscription_change_call(
    v: RuntimeView,
    name: Seq<char>,
    subscribed: bool,
    reply: CallbackReply,
)
    ensures
        ({
            let request = runtime::request_fault(
                subscription_request(v, name, subscription_callback(subscribed)),
            );
            let discover_reply = runtime::discover_reply_fault(reply, name);
            let subscription_set = replies::subscription_set_fault(
                v.plugins[name].dialect,
                runtime::reply_table(reply),
                name,
            );
            set_subscription_fault(v, name, subscribed, reply) == (if request is Some {
                request
            } else if discover_reply is Some {
                discover_reply
            } else if subscription_set is Some {
                subscription_set
            } else {
                None
            })
        }),
{
}

/// A removal fails for the request, then for the call.
pub proof fn law_refused_removal_call(v: RuntimeView, name: Seq<char>, reply: CallbackReply)
    ensures
        ({
            let request = runtime::request_fault(remove_request(v, name));
            let rule = match runtime::no_reply(reply) {
                Some(text) => Some(
                    Fault::SourceItemRemoveFailed { plugin: name, message: redact::redacted(text) },
                ),
                None => None,
            };
            remove_fault(v, name, reply) == (if request is Some {
                request
            } else if rule is Some {
                rule
            } else {
                None
            })
        }),
{
}

/// What a plugin that lacks a declared function is told of.
pub proof fn law_missing_functions(v: RuntimeView, name: Seq<char>)
    requires
        v.plugins.contains_key(name),
    ensures
        ({
            let p = v.plugins[name];
            &&& p.info.capabilities.wallpaper.apply && !p.callbacks.contains(
                Callback::WallpaperApply,
            ) ==> apply_request(v, name) == Err::<Option<Callback>, Fault>(
                if p.dialect.localized() {
                    Fault::SourceApplyFailed {
                        plugin: name,
                        message: redact::redacted("module.wallpaper.apply required"@),
                    }
                } else {
                    Fault::SourceExtrasFailed {
                        plugin: name,
                        message: redact::redacted("module.wallpaper.extras required"@),
                    }
                },
            )
            &&& p.info.capabilities.wallpaper.properties && !p.callbacks.contains(
                Callback::WallpaperProperties,
            ) ==> properties_request(v, name) == Err::<Option<Callback>, Fault>(
                Fault::Internal("module.wallpaper.properties required"@),
            )
            &&& p.info.capabilities.lifecycle && !p.callbacks.contains(Callback::LifecycleCheck)
                ==> check_request(v, name) == Err::<Option<Callback>, Fault>(
                Fault::Internal("module.lifecycle.check required"@),
            )
            &&& runtime::plays(p.info, runtime::PluginRole::AutoDetect) && !p.callbacks.contains(
                Callback::SourceAutoDetect,
            ) ==> detect_request(v, name) == Err::<Option<Callback>, Fault>(
                Fault::Internal("module.source.auto_detect required"@),
            )
            &&& remove_request(v, name) is Err ==> remove_request(v, name) == Err::<
                Option<Callback>,
                Fault,
            >(Fault::SourceItemRemoveUnsupported(name))
        }),
{
}

/// A search whose selection is refused fails for that; one without its function
/// is not supported.
pub proof fn law_refused_search_requests(v: RuntimeView, name: Seq<char>, tags: Seq<Seq<char>>)
    requires
        v.plugins.contains_key(name),
        v.plugins[name].info.capabilities.discover is Some,
    ensures
        ({
            let discover = v.plugins[name].info.capabilities.discover->0;
            let selection = filters::selected_values_fault(name, discover.filters, tags);
            &&& selection matches Some(fault) ==> search_request(v, name, tags) == Err::<
                Option<Callback>,
                Fault,
            >(fault)
            &&& selection is None && !v.plugins[name].callbacks.contains(Callback::DiscoverSearch)
                ==> search_request(v, name, tags) == Err::<Option<Callback>, Fault>(
                Fault::DiscoverUnsupported(name),
            )
        }),
{
}

/// What is told where a plugin that was asked fails: the fault of the request's
/// kind, with the plugin's name and its message without the secrets.
pub proof fn law_failed_calls(v: RuntimeView, name: Seq<char>, why: String)
    requires
        v.plugins.contains_key(name),
    ensures
        ({
            let p = v.plugins[name];
            let reply = CallbackReply::Failed(why);
            let message = redact::redacted(why@);
            let discover = Some(Fault::DiscoverFailed { plugin: name, message });
            &&& apply_request(v, name) == Ok::<Option<Callback>, Fault>(
                Some(Callback::WallpaperApply),
            ) ==> call_apply_fault(v, name, reply) == Some(
                if p.dialect.localized() {
                    Fault::SourceApplyFailed { plugin: name, message }
                } else {
                    Fault::SourceExtrasFailed { plugin: name, message }
                },
            )
            &&& properties_request(v, name) == Ok::<Option<Callback>, Fault>(
                Some(Callback::WallpaperProperties),
            ) ==> properties_fault(v, name, reply) == Some(
                Fault::Internal("properties("@ + name + "): "@ + message),
            )
            &&& remove_request(v, name) is Ok ==> remove_fault(v, name, reply) == Some(
                Fault::SourceItemRemoveFailed { plugin: name, message },
            )
            &&& item_request(v, name, ItemRequest::Resolve) is Ok ==> call_resolve_fault(
                v,
                name,
                reply,
            ) == Some(Fault::ResolveFailed { plugin: name, message })
            &&& item_request(v, name, ItemRequest::Details) is Ok ==> call_details_fault(
                v,
                name,
                reply,
            ) == discover
            &&& item_request(v, name, ItemRequest::Download) is Ok ==> call_download_fault(
                v,
                name,
                reply,
            ) == discover
            &&& check_request(v, name) == Ok::<Option<Callback>, Fault>(
                Some(Callback::LifecycleCheck),
            ) ==> check_lifecycle_fault(v, name, reply) == discover
            &&& status_request(v, name) == Ok::<Option<Callback>, Fault>(
                Some(Callback::ActionsStatus),
            ) ==> call_status_fault(v, name, reply) == discover
        }),
{
}

/// A reply that is read and refused is told of by what is wrong with it; one on
/// applying a wallpaper within the fault of that request.
pub proof fn law_refused_replies(v: RuntimeView, name: Seq<char>, t: LuaTable)
    requires
        v.plugins.contains_key(name),
    ensures
        ({
            let p = v.plugins[name];
            let reply = CallbackReply::Returned(LuaValue::Table(t));
            &&& apply_request(v, name) == Ok::<Option<Callback>, Fault>(
                Some(Callback::WallpaperApply),
            ) ==> (replies::apply_fault(p.dialect, t) matches Some(fault) ==> call_apply_fault(
                v,
                name,
                reply,
            ) == Some(
                if p.dialect.localized() {
                    Fault::SourceApplyFailed {
                        plugin: name,
                        message: redact::redacted(fault.message()),
                    }
                } else {
                    Fault::SourceExtrasFailed {
                        plugin: name,
                        message: redact::redacted(fault.message()),
                    }
                },
            ))
            &&& check_request(v, name) == Ok::<Option<Callback>, Fault>(
                Some(Callback::LifecycleCheck),
            ) ==> check_lifecycle_fault(v, name, reply) == replies::check_fault(p.dialect, t)
            &&& status_request(v, name) == Ok::<Option<Callback>, Fault>(
                Some(Callback::ActionsStatus),
            ) ==> call_status_fault(v, name, reply) == replies::action_status_fault(
                p.dialect,
                t,
                p.info.actions,
                p.info.status,
            )
        }),
{
}

/// The libraries that a plugin detects are the texts of its list that can be
/// read; anything else than a list detects none.
pub proof fn law_detected_libraries(reply: CallbackReply, t: LuaTable)
    ensures
        reply == CallbackReply::Returned(LuaValue::Table(t)) ==> detected(reply)
            == replies::readable_texts(t.sequence@, t.sequence@.len() as int),
        !(reply matches CallbackReply::Returned(value) && value is Table) ==> detected(reply).len()
            == 0,
{
}

/// The fields that were given are handed on in their order, each with its value.
pub proof fn law_given_fields(
    order: Seq<Seq<char>>,
    values: Map<Seq<char>, Seq<char>>,
    i: int,
)
    requires
        0 <= i < order.len(),
    ensures
        given_fields(order, values).len() == order.len(),
        given_fields(order, values)[i] == (EntryField {
            key: order[i],
            value: EntryValue::Text(values[order[i]]),
        }),
{
}

/// What is told of an action that is not invoked: that it is none to invoke,
/// that it takes no fields, the field that it has not, or the field that it
/// needs.
pub proof fn law_refused_invocations(
    v: RuntimeView,
    name: Seq<char>,
    action: SourceActionView,
    keys: Seq<Seq<char>>,
    values: Map<Seq<char>, Seq<char>>,
    i: int,
)
    ensures
        ({
            let start = "plugin action '"@ + name + ":"@ + action.id + "'"@;
            &&& v.plugins.contains_key(name) && (forall|j: int|
                0 <= j < v.plugins[name].info.actions.len() ==> (
                #[trigger] v.plugins[name].info.actions[j]).id != action.id) ==> invoke_request(
                v,
                name,
                action.id,
                keys,
                values,
            ) == Err::<Option<Callback>, Fault>(
                Fault::InvalidArgument(start + " is not invokable"@),
            )
            &&& !v.plugins.contains_key(name) ==> invoke_request(v, name, action.id, keys, values)
                == Err::<Option<Callback>, Fault>(Fault::SourcePluginNotFound(name))
            &&& !(action.kind is Form) && keys.len() > 0 ==> action_values_fault(
                name,
                action,
                keys,
                values,
            ) == Some(Fault::InvalidArgument(start + " does not accept fields"@))
            &&& action.kind is Form && 0 <= i < keys.len() && !has_field(action.fields, keys[i])
                && (
            forall|j: int| 0 <= j < i ==> has_field(action.fields, #[trigger] keys[j]))
                ==> action_values_fault(name, action, keys, values) == Some(
                Fault::InvalidArgument(start + (" has no field '"@ + keys[i] + "'"@)),
            )
            &&& action.kind is Form && 0 <= i < action.fields.len() && unfilled(
                action.fields[i],
                values,
            ) && (forall|j: int| 0 <= j < keys.len()
                ==> has_field(action.fields, #[trigger] keys[j]))
                && (forall|j: int| 0 <= j < i ==> !unfilled(#[trigger] action.fields[j], values))
                ==> action_values_fault(name, action, keys, values) == Some(
                Fault::InvalidArgument(
                    start + (" requires field '"@ + action.fields[i].key + "'"@),
                ),
            )
        }),
{
    if v.plugins.contains_key(name) {
        let actions = v.plugins[name].info.actions;
        if forall|j: int| 0 <= j < actions.len() ==> (#[trigger] actions[j]).id != action.id {
            lemma_action_absent(actions, action.id, 0);
        }
    }
    let unknown = |j: int|
        error::unless(
            has_field(action.fields, keys[j]),
            Fault::InvalidArgument(
                runtime::action_message(name, action.id, " has no field '"@ + keys[j] + "'"@),
            ),
        );
    let empty = |j: int|
        error::unless(
            !unfilled(action.fields[j], values),
            Fault::InvalidArgument(
                runtime::action_message(
                    name,
                    action.id,
                    " requires field '"@ + action.fields[j].key + "'"@,
                ),
            ),
        );
    if action.kind is Form {
        error::lemma_first_of_none(keys.len() as int, unknown);
        if 0 <= i < keys.len() {
            error::law_first_fault(keys.len() as int, unknown, i);
        }
        if 0 <= i < action.fields.len() {
            error::law_first_fault(action.fields.len() as int, empty, i);
        }
        if forall|j: int| 0 <= j < i ==> has_field(action.fields, #[trigger] keys[j]) {
            assert forall|j: int| 0 <= j < i implies (#[trigger] unknown(j)) is None by {
                assert(has_field(action.fields, keys[j]));
            }
        }
        if forall|j: int| 0 <= j < keys.len() ==> has_field(action.fields, #[trigger] keys[j]) {
            assert forall|j: int| 0 <= j < keys.len() implies (#[trigger] unknown(j)) is None by {
                assert(has_field(action.fields, keys[j]));
            }
        }
        if forall|j: int| 0 <= j < i ==> !unfilled(#[trigger] action.fields[j], values) {
            assert forall|j: int| 0 <= j < i implies (#[trigger] empty(j)) is None by {
                assert(!unfilled(action.fields[j], values));
            }
        }
    }
}

proof fn lemma_action_absent(actions: Seq<SourceActionView>, action_id: Seq<char>, i: int)
    requires
        0 <= i,
        forall|j: int| 0 <= j < actions.len() ==> (#[trigger] actions[j]).id != action_id,
    ensures
        action_at(actions, action_id, i) is None,
    decreases actions.len() - i,
{
    if i < actions.len() {
        lemma_action_absent(actions, action_id, i + 1);
    }
}

/// A field is filled where it is not needed or has a value that is not empty.
pub proof fn law_filled_fields(field: SourceActionFieldView, values: Map<Seq<char>, Seq<char>>)
    ensures
        unfilled(field, values) <==> field.required && !(values.contains_key(field.key)
            && values[field.key].len() > 0),
        capability_name(RemoteCapability::Download) == "Download"@,
        capability_name(RemoteCapability::Subscription) == "Subscription"@,
        capability_text(Some(RemoteCapability::Download)) == "Some("@ + "Download"@ + ")"@,
        capability_text(Some(RemoteCapability::Subscription)) == "Some("@ + "Subscription"@ + ")"@,
        capability_text(None) == "None"@,
{
}

} // verus!
