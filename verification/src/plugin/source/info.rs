//! What a source plugin declares of itself, checked against what its module
//! exports.
use vstd::prelude::*;
use crate::error;
use crate::error::{Error, Fault};
use crate::plugin::i18n::{LocalizedText, LocalizedView};
use crate::plugin::lua;
use crate::plugin::lua::{
    complain, complain_why, explain_kind, match_declared_function, optional_bool,
    optional_string_sequence, optional_table, require_field_absent, require_module_table,
    require_string, require_string_sequence, require_table_function, LuaTable, LuaValue,
};
use crate::plugin::source::declared;
use crate::plugin::source::declared::{
    parse_source_actions, parse_source_settings, parse_source_status, parse_state_migrations,
};
use crate::plugin::source::entry::Dialect;
use crate::plugin::source::filters;
use crate::plugin::source::filters::{
    legacy_discover_filter, optional_discover_filters, optional_discover_sorts,
};
use crate::plugin::source::labels;
use crate::plugin::source::labels::read_label;
use crate::plugin::source::types::{
    DiscoverCapability, DiscoverCapabilityView, DiscoverFilter, LoadedPluginInfo,
    LoadedPluginInfoView, PluginCapabilities, PluginCapabilitiesView, RemoteCapability,
    SourceAction, SourceActionKind, SourceActionView, SourceCapability, SourceCapabilityView,
    WallpaperCapability,
};
use crate::text;

verus! {

// ---------------------------------------------------------------------------
// Exports

/// What is declared is exported; in a strict dialect nothing else is.
pub open spec fn export_fault(
    dialect: Dialect,
    api: LuaTable,
    name: Seq<char>,
    context: Seq<char>,
    declared: bool,
) -> Option<Fault> {
    if declared || dialect.strict() {
        lua::declared_function_fault(api, name, context, declared)
    } else {
        None
    }
}

fn check_export(dialect: Dialect, api: &LuaTable, name: &str, context: &str, declared: bool) -> (r:
    Result<(), Error>)
    ensures
        error::outcome_check(r, export_fault(dialect, *api, name@, context@, declared)),
{
    if declared || dialect.is_strict() {
        match_declared_function(api, name, context, declared)
    } else {
        Ok(())
    }
}

// ---------------------------------------------------------------------------
// Local libraries

/// `module.source.remove` is a function where it is there.
pub open spec fn remove_fault(module: LuaTable) -> Option<Fault> {
    error::first(
        lua::optional_table_fault(module, "source"@, "module"@),
        match lua::table_field(module, "source"@) {
            Some(api) => error::unless(
                api.field("remove"@) is Nil || api.field("remove"@) is Function,
                Fault::Internal("module.source.remove must be a function when present"@),
            ),
            None => None,
        },
    )
}

pub open spec fn removes_items(module: LuaTable) -> bool {
    lua::table_field(module, "source"@) matches Some(api) && api.field("remove"@) is Function
}

/// The rules for the source capability.
pub open spec fn source_fault(
    dialect: Dialect,
    module: LuaTable,
    source: LuaTable,
) -> Option<Fault> {
    let context = "info().capabilities.source"@;
    let api = lua::table_field(module, "source"@);
    error::first(
        lua::optional_bool_fault(source, "scan"@, context),
        error::first(
            error::unless(
                lua::bool_field(source, "scan"@, false),
                lua::complaint(context, "scan"@, " must be true"@),
            ),
            error::first(
                error::unless(
                    api is Some,
                    Fault::Internal("module.source table required for source capability"@),
                ),
                error::first(
                    lua::function_fault(api->0, "scan"@, "module.source"@),
                    error::first(
                        lua::optional_bool_fault(source, "auto_detect"@, context),
                        error::first(
                            export_fault(
                                dialect,
                                api->0,
                                "auto_detect"@,
                                "module.source"@,
                                lua::bool_field(source, "auto_detect"@, false),
                            ),
                            source_lists_fault(dialect, source, context),
                        ),
                    ),
                ),
            ),
        ),
    )
}

pub open spec fn source_lists_fault(
    dialect: Dialect,
    source: LuaTable,
    context: Seq<char>,
) -> Option<Fault> {
    error::first(
        lua::required_texts_fault(source, "types"@, context),
        error::first(
            error::unless(
                lua::texts_field(source, "types"@).len() > 0,
                lua::complaint(context, "types"@, " must not be empty"@),
            ),
            error::first(
                labels::label_fault(dialect, source, "library_label"@, context),
                labels::label_fault(dialect, source, "library_hint"@, context),
            ),
        ),
    )
}

pub open spec fn source_value(dialect: Dialect, source: LuaTable) -> SourceCapabilityView {
    SourceCapabilityView {
        types: lua::texts_field(source, "types"@),
        library_label: labels::label(dialect, source, "library_label"@),
        library_hint: labels::label(dialect, source, "library_hint"@),
        auto_detect: lua::bool_field(source, "auto_detect"@, false),
    }
}

fn parse_source_capability(
    dialect: Dialect,
    source: &LuaTable,
    api: Option<&LuaTable>,
    module: &LuaTable,
) -> (r: Result<SourceCapability, Error>)
    requires
        match api {
            Some(table) => lua::table_field(*module, "source"@) == Some(*table),
            None => lua::table_field(*module, "source"@) is None,
        },
    ensures
        error::outcome(r, source_fault(dialect, *module, *source), source_value(dialect, *source)),
{
    let context = "info().capabilities.source";
    if !optional_bool(source, "scan", context, false)? {
        return Err(complain(context, "scan", " must be true"));
    }
    let api = match api {
        Some(api) => api,
        None => {
            return Err(
                Error::Internal("module.source table required for source capability".to_owned()),
            );
        },
    };
    require_table_function(api, "scan", "module.source")?;
    let auto_detect = optional_bool(source, "auto_detect", context, false)?;
    check_export(dialect, api, "auto_detect", "module.source", auto_detect)?;
    let types = require_string_sequence(source, "types", context)?;
    if types.len() == 0 {
        return Err(complain(context, "types", " must not be empty"));
    }
    let library_label = read_label(dialect, source, "library_label", context)?;
    let library_hint = read_label(dialect, source, "library_hint", context)?;
    Ok(SourceCapability { types, library_label, library_hint, auto_detect })
}

// ---------------------------------------------------------------------------
// Remote items

pub open spec fn discover_flag(discover: LuaTable, key: Seq<char>) -> bool {
    lua::bool_field(discover, key, false)
}

pub open spec fn discover_api(module: LuaTable) -> LuaTable {
    lua::table_field(module, "discover"@)->0
}

/// The search is declared and exported.
pub open spec fn discover_search_fault(module: LuaTable, discover: LuaTable) -> Option<Fault> {
    let context = "info().capabilities.discover"@;
    error::first(
        lua::optional_bool_fault(discover, "search"@, context),
        error::first(
            error::unless(
                discover_flag(discover, "search"@),
                lua::complaint(context, "search"@, " must be true"@),
            ),
            error::first(
                lua::module_table_fault(module, "discover"@),
                lua::function_fault(discover_api(module), "search"@, "module.discover"@),
            ),
        ),
    )
}

pub open spec fn discover_flags_fault(discover: LuaTable) -> Option<Fault> {
    let context = "info().capabilities.discover"@;
    error::first(
        lua::optional_bool_fault(discover, "details"@, context),
        error::first(
            lua::optional_bool_fault(discover, "download"@, context),
            error::first(
                lua::optional_bool_fault(discover, "subscription"@, context),
                lua::optional_bool_fault(discover, "resolve"@, context),
            ),
        ),
    )
}

/// What is declared is exported.
pub open spec fn discover_exports_fault(
    dialect: Dialect,
    module: LuaTable,
    discover: LuaTable,
) -> Option<Fault> {
    let api = discover_api(module);
    error::first(
        export_fault(
            dialect,
            api,
            "details"@,
            "module.discover"@,
            discover_flag(discover, "details"@),
        ),
        error::first(
            if discover_flag(discover, "download"@) {
                lua::function_fault(api, "download"@, "module.discover"@)
            } else {
                None
            },
            if discover_flag(discover, "resolve"@) {
                lua::function_fault(api, "resolve"@, "module.discover"@)
            } else {
                None
            },
        ),
    )
}

/// A plugin that takes subscriptions exports all of their callbacks.
pub open spec fn subscription_exports_fault(module: LuaTable) -> Option<Fault> {
    let api = lua::table_field(module, "subscription"@)->0;
    error::first(
        lua::module_table_fault(module, "subscription"@),
        error::first(
            lua::function_fault(api, "status"@, "module.subscription"@),
            error::first(
                lua::function_fault(api, "subscribe"@, "module.subscription"@),
                lua::function_fault(api, "unsubscribe"@, "module.subscription"@),
            ),
        ),
    )
}

/// Download and subscription exclude each other.
pub open spec fn discover_remote_fault(
    dialect: Dialect,
    module: LuaTable,
    discover: LuaTable,
) -> Option<Fault> {
    let download = discover_flag(discover, "download"@);
    let subscription = discover_flag(discover, "subscription"@);
    error::first(
        if download && subscription {
            Some(
                Fault::Internal(
                    "info().capabilities.discover download and subscription are mutually exclusive"@,
                ),
            )
        } else if subscription {
            error::first(
                error::unless(
                    dialect.strict(),
                    Fault::Internal("subscription capability requires entry_version 3"@),
                ),
                subscription_exports_fault(module),
            )
        } else {
            None
        },
        if dialect.strict() {
            undeclared_remote_fault(dialect, module, discover)
        } else {
            None
        },
    )
}

/// Nothing is exported that is not declared. Where texts are plain, resolving
/// needs download too.
pub open spec fn undeclared_remote_fault(
    dialect: Dialect,
    module: LuaTable,
    discover: LuaTable,
) -> Option<Fault> {
    let api = discover_api(module);
    let download = discover_flag(discover, "download"@);
    let subscription = discover_flag(discover, "subscription"@);
    let resolve = discover_flag(discover, "resolve"@);
    error::first(
        error::unless(
            resolve ==> download || dialect.localized(),
            lua::complaint(
                "info().capabilities.discover"@,
                "resolve"@,
                " requires download capability"@,
            ),
        ),
        error::first(
            if download {
                None
            } else {
                lua::absent_fault(api, "download"@, "module.discover"@)
            },
            error::first(
                if resolve {
                    None
                } else {
                    lua::absent_fault(api, "resolve"@, "module.discover"@)
                },
                error::first(
                    lua::optional_table_fault(module, "subscription"@, "module"@),
                    error::unless(
                        subscription == (lua::table_field(module, "subscription"@) is Some),
                        Fault::Internal(
                            "module.subscription presence must match the subscription capability"@,
                        ),
                    ),
                ),
            ),
        ),
    )
}

pub open spec fn discover_lists_fault(
    module: LuaTable,
    discover: LuaTable,
    dialect: Dialect,
) -> Option<Fault> {
    let context = "info().capabilities.discover"@;
    error::first(
        filters::sorts_fault(dialect, discover),
        error::first(
            filters::filters_fault(discover, dialect),
            error::first(
                lua::optional_texts_fault(discover, "tags"@, context),
                error::first(
                    error::unless(
                        filters::filters_value(dialect, discover) is Some ==> lua::texts_field(
                            discover,
                            "tags"@,
                        ).len() == 0 && !(discover_api(module).field("tags"@) is Function),
                        lua::complaint(
                            context,
                            "filters"@,
                            " cannot be combined with legacy tags"@,
                        ),
                    ),
                    labels::label_fault(dialect, discover, "remote_hint"@, context),
                ),
            ),
        ),
    )
}

/// The rules for the discover capability.
pub open spec fn discover_fault(module: LuaTable, discover: LuaTable, dialect: Dialect) -> Option<
    Fault,
> {
    error::first(
        discover_search_fault(module, discover),
        error::first(
            discover_flags_fault(discover),
            error::first(
                discover_exports_fault(dialect, module, discover),
                error::first(
                    discover_remote_fault(dialect, module, discover),
                    discover_lists_fault(module, discover, dialect),
                ),
            ),
        ),
    )
}

pub open spec fn remote_value(discover: LuaTable) -> Option<RemoteCapability> {
    if discover_flag(discover, "download"@) {
        Some(RemoteCapability::Download)
    } else if discover_flag(discover, "subscription"@) {
        Some(RemoteCapability::Subscription)
    } else {
        None
    }
}

pub open spec fn discover_value(
    dialect: Dialect,
    module: LuaTable,
    discover: LuaTable,
) -> DiscoverCapabilityView {
    DiscoverCapabilityView {
        supports_search: true,
        supports_details: discover_flag(discover, "details"@),
        supports_download: discover_flag(discover, "download"@),
        supports_resolve: discover_flag(discover, "resolve"@),
        remote: remote_value(discover),
        remote_hint: labels::label(dialect, discover, "remote_hint"@),
        sorts: filters::sorts_value(dialect, discover),
        filters: match filters::filters_value(dialect, discover) {
            Some(list) => list,
            None => filters::legacy_filter(lua::texts_field(discover, "tags"@)),
        },
        dynamic_tags: discover_api(module).field("tags"@) is Function,
    }
}

fn check_subscription_exports(module: &LuaTable) -> (r: Result<(), Error>)
    ensures
        error::outcome_check(r, subscription_exports_fault(*module)),
{
    let api = require_module_table(module, "subscription")?;
    require_table_function(api, "status", "module.subscription")?;
    require_table_function(api, "subscribe", "module.subscription")?;
    require_table_function(api, "unsubscribe", "module.subscription")
}

fn check_remote(
    dialect: Dialect,
    module: &LuaTable,
    discover: &LuaTable,
    api: &LuaTable,
    download: bool,
    subscription: bool,
    resolve: bool,
) -> (r: Result<Option<RemoteCapability>, Error>)
    requires
        *api == discover_api(*module),
        download == discover_flag(*discover, "download"@),
        subscription == discover_flag(*discover, "subscription"@),
        resolve == discover_flag(*discover, "resolve"@),
    ensures
        match r {
            Ok(remote) => discover_remote_fault(dialect, *module, *discover) is None && remote
                == remote_value(*discover),
            Err(e) => discover_remote_fault(dialect, *module, *discover) == Some(e@),
        },
{
    let remote = match (download, subscription) {
        (true, true) => {
            return Err(
                Error::Internal(
                    "info().capabilities.discover download and subscription are mutually exclusive".to_owned(),
                ),
            );
        },
        (true, false) => Some(RemoteCapability::Download),
        (false, true) => {
            if !dialect.is_strict() {
                return Err(
                    Error::Internal("subscription capability requires entry_version 3".to_owned()),
                );
            }
            check_subscription_exports(module)?;
            Some(RemoteCapability::Subscription)
        },
        (false, false) => None,
    };
    if !dialect.is_strict() {
        return Ok(remote);
    }
    if resolve && !download && !dialect.is_localized() {
        return Err(
            complain("info().capabilities.discover", "resolve", " requires download capability"),
        );
    }
    if !download {
        require_field_absent(api, "download", "module.discover")?;
    }
    if !resolve {
        require_field_absent(api, "resolve", "module.discover")?;
    }
    let subscription_api = optional_table(module, "subscription", "module")?;
    if subscription != subscription_api.is_some() {
        return Err(
            Error::Internal(
                "module.subscription presence must match the subscription capability".to_owned(),
            ),
        );
    }
    Ok(remote)
}

fn parse_discover_capability(
    module: &LuaTable,
    discover: &LuaTable,
    dialect: Dialect,
) -> (r: Result<DiscoverCapability, Error>)
    ensures
        error::outcome(
            r,
            discover_fault(*module, *discover, dialect),
            discover_value(dialect, *module, *discover),
        ),
{
    let context = "info().capabilities.discover";
    if !optional_bool(discover, "search", context, false)? {
        return Err(complain(context, "search", " must be true"));
    }
    let api = require_module_table(module, "discover")?;
    require_table_function(api, "search", "module.discover")?;
    let details = optional_bool(discover, "details", context, false)?;
    let download = optional_bool(discover, "download", context, false)?;
    let subscription = optional_bool(discover, "subscription", context, false)?;
    let resolve = optional_bool(discover, "resolve", context, false)?;
    check_export(dialect, api, "details", "module.discover", details)?;
    if download {
        require_table_function(api, "download", "module.discover")?;
    }
    if resolve {
        require_table_function(api, "resolve", "module.discover")?;
    }
    let remote = check_remote(dialect, module, discover, api, download, subscription, resolve)?;
    let sorts = optional_discover_sorts(dialect, discover)?;
    let declared_filters = optional_discover_filters(discover, dialect)?;
    let tags = optional_string_sequence(discover, "tags", context)?;
    let dynamic_tags = matches!(api.get("tags"), LuaValue::Function);
    let filters: Vec<DiscoverFilter> = match declared_filters {
        Some(list) => {
            if tags.len() > 0 || dynamic_tags {
                return Err(
                    complain(context, "filters", " cannot be combined with legacy tags"),
                );
            }
            list
        },
        None => legacy_discover_filter(&tags),
    };
    let remote_hint = read_label(dialect, discover, "remote_hint", context)?;
    Ok(
        DiscoverCapability {
            supports_search: true,
            supports_details: details,
            supports_download: download,
            supports_resolve: resolve,
            remote,
            remote_hint,
            sorts,
            filters,
            dynamic_tags,
        },
    )
}

// ---------------------------------------------------------------------------
// Wallpapers on show

/// The name of the callback that shows a wallpaper.
pub open spec fn apply_name(dialect: Dialect) -> Seq<char> {
    if dialect.localized() {
        "apply"@
    } else {
        "extras"@
    }
}

/// The rules for the wallpaper capability.
pub open spec fn wallpaper_fault(
    dialect: Dialect,
    module: LuaTable,
    wallpaper: LuaTable,
) -> Option<Fault> {
    let context = "info().capabilities.wallpaper"@;
    let api = lua::table_field(module, "wallpaper"@)->0;
    error::first(
        lua::module_table_fault(module, "wallpaper"@),
        error::first(
            lua::optional_bool_fault(wallpaper, apply_name(dialect), context),
            error::first(
                lua::optional_bool_fault(wallpaper, "properties"@, context),
                error::first(
                    export_fault(
                        dialect,
                        api,
                        apply_name(dialect),
                        "module.wallpaper"@,
                        lua::bool_field(wallpaper, apply_name(dialect), false),
                    ),
                    export_fault(
                        dialect,
                        api,
                        "properties"@,
                        "module.wallpaper"@,
                        lua::bool_field(wallpaper, "properties"@, false),
                    ),
                ),
            ),
        ),
    )
}

pub open spec fn wallpaper_value(
    dialect: Dialect,
    wallpaper: Option<LuaTable>,
) -> WallpaperCapability {
    match wallpaper {
        Some(t) => WallpaperCapability {
            apply: lua::bool_field(t, apply_name(dialect), false),
            properties: lua::bool_field(t, "properties"@, false),
        },
        None => WallpaperCapability { apply: false, properties: false },
    }
}

fn parse_wallpaper_capability(
    dialect: Dialect,
    module: &LuaTable,
    wallpaper: &LuaTable,
) -> (r: Result<WallpaperCapability, Error>)
    ensures
        match r {
            Ok(capability) => wallpaper_fault(dialect, *module, *wallpaper) is None && capability
                == wallpaper_value(dialect, Some(*wallpaper)),
            Err(e) => wallpaper_fault(dialect, *module, *wallpaper) == Some(e@),
        },
{
    let context = "info().capabilities.wallpaper";
    let api = require_module_table(module, "wallpaper")?;
    let name = if dialect.is_localized() {
        "apply"
    } else {
        "extras"
    };
    let apply = optional_bool(wallpaper, name, context, false)?;
    let properties = optional_bool(wallpaper, "properties", context, false)?;
    check_export(dialect, api, name, "module.wallpaper", apply)?;
    check_export(dialect, api, "properties", "module.wallpaper", properties)?;
    Ok(WallpaperCapability { apply, properties })
}

// ---------------------------------------------------------------------------
// State, actions and logins

/// A plugin that keeps state exports all of its callbacks, and migrations need
/// it to.
pub open spec fn lifecycle_fault(module: LuaTable, migrates: bool) -> Option<Fault> {
    match lua::table_field(module, "lifecycle"@) {
        Some(api) => error::first(
            lua::function_fault(api, "load"@, "module.lifecycle"@),
            error::first(
                lua::function_fault(api, "save"@, "module.lifecycle"@),
                error::first(
                    lua::function_fault(api, "check"@, "module.lifecycle"@),
                    if migrates {
                        lua::function_fault(api, "migrate"@, "module.lifecycle"@)
                    } else {
                        None
                    },
                ),
            ),
        ),
        None => error::unless(
            !migrates,
            Fault::Internal("info().state_migrations requires module.lifecycle"@),
        ),
    }
}

/// Some action is carried out by the plugin itself.
pub open spec fn any_invokable(actions: Seq<SourceActionView>) -> bool {
    exists|i: int|
        0 <= i < actions.len() && (#[trigger] actions[i]).kind != SourceActionKind::QrLogin
}

pub open spec fn any_qr_login(actions: Seq<SourceActionView>) -> bool {
    exists|i: int|
        0 <= i < actions.len() && (#[trigger] actions[i]).kind == SourceActionKind::QrLogin
}

/// Actions and status rows need their callbacks, and the callbacks need them.
pub open spec fn actions_api_fault(
    module: LuaTable,
    actions: Seq<SourceActionView>,
    rows: nat,
) -> Option<Fault> {
    let api = lua::table_field(module, "actions"@);
    let surface = actions.len() > 0 || rows > 0;
    error::first(
        error::unless(
            surface == (api is Some),
            Fault::Internal("module.actions presence must match declared actions/status"@),
        ),
        if surface {
            error::first(
                lua::function_fault(api->0, "status"@, "module.actions"@),
                lua::declared_function_fault(
                    api->0,
                    "invoke"@,
                    "module.actions"@,
                    any_invokable(actions),
                ),
            )
        } else {
            None
        },
    )
}

/// QR logins need their callbacks, and the callbacks need them.
pub open spec fn qr_api_fault(module: LuaTable, actions: Seq<SourceActionView>) -> Option<Fault> {
    let api = lua::table_field(module, "qrlogin"@);
    error::first(
        error::unless(
            any_qr_login(actions) == (api is Some),
            Fault::Internal("module.qrlogin presence must match declared qr_login actions"@),
        ),
        if any_qr_login(actions) {
            error::first(
                lua::function_fault(api->0, "begin"@, "module.qrlogin"@),
                lua::function_fault(api->0, "poll"@, "module.qrlogin"@),
            )
        } else {
            None
        },
    )
}

fn has_kind(actions: &Vec<SourceAction>, qr: bool) -> (r: bool)
    ensures
        qr ==> r == any_qr_login(text::views(actions@)),
        !qr ==> r == any_invokable(text::views(actions@)),
{
    let mut i: usize = 0;
    while i < actions.len()
        invariant
            i <= actions@.len(),
            forall|j: int|
                0 <= j < i ==> ((#[trigger] text::views(actions@)[j]).kind
                    == SourceActionKind::QrLogin) != qr,
        decreases actions@.len() - i,
    {
        assert(text::views(actions@)[i as int] == actions@[i as int]@);
        if (actions[i].kind == SourceActionKind::QrLogin) == qr {
            return true;
        }
        i = i + 1;
    }
    false
}

fn check_lifecycle_api(api: Option<&LuaTable>, migrates: bool, module: &LuaTable) -> (r: Result<
    (),
    Error,
>)
    requires
        match api {
            Some(table) => lua::table_field(*module, "lifecycle"@) == Some(*table),
            None => lua::table_field(*module, "lifecycle"@) is None,
        },
    ensures
        error::outcome_check(r, lifecycle_fault(*module, migrates)),
{
    match api {
        Some(api) => {
            require_table_function(api, "load", "module.lifecycle")?;
            require_table_function(api, "save", "module.lifecycle")?;
            require_table_function(api, "check", "module.lifecycle")?;
            if migrates {
                require_table_function(api, "migrate", "module.lifecycle")?;
            }
            Ok(())
        },
        None => if migrates {
            Err(Error::Internal("info().state_migrations requires module.lifecycle".to_owned()))
        } else {
            Ok(())
        },
    }
}

fn check_actions_api(
    api: Option<&LuaTable>,
    actions: &Vec<SourceAction>,
    rows: usize,
    module: &LuaTable,
) -> (r: Result<(), Error>)
    requires
        match api {
            Some(table) => lua::table_field(*module, "actions"@) == Some(*table),
            None => lua::table_field(*module, "actions"@) is None,
        },
    ensures
        error::outcome_check(
            r,
            actions_api_fault(*module, text::views(actions@), rows as nat),
        ),
{
    let surface = actions.len() > 0 || rows > 0;
    match api {
        Some(api) => {
            if !surface {
                return Err(
                    Error::Internal(
                        "module.actions presence must match declared actions/status".to_owned(),
                    ),
                );
            }
            require_table_function(api, "status", "module.actions")?;
            match_declared_function(api, "invoke", "module.actions", has_kind(actions, false))
        },
        None => if surface {
            Err(
                Error::Internal(
                    "module.actions presence must match declared actions/status".to_owned(),
                ),
            )
        } else {
            Ok(())
        },
    }
}

fn check_qr_api(
    api: Option<&LuaTable>,
    actions: &Vec<SourceAction>,
    module: &LuaTable,
) -> (r: Result<(), Error>)
    requires
        match api {
            Some(table) => lua::table_field(*module, "qrlogin"@) == Some(*table),
            None => lua::table_field(*module, "qrlogin"@) is None,
        },
    ensures
        error::outcome_check(r, qr_api_fault(*module, text::views(actions@))),
{
    let qr = has_kind(actions, true);
    match api {
        Some(api) => {
            if !qr {
                return Err(
                    Error::Internal(
                        "module.qrlogin presence must match declared qr_login actions".to_owned(),
                    ),
                );
            }
            require_table_function(api, "begin", "module.qrlogin")?;
            require_table_function(api, "poll", "module.qrlogin")
        },
        None => if qr {
            Err(
                Error::Internal(
                    "module.qrlogin presence must match declared qr_login actions".to_owned(),
                ),
            )
        } else {
            Ok(())
        },
    }
}

// ---------------------------------------------------------------------------
// The whole declaration

pub open spec fn capabilities_table(info: LuaTable) -> LuaTable {
    lua::table_field(info, "capabilities"@)->0
}

/// The rules for the capabilities.
pub open spec fn capabilities_fault(module: LuaTable, info: LuaTable, dialect: Dialect) -> Option<
    Fault,
> {
    let caps = capabilities_table(info);
    let context = "info().capabilities"@;
    error::first(
        lua::optional_table_fault(caps, "source"@, context),
        error::first(
            match lua::table_field(caps, "source"@) {
                Some(t) => source_fault(dialect, module, t),
                None => None,
            },
            error::first(
                lua::optional_table_fault(caps, "discover"@, context),
                error::first(
                    match lua::table_field(caps, "discover"@) {
                        Some(t) => discover_fault(module, t, dialect),
                        None => None,
                    },
                    error::first(
                        lua::optional_table_fault(caps, "wallpaper"@, context),
                        match lua::table_field(caps, "wallpaper"@) {
                            Some(t) => wallpaper_fault(dialect, module, t),
                            None => None,
                        },
                    ),
                ),
            ),
        ),
    )
}

/// The rules for what is declared beside the capabilities.
pub open spec fn surfaces_fault(
    dialect: Dialect,
    module: LuaTable,
    info: LuaTable,
) -> Option<Fault> {
    error::first(
        declared::settings_fault(dialect, info),
        error::first(
            declared::actions_fault(dialect, info),
            error::first(
                declared::statuses_fault(dialect, info),
                error::first(
                    declared::migrations_fault(info),
                    error::first(
                        lua::optional_table_fault(module, "lifecycle"@, "module"@),
                        error::first(
                            lua::optional_table_fault(module, "actions"@, "module"@),
                            error::first(
                                lua::optional_table_fault(module, "qrlogin"@, "module"@),
                                surface_apis_fault(dialect, module, info),
                            ),
                        ),
                    ),
                ),
            ),
        ),
    )
}

pub open spec fn surface_apis_fault(
    dialect: Dialect,
    module: LuaTable,
    info: LuaTable,
) -> Option<Fault> {
    error::first(
        if dialect.strict() {
            strict_surfaces_fault(dialect, module, info)
        } else {
            None
        },
        labels::label_fault(dialect, info, "display_name"@, "info()"@),
    )
}

pub open spec fn strict_surfaces_fault(
    dialect: Dialect,
    module: LuaTable,
    info: LuaTable,
) -> Option<Fault> {
    let actions = declared::actions_value(dialect, info);
    error::first(
        lifecycle_fault(module, declared::migrations_value(info).len() > 0),
        error::first(
            actions_api_fault(module, actions, declared::statuses_value(dialect, info).len()),
            qr_api_fault(module, actions),
        ),
    )
}

/// Why a plugin's declaration is refused.
pub open spec fn info_fault(module: LuaTable, info: LuaTable, dialect: Dialect) -> Option<Fault> {
    error::first(
        lua::required_text_fault(info, "name"@, "info()"@),
        error::first(
            error::unless(
                info.field("capabilities"@) is Table,
                lua::complaint(
                    "info()"@,
                    "capabilities"@,
                    " required: "@ + lua::not_a(info.field("capabilities"@), "table"@),
                ),
            ),
            error::first(
                remove_fault(module),
                error::first(
                    capabilities_fault(module, info, dialect),
                    surfaces_fault(dialect, module, info),
                ),
            ),
        ),
    )
}

pub open spec fn display_name(dialect: Dialect, info: LuaTable) -> LocalizedView {
    let shown = labels::label(dialect, info, "display_name"@);
    if shown.text().len() == 0 {
        LocalizedView::Raw(lua::text_field(info, "name"@))
    } else {
        shown
    }
}

pub open spec fn capabilities_value(
    dialect: Dialect,
    module: LuaTable,
    info: LuaTable,
) -> PluginCapabilitiesView {
    let caps = capabilities_table(info);
    PluginCapabilitiesView {
        source: match lua::table_field(caps, "source"@) {
            Some(t) => Some(source_value(dialect, t)),
            None => None,
        },
        source_item_remove: removes_items(module),
        discover: match lua::table_field(caps, "discover"@) {
            Some(t) => Some(discover_value(dialect, module, t)),
            None => None,
        },
        wallpaper: wallpaper_value(dialect, lua::table_field(caps, "wallpaper"@)),
        lifecycle: lua::table_field(module, "lifecycle"@) is Some,
    }
}

/// What an accepted declaration says.
pub open spec fn info_value(
    dialect: Dialect,
    module: LuaTable,
    info: LuaTable,
    plugin_id: Seq<char>,
    version: Seq<char>,
) -> LoadedPluginInfoView {
    LoadedPluginInfoView {
        name: lua::text_field(info, "name"@),
        display_name: display_name(dialect, info),
        plugin_id,
        version,
        capabilities: capabilities_value(dialect, module, info),
        settings: declared::settings_value(dialect, info),
        actions: declared::actions_value(dialect, info),
        status: declared::statuses_value(dialect, info),
        state_migrations: declared::migrations_value(info),
    }
}

pub open spec fn info_export_fault(module: LuaTable) -> Option<Fault> {
    error::unless(
        module.field("info"@) is Function,
        Fault::Internal(
            "plugin must export info(): "@ + lua::not_a(module.field("info"@), "function"@),
        ),
    )
}

/// The module exports `info()`.
pub fn require_info_function(module: &LuaTable) -> (r: Result<(), Error>)
    ensures
        error::outcome_check(r, info_export_fault(*module)),
{
    match module.get("info") {
        LuaValue::Function => Ok(()),
        other => {
            let mut text = "plugin must export info(): ".to_owned();
            let why = explain_kind(other, "function");
            text.append(why.as_str());
            Err(Error::Internal(text))
        },
    }
}

fn parse_capabilities(
    module: &LuaTable,
    info: &LuaTable,
    caps: &LuaTable,
    source_api: Option<&LuaTable>,
    dialect: Dialect,
) -> (r: Result<
    (Option<SourceCapability>, Option<DiscoverCapability>, WallpaperCapability),
    Error,
>)
    requires
        *caps == capabilities_table(*info),
        match source_api {
            Some(table) => lua::table_field(*module, "source"@) == Some(*table),
            None => lua::table_field(*module, "source"@) is None,
        },
    ensures
        match r {
            Ok((source, discover, wallpaper)) => {
                &&& capabilities_fault(*module, *info, dialect) is None
                &&& text::view_of(source) == capabilities_value(dialect, *module, *info).source
                &&& text::view_of(discover) == capabilities_value(dialect, *module, *info).discover
                &&& wallpaper == capabilities_value(dialect, *module, *info).wallpaper
            },
            Err(e) => capabilities_fault(*module, *info, dialect) == Some(e@),
        },
{
    let context = "info().capabilities";
    let source = match optional_table(caps, "source", context)? {
        Some(t) => Some(parse_source_capability(dialect, t, source_api, module)?),
        None => None,
    };
    let discover = match optional_table(caps, "discover", context)? {
        Some(t) => Some(parse_discover_capability(module, t, dialect)?),
        None => None,
    };
    let wallpaper = match optional_table(caps, "wallpaper", context)? {
        Some(t) => parse_wallpaper_capability(dialect, module, t)?,
        None => WallpaperCapability { apply: false, properties: false },
    };
    Ok((source, discover, wallpaper))
}

/// Reads what a plugin declares. `info` is what its `info()` has returned.
pub fn parse_plugin_info(
    module: &LuaTable,
    info: &LuaTable,
    plugin_id: &str,
    plugin_version: &str,
    dialect: Dialect,
) -> (r: Result<LoadedPluginInfo, Error>)
    ensures
        error::outcome(
            r,
            info_fault(*module, *info, dialect),
            info_value(dialect, *module, *info, plugin_id@, plugin_version@),
        ),
{
    let name = require_string(info, "name", "info()")?;
    let caps = match info.get("capabilities") {
        LuaValue::Table(caps) => caps,
        other => {
            let why = explain_kind(other, "table");
            return Err(complain_why("info()", "capabilities", " required: ", why.as_str()));
        },
    };
    let source_api = optional_table(module, "source", "module")?;
    let source_item_remove = match source_api {
        Some(api) => match api.get("remove") {
            LuaValue::Nil => false,
            LuaValue::Function => true,
            _ => {
                return Err(
                    Error::Internal(
                        "module.source.remove must be a function when present".to_owned(),
                    ),
                );
            },
        },
        None => false,
    };
    let (source, discover, wallpaper) = parse_capabilities(
        module,
        info,
        caps,
        source_api,
        dialect,
    )?;
    let settings = parse_source_settings(dialect, info)?;
    let actions = parse_source_actions(dialect, info)?;
    let status = parse_source_status(dialect, info)?;
    let state_migrations = parse_state_migrations(info)?;
    let lifecycle = optional_table(module, "lifecycle", "module")?;
    let actions_api = optional_table(module, "actions", "module")?;
    let qrlogin = optional_table(module, "qrlogin", "module")?;
    if dialect.is_strict() {
        check_lifecycle_api(lifecycle, state_migrations.len() > 0, module)?;
        check_actions_api(actions_api, &actions, status.len(), module)?;
        check_qr_api(qrlogin, &actions, module)?;
    }
    let shown = read_label(dialect, info, "display_name", "info()")?;
    let display_name = if shown.text().is_empty() {
        LocalizedText::raw(name.as_str())
    } else {
        shown
    };
    Ok(
        LoadedPluginInfo {
            name,
            display_name,
            plugin_id: plugin_id.to_owned(),
            version: plugin_version.to_owned(),
            capabilities: PluginCapabilities {
                source,
                source_item_remove,
                discover,
                wallpaper,
                lifecycle: lifecycle.is_some(),
            },
            settings,
            actions,
            status,
            state_migrations,
        },
    )
}

// ---------------------------------------------------------------------------
// Laws on what a plugin declares

/// A loaded plugin has the name that its `info()` gives, and shows that name
/// where it gives none to show. It has the id and the version that it was
/// loaded under, and the settings, actions, status rows and migrations that it
/// declares.
pub proof fn law_loaded_info(
    dialect: Dialect,
    module: LuaTable,
    info: LuaTable,
    plugin_id: Seq<char>,
    version: Seq<char>,
)
    requires
        info_fault(module, info, dialect) is None,
    ensures
        ({
            let v = info_value(dialect, module, info, plugin_id, version);
            &&& info.field("name"@).as_text() == Some(v.name)
            &&& v.plugin_id == plugin_id
            &&& v.version == version
            &&& labels::label(dialect, info, "display_name"@).text().len() > 0 ==> v.display_name
                == labels::label(dialect, info, "display_name"@)
            &&& labels::label(dialect, info, "display_name"@).text().len() == 0 ==> v.display_name
                == LocalizedView::Raw(v.name)
            &&& v.settings == declared::settings_value(dialect, info)
            &&& v.actions == declared::actions_value(dialect, info)
            &&& v.status == declared::statuses_value(dialect, info)
            &&& v.state_migrations == declared::migrations_value(info)
            &&& v.capabilities.lifecycle <==> module.field("lifecycle"@) is Table
            &&& v.capabilities.source_item_remove
                <==> (module.field("source"@) matches LuaValue::Table(
                api,
            ) && api.field("remove"@) is Function)
        }),
{
}

/// A plugin has the capabilities that it declares, and of each what the
/// declaration gives under their keys. A flag that is not given is not set.
pub proof fn law_loaded_capabilities(dialect: Dialect, module: LuaTable, info: LuaTable)
    requires
        info_fault(module, info, dialect) is None,
    ensures
        info.field("capabilities"@) matches LuaValue::Table(caps) && {
            let v = capabilities_value(dialect, module, info);
            &&& v.source is Some <==> caps.field("source"@) is Table
            &&& v.discover is Some <==> caps.field("discover"@) is Table
            &&& caps.field("source"@) matches LuaValue::Table(t) ==> {
                let s = v.source->0;
                &&& t.field("scan"@) == LuaValue::Boolean(true)
                &&& t.field("types"@) matches LuaValue::Table(list) && s.types.len()
                    == list.sequence@.len() && forall|k: int|
                    0 <= k < list.sequence@.len() ==> (#[trigger] list.sequence@[k]).as_text()
                        == Some(s.types[k])
                &&& s.types.len() > 0
                &&& s.library_label == labels::label(dialect, t, "library_label"@)
                &&& s.library_hint == labels::label(dialect, t, "library_hint"@)
                &&& s.auto_detect <==> t.field("auto_detect"@) == LuaValue::Boolean(true)
            }
            &&& caps.field("discover"@) matches LuaValue::Table(t) ==> {
                let d = v.discover->0;
                &&& d.supports_search && t.field("search"@) == LuaValue::Boolean(true)
                &&& d.supports_details <==> t.field("details"@) == LuaValue::Boolean(true)
                &&& d.supports_download <==> t.field("download"@) == LuaValue::Boolean(true)
                &&& d.supports_resolve <==> t.field("resolve"@) == LuaValue::Boolean(true)
                &&& d.remote == Some(RemoteCapability::Download) <==> t.field("download"@)
                    == LuaValue::Boolean(true)
                &&& d.remote == Some(RemoteCapability::Subscription) <==> t.field("subscription"@)
                    == LuaValue::Boolean(true)
                &&& d.remote_hint == labels::label(dialect, t, "remote_hint"@)
                &&& d.sorts == filters::sorts_value(dialect, t)
                &&& filters::sorts_fault(dialect, t) is None
                &&& filters::filters_fault(t, dialect) is None
                &&& filters::filters_value(dialect, t) matches Some(list) ==> d.filters == list
                &&& filters::filters_value(dialect, t) is None ==> d.filters
                    == filters::legacy_filter(lua::texts_field(t, "tags"@))
                &&& d.dynamic_tags <==> (module.field("discover"@) matches LuaValue::Table(api)
                    && api.field("tags"@) is Function)
            }
            &&& caps.field("wallpaper"@) matches LuaValue::Table(t) ==> {
                &&& dialect.localized() ==> (v.wallpaper.apply <==> t.field("apply"@)
                    == LuaValue::Boolean(true))
                &&& !dialect.localized() ==> (v.wallpaper.apply <==> t.field("extras"@)
                    == LuaValue::Boolean(true))
                &&& v.wallpaper.properties <==> t.field("properties"@) == LuaValue::Boolean(true)
            }
            &&& caps.field("wallpaper"@) is Nil ==> !v.wallpaper.apply && !v.wallpaper.properties
        },
{
    if let LuaValue::Table(caps) = info.field("capabilities"@) {
        if let LuaValue::Table(t) = caps.field("source"@) {
            lua::law_string_lists(t, "types"@, "info().capabilities.source"@);
        }
    }
}

/// The source capability is accepted exactly where scanning is declared, the
/// module exports it, detection is exported as it is declared, and some type is
/// given.
pub proof fn law_source_accepted(dialect: Dialect, module: LuaTable, t: LuaTable)
    ensures
        source_fault(dialect, module, t) is None <==> {
            &&& t.field("scan"@) == LuaValue::Boolean(true)
            &&& module.field("source"@) matches LuaValue::Table(api) && api.field("scan"@)
                is Function && (t.field("auto_detect"@) == LuaValue::Boolean(true) ==> api.field(
                "auto_detect"@,
            ) is Function) && (t.field("auto_detect"@) != LuaValue::Boolean(true) && !(
            dialect is Plain2) ==> api.field("auto_detect"@) is Nil)
            &&& t.field("auto_detect"@) is Nil || t.field("auto_detect"@) is Boolean
            &&& t.field("types"@) matches LuaValue::Table(list) && list.sequence@.len() > 0
                && forall|
                k: int,
            |
                0 <= k < list.sequence@.len() ==> (#[trigger] list.sequence@[k]).as_text() is Some
            &&& labels::label_fault(dialect, t, "library_label"@, "info().capabilities.source"@)
                is None
            &&& labels::label_fault(dialect, t, "library_hint"@, "info().capabilities.source"@)
                is None
        },
{
    lua::law_string_lists(t, "types"@, "info().capabilities.source"@);
}

/// The remote side of the discover capability is accepted exactly where
/// downloads and subscriptions are not both declared, subscriptions are declared
/// by a plugin of a later release that exports their three functions, and, but
/// in the first release, nothing is exported that is not declared.
pub proof fn law_remote_accepted(dialect: Dialect, module: LuaTable, t: LuaTable)
    requires
        module.field("discover"@) is Table,
    ensures
        discover_remote_fault(dialect, module, t) is None <==> {
            let api = module.field("discover"@)->Table_0;
            let download = t.field("download"@) == LuaValue::Boolean(true);
            let subscription = t.field("subscription"@) == LuaValue::Boolean(true);
            let resolve = t.field("resolve"@) == LuaValue::Boolean(true);
            &&& !(download && subscription)
            &&& subscription ==> !(dialect is Plain2) && (module.field(
                "subscription"@,
            ) matches LuaValue::Table(s) && s.field("status"@) is Function && s.field("subscribe"@)
                is Function && s.field("unsubscribe"@) is Function)
            &&& !(dialect is Plain2) ==> {
                &&& resolve && !download ==> dialect.localized()
                &&& !download ==> api.field("download"@) is Nil
                &&& !resolve ==> api.field("resolve"@) is Nil
                &&& subscription <==> module.field("subscription"@) is Table
                &&& module.field("subscription"@) is Table || module.field("subscription"@) is Nil
            }
        },
{
}

/// The discover capability is accepted exactly where searching is declared and
/// exported, its flags are booleans, details, downloads and resolving are
/// exported as they are declared, the remote side is accepted, and so are the
/// sorts, the filters and the tags, of which the last two exclude each other.
pub proof fn law_discover_accepted(dialect: Dialect, module: LuaTable, t: LuaTable)
    ensures
        discover_fault(module, t, dialect) is None <==> {
            &&& t.field("search"@) == LuaValue::Boolean(true)
            &&& module.field("discover"@) matches LuaValue::Table(api) && api.field("search"@)
                is Function && (t.field("details"@) == LuaValue::Boolean(true) ==> api.field(
                "details"@,
            ) is Function) && (t.field("details"@) != LuaValue::Boolean(true) && !(
            dialect is Plain2) ==> api.field("details"@) is Nil) && (t.field("download"@)
                == LuaValue::Boolean(true) ==> api.field("download"@) is Function) && (t.field(
                "resolve"@,
            ) == LuaValue::Boolean(true) ==> api.field("resolve"@) is Function) && (
            filters::filters_value(dialect, t) is Some ==> lua::texts_field(t, "tags"@).len() == 0
                && !(api.field("tags"@) is Function))
            &&& t.field("details"@) is Nil || t.field("details"@) is Boolean
            &&& t.field("download"@) is Nil || t.field("download"@) is Boolean
            &&& t.field("subscription"@) is Nil || t.field("subscription"@) is Boolean
            &&& t.field("resolve"@) is Nil || t.field("resolve"@) is Boolean
            &&& discover_remote_fault(dialect, module, t) is None
            &&& filters::sorts_fault(dialect, t) is None
            &&& filters::filters_fault(t, dialect) is None
            &&& lua::optional_texts_fault(t, "tags"@, "info().capabilities.discover"@) is None
            &&& labels::label_fault(dialect, t, "remote_hint"@, "info().capabilities.discover"@)
                is None
        },
{
}

/// The wallpaper capability is accepted exactly where its flags are booleans and
/// the functions are exported as they are declared.
pub proof fn law_wallpaper_accepted(dialect: Dialect, module: LuaTable, t: LuaTable)
    ensures
        ({
            let name = if dialect.localized() {
                "apply"@
            } else {
                "extras"@
            };
            wallpaper_fault(dialect, module, t) is None <==> {
                &&& module.field("wallpaper"@) matches LuaValue::Table(api) && (t.field(name)
                    == LuaValue::Boolean(true) ==> api.field(name) is Function) && (t.field(name)
                    != LuaValue::Boolean(true) && !(dialect is Plain2) ==> api.field(name) is Nil)
                    && (t.field("properties"@) == LuaValue::Boolean(true) ==> api.field(
                    "properties"@,
                ) is Function) && (t.field("properties"@) != LuaValue::Boolean(true) && !(
                dialect is Plain2) ==> api.field("properties"@) is Nil)
                &&& t.field(name) is Nil || t.field(name) is Boolean
                &&& t.field("properties"@) is Nil || t.field("properties"@) is Boolean
            }
        }),
{
}

/// The functions behind states, actions and QR logins are exported as what is
/// declared asks for them.
pub proof fn law_surfaces_accepted(
    module: LuaTable,
    actions: Seq<SourceActionView>,
    rows: nat,
    migrates: bool,
)
    ensures
        lifecycle_fault(module, migrates) is None <==> {
            &&& migrates ==> module.field("lifecycle"@) is Table
            &&& module.field("lifecycle"@) matches LuaValue::Table(api) ==> api.field("load"@)
                is Function && api.field("save"@) is Function && api.field("check"@) is Function
                && (migrates ==> api.field("migrate"@) is Function)
        },
        actions_api_fault(module, actions, rows) is None <==> {
            &&& module.field("actions"@) is Table <==> actions.len() > 0 || rows > 0
            &&& module.field("actions"@) matches LuaValue::Table(api) ==> api.field("status"@)
                is Function && ((exists|i: int|
                0 <= i < actions.len() && !((#[trigger] actions[i]).kind is QrLogin)) ==> api.field(
                "invoke"@,
            ) is Function) && ((forall|i: int|
                0 <= i < actions.len() ==> (#[trigger] actions[i]).kind is QrLogin) ==> api.field(
                "invoke"@,
            ) is Nil)
        },
        qr_api_fault(module, actions) is None <==> {
            &&& module.field("qrlogin"@) is Table <==> exists|i: int|
                0 <= i < actions.len() && (#[trigger] actions[i]).kind is QrLogin
            &&& module.field("qrlogin"@) matches LuaValue::Table(api) ==> api.field("begin"@)
                is Function && api.field("poll"@) is Function
        },
{
    if any_invokable(actions) {
        let i = choose|i: int|
            0 <= i < actions.len() && (#[trigger] actions[i]).kind != SourceActionKind::QrLogin;
        assert(!(actions[i].kind is QrLogin));
    }
    if any_qr_login(actions) {
        let i = choose|i: int|
            0 <= i < actions.len() && (#[trigger] actions[i]).kind == SourceActionKind::QrLogin;
        assert(actions[i].kind is QrLogin);
    }
}

/// A declaration is accepted exactly where it has a name and its capabilities
/// and everything else that it declares are accepted.
pub proof fn law_declaration_accepted(dialect: Dialect, module: LuaTable, info: LuaTable)
    ensures
        info_fault(module, info, dialect) is None <==> {
            &&& info.field("name"@).as_text() is Some
            &&& info.field("capabilities"@) matches LuaValue::Table(caps) && {
                &&& caps.field("source"@) is Nil
                    || (caps.field("source"@) matches LuaValue::Table(t)
                    && source_fault(dialect, module, t) is None)
                &&& caps.field("discover"@) is Nil
                    || (caps.field("discover"@) matches LuaValue::Table(
                    t,
                ) && discover_fault(module, t, dialect) is None)
                &&& caps.field("wallpaper"@) is Nil || (caps.field(
                    "wallpaper"@,
                ) matches LuaValue::Table(t) && wallpaper_fault(dialect, module, t) is None)
            }
            &&& module.field("source"@) is Nil
                || (module.field("source"@) matches LuaValue::Table(api)
                && (api.field("remove"@) is Nil || api.field("remove"@) is Function))
            &&& declared::settings_fault(dialect, info) is None
            &&& declared::actions_fault(dialect, info) is None
            &&& declared::statuses_fault(dialect, info) is None
            &&& declared::migrations_fault(info) is None
            &&& module.field("lifecycle"@) is Nil || module.field("lifecycle"@) is Table
            &&& module.field("actions"@) is Nil || module.field("actions"@) is Table
            &&& module.field("qrlogin"@) is Nil || module.field("qrlogin"@) is Table
            &&& !(dialect is Plain2) ==> {
                let actions = declared::actions_value(dialect, info);
                &&& lifecycle_fault(module, declared::migrations_value(info).len() > 0) is None
                &&& actions_api_fault(
                    module,
                    actions,
                    declared::statuses_value(dialect, info).len(),
                ) is None
                &&& qr_api_fault(module, actions) is None
            }
            &&& labels::label_fault(dialect, info, "display_name"@, "info()"@) is None
        },
        info_export_fault(module) is None <==> module.field("info"@) is Function,
{
}

// ---------------------------------------------------------------------------
// What is told of what is refused

/// A function that removes items is told of where it is there and none.
pub proof fn law_refused_removal(module: LuaTable)
    ensures
        ({
            let source = lua::optional_table_fault(module, "source"@, "module"@);
            let source_part = match lua::table_field(module, "source"@) {
                Some(api) => error::unless(
                    api.field("remove"@) is Nil || api.field("remove"@) is Function,
                    Fault::Internal("module.source.remove must be a function when present"@),
                ),
                None => None,
            };
            remove_fault(module) == (if source is Some {
                source
            } else if source_part is Some {
                source_part
            } else {
                None
            })
        }),
{
}

/// What is told of a source capability that is refused: the first of the rules
/// that it breaks.
pub proof fn law_refused_source(dialect: Dialect, module: LuaTable, source: LuaTable)
    ensures
        ({
            let api = lua::table_field(module, "source"@);
            let scan = lua::optional_bool_fault(source, "scan"@, "info().capabilities.source"@);
            let scan_part = lua::function_fault(api->0, "scan"@, "module.source"@);
            let auto_detect = lua::optional_bool_fault(
                source,
                "auto_detect"@,
                "info().capabilities.source"@,
            );
            let auto_detect_part = export_fault(
                dialect,
                api->0,
                "auto_detect"@,
                "module.source"@,
                lua::bool_field(source, "auto_detect"@, false),
            );
            let source_lists = source_lists_fault(dialect, source, "info().capabilities.source"@);
            source_fault(dialect, module, source) == (if scan is Some {
                scan
            } else if !(lua::bool_field(source, "scan"@, false)) {
                Some(
                    Fault::Internal(
                        "info().capabilities.source"@ + "."@ + "scan"@ + " must be true"@,
                    ),
                )
            } else if !(api is Some) {
                Some(Fault::Internal("module.source table required for source capability"@))
            } else if scan_part is Some {
                scan_part
            } else if auto_detect is Some {
                auto_detect
            } else if auto_detect_part is Some {
                auto_detect_part
            } else if source_lists is Some {
                source_lists
            } else {
                None
            })
        }),
{
}

/// The types of a source are told of where they are no list of texts or empty,
/// then its texts.
pub proof fn law_refused_types_of_a_source(dialect: Dialect, source: LuaTable, context: Seq<char>)
    ensures
        ({
            let types = lua::required_texts_fault(source, "types"@, context);
            let library_label = labels::label_fault(dialect, source, "library_label"@, context);
            let library_hint = labels::label_fault(dialect, source, "library_hint"@, context);
            source_lists_fault(dialect, source, context) == (if types is Some {
                types
            } else if !(lua::texts_field(source, "types"@).len() > 0) {
                Some(Fault::Internal(context + "."@ + "types"@ + " must not be empty"@))
            } else if library_label is Some {
                library_label
            } else if library_hint is Some {
                library_hint
            } else {
                None
            })
        }),
{
}

/// Search has to be declared and its function has to be there.
pub proof fn law_refused_search(module: LuaTable, discover: LuaTable)
    ensures
        ({
            let search = lua::optional_bool_fault(
                discover,
                "search"@,
                "info().capabilities.discover"@,
            );
            let discover_part = lua::module_table_fault(module, "discover"@);
            let search_part = lua::function_fault(
                discover_api(module),
                "search"@,
                "module.discover"@,
            );
            discover_search_fault(module, discover) == (if search is Some {
                search
            } else if !(discover_flag(discover, "search"@)) {
                Some(
                    Fault::Internal(
                        "info().capabilities.discover"@ + "."@ + "search"@ + " must be true"@,
                    ),
                )
            } else if discover_part is Some {
                discover_part
            } else if search_part is Some {
                search_part
            } else {
                None
            })
        }),
{
}

/// Of the flags of a discover capability the first that is none is told of.
pub proof fn law_refused_discover_flags(discover: LuaTable)
    ensures
        ({
            let details = lua::optional_bool_fault(
                discover,
                "details"@,
                "info().capabilities.discover"@,
            );
            let download = lua::optional_bool_fault(
                discover,
                "download"@,
                "info().capabilities.discover"@,
            );
            let subscription = lua::optional_bool_fault(
                discover,
                "subscription"@,
                "info().capabilities.discover"@,
            );
            let resolve = lua::optional_bool_fault(
                discover,
                "resolve"@,
                "info().capabilities.discover"@,
            );
            discover_flags_fault(discover) == (if details is Some {
                details
            } else if download is Some {
                download
            } else if subscription is Some {
                subscription
            } else if resolve is Some {
                resolve
            } else {
                None
            })
        }),
{
}

/// Of the functions that a discover capability declares the first that is not
/// there is told of.
pub proof fn law_refused_discover_exports(dialect: Dialect, module: LuaTable, discover: LuaTable)
    ensures
        ({
            let api = discover_api(module);
            let details = export_fault(
                dialect,
                api,
                "details"@,
                "module.discover"@,
                discover_flag(discover, "details"@),
            );
            let download = if discover_flag(discover, "download"@) {
                lua::function_fault(api, "download"@, "module.discover"@)
            } else {
                None
            };
            let resolve = if discover_flag(discover, "resolve"@) {
                lua::function_fault(api, "resolve"@, "module.discover"@)
            } else {
                None
            };
            discover_exports_fault(dialect, module, discover) == (if details is Some {
                details
            } else if download is Some {
                download
            } else if resolve is Some {
                resolve
            } else {
                None
            })
        }),
{
}

/// Of the functions of subscriptions the first that is not there is told of.
pub proof fn law_refused_subscription_exports(module: LuaTable)
    ensures
        ({
            let api = lua::table_field(module, "subscription"@)->0;
            let subscription = lua::module_table_fault(module, "subscription"@);
            let status = lua::function_fault(api, "status"@, "module.subscription"@);
            let subscribe = lua::function_fault(api, "subscribe"@, "module.subscription"@);
            let unsubscribe = lua::function_fault(api, "unsubscribe"@, "module.subscription"@);
            subscription_exports_fault(module) == (if subscription is Some {
                subscription
            } else if status is Some {
                status
            } else if subscribe is Some {
                subscribe
            } else if unsubscribe is Some {
                unsubscribe
            } else {
                None
            })
        }),
{
}

/// What is told of a way to bring remote items in that is refused.
pub proof fn law_refused_remote(dialect: Dialect, module: LuaTable, discover: LuaTable)
    ensures
        ({
            let download = discover_flag(discover, "download"@);
            let subscription = discover_flag(discover, "subscription"@);
            let rule = if download && subscription {
                Some(
                    Fault::Internal(
                        "info().capabilities.discover download and subscription are mutually exclusive"@,
                    ),
                )
            } else if subscription {
                error::first(
                    error::unless(
                        dialect.strict(),
                        Fault::Internal("subscription capability requires entry_version 3"@),
                    ),
                    subscription_exports_fault(module),
                )
            } else {
                None
            };
            let rule_part = if dialect.strict() {
                undeclared_remote_fault(dialect, module, discover)
            } else {
                None
            };
            discover_remote_fault(dialect, module, discover) == (if rule is Some {
                rule
            } else if rule_part is Some {
                rule_part
            } else {
                None
            })
        }),
{
}

/// What is told of functions that are there without being declared.
pub proof fn law_refused_undeclared_remote(dialect: Dialect, module: LuaTable, discover: LuaTable)
    ensures
        ({
            let api = discover_api(module);
            let download = discover_flag(discover, "download"@);
            let subscription = discover_flag(discover, "subscription"@);
            let resolve = discover_flag(discover, "resolve"@);
            let download_part = if download {
                None
            } else {
                lua::absent_fault(api, "download"@, "module.discover"@)
            };
            let resolve_part = if resolve {
                None
            } else {
                lua::absent_fault(api, "resolve"@, "module.discover"@)
            };
            let subscription_part = lua::optional_table_fault(module, "subscription"@, "module"@);
            undeclared_remote_fault(dialect, module, discover) == (if !(resolve ==> download
                || dialect.localized()) {
                Some(
                    Fault::Internal(
                        "info().capabilities.discover"@ + "."@ + "resolve"@
                            + " requires download capability"@,
                    ),
                )
            } else if download_part is Some {
                download_part
            } else if resolve_part is Some {
                resolve_part
            } else if subscription_part is Some {
                subscription_part
            } else if !(subscription == (lua::table_field(module, "subscription"@) is Some)) {
                Some(
                    Fault::Internal(
                        "module.subscription presence must match the subscription capability"@,
                    ),
                )
            } else {
                None
            })
        }),
{
}

/// What is told of the sorts, filters and tags of a discover capability.
pub proof fn law_refused_discover_lists(module: LuaTable, discover: LuaTable, dialect: Dialect)
    ensures
        ({
            let sorts = filters::sorts_fault(dialect, discover);
            let filters = filters::filters_fault(discover, dialect);
            let tags = lua::optional_texts_fault(
                discover,
                "tags"@,
                "info().capabilities.discover"@,
            );
            let remote_hint = labels::label_fault(
                dialect,
                discover,
                "remote_hint"@,
                "info().capabilities.discover"@,
            );
            discover_lists_fault(module, discover, dialect) == (if sorts is Some {
                sorts
            } else if filters is Some {
                filters
            } else if tags is Some {
                tags
            } else if !(filters::filters_value(dialect, discover) is Some
                ==> lua::texts_field(discover, "tags"@).len() == 0
                && !(discover_api(module).field("tags"@) is Function)) {
                Some(
                    Fault::Internal(
                        "info().capabilities.discover"@ + "."@ + "filters"@
                            + " cannot be combined with legacy tags"@,
                    ),
                )
            } else if remote_hint is Some {
                remote_hint
            } else {
                None
            })
        }),
{
}

/// What is told of a discover capability that is refused: the first of its parts
/// that is.
pub proof fn law_refused_discover(module: LuaTable, discover: LuaTable, dialect: Dialect)
    ensures
        ({
            let discover_search = discover_search_fault(module, discover);
            let discover_flags = discover_flags_fault(discover);
            let discover_exports = discover_exports_fault(dialect, module, discover);
            let discover_remote = discover_remote_fault(dialect, module, discover);
            let discover_lists = discover_lists_fault(module, discover, dialect);
            discover_fault(module, discover, dialect) == (if discover_search is Some {
                discover_search
            } else if discover_flags is Some {
                discover_flags
            } else if discover_exports is Some {
                discover_exports
            } else if discover_remote is Some {
                discover_remote
            } else if discover_lists is Some {
                discover_lists
            } else {
                None
            })
        }),
{
}

/// What is told of a wallpaper capability that is refused: the first of the rules
/// that it breaks.
pub proof fn law_refused_wallpaper(dialect: Dialect, module: LuaTable, wallpaper: LuaTable)
    ensures
        ({
            let api = lua::table_field(module, "wallpaper"@)->0;
            let wallpaper_part = lua::module_table_fault(module, "wallpaper"@);
            let optional_bool = lua::optional_bool_fault(
                wallpaper,
                apply_name(dialect),
                "info().capabilities.wallpaper"@,
            );
            let properties = lua::optional_bool_fault(
                wallpaper,
                "properties"@,
                "info().capabilities.wallpaper"@,
            );
            let export = export_fault(
                dialect,
                api,
                apply_name(dialect),
                "module.wallpaper"@,
                lua::bool_field(wallpaper, apply_name(dialect), false),
            );
            let properties_part = export_fault(
                dialect,
                api,
                "properties"@,
                "module.wallpaper"@,
                lua::bool_field(wallpaper, "properties"@, false),
            );
            wallpaper_fault(dialect, module, wallpaper) == (if wallpaper_part is Some {
                wallpaper_part
            } else if optional_bool is Some {
                optional_bool
            } else if properties is Some {
                properties
            } else if export is Some {
                export
            } else if properties_part is Some {
                properties_part
            } else {
                None
            })
        }),
{
}

/// What is told of the functions of actions that are refused.
pub proof fn law_refused_actions_api(module: LuaTable, actions: Seq<SourceActionView>, rows: nat)
    ensures
        ({
            let api = lua::table_field(module, "actions"@);
            let surface = actions.len() > 0 || rows > 0;
            let status = if surface {
                error::first(
                    lua::function_fault(api->0, "status"@, "module.actions"@),
                    lua::declared_function_fault(
                        api->0,
                        "invoke"@,
                        "module.actions"@,
                        any_invokable(actions),
                    ),
                )
            } else {
                None
            };
            actions_api_fault(module, actions, rows) == (if !(surface == (api is Some)) {
                Some(Fault::Internal("module.actions presence must match declared actions/status"@))
            } else if status is Some {
                status
            } else {
                None
            })
        }),
{
}

/// What is told of the functions of logins that are refused.
pub proof fn law_refused_login_api(module: LuaTable, actions: Seq<SourceActionView>)
    ensures
        ({
            let api = lua::table_field(module, "qrlogin"@);
            let begin = if any_qr_login(actions) {
                error::first(
                    lua::function_fault(api->0, "begin"@, "module.qrlogin"@),
                    lua::function_fault(api->0, "poll"@, "module.qrlogin"@),
                )
            } else {
                None
            };
            qr_api_fault(module, actions) == (if !(any_qr_login(actions) == (api is Some)) {
                Some(
                    Fault::Internal(
                        "module.qrlogin presence must match declared qr_login actions"@,
                    ),
                )
            } else if begin is Some {
                begin
            } else {
                None
            })
        }),
{
}

/// What is told of capabilities that are refused: the first of them that is.
pub proof fn law_refused_capabilities(module: LuaTable, info: LuaTable, dialect: Dialect)
    ensures
        ({
            let caps = capabilities_table(info);
            let source = lua::optional_table_fault(caps, "source"@, "info().capabilities"@);
            let source_part = match lua::table_field(caps, "source"@) {
                Some(t) => source_fault(dialect, module, t),
                None => None,
            };
            let discover = lua::optional_table_fault(caps, "discover"@, "info().capabilities"@);
            let discover_part = match lua::table_field(caps, "discover"@) {
                Some(t) => discover_fault(module, t, dialect),
                None => None,
            };
            let wallpaper = lua::optional_table_fault(caps, "wallpaper"@, "info().capabilities"@);
            let wallpaper_part = match lua::table_field(caps, "wallpaper"@) {
                Some(t) => wallpaper_fault(dialect, module, t),
                None => None,
            };
            capabilities_fault(module, info, dialect) == (if source is Some {
                source
            } else if source_part is Some {
                source_part
            } else if discover is Some {
                discover
            } else if discover_part is Some {
                discover_part
            } else if wallpaper is Some {
                wallpaper
            } else if wallpaper_part is Some {
                wallpaper_part
            } else {
                None
            })
        }),
{
}

/// What is told of what a plugin shows that is refused: the first part of it that
/// is.
pub proof fn law_refused_surfaces(dialect: Dialect, module: LuaTable, info: LuaTable)
    ensures
        ({
            let settings = declared::settings_fault(dialect, info);
            let actions = declared::actions_fault(dialect, info);
            let statuses = declared::statuses_fault(dialect, info);
            let migrations = declared::migrations_fault(info);
            let lifecycle = lua::optional_table_fault(module, "lifecycle"@, "module"@);
            let actions_part = lua::optional_table_fault(module, "actions"@, "module"@);
            let qrlogin = lua::optional_table_fault(module, "qrlogin"@, "module"@);
            let surface_apis = surface_apis_fault(dialect, module, info);
            surfaces_fault(dialect, module, info) == (if settings is Some {
                settings
            } else if actions is Some {
                actions
            } else if statuses is Some {
                statuses
            } else if migrations is Some {
                migrations
            } else if lifecycle is Some {
                lifecycle
            } else if actions_part is Some {
                actions_part
            } else if qrlogin is Some {
                qrlogin
            } else if surface_apis is Some {
                surface_apis
            } else {
                None
            })
        }),
{
}

/// What is told of the functions behind what a plugin shows.
pub proof fn law_refused_surface_apis(dialect: Dialect, module: LuaTable, info: LuaTable)
    ensures
        ({
            let rule = if dialect.strict() {
                strict_surfaces_fault(dialect, module, info)
            } else {
                None
            };
            let display_name = labels::label_fault(dialect, info, "display_name"@, "info()"@);
            surface_apis_fault(dialect, module, info) == (if rule is Some {
                rule
            } else if display_name is Some {
                display_name
            } else {
                None
            })
        }),
{
}

/// What is told of functions without anything that is shown for them.
pub proof fn law_refused_strict_surfaces(dialect: Dialect, module: LuaTable, info: LuaTable)
    ensures
        ({
            let actions = declared::actions_value(dialect, info);
            let lifecycle = lifecycle_fault(module, declared::migrations_value(info).len() > 0);
            let actions_api = actions_api_fault(
                module,
                actions,
                declared::statuses_value(dialect, info).len(),
            );
            let qr_api = qr_api_fault(module, actions);
            strict_surfaces_fault(dialect, module, info) == (if lifecycle is Some {
                lifecycle
            } else if actions_api is Some {
                actions_api
            } else if qr_api is Some {
                qr_api
            } else {
                None
            })
        }),
{
}

/// What is told of a plugin that is refused: the first of the rules that its
/// declaration breaks.
pub proof fn law_refused_info(module: LuaTable, info: LuaTable, dialect: Dialect)
    ensures
        ({
            let remove = remove_fault(module);
            let capabilities = capabilities_fault(module, info, dialect);
            let surfaces = surfaces_fault(dialect, module, info);
            info_fault(module, info, dialect) == (if info.field("name"@).as_text() is None {
                Some(
                    Fault::Internal(
                        "info()"@ + "."@ + "name"@ + (" required: "@
                            + lua::not_text(info.field("name"@))),
                    ),
                )
            } else if !(info.field("capabilities"@) is Table) {
                Some(
                    Fault::Internal(
                        "info()"@ + "."@ + "capabilities"@ + (" required: "@
                            + lua::not_a(info.field("capabilities"@), "table"@)),
                    ),
                )
            } else if remove is Some {
                remove
            } else if capabilities is Some {
                capabilities
            } else if surfaces is Some {
                surfaces
            } else {
                None
            })
        }),
{
}

/// A module without its declaration is told of.
pub proof fn law_refused_module(module: LuaTable)
    ensures
        ({
            info_export_fault(module) == (if !(module.field("info"@) is Function) {
                Some(
                    Fault::Internal(
                        "plugin must export info(): "@
                            + lua::not_a(module.field("info"@), "function"@),
                    ),
                )
            } else {
                None
            })
        }),
{
}

/// A function that is declared has to be there, and one that is not declared
/// must not be; before the third release only the first holds.
pub proof fn law_refused_export(
    dialect: Dialect,
    api: LuaTable,
    name: Seq<char>,
    context: Seq<char>,
)
    ensures
        export_fault(dialect, api, name, context, true) == lua::function_fault(api, name, context),
        dialect is Plain2 ==> export_fault(dialect, api, name, context, false) is None,
        !(dialect is Plain2) ==> export_fault(dialect, api, name, context, false)
            == lua::absent_fault(api, name, context),
{
}

/// A plugin that keeps state has the functions for it, and those of a migration
/// where it declares one; a migration without a lifecycle is told of.
pub proof fn law_refused_lifecycle(module: LuaTable, api: LuaTable, migrates: bool)
    ensures
        !(module.field("lifecycle"@) is Table) ==> lifecycle_fault(module, true) == Some(
            Fault::Internal("info().state_migrations requires module.lifecycle"@),
        ) && lifecycle_fault(module, false) is None,
        module.field("lifecycle"@) == LuaValue::Table(api) ==> lifecycle_fault(module, migrates)
            == (if !(api.field("load"@) is Function) {
            lua::function_fault(api, "load"@, "module.lifecycle"@)
        } else if !(api.field("save"@) is Function) {
            lua::function_fault(api, "save"@, "module.lifecycle"@)
        } else if !(api.field("check"@) is Function) {
            lua::function_fault(api, "check"@, "module.lifecycle"@)
        } else if migrates {
            lua::function_fault(api, "migrate"@, "module.lifecycle"@)
        } else {
            None
        }),
{
}

} // verus!
