//! The callbacks that a source plugin exports.
use vstd::prelude::*;
use crate::error;
use crate::error::{Error, Fault};
use crate::plugin::lua;
use crate::plugin::lua::{complain, optional_table, place_of, LuaTable, LuaValue};
use crate::plugin::source::entry::Dialect;
use crate::plugin::source::info;

verus! {

/// A callback, by the table of the module and the function in it.
#[derive(Clone, Copy, Debug, PartialEq, Eq, Structural)]
pub enum Callback {
    SourceScan,
    SourceAutoDetect,
    SourceRemove,
    DiscoverSearch,
    DiscoverTags,
    DiscoverDetails,
    DiscoverDownload,
    DiscoverResolve,
    WallpaperApply,
    WallpaperProperties,
    LifecycleLoad,
    LifecycleSave,
    LifecycleCheck,
    LifecycleMigrate,
    ActionsStatus,
    ActionsInvoke,
    QrloginBegin,
    QrloginPoll,
    QrloginCancel,
    SubscriptionStatus,
    SubscriptionSubscribe,
    SubscriptionUnsubscribe,
}

pub const CALLBACKS: [Callback; 22] = [
    Callback::SourceScan,
    Callback::SourceAutoDetect,
    Callback::SourceRemove,
    Callback::DiscoverSearch,
    Callback::DiscoverTags,
    Callback::DiscoverDetails,
    Callback::DiscoverDownload,
    Callback::DiscoverResolve,
    Callback::WallpaperApply,
    Callback::WallpaperProperties,
    Callback::LifecycleLoad,
    Callback::LifecycleSave,
    Callback::LifecycleCheck,
    Callback::LifecycleMigrate,
    Callback::ActionsStatus,
    Callback::ActionsInvoke,
    Callback::QrloginBegin,
    Callback::QrloginPoll,
    Callback::QrloginCancel,
    Callback::SubscriptionStatus,
    Callback::SubscriptionSubscribe,
    Callback::SubscriptionUnsubscribe,
];

impl Callback {
    pub open spec fn table(self) -> Seq<char> {
        match self {
            Callback::SourceScan => "source"@,
            Callback::SourceAutoDetect => "source"@,
            Callback::SourceRemove => "source"@,
            Callback::DiscoverSearch => "discover"@,
            Callback::DiscoverTags => "discover"@,
            Callback::DiscoverDetails => "discover"@,
            Callback::DiscoverDownload => "discover"@,
            Callback::DiscoverResolve => "discover"@,
            Callback::WallpaperApply => "wallpaper"@,
            Callback::WallpaperProperties => "wallpaper"@,
            Callback::LifecycleLoad => "lifecycle"@,
            Callback::LifecycleSave => "lifecycle"@,
            Callback::LifecycleCheck => "lifecycle"@,
            Callback::LifecycleMigrate => "lifecycle"@,
            Callback::ActionsStatus => "actions"@,
            Callback::ActionsInvoke => "actions"@,
            Callback::QrloginBegin => "qrlogin"@,
            Callback::QrloginPoll => "qrlogin"@,
            Callback::QrloginCancel => "qrlogin"@,
            Callback::SubscriptionStatus => "subscription"@,
            Callback::SubscriptionSubscribe => "subscription"@,
            Callback::SubscriptionUnsubscribe => "subscription"@,
        }
    }

    pub open spec fn function(self, dialect: Dialect) -> Seq<char> {
        match self {
            Callback::SourceScan => "scan"@,
            Callback::SourceAutoDetect => "auto_detect"@,
            Callback::SourceRemove => "remove"@,
            Callback::DiscoverSearch => "search"@,
            Callback::DiscoverTags => "tags"@,
            Callback::DiscoverDetails => "details"@,
            Callback::DiscoverDownload => "download"@,
            Callback::DiscoverResolve => "resolve"@,
            Callback::WallpaperApply => info::apply_name(dialect),
            Callback::WallpaperProperties => "properties"@,
            Callback::LifecycleLoad => "load"@,
            Callback::LifecycleSave => "save"@,
            Callback::LifecycleCheck => "check"@,
            Callback::LifecycleMigrate => "migrate"@,
            Callback::ActionsStatus => "status"@,
            Callback::ActionsInvoke => "invoke"@,
            Callback::QrloginBegin => "begin"@,
            Callback::QrloginPoll => "poll"@,
            Callback::QrloginCancel => "cancel"@,
            Callback::SubscriptionStatus => "status"@,
            Callback::SubscriptionSubscribe => "subscribe"@,
            Callback::SubscriptionUnsubscribe => "unsubscribe"@,
        }
    }

    /// Its place among the callbacks.
    pub open spec fn place(self) -> int {
        match self {
            Callback::SourceScan => 0,
            Callback::SourceAutoDetect => 1,
            Callback::SourceRemove => 2,
            Callback::DiscoverSearch => 3,
            Callback::DiscoverTags => 4,
            Callback::DiscoverDetails => 5,
            Callback::DiscoverDownload => 6,
            Callback::DiscoverResolve => 7,
            Callback::WallpaperApply => 8,
            Callback::WallpaperProperties => 9,
            Callback::LifecycleLoad => 10,
            Callback::LifecycleSave => 11,
            Callback::LifecycleCheck => 12,
            Callback::LifecycleMigrate => 13,
            Callback::ActionsStatus => 14,
            Callback::ActionsInvoke => 15,
            Callback::QrloginBegin => 16,
            Callback::QrloginPoll => 17,
            Callback::QrloginCancel => 18,
            Callback::SubscriptionStatus => 19,
            Callback::SubscriptionSubscribe => 20,
            Callback::SubscriptionUnsubscribe => 21,
        }
    }

    pub fn table_name(self) -> (name: &'static str)
        ensures
            name@ == self.table(),
    {
        match self {
            Callback::SourceScan => "source",
            Callback::SourceAutoDetect => "source",
            Callback::SourceRemove => "source",
            Callback::DiscoverSearch => "discover",
            Callback::DiscoverTags => "discover",
            Callback::DiscoverDetails => "discover",
            Callback::DiscoverDownload => "discover",
            Callback::DiscoverResolve => "discover",
            Callback::WallpaperApply => "wallpaper",
            Callback::WallpaperProperties => "wallpaper",
            Callback::LifecycleLoad => "lifecycle",
            Callback::LifecycleSave => "lifecycle",
            Callback::LifecycleCheck => "lifecycle",
            Callback::LifecycleMigrate => "lifecycle",
            Callback::ActionsStatus => "actions",
            Callback::ActionsInvoke => "actions",
            Callback::QrloginBegin => "qrlogin",
            Callback::QrloginPoll => "qrlogin",
            Callback::QrloginCancel => "qrlogin",
            Callback::SubscriptionStatus => "subscription",
            Callback::SubscriptionSubscribe => "subscription",
            Callback::SubscriptionUnsubscribe => "subscription",
        }
    }

    pub fn function_name(self, dialect: Dialect) -> (name: &'static str)
        ensures
            name@ == self.function(dialect),
    {
        match self {
            Callback::SourceScan => "scan",
            Callback::SourceAutoDetect => "auto_detect",
            Callback::SourceRemove => "remove",
            Callback::DiscoverSearch => "search",
            Callback::DiscoverTags => "tags",
            Callback::DiscoverDetails => "details",
            Callback::DiscoverDownload => "download",
            Callback::DiscoverResolve => "resolve",
            Callback::WallpaperApply => if dialect.is_localized() {
                "apply"
            } else {
                "extras"
            },
            Callback::WallpaperProperties => "properties",
            Callback::LifecycleLoad => "load",
            Callback::LifecycleSave => "save",
            Callback::LifecycleCheck => "check",
            Callback::LifecycleMigrate => "migrate",
            Callback::ActionsStatus => "status",
            Callback::ActionsInvoke => "invoke",
            Callback::QrloginBegin => "begin",
            Callback::QrloginPoll => "poll",
            Callback::QrloginCancel => "cancel",
            Callback::SubscriptionStatus => "status",
            Callback::SubscriptionSubscribe => "subscribe",
            Callback::SubscriptionUnsubscribe => "unsubscribe",
        }
    }
}

/// The callback is exported.
pub open spec fn exported(dialect: Dialect, module: LuaTable, callback: Callback) -> bool {
    lua::table_field(module, callback.table()) matches Some(api) && api.field(callback.function(dialect))
        is Function
}

/// What stands in the place of a callback is a function or nothing.
pub open spec fn callback_fault(
    dialect: Dialect,
    module: LuaTable,
    callback: Callback,
) -> Option<Fault> {
    error::first(
        lua::optional_table_fault(module, callback.table(), "module"@),
        match lua::table_field(module, callback.table()) {
            Some(api) => error::unless(
                api.field(callback.function(dialect)) is Nil || api.field(callback.function(dialect)) is Function,
                lua::complaint(
                    lua::at("module"@, callback.table()),
                    callback.function(dialect),
                    " must be a function, got "@ + api.field(callback.function(dialect)).kind(),
                ),
            ),
            None => None,
        },
    )
}

pub open spec fn callbacks_fault(dialect: Dialect, module: LuaTable) -> Option<Fault> {
    error::first_of(22, |i: int| callback_fault(dialect, module, CALLBACKS[i]))
}

fn callback_key(dialect: Dialect, module: &LuaTable, callback: Callback) -> (r: Result<bool, Error>)
    ensures
        match r {
            Ok(there) => callback_fault(dialect, *module, callback) is None && there == exported(
                dialect,
                *module,
                callback,
            ),
            Err(e) => callback_fault(dialect, *module, callback) == Some(e@),
        },
{
    let name = callback.table_name();
    match optional_table(module, name, "module")? {
        Some(api) => match api.get(callback.function_name(dialect)) {
            LuaValue::Nil => Ok(false),
            LuaValue::Function => Ok(true),
            other => {
                let context = place_of("module", name);
                let mut what = " must be a function, got ".to_owned();
                what.append(other.kind_name());
                Err(complain(context.as_str(), callback.function_name(dialect), what.as_str()))
            },
        },
        None => Ok(false),
    }
}

/// The callbacks that a plugin has.
#[derive(Debug)]
pub struct PluginCallbacks {
    pub present: Vec<Callback>,
}

impl View for PluginCallbacks {
    type V = Set<Callback>;

    open spec fn view(&self) -> Set<Callback> {
        self.present@.to_set()
    }
}

impl PluginCallbacks {
    pub fn has(&self, callback: Callback) -> (r: bool)
        ensures
            r == self@.contains(callback),
    {
        let mut i: usize = 0;
        while i < self.present.len()
            invariant
                i <= self.present@.len(),
                forall|j: int| 0 <= j < i ==> self.present@[j] != callback,
            decreases self.present@.len() - i,
        {
            if self.present[i] == callback {
                assert(self.present@.contains(callback));
                return true;
            }
            i = i + 1;
        }
        false
    }
}

/// The callbacks of a module.
pub open spec fn exported_callbacks(dialect: Dialect, module: LuaTable) -> Set<Callback> {
    Set::new(|callback: Callback| exported(dialect, module, callback))
}

pub fn parse_callbacks(dialect: Dialect, module: &LuaTable) -> (r: Result<PluginCallbacks, Error>)
    ensures
        error::outcome(r, callbacks_fault(dialect, *module), exported_callbacks(dialect, *module)),
{
    let ghost fault = |i: int| callback_fault(dialect, *module, CALLBACKS[i]);
    let mut present: Vec<Callback> = Vec::new();
    let mut i: usize = 0;
    while i < 22
        invariant
            i <= 22,
            fault == (|i: int| callback_fault(dialect, *module, CALLBACKS[i])),
            callbacks_fault(dialect, *module) == error::first_of(22, fault),
            error::first_of(i as int, fault) is None,
            forall|j: int| 0 <= j < present@.len() ==> exported(dialect, *module, #[trigger] present@[j]),
            forall|j: int|
                0 <= j < i && exported(dialect, *module, #[trigger] CALLBACKS[j]) ==> present@.contains(
                    CALLBACKS[j],
                ),
        decreases 22 - i,
    {
        let ghost before = present@;
        let callback = CALLBACKS[i];
        proof {
            if fault(i as int) is Some {
                error::lemma_first_of_found(i as int, 22, fault);
            }
        }
        if callback_key(dialect, module, callback)? {
            present.push(callback);
            proof {
                assert(present@[before.len() as int] == callback);
                assert forall|c: Callback| before.contains(c) implies #[trigger] present@.contains(
                    c,
                ) by {
                    let j = choose|j: int| 0 <= j < before.len() && before[j] == c;
                    assert(present@[j] == c);
                }
            }
        }
        i = i + 1;
    }
    let callbacks = PluginCallbacks { present };
    proof {
        assert forall|c: Callback| exported(dialect, *module, c) implies present@.contains(c) by {
            assert(CALLBACKS[c.place()] == c);
        }
        assert(callbacks@ =~= exported_callbacks(dialect, *module));
    }
    Ok(callbacks)
}

/// What is declared is there; in a strict dialect nothing else is.
pub open spec fn matched(dialect: Dialect, declared: bool, there: bool) -> bool {
    &&& declared ==> there
    &&& dialect.strict() && there ==> declared
}

/// A plugin whose declaration is accepted has every callback that goes with
/// what it declares. In a strict dialect it has of these none that it does not
/// declare.
pub proof fn law_declared_is_exported(module: LuaTable, table: LuaTable, dialect: Dialect)
    requires
        info::info_fault(module, table, dialect) is None,
    ensures
        ({
            let caps = info::capabilities_value(dialect, module, table);
            let there = exported_callbacks(dialect, module);
            &&& caps.source is Some ==> there.contains(Callback::SourceScan)
            &&& caps.source matches Some(source) ==> matched(
                dialect,
                source.auto_detect,
                there.contains(Callback::SourceAutoDetect),
            )
            &&& caps.source_item_remove == there.contains(Callback::SourceRemove)
            &&& caps.discover matches Some(discover) ==> {
                &&& there.contains(Callback::DiscoverSearch)
                &&& matched(
                    dialect,
                    discover.supports_details,
                    there.contains(Callback::DiscoverDetails),
                )
                &&& matched(
                    dialect,
                    discover.supports_download,
                    there.contains(Callback::DiscoverDownload),
                )
                &&& matched(
                    dialect,
                    discover.supports_resolve,
                    there.contains(Callback::DiscoverResolve),
                )
                &&& discover.dynamic_tags == there.contains(Callback::DiscoverTags)
                &&& dialect is Plain3 && discover.supports_resolve ==> discover.supports_download
                &&& discover.remote is Some && discover.remote->0 is Subscription ==> {
                    &&& there.contains(Callback::SubscriptionStatus)
                    &&& there.contains(Callback::SubscriptionSubscribe)
                    &&& there.contains(Callback::SubscriptionUnsubscribe)
                }
            }
            &&& caps.wallpaper.apply ==> there.contains(Callback::WallpaperApply)
            &&& caps.wallpaper.properties ==> there.contains(Callback::WallpaperProperties)
            &&& dialect.strict() && caps.lifecycle ==> {
                &&& there.contains(Callback::LifecycleLoad)
                &&& there.contains(Callback::LifecycleSave)
                &&& there.contains(Callback::LifecycleCheck)
            }
        }),
{
}

/// Remote items are downloaded or subscribed to, never both.
pub proof fn law_remote_is_exclusive(module: LuaTable, table: LuaTable, dialect: Dialect)
    requires
        info::info_fault(module, table, dialect) is None,
    ensures
        info::capabilities_value(dialect, module, table).discover matches Some(discover) ==> (
        discover.supports_download <==> discover.remote is Some && discover.remote->0 is Download),
        dialect is Plain2 ==> (info::capabilities_value(dialect, module, table).discover matches Some(
            discover,
        ) ==> !(discover.remote is Some && discover.remote->0 is Subscription)),
{
}

/// A callback is there exactly where the module holds a function under its name
/// in the table of its part; a wallpaper is applied by `apply`, in a plain
/// plugin by `extras`.
pub proof fn law_callbacks_have_their_places(
    dialect: Dialect,
    module: LuaTable,
    callback: Callback,
)
    ensures
        callback is SourceScan ==> (exported(dialect, module, callback) <==> (module.field(
            "source"@,
        ) matches LuaValue::Table(api) && api.field("scan"@) is Function)),
        callback is SourceAutoDetect ==> (exported(dialect, module, callback) <==> (module.field(
            "source"@,
        ) matches LuaValue::Table(api) && api.field("auto_detect"@) is Function)),
        callback is SourceRemove ==> (exported(dialect, module, callback) <==> (module.field(
            "source"@,
        ) matches LuaValue::Table(api) && api.field("remove"@) is Function)),
        callback is DiscoverSearch ==> (exported(dialect, module, callback) <==> (module.field(
            "discover"@,
        ) matches LuaValue::Table(api) && api.field("search"@) is Function)),
        callback is DiscoverTags ==> (exported(dialect, module, callback) <==> (module.field(
            "discover"@,
        ) matches LuaValue::Table(api) && api.field("tags"@) is Function)),
        callback is DiscoverDetails ==> (exported(dialect, module, callback) <==> (module.field(
            "discover"@,
        ) matches LuaValue::Table(api) && api.field("details"@) is Function)),
        callback is DiscoverDownload ==> (exported(dialect, module, callback) <==> (module.field(
            "discover"@,
        ) matches LuaValue::Table(api) && api.field("download"@) is Function)),
        callback is DiscoverResolve ==> (exported(dialect, module, callback) <==> (module.field(
            "discover"@,
        ) matches LuaValue::Table(api) && api.field("resolve"@) is Function)),
        callback is WallpaperProperties ==> (exported(dialect, module, callback) <==> (module.field(
            "wallpaper"@,
        ) matches LuaValue::Table(api) && api.field("properties"@) is Function)),
        callback is LifecycleLoad ==> (exported(dialect, module, callback) <==> (module.field(
            "lifecycle"@,
        ) matches LuaValue::Table(api) && api.field("load"@) is Function)),
        callback is LifecycleSave ==> (exported(dialect, module, callback) <==> (module.field(
            "lifecycle"@,
        ) matches LuaValue::Table(api) && api.field("save"@) is Function)),
        callback is LifecycleCheck ==> (exported(dialect, module, callback) <==> (module.field(
            "lifecycle"@,
        ) matches LuaValue::Table(api) && api.field("check"@) is Function)),
        callback is LifecycleMigrate ==> (exported(dialect, module, callback) <==> (module.field(
            "lifecycle"@,
        ) matches LuaValue::Table(api) && api.field("migrate"@) is Function)),
        callback is ActionsStatus ==> (exported(dialect, module, callback) <==> (module.field(
            "actions"@,
        ) matches LuaValue::Table(api) && api.field("status"@) is Function)),
        callback is ActionsInvoke ==> (exported(dialect, module, callback) <==> (module.field(
            "actions"@,
        ) matches LuaValue::Table(api) && api.field("invoke"@) is Function)),
        callback is QrloginBegin ==> (exported(dialect, module, callback) <==> (module.field(
            "qrlogin"@,
        ) matches LuaValue::Table(api) && api.field("begin"@) is Function)),
        callback is QrloginPoll ==> (exported(dialect, module, callback) <==> (module.field(
            "qrlogin"@,
        ) matches LuaValue::Table(api) && api.field("poll"@) is Function)),
        callback is QrloginCancel ==> (exported(dialect, module, callback) <==> (module.field(
            "qrlogin"@,
        ) matches LuaValue::Table(api) && api.field("cancel"@) is Function)),
        callback is SubscriptionStatus ==> (exported(dialect, module, callback) <==> (module.field(
            "subscription"@,
        ) matches LuaValue::Table(api) && api.field("status"@) is Function)),
        callback is SubscriptionSubscribe ==> (exported(dialect, module, callback)
            <==> (module.field(
            "subscription"@,
        ) matches LuaValue::Table(api) && api.field("subscribe"@) is Function)),
        callback is SubscriptionUnsubscribe ==> (exported(dialect, module, callback)
            <==> (module.field(
            "subscription"@,
        ) matches LuaValue::Table(api) && api.field("unsubscribe"@) is Function)),
        callback is WallpaperApply && dialect.localized() ==> (exported(dialect, module, callback)
            <==> (module.field("wallpaper"@) matches LuaValue::Table(api) && api.field("apply"@)
            is Function)),
        callback is WallpaperApply && !dialect.localized() ==> (exported(dialect, module, callback)
            <==> (module.field("wallpaper"@) matches LuaValue::Table(api) && api.field("extras"@)
            is Function)),
        exported_callbacks(dialect, module).contains(callback) <==> exported(
            dialect,
            module,
            callback,
        ),
        callback_fault(dialect, module, callback) is None <==> module.field(callback.table()) is Nil
            || (module.field(callback.table()) matches LuaValue::Table(api) && (api.field(
            callback.function(dialect),
        ) is Nil || api.field(callback.function(dialect)) is Function)),
{
}

// ---------------------------------------------------------------------------
// What is told of what is refused

/// What is told of a callback that is refused.
pub proof fn law_refused_callback(dialect: Dialect, module: LuaTable, callback: Callback)
    ensures
        ({
            let module_part = lua::optional_table_fault(module, callback.table(), "module"@);
            let module_parts = match lua::table_field(module, callback.table()) {
                Some(api) => error::unless(
                    api.field(callback.function(dialect)) is Nil
                        || api.field(callback.function(dialect)) is Function,
                    lua::complaint(
                        lua::at("module"@, callback.table()),
                        callback.function(dialect),
                        " must be a function, got "@ + api.field(callback.function(dialect)).kind(),
                    ),
                ),
                None => None,
            };
            callback_fault(dialect, module, callback) == (if module_part is Some {
                module_part
            } else if module_parts is Some {
                module_parts
            } else {
                None
            })
        }),
{
}

/// Every callback of a plugin is looked at, and the plugin is accepted where
/// none of them is refused.
pub proof fn law_every_callback_is_checked(dialect: Dialect, module: LuaTable)
    ensures
        callbacks_fault(dialect, module) is None <==> forall|callback: Callback| #[trigger]
            callback_fault(dialect, module, callback) is None,
{
    let fault = |i: int| callback_fault(dialect, module, CALLBACKS[i]);
    error::lemma_first_of_none(22, fault);
    if callbacks_fault(dialect, module) is None {
        assert forall|callback: Callback| #[trigger]
            callback_fault(dialect, module, callback) is None by {
            let i = callback.place();
            assert(CALLBACKS[i] == callback);
            assert(fault(i) is None);
        }
    } else {
        let i = choose|i: int| 0 <= i < 22 && !((#[trigger] fault(i)) is None);
        assert(!(callback_fault(dialect, module, CALLBACKS[i]) is None));
    }
}

/// The callbacks of a plugin are those that it exports.
pub proof fn law_exported_callbacks(dialect: Dialect, module: LuaTable, callback: Callback)
    ensures
        exported_callbacks(dialect, module).contains(callback) <==> exported(
            dialect,
            module,
            callback,
        ),
        matched(dialect, true, true),
        !matched(dialect, true, false),
        matched(dialect, false, false),
        matched(dialect, false, true) <==> dialect is Plain2,
{
}

} // verus!
