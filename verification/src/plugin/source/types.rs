//! What source plugins declare and what they answer.
use vstd::prelude::*;
use crate::plugin::i18n::{LocalizedText, LocalizedView};
use crate::text::{copy_list, copy_option, copy_texts, view_of, views};

verus! {

/// How a discover-capable plugin brings remote items in.
#[derive(Clone, Copy, Debug, PartialEq, Eq, Structural)]
pub enum RemoteCapability {
    Download,
    Subscription,
}

#[derive(Clone, Copy, Debug, PartialEq, Eq, Structural)]
pub enum SourceActionKind {
    Invoke,
    QrLogin,
    Form,
}

#[derive(Clone, Copy, Debug, PartialEq, Eq, Structural)]
pub enum DiscoverFilterType {
    Select,
    MultiSelect,
    Toggle,
}

/// One user-configurable setting of a source plugin.
#[derive(Debug)]
pub struct SourceSetting {
    pub key: String,
    /// `string`, `bool`, `u32`, `i32` or `f32`.
    pub ty: String,
    pub default: String,
    pub label: LocalizedText,
    pub description: LocalizedText,
    pub group: String,
    pub group_label: LocalizedText,
    pub order: i32,
    pub choices: Vec<String>,
}

pub struct SourceSettingView {
    pub key: Seq<char>,
    pub ty: Seq<char>,
    pub default: Seq<char>,
    pub label: LocalizedView,
    pub description: LocalizedView,
    pub group: Seq<char>,
    pub group_label: LocalizedView,
    pub order: i32,
    pub choices: Seq<Seq<char>>,
}

impl View for SourceSetting {
    type V = SourceSettingView;

    open spec fn view(&self) -> SourceSettingView {
        SourceSettingView {
            key: self.key@,
            ty: self.ty@,
            default: self.default@,
            label: self.label@,
            description: self.description@,
            group: self.group@,
            group_label: self.group_label@,
            order: self.order,
            choices: views(self.choices@),
        }
    }
}

impl Clone for SourceSetting {
    fn clone(&self) -> (copy: Self)
        ensures
            copy@ == self@,
    {
        SourceSetting {
            key: self.key.clone(),
            ty: self.ty.clone(),
            default: self.default.clone(),
            label: self.label.clone(),
            description: self.description.clone(),
            group: self.group.clone(),
            group_label: self.group_label.clone(),
            order: self.order,
            choices: copy_texts(&self.choices),
        }
    }
}

/// One field of a form action.
#[derive(Debug)]
pub struct SourceActionField {
    pub key: String,
    pub label: LocalizedText,
    pub description: LocalizedText,
    pub placeholder: LocalizedText,
    pub secret: bool,
    pub required: bool,
}

pub struct SourceActionFieldView {
    pub key: Seq<char>,
    pub label: LocalizedView,
    pub description: LocalizedView,
    pub placeholder: LocalizedView,
    pub secret: bool,
    pub required: bool,
}

impl View for SourceActionField {
    type V = SourceActionFieldView;

    open spec fn view(&self) -> SourceActionFieldView {
        SourceActionFieldView {
            key: self.key@,
            label: self.label@,
            description: self.description@,
            placeholder: self.placeholder@,
            secret: self.secret,
            required: self.required,
        }
    }
}

impl Clone for SourceActionField {
    fn clone(&self) -> (copy: Self)
        ensures
            copy@ == self@,
    {
        SourceActionField {
            key: self.key.clone(),
            label: self.label.clone(),
            description: self.description.clone(),
            placeholder: self.placeholder.clone(),
            secret: self.secret,
            required: self.required,
        }
    }
}

/// A button that a source plugin declares.
#[derive(Debug)]
pub struct SourceAction {
    pub id: String,
    pub label: LocalizedText,
    pub description: LocalizedText,
    pub browse_description: LocalizedText,
    pub browse_button_label: LocalizedText,
    pub group: String,
    pub group_label: LocalizedText,
    pub order: i32,
    pub kind: SourceActionKind,
    pub visible: bool,
    pub enabled: bool,
    pub fields: Vec<SourceActionField>,
    pub required_for_browsing: bool,
}

pub struct SourceActionView {
    pub id: Seq<char>,
    pub label: LocalizedView,
    pub description: LocalizedView,
    pub browse_description: LocalizedView,
    pub browse_button_label: LocalizedView,
    pub group: Seq<char>,
    pub group_label: LocalizedView,
    pub order: i32,
    pub kind: SourceActionKind,
    pub visible: bool,
    pub enabled: bool,
    pub fields: Seq<SourceActionFieldView>,
    pub required_for_browsing: bool,
}

impl View for SourceAction {
    type V = SourceActionView;

    open spec fn view(&self) -> SourceActionView {
        SourceActionView {
            id: self.id@,
            label: self.label@,
            description: self.description@,
            browse_description: self.browse_description@,
            browse_button_label: self.browse_button_label@,
            group: self.group@,
            group_label: self.group_label@,
            order: self.order,
            kind: self.kind,
            visible: self.visible,
            enabled: self.enabled,
            fields: views(self.fields@),
            required_for_browsing: self.required_for_browsing,
        }
    }
}

impl Clone for SourceAction {
    fn clone(&self) -> (copy: Self)
        ensures
            copy@ == self@,
    {
        SourceAction {
            id: self.id.clone(),
            label: self.label.clone(),
            description: self.description.clone(),
            browse_description: self.browse_description.clone(),
            browse_button_label: self.browse_button_label.clone(),
            group: self.group.clone(),
            group_label: self.group_label.clone(),
            order: self.order,
            kind: self.kind,
            visible: self.visible,
            enabled: self.enabled,
            fields: copy_list(&self.fields),
            required_for_browsing: self.required_for_browsing,
        }
    }
}

/// A read-only status row that a source plugin declares.
#[derive(Debug)]
pub struct SourceStatus {
    pub id: String,
    pub label: LocalizedText,
    pub group: String,
    pub group_label: LocalizedText,
    pub order: i32,
    pub value: LocalizedText,
}

pub struct SourceStatusView {
    pub id: Seq<char>,
    pub label: LocalizedView,
    pub group: Seq<char>,
    pub group_label: LocalizedView,
    pub order: i32,
    pub value: LocalizedView,
}

impl View for SourceStatus {
    type V = SourceStatusView;

    open spec fn view(&self) -> SourceStatusView {
        SourceStatusView {
            id: self.id@,
            label: self.label@,
            group: self.group@,
            group_label: self.group_label@,
            order: self.order,
            value: self.value@,
        }
    }
}

impl Clone for SourceStatus {
    fn clone(&self) -> (copy: Self)
        ensures
            copy@ == self@,
    {
        SourceStatus {
            id: self.id.clone(),
            label: self.label.clone(),
            group: self.group.clone(),
            group_label: self.group_label.clone(),
            order: self.order,
            value: self.value.clone(),
        }
    }
}

/// One sort option of a discover-capable plugin.
#[derive(Debug)]
pub struct DiscoverSort {
    pub key: String,
    pub label: LocalizedText,
}

pub struct DiscoverSortView {
    pub key: Seq<char>,
    pub label: LocalizedView,
}

impl View for DiscoverSort {
    type V = DiscoverSortView;

    open spec fn view(&self) -> DiscoverSortView {
        DiscoverSortView {
            key: self.key@,
            label: self.label@,
        }
    }
}

impl Clone for DiscoverSort {
    fn clone(&self) -> (copy: Self)
        ensures
            copy@ == self@,
    {
        DiscoverSort {
            key: self.key.clone(),
            label: self.label.clone(),
        }
    }
}

/// One value that a discover filter offers.
#[derive(Debug, PartialEq, Eq)]
pub struct DiscoverFilterOption {
    pub value: String,
    pub label: LocalizedText,
}

pub struct DiscoverFilterOptionView {
    pub value: Seq<char>,
    pub label: LocalizedView,
}

impl View for DiscoverFilterOption {
    type V = DiscoverFilterOptionView;

    open spec fn view(&self) -> DiscoverFilterOptionView {
        DiscoverFilterOptionView {
            value: self.value@,
            label: self.label@,
        }
    }
}

impl Clone for DiscoverFilterOption {
    fn clone(&self) -> (copy: Self)
        ensures
            copy@ == self@,
    {
        DiscoverFilterOption {
            value: self.value.clone(),
            label: self.label.clone(),
        }
    }
}

/// A filter of a discover-capable plugin.
#[derive(Debug, PartialEq, Eq)]
pub struct DiscoverFilter {
    pub id: String,
    pub title: LocalizedText,
    pub ty: DiscoverFilterType,
    pub options: Vec<DiscoverFilterOption>,
    pub description: LocalizedText,
    pub confirmation: LocalizedText,
}

pub struct DiscoverFilterView {
    pub id: Seq<char>,
    pub title: LocalizedView,
    pub ty: DiscoverFilterType,
    pub options: Seq<DiscoverFilterOptionView>,
    pub description: LocalizedView,
    pub confirmation: LocalizedView,
}

impl View for DiscoverFilter {
    type V = DiscoverFilterView;

    open spec fn view(&self) -> DiscoverFilterView {
        DiscoverFilterView {
            id: self.id@,
            title: self.title@,
            ty: self.ty,
            options: views(self.options@),
            description: self.description@,
            confirmation: self.confirmation@,
        }
    }
}

impl Clone for DiscoverFilter {
    fn clone(&self) -> (copy: Self)
        ensures
            copy@ == self@,
    {
        DiscoverFilter {
            id: self.id.clone(),
            title: self.title.clone(),
            ty: self.ty,
            options: copy_list(&self.options),
            description: self.description.clone(),
            confirmation: self.confirmation.clone(),
        }
    }
}

/// The plugin finds wallpapers in local libraries.
#[derive(Debug)]
pub struct SourceCapability {
    pub types: Vec<String>,
    pub library_label: LocalizedText,
    pub library_hint: LocalizedText,
    pub auto_detect: bool,
}

pub struct SourceCapabilityView {
    pub types: Seq<Seq<char>>,
    pub library_label: LocalizedView,
    pub library_hint: LocalizedView,
    pub auto_detect: bool,
}

impl View for SourceCapability {
    type V = SourceCapabilityView;

    open spec fn view(&self) -> SourceCapabilityView {
        SourceCapabilityView {
            types: views(self.types@),
            library_label: self.library_label@,
            library_hint: self.library_hint@,
            auto_detect: self.auto_detect,
        }
    }
}

impl Clone for SourceCapability {
    fn clone(&self) -> (copy: Self)
        ensures
            copy@ == self@,
    {
        SourceCapability {
            types: copy_texts(&self.types),
            library_label: self.library_label.clone(),
            library_hint: self.library_hint.clone(),
            auto_detect: self.auto_detect,
        }
    }
}

/// The plugin browses remote wallpapers.
#[derive(Debug)]
pub struct DiscoverCapability {
    pub supports_search: bool,
    pub supports_details: bool,
    pub supports_download: bool,
    pub supports_resolve: bool,
    pub remote: Option<RemoteCapability>,
    pub remote_hint: LocalizedText,
    pub sorts: Vec<DiscoverSort>,
    pub filters: Vec<DiscoverFilter>,
    /// The tags of the plugin are asked for while it runs.
    pub dynamic_tags: bool,
}

pub struct DiscoverCapabilityView {
    pub supports_search: bool,
    pub supports_details: bool,
    pub supports_download: bool,
    pub supports_resolve: bool,
    pub remote: Option<RemoteCapability>,
    pub remote_hint: LocalizedView,
    pub sorts: Seq<DiscoverSortView>,
    pub filters: Seq<DiscoverFilterView>,
    pub dynamic_tags: bool,
}

impl View for DiscoverCapability {
    type V = DiscoverCapabilityView;

    open spec fn view(&self) -> DiscoverCapabilityView {
        DiscoverCapabilityView {
            supports_search: self.supports_search,
            supports_details: self.supports_details,
            supports_download: self.supports_download,
            supports_resolve: self.supports_resolve,
            remote: self.remote,
            remote_hint: self.remote_hint@,
            sorts: views(self.sorts@),
            filters: views(self.filters@),
            dynamic_tags: self.dynamic_tags,
        }
    }
}

impl Clone for DiscoverCapability {
    fn clone(&self) -> (copy: Self)
        ensures
            copy@ == self@,
    {
        DiscoverCapability {
            supports_search: self.supports_search,
            supports_details: self.supports_details,
            supports_download: self.supports_download,
            supports_resolve: self.supports_resolve,
            remote: self.remote,
            remote_hint: self.remote_hint.clone(),
            sorts: copy_list(&self.sorts),
            filters: copy_list(&self.filters),
            dynamic_tags: self.dynamic_tags,
        }
    }
}

/// What the plugin does for a wallpaper that is shown.
#[derive(Clone, Copy, Debug, PartialEq, Eq, Structural)]
pub struct WallpaperCapability {
    pub apply: bool,
    pub properties: bool,
}

#[derive(Debug)]
pub struct PluginCapabilities {
    pub source: Option<SourceCapability>,
    pub source_item_remove: bool,
    pub discover: Option<DiscoverCapability>,
    pub wallpaper: WallpaperCapability,
    pub lifecycle: bool,
}

pub struct PluginCapabilitiesView {
    pub source: Option<SourceCapabilityView>,
    pub source_item_remove: bool,
    pub discover: Option<DiscoverCapabilityView>,
    pub wallpaper: WallpaperCapability,
    pub lifecycle: bool,
}

impl View for PluginCapabilities {
    type V = PluginCapabilitiesView;

    open spec fn view(&self) -> PluginCapabilitiesView {
        PluginCapabilitiesView {
            source: view_of(self.source),
            source_item_remove: self.source_item_remove,
            discover: view_of(self.discover),
            wallpaper: self.wallpaper,
            lifecycle: self.lifecycle,
        }
    }
}

impl Clone for PluginCapabilities {
    fn clone(&self) -> (copy: Self)
        ensures
            copy@ == self@,
    {
        PluginCapabilities {
            source: copy_option(&self.source),
            source_item_remove: self.source_item_remove,
            discover: copy_option(&self.discover),
            wallpaper: self.wallpaper,
            lifecycle: self.lifecycle,
        }
    }
}

/// A state file of an earlier release that a plugin can take over.
#[derive(Debug)]
pub struct PluginStateMigration {
    pub schema_id: String,
    pub file: String,
}

pub struct PluginStateMigrationView {
    pub schema_id: Seq<char>,
    pub file: Seq<char>,
}

impl View for PluginStateMigration {
    type V = PluginStateMigrationView;

    open spec fn view(&self) -> PluginStateMigrationView {
        PluginStateMigrationView {
            schema_id: self.schema_id@,
            file: self.file@,
        }
    }
}

impl Clone for PluginStateMigration {
    fn clone(&self) -> (copy: Self)
        ensures
            copy@ == self@,
    {
        PluginStateMigration {
            schema_id: self.schema_id.clone(),
            file: self.file.clone(),
        }
    }
}

/// Everything that a loaded plugin has declared.
#[derive(Debug)]
pub struct LoadedPluginInfo {
    pub name: String,
    /// The name shown to the user; `name` where the plugin gives none.
    pub display_name: LocalizedText,
    pub plugin_id: String,
    pub version: String,
    pub capabilities: PluginCapabilities,
    pub settings: Vec<SourceSetting>,
    pub actions: Vec<SourceAction>,
    pub status: Vec<SourceStatus>,
    pub state_migrations: Vec<PluginStateMigration>,
}

pub struct LoadedPluginInfoView {
    pub name: Seq<char>,
    pub display_name: LocalizedView,
    pub plugin_id: Seq<char>,
    pub version: Seq<char>,
    pub capabilities: PluginCapabilitiesView,
    pub settings: Seq<SourceSettingView>,
    pub actions: Seq<SourceActionView>,
    pub status: Seq<SourceStatusView>,
    pub state_migrations: Seq<PluginStateMigrationView>,
}

impl View for LoadedPluginInfo {
    type V = LoadedPluginInfoView;

    open spec fn view(&self) -> LoadedPluginInfoView {
        LoadedPluginInfoView {
            name: self.name@,
            display_name: self.display_name@,
            plugin_id: self.plugin_id@,
            version: self.version@,
            capabilities: self.capabilities@,
            settings: views(self.settings@),
            actions: views(self.actions@),
            status: views(self.status@),
            state_migrations: views(self.state_migrations@),
        }
    }
}

impl Clone for LoadedPluginInfo {
    fn clone(&self) -> (copy: Self)
        ensures
            copy@ == self@,
    {
        LoadedPluginInfo {
            name: self.name.clone(),
            display_name: self.display_name.clone(),
            plugin_id: self.plugin_id.clone(),
            version: self.version.clone(),
            capabilities: self.capabilities.clone(),
            settings: copy_list(&self.settings),
            actions: copy_list(&self.actions),
            status: copy_list(&self.status),
            state_migrations: copy_list(&self.state_migrations),
        }
    }
}

/// What is said of a `SourceSetting` is said of its own fields.
pub proof fn law_source_setting_in_contracts(setting: SourceSetting)
    ensures
        setting@.key == setting.key@,
        setting@.ty == setting.ty@,
        setting@.default == setting.default@,
        setting@.label == setting.label@,
        setting@.description == setting.description@,
        setting@.group == setting.group@,
        setting@.group_label == setting.group_label@,
        setting@.order == setting.order,
        setting@.choices == views(setting.choices@),
{
}

/// What is said of a `SourceActionField` is said of its own fields.
pub proof fn law_source_action_field_in_contracts(field: SourceActionField)
    ensures
        field@.key == field.key@,
        field@.label == field.label@,
        field@.description == field.description@,
        field@.placeholder == field.placeholder@,
        field@.secret == field.secret,
        field@.required == field.required,
{
}

/// What is said of a `SourceAction` is said of its own fields.
pub proof fn law_source_action_in_contracts(action: SourceAction)
    ensures
        action@.id == action.id@,
        action@.label == action.label@,
        action@.description == action.description@,
        action@.browse_description == action.browse_description@,
        action@.browse_button_label == action.browse_button_label@,
        action@.group == action.group@,
        action@.group_label == action.group_label@,
        action@.order == action.order,
        action@.kind == action.kind,
        action@.visible == action.visible,
        action@.enabled == action.enabled,
        action@.fields == views(action.fields@),
        action@.required_for_browsing == action.required_for_browsing,
{
}

/// What is said of a `SourceStatus` is said of its own fields.
pub proof fn law_source_status_in_contracts(status: SourceStatus)
    ensures
        status@.id == status.id@,
        status@.label == status.label@,
        status@.group == status.group@,
        status@.group_label == status.group_label@,
        status@.order == status.order,
        status@.value == status.value@,
{
}

/// What is said of a `DiscoverSort` is said of its own fields.
pub proof fn law_discover_sort_in_contracts(sort: DiscoverSort)
    ensures
        sort@.key == sort.key@,
        sort@.label == sort.label@,
{
}

/// What is said of a `DiscoverFilterOption` is said of its own fields.
pub proof fn law_discover_filter_option_in_contracts(option: DiscoverFilterOption)
    ensures
        option@.value == option.value@,
        option@.label == option.label@,
{
}

/// What is said of a `DiscoverFilter` is said of its own fields.
pub proof fn law_discover_filter_in_contracts(filter: DiscoverFilter)
    ensures
        filter@.id == filter.id@,
        filter@.title == filter.title@,
        filter@.ty == filter.ty,
        filter@.options == views(filter.options@),
        filter@.description == filter.description@,
        filter@.confirmation == filter.confirmation@,
{
}

/// What is said of a `SourceCapability` is said of its own fields.
pub proof fn law_source_capability_in_contracts(capability: SourceCapability)
    ensures
        capability@.types == views(capability.types@),
        capability@.library_label == capability.library_label@,
        capability@.library_hint == capability.library_hint@,
        capability@.auto_detect == capability.auto_detect,
{
}

/// What is said of a `DiscoverCapability` is said of its own fields.
pub proof fn law_discover_capability_in_contracts(capability: DiscoverCapability)
    ensures
        capability@.supports_search == capability.supports_search,
        capability@.supports_details == capability.supports_details,
        capability@.supports_download == capability.supports_download,
        capability@.supports_resolve == capability.supports_resolve,
        capability@.remote == capability.remote,
        capability@.remote_hint == capability.remote_hint@,
        capability@.sorts == views(capability.sorts@),
        capability@.filters == views(capability.filters@),
        capability@.dynamic_tags == capability.dynamic_tags,
{
}

/// What is said of a `PluginCapabilities` is said of its own fields.
pub proof fn law_plugin_capabilities_in_contracts(capabilities: PluginCapabilities)
    ensures
        capabilities@.source == view_of(capabilities.source),
        capabilities@.source_item_remove == capabilities.source_item_remove,
        capabilities@.discover == view_of(capabilities.discover),
        capabilities@.wallpaper == capabilities.wallpaper,
        capabilities@.lifecycle == capabilities.lifecycle,
{
}

/// What is said of a `PluginStateMigration` is said of its own fields.
pub proof fn law_plugin_state_migration_in_contracts(migration: PluginStateMigration)
    ensures
        migration@.schema_id == migration.schema_id@,
        migration@.file == migration.file@,
{
}

/// What is said of a `LoadedPluginInfo` is said of its own fields.
pub proof fn law_loaded_plugin_info_in_contracts(info: LoadedPluginInfo)
    ensures
        info@.name == info.name@,
        info@.display_name == info.display_name@,
        info@.plugin_id == info.plugin_id@,
        info@.version == info.version@,
        info@.capabilities == info.capabilities@,
        info@.settings == views(info.settings@),
        info@.actions == views(info.actions@),
        info@.status == views(info.status@),
        info@.state_migrations == views(info.state_migrations@),
{
}

} // verus!
