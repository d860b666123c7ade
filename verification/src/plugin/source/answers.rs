//! What source plugins answer.
use vstd::prelude::*;
use crate::map::{texts_of, TextMap};
use crate::plugin::i18n::{LocalizedText, LocalizedView};
use crate::plugin::source::types::{
    DiscoverFilter, DiscoverFilterView, DiscoverSort, DiscoverSortView, RemoteCapability,
    SourceAction, SourceActionView, SourceSetting, SourceSettingView, SourceStatus,
    SourceStatusView,
};
use crate::text::{copy_list, copy_option, copy_texts, view_of, views};

verus! {

#[derive(Clone, Copy, Debug, PartialEq, Eq, Structural)]
pub enum SubscriptionState {
    Unknown,
    Unsubscribed,
    Subscribed,
}

#[derive(Clone, Copy, Debug, PartialEq, Eq, Structural)]
pub enum QrLoginPollState {
    AwaitingScan,
    AwaitingConfirmation,
    ChallengeChanged,
    Succeeded,
    Expired,
    Failed,
}

#[derive(Clone, Copy, Debug, PartialEq, Eq, Structural)]
pub enum PluginLifecycleState {
    SignedOut,
    SignedIn,
    Expired,
    Error,
}

/// What a renderer needs to show a wallpaper.
#[derive(Debug)]
pub struct WallpaperApply {
    pub extras: TextMap<String>,
    pub default_user_properties: TextMap<String>,
}

pub struct WallpaperApplyView {
    pub extras: Map<Seq<char>, Seq<char>>,
    pub default_user_properties: Map<Seq<char>, Seq<char>>,
}

impl View for WallpaperApply {
    type V = WallpaperApplyView;

    open spec fn view(&self) -> WallpaperApplyView {
        WallpaperApplyView {
            extras: texts_of(self.extras@),
            default_user_properties: texts_of(self.default_user_properties@),
        }
    }
}

/// One remote item of a search.
#[derive(Debug)]
pub struct DiscoverItem {
    pub id: String,
    pub title: String,
    pub preview_url: String,
    pub author: String,
    pub wp_type: String,
    pub extra: TextMap<String>,
}

pub struct DiscoverItemView {
    pub id: Seq<char>,
    pub title: Seq<char>,
    pub preview_url: Seq<char>,
    pub author: Seq<char>,
    pub wp_type: Seq<char>,
    pub extra: Map<Seq<char>, Seq<char>>,
}

impl View for DiscoverItem {
    type V = DiscoverItemView;

    open spec fn view(&self) -> DiscoverItemView {
        DiscoverItemView {
            id: self.id@,
            title: self.title@,
            preview_url: self.preview_url@,
            author: self.author@,
            wp_type: self.wp_type@,
            extra: texts_of(self.extra@),
        }
    }
}

#[derive(Debug)]
pub struct DiscoverSearchResult {
    pub items: Vec<DiscoverItem>,
    pub has_more: bool,
}

pub struct DiscoverSearchResultView {
    pub items: Seq<DiscoverItemView>,
    pub has_more: bool,
}

impl View for DiscoverSearchResult {
    type V = DiscoverSearchResultView;

    open spec fn view(&self) -> DiscoverSearchResultView {
        DiscoverSearchResultView {
            items: views(self.items@),
            has_more: self.has_more,
        }
    }
}

/// The details of a remote item.
#[derive(Debug)]
pub struct DiscoverDetails {
    pub author: String,
    pub description: String,
    pub size: String,
    pub width: Option<u32>,
    pub height: Option<u32>,
    pub tags: Vec<String>,
    pub web_url: String,
    pub extra: TextMap<String>,
}

pub struct DiscoverDetailsView {
    pub author: Seq<char>,
    pub description: Seq<char>,
    pub size: Seq<char>,
    pub width: Option<u32>,
    pub height: Option<u32>,
    pub tags: Seq<Seq<char>>,
    pub web_url: Seq<char>,
    pub extra: Map<Seq<char>, Seq<char>>,
}

impl View for DiscoverDetails {
    type V = DiscoverDetailsView;

    open spec fn view(&self) -> DiscoverDetailsView {
        DiscoverDetailsView {
            author: self.author@,
            description: self.description@,
            size: self.size@,
            width: self.width,
            height: self.height,
            tags: views(self.tags@),
            web_url: self.web_url@,
            extra: texts_of(self.extra@),
        }
    }
}

/// How to fetch a remote item.
#[derive(Debug, PartialEq, Eq)]
pub struct DiscoverDownload {
    pub wp_type: String,
    pub url: String,
    pub filename: String,
    pub title: String,
    pub preview_url: String,
    pub description: String,
    pub tags: Vec<String>,
    pub external_id: String,
    pub web_url: String,
    pub size: Option<i64>,
    pub width: Option<u32>,
    pub height: Option<u32>,
    pub content_rating: Option<String>,
}

pub struct DiscoverDownloadView {
    pub wp_type: Seq<char>,
    pub url: Seq<char>,
    pub filename: Seq<char>,
    pub title: Seq<char>,
    pub preview_url: Seq<char>,
    pub description: Seq<char>,
    pub tags: Seq<Seq<char>>,
    pub external_id: Seq<char>,
    pub web_url: Seq<char>,
    pub size: Option<i64>,
    pub width: Option<u32>,
    pub height: Option<u32>,
    pub content_rating: Option<Seq<char>>,
}

impl View for DiscoverDownload {
    type V = DiscoverDownloadView;

    open spec fn view(&self) -> DiscoverDownloadView {
        DiscoverDownloadView {
            wp_type: self.wp_type@,
            url: self.url@,
            filename: self.filename@,
            title: self.title@,
            preview_url: self.preview_url@,
            description: self.description@,
            tags: views(self.tags@),
            external_id: self.external_id@,
            web_url: self.web_url@,
            size: self.size,
            width: self.width,
            height: self.height,
            content_rating: view_of(self.content_rating),
        }
    }
}

impl Clone for DiscoverDownload {
    fn clone(&self) -> (copy: Self)
        ensures
            copy@ == self@,
    {
        DiscoverDownload {
            wp_type: self.wp_type.clone(),
            url: self.url.clone(),
            filename: self.filename.clone(),
            title: self.title.clone(),
            preview_url: self.preview_url.clone(),
            description: self.description.clone(),
            tags: copy_texts(&self.tags),
            external_id: self.external_id.clone(),
            web_url: self.web_url.clone(),
            size: self.size,
            width: self.width,
            height: self.height,
            content_rating: copy_option(&self.content_rating),
        }
    }
}

/// What a fetched directory holds; its paths are relative to it.
#[derive(Debug, PartialEq, Eq)]
pub struct DiscoverResolve {
    pub name: String,
    pub wp_type: String,
    pub resource: String,
    pub preview: Option<String>,
    pub description: String,
    pub tags: Vec<String>,
    pub external_id: String,
    pub size: Option<i64>,
    pub content_rating: Option<String>,
}

pub struct DiscoverResolveView {
    pub name: Seq<char>,
    pub wp_type: Seq<char>,
    pub resource: Seq<char>,
    pub preview: Option<Seq<char>>,
    pub description: Seq<char>,
    pub tags: Seq<Seq<char>>,
    pub external_id: Seq<char>,
    pub size: Option<i64>,
    pub content_rating: Option<Seq<char>>,
}

impl View for DiscoverResolve {
    type V = DiscoverResolveView;

    open spec fn view(&self) -> DiscoverResolveView {
        DiscoverResolveView {
            name: self.name@,
            wp_type: self.wp_type@,
            resource: self.resource@,
            preview: view_of(self.preview),
            description: self.description@,
            tags: views(self.tags@),
            external_id: self.external_id@,
            size: self.size,
            content_rating: view_of(self.content_rating),
        }
    }
}

impl Clone for DiscoverResolve {
    fn clone(&self) -> (copy: Self)
        ensures
            copy@ == self@,
    {
        DiscoverResolve {
            name: self.name.clone(),
            wp_type: self.wp_type.clone(),
            resource: self.resource.clone(),
            preview: copy_option(&self.preview),
            description: self.description.clone(),
            tags: copy_texts(&self.tags),
            external_id: self.external_id.clone(),
            size: self.size,
            content_rating: copy_option(&self.content_rating),
        }
    }
}

#[derive(Debug, PartialEq, Eq)]
pub struct PluginLifecycleCheck {
    pub state: PluginLifecycleState,
    pub display_value: LocalizedText,
    pub error: LocalizedText,
    pub avatar_url: String,
}

pub struct PluginLifecycleCheckView {
    pub state: PluginLifecycleState,
    pub display_value: LocalizedView,
    pub error: LocalizedView,
    pub avatar_url: Seq<char>,
}

impl View for PluginLifecycleCheck {
    type V = PluginLifecycleCheckView;

    open spec fn view(&self) -> PluginLifecycleCheckView {
        PluginLifecycleCheckView {
            state: self.state,
            display_value: self.display_value@,
            error: self.error@,
            avatar_url: self.avatar_url@,
        }
    }
}

impl Clone for PluginLifecycleCheck {
    fn clone(&self) -> (copy: Self)
        ensures
            copy@ == self@,
    {
        PluginLifecycleCheck {
            state: self.state,
            display_value: self.display_value.clone(),
            error: self.error.clone(),
            avatar_url: self.avatar_url.clone(),
        }
    }
}

#[derive(Debug, PartialEq, Eq)]
pub struct QrLoginBegin {
    pub operation_id: u64,
    pub challenge: String,
    pub poll_after_ms: u64,
    pub expires_in_ms: Option<u64>,
    pub title: LocalizedText,
    pub instruction: LocalizedText,
}

pub struct QrLoginBeginView {
    pub operation_id: u64,
    pub challenge: Seq<char>,
    pub poll_after_ms: u64,
    pub expires_in_ms: Option<u64>,
    pub title: LocalizedView,
    pub instruction: LocalizedView,
}

impl View for QrLoginBegin {
    type V = QrLoginBeginView;

    open spec fn view(&self) -> QrLoginBeginView {
        QrLoginBeginView {
            operation_id: self.operation_id,
            challenge: self.challenge@,
            poll_after_ms: self.poll_after_ms,
            expires_in_ms: self.expires_in_ms,
            title: self.title@,
            instruction: self.instruction@,
        }
    }
}

impl Clone for QrLoginBegin {
    fn clone(&self) -> (copy: Self)
        ensures
            copy@ == self@,
    {
        QrLoginBegin {
            operation_id: self.operation_id,
            challenge: self.challenge.clone(),
            poll_after_ms: self.poll_after_ms,
            expires_in_ms: self.expires_in_ms,
            title: self.title.clone(),
            instruction: self.instruction.clone(),
        }
    }
}

#[derive(Debug, PartialEq, Eq)]
pub struct QrLoginPoll {
    pub state: QrLoginPollState,
    pub challenge: String,
    pub poll_after_ms: Option<u64>,
    pub display_value: LocalizedText,
    pub error: LocalizedText,
}

pub struct QrLoginPollView {
    pub state: QrLoginPollState,
    pub challenge: Seq<char>,
    pub poll_after_ms: Option<u64>,
    pub display_value: LocalizedView,
    pub error: LocalizedView,
}

impl View for QrLoginPoll {
    type V = QrLoginPollView;

    open spec fn view(&self) -> QrLoginPollView {
        QrLoginPollView {
            state: self.state,
            challenge: self.challenge@,
            poll_after_ms: self.poll_after_ms,
            display_value: self.display_value@,
            error: self.error@,
        }
    }
}

impl Clone for QrLoginPoll {
    fn clone(&self) -> (copy: Self)
        ensures
            copy@ == self@,
    {
        QrLoginPoll {
            state: self.state,
            challenge: self.challenge.clone(),
            poll_after_ms: self.poll_after_ms,
            display_value: self.display_value.clone(),
            error: self.error.clone(),
        }
    }
}

#[derive(Debug, PartialEq, Eq)]
pub struct SubscriptionItemState {
    pub id: String,
    pub state: SubscriptionState,
}

pub struct SubscriptionItemStateView {
    pub id: Seq<char>,
    pub state: SubscriptionState,
}

impl View for SubscriptionItemState {
    type V = SubscriptionItemStateView;

    open spec fn view(&self) -> SubscriptionItemStateView {
        SubscriptionItemStateView {
            id: self.id@,
            state: self.state,
        }
    }
}

impl Clone for SubscriptionItemState {
    fn clone(&self) -> (copy: Self)
        ensures
            copy@ == self@,
    {
        SubscriptionItemState {
            id: self.id.clone(),
            state: self.state,
        }
    }
}

#[derive(Debug, PartialEq, Eq)]
pub struct SubscriptionStatusResult {
    pub items: Vec<SubscriptionItemState>,
    pub error: LocalizedText,
}

pub struct SubscriptionStatusResultView {
    pub items: Seq<SubscriptionItemStateView>,
    pub error: LocalizedView,
}

impl View for SubscriptionStatusResult {
    type V = SubscriptionStatusResultView;

    open spec fn view(&self) -> SubscriptionStatusResultView {
        SubscriptionStatusResultView {
            items: views(self.items@),
            error: self.error@,
        }
    }
}

impl Clone for SubscriptionStatusResult {
    fn clone(&self) -> (copy: Self)
        ensures
            copy@ == self@,
    {
        SubscriptionStatusResult {
            items: copy_list(&self.items),
            error: self.error.clone(),
        }
    }
}

#[derive(Debug, PartialEq, Eq)]
pub struct SubscriptionSetResult {
    pub accepted: bool,
    pub error: LocalizedText,
}

pub struct SubscriptionSetResultView {
    pub accepted: bool,
    pub error: LocalizedView,
}

impl View for SubscriptionSetResult {
    type V = SubscriptionSetResultView;

    open spec fn view(&self) -> SubscriptionSetResultView {
        SubscriptionSetResultView {
            accepted: self.accepted,
            error: self.error@,
        }
    }
}

impl Clone for SubscriptionSetResult {
    fn clone(&self) -> (copy: Self)
        ensures
            copy@ == self@,
    {
        SubscriptionSetResult {
            accepted: self.accepted,
            error: self.error.clone(),
        }
    }
}

/// A plugin that finds wallpapers in local libraries.
#[derive(Debug)]
pub struct SourcePluginInfo {
    pub name: String,
    /// The id of the package that brought the plugin.
    pub plugin_id: String,
    pub types: Vec<String>,
    pub version: String,
    pub library_label: LocalizedText,
    pub library_hint: LocalizedText,
    pub settings: Vec<SourceSetting>,
}

pub struct SourcePluginInfoView {
    pub name: Seq<char>,
    pub plugin_id: Seq<char>,
    pub types: Seq<Seq<char>>,
    pub version: Seq<char>,
    pub library_label: LocalizedView,
    pub library_hint: LocalizedView,
    pub settings: Seq<SourceSettingView>,
}

impl View for SourcePluginInfo {
    type V = SourcePluginInfoView;

    open spec fn view(&self) -> SourcePluginInfoView {
        SourcePluginInfoView {
            name: self.name@,
            plugin_id: self.plugin_id@,
            types: views(self.types@),
            version: self.version@,
            library_label: self.library_label@,
            library_hint: self.library_hint@,
            settings: views(self.settings@),
        }
    }
}

impl Clone for SourcePluginInfo {
    fn clone(&self) -> (copy: Self)
        ensures
            copy@ == self@,
    {
        SourcePluginInfo {
            name: self.name.clone(),
            plugin_id: self.plugin_id.clone(),
            types: copy_texts(&self.types),
            version: self.version.clone(),
            library_label: self.library_label.clone(),
            library_hint: self.library_hint.clone(),
            settings: copy_list(&self.settings),
        }
    }
}

/// A plugin that browses remote wallpapers.
#[derive(Debug)]
pub struct DiscoverSourceInfo {
    /// The name by which the plugin is addressed.
    pub plugin_id: String,
    pub name: String,
    pub display_name: LocalizedText,
    pub supports_search: bool,
    pub remote_capability: Option<RemoteCapability>,
    pub remote_hint: LocalizedText,
    pub sorts: Vec<DiscoverSort>,
    pub filters: Vec<DiscoverFilter>,
    /// The id of the package that brought the plugin.
    pub owner_plugin_id: String,
    pub settings: Vec<SourceSetting>,
    pub actions: Vec<SourceAction>,
    pub status: Vec<SourceStatus>,
    pub avatar_url: String,
}

pub struct DiscoverSourceInfoView {
    pub plugin_id: Seq<char>,
    pub name: Seq<char>,
    pub display_name: LocalizedView,
    pub supports_search: bool,
    pub remote_capability: Option<RemoteCapability>,
    pub remote_hint: LocalizedView,
    pub sorts: Seq<DiscoverSortView>,
    pub filters: Seq<DiscoverFilterView>,
    pub owner_plugin_id: Seq<char>,
    pub settings: Seq<SourceSettingView>,
    pub actions: Seq<SourceActionView>,
    pub status: Seq<SourceStatusView>,
    pub avatar_url: Seq<char>,
}

impl View for DiscoverSourceInfo {
    type V = DiscoverSourceInfoView;

    open spec fn view(&self) -> DiscoverSourceInfoView {
        DiscoverSourceInfoView {
            plugin_id: self.plugin_id@,
            name: self.name@,
            display_name: self.display_name@,
            supports_search: self.supports_search,
            remote_capability: self.remote_capability,
            remote_hint: self.remote_hint@,
            sorts: views(self.sorts@),
            filters: views(self.filters@),
            owner_plugin_id: self.owner_plugin_id@,
            settings: views(self.settings@),
            actions: views(self.actions@),
            status: views(self.status@),
            avatar_url: self.avatar_url@,
        }
    }
}

impl Clone for DiscoverSourceInfo {
    fn clone(&self) -> (copy: Self)
        ensures
            copy@ == self@,
    {
        DiscoverSourceInfo {
            plugin_id: self.plugin_id.clone(),
            name: self.name.clone(),
            display_name: self.display_name.clone(),
            supports_search: self.supports_search,
            remote_capability: self.remote_capability,
            remote_hint: self.remote_hint.clone(),
            sorts: copy_list(&self.sorts),
            filters: copy_list(&self.filters),
            owner_plugin_id: self.owner_plugin_id.clone(),
            settings: copy_list(&self.settings),
            actions: copy_list(&self.actions),
            status: copy_list(&self.status),
            avatar_url: self.avatar_url.clone(),
        }
    }
}

/// What is said of a `WallpaperApply` is said of its own fields.
pub proof fn law_wallpaper_apply_in_contracts(apply: WallpaperApply)
    ensures
        apply@.extras == texts_of(apply.extras@),
        apply@.default_user_properties == texts_of(apply.default_user_properties@),
{
}

/// What is said of a `DiscoverItem` is said of its own fields.
pub proof fn law_discover_item_in_contracts(item: DiscoverItem)
    ensures
        item@.id == item.id@,
        item@.title == item.title@,
        item@.preview_url == item.preview_url@,
        item@.author == item.author@,
        item@.wp_type == item.wp_type@,
        item@.extra == texts_of(item.extra@),
{
}

/// What is said of a `DiscoverSearchResult` is said of its own fields.
pub proof fn law_discover_search_result_in_contracts(result: DiscoverSearchResult)
    ensures
        result@.items == views(result.items@),
        result@.has_more == result.has_more,
{
}

/// What is said of a `DiscoverDetails` is said of its own fields.
pub proof fn law_discover_details_in_contracts(details: DiscoverDetails)
    ensures
        details@.author == details.author@,
        details@.description == details.description@,
        details@.size == details.size@,
        details@.width == details.width,
        details@.height == details.height,
        details@.tags == views(details.tags@),
        details@.web_url == details.web_url@,
        details@.extra == texts_of(details.extra@),
{
}

/// What is said of a `DiscoverDownload` is said of its own fields.
pub proof fn law_discover_download_in_contracts(download: DiscoverDownload)
    ensures
        download@.wp_type == download.wp_type@,
        download@.url == download.url@,
        download@.filename == download.filename@,
        download@.title == download.title@,
        download@.preview_url == download.preview_url@,
        download@.description == download.description@,
        download@.tags == views(download.tags@),
        download@.external_id == download.external_id@,
        download@.web_url == download.web_url@,
        download@.size == download.size,
        download@.width == download.width,
        download@.height == download.height,
        download@.content_rating == view_of(download.content_rating),
{
}

/// What is said of a `DiscoverResolve` is said of its own fields.
pub proof fn law_discover_resolve_in_contracts(resolve: DiscoverResolve)
    ensures
        resolve@.name == resolve.name@,
        resolve@.wp_type == resolve.wp_type@,
        resolve@.resource == resolve.resource@,
        resolve@.preview == view_of(resolve.preview),
        resolve@.description == resolve.description@,
        resolve@.tags == views(resolve.tags@),
        resolve@.external_id == resolve.external_id@,
        resolve@.size == resolve.size,
        resolve@.content_rating == view_of(resolve.content_rating),
{
}

/// What is said of a `PluginLifecycleCheck` is said of its own fields.
pub proof fn law_plugin_lifecycle_check_in_contracts(check: PluginLifecycleCheck)
    ensures
        check@.state == check.state,
        check@.display_value == check.display_value@,
        check@.error == check.error@,
        check@.avatar_url == check.avatar_url@,
{
}

/// What is said of a `QrLoginBegin` is said of its own fields.
pub proof fn law_qr_login_begin_in_contracts(begin: QrLoginBegin)
    ensures
        begin@.operation_id == begin.operation_id,
        begin@.challenge == begin.challenge@,
        begin@.poll_after_ms == begin.poll_after_ms,
        begin@.expires_in_ms == begin.expires_in_ms,
        begin@.title == begin.title@,
        begin@.instruction == begin.instruction@,
{
}

/// What is said of a `QrLoginPoll` is said of its own fields.
pub proof fn law_qr_login_poll_in_contracts(poll: QrLoginPoll)
    ensures
        poll@.state == poll.state,
        poll@.challenge == poll.challenge@,
        poll@.poll_after_ms == poll.poll_after_ms,
        poll@.display_value == poll.display_value@,
        poll@.error == poll.error@,
{
}

/// What is said of a `SubscriptionItemState` is said of its own fields.
pub proof fn law_subscription_item_state_in_contracts(state: SubscriptionItemState)
    ensures
        state@.id == state.id@,
        state@.state == state.state,
{
}

/// What is said of a `SubscriptionStatusResult` is said of its own fields.
pub proof fn law_subscription_status_result_in_contracts(result: SubscriptionStatusResult)
    ensures
        result@.items == views(result.items@),
        result@.error == result.error@,
{
}

/// What is said of a `SubscriptionSetResult` is said of its own fields.
pub proof fn law_subscription_set_result_in_contracts(result: SubscriptionSetResult)
    ensures
        result@.accepted == result.accepted,
        result@.error == result.error@,
{
}

/// What is said of a `SourcePluginInfo` is said of its own fields.
pub proof fn law_source_plugin_info_in_contracts(info: SourcePluginInfo)
    ensures
        info@.name == info.name@,
        info@.plugin_id == info.plugin_id@,
        info@.types == views(info.types@),
        info@.version == info.version@,
        info@.library_label == info.library_label@,
        info@.library_hint == info.library_hint@,
        info@.settings == views(info.settings@),
{
}

/// What is said of a `DiscoverSourceInfo` is said of its own fields.
pub proof fn law_discover_source_info_in_contracts(info: DiscoverSourceInfo)
    ensures
        info@.plugin_id == info.plugin_id@,
        info@.name == info.name@,
        info@.display_name == info.display_name@,
        info@.supports_search == info.supports_search,
        info@.remote_capability == info.remote_capability,
        info@.remote_hint == info.remote_hint@,
        info@.sorts == views(info.sorts@),
        info@.filters == views(info.filters@),
        info@.owner_plugin_id == info.owner_plugin_id@,
        info@.settings == views(info.settings@),
        info@.actions == views(info.actions@),
        info@.status == views(info.status@),
        info@.avatar_url == info.avatar_url@,
{
}

} // verus!
