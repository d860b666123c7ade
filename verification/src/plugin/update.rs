//! Whether a later version of a plugin is to be had.
use vstd::prelude::*;
use crate::map::TextMap;
use crate::plugin::renderer_registry::PluginPackageMeta;
use crate::plugin::source::entry;
use crate::plugin::source::entry::{supports_entry_version, SUPPORTED_TEXT};
use crate::plugin::version;
use crate::plugin::version::order_versions;
use crate::renderer_manager::SPAWN_VERSION;
use crate::text;
use crate::text::{decimal_u64, join_texts, same, Order};

verus! {

#[derive(Debug, PartialEq, Eq)]
pub struct PluginUpdatePackage {
    pub zip_url: String,
    pub sha256: String,
}

impl Clone for PluginUpdatePackage {
    fn clone(&self) -> (copy: Self)
        ensures
            copy == *self,
    {
        PluginUpdatePackage { zip_url: self.zip_url.clone(), sha256: self.sha256.clone() }
    }
}

/// What the maker of a plugin announces.
#[derive(Debug, PartialEq, Eq)]
pub struct PluginUpdateManifest {
    pub version: String,
    pub entry_version: u32,
    pub spawn_version: u32,
    pub x86_64: Option<PluginUpdatePackage>,
    pub aarch64: Option<PluginUpdatePackage>,
}

impl PluginUpdateManifest {
    pub open spec fn package(self, arch: Seq<char>) -> Option<PluginUpdatePackage> {
        if arch == "x86_64"@ {
            self.x86_64
        } else if arch == "aarch64"@ {
            self.aarch64
        } else {
            None
        }
    }

    /// The package for a processor architecture.
    pub fn package_for_arch(&self, arch: &str) -> (r: Option<PluginUpdatePackage>)
        ensures
            r == self.package(arch@),
    {
        let package = if same(arch, "x86_64") {
            &self.x86_64
        } else if same(arch, "aarch64") {
            &self.aarch64
        } else {
            return None;
        };
        match package {
            Some(package) => Some(package.clone()),
            None => None,
        }
    }
}

#[derive(Clone, Copy, Debug, PartialEq, Eq, Structural)]
pub enum PluginUpdateState {
    Unknown,
    NoUrl,
    Checking,
    UpToDate,
    Available,
    Failed,
    Unsupported,
}

#[derive(Debug, PartialEq, Eq)]
pub struct PluginUpdateInfo {
    pub plugin_id: String,
    pub state: PluginUpdateState,
    pub latest_version: String,
    pub zip_url: String,
    pub sha256: String,
    pub error: String,
    pub checked_at_ms: i64,
}

pub struct UpdateView {
    pub plugin_id: Seq<char>,
    pub state: PluginUpdateState,
    pub latest_version: Seq<char>,
    pub zip_url: Seq<char>,
    pub sha256: Seq<char>,
    pub error: Seq<char>,
    pub checked_at_ms: i64,
}

impl View for PluginUpdateInfo {
    type V = UpdateView;

    open spec fn view(&self) -> UpdateView {
        UpdateView {
            plugin_id: self.plugin_id@,
            state: self.state,
            latest_version: self.latest_version@,
            zip_url: self.zip_url@,
            sha256: self.sha256@,
            error: self.error@,
            checked_at_ms: self.checked_at_ms,
        }
    }
}

impl Clone for PluginUpdateInfo {
    fn clone(&self) -> (copy: Self)
        ensures
            copy == *self,
    {
        PluginUpdateInfo {
            plugin_id: self.plugin_id.clone(),
            state: self.state,
            latest_version: self.latest_version.clone(),
            zip_url: self.zip_url.clone(),
            sha256: self.sha256.clone(),
            error: self.error.clone(),
            checked_at_ms: self.checked_at_ms,
        }
    }
}

/// A state without anything more to say.
pub open spec fn plain(id: Seq<char>, state: PluginUpdateState, checked_at_ms: i64) -> UpdateView {
    UpdateView {
        plugin_id: id,
        state,
        latest_version: Seq::empty(),
        zip_url: Seq::empty(),
        sha256: Seq::empty(),
        error: Seq::empty(),
        checked_at_ms,
    }
}

fn plain_info(id: &str, state: PluginUpdateState, checked_at_ms: i64) -> (info: PluginUpdateInfo)
    ensures
        info@ == plain(id@, state, checked_at_ms),
{
    PluginUpdateInfo {
        plugin_id: id.to_owned(),
        state,
        latest_version: String::new(),
        zip_url: String::new(),
        sha256: String::new(),
        error: String::new(),
        checked_at_ms,
    }
}

/// The plugin says where its updates are announced.
pub open spec fn has_url(pkg: PluginPackageMeta) -> bool {
    pkg.update matches Some(url) && url@.len() > 0
}

fn announces(pkg: &PluginPackageMeta) -> (r: bool)
    ensures
        r == has_url(*pkg),
{
    match &pkg.update {
        Some(url) => !url.as_str().is_empty(),
        None => false,
    }
}

pub open spec fn default_view(pkg: PluginPackageMeta) -> UpdateView {
    plain(
        pkg.id@,
        if has_url(pkg) {
            PluginUpdateState::Unknown
        } else {
            PluginUpdateState::NoUrl
        },
        0,
    )
}

/// What is known of a plugin that was never checked.
pub fn default_info(pkg: &PluginPackageMeta) -> (info: PluginUpdateInfo)
    ensures
        info@ == default_view(*pkg),
{
    let state = if announces(pkg) {
        PluginUpdateState::Unknown
    } else {
        PluginUpdateState::NoUrl
    };
    plain_info(pkg.id.as_str(), state, 0)
}

/// The same package is offered.
pub open spec fn same_offer(a: UpdateView, b: UpdateView) -> bool {
    a.latest_version == b.latest_version && a.zip_url == b.zip_url && a.sha256 == b.sha256
}

/// An update is on offer now that was not on offer before.
pub open spec fn newly_available(previous: Option<UpdateView>, current: UpdateView) -> bool {
    current.state == PluginUpdateState::Available && !(previous matches Some(p) && p.state
        == PluginUpdateState::Available && same_offer(p, current))
}

pub fn became_available(
    previous: Option<&PluginUpdateInfo>,
    current: &PluginUpdateInfo,
) -> (r: bool)
    ensures
        r == newly_available(text::view_of(previous), current@),
{
    if current.state != PluginUpdateState::Available {
        return false;
    }
    match previous {
        Some(prev) => !(prev.state == PluginUpdateState::Available && same(
            prev.latest_version.as_str(),
            current.latest_version.as_str(),
        ) && same(prev.zip_url.as_str(), current.zip_url.as_str()) && same(
            prev.sha256.as_str(),
            current.sha256.as_str(),
        )),
        None => true,
    }
}

/// An update is announced once: what was announced is not new again, at
/// whatever time it is checked, until another package is on offer.
pub proof fn law_announced_once(
    previous: Option<UpdateView>,
    current: UpdateView,
    later: UpdateView,
)
    requires
        newly_available(previous, current),
        later.state == current.state,
    ensures
        newly_available(Some(current), later) <==> !same_offer(current, later),
{
}

/// What the store holds of the plugin, or what is known of one never checked.
pub fn snapshot_for_package(store: &TextMap<PluginUpdateInfo>, pkg: &PluginPackageMeta) -> (info:
    PluginUpdateInfo)
    requires
        store.wf(),
    ensures
        info@ == (if store@.contains_key(pkg.id@) {
            store@[pkg.id@]@
        } else {
            default_view(*pkg)
        }),
{
    match store.get(pkg.id.as_str()) {
        Some(info) => info.clone(),
        None => default_info(pkg),
    }
}

// ---------------------------------------------------------------------------
// Checks

pub open spec fn checking_view(pkg: PluginPackageMeta) -> UpdateView {
    plain(pkg.id@, PluginUpdateState::Checking, 0)
}

pub fn checking_info(pkg: &PluginPackageMeta) -> (info: PluginUpdateInfo)
    ensures
        info@ == checking_view(*pkg),
{
    plain_info(pkg.id.as_str(), PluginUpdateState::Checking, 0)
}

pub open spec fn no_url_view(pkg: PluginPackageMeta, now_ms: i64) -> UpdateView {
    plain(pkg.id@, PluginUpdateState::NoUrl, now_ms)
}

pub fn no_url_info(pkg: &PluginPackageMeta, now_ms: i64) -> (info: PluginUpdateInfo)
    ensures
        info@ == no_url_view(*pkg, now_ms),
{
    plain_info(pkg.id.as_str(), PluginUpdateState::NoUrl, now_ms)
}

/// What the store holds while a plugin is being checked.
pub open spec fn started_view(pkg: PluginPackageMeta, now_ms: i64) -> UpdateView {
    if has_url(pkg) {
        checking_view(pkg)
    } else {
        no_url_view(pkg, now_ms)
    }
}

/// The views of the entries of a store.
pub open spec fn store_view(store: Map<Seq<char>, PluginUpdateInfo>) -> Map<Seq<char>, UpdateView> {
    store.map_values(|info: PluginUpdateInfo| info@)
}

/// The store after the checks of some plugins were started.
pub open spec fn started(
    store: Map<Seq<char>, UpdateView>,
    packages: Seq<PluginPackageMeta>,
    now_ms: i64,
) -> Map<Seq<char>, UpdateView>
    decreases packages.len(),
{
    if packages.len() == 0 {
        store
    } else {
        started(store, packages.drop_last(), now_ms).insert(
            packages.last().id@,
            started_view(packages.last(), now_ms),
        )
    }
}

pub open spec fn package_ids(packages: Seq<PluginPackageMeta>) -> Seq<Seq<char>> {
    packages.map_values(|pkg: PluginPackageMeta| pkg.id@)
}

/// Marks plugins as being checked. Only if `retain_missing` is set are the
/// plugins that are not among them forgotten.
pub fn start_checks(
    store: &mut TextMap<PluginUpdateInfo>,
    packages: &Vec<PluginPackageMeta>,
    retain_missing: bool,
    now_ms: i64,
)
    requires
        old(store).wf(),
    ensures
        final(store).wf(),
        store_view(final(store)@) == started(
            if retain_missing {
                store_view(old(store)@).restrict(package_ids(packages@).to_set())
            } else {
                store_view(old(store)@)
            },
            packages@,
            now_ms,
        ),
{
    let ghost start = store_view(store@);
    if retain_missing {
        let mut ids: Vec<String> = Vec::new();
        let mut i: usize = 0;
        while i < packages.len()
            invariant
                i <= packages@.len(),
                text::views(ids@) == package_ids(packages@).take(i as int),
            decreases packages@.len() - i,
        {
            let id = packages[i].id.clone();
            proof {
                text::lemma_views_push(ids@, id);
                assert(package_ids(packages@).take(i + 1) =~= package_ids(packages@).take(
                    i as int,
                ).push(id@));
            }
            ids.push(id);
            i = i + 1;
        }
        assert(package_ids(packages@).take(i as int) =~= package_ids(packages@));
        store.retain_keys(&ids);
        assert(store_view(store@) =~= start.restrict(package_ids(packages@).to_set()));
    }
    let ghost base = store_view(store@);
    let mut i: usize = 0;
    assert(packages@.take(0) =~= Seq::<PluginPackageMeta>::empty());
    while i < packages.len()
        invariant
            i <= packages@.len(),
            store.wf(),
            store_view(store@) == started(base, packages@.take(i as int), now_ms),
        decreases packages@.len() - i,
    {
        let pkg = &packages[i];
        let info = if announces(pkg) {
            checking_info(pkg)
        } else {
            no_url_info(pkg, now_ms)
        };
        let ghost before = store@;
        proof {
            assert(packages@.take(i + 1).drop_last() =~= packages@.take(i as int));
            assert(packages@.take(i + 1).last() == *pkg);
            assert(store_view(before.insert(pkg.id@, info)) =~= store_view(before).insert(
                pkg.id@,
                info@,
            ));
        }
        store.insert(pkg.id.clone(), info);
        i = i + 1;
    }
    assert(packages@.take(i as int) =~= packages@);
}

/// Plugins that are not checked keep what the store held of them, unless they
/// are to be forgotten.
pub proof fn law_partial_check_keeps_others(
    store: Map<Seq<char>, UpdateView>,
    packages: Seq<PluginPackageMeta>,
    now_ms: i64,
    id: Seq<char>,
)
    requires
        !package_ids(packages).contains(id),
    ensures
        started(store, packages, now_ms).contains_key(id) <==> store.contains_key(id),
        store.contains_key(id) ==> started(store, packages, now_ms)[id] == store[id],
        !started(
            store.restrict(package_ids(packages).to_set()),
            packages,
            now_ms,
        ).contains_key(id),
    decreases packages.len(),
{
    if packages.len() > 0 {
        let before = packages.drop_last();
        assert(package_ids(packages)[packages.len() - 1] == packages.last().id@);
        lemma_others_kept(store, before, now_ms, id, packages);
        lemma_others_kept(
            store.restrict(package_ids(packages).to_set()),
            before,
            now_ms,
            id,
            packages,
        );
    }
}

proof fn lemma_others_kept(
    store: Map<Seq<char>, UpdateView>,
    some: Seq<PluginPackageMeta>,
    now_ms: i64,
    id: Seq<char>,
    all: Seq<PluginPackageMeta>,
)
    requires
        some.len() <= all.len(),
        some == all.take(some.len() as int),
        !package_ids(all).contains(id),
    ensures
        started(store, some, now_ms).contains_key(id) <==> store.contains_key(id),
        store.contains_key(id) ==> started(store, some, now_ms)[id] == store[id],
    decreases some.len(),
{
    if some.len() > 0 {
        let n = some.len() as int;
        assert(package_ids(all)[n - 1] == some.last().id@);
        assert(some.drop_last() =~= all.take(n - 1));
        lemma_others_kept(store, some.drop_last(), now_ms, id, all);
    }
}

// ---------------------------------------------------------------------------
// Announcements

pub open spec fn unsupported_view(
    pkg: PluginPackageMeta,
    latest: Seq<char>,
    error: Seq<char>,
    at_ms: i64,
) -> UpdateView {
    UpdateView {
        latest_version: latest,
        error,
        ..plain(pkg.id@, PluginUpdateState::Unsupported, at_ms)
    }
}

/// What an announcement means for an installed plugin: nothing unless it is
/// of a later version; an update that cannot be taken without a package for
/// the architecture or with contracts that are not served; else one on offer.
pub open spec fn announced(
    pkg: PluginPackageMeta,
    manifest: PluginUpdateManifest,
    arch: Seq<char>,
    at_ms: i64,
) -> UpdateView {
    let latest = manifest.version@;
    if !(version::version_order(latest, pkg.version@) is Greater) {
        UpdateView { latest_version: latest, ..plain(pkg.id@, PluginUpdateState::UpToDate, at_ms) }
    } else if manifest.package(arch) is None {
        unsupported_view(pkg, latest, "no package for "@ + arch, at_ms)
    } else if !entry::served(manifest.entry_version) {
        unsupported_view(
            pkg,
            latest,
            "entry_version "@ + text::decimal(manifest.entry_version as int)
                + " is unsupported; supported versions are "@ + SUPPORTED_TEXT@,
            at_ms,
        )
    } else if manifest.spawn_version != SPAWN_VERSION {
        unsupported_view(
            pkg,
            latest,
            "spawn_version "@ + text::decimal(manifest.spawn_version as int)
                + " is unsupported; expected "@ + text::decimal(SPAWN_VERSION as int),
            at_ms,
        )
    } else {
        UpdateView {
            latest_version: latest,
            zip_url: manifest.package(arch)->0.zip_url@,
            sha256: manifest.package(arch)->0.sha256@,
            ..plain(pkg.id@, PluginUpdateState::Available, at_ms)
        }
    }
}

pub fn unsupported_info(
    pkg: &PluginPackageMeta,
    latest_version: String,
    error: String,
    checked_at_ms: i64,
) -> (info: PluginUpdateInfo)
    ensures
        info@ == unsupported_view(*pkg, latest_version@, error@, checked_at_ms),
{
    PluginUpdateInfo {
        latest_version,
        error,
        ..plain_info(pkg.id.as_str(), PluginUpdateState::Unsupported, checked_at_ms)
    }
}

/// Reads an announcement for the architecture that the daemon runs on.
pub fn info_from_manifest(
    pkg: &PluginPackageMeta,
    manifest: PluginUpdateManifest,
    arch: &str,
    checked_at_ms: i64,
) -> (info: PluginUpdateInfo)
    ensures
        info@ == announced(*pkg, manifest, arch@, checked_at_ms),
        info.plugin_id@ == pkg.id@,
        info.latest_version@ == manifest.version@,
        info.checked_at_ms == checked_at_ms,
        info.state == PluginUpdateState::Available && arch@ == "x86_64"@ ==> (
        manifest.x86_64 matches Some(package) && info.zip_url@ == package.zip_url@ && info.sha256@
            == package.sha256@),
        info.state == PluginUpdateState::Available && arch@ == "aarch64"@ ==> (
        manifest.aarch64 matches Some(package) && info.zip_url@ == package.zip_url@ && info.sha256@
            == package.sha256@),
        info.state != PluginUpdateState::Available ==> info.zip_url@.len() == 0
            && info.sha256@.len() == 0,
{
    proof {
        lemma_arch_names();
    }
    if order_versions(manifest.version.as_str(), pkg.version.as_str()) != Order::Greater {
        return PluginUpdateInfo {
            latest_version: manifest.version,
            ..plain_info(pkg.id.as_str(), PluginUpdateState::UpToDate, checked_at_ms)
        };
    }
    let package = match manifest.package_for_arch(arch) {
        Some(package) => package,
        None => {
            let mut error = "no package for ".to_owned();
            error.append(arch);
            return unsupported_info(pkg, manifest.version, error, checked_at_ms);
        },
    };
    if !supports_entry_version(manifest.entry_version) {
        let mut error = "entry_version ".to_owned();
        let number = decimal_u64(manifest.entry_version as u64);
        error.append(number.as_str());
        error.append(" is unsupported; supported versions are ");
        error.append(SUPPORTED_TEXT);
        return unsupported_info(pkg, manifest.version, error, checked_at_ms);
    }
    if manifest.spawn_version != SPAWN_VERSION {
        let mut error = "spawn_version ".to_owned();
        let number = decimal_u64(manifest.spawn_version as u64);
        error.append(number.as_str());
        error.append(" is unsupported; expected ");
        let expected = decimal_u64(SPAWN_VERSION as u64);
        error.append(expected.as_str());
        return unsupported_info(pkg, manifest.version, error, checked_at_ms);
    }
    PluginUpdateInfo {
        latest_version: manifest.version,
        zip_url: package.zip_url,
        sha256: package.sha256,
        ..plain_info(pkg.id.as_str(), PluginUpdateState::Available, checked_at_ms)
    }
}

/// What a check comes to, given what was fetched.
pub open spec fn checked_view(
    pkg: PluginPackageMeta,
    fetched: Result<PluginUpdateManifest, String>,
    arch: Seq<char>,
    at_ms: i64,
) -> UpdateView {
    if !has_url(pkg) {
        no_url_view(pkg, at_ms)
    } else {
        match fetched {
            Ok(manifest) => announced(pkg, manifest, arch, at_ms),
            Err(error) => UpdateView {
                error: error@,
                ..plain(pkg.id@, PluginUpdateState::Failed, at_ms)
            },
        }
    }
}

/// Ends the check of one plugin and enters the outcome into the store.
pub fn finish_check(
    store: &mut TextMap<PluginUpdateInfo>,
    pkg: &PluginPackageMeta,
    fetched: Result<PluginUpdateManifest, String>,
    arch: &str,
    checked_at_ms: i64,
) -> (info: PluginUpdateInfo)
    requires
        old(store).wf(),
    ensures
        final(store).wf(),
        info@ == checked_view(*pkg, fetched, arch@, checked_at_ms),
        store_view(final(store)@) == store_view(old(store)@).insert(pkg.id@, info@),
{
    let info = if !announces(pkg) {
        no_url_info(pkg, checked_at_ms)
    } else {
        match fetched {
            Ok(manifest) => info_from_manifest(pkg, manifest, arch, checked_at_ms),
            Err(error) => PluginUpdateInfo {
                error,
                ..plain_info(pkg.id.as_str(), PluginUpdateState::Failed, checked_at_ms)
            },
        }
    };
    let ghost before = store@;
    store.insert(pkg.id.clone(), info.clone());
    assert(store_view(store@) =~= store_view(before).insert(pkg.id@, info@));
    info
}

// ---------------------------------------------------------------------------
// Where announcements are fetched from

/// The host of a URL as `url::Url` reads it.
pub uninterp spec fn url_host(url: Seq<char>) -> Option<Seq<char>>;

/// The segments of a URL's path as `url::Url` reads them.
pub uninterp spec fn url_segments(url: Seq<char>) -> Option<Seq<Seq<char>>>;

/// A URL with its path replaced, as `url::Url` writes it.
pub uninterp spec fn url_with_path(url: Seq<char>, path: Seq<char>) -> Option<Seq<char>>;

/// Every URL with fewer characters can be counted in 32 bits in any form that it
/// is written in: a character takes at most twelve bytes.
pub const MAX_URL: usize = 0x1000_0000;

/// `Url::parse` and `Url::host_str`: the host depends on the text alone. There
/// is none where the text is no URL.
#[verifier::external_body]
fn host_of(url: &str) -> (host: Option<String>)
    ensures
        text::view_of(host) == url_host(url@),
{
    let parsed = reqwest::Url::parse(url).ok()?;
    parsed.host_str().map(str::to_owned)
}

/// `Url::parse` and `Url::path_segments`: the segments depend on the text
/// alone. A path that starts with a slash has at least one segment.
#[verifier::external_body]
fn segments_of(url: &str) -> (segments: Option<Vec<String>>)
    ensures
        match segments {
            Some(list) => url_segments(url@) == Some(text::views(list@)) && list@.len() >= 1,
            None => url_segments(url@) is None,
        },
{
    let parsed = reqwest::Url::parse(url).ok()?;
    let segments = parsed.path_segments()?;
    Some(segments.map(str::to_owned).collect())
}

/// `Url::parse` and `Url::set_path`: the new URL depends on the two texts
/// alone. The URL is limited in length, and the path is made of its own
/// segments, because `set_path` panics where the URL would no longer be
/// countable in 32 bits.
#[verifier::external_body]
fn with_path(url: &str, path: &str) -> (r: Option<String>)
    requires
        url@.len() < MAX_URL,
        raw_path(url_host(url@), url_segments(url@)) == Some(path@),
    ensures
        text::view_of(r) == url_with_path(url@, path@),
{
    let mut parsed = reqwest::Url::parse(url).ok()?;
    parsed.set_path(path);
    Some(parsed.into())
}

/// The path under which a file shown on a page of a GitHub repository can be
/// fetched itself.
pub open spec fn raw_path(
    host: Option<Seq<char>>,
    segments: Option<Seq<Seq<char>>>,
) -> Option<Seq<char>> {
    match (host, segments) {
        (Some(host), Some(s)) => if host == "github.com"@ && s.len() >= 5 && s[0].len() > 0
            && s[1].len() > 0 && s[2] == "blob"@ && s[3].len() > 0 {
            Some(
                "/"@ + text::join(
                    seq![s[0], s[1], "raw"@, "refs"@, "heads"@, s[3]] + s.skip(4),
                    "/"@,
                ),
            )
        } else {
            None
        },
        _ => None,
    }
}

/// The URL that an announcement is fetched from.
pub open spec fn fetch_url(url: Seq<char>) -> Seq<char> {
    match raw_path(url_host(url), url_segments(url)) {
        Some(path) => match url_with_path(url, path) {
            Some(raw) => raw,
            None => url,
        },
        None => url,
    }
}

/// The path of the file itself, given how a page's URL was read.
pub fn raw_file_path(host: &Option<String>, segments: &Option<Vec<String>>) -> (r: Option<String>)
    ensures
        text::view_of(r) == raw_path(
            text::view_of(*host),
            match *segments {
                Some(list) => Some(text::views(list@)),
                None => None,
            },
        ),
{
    match (host, segments) {
        (Some(host), Some(s)) => {
            if !same(host.as_str(), "github.com") || s.len() < 5 || s[0].as_str().is_empty()
                || s[1].as_str().is_empty() || !same(s[2].as_str(), "blob")
                || s[3].as_str().is_empty() {
                return None;
            }
            let mut raw: Vec<String> = Vec::new();
            raw.push(s[0].clone());
            raw.push(s[1].clone());
            raw.push("raw".to_owned());
            raw.push("refs".to_owned());
            raw.push("heads".to_owned());
            raw.push(s[3].clone());
            let ghost head = seq![s@[0]@, s@[1]@, "raw"@, "refs"@, "heads"@, s@[3]@];
            assert(text::views(raw@) =~= head);
            let mut i: usize = 4;
            assert(head + text::views(s@).subrange(4, 4) =~= head);
            while i < s.len()
                invariant
                    4 <= i <= s@.len(),
                    text::views(raw@) == head + text::views(s@).subrange(4, i as int),
                decreases s@.len() - i,
            {
                proof {
                    text::lemma_views_push(raw@, s@[i as int]);
                    assert(head + text::views(s@).subrange(4, i + 1) =~= (head + text::views(
                        s@,
                    ).subrange(4, i as int)).push(s@[i as int]@));
                }
                raw.push(s[i].clone());
                i = i + 1;
            }
            assert(text::views(s@).subrange(4, i as int) =~= text::views(s@).skip(4));
            let mut path = "/".to_owned();
            let rest = join_texts(&raw, "/");
            path.append(rest.as_str());
            Some(path)
        },
        _ => None,
    }
}

/// Turns the URL of a file's page on GitHub into that of the file itself;
/// every other URL stays.
pub fn normalize_update_manifest_url(url: &str) -> (r: String)
    requires
        url@.len() < MAX_URL,
    ensures
        r@ == fetch_url(url@),
{
    let host = host_of(url);
    let segments = segments_of(url);
    match raw_file_path(&host, &segments) {
        Some(path) => match with_path(url, path.as_str()) {
            Some(raw) => raw,
            None => url.to_owned(),
        },
        None => url.to_owned(),
    }
}

// ---------------------------------------------------------------------------
// Laws on announcements

/// An update is offered only of a release that comes after the installed one,
/// that is written for contracts served here, and that has a package for the
/// machine.
pub proof fn law_offer_is_newer_and_served(
    pkg: PluginPackageMeta,
    manifest: PluginUpdateManifest,
    arch: Seq<char>,
    at_ms: i64,
)
    requires
        announced(pkg, manifest, arch, at_ms).state == PluginUpdateState::Available,
    ensures
        version::version_order(manifest.version@, pkg.version@) is Greater,
        entry::served(manifest.entry_version),
        manifest.spawn_version == SPAWN_VERSION,
        manifest.package(arch) is Some,
{
}

proof fn lemma_arch_names()
    ensures
        "x86_64"@ != "aarch64"@,
{
    reveal_strlit("x86_64");
    reveal_strlit("aarch64");
    assert("x86_64"@.len() != "aarch64"@.len());
}

/// An announcement has a package for an architecture exactly where it lists one
/// under the name of the architecture.
pub proof fn law_package_of_architecture(manifest: PluginUpdateManifest, arch: Seq<char>)
    ensures
        arch == "x86_64"@ ==> manifest.package(arch) == manifest.x86_64,
        arch == "aarch64"@ ==> manifest.package(arch) == manifest.aarch64,
        arch != "x86_64"@ && arch != "aarch64"@ ==> manifest.package(arch) is None,
{
    lemma_arch_names();
}

/// An update is offered exactly where the announced version is later, the
/// announcement lists a package for the architecture, and the release of the
/// entry contract and that of the spawn contract are served. What is offered
/// are the announced version and the address and the digest of that package.
pub proof fn law_what_is_offered(
    pkg: PluginPackageMeta,
    manifest: PluginUpdateManifest,
    arch: Seq<char>,
    at_ms: i64,
)
    ensures
        ({
            let info = announced(pkg, manifest, arch, at_ms);
            let package = if arch == "x86_64"@ {
                manifest.x86_64
            } else if arch == "aarch64"@ {
                manifest.aarch64
            } else {
                None
            };
            &&& info.state == PluginUpdateState::Available <==> {
                &&& version::version_order(manifest.version@, pkg.version@) is Greater
                &&& package is Some
                &&& manifest.entry_version == 3 || manifest.entry_version == 4
                &&& manifest.spawn_version == SPAWN_VERSION
            }
            &&& info.state == PluginUpdateState::Available ==> info.zip_url == package->0.zip_url@
                && info.sha256 == package->0.sha256@ && info.error.len() == 0
            &&& info.state == PluginUpdateState::UpToDate <==> !(version::version_order(
                manifest.version@,
                pkg.version@,
            ) is Greater)
            &&& info.state == PluginUpdateState::UpToDate ==> info.error.len() == 0
            &&& info.state == PluginUpdateState::Available || info.state
                == PluginUpdateState::UpToDate || info.state == PluginUpdateState::Unsupported
            &&& info.state != PluginUpdateState::Available ==> info.zip_url.len() == 0
                && info.sha256.len() == 0
            &&& info.state == PluginUpdateState::Unsupported ==> info.error.len() > 0
            &&& info.latest_version == manifest.version@
            &&& info.plugin_id == pkg.id@
            &&& info.checked_at_ms == at_ms
        }),
{
    lemma_arch_names();
    reveal_strlit("no package for ");
    reveal_strlit("entry_version ");
    reveal_strlit("spawn_version ");
}

/// Between plain releases the later one is the one with the greater number at
/// the first place where they differ, so an update is offered for those only.
pub proof fn law_later_release_is_newer(left: Seq<char>, right: Seq<char>)
    requires
        version::release(version::bare(left)) is Some,
        version::release(version::bare(right)) is Some,
    ensures
        ({
            let a = version::release(version::bare(left))->0;
            let b = version::release(version::bare(right))->0;
            &&& version::release_order(a, b) is Greater <==> a.0 > b.0 || (a.0 == b.0 && (a.1 > b.1
                || (a.1 == b.1 && a.2 > b.2)))
            &&& version::release_order(a, b) is Equal <==> a == b
            &&& version::release_order(a, b) is Less <==> version::release_order(b, a) is Greater
        }),
{
}

/// A package without an address for announcements is not checked; a failed fetch
/// is told with its reason and offers nothing; else the announcement decides.
pub proof fn law_what_a_check_tells(
    pkg: PluginPackageMeta,
    fetched: Result<PluginUpdateManifest, String>,
    arch: Seq<char>,
    at_ms: i64,
)
    ensures
        ({
            let info = checked_view(pkg, fetched, arch, at_ms);
            let addressed = pkg.update is Some && pkg.update->0@.len() > 0;
            &&& info.plugin_id == pkg.id@ && info.checked_at_ms == at_ms
            &&& info.state == PluginUpdateState::NoUrl <==> !addressed
            &&& info.state == PluginUpdateState::Failed <==> addressed && fetched is Err
            &&& addressed ==> (fetched matches Err(why) ==> info.error == why@
                && info.latest_version.len() == 0 && info.zip_url.len() == 0)
            &&& addressed ==> (fetched matches Ok(manifest) ==> info == announced(
                pkg,
                manifest,
                arch,
                at_ms,
            ))
        }),
{
    if let Ok(manifest) = fetched {
        law_what_is_offered(pkg, manifest, arch, at_ms);
    }
}

/// Until it is checked a package has no offer, and is known to have no address
/// where it has none; while it is checked it has none either.
pub proof fn law_unchecked_packages(pkg: PluginPackageMeta, now_ms: i64)
    ensures
        ({
            let addressed = pkg.update is Some && pkg.update->0@.len() > 0;
            let d = default_view(pkg);
            let s = started_view(pkg, now_ms);
            &&& d.plugin_id == pkg.id@ && s.plugin_id == pkg.id@
            &&& addressed ==> d.state == PluginUpdateState::Unknown && s.state
                == PluginUpdateState::Checking && s.checked_at_ms == 0
            &&& !addressed ==> d.state == PluginUpdateState::NoUrl && s.state
                == PluginUpdateState::NoUrl && s.checked_at_ms == now_ms
            &&& d.checked_at_ms == 0
            &&& d.latest_version.len() == 0 && d.zip_url.len() == 0 && d.sha256.len() == 0
                && d.error.len() == 0
            &&& s.latest_version.len() == 0 && s.zip_url.len() == 0 && s.sha256.len() == 0
                && s.error.len() == 0
        }),
{
}

/// Every package whose check is started is in the store as one that is being
/// checked, or that has no address; of several with one id the last counts.
pub proof fn law_started_packages(
    store: Map<Seq<char>, UpdateView>,
    packages: Seq<PluginPackageMeta>,
    now_ms: i64,
    i: int,
)
    requires
        0 <= i < packages.len(),
        forall|j: int| i < j < packages.len() ==> (#[trigger] packages[j]).id@ != packages[i].id@,
    ensures
        started(store, packages, now_ms).contains_key(packages[i].id@),
        started(store, packages, now_ms)[packages[i].id@] == started_view(packages[i], now_ms),
    decreases packages.len(),
{
    if i < packages.len() - 1 {
        assert(packages.last() == packages[packages.len() - 1]);
        assert(packages.drop_last()[i] == packages[i]);
        assert forall|j: int| i < j < packages.drop_last().len() implies (
        #[trigger] packages.drop_last()[j]).id@ != packages[i].id@ by {
            assert(packages.drop_last()[j] == packages[j]);
        }
        law_started_packages(store, packages.drop_last(), now_ms, i);
    }
}

/// An update is announced exactly where it is offered and was not offered
/// before with the same version, address and digest.
pub proof fn law_when_an_update_is_announced(previous: Option<UpdateView>, current: UpdateView)
    ensures
        newly_available(previous, current) ==> current.state == PluginUpdateState::Available,
        current.state == PluginUpdateState::Available && previous is None ==> newly_available(
            previous,
            current,
        ),
        previous matches Some(p) ==> (current.state == PluginUpdateState::Available ==> (
        !newly_available(previous, current) <==> p.state == PluginUpdateState::Available
            && p.latest_version == current.latest_version && p.zip_url == current.zip_url
            && p.sha256 == current.sha256)),
{
}

/// The page of a file on GitHub stands for the raw file of the branch; every
/// other address is taken as it is.
pub proof fn law_raw_file_path(host: Option<Seq<char>>, segments: Option<Seq<Seq<char>>>)
    ensures
        raw_path(host, segments) matches Some(path) ==> {
            let s = segments->0;
            &&& host == Some("github.com"@)
            &&& segments is Some && s.len() >= 5 && s[2] == "blob"@
            &&& s[0].len() > 0 && s[1].len() > 0 && s[3].len() > 0
            &&& path == "/"@ + text::join(
                seq![s[0], s[1], "raw"@, "refs"@, "heads"@, s[3]] + s.skip(4),
                "/"@,
            )
        },
        raw_path(host, segments) is None <==> !(host == Some("github.com"@) && segments is Some
            && segments->0.len() >= 5 && segments->0[2] == "blob"@ && segments->0[0].len() > 0
            && segments->0[1].len() > 0 && segments->0[3].len() > 0),
{
}

/// Why a later version is not offered, in this order: there is no package for
/// the machine, its entry is written for a release that is not served, or its
/// renderers are. An announcement of no later version says that the plugin is up
/// to date.
pub proof fn law_why_nothing_is_offered(
    pkg: PluginPackageMeta,
    manifest: PluginUpdateManifest,
    arch: Seq<char>,
    at_ms: i64,
)
    ensures
        ({
            let info = announced(pkg, manifest, arch, at_ms);
            let newer = version::version_order(manifest.version@, pkg.version@) is Greater;
            let packed = (arch == "x86_64"@ && manifest.x86_64 is Some) || (arch == "aarch64"@
                && manifest.aarch64 is Some);
            let served = manifest.entry_version == 3 || manifest.entry_version == 4;
            &&& info.plugin_id == pkg.id@ && info.checked_at_ms == at_ms
            &&& info.latest_version == manifest.version@
            &&& !newer ==> info.state == PluginUpdateState::UpToDate && info.error.len() == 0
            &&& newer && !packed ==> info.state == PluginUpdateState::Unsupported && info.error
                == "no package for "@ + arch
            &&& newer && packed && !served ==> info.state == PluginUpdateState::Unsupported
                && info.error == "entry_version "@ + text::decimal(manifest.entry_version as int)
                + " is unsupported; supported versions are "@ + "[3, 4]"@
            &&& newer && packed && served && manifest.spawn_version != 6 ==> info.state
                == PluginUpdateState::Unsupported && info.error == "spawn_version "@
                    + text::decimal(
                manifest.spawn_version as int,
            ) + " is unsupported; expected "@ + text::decimal(6)
            &&& info.state != PluginUpdateState::Available ==> info.zip_url.len() == 0
                && info.sha256.len() == 0
        }),
{
    lemma_arch_names();
}

/// The address of a file as a site shows it is asked for in its raw form; any
/// other address as it is.
pub proof fn law_fetched_address(url: Seq<char>)
    ensures
        raw_path(url_host(url), url_segments(url)) is None ==> fetch_url(url) == url,
        raw_path(url_host(url), url_segments(url)) matches Some(path) ==> fetch_url(url) == (
        match url_with_path(url, path) {
            Some(raw) => raw,
            None => url,
        }),
{
}

/// What is said of a `PluginUpdateInfo` is said of its own fields.
pub proof fn law_plugin_update_info_in_contracts(info: PluginUpdateInfo)
    ensures
        info@.plugin_id == info.plugin_id@,
        info@.state == info.state,
        info@.latest_version == info.latest_version@,
        info@.zip_url == info.zip_url@,
        info@.sha256 == info.sha256@,
        info@.error == info.error@,
        info@.checked_at_ms == info.checked_at_ms,
{
}

/// What is stored of an update is told under the same id.
pub proof fn law_stored_updates(store: Map<Seq<char>, PluginUpdateInfo>, id: Seq<char>)
    ensures
        store_view(store).contains_key(id) <==> store.contains_key(id),
        store.contains_key(id) ==> store_view(store)[id] == store[id]@,
{
}

} // verus!
