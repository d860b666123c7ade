//! Installed plugins: what their manifests declare, which of several copies
//! is active, and which renderer shows which kind of wallpaper.
use std::sync::Arc;
use vstd::prelude::*;
use crate::map::TextMap;
use crate::path;
use crate::path::{join_path, normalize_path, resolve_rel};
use crate::plugin::settings::SettingDef;
use crate::plugin::source::entry;
use crate::plugin::source::entry::{supports_entry_version, SUPPORTED_TEXT};
use crate::plugin::version;
use crate::plugin::version::order_versions;
use crate::text;
use crate::text::{decimal_u64, insert_sorted, retain_flagged, same, split_text, trim, Order};

verus! {

/// Name of the file list that every plugin ships beside its manifest.
pub const PLUGIN_FILES_MANIFEST: &'static str = "files.txt";

// ---------------------------------------------------------------------------
// Manifests

/// Where a plugin keeps its translations.
#[derive(Debug)]
pub struct PluginTranslationMeta {
    pub directory: String,
}

/// A translation of a plugin's messages.
#[derive(Debug)]
pub struct PluginTranslationDocument {
    pub plugin_id: String,
    pub locale: String,
    pub po: Vec<u8>,
}

pub struct PluginTranslationDocumentView {
    pub plugin_id: Seq<char>,
    pub locale: Seq<char>,
    pub po: Seq<u8>,
}

impl View for PluginTranslationDocument {
    type V = PluginTranslationDocumentView;

    open spec fn view(&self) -> PluginTranslationDocumentView {
        PluginTranslationDocumentView {
            plugin_id: self.plugin_id@,
            locale: self.locale@,
            po: self.po@,
        }
    }
}

impl Clone for PluginTranslationDocument {
    fn clone(&self) -> (copy: Self)
        ensures
            copy@ == self@,
    {
        let po = self.po.clone();
        assert(po@ =~= self.po@);
        PluginTranslationDocument {
            plugin_id: self.plugin_id.clone(),
            locale: self.locale.clone(),
            po,
        }
    }
}

/// One installable plugin.
#[derive(Debug)]
pub struct PluginManifest {
    pub plugin: PluginMeta,
    /// The renderers of the plugin, each under its name.
    pub renderers: Vec<RendererDef>,
}

#[derive(Debug)]
pub struct PluginMeta {
    /// Unique id in domain style.
    pub id: String,
    pub name: String,
    pub version: String,
    /// Where a later version is announced.
    pub update: Option<String>,
    /// Lua entry file, relative to the plugin directory.
    pub entry: Option<String>,
    /// Release of the entry contract that `entry` is written for.
    pub entry_version: Option<u32>,
    pub i18n: Option<PluginTranslationMeta>,
    /// The files of the plugin, relative to its directory.
    pub files: Vec<String>,
    /// Whether the plugin was found below a system root.
    pub system: bool,
    pub translations: Vec<PluginTranslationDocument>,
}

/// A Lua entry to be loaded.
#[derive(Debug)]
pub struct EntryRef {
    pub plugin_id: String,
    pub plugin_version: String,
    pub plugin_system: bool,
    pub entry: String,
    pub entry_version: u32,
}

/// An installed plugin that cannot be served, and why.
#[derive(Debug, PartialEq, Eq)]
pub struct PluginIncompat {
    pub plugin_id: String,
    pub plugin_version: String,
    pub plugin_system: bool,
    pub reason: String,
}

/// Summary of an installed plugin.
#[derive(Debug, PartialEq, Eq)]
pub struct PluginPackageMeta {
    pub id: String,
    pub name: String,
    pub version: String,
    pub update: Option<String>,
    pub has_entry: bool,
    pub system: bool,
    /// Why the plugin cannot be served, where it cannot.
    pub incompat: Option<String>,
}

pub struct PluginPackageView {
    pub id: Seq<char>,
    pub name: Seq<char>,
    pub version: Seq<char>,
    pub update: Option<Seq<char>>,
    pub has_entry: bool,
    pub system: bool,
    pub incompat: Option<Seq<char>>,
}

impl View for PluginPackageMeta {
    type V = PluginPackageView;

    open spec fn view(&self) -> PluginPackageView {
        PluginPackageView {
            id: self.id@,
            name: self.name@,
            version: self.version@,
            update: text::view_of(self.update),
            has_entry: self.has_entry,
            system: self.system,
            incompat: text::view_of(self.incompat),
        }
    }
}

#[derive(Clone, Copy, Debug, PartialEq, Eq, Structural)]
pub enum RendererActivityMode {
    Continuous,
    OnDemand,
}

impl Default for RendererActivityMode {
    fn default() -> (mode: Self)
        ensures
            mode == RendererActivityMode::OnDemand,
    {
        RendererActivityMode::OnDemand
    }
}

/// A setting under its key.
#[derive(Debug)]
pub struct RendererSetting {
    pub key: String,
    pub setting: SettingDef,
}

#[derive(Debug)]
pub struct RendererDef {
    pub name: String,
    pub plugin_id: String,
    pub plugin_version: String,
    pub plugin_system: bool,
    pub bin: String,
    /// Kinds of wallpapers that the renderer shows.
    pub types: Vec<String>,
    pub priority: u32,
    pub activity: RendererActivityMode,
    /// Release of the spawn contract that the renderer is written for.
    pub spawn_version: Option<u32>,
    pub extras: Vec<String>,
    pub settings: Vec<RendererSetting>,
    /// A field of earlier manifests; a renderer that still has it is refused.
    pub legacy_events: Option<Vec<String>>,
}

pub fn default_priority() -> (priority: u32)
    ensures
        priority == 100,
{
    100
}

pub fn default_version() -> (version: String)
    ensures
        version@ == "v0.0.0"@,
{
    "v0.0.0".to_owned()
}

pub fn default_true() -> (r: bool)
    ensures
        r,
{
    true
}

// ---------------------------------------------------------------------------
// Roots

/// A directory that plugins are looked for in.
#[derive(Debug, PartialEq, Eq)]
pub struct PluginRoot {
    pub dir: String,
    pub system: bool,
}

impl PluginRoot {
    pub fn system(dir: &str) -> (root: Self)
        ensures
            root.dir@ == path::normalized(dir@),
            root.system,
    {
        PluginRoot { dir: normalize_path(dir), system: true }
    }

    pub fn user(dir: &str) -> (root: Self)
        ensures
            root.dir@ == path::normalized(dir@),
            !root.system,
    {
        PluginRoot { dir: normalize_path(dir), system: false }
    }
}

/// The data directory of the user: the one that is set, or the usual one below
/// the home directory.
pub open spec fn data_home(xdg_data_home: Option<Seq<char>>, home: Option<Seq<char>>) -> Seq<char> {
    match xdg_data_home {
        Some(dir) => dir,
        None => path::joined(
            match home {
                Some(dir) => dir,
                None => Seq::empty(),
            },
            ".local/share"@,
        ),
    }
}

/// The directories that are searched: the bundled one below the installation
/// prefix, and the one of the user.
pub open spec fn standard_dirs(
    subdir: Seq<char>,
    prefix: Option<Seq<char>>,
    xdg_data_home: Option<Seq<char>>,
    home: Option<Seq<char>>,
) -> Seq<Seq<char>> {
    let user = path::normalized(
        path::joined(path::joined(data_home(xdg_data_home, home), "waywallen"@), subdir),
    );
    match prefix {
        Some(prefix) => seq![
            path::normalized(path::joined(path::joined(prefix, "share/waywallen"@), subdir)),
            user,
        ],
        None => seq![user],
    }
}

/// The roots that are searched for plugins. `prefix` is the directory above
/// the one that holds the executable.
pub fn standard_plugin_roots(
    subdir: &str,
    prefix: Option<&str>,
    xdg_data_home: Option<&str>,
    home: Option<&str>,
) -> (roots: Vec<PluginRoot>)
    ensures
        ({
            let dirs = standard_dirs(
                subdir@,
                text::view_of(prefix),
                text::view_of(xdg_data_home),
                text::view_of(home),
            );
            &&& roots@.len() == dirs.len()
            &&& forall|i: int| 0 <= i < roots@.len() ==> (#[trigger] roots@[i]).dir@ == dirs[i]
            &&& forall|i: int|
                0 <= i < roots@.len() ==> (#[trigger] roots@[i]).system == (i < roots@.len() - 1)
        }),
{
    let mut roots: Vec<PluginRoot> = Vec::new();
    if let Some(prefix) = prefix {
        let shared = join_path(prefix, "share/waywallen");
        let dir = join_path(shared.as_str(), subdir);
        roots.push(PluginRoot::system(dir.as_str()));
    }
    let data = match xdg_data_home {
        Some(dir) => dir.to_owned(),
        None => {
            let base = match home {
                Some(dir) => dir.to_owned(),
                None => String::new(),
            };
            join_path(base.as_str(), ".local/share")
        },
    };
    let own = join_path(data.as_str(), "waywallen");
    let dir = join_path(own.as_str(), subdir);
    roots.push(PluginRoot::user(dir.as_str()));
    roots
}

/// The directories of the standard roots.
pub fn standard_plugin_dirs(
    subdir: &str,
    prefix: Option<&str>,
    xdg_data_home: Option<&str>,
    home: Option<&str>,
) -> (dirs: Vec<String>)
    ensures
        text::views(dirs@) == standard_dirs(
            subdir@,
            text::view_of(prefix),
            text::view_of(xdg_data_home),
            text::view_of(home),
        ),
{
    let roots = standard_plugin_roots(subdir, prefix, xdg_data_home, home);
    let mut dirs: Vec<String> = Vec::new();
    let mut i: usize = 0;
    let ghost wanted = standard_dirs(
        subdir@,
        text::view_of(prefix),
        text::view_of(xdg_data_home),
        text::view_of(home),
    );
    while i < roots.len()
        invariant
            i <= roots@.len(),
            roots@.len() == wanted.len(),
            forall|j: int| 0 <= j < roots@.len() ==> (#[trigger] roots@[j]).dir@ == wanted[j],
            text::views(dirs@) == wanted.take(i as int),
        decreases roots@.len() - i,
    {
        let dir = roots[i].dir.clone();
        proof {
            text::lemma_views_push(dirs@, dir);
            assert(wanted.take(i + 1) =~= wanted.take(i as int).push(wanted[i as int]));
        }
        dirs.push(dir);
        i = i + 1;
    }
    assert(wanted.take(i as int) =~= wanted);
    dirs
}

// ---------------------------------------------------------------------------
// Scans

/// What was found in one or more plugin directories.
pub struct PluginScan {
    pub renderers: Vec<RendererDef>,
    pub entries: Vec<EntryRef>,
    pub plugins: Vec<PluginMeta>,
    /// Ids of system plugins that another copy stands in for.
    pub inactive_system: Vec<String>,
    /// Ids of user plugins that another copy stands in for.
    pub inactive_user: Vec<String>,
    /// Installed plugins that cannot be served.
    pub incompatible: Vec<PluginIncompat>,
}

pub open spec fn empty_scan(scan: PluginScan) -> bool {
    &&& scan.renderers@ == Seq::<RendererDef>::empty()
    &&& scan.entries@ == Seq::<EntryRef>::empty()
    &&& scan.plugins@ == Seq::<PluginMeta>::empty()
    &&& scan.inactive_system@ == Seq::<String>::empty()
    &&& scan.inactive_user@ == Seq::<String>::empty()
    &&& scan.incompatible@ == Seq::<PluginIncompat>::empty()
}

impl Default for PluginScan {
    fn default() -> (scan: Self)
        ensures
            empty_scan(scan),
    {
        PluginScan {
            renderers: Vec::new(),
            entries: Vec::new(),
            plugins: Vec::new(),
            inactive_system: Vec::new(),
            inactive_user: Vec::new(),
            incompatible: Vec::new(),
        }
    }
}

/// Some entry belongs to the plugin.
pub open spec fn has_entry(entries: Seq<EntryRef>, id: Seq<char>) -> bool {
    exists|i: int| 0 <= i < entries.len() && (#[trigger] entries[i]).plugin_id@ == id
}

/// The first reason against the plugin.
pub open spec fn reason_against(
    incompatible: Seq<PluginIncompat>,
    id: Seq<char>,
) -> Option<Seq<char>>
    decreases incompatible.len(),
{
    if incompatible.len() == 0 {
        None
    } else if incompatible[0].plugin_id@ == id {
        Some(incompatible[0].reason@)
    } else {
        reason_against(incompatible.skip(1), id)
    }
}

/// The translations of some plugins, one plugin after the other.
pub open spec fn translations_of(plugins: Seq<PluginMeta>) -> Seq<PluginTranslationDocumentView>
    decreases plugins.len(),
{
    if plugins.len() == 0 {
        Seq::empty()
    } else {
        translations_of(plugins.drop_last()) + text::views(plugins.last().translations@)
    }
}

impl PluginScan {
    pub open spec fn package(self, meta: PluginMeta) -> PluginPackageView {
        PluginPackageView {
            id: meta.id@,
            name: meta.name@,
            version: meta.version@,
            update: text::view_of(meta.update),
            has_entry: has_entry(self.entries@, meta.id@),
            system: meta.system,
            incompat: reason_against(self.incompatible@, meta.id@),
        }
    }

    /// The translations of all plugins, in the order of the plugins.
    pub fn gathered_translations(&self) -> (documents: Vec<PluginTranslationDocument>)
        ensures
            text::views(documents@) == translations_of(self.plugins@),
    {
        let mut documents: Vec<PluginTranslationDocument> = Vec::new();
        let mut i: usize = 0;
        assert(text::views(documents@) =~= translations_of(self.plugins@.take(0)));
        while i < self.plugins.len()
            invariant
                i <= self.plugins@.len(),
                text::views(documents@) == translations_of(self.plugins@.take(i as int)),
            decreases self.plugins@.len() - i,
        {
            let own = &self.plugins[i].translations;
            let ghost before = text::views(documents@);
            let mut k: usize = 0;
            assert(text::views(documents@) =~= before + text::views(own@.take(0)));
            while k < own.len()
                invariant
                    k <= own@.len(),
                    text::views(documents@) == before + text::views(own@.take(k as int)),
                decreases own@.len() - k,
            {
                let document = own[k].clone();
                proof {
                    text::lemma_views_push(documents@, document);
                }
                documents.push(document);
                k = k + 1;
                assert(text::views(documents@) =~= before + text::views(own@.take(k as int)));
            }
            proof {
                assert(own@.take(k as int) =~= own@);
                let upto = self.plugins@.take(i + 1);
                assert(upto.drop_last() =~= self.plugins@.take(i as int));
                assert(upto.last() == self.plugins@[i as int]);
            }
            i = i + 1;
        }
        assert(self.plugins@.take(i as int) =~= self.plugins@);
        documents
    }

    /// Adds what another scan found behind what this one found.
    pub fn merge(&mut self, other: PluginScan)
        ensures
            final(self).renderers@ == old(self).renderers@ + other.renderers@,
            final(self).entries@ == old(self).entries@ + other.entries@,
            final(self).plugins@ == old(self).plugins@ + other.plugins@,
            final(self).inactive_system@ == old(self).inactive_system@ + other.inactive_system@,
            final(self).inactive_user@ == old(self).inactive_user@ + other.inactive_user@,
            final(self).incompatible@ == old(self).incompatible@ + other.incompatible@,
    {
        let mut other = other;
        self.renderers.append(&mut other.renderers);
        self.entries.append(&mut other.entries);
        self.plugins.append(&mut other.plugins);
        self.inactive_system.append(&mut other.inactive_system);
        self.inactive_user.append(&mut other.inactive_user);
        self.incompatible.append(&mut other.incompatible);
    }

    fn queues_entry(&self, id: &str) -> (r: bool)
        ensures
            r == has_entry(self.entries@, id@),
    {
        let mut i: usize = 0;
        while i < self.entries.len()
            invariant
                i <= self.entries.len(),
                forall|j: int| 0 <= j < i ==> (#[trigger] self.entries@[j]).plugin_id@ != id@,
            decreases self.entries.len() - i,
        {
            if same(self.entries[i].plugin_id.as_str(), id) {
                assert(self.entries@[i as int].plugin_id@ == id@);
                return true;
            }
            i = i + 1;
        }
        false
    }

    fn refusal(&self, id: &str) -> (r: Option<String>)
        ensures
            text::view_of(r) == reason_against(self.incompatible@, id@),
    {
        let mut i: usize = 0;
        assert(self.incompatible@.skip(0) =~= self.incompatible@);
        while i < self.incompatible.len()
            invariant
                i <= self.incompatible.len(),
                reason_against(self.incompatible@, id@) == reason_against(
                    self.incompatible@.skip(i as int),
                    id@,
                ),
            decreases self.incompatible.len() - i,
        {
            assert(self.incompatible@.skip(i as int)[0] == self.incompatible@[i as int]);
            if same(self.incompatible[i].plugin_id.as_str(), id) {
                return Some(self.incompatible[i].reason.clone());
            }
            assert(self.incompatible@.skip(i as int).skip(1) =~= self.incompatible@.skip(i + 1));
            i = i + 1;
        }
        None
    }

    /// One summary for each plugin, in order.
    pub fn packages(&self) -> (packages: Vec<PluginPackageMeta>)
        ensures
            text::views(packages@) == self.plugins@.map_values(|m: PluginMeta| self.package(m)),
    {
        let mut packages: Vec<PluginPackageMeta> = Vec::new();
        let ghost view = |m: PluginMeta| self.package(m);
        let mut i: usize = 0;
        while i < self.plugins.len()
            invariant
                i <= self.plugins.len(),
                view == (|m: PluginMeta| self.package(m)),
                text::views(packages@) == self.plugins@.take(i as int).map_values(view),
            decreases self.plugins.len() - i,
        {
            let meta = &self.plugins[i];
            let package = PluginPackageMeta {
                id: meta.id.clone(),
                name: meta.name.clone(),
                version: meta.version.clone(),
                update: match &meta.update {
                    Some(url) => Some(url.clone()),
                    None => None,
                },
                has_entry: self.queues_entry(meta.id.as_str()),
                system: meta.system,
                incompat: self.refusal(meta.id.as_str()),
            };
            proof {
                text::lemma_views_push(packages@, package);
                assert(package@ == view(*meta));
                assert(self.plugins@.take(i + 1).map_values(view) =~= self.plugins@.take(
                    i as int,
                ).map_values(view).push(view(*meta)));
            }
            packages.push(package);
            i = i + 1;
        }
        assert(self.plugins@.take(i as int) =~= self.plugins@);
        packages
    }
}

// ---------------------------------------------------------------------------
// One plugin

/// A plugin directory as it was read.
pub struct PluginDirectory {
    pub dir: String,
    pub system: bool,
    pub manifest: PluginManifest,
    /// The text of the file list, where it could be read.
    pub files: Option<String>,
    /// The translations, or why they could not be read. Asked for only where
    /// the manifest declares them.
    pub translations: Result<Vec<PluginTranslationDocument>, String>,
}

/// The lines of a file list that are not blank, without the space around them.
pub open spec fn listed_files(lines: Seq<Seq<char>>) -> Seq<Seq<char>>
    decreases lines.len(),
{
    if lines.len() == 0 {
        Seq::empty()
    } else {
        let before = listed_files(lines.drop_last());
        let line = text::trimmed(lines.last());
        if line.len() > 0 {
            before.push(line)
        } else {
            before
        }
    }
}

pub open spec fn files_of(list: Option<Seq<char>>) -> Seq<Seq<char>> {
    match list {
        Some(list) => listed_files(text::split(list, '\n')),
        None => Seq::empty(),
    }
}

/// Why a Lua entry cannot be served.
pub open spec fn entry_refusal(entry_version: Option<u32>) -> Option<Seq<char>> {
    match entry_version {
        Some(v) => if entry::served(v) {
            None
        } else {
            Some(
                "plugin entry_version "@ + text::decimal(v as int)
                    + " is unsupported; this daemon supports "@ + SUPPORTED_TEXT@,
            )
        },
        None => Some("plugin.entry requires plugin.entry_version"@),
    }
}

pub open spec fn label_ok(label: Option<crate::plugin::settings::LocalizedTextDef>) -> bool {
    label matches Some(text) ==> text.msgid@.len() > 0
}

/// The texts of a setting can be looked up.
pub open spec fn setting_ok(setting: RendererSetting) -> bool {
    &&& label_ok(setting.setting.label)
    &&& label_ok(setting.setting.description)
    &&& label_ok(setting.setting.group_label)
}

/// The renderer is one that can be offered.
pub open spec fn renderer_ok(def: RendererDef) -> bool {
    &&& def.legacy_events is None
    &&& forall|i: int| 0 <= i < def.settings@.len() ==> setting_ok(#[trigger] def.settings@[i])
}

/// `after` is the renderer `before` as it is offered by a plugin.
pub open spec fn offered(
    before: RendererDef,
    after: RendererDef,
    dir: Seq<char>,
    meta: PluginMeta,
) -> bool {
    &&& after.name == before.name
    &&& after.plugin_id@ == meta.id@
    &&& after.plugin_version@ == meta.version@
    &&& after.plugin_system == meta.system
    &&& after.bin@ == path::normalized(
        if path::is_absolute(before.bin@) {
            before.bin@
        } else {
            path::joined(dir, before.bin@)
        },
    )
    &&& after.types == before.types
    &&& after.priority == before.priority
    &&& after.activity == before.activity
    &&& after.spawn_version == before.spawn_version
    &&& after.extras == before.extras
    &&& after.settings == before.settings
    &&& after.legacy_events == before.legacy_events
}

/// `after` are the renderers of a plugin that can be offered.
pub open spec fn all_offered(
    before: Seq<RendererDef>,
    after: Seq<RendererDef>,
    dir: Seq<char>,
    meta: PluginMeta,
) -> bool {
    let good = before.filter(|def: RendererDef| renderer_ok(def));
    &&& after.len() == good.len()
    &&& forall|i: int| 0 <= i < after.len() ==> offered(#[trigger] good[i], after[i], dir, meta)
}

/// The translations that a plugin declares could not be read.
pub open spec fn untranslatable(found: PluginDirectory) -> bool {
    found.manifest.plugin.i18n is Some && found.translations is Err
}

/// `meta` is the header of the plugin as it is kept.
pub open spec fn kept_meta(found: PluginDirectory, meta: PluginMeta) -> bool {
    let declared = found.manifest.plugin;
    &&& meta.id == declared.id
    &&& meta.name == declared.name
    &&& meta.version == declared.version
    &&& meta.update == declared.update
    &&& meta.entry is None
    &&& meta.entry_version == declared.entry_version
    &&& meta.i18n == declared.i18n
    &&& text::views(meta.files@) == text::views(declared.files@) + files_of(
        text::view_of(found.files),
    )
    &&& meta.system == found.system
    &&& match (declared.i18n, found.translations) {
        (Some(_), Ok(documents)) => meta.translations == documents,
        _ => meta.translations == declared.translations,
    }
}

/// `queued` is what the plugin's entry adds to the entries to be loaded.
pub open spec fn queued_entry(found: PluginDirectory, queued: Seq<EntryRef>) -> bool {
    let declared = found.manifest.plugin;
    match declared.entry {
        Some(file) => if entry_refusal(declared.entry_version) is None {
            &&& queued.len() == 1
            &&& queued[0].plugin_id@ == declared.id@
            &&& queued[0].plugin_version@ == declared.version@
            &&& queued[0].plugin_system == found.system
            &&& queued[0].entry@ == path::normalized(
                if path::is_absolute(file@) {
                    file@
                } else {
                    path::joined(found.dir@, file@)
                },
            )
            &&& Some(queued[0].entry_version) == declared.entry_version
        } else {
            queued.len() == 0
        },
        None => queued.len() == 0,
    }
}

/// `refused` is what the plugin's entry adds to the refusals.
pub open spec fn refused_entry(found: PluginDirectory, refused: Seq<PluginIncompat>) -> bool {
    let declared = found.manifest.plugin;
    if declared.entry is Some && entry_refusal(declared.entry_version) is Some {
        &&& refused.len() == 1
        &&& refused[0].plugin_id@ == declared.id@
        &&& refused[0].plugin_version@ == declared.version@
        &&& refused[0].plugin_system == found.system
        &&& Some(refused[0].reason@) == entry_refusal(declared.entry_version)
    } else {
        refused.len() == 0
    }
}

fn listed(list: &str, files: &mut Vec<String>)
    ensures
        text::views(final(files)@) == text::views(old(files)@) + files_of(Some(list@)),
{
    let ghost before = text::views(files@);
    let lines = split_text(list, '\n');
    let mut i: usize = 0;
    assert(before + listed_files(text::views(lines@).take(0)) =~= before);
    while i < lines.len()
        invariant
            i <= lines.len(),
            text::views(files@) == before + listed_files(text::views(lines@).take(i as int)),
        decreases lines.len() - i,
    {
        let line = trim(lines[i].as_str());
        let ghost next = text::views(lines@).take(i + 1);
        proof {
            assert(next.drop_last() =~= text::views(lines@).take(i as int));
            assert(next.last() == lines@[i as int]@);
            text::lemma_views_push(files@, line);
        }
        if !line.as_str().is_empty() {
            files.push(line);
        }
        i = i + 1;
        assert(text::views(files@) =~= before + listed_files(next));
    }
    assert(text::views(lines@).take(i as int) =~= text::views(lines@));
}

fn texts_ok(setting: &RendererSetting) -> (r: bool)
    ensures
        r == setting_ok(*setting),
{
    let label = match &setting.setting.label {
        Some(label) => label.is_valid(),
        None => true,
    };
    let description = match &setting.setting.description {
        Some(description) => description.is_valid(),
        None => true,
    };
    let group_label = match &setting.setting.group_label {
        Some(group_label) => group_label.is_valid(),
        None => true,
    };
    label && description && group_label
}

fn offerable(def: &RendererDef) -> (r: bool)
    ensures
        r == renderer_ok(*def),
{
    if def.legacy_events.is_some() {
        return false;
    }
    let mut i: usize = 0;
    while i < def.settings.len()
        invariant
            i <= def.settings.len(),
            def.legacy_events is None,
            forall|j: int| 0 <= j < i ==> setting_ok(#[trigger] def.settings@[j]),
        decreases def.settings.len() - i,
    {
        if !texts_ok(&def.settings[i]) {
            assert(!setting_ok(def.settings@[i as int]));
            return false;
        }
        i = i + 1;
    }
    true
}

fn refuse_entry(version: u32) -> (reason: String)
    requires
        !entry::served(version),
    ensures
        entry_refusal(Some(version)) == Some(reason@),
{
    let mut reason = "plugin entry_version ".to_owned();
    let number = decimal_u64(version as u64);
    reason.append(number.as_str());
    reason.append(" is unsupported; this daemon supports ");
    reason.append(SUPPORTED_TEXT);
    reason
}

fn collect_renderers(renderers: Vec<RendererDef>, dir: &str, meta: &PluginMeta) -> (out: Vec<
    RendererDef,
>)
    ensures
        all_offered(renderers@, out@, dir@, *meta),
{
    let ghost all = renderers@;
    let ghost good = |def: RendererDef| renderer_ok(def);
    let mut left = renderers;
    let mut out: Vec<RendererDef> = Vec::new();
    let ghost mut done: int = 0;
    proof {
        reveal(Seq::filter);
        assert(all.take(0).filter(good) =~= Seq::<RendererDef>::empty());
    }
    while left.len() > 0
        invariant
            0 <= done <= all.len(),
            left@ == all.skip(done),
            good == (|def: RendererDef| renderer_ok(def)),
            out@.len() == all.take(done).filter(good).len(),
            forall|i: int|
                0 <= i < out@.len() ==> offered(
                    #[trigger] all.take(done).filter(good)[i],
                    out@[i],
                    dir@,
                    *meta,
                ),
        decreases left@.len(),
    {
        let mut def = left.remove(0);
        let ghost before = def;
        let ghost kept = all.take(done).filter(good);
        proof {
            reveal(Seq::filter);
            assert(before == all[done]);
            assert(left@ =~= all.skip(done + 1));
            assert(all.take(done + 1).drop_last() =~= all.take(done));
            assert(all.take(done + 1).last() == before);
        }
        if offerable(&def) {
            def.plugin_id = meta.id.clone();
            def.plugin_version = meta.version.clone();
            def.plugin_system = meta.system;
            def.bin = resolve_rel(dir, def.bin.as_str());
            out.push(def);
            proof {
                let now = all.take(done + 1).filter(good);
                assert(now == kept.push(before));
                assert forall|i: int| 0 <= i < out@.len() implies offered(
                    #[trigger] now[i],
                    out@[i],
                    dir@,
                    *meta,
                ) by {
                    if i < kept.len() {
                        assert(now[i] == kept[i]);
                    }
                }
            }
        }
        proof {
            done = done + 1;
        }
    }
    assert(all.take(done) =~= all);
    out
}

/// What one plugin directory adds to a scan.
pub open spec fn scanned(before: PluginScan, found: PluginDirectory, after: PluginScan) -> bool {
    &&& after.inactive_system == before.inactive_system
    &&& after.inactive_user == before.inactive_user
    &&& if untranslatable(found) {
        after == before
    } else {
        &&& after.plugins@.len() == before.plugins@.len() + 1
        &&& after.plugins@.drop_last() == before.plugins@
        &&& kept_meta(found, after.plugins@.last())
        &&& exists|queued: Seq<EntryRef>|
            queued_entry(found, queued) && #[trigger] (before.entries@ + queued) == after.entries@
        &&& exists|refused: Seq<PluginIncompat>|
            refused_entry(found, refused) && #[trigger] (before.incompatible@ + refused)
                == after.incompatible@
        &&& exists|offers: Seq<RendererDef>|
            all_offered(
                found.manifest.renderers@,
                offers,
                found.dir@,
                after.plugins@.last(),
            ) && #[trigger] (before.renderers@ + offers) == after.renderers@
    }
}

/// Adds one plugin directory to a scan.
pub fn scan_plugin(scan: &mut PluginScan, found: PluginDirectory)
    ensures
        scanned(*old(scan), found, *final(scan)),
{
    let ghost whole = found;
    let ghost start = *scan;
    let PluginDirectory { dir, system, manifest, files, translations } = found;
    let PluginManifest { plugin, renderers } = manifest;
    let mut meta = plugin;
    meta.system = system;
    if let Some(list) = &files {
        listed(list.as_str(), &mut meta.files);
    } else {
        assert(text::views(meta.files@) + files_of(None) =~= text::views(meta.files@));
    }
    if meta.i18n.is_some() {
        match translations {
            Ok(documents) => {
                meta.translations = documents;
            },
            Err(_) => {
                return;
            },
        }
    }
    let ghost mut queued: Seq<EntryRef> = Seq::empty();
    let ghost mut refused: Seq<PluginIncompat> = Seq::empty();
    let declared = meta.entry.take();
    if let Some(file) = declared {
        match meta.entry_version {
            Some(entry_version) => {
                if supports_entry_version(entry_version) {
                    let one = EntryRef {
                        plugin_id: meta.id.clone(),
                        plugin_version: meta.version.clone(),
                        plugin_system: meta.system,
                        entry: resolve_rel(dir.as_str(), file.as_str()),
                        entry_version,
                    };
                    proof {
                        queued = seq![one];
                    }
                    scan.entries.push(one);
                } else {
                    let one = PluginIncompat {
                        plugin_id: meta.id.clone(),
                        plugin_version: meta.version.clone(),
                        plugin_system: meta.system,
                        reason: refuse_entry(entry_version),
                    };
                    proof {
                        refused = seq![one];
                    }
                    scan.incompatible.push(one);
                }
            },
            None => {
                let one = PluginIncompat {
                    plugin_id: meta.id.clone(),
                    plugin_version: meta.version.clone(),
                    plugin_system: meta.system,
                    reason: "plugin.entry requires plugin.entry_version".to_owned(),
                };
                proof {
                    refused = seq![one];
                }
                scan.incompatible.push(one);
            },
        }
    }
    let mut offers = collect_renderers(renderers, dir.as_str(), &meta);
    let ghost added = offers@;
    scan.renderers.append(&mut offers);
    scan.plugins.push(meta);
    proof {
        assert(scan.entries@ =~= start.entries@ + queued);
        assert(scan.incompatible@ =~= start.incompatible@ + refused);
        assert(scan.renderers@ =~= start.renderers@ + added);
        assert(queued_entry(whole, queued));
        assert(refused_entry(whole, refused));
        assert(scan.plugins@.last() == meta);
        assert(scan.plugins@.drop_last() =~= start.plugins@);
    }
}

/// The scan of several directories goes through `steps`.
pub open spec fn scan_steps(found: Seq<PluginDirectory>, steps: Seq<PluginScan>) -> bool {
    &&& steps.len() == found.len() + 1
    &&& empty_scan(steps[0])
    &&& forall|i: int| #![trigger found[i]] 0 <= i < found.len() ==> scanned(steps[i], found[i], steps[i + 1])
}

/// Scans the plugin directories below one root, one after the other.
pub fn scan_plugins(found: Vec<PluginDirectory>) -> (scan: PluginScan)
    ensures
        exists|steps: Seq<PluginScan>| #[trigger] scan_steps(found@, steps) && steps.last() == scan,
{
    let ghost all = found@;
    let mut left = found;
    let mut scan = PluginScan::default();
    let ghost mut steps = seq![scan];
    assert(all.skip(0) =~= all);
    assert(scan_steps(all.take(0), steps));
    while left.len() > 0
        invariant
            left@.len() <= all.len(),
            left@ == all.skip(all.len() - left@.len()),
            scan_steps(all.take(all.len() - left@.len()), steps),
            steps.last() == scan,
        decreases left@.len(),
    {
        let ghost done = all.len() - left@.len();
        let ghost before = steps;
        let next = left.remove(0);
        assert(next == all[done]);
        scan_plugin(&mut scan, next);
        proof {
            steps = steps.push(scan);
            assert(left@ =~= all.skip(done + 1));
            assert forall|i: int| #![trigger all.take(done + 1)[i]] 0 <= i < done + 1 implies scanned(
                steps[i],
                all.take(done + 1)[i],
                steps[i + 1],
            ) by {
                if i < done {
                    assert(all.take(done)[i] == all[i]);
                    assert(scanned(before[i], all.take(done)[i], before[i + 1]));
                }
            }
        }
    }
    assert(all.take(all.len() as int) =~= all);
    scan
}

// ---------------------------------------------------------------------------
// Copies of one plugin

/// Which of two copies of a plugin comes first: the later version, and of
/// equal versions the copy of the user.
pub open spec fn priority_order(a: PluginMeta, b: PluginMeta) -> Order {
    let by_version = version::version_order(a.version@, b.version@);
    if !(by_version is Equal) {
        by_version
    } else if !a.system && b.system {
        Order::Greater
    } else if a.system && !b.system {
        Order::Less
    } else {
        Order::Equal
    }
}

pub open spec fn beats(a: PluginMeta, b: PluginMeta) -> bool {
    priority_order(a, b) is Greater
}

/// The copy of a plugin that is active after the first `n` plugins: a later
/// one takes over only where it beats the one that holds the place.
pub open spec fn winner(plugins: Seq<PluginMeta>, id: Seq<char>, n: int) -> Option<int>
    decreases n,
{
    if n <= 0 {
        None
    } else {
        let before = winner(plugins, id, n - 1);
        if plugins[n - 1].id@ != id {
            before
        } else {
            match before {
                None => Some(n - 1),
                Some(w) => if beats(plugins[n - 1], plugins[w]) {
                    Some(n - 1)
                } else {
                    Some(w)
                },
            }
        }
    }
}

/// The copy that loses its place, or does not get one, at place `i`.
pub open spec fn loser(plugins: Seq<PluginMeta>, i: int) -> Option<int> {
    match winner(plugins, plugins[i].id@, i) {
        None => None,
        Some(w) => if beats(plugins[i], plugins[w]) {
            Some(w)
        } else {
            Some(i)
        },
    }
}

/// The ids of the copies of one owner that are not active.
pub open spec fn inactive(plugins: Seq<PluginMeta>, system: bool, n: int) -> Set<Seq<char>>
    decreases n,
{
    if n <= 0 {
        Set::empty()
    } else {
        let before = inactive(plugins, system, n - 1);
        match loser(plugins, n - 1) {
            Some(l) => if plugins[l].system == system {
                before.insert(plugins[l].id@)
            } else {
                before
            },
            None => before,
        }
    }
}

/// The id, version and owner are those of an active copy.
pub open spec fn active(
    plugins: Seq<PluginMeta>,
    id: Seq<char>,
    version: Seq<char>,
    system: bool,
) -> bool {
    match winner(plugins, id, plugins.len() as int) {
        Some(w) => plugins[w].version@ == version && plugins[w].system == system,
        None => false,
    }
}

pub open spec fn keeps_plugin(plugins: Seq<PluginMeta>) -> spec_fn(PluginMeta) -> bool {
    |m: PluginMeta| active(plugins, m.id@, m.version@, m.system)
}

pub open spec fn keeps_entry(plugins: Seq<PluginMeta>) -> spec_fn(EntryRef) -> bool {
    |e: EntryRef| active(plugins, e.plugin_id@, e.plugin_version@, e.plugin_system)
}

pub open spec fn keeps_renderer(plugins: Seq<PluginMeta>) -> spec_fn(RendererDef) -> bool {
    |r: RendererDef| active(plugins, r.plugin_id@, r.plugin_version@, r.plugin_system)
}

/// A refusal is reported only of an active copy: one that another copy stands
/// in for is listed as inactive.
pub open spec fn keeps_refusal(plugins: Seq<PluginMeta>) -> spec_fn(PluginIncompat) -> bool {
    |i: PluginIncompat| active(plugins, i.plugin_id@, i.plugin_version@, i.plugin_system)
}

/// All copies of the plugin have semantic versions.
pub open spec fn semantic(plugins: Seq<PluginMeta>, id: Seq<char>) -> bool {
    forall|j: int|
        0 <= j < plugins.len() && (#[trigger] plugins[j]).id@ == id ==> version::semver_valid(
            version::bare(plugins[j].version@),
        )
}

/// A winner is a copy of the plugin that was seen.
pub proof fn law_winner_is_a_copy(plugins: Seq<PluginMeta>, id: Seq<char>, n: int)
    requires
        0 <= n <= plugins.len(),
    ensures
        winner(plugins, id, n) matches Some(w) ==> 0 <= w < n && plugins[w].id@ == id,
        winner(plugins, id, n) is None <==> forall|j: int|
            0 <= j < n ==> (#[trigger] plugins[j]).id@ != id,
    decreases n,
{
    if n > 0 {
        law_winner_is_a_copy(plugins, id, n - 1);
        if winner(plugins, id, n) is None {
            assert forall|j: int| 0 <= j < n implies (#[trigger] plugins[j]).id@ != id by {
                if j < n - 1 {
                    assert(plugins[j].id@ != id);
                }
            }
        }
    }
}

fn plugin_priority(a: &PluginMeta, b: &PluginMeta) -> (r: Order)
    ensures
        r == priority_order(*a, *b),
        priority_order(*b, *a) == r.reversed(),
        version::semver_valid(version::bare(a.version@)) && version::semver_valid(
            version::bare(b.version@),
        ) ==> forall|third: PluginMeta|
            #![trigger priority_order(third, *b)]
            version::semver_valid(version::bare(third.version@)) && !(priority_order(third, *b)
                is Greater) && r is Greater ==> !(priority_order(third, *a) is Greater),
{
    match order_versions(a.version.as_str(), b.version.as_str()) {
        Order::Less => Order::Less,
        Order::Greater => Order::Greater,
        Order::Equal => if !a.system && b.system {
            Order::Greater
        } else if a.system && !b.system {
            Order::Less
        } else {
            Order::Equal
        },
    }
}

fn record_inactive(
    meta: &PluginMeta,
    inactive_system: &mut Vec<String>,
    inactive_user: &mut Vec<String>,
)
    requires
        text::ascending(text::views(old(inactive_system)@)),
        text::ascending(text::views(old(inactive_user)@)),
    ensures
        text::ascending(text::views(final(inactive_system)@)),
        text::ascending(text::views(final(inactive_user)@)),
        text::views(final(inactive_system)@).to_set() == (if meta.system {
            text::views(old(inactive_system)@).to_set().insert(meta.id@)
        } else {
            text::views(old(inactive_system)@).to_set()
        }),
        text::views(final(inactive_user)@).to_set() == (if meta.system {
            text::views(old(inactive_user)@).to_set()
        } else {
            text::views(old(inactive_user)@).to_set().insert(meta.id@)
        }),
{
    if meta.system {
        insert_sorted(inactive_system, meta.id.as_str());
    } else {
        insert_sorted(inactive_user, meta.id.as_str());
    }
}

/// `winners` are the places of the active copies after the first `n` plugins.
spec fn winners_of(plugins: Seq<PluginMeta>, winners: Seq<usize>, n: int) -> bool {
    &&& forall|k: int|
        0 <= k < winners.len() ==> 0 <= (#[trigger] winners[k]) < n && winner(
            plugins,
            plugins[winners[k] as int].id@,
            n,
        ) == Some(winners[k] as int)
    &&& forall|a: int, b: int|
        0 <= a < winners.len() && 0 <= b < winners.len() && a != b ==> #[trigger] winners[a]
            != #[trigger] winners[b]
    &&& forall|id: Seq<char>|
        (#[trigger] winner(plugins, id, n)) matches Some(w) ==> exists|k: int|
            0 <= k < winners.len() && #[trigger] winners[k] == w
}

fn find_winner(
    plugins: &Vec<PluginMeta>,
    winners: &Vec<usize>,
    id: &str,
    n: usize,
) -> (r: Option<usize>)
    requires
        n <= plugins@.len(),
        winners_of(plugins@, winners@, n as int),
    ensures
        match r {
            Some(k) => k < winners@.len() && winner(plugins@, id@, n as int) == Some(
                winners@[k as int] as int,
            ),
            None => winner(plugins@, id@, n as int) is None,
        },
{
    let mut k: usize = 0;
    while k < winners.len()
        invariant
            k <= winners@.len(),
            n <= plugins@.len(),
            winners_of(plugins@, winners@, n as int),
            forall|j: int| 0 <= j < k ==> plugins@[#[trigger] winners@[j] as int].id@ != id@,
        decreases winners@.len() - k,
    {
        let w: usize = winners[k];
        if same(plugins[w].id.as_str(), id) {
            return Some(k);
        }
        k = k + 1;
    }
    proof {
        law_winner_is_a_copy(plugins@, id@, n as int);
        if winner(plugins@, id@, n as int) is Some {
            let w = winner(plugins@, id@, n as int)->0;
            let j = choose|j: int| 0 <= j < winners@.len() && #[trigger] winners@[j] == w;
            assert(plugins@[winners@[j] as int].id@ == id@);
        }
    }
    None
}

fn is_active(
    plugins: &Vec<PluginMeta>,
    winners: &Vec<usize>,
    id: &str,
    version: &str,
    system: bool,
) -> (r: bool)
    requires
        winners_of(plugins@, winners@, plugins@.len() as int),
    ensures
        r == active(plugins@, id@, version@, system),
{
    match find_winner(plugins, winners, id, plugins.len()) {
        Some(k) => {
            let w: usize = winners[k];
            proof {
                law_winner_is_a_copy(plugins@, id@, plugins@.len() as int);
            }
            same(plugins[w].version.as_str(), version) && plugins[w].system == system
        },
        None => false,
    }
}

proof fn lemma_best(plugins: Seq<PluginMeta>, id: Seq<char>, n: int, w: int)
    requires
        0 < n <= plugins.len(),
        semantic(plugins, id),
        plugins[n - 1].id@ == id,
        winner(plugins, id, n - 1) == Some(w),
        forall|j: int|
            0 <= j < n - 1 && j != w && (#[trigger] plugins[j]).id@ == id ==> !beats(
                plugins[j],
                plugins[w],
            ),
        forall|third: PluginMeta|
            #![trigger priority_order(third, plugins[w])]
            version::semver_valid(version::bare(third.version@)) && !(priority_order(
                third,
                plugins[w],
            ) is Greater) && priority_order(plugins[n - 1], plugins[w]) is Greater
                ==> !(priority_order(third, plugins[n - 1]) is Greater),
        priority_order(plugins[w], plugins[n - 1]) == priority_order(
            plugins[n - 1],
            plugins[w],
        ).reversed(),
    ensures
        forall|j: int|
            0 <= j < n && (#[trigger] plugins[j]).id@ == id && winner(plugins, id, n) != Some(j)
                ==> !beats(plugins[j], plugins[winner(plugins, id, n)->0]),
{
    assert forall|j: int|
        0 <= j < n && (#[trigger] plugins[j]).id@ == id && winner(plugins, id, n) != Some(
            j,
        ) implies !beats(plugins[j], plugins[winner(plugins, id, n)->0]) by {
        if j < n - 1 && j != w {
            assert(!(priority_order(plugins[j], plugins[w]) is Greater));
        }
    }
}

/// Where all copies of a plugin have semantic versions, no other copy beats
/// the active one.
pub open spec fn best_copies(plugins: Seq<PluginMeta>, n: int) -> bool {
    forall|id: Seq<char>, j: int|
        #![trigger winner(plugins, id, n), plugins[j]]
        semantic(plugins, id) && 0 <= j < n && plugins[j].id@ == id && winner(plugins, id, n)
            != Some(j) ==> winner(plugins, id, n) is Some && !beats(
            plugins[j],
            plugins[winner(plugins, id, n)->0],
        )
}

/// Chooses the active copies and records the others.
fn choose_winners(
    plugins: &Vec<PluginMeta>,
    inactive_system: &mut Vec<String>,
    inactive_user: &mut Vec<String>,
) -> (winners: Vec<usize>)
    requires
        old(inactive_system)@.len() == 0,
        old(inactive_user)@.len() == 0,
    ensures
        winners_of(plugins@, winners@, plugins@.len() as int),
        best_copies(plugins@, plugins@.len() as int),
        text::ascending(text::views(final(inactive_system)@)),
        text::ascending(text::views(final(inactive_user)@)),
        text::views(final(inactive_system)@).to_set() == inactive(
            plugins@,
            true,
            plugins@.len() as int,
        ),
        text::views(final(inactive_user)@).to_set() == inactive(
            plugins@,
            false,
            plugins@.len() as int,
        ),
{
    let mut winners: Vec<usize> = Vec::new();
    let mut i: usize = 0;
    assert(text::views(inactive_system@).to_set() =~= Set::<Seq<char>>::empty());
    assert(text::views(inactive_user@).to_set() =~= Set::<Seq<char>>::empty());
    while i < plugins.len()
        invariant
            i <= plugins@.len(),
            winners_of(plugins@, winners@, i as int),
            best_copies(plugins@, i as int),
            text::ascending(text::views(inactive_system@)),
            text::ascending(text::views(inactive_user@)),
            text::views(inactive_system@).to_set() == inactive(plugins@, true, i as int),
            text::views(inactive_user@).to_set() == inactive(plugins@, false, i as int),
        decreases plugins@.len() - i,
    {
        let ghost p = plugins@;
        let ghost n = i + 1;
        let ghost mine = p[i as int].id@;
        let ghost before = winners@;
        proof {
            law_winner_is_a_copy(p, mine, i as int);
        }
        match find_winner(plugins, &winners, plugins[i].id.as_str(), i) {
            None => {
                winners.push(i);
                proof {
                    lemma_new_winner(p, before, i as int);
                    assert(winners@ =~= before.push(i));
                    assert(best_copies(p, n)) by {
                        assert forall|id: Seq<char>, j: int|
                            #![trigger winner(p, id, n), p[j]]
                            semantic(p, id) && 0 <= j < n && p[j].id@ == id && winner(p, id, n)
                                != Some(j) implies winner(p, id, n) is Some && !beats(
                            p[j],
                            p[winner(p, id, n)->0],
                        ) by {
                            if id == mine {
                                assert(j == i);
                            } else {
                                assert(winner(p, id, n) == winner(p, id, i as int));
                            }
                        }
                    }
                }
            },
            Some(k) => {
                let w: usize = winners[k];
                let outcome = plugin_priority(&plugins[i], &plugins[w]);
                proof {
                    assert(best_copies(p, n)) by {
                        assert forall|id: Seq<char>, j: int|
                            #![trigger winner(p, id, n), p[j]]
                            semantic(p, id) && 0 <= j < n && p[j].id@ == id && winner(p, id, n)
                                != Some(j) implies winner(p, id, n) is Some && !beats(
                            p[j],
                            p[winner(p, id, n)->0],
                        ) by {
                            if id == mine {
                                assert(winner(p, mine, i as int) == Some(w as int));
                                assert(p[w as int].id@ == mine);
                                assert forall|a: int|
                                    0 <= a < n - 1 && a != w && (#[trigger] p[a]).id@
                                        == id implies !beats(
                                    p[a],
                                    p[w as int],
                                ) by {
                                    assert(winner(p, id, i as int) is Some);
                                }
                                lemma_best(p, id, n, w as int);
                            } else {
                                assert(winner(p, id, n) == winner(p, id, i as int));
                            }
                        }
                    }
                }
                if outcome == Order::Greater {
                    record_inactive(&plugins[w], inactive_system, inactive_user);
                    winners.set(k, i);
                    proof {
                        lemma_replaced_winner(p, before, k as int, i as int);
                        assert(winners@ =~= before.update(k as int, i));
                    }
                } else {
                    record_inactive(&plugins[i], inactive_system, inactive_user);
                    proof {
                        lemma_kept_winner(p, before, i as int);
                    }
                }
            },
        }
        i = i + 1;
    }
    winners
}

proof fn lemma_new_winner(p: Seq<PluginMeta>, winners: Seq<usize>, i: int)
    requires
        0 <= i < p.len(),
        i <= usize::MAX,
        winners_of(p, winners, i),
        winner(p, p[i].id@, i) is None,
    ensures
        winners_of(p, winners.push(i as usize), i + 1),
{
    let after = winners.push(i as usize);
    assert forall|k: int| 0 <= k < after.len() implies 0 <= (#[trigger] after[k]) < i + 1 && winner(
        p,
        p[after[k] as int].id@,
        i + 1,
    ) == Some(after[k] as int) by {
        if k < winners.len() {
            assert(after[k] == winners[k]);
        }
    }
    assert forall|id: Seq<char>| (#[trigger] winner(p, id, i + 1)) matches Some(w) implies exists|k: int|
        0 <= k < after.len() && #[trigger] after[k] == winner(p, id, i + 1)->0 by {
        if id == p[i].id@ {
            assert(after[winners.len() as int] == i);
        } else {
            let w = winner(p, id, i)->0;
            let k = choose|k: int| 0 <= k < winners.len() && #[trigger] winners[k] == w;
            assert(after[k] == w);
        }
    }
}

proof fn lemma_replaced_winner(p: Seq<PluginMeta>, winners: Seq<usize>, k: int, i: int)
    requires
        0 <= i < p.len(),
        i <= usize::MAX,
        winners_of(p, winners, i),
        0 <= k < winners.len(),
        winner(p, p[i].id@, i) == Some(winners[k] as int),
        beats(p[i], p[winners[k] as int]),
    ensures
        winners_of(p, winners.update(k, i as usize), i + 1),
{
    let after = winners.update(k, i as usize);
    law_winner_is_a_copy(p, p[i].id@, i);
    assert forall|a: int| 0 <= a < after.len() implies 0 <= (#[trigger] after[a]) < i + 1 && winner(
        p,
        p[after[a] as int].id@,
        i + 1,
    ) == Some(after[a] as int) by {
        if a != k {
            assert(after[a] == winners[a]);
            if p[winners[a] as int].id@ == p[i].id@ {
                assert(winner(p, p[winners[a] as int].id@, i) == Some(winners[a] as int));
                assert(winners[a] == winners[k]);
            }
        }
    }
    assert forall|id: Seq<char>| (#[trigger] winner(p, id, i + 1)) matches Some(w) implies exists|a: int|
        0 <= a < after.len() && #[trigger] after[a] == winner(p, id, i + 1)->0 by {
        if id == p[i].id@ {
            assert(after[k] == i);
        } else {
            let w = winner(p, id, i)->0;
            law_winner_is_a_copy(p, id, i);
            let a = choose|a: int| 0 <= a < winners.len() && #[trigger] winners[a] == w;
            assert(a != k);
            assert(after[a] == w);
        }
    }
}

proof fn lemma_kept_winner(p: Seq<PluginMeta>, winners: Seq<usize>, i: int)
    requires
        0 <= i < p.len(),
        winners_of(p, winners, i),
        winner(p, p[i].id@, i) is Some,
        !beats(p[i], p[winner(p, p[i].id@, i)->0]),
    ensures
        winners_of(p, winners, i + 1),
{
    assert forall|id: Seq<char>| (#[trigger] winner(p, id, i + 1)) matches Some(w) implies exists|
        k: int,
    | 0 <= k < winners.len() && #[trigger] winners[k] == winner(p, id, i + 1)->0 by {
        assert(winner(p, id, i) == winner(p, id, i + 1));
    }
}

/// Keeps the active copy of each plugin with its components, and lists the
/// ids of the other copies by owner.
pub fn select_active_plugins(scan: PluginScan) -> (r: PluginScan)
    ensures
        r.plugins@ == scan.plugins@.filter(keeps_plugin(scan.plugins@)),
        r.entries@ == scan.entries@.filter(keeps_entry(scan.plugins@)),
        r.renderers@ == scan.renderers@.filter(keeps_renderer(scan.plugins@)),
        r.incompatible@ == scan.incompatible@.filter(keeps_refusal(scan.plugins@)),
        text::ascending(text::views(r.inactive_system@)),
        text::ascending(text::views(r.inactive_user@)),
        text::views(r.inactive_system@).to_set() == inactive(
            scan.plugins@,
            true,
            scan.plugins@.len() as int,
        ),
        text::views(r.inactive_user@).to_set() == inactive(
            scan.plugins@,
            false,
            scan.plugins@.len() as int,
        ),
        best_copies(scan.plugins@, scan.plugins@.len() as int),
{
    let PluginScan { renderers, entries, plugins, inactive_system: _, inactive_user: _, incompatible } =
        scan;
    let mut inactive_system: Vec<String> = Vec::new();
    let mut inactive_user: Vec<String> = Vec::new();
    let winners = choose_winners(&plugins, &mut inactive_system, &mut inactive_user);

    let mut flags: Vec<bool> = Vec::new();
    let mut i: usize = 0;
    while i < entries.len()
        invariant
            i <= entries@.len(),
            flags@.len() == i,
            winners_of(plugins@, winners@, plugins@.len() as int),
            forall|j: int| 0 <= j < i ==> #[trigger] flags@[j] == keeps_entry(plugins@)(entries@[j]),
        decreases entries@.len() - i,
    {
        let e = &entries[i];
        flags.push(
            is_active(
                &plugins,
                &winners,
                e.plugin_id.as_str(),
                e.plugin_version.as_str(),
                e.plugin_system,
            ),
        );
        i = i + 1;
    }
    proof {
        text::lemma_flagged_is_filter(entries@, flags@, keeps_entry(plugins@));
    }
    let entries = retain_flagged(entries, &flags);

    let mut flags: Vec<bool> = Vec::new();
    let mut i: usize = 0;
    while i < renderers.len()
        invariant
            i <= renderers@.len(),
            flags@.len() == i,
            winners_of(plugins@, winners@, plugins@.len() as int),
            forall|j: int|
                0 <= j < i ==> #[trigger] flags@[j] == keeps_renderer(plugins@)(renderers@[j]),
        decreases renderers@.len() - i,
    {
        let d = &renderers[i];
        flags.push(
            is_active(
                &plugins,
                &winners,
                d.plugin_id.as_str(),
                d.plugin_version.as_str(),
                d.plugin_system,
            ),
        );
        i = i + 1;
    }
    proof {
        text::lemma_flagged_is_filter(renderers@, flags@, keeps_renderer(plugins@));
    }
    let renderers = retain_flagged(renderers, &flags);

    let mut flags: Vec<bool> = Vec::new();
    let mut i: usize = 0;
    while i < incompatible.len()
        invariant
            i <= incompatible@.len(),
            flags@.len() == i,
            winners_of(plugins@, winners@, plugins@.len() as int),
            forall|j: int|
                0 <= j < i ==> #[trigger] flags@[j] == keeps_refusal(plugins@)(incompatible@[j]),
        decreases incompatible@.len() - i,
    {
        let refusal = &incompatible[i];
        flags.push(
            is_active(
                &plugins,
                &winners,
                refusal.plugin_id.as_str(),
                refusal.plugin_version.as_str(),
                refusal.plugin_system,
            ),
        );
        i = i + 1;
    }
    proof {
        text::lemma_flagged_is_filter(incompatible@, flags@, keeps_refusal(plugins@));
    }
    let incompatible = retain_flagged(incompatible, &flags);

    let mut flags: Vec<bool> = Vec::new();
    let mut i: usize = 0;
    while i < plugins.len()
        invariant
            i <= plugins@.len(),
            flags@.len() == i,
            winners_of(plugins@, winners@, plugins@.len() as int),
            forall|j: int|
                0 <= j < i ==> #[trigger] flags@[j] == keeps_plugin(plugins@)(plugins@[j]),
        decreases plugins@.len() - i,
    {
        let m = &plugins[i];
        flags.push(is_active(&plugins, &winners, m.id.as_str(), m.version.as_str(), m.system));
        i = i + 1;
    }
    proof {
        text::lemma_flagged_is_filter(plugins@, flags@, keeps_plugin(plugins@));
    }
    let plugins = retain_flagged(plugins, &flags);
    PluginScan { renderers, entries, plugins, inactive_system, inactive_user, incompatible }
}

/// A plugin of which some copy is installed stays, in the copy that won.
pub proof fn law_winner_is_kept(plugins: Seq<PluginMeta>, j: int)
    requires
        0 <= j < plugins.len(),
    ensures
        ({
            let w = winner(plugins, plugins[j].id@, plugins.len() as int);
            &&& w is Some
            &&& 0 <= w->0 < plugins.len()
            &&& plugins[w->0].id@ == plugins[j].id@
            &&& plugins.filter(keeps_plugin(plugins)).contains(plugins[w->0])
        }),
{
    let n = plugins.len() as int;
    law_winner_is_a_copy(plugins, plugins[j].id@, n);
    let w = winner(plugins, plugins[j].id@, n)->0;
    assert(keeps_plugin(plugins)(plugins[w]));
    plugins.lemma_filter_contains(keeps_plugin(plugins), w);
}

/// Every refusal that is reported is of the active copy of its plugin: a copy
/// that can be served is never reported for the sake of one that it stands in
/// for.
pub proof fn law_refusal_is_of_the_active_copy(
    plugins: Seq<PluginMeta>,
    refusals: Seq<PluginIncompat>,
    k: int,
)
    requires
        0 <= k < refusals.filter(keeps_refusal(plugins)).len(),
    ensures
        ({
            let reported = refusals.filter(keeps_refusal(plugins))[k];
            let w = winner(plugins, reported.plugin_id@, plugins.len() as int);
            &&& w is Some
            &&& plugins[w->0].version@ == reported.plugin_version@
            &&& plugins[w->0].system == reported.plugin_system
        }),
{
    refusals.lemma_filter_pred(keeps_refusal(plugins), k);
}

/// The scans of the roots of one owner, one after the other.
pub open spec fn owned(roots: Seq<PluginRoot>, scans: Seq<Option<PluginScan>>, system: bool) -> Seq<
    PluginScan,
>
    decreases scans.len(),
{
    if scans.len() == 0 {
        Seq::empty()
    } else {
        let last = scans.len() - 1;
        let before = owned(roots, scans.drop_last(), system);
        if roots[last].system == system && scans[last] is Some {
            before.push(scans[last]->0)
        } else {
            before
        }
    }
}

/// All plugins of several scans.
pub open spec fn all_plugins(scans: Seq<PluginScan>) -> Seq<PluginMeta>
    decreases scans.len(),
{
    if scans.len() == 0 {
        Seq::empty()
    } else {
        all_plugins(scans.drop_last()) + scans.last().plugins@
    }
}

pub open spec fn all_entries(scans: Seq<PluginScan>) -> Seq<EntryRef>
    decreases scans.len(),
{
    if scans.len() == 0 {
        Seq::empty()
    } else {
        all_entries(scans.drop_last()) + scans.last().entries@
    }
}

pub open spec fn all_renderers(scans: Seq<PluginScan>) -> Seq<RendererDef>
    decreases scans.len(),
{
    if scans.len() == 0 {
        Seq::empty()
    } else {
        all_renderers(scans.drop_last()) + scans.last().renderers@
    }
}

pub open spec fn all_refusals(scans: Seq<PluginScan>) -> Seq<PluginIncompat>
    decreases scans.len(),
{
    if scans.len() == 0 {
        Seq::empty()
    } else {
        all_refusals(scans.drop_last()) + scans.last().incompatible@
    }
}

fn merge_all(scans: Vec<PluginScan>) -> (r: PluginScan)
    ensures
        r.plugins@ == all_plugins(scans@),
        r.entries@ == all_entries(scans@),
        r.renderers@ == all_renderers(scans@),
        r.incompatible@ == all_refusals(scans@),
{
    let ghost all = scans@;
    let mut left = scans;
    let mut whole = PluginScan::default();
    let ghost mut done: int = 0;
    assert(all.take(0) =~= Seq::<PluginScan>::empty());
    while left.len() > 0
        invariant
            0 <= done <= all.len(),
            left@ == all.skip(done),
            whole.plugins@ == all_plugins(all.take(done)),
            whole.entries@ == all_entries(all.take(done)),
            whole.renderers@ == all_renderers(all.take(done)),
            whole.incompatible@ == all_refusals(all.take(done)),
        decreases left@.len(),
    {
        let scan = left.remove(0);
        proof {
            assert(scan == all[done]);
            assert(all.take(done + 1).drop_last() =~= all.take(done));
            assert(all.take(done + 1).last() == scan);
            assert(left@ =~= all.skip(done + 1));
            done = done + 1;
        }
        whole.merge(scan);
    }
    assert(all.take(done) =~= all);
    whole
}

/// Merges the scans of several roots, those of the system before those of the
/// user, and keeps the active copies. A root that is no directory has no scan.
pub fn scan_plugin_roots(roots: &Vec<PluginRoot>, scans: Vec<Option<PluginScan>>) -> (r: PluginScan)
    requires
        roots@.len() == scans@.len(),
    ensures
        ({
            let order = owned(roots@, scans@, true) + owned(roots@, scans@, false);
            let plugins = all_plugins(order);
            &&& r.plugins@ == plugins.filter(keeps_plugin(plugins))
            &&& r.entries@ == all_entries(order).filter(keeps_entry(plugins))
            &&& r.renderers@ == all_renderers(order).filter(keeps_renderer(plugins))
            &&& r.incompatible@ == all_refusals(order).filter(keeps_refusal(plugins))
            &&& text::ascending(text::views(r.inactive_system@))
            &&& text::ascending(text::views(r.inactive_user@))
            &&& text::views(r.inactive_system@).to_set() == inactive(
                plugins,
                true,
                plugins.len() as int,
            )
            &&& text::views(r.inactive_user@).to_set() == inactive(
                plugins,
                false,
                plugins.len() as int,
            )
            &&& best_copies(plugins, plugins.len() as int)
        }),
{
    let ghost all = scans@;
    let mut left = scans;
    let mut system: Vec<PluginScan> = Vec::new();
    let mut user: Vec<PluginScan> = Vec::new();
    let n: usize = roots.len();
    let mut i: usize = 0;
    assert(all.take(0) =~= Seq::<Option<PluginScan>>::empty());
    assert(left@ =~= all.skip(0));
    while left.len() > 0
        invariant
            n == roots@.len(),
            roots@.len() == all.len(),
            i + left@.len() == all.len(),
            left@ == all.skip(i as int),
            system@ == owned(roots@, all.take(i as int), true),
            user@ == owned(roots@, all.take(i as int), false),
        decreases left@.len(),
    {
        let scan = left.remove(0);
        proof {
            assert(scan == all[i as int]);
            assert(all.take(i + 1).drop_last() =~= all.take(i as int));
            assert(all.take(i + 1)[i as int] == scan);
            assert(left@ =~= all.skip(i + 1));
        }
        if let Some(scan) = scan {
            if roots[i].system {
                system.push(scan);
            } else {
                user.push(scan);
            }
        }
        i = i + 1;
    }
    assert(all.take(i as int) =~= all);
    system.append(&mut user);
    select_active_plugins(merge_all(system))
}

// ---------------------------------------------------------------------------
// Renderers

/// How many renderers have at least a priority.
pub open spec fn at_least(defs: Seq<Arc<RendererDef>>, priority: int) -> int
    decreases defs.len(),
{
    if defs.len() == 0 {
        0
    } else {
        at_least(defs.drop_last(), priority) + if defs.last().priority >= priority {
            1int
        } else {
            0int
        }
    }
}

/// The renderers after one more, which comes behind the others of its
/// priority.
pub open spec fn with_renderer(defs: Seq<Arc<RendererDef>>, def: Arc<RendererDef>) -> Seq<
    Arc<RendererDef>,
> {
    defs.insert(at_least(defs, def.priority as int), def)
}

/// Highest priority first.
pub open spec fn by_priority(defs: Seq<Arc<RendererDef>>) -> bool {
    forall|i: int, j: int|
        0 <= i < j < defs.len() ==> (#[trigger] defs[i]).priority >= (#[trigger] defs[j]).priority
}

proof fn lemma_at_least(defs: Seq<Arc<RendererDef>>, priority: int, k: int)
    requires
        0 <= k <= defs.len(),
        forall|i: int| 0 <= i < k ==> (#[trigger] defs[i]).priority >= priority,
        forall|i: int| k <= i < defs.len() ==> (#[trigger] defs[i]).priority < priority,
    ensures
        at_least(defs, priority) == k,
    decreases defs.len(),
{
    if defs.len() > 0 {
        assert(defs.last() == defs[defs.len() - 1]);
        if k == defs.len() {
            lemma_at_least(defs.drop_last(), priority, k - 1);
        } else {
            lemma_at_least(defs.drop_last(), priority, k);
        }
    }
}

fn insert_renderer(defs: &mut Vec<Arc<RendererDef>>, def: Arc<RendererDef>)
    requires
        by_priority(old(defs)@),
    ensures
        final(defs)@ == with_renderer(old(defs)@, def),
        by_priority(final(defs)@),
{
    let ghost before = defs@;
    let mut k: usize = 0;
    while k < defs.len() && defs[k].priority >= def.priority
        invariant
            k <= defs@.len(),
            defs@ == before,
            by_priority(before),
            forall|j: int| 0 <= j < k ==> (#[trigger] before[j]).priority >= def.priority,
        decreases defs@.len() - k,
    {
        k = k + 1;
    }
    proof {
        assert forall|j: int| k <= j < before.len() implies (#[trigger] before[j]).priority
            < def.priority by {
            if j > k {
                assert(before[k as int].priority >= before[j].priority);
            }
        }
        lemma_at_least(before, def.priority as int, k as int);
    }
    defs.insert(k, def);
    proof {
        let after = defs@;
        assert forall|a: int, b: int| 0 <= a < b < after.len() implies (#[trigger] after[a]).priority
            >= (#[trigger] after[b]).priority by {
            let x = if a < k { a } else { a - 1 };
            let y = if b < k { b } else { b - 1 };
            if a != k {
                assert(after[a] == before[x]);
            }
            if b != k {
                assert(after[b] == before[y]);
            }
        }
    }
}

/// The renderers of each kind of wallpaper.
pub type RendererTable = Map<Seq<char>, Seq<Arc<RendererDef>>>;

pub open spec fn renderers_for(table: RendererTable, wp_type: Seq<char>) -> Seq<Arc<RendererDef>> {
    if table.contains_key(wp_type) {
        table[wp_type]
    } else {
        Seq::empty()
    }
}

/// The table after a renderer was entered for some kinds, one after the other.
pub open spec fn with_types(
    table: RendererTable,
    types: Seq<Seq<char>>,
    def: Arc<RendererDef>,
) -> RendererTable
    decreases types.len(),
{
    if types.len() == 0 {
        table
    } else {
        let before = with_types(table, types.drop_last(), def);
        before.insert(types.last(), with_renderer(renderers_for(before, types.last()), def))
    }
}

/// The known renderers.
pub struct RendererRegistry {
    by_type: TextMap<Vec<Arc<RendererDef>>>,
}

impl View for RendererRegistry {
    type V = RendererTable;

    closed spec fn view(&self) -> RendererTable {
        self.by_type@.map_values(|defs: Vec<Arc<RendererDef>>| defs@)
    }
}

impl RendererRegistry {
    /// Each kind that is listed has renderers, highest priority first.
    pub closed spec fn wf(self) -> bool {
        &&& self.by_type.wf()
        &&& forall|t: Seq<char>| #[trigger] self@.contains_key(t) ==> by_priority(self@[t]) && self@[t].len() > 0
    }

    pub fn new() -> (registry: Self)
        ensures
            registry.wf(),
            registry@ == Map::<Seq<char>, Seq<Arc<RendererDef>>>::empty(),
    {
        let registry = RendererRegistry { by_type: TextMap::new() };
        assert(registry@ =~= Map::<Seq<char>, Seq<Arc<RendererDef>>>::empty());
        registry
    }

    /// Enters a renderer under each kind that it shows.
    pub fn register(&mut self, def: RendererDef)
        requires
            old(self).wf(),
        ensures
            final(self).wf(),
            final(self)@ == with_types(old(self)@, text::views(def.types@), Arc::new(def)),
    {
        let ghost start = self@;
        let shared = Arc::new(def);
        let ghost kinds = text::views(shared.types@);
        let mut i: usize = 0;
        assert(kinds.take(0) =~= Seq::<Seq<char>>::empty());
        while i < shared.types.len()
            invariant
                i <= shared.types@.len(),
                kinds == text::views(shared.types@),
                self.wf(),
                self@ == with_types(start, kinds.take(i as int), shared),
            decreases shared.types@.len() - i,
        {
            let ghost before = *self;
            let kind = shared.types[i].as_str();
            let mut defs: Vec<Arc<RendererDef>> = match self.by_type.remove(kind) {
                Some(defs) => defs,
                None => Vec::new(),
            };
            proof {
                assert(before@.contains_key(kind@) <==> before.by_type@.contains_key(kind@));
                assert(defs@ == renderers_for(before@, kind@));
            }
            insert_renderer(&mut defs, shared.clone());
            self.by_type.insert(kind.to_owned(), defs);
            proof {
                assert(kinds.take(i + 1).drop_last() =~= kinds.take(i as int));
                assert(kinds.take(i + 1).last() == kind@);
                let wanted = before@.insert(kind@, with_renderer(renderers_for(before@, kind@), shared));
                assert(self.by_type@ =~= before.by_type@.insert(kind@, defs));
                assert(self@ =~= wanted);
                assert forall|t: Seq<char>| #[trigger] self@.contains_key(t) implies by_priority(
                    self@[t],
                ) && self@[t].len() > 0 by {
                    if t != kind@ {
                        assert(before@.contains_key(t));
                        assert(self@[t] == before@[t]);
                    } else {
                        assert(self@[t] == defs@);
                    }
                }
            }
            i = i + 1;
        }
        assert(kinds.take(i as int) =~= kinds);
    }

    /// The renderer of the highest priority for a kind of wallpaper; of equal
    /// ones the one that was entered first.
    pub fn resolve(&self, wp_type: &str) -> (r: Option<&RendererDef>)
        requires
            self.wf(),
        ensures
            match r {
                Some(def) => resolved(self@, wp_type@) == Some(Arc::new(*def)) && forall|i: int|
                    0 <= i < self@[wp_type@].len() ==> (#[trigger] self@[wp_type@][i]).priority
                        <= def.priority,
                None => resolved(self@, wp_type@) is None,
            },
    {
        match self.by_type.get(wp_type) {
            Some(defs) => {
                assert(self@.contains_key(wp_type@));
                assert(self@[wp_type@] == defs@);
                let first: &RendererDef = &*defs[0];
                proof {
                    assert forall|i: int| 0 <= i < defs@.len() implies (
                    #[trigger] self@[wp_type@][i]).priority <= first.priority by {
                        if i > 0 {
                            assert(self@[wp_type@][0].priority >= self@[wp_type@][i].priority);
                        }
                    }
                }
                Some(first)
            },
            None => {
                assert(!self@.contains_key(wp_type@));
                None
            },
        }
    }

    /// A renderer with a name, whatever it shows.
    pub fn resolve_by_name(&self, name: &str) -> (r: Option<&RendererDef>)
        requires
            self.wf(),
        ensures
            match r {
                Some(def) => def.name@ == name@ && listed_in(self@, Arc::new(*def)),
                None => forall|def: Arc<RendererDef>|
                    #[trigger] listed_in(self@, def) ==> def.name@ != name@,
            },
    {
        let n: usize = self.by_type.len();
        let ghost order = self.by_type.order();
        proof {
            self.by_type.lemma_order();
        }
        let mut k: usize = 0;
        while k < n
            invariant
                self.wf(),
                n == order.len(),
                order == self.by_type.order(),
                k <= n,
                forall|a: int, i: int|
                    0 <= a < k && 0 <= i < self@[order[a]].len() ==> (
                    #[trigger] self@[order[a]][i]).name@ != name@,
            decreases n - k,
        {
            let defs = self.by_type.value_at(k);
            proof {
                self.by_type.lemma_order();
                assert(self.by_type@.contains_key(order[k as int]));
                assert(self@[order[k as int]] == defs@);
            }
            let mut i: usize = 0;
            while i < defs.len()
                invariant
                    i <= defs@.len(),
                    k < order.len(),
                    self@.contains_key(order[k as int]),
                    self@[order[k as int]] == defs@,
                    forall|j: int| 0 <= j < i ==> (#[trigger] defs@[j]).name@ != name@,
                decreases defs@.len() - i,
            {
                let def: &RendererDef = &*defs[i];
                if same(def.name.as_str(), name) {
                    assert(self@[order[k as int]][i as int] == Arc::new(*def));
                    return Some(def);
                }
                i = i + 1;
            }
            k = k + 1;
        }
        proof {
            self.by_type.lemma_order();
            assert forall|def: Arc<RendererDef>| #[trigger] listed_in(self@, def) implies def.name@
                != name@ by {
                let (t, i) = choose|t: Seq<char>, i: int|
                    self@.contains_key(t) && 0 <= i < self@[t].len() && #[trigger] self@[t][i] == def;
                assert(self.by_type@.contains_key(t));
                assert(order.contains(t));
                let a = choose|a: int| 0 <= a < order.len() && order[a] == t;
                assert(self@[order[a]][i].name@ != name@);
            }
        }
        None
    }

    /// The kinds of wallpapers that some renderer shows, each once.
    pub fn supported_types(&self) -> (types: Vec<String>)
        requires
            self.wf(),
        ensures
            text::views(types@).no_duplicates(),
            text::views(types@).to_set() == self@.dom(),
    {
        let n: usize = self.by_type.len();
        let ghost order = self.by_type.order();
        let mut types: Vec<String> = Vec::new();
        let mut k: usize = 0;
        while k < n
            invariant
                self.wf(),
                n == order.len(),
                order == self.by_type.order(),
                k <= n,
                text::views(types@) == order.take(k as int),
            decreases n - k,
        {
            let key = self.by_type.key_at(k).clone();
            proof {
                text::lemma_views_push(types@, key);
                assert(order.take(k + 1) =~= order.take(k as int).push(order[k as int]));
            }
            types.push(key);
            k = k + 1;
        }
        proof {
            assert(order.take(k as int) =~= order);
            self.by_type.lemma_order();
            assert forall|t: Seq<char>| #[trigger] order.to_set().contains(t) <==> self@.dom().contains(
                t,
            ) by {
                assert(self.by_type@.contains_key(t) <==> order.contains(t));
            }
            assert(order.to_set() =~= self@.dom());
        }
        types
    }

    /// Every renderer name once, with one of the renderers of that name.
    pub fn all_renderers(&self) -> (defs: Vec<Arc<RendererDef>>)
        requires
            self.wf(),
        ensures
            lists_names_once(self@, defs@),
    {
        let n: usize = self.by_type.len();
        let ghost order = self.by_type.order();
        let mut out: Vec<Arc<RendererDef>> = Vec::new();
        let mut k: usize = 0;
        while k < n
            invariant
                self.wf(),
                n == order.len(),
                order == self.by_type.order(),
                k <= n,
                forall|i: int, j: int|
                    0 <= i < j < out@.len() ==> (#[trigger] out@[i]).name@ != (
                    #[trigger] out@[j]).name@,
                forall|i: int| 0 <= i < out@.len() ==> listed_in(self@, #[trigger] out@[i]),
                forall|a: int, j: int|
                    0 <= a < k && 0 <= j < self@[order[a]].len() ==> named_in(
                        out@,
                        (#[trigger] self@[order[a]][j]).name@,
                    ),
            decreases n - k,
        {
            let defs = self.by_type.value_at(k);
            proof {
                self.by_type.lemma_order();
                assert(self.by_type@.contains_key(order[k as int]));
                assert(self@[order[k as int]] == defs@);
            }
            let mut d: usize = 0;
            while d < defs.len()
                invariant
                    d <= defs@.len(),
                    k < order.len(),
                    self@.contains_key(order[k as int]),
                    self@[order[k as int]] == defs@,
                    forall|i: int, j: int|
                        0 <= i < j < out@.len() ==> (#[trigger] out@[i]).name@ != (
                        #[trigger] out@[j]).name@,
                    forall|i: int| 0 <= i < out@.len() ==> listed_in(self@, #[trigger] out@[i]),
                    forall|a: int, j: int|
                        0 <= a < k && 0 <= j < self@[order[a]].len() ==> named_in(
                            out@,
                            (#[trigger] self@[order[a]][j]).name@,
                        ),
                    forall|j: int| 0 <= j < d ==> named_in(out@, (#[trigger] defs@[j]).name@),
                decreases defs@.len() - d,
            {
                if !lists_name(&out, defs[d].name.as_str()) {
                    let ghost before = out@;
                    out.push(defs[d].clone());
                    proof {
                        assert(out@[before.len() as int] == defs@[d as int]);
                        assert(self@[order[k as int]][d as int] == out@[before.len() as int]);
                        assert forall|name: Seq<char>| named_in(before, name) implies #[trigger] named_in(
                            out@,
                            name,
                        ) by {
                            let i = choose|i: int| 0 <= i < before.len() && (#[trigger] before[i]).name@ == name;
                            assert(out@[i] == before[i]);
                        }
                        assert(named_in(out@, defs@[d as int].name@));
                    }
                }
                d = d + 1;
            }
            k = k + 1;
        }
        proof {
            self.by_type.lemma_order();
            assert forall|def: Arc<RendererDef>| #[trigger] listed_in(self@, def) implies named_in(
                out@,
                def.name@,
            ) by {
                let (t, j) = choose|t: Seq<char>, j: int|
                    self@.contains_key(t) && 0 <= j < self@[t].len() && #[trigger] self@[t][j] == def;
                assert(self.by_type@.contains_key(t));
                assert(order.contains(t));
                let a = choose|a: int| 0 <= a < order.len() && order[a] == t;
                assert(named_in(out@, self@[order[a]][j].name@));
            }
        }
        out
    }
}

/// The renderer that is chosen for a kind of wallpaper.
pub open spec fn resolved(table: RendererTable, wp_type: Seq<char>) -> Option<Arc<RendererDef>> {
    if table.contains_key(wp_type) {
        Some(table[wp_type][0])
    } else {
        None
    }
}

/// Each name of the table's renderers occurs once in the list, with a renderer
/// of the table, and no other name does.
pub open spec fn lists_names_once(table: RendererTable, defs: Seq<Arc<RendererDef>>) -> bool {
    &&& forall|i: int, j: int|
        0 <= i < j < defs.len() ==> (#[trigger] defs[i]).name@ != (#[trigger] defs[j]).name@
    &&& forall|i: int| 0 <= i < defs.len() ==> listed_in(table, #[trigger] defs[i])
    &&& forall|def: Arc<RendererDef>| #[trigger]
        listed_in(table, def) ==> named_in(defs, def.name@)
}

/// The renderer is entered for some kind of wallpaper.
pub open spec fn listed_in(table: RendererTable, def: Arc<RendererDef>) -> bool {
    exists|t: Seq<char>, i: int|
        table.contains_key(t) && 0 <= i < table[t].len() && #[trigger] table[t][i] == def
}

/// Some renderer of the list has the name.
pub open spec fn named_in(defs: Seq<Arc<RendererDef>>, name: Seq<char>) -> bool {
    exists|i: int| 0 <= i < defs.len() && (#[trigger] defs[i]).name@ == name
}

fn lists_name(defs: &Vec<Arc<RendererDef>>, name: &str) -> (r: bool)
    ensures
        r == named_in(defs@, name@),
{
    let mut i: usize = 0;
    while i < defs.len()
        invariant
            i <= defs@.len(),
            forall|j: int| 0 <= j < i ==> (#[trigger] defs@[j]).name@ != name@,
        decreases defs@.len() - i,
    {
        if same(defs[i].name.as_str(), name) {
            assert(defs@[i as int].name@ == name@);
            return true;
        }
        i = i + 1;
    }
    false
}

// ---------------------------------------------------------------------------
// Laws on what was registered

/// The table of a registry in which some renderers were registered, one after
/// the other.
pub open spec fn registered(defs: Seq<RendererDef>) -> RendererTable
    decreases defs.len(),
{
    if defs.len() == 0 {
        Map::empty()
    } else {
        with_types(
            registered(defs.drop_last()),
            text::views(defs.last().types@),
            Arc::new(defs.last()),
        )
    }
}

pub open spec fn shows(def: RendererDef, wp_type: Seq<char>) -> bool {
    text::views(def.types@).contains(wp_type)
}

/// Of the renderers that show a kind of wallpaper none has a higher priority,
/// and none that comes earlier has as high a one.
pub open spec fn first_choice(defs: Seq<RendererDef>, wp_type: Seq<char>, i: int) -> bool {
    &&& 0 <= i < defs.len()
    &&& shows(defs[i], wp_type)
    &&& forall|j: int|
        0 <= j < defs.len() && shows(#[trigger] defs[j], wp_type) ==> defs[j].priority
            <= defs[i].priority && (j < i ==> defs[j].priority < defs[i].priority)
}

/// Registering one more renderer adds it to those that were registered.
pub proof fn law_registered_one_more(defs: Seq<RendererDef>, def: RendererDef)
    ensures
        registered(Seq::empty()) == Map::<Seq<char>, Seq<Arc<RendererDef>>>::empty(),
        registered(defs.push(def)) == with_types(
            registered(defs),
            text::views(def.types@),
            Arc::new(def),
        ),
{
    assert(defs.push(def).drop_last() =~= defs);
}

proof fn lemma_at_least_parts(defs: Seq<Arc<RendererDef>>, priority: int)
    requires
        by_priority(defs),
    ensures
        0 <= at_least(defs, priority) <= defs.len(),
        forall|i: int|
            0 <= i < at_least(defs, priority) ==> (#[trigger] defs[i]).priority >= priority,
        forall|i: int|
            at_least(defs, priority) <= i < defs.len() ==> (#[trigger] defs[i]).priority < priority,
    decreases defs.len(),
{
    if defs.len() > 0 {
        let front = defs.drop_last();
        assert forall|i: int, j: int| 0 <= i < j < front.len() implies (
        #[trigger] front[i]).priority >= (#[trigger] front[j]).priority by {
            assert(front[i] == defs[i] && front[j] == defs[j]);
        }
        lemma_at_least_parts(front, priority);
        let k = at_least(front, priority);
        if defs.last().priority >= priority && k < front.len() {
            assert(front[k] == defs[k]);
            assert(defs[k].priority >= defs[defs.len() - 1].priority);
        }
        assert forall|i: int| 0 <= i < at_least(defs, priority) implies (
        #[trigger] defs[i]).priority >= priority by {
            if i < front.len() {
                assert(front[i] == defs[i]);
            }
        }
        assert forall|i: int| at_least(defs, priority) <= i < defs.len() implies (
        #[trigger] defs[i]).priority < priority by {
            if i < front.len() {
                assert(front[i] == defs[i]);
            }
        }
    }
}

/// The head of the renderers after one more, and their order.
proof fn lemma_with_renderer(defs: Seq<Arc<RendererDef>>, def: Arc<RendererDef>)
    requires
        by_priority(defs),
    ensures
        by_priority(with_renderer(defs, def)),
        with_renderer(defs, def).len() == defs.len() + 1,
        with_renderer(defs, def)[0] == (if defs.len() > 0 && defs[0].priority >= def.priority {
            defs[0]
        } else {
            def
        }),
        forall|d: Arc<RendererDef>| #[trigger]
            with_renderer(defs, def).contains(d) <==> defs.contains(d) || d == def,
{
    lemma_at_least_parts(defs, def.priority as int);
    let k = at_least(defs, def.priority as int);
    let after = with_renderer(defs, def);
    assert forall|a: int, b: int| 0 <= a < b < after.len() implies (#[trigger] after[a]).priority
        >= (#[trigger] after[b]).priority by {
        let x = if a < k { a } else { a - 1 };
        let y = if b < k { b } else { b - 1 };
        if a != k {
            assert(after[a] == defs[x]);
        }
        if b != k {
            assert(after[b] == defs[y]);
        }
    }
    assert forall|d: Arc<RendererDef>| #[trigger] after.contains(d) <==> defs.contains(d) || d
        == def by {
        if after.contains(d) {
            let a = choose|a: int| 0 <= a < after.len() && after[a] == d;
            if a != k {
                let x = if a < k { a } else { a - 1 };
                assert(defs[x] == d);
            }
        }
        if defs.contains(d) {
            let x = choose|x: int| 0 <= x < defs.len() && defs[x] == d;
            let a = if x < k { x } else { x + 1 };
            assert(after[a] == d);
        }
        assert(after[k] == def);
    }
}

/// What entering a renderer for some kinds does to the renderers of one kind.
proof fn lemma_with_types(
    table: RendererTable,
    types: Seq<Seq<char>>,
    def: Arc<RendererDef>,
    t: Seq<char>,
)
    requires
        table.contains_key(t) ==> table[t].len() > 0,
        by_priority(renderers_for(table, t)),
    ensures
        ({
            let old_defs = renderers_for(table, t);
            let after = with_types(table, types, def);
            let defs = renderers_for(after, t);
            &&& by_priority(defs)
            &&& after.contains_key(t) ==> after[t].len() > 0
            &&& after.contains_key(t) <==> table.contains_key(t) || types.contains(t)
            &&& !types.contains(t) ==> defs == old_defs
            &&& types.contains(t) ==> defs[0] == (if old_defs.len() > 0 && old_defs[0].priority
                >= def.priority {
                old_defs[0]
            } else {
                def
            })
            &&& forall|d: Arc<RendererDef>| #[trigger]
                defs.contains(d) <==> old_defs.contains(d) || (d == def && types.contains(t))
        }),
    decreases types.len(),
{
    if types.len() > 0 {
        let front = types.drop_last();
        lemma_with_types(table, front, def, t);
        let before = with_types(table, front, def);
        assert(types =~= front.push(types.last()));
        assert(types.contains(t) <==> front.contains(t) || t == types.last()) by {
            if types.contains(t) {
                let a = choose|a: int| 0 <= a < types.len() && types[a] == t;
                if a < front.len() {
                    assert(front[a] == t);
                }
            }
            if front.contains(t) {
                let a = choose|a: int| 0 <= a < front.len() && front[a] == t;
                assert(types[a] == t);
            }
            assert(types[types.len() - 1] == types.last());
        }
        if t == types.last() {
            lemma_with_renderer(renderers_for(before, t), def);
        }
    } else {
        assert(!types.contains(t));
    }
}

proof fn lemma_registered_kind(defs: Seq<RendererDef>, t: Seq<char>)
    ensures
        by_priority(renderers_for(registered(defs), t)),
        registered(defs).contains_key(t) ==> registered(defs)[t].len() > 0,
        registered(defs).contains_key(t) <==> exists|i: int|
            0 <= i < defs.len() && shows(#[trigger] defs[i], t),
        registered(defs).contains_key(t) ==> exists|i: int| #[trigger]
            first_choice(defs, t, i) && registered(defs)[t][0] == Arc::new(defs[i]),
        forall|d: Arc<RendererDef>| #[trigger]
            renderers_for(registered(defs), t).contains(d) <==> exists|i: int|
                0 <= i < defs.len() && shows(#[trigger] defs[i], t) && d == Arc::new(defs[i]),
    decreases defs.len(),
{
    if defs.len() > 0 {
        let front = defs.drop_last();
        let last = defs.last();
        let n = defs.len() - 1;
        lemma_registered_kind(front, t);
        lemma_with_types(registered(front), text::views(last.types@), Arc::new(last), t);
        let before = registered(front);
        let after = registered(defs);
        assert(defs[n] == last);
        assert forall|i: int| 0 <= i < n implies #[trigger] defs[i] == front[i] by {}
        if after.contains_key(t) {
            if before.contains_key(t) {
                let i = choose|i: int| 0 <= i < front.len() && shows(#[trigger] front[i], t);
                assert(shows(defs[i], t));
                let f = choose|f: int| #[trigger]
                    first_choice(front, t, f) && before[t][0] == Arc::new(front[f]);
                if shows(last, t) && last.priority > front[f].priority {
                    assert(first_choice(defs, t, n)) by {
                        assert forall|j: int| 0 <= j < defs.len() && shows(
                            #[trigger] defs[j],
                            t,
                        ) implies defs[j].priority <= last.priority && (j < n ==> defs[j].priority
                            < last.priority) by {
                            if j < n {
                                assert(defs[j] == front[j]);
                            }
                        }
                    }
                } else {
                    assert(first_choice(defs, t, f)) by {
                        assert(defs[f] == front[f]);
                        assert forall|j: int| 0 <= j < defs.len() && shows(
                            #[trigger] defs[j],
                            t,
                        ) implies defs[j].priority <= defs[f].priority && (j < f
                            ==> defs[j].priority < defs[f].priority) by {
                            if j < n {
                                assert(defs[j] == front[j]);
                            }
                        }
                    }
                }
            } else {
                assert(shows(last, t));
                assert(first_choice(defs, t, n)) by {
                    assert forall|j: int| 0 <= j < defs.len() && shows(
                        #[trigger] defs[j],
                        t,
                    ) implies j == n by {
                        if j < n {
                            assert(shows(front[j], t));
                        }
                    }
                }
            }
        } else {
            assert forall|i: int| 0 <= i < defs.len() implies !shows(#[trigger] defs[i], t) by {
                if i < n {
                    assert(!shows(front[i], t));
                }
            }
        }
        assert forall|d: Arc<RendererDef>| #[trigger] renderers_for(after, t).contains(d)
            <==> exists|i: int|
            0 <= i < defs.len() && shows(#[trigger] defs[i], t) && d == Arc::new(defs[i]) by {
            if renderers_for(before, t).contains(d) {
                let i = choose|i: int|
                    0 <= i < front.len() && shows(#[trigger] front[i], t) && d == Arc::new(
                        front[i],
                    );
                assert(shows(defs[i], t) && d == Arc::new(defs[i]));
            }
            if exists|i: int|
                0 <= i < defs.len() && shows(#[trigger] defs[i], t) && d == Arc::new(defs[i]) {
                let i = choose|i: int|
                    0 <= i < defs.len() && shows(#[trigger] defs[i], t) && d == Arc::new(defs[i]);
                if i < n {
                    assert(shows(front[i], t) && d == Arc::new(front[i]));
                }
            }
        }
    }
}

/// A kind of wallpaper is resolved if and only if a renderer was registered
/// that shows it. The one that is chosen has the highest priority of those
/// that show it, and of several with that priority it was registered first.
pub proof fn law_first_of_highest_priority(defs: Seq<RendererDef>, wp_type: Seq<char>)
    ensures
        match resolved(registered(defs), wp_type) {
            Some(def) => exists|i: int| #[trigger]
                first_choice(defs, wp_type, i) && def == Arc::new(defs[i]),
            None => forall|i: int| 0 <= i < defs.len() ==> !shows(#[trigger] defs[i], wp_type),
        },
{
    lemma_registered_kind(defs, wp_type);
}

/// Whatever a registry lists: the names are distinct, each renderer was
/// registered, and the names are those of the registered renderers that show
/// some kind of wallpaper.
pub proof fn law_registered_names_are_listed(
    defs: Seq<RendererDef>,
    listed: Seq<Arc<RendererDef>>,
)
    requires
        lists_names_once(registered(defs), listed),
    ensures
        forall|i: int, j: int|
            0 <= i < j < listed.len() ==> (#[trigger] listed[i]).name@ != (
            #[trigger] listed[j]).name@,
        forall|k: int|
            0 <= k < listed.len() ==> exists|i: int|
                0 <= i < defs.len() && #[trigger] listed[k] == Arc::new(#[trigger] defs[i]),
        forall|name: Seq<char>| #[trigger]
            named_in(listed, name) <==> exists|i: int|
                0 <= i < defs.len() && (#[trigger] defs[i]).name@ == name && defs[i].types@.len()
                    > 0,
{
    let table = registered(defs);
    assert forall|d: Arc<RendererDef>| #[trigger] listed_in(table, d) implies exists|i: int|
        0 <= i < defs.len() && d == Arc::new(#[trigger] defs[i]) && defs[i].types@.len() > 0 by {
        let (t, k) = choose|t: Seq<char>, k: int|
            table.contains_key(t) && 0 <= k < table[t].len() && #[trigger] table[t][k] == d;
        lemma_registered_kind(defs, t);
        assert(renderers_for(table, t).contains(d));
        let i = choose|i: int|
            0 <= i < defs.len() && shows(#[trigger] defs[i], t) && d == Arc::new(defs[i]);
        assert(defs[i].types@.len() > 0);
    }
    assert forall|name: Seq<char>| #[trigger] named_in(listed, name) <==> exists|i: int|
        0 <= i < defs.len() && (#[trigger] defs[i]).name@ == name && defs[i].types@.len() > 0 by {
        if named_in(listed, name) {
            let k = choose|k: int| 0 <= k < listed.len() && (#[trigger] listed[k]).name@ == name;
            assert(listed_in(table, listed[k]));
        }
        if exists|i: int|
            0 <= i < defs.len() && (#[trigger] defs[i]).name@ == name && defs[i].types@.len() > 0 {
            let i = choose|i: int|
                0 <= i < defs.len() && (#[trigger] defs[i]).name@ == name && defs[i].types@.len()
                    > 0;
            let t = text::views(defs[i].types@)[0];
            assert(shows(defs[i], t));
            lemma_registered_kind(defs, t);
            let d = Arc::new(defs[i]);
            assert(renderers_for(table, t).contains(d));
            let k = choose|k: int|
                0 <= k < renderers_for(table, t).len() && renderers_for(table, t)[k] == d;
            assert(table[t][k] == d);
            assert(listed_in(table, d));
        }
    }
    assert forall|k: int| 0 <= k < listed.len() implies exists|i: int|
        0 <= i < defs.len() && #[trigger] listed[k] == Arc::new(#[trigger] defs[i]) by {
        assert(listed_in(table, listed[k]));
    }
}

// ---------------------------------------------------------------------------
// Laws on what is kept

/// The copies of a plugin that are kept have one version and one owner.
pub proof fn law_kept_copies_agree(plugins: Seq<PluginMeta>, i: int, j: int)
    requires
        0 <= i < plugins.filter(keeps_plugin(plugins)).len(),
        0 <= j < plugins.filter(keeps_plugin(plugins)).len(),
        plugins.filter(keeps_plugin(plugins))[i].id@ == plugins.filter(keeps_plugin(plugins))[j].id@,
    ensures
        plugins.filter(keeps_plugin(plugins))[i].version@ == plugins.filter(
            keeps_plugin(plugins),
        )[j].version@,
        plugins.filter(keeps_plugin(plugins))[i].system == plugins.filter(
            keeps_plugin(plugins),
        )[j].system,
{
    plugins.lemma_filter_pred(keeps_plugin(plugins), i);
    plugins.lemma_filter_pred(keeps_plugin(plugins), j);
}

// ---------------------------------------------------------------------------
// What a scan finds

/// A plugin whose declared translations can be read is found once, after the
/// plugins found before it. It says of itself what its manifest declares, is a
/// system plugin where its directory is below a system root, and lists the
/// declared files, then those of the file list.
pub proof fn law_scanned_plugin(before: PluginScan, found: PluginDirectory, after: PluginScan)
    requires
        scanned(before, found, after),
        found.manifest.plugin.i18n is None || found.translations is Ok,
    ensures
        after.plugins@.len() == before.plugins@.len() + 1,
        forall|i: int|
            0 <= i < before.plugins@.len() ==> #[trigger] after.plugins@[i] == before.plugins@[i],
        after.plugins@.last().id@ == found.manifest.plugin.id@,
        after.plugins@.last().name@ == found.manifest.plugin.name@,
        after.plugins@.last().version@ == found.manifest.plugin.version@,
        after.plugins@.last().update == found.manifest.plugin.update,
        after.plugins@.last().entry is None,
        after.plugins@.last().entry_version == found.manifest.plugin.entry_version,
        after.plugins@.last().i18n == found.manifest.plugin.i18n,
        after.plugins@.last().system == found.system,
        found.manifest.plugin.i18n is Some ==> Ok::<_, String>(after.plugins@.last().translations)
            == found.translations,
        found.manifest.plugin.i18n is None ==> after.plugins@.last().translations
            == found.manifest.plugin.translations,
        found.files is None ==> text::views(after.plugins@.last().files@) == text::views(
            found.manifest.plugin.files@,
        ),
        found.files matches Some(list) ==> text::views(after.plugins@.last().files@) == text::views(
            found.manifest.plugin.files@,
        ) + listed_files(text::split(list@, '\n')),
        after.inactive_system == before.inactive_system,
        after.inactive_user == before.inactive_user,
{
    assert forall|i: int| 0 <= i < before.plugins@.len() implies #[trigger] after.plugins@[i]
        == before.plugins@[i] by {
        assert(after.plugins@.drop_last()[i] == before.plugins@[i]);
    }
    if found.files is None {
        assert(text::views(after.plugins@.last().files@) =~= text::views(
            found.manifest.plugin.files@,
        ));
    }
}

/// A plugin whose declared translations cannot be read is passed over whole.
pub proof fn law_untranslatable_plugin(before: PluginScan, found: PluginDirectory, after: PluginScan)
    requires
        scanned(before, found, after),
        found.manifest.plugin.i18n is Some,
        found.translations is Err,
    ensures
        after == before,
{
}

/// Each line of a file list that is not blank names a file, without the white
/// space around it; the lines are taken one after another.
pub proof fn law_listed_files(lines: Seq<Seq<char>>, more: Seq<Seq<char>>, line: Seq<char>)
    ensures
        listed_files(lines + more) == listed_files(lines) + listed_files(more),
        text::trimmed(line).len() > 0 ==> listed_files(seq![line]) == seq![text::trimmed(line)],
        text::trimmed(line).len() == 0 ==> listed_files(seq![line]).len() == 0,
    decreases more.len(),
{
    assert(seq![line].drop_last() == Seq::<Seq<char>>::empty());
    assert(seq![line].last() == line);
    assert(listed_files(Seq::empty()).len() == 0);
    if text::trimmed(line).len() > 0 {
        assert(listed_files(seq![line]) =~= seq![text::trimmed(line)]);
    }
    if more.len() == 0 {
        assert(lines + more =~= lines);
        assert(listed_files(lines) + listed_files(more) =~= listed_files(lines));
    } else {
        law_listed_files(lines, more.drop_last(), line);
        assert((lines + more).drop_last() =~= lines + more.drop_last());
        assert((lines + more).last() == more.last());
        assert(listed_files(lines + more) =~= listed_files(lines) + listed_files(more));
    }
}

/// The entry of a plugin is queued where it is written for a served release:
/// under the plugin's id, version and root, with its path taken from the
/// plugin's directory. No other entry is, and none is refused then.
pub proof fn law_scanned_entry(before: PluginScan, found: PluginDirectory, after: PluginScan)
    requires
        scanned(before, found, after),
        found.manifest.plugin.i18n is None || found.translations is Ok,
    ensures
        found.manifest.plugin.entry matches Some(file) ==> (
        found.manifest.plugin.entry_version matches Some(v) ==> (v == 3 || v == 4 ==> {
            &&& after.entries@.len() == before.entries@.len() + 1
            &&& after.entries@.drop_last() == before.entries@
            &&& after.entries@.last().plugin_id@ == found.manifest.plugin.id@
            &&& after.entries@.last().plugin_version@ == found.manifest.plugin.version@
            &&& after.entries@.last().plugin_system == found.system
            &&& after.entries@.last().entry_version == v
            &&& path::is_absolute(file@) ==> after.entries@.last().entry@ == path::normalized(file@)
            &&& !path::is_absolute(file@) ==> after.entries@.last().entry@ == path::normalized(
                path::joined(found.dir@, file@),
            )
            &&& after.incompatible@ == before.incompatible@
        })),
        found.manifest.plugin.entry is None ==> after.entries@ == before.entries@
            && after.incompatible@ == before.incompatible@,
{
    let queued = choose|queued: Seq<EntryRef>|
        queued_entry(found, queued) && #[trigger] (before.entries@ + queued) == after.entries@;
    let refused = choose|refused: Seq<PluginIncompat>|
        refused_entry(found, refused) && #[trigger] (before.incompatible@ + refused)
            == after.incompatible@;
    if queued.len() == 0 {
        assert(before.entries@ + queued =~= before.entries@);
    } else {
        assert((before.entries@ + queued).drop_last() =~= before.entries@);
    }
    if refused.len() == 0 {
        assert(before.incompatible@ + refused =~= before.incompatible@);
    }
}

/// An entry without a release, or written for one that is not served, is not
/// queued; the plugin is recorded as one that cannot be served, with the reason.
pub proof fn law_refused_entry(before: PluginScan, found: PluginDirectory, after: PluginScan)
    requires
        scanned(before, found, after),
        found.manifest.plugin.i18n is None || found.translations is Ok,
        found.manifest.plugin.entry is Some,
        found.manifest.plugin.entry_version != Some(3u32),
        found.manifest.plugin.entry_version != Some(4u32),
    ensures
        after.entries@ == before.entries@,
        after.incompatible@.len() == before.incompatible@.len() + 1,
        after.incompatible@.drop_last() == before.incompatible@,
        after.incompatible@.last().plugin_id@ == found.manifest.plugin.id@,
        after.incompatible@.last().plugin_version@ == found.manifest.plugin.version@,
        after.incompatible@.last().plugin_system == found.system,
        found.manifest.plugin.entry_version is None ==> after.incompatible@.last().reason@
            == "plugin.entry requires plugin.entry_version"@,
        found.manifest.plugin.entry_version matches Some(v) ==> after.incompatible@.last().reason@
            == "plugin entry_version "@ + text::decimal(v as int)
            + " is unsupported; this daemon supports "@ + "[3, 4]"@,
{
    let queued = choose|queued: Seq<EntryRef>|
        queued_entry(found, queued) && #[trigger] (before.entries@ + queued) == after.entries@;
    let refused = choose|refused: Seq<PluginIncompat>|
        refused_entry(found, refused) && #[trigger] (before.incompatible@ + refused)
            == after.incompatible@;
    assert(before.entries@ + queued =~= before.entries@);
    assert((before.incompatible@ + refused).drop_last() =~= before.incompatible@);
}

/// The renderers of a plugin that have no field of earlier manifests and no
/// empty label are offered in the order declared: as declared, but with the
/// plugin's id, version and root, and the path of the program taken from the
/// plugin's directory.
pub proof fn law_scanned_renderers(before: PluginScan, found: PluginDirectory, after: PluginScan)
    requires
        scanned(before, found, after),
        found.manifest.plugin.i18n is None || found.translations is Ok,
    ensures
        ({
            let good = found.manifest.renderers@.filter(
                |def: RendererDef|
                    def.legacy_events is None && forall|i: int|
                        0 <= i < def.settings@.len() ==> {
                            let setting = (#[trigger] def.settings@[i]).setting;
                            &&& setting.label matches Some(text) ==> text.msgid@.len() > 0
                            &&& setting.description matches Some(text) ==> text.msgid@.len() > 0
                            &&& setting.group_label matches Some(text) ==> text.msgid@.len() > 0
                        },
            );
            let old_len = before.renderers@.len() as int;
            &&& after.renderers@.len() == old_len + good.len()
            &&& after.renderers@.take(old_len) == before.renderers@
            &&& forall|i: int|
                0 <= i < good.len() ==> {
                    let offer = after.renderers@[old_len + i];
                    let def = #[trigger] good[i];
                    &&& offer.name == def.name
                    &&& offer.plugin_id@ == found.manifest.plugin.id@
                    &&& offer.plugin_version@ == found.manifest.plugin.version@
                    &&& offer.plugin_system == found.system
                    &&& path::is_absolute(def.bin@) ==> offer.bin@ == path::normalized(def.bin@)
                    &&& !path::is_absolute(def.bin@) ==> offer.bin@ == path::normalized(
                        path::joined(found.dir@, def.bin@),
                    )
                    &&& offer.types == def.types
                    &&& offer.priority == def.priority
                    &&& offer.activity == def.activity
                    &&& offer.spawn_version == def.spawn_version
                    &&& offer.extras == def.extras
                    &&& offer.settings == def.settings
                    &&& offer.legacy_events is None
                }
        }),
{
    let ok = |def: RendererDef|
        def.legacy_events is None && forall|i: int|
            0 <= i < def.settings@.len() ==> {
                let setting = (#[trigger] def.settings@[i]).setting;
                &&& setting.label matches Some(text) ==> text.msgid@.len() > 0
                &&& setting.description matches Some(text) ==> text.msgid@.len() > 0
                &&& setting.group_label matches Some(text) ==> text.msgid@.len() > 0
            };
    assert forall|def: RendererDef| #[trigger] ok(def) == renderer_ok(def) by {
        if renderer_ok(def) {
            assert forall|i: int| 0 <= i < def.settings@.len() implies {
                let setting = (#[trigger] def.settings@[i]).setting;
                &&& setting.label matches Some(text) ==> text.msgid@.len() > 0
                &&& setting.description matches Some(text) ==> text.msgid@.len() > 0
                &&& setting.group_label matches Some(text) ==> text.msgid@.len() > 0
            } by {
                assert(setting_ok(def.settings@[i]));
            }
        }
        if ok(def) {
            assert forall|i: int| 0 <= i < def.settings@.len() implies setting_ok(
                #[trigger] def.settings@[i],
            ) by {
                let setting = def.settings@[i].setting;
            }
        }
    }
    let declared = found.manifest.renderers@;
    assert(ok =~= |def: RendererDef| renderer_ok(def));
    let good = declared.filter(|def: RendererDef| renderer_ok(def));
    let meta = after.plugins@.last();
    let offers = choose|offers: Seq<RendererDef>|
        all_offered(declared, offers, found.dir@, meta) && #[trigger] (before.renderers@ + offers)
            == after.renderers@;
    let old_len = before.renderers@.len() as int;
    assert(after.renderers@.take(old_len) =~= before.renderers@);
    assert forall|i: int| 0 <= i < good.len() implies {
        let offer = after.renderers@[old_len + i];
        offered(#[trigger] good[i], offer, found.dir@, meta) && good[i].legacy_events is None
    } by {
        assert(after.renderers@[old_len + i] == offers[i]);
        declared.lemma_filter_pred(|def: RendererDef| renderer_ok(def), i);
    }
}

/// What is told of a package: the plugin's own data, whether an entry of it is
/// queued, and the first reason recorded against its id.
pub proof fn law_package(scan: PluginScan, meta: PluginMeta)
    ensures
        scan.package(meta).id == meta.id@,
        scan.package(meta).name == meta.name@,
        scan.package(meta).version == meta.version@,
        scan.package(meta).update == text::view_of(meta.update),
        scan.package(meta).system == meta.system,
        scan.package(meta).has_entry <==> exists|i: int|
            0 <= i < scan.entries@.len() && (#[trigger] scan.entries@[i]).plugin_id@ == meta.id@,
        match scan.package(meta).incompat {
            Some(reason) => exists|i: int|
                0 <= i < scan.incompatible@.len() && (#[trigger] scan.incompatible@[i]).plugin_id@
                    == meta.id@ && scan.incompatible@[i].reason@ == reason && forall|j: int|
                    0 <= j < i ==> (#[trigger] scan.incompatible@[j]).plugin_id@ != meta.id@,
            None => forall|i: int|
                0 <= i < scan.incompatible@.len() ==> (#[trigger] scan.incompatible@[i]).plugin_id@
                    != meta.id@,
        },
{
    lemma_reason_against(scan.incompatible@, meta.id@);
}

proof fn lemma_reason_against(incompatible: Seq<PluginIncompat>, id: Seq<char>)
    ensures
        match reason_against(incompatible, id) {
            Some(reason) => exists|i: int|
                0 <= i < incompatible.len() && (#[trigger] incompatible[i]).plugin_id@ == id
                    && incompatible[i].reason@ == reason && forall|j: int|
                    0 <= j < i ==> (#[trigger] incompatible[j]).plugin_id@ != id,
            None => forall|i: int|
                0 <= i < incompatible.len() ==> (#[trigger] incompatible[i]).plugin_id@ != id,
        },
    decreases incompatible.len(),
{
    if incompatible.len() > 0 && incompatible[0].plugin_id@ != id {
        let rest = incompatible.skip(1);
        lemma_reason_against(rest, id);
        match reason_against(rest, id) {
            Some(reason) => {
                let i = choose|i: int|
                    0 <= i < rest.len() && (#[trigger] rest[i]).plugin_id@ == id && rest[i].reason@
                        == reason && forall|j: int|
                        0 <= j < i ==> (#[trigger] rest[j]).plugin_id@ != id;
                assert(incompatible[i + 1] == rest[i]);
                assert forall|j: int| 0 <= j < i + 1 implies (
                #[trigger] incompatible[j]).plugin_id@ != id by {
                    if j > 0 {
                        assert(rest[j - 1] == incompatible[j]);
                    }
                }
            },
            None => {
                assert forall|j: int| 0 <= j < incompatible.len() implies (
                #[trigger] incompatible[j]).plugin_id@ != id by {
                    if j > 0 {
                        assert(rest[j - 1] == incompatible[j]);
                    }
                }
            },
        }
    }
}

/// The translations of the plugins stand one plugin after another.
pub proof fn law_translations(plugins: Seq<PluginMeta>, more: Seq<PluginMeta>, meta: PluginMeta)
    ensures
        translations_of(seq![meta]) == text::views(meta.translations@),
        translations_of(plugins + more) == translations_of(plugins) + translations_of(more),
    decreases more.len(),
{
    assert(seq![meta].drop_last() == Seq::<PluginMeta>::empty());
    assert(translations_of(Seq::empty()).len() == 0);
    assert(translations_of(seq![meta]) =~= text::views(meta.translations@));
    if more.len() == 0 {
        assert(plugins + more =~= plugins);
        assert(translations_of(plugins) + translations_of(more) =~= translations_of(plugins));
    } else {
        law_translations(plugins, more.drop_last(), meta);
        assert((plugins + more).drop_last() =~= plugins + more.drop_last());
        assert(translations_of(plugins + more) =~= translations_of(plugins)
            + translations_of(more));
    }
}

/// Of two copies of a plugin the one with the later version comes first; of the
/// same version, the user's copy comes before the system's.
pub proof fn law_choice_of_copies(a: PluginMeta, b: PluginMeta)
    ensures
        version::version_order(a.version@, b.version@) is Greater ==> beats(a, b),
        version::version_order(a.version@, b.version@) is Less ==> !beats(a, b),
        version::version_order(a.version@, b.version@) is Equal ==> (beats(a, b) <==> !a.system
            && b.system),
{
}

/// A copy takes the place of the one found before it only where it comes first
/// of the two; one of another plugin changes nothing.
pub proof fn law_copy_takes_over(plugins: Seq<PluginMeta>, id: Seq<char>, w: int, n: int)
    requires
        0 <= n < plugins.len(),
        winner(plugins, id, n) == Some(w),
    ensures
        plugins[n].id@ != id ==> winner(plugins, id, n + 1) == Some(w),
        plugins[n].id@ == id && beats(plugins[n], plugins[w]) ==> winner(plugins, id, n + 1)
            == Some(n),
        plugins[n].id@ == id && !beats(plugins[n], plugins[w]) ==> winner(plugins, id, n + 1)
            == Some(w),
{
}

/// A plugin stands among the inactive ones of a root exactly where a copy of it
/// from such a root is not the one that is kept.
pub proof fn law_inactive_copies(plugins: Seq<PluginMeta>, system: bool, id: Seq<char>, n: int)
    requires
        0 <= n <= plugins.len(),
    ensures
        inactive(plugins, system, n).contains(id) <==> exists|i: int|
            0 <= i < n && (#[trigger] plugins[i]).id@ == id && plugins[i].system == system
                && winner(plugins, id, n) != Some(i),
    decreases n,
{
    if n > 0 {
        law_inactive_copies(plugins, system, id, n - 1);
        law_winner_is_a_copy(plugins, id, n - 1);
        law_winner_is_a_copy(plugins, plugins[n - 1].id@, n - 1);
        let newest = plugins[n - 1];
        if newest.id@ == id {
            if let Some(w) = winner(plugins, id, n - 1) {
                assert(plugins[w].id@ == id);
                assert(plugins[n - 1].id@ == id);
            }
        } else {
            if let Some(l) = loser(plugins, n - 1) {
                assert(plugins[l].id@ == newest.id@);
            }
        }
    }
}

/// Of what was found, that stays which belongs to the copy that is kept: by its
/// id, its version and its root.
pub proof fn law_what_is_kept(
    plugins: Seq<PluginMeta>,
    meta: PluginMeta,
    entry_ref: EntryRef,
    def: RendererDef,
    refusal: PluginIncompat,
)
    ensures
        keeps_plugin(plugins)(meta)
            <==> (winner(plugins, meta.id@, plugins.len() as int) matches Some(
            w,
        ) && plugins[w].version@ == meta.version@ && plugins[w].system == meta.system),
        keeps_entry(plugins)(entry_ref) <==> (winner(
            plugins,
            entry_ref.plugin_id@,
            plugins.len() as int,
        ) matches Some(w) && plugins[w].version@ == entry_ref.plugin_version@ && plugins[w].system
            == entry_ref.plugin_system),
        keeps_renderer(plugins)(def)
            <==> (winner(plugins, def.plugin_id@, plugins.len() as int) matches Some(
            w,
        ) && plugins[w].version@ == def.plugin_version@ && plugins[w].system == def.plugin_system),
        keeps_refusal(plugins)(refusal) <==> (winner(
            plugins,
            refusal.plugin_id@,
            plugins.len() as int,
        ) matches Some(w) && plugins[w].version@ == refusal.plugin_version@ && plugins[w].system
            == refusal.plugin_system),
{
}

/// A root that could be read counts among the roots of its owner, after those
/// before it; one that could not counts nowhere.
pub proof fn law_roots_by_owner(
    roots: Seq<PluginRoot>,
    scans: Seq<Option<PluginScan>>,
    root: PluginRoot,
    scan: Option<PluginScan>,
    system: bool,
)
    requires
        roots.len() == scans.len(),
    ensures
        scan matches Some(read) ==> (root.system == system ==> owned(
            roots.push(root),
            scans.push(scan),
            system,
        ) == owned(roots, scans, system).push(read)),
        scan is None || root.system != system ==> owned(roots.push(root), scans.push(scan), system)
            == owned(roots, scans, system),
        owned(Seq::empty(), Seq::empty(), system).len() == 0,
{
    assert(scans.push(scan).drop_last() =~= scans);
    lemma_owned_roots(roots, roots.push(root), scans, system);
}

proof fn lemma_owned_roots(
    a: Seq<PluginRoot>,
    b: Seq<PluginRoot>,
    scans: Seq<Option<PluginScan>>,
    system: bool,
)
    requires
        scans.len() <= a.len(),
        scans.len() <= b.len(),
        forall|i: int| 0 <= i < scans.len() ==> #[trigger] a[i] == b[i],
    ensures
        owned(a, scans, system) == owned(b, scans, system),
    decreases scans.len(),
{
    if scans.len() > 0 {
        lemma_owned_roots(a, b, scans.drop_last(), system);
        assert(a[scans.len() - 1] == b[scans.len() - 1]);
    }
}

/// What several roots hold stands one root after another.
pub proof fn law_roots_add_up(scans: Seq<PluginScan>, scan: PluginScan)
    ensures
        all_plugins(scans.push(scan)) == all_plugins(scans) + scan.plugins@,
        all_entries(scans.push(scan)) == all_entries(scans) + scan.entries@,
        all_renderers(scans.push(scan)) == all_renderers(scans) + scan.renderers@,
        all_refusals(scans.push(scan)) == all_refusals(scans) + scan.incompatible@,
        all_plugins(Seq::empty()).len() == 0,
        all_entries(Seq::empty()).len() == 0,
        all_renderers(Seq::empty()).len() == 0,
        all_refusals(Seq::empty()).len() == 0,
{
    assert(scans.push(scan).drop_last() =~= scans);
}

/// The system's directory stands first, below `share/waywallen` of the prefix;
/// the user's stands last, below `waywallen` of the data directory, which is
/// `.local/share` of the home directory unless it is set.
pub proof fn law_standard_directories(
    subdir: Seq<char>,
    prefix: Seq<char>,
    data: Seq<char>,
    home: Seq<char>,
)
    ensures
        standard_dirs(subdir, Some(prefix), Some(data), None) == seq![
            path::normalized(path::joined(path::joined(prefix, "share/waywallen"@), subdir)),
            path::normalized(path::joined(path::joined(data, "waywallen"@), subdir)),
        ],
        forall|set: Option<Seq<char>>, under: Option<Seq<char>>|
            (#[trigger] standard_dirs(subdir, None, set, under)).len() == 1,
        forall|set: Option<Seq<char>>, under: Option<Seq<char>>|
            #![trigger standard_dirs(subdir, Some(prefix), set, under)]
            standard_dirs(subdir, Some(prefix), set, under).len() == 2 && standard_dirs(
                subdir,
                Some(prefix),
                set,
                under,
            )[1] == standard_dirs(subdir, None, set, under)[0],
        standard_dirs(subdir, None, Some(data), Some(home)) == standard_dirs(
            subdir,
            None,
            Some(data),
            None,
        ),
        standard_dirs(subdir, None, None, Some(home)) == standard_dirs(
            subdir,
            None,
            Some(path::joined(home, ".local/share"@)),
            None,
        ),
        standard_dirs(subdir, None, None, None) == standard_dirs(
            subdir,
            None,
            None,
            Some(Seq::empty()),
        ),
{
}

/// What is said of a `PluginTranslationDocument` is said of its own fields.
pub proof fn law_plugin_translation_document_in_contracts(document: PluginTranslationDocument)
    ensures
        document@.plugin_id == document.plugin_id@,
        document@.locale == document.locale@,
        document@.po == document.po@,
{
}

/// What is said of a `PluginPackageMeta` is said of its own fields.
pub proof fn law_plugin_package_meta_in_contracts(meta: PluginPackageMeta)
    ensures
        meta@.id == meta.id@,
        meta@.name == meta.name@,
        meta@.version == meta.version@,
        meta@.update == text::view_of(meta.update),
        meta@.has_entry == meta.has_entry,
        meta@.system == meta.system,
        meta@.incompat == text::view_of(meta.incompat),
{
}

/// A scan begins with nothing and takes the directories one after another.
pub proof fn law_scan_of_directories(found: Seq<PluginDirectory>, steps: Seq<PluginScan>, i: int)
    requires
        scan_steps(found, steps),
    ensures
        steps.len() == found.len() + 1,
        steps[0].plugins@.len() == 0,
        steps[0].entries@.len() == 0,
        steps[0].renderers@.len() == 0,
        steps[0].incompatible@.len() == 0,
        steps[0].inactive_system@.len() == 0,
        steps[0].inactive_user@.len() == 0,
        0 <= i < found.len() ==> scanned(steps[i], found[i], steps[i + 1]),
{
}

/// Among copies whose versions can all be compared the one that is kept is
/// beaten by none.
pub proof fn law_kept_copy_is_best(plugins: Seq<PluginMeta>, n: int, id: Seq<char>, j: int)
    requires
        best_copies(plugins, n),
        0 <= j < n <= plugins.len(),
        plugins[j].id@ == id,
        forall|k: int|
            0 <= k < plugins.len() && (#[trigger] plugins[k]).id@ == id ==> version::semver_valid(
                version::bare(plugins[k].version@),
            ),
        winner(plugins, id, n) != Some(j),
    ensures
        winner(plugins, id, n) matches Some(w) && !beats(plugins[j], plugins[w]),
{
    assert(semantic(plugins, id));
}

/// The file list that plugins ship.
pub proof fn law_file_list()
    ensures
        PLUGIN_FILES_MANIFEST@ == "files.txt"@,
{
}

/// A renderer that is registered stands behind all of its priority or a higher
/// one and before all of a lower one, under each of its kinds and no other.
pub proof fn law_place_of_a_renderer(defs: Seq<Arc<RendererDef>>, def: Arc<RendererDef>) -> (k: int)
    requires
        by_priority(defs),
    ensures
        0 <= k <= defs.len(),
        with_renderer(defs, def) == defs.insert(k, def),
        forall|i: int| 0 <= i < k ==> (#[trigger] defs[i]).priority >= def.priority,
        forall|i: int| k <= i < defs.len() ==> (#[trigger] defs[i]).priority < def.priority,
{
    lemma_at_least_parts(defs, def.priority as int);
    at_least(defs, def.priority as int)
}

/// A renderer is added to the kinds that it shows; the other kinds stay as they
/// are.
pub proof fn law_kinds_of_a_renderer(
    table: RendererTable,
    types: Seq<Seq<char>>,
    def: Arc<RendererDef>,
    t: Seq<char>,
)
    requires
        table.contains_key(t) ==> table[t].len() > 0,
        by_priority(renderers_for(table, t)),
    ensures
        with_types(table, types, def).contains_key(t) <==> table.contains_key(t) || types.contains(
            t,
        ),
        !types.contains(t) ==> renderers_for(with_types(table, types, def), t) == renderers_for(
            table,
            t,
        ),
        types.contains(t) ==> renderers_for(with_types(table, types, def), t).contains(def),
        by_priority(renderers_for(with_types(table, types, def), t)),
{
    lemma_with_types(table, types, def, t);
}

/// The renderers of a kind are those that the table holds, or none.
pub proof fn law_renderers_of_a_kind(table: RendererTable, wp_type: Seq<char>)
    ensures
        table.contains_key(wp_type) ==> renderers_for(table, wp_type) == table[wp_type]
            && resolved(table, wp_type) == Some(table[wp_type][0]),
        !table.contains_key(wp_type) ==> renderers_for(table, wp_type).len() == 0 && resolved(
            table,
            wp_type,
        ) is None,
        forall|t: Seq<char>, i: int|
            #![trigger table[t][i]]
            table.contains_key(t) && 0 <= i < table[t].len() ==> listed_in(table, table[t][i]),
{
}

} // verus!
