//! Which of the host's functions and modules the contexts of a plugin offer,
//! and under which names.
use vstd::prelude::*;
use crate::plugin::source::callbacks::Callback;
use crate::plugin::source::entry::Contract;

verus! {

/// What a context is made for.
#[derive(Clone, Copy, Debug, PartialEq, Eq, Structural)]
pub enum ContextKind {
    /// To find the wallpapers of this machine.
    Source,
    /// To ask a remote service.
    Remote,
}

/// The kind of context that a callback is given, if any.
pub open spec fn context_of(callback: Callback) -> Option<ContextKind> {
    match callback {
        Callback::LifecycleLoad | Callback::LifecycleSave | Callback::LifecycleMigrate => None,
        Callback::SourceScan
        | Callback::SourceAutoDetect
        | Callback::SourceRemove
        | Callback::DiscoverResolve
        | Callback::WallpaperApply
        | Callback::WallpaperProperties => Some(ContextKind::Source),
        _ => Some(ContextKind::Remote),
    }
}

pub fn context_for(callback: Callback) -> (r: Option<ContextKind>)
    ensures
        r == context_of(callback),
{
    match callback {
        Callback::LifecycleLoad | Callback::LifecycleSave | Callback::LifecycleMigrate => None,
        Callback::SourceScan
        | Callback::SourceAutoDetect
        | Callback::SourceRemove
        | Callback::DiscoverResolve
        | Callback::WallpaperApply
        | Callback::WallpaperProperties => Some(ContextKind::Source),
        _ => Some(ContextKind::Remote),
    }
}

/// A function or a module of the host.
#[derive(Clone, Copy, Debug, PartialEq, Eq, Structural)]
pub enum HostPart {
    Glob,
    ListDirs,
    Exists,
    Read,
    ReadBytes,
    Extension,
    Filename,
    Size,
    RemoveFile,
    RemoveDir,
    Env,
    Libraries,
    Probe,
    LibraryMetaGet,
    LibraryMetaSet,
    Config,
    JsonParse,
    JsonEncode,
    Log,
    Base64Decode,
    TimeUnix,
    /// The module with the functions of its kind; so the ones below.
    Json,
    Base64,
    Time,
    Random,
    Http,
    Html,
    Url,
}

impl HostPart {
    /// The part reads or changes files of this machine.
    pub open spec fn uses_files(self) -> bool {
        match self {
            HostPart::Glob
            | HostPart::ListDirs
            | HostPart::Exists
            | HostPart::Read
            | HostPart::ReadBytes
            | HostPart::Size
            | HostPart::RemoveFile
            | HostPart::RemoveDir
            | HostPart::Probe => true,
            _ => false,
        }
    }

    /// The part tells of this machine or of the libraries on it.
    pub open spec fn tells_of_the_machine(self) -> bool {
        match self {
            HostPart::Env
            | HostPart::Libraries
            | HostPart::LibraryMetaGet
            | HostPart::LibraryMetaSet => true,
            _ => self.uses_files(),
        }
    }
}

/// Where a part stands in a context: by its name in a group, or by its name
/// alone where the group is empty.
#[derive(Clone, Copy, Debug)]
pub struct Place {
    pub group: &'static str,
    pub name: &'static str,
    pub part: HostPart,
}

pub struct PlaceView {
    pub group: Seq<char>,
    pub name: Seq<char>,
    pub part: HostPart,
}

impl View for Place {
    type V = PlaceView;

    open spec fn view(&self) -> PlaceView {
        PlaceView { group: self.group@, name: self.name@, part: self.part }
    }
}

pub open spec fn place_of(group: Seq<char>, name: Seq<char>, part: HostPart) -> PlaceView {
    PlaceView { group, name, part }
}

pub open spec fn places_of(places: Seq<Place>) -> Seq<PlaceView> {
    places.map_values(|place: Place| place@)
}

// ---------------------------------------------------------------------------
// The places

/// Every context offers these.
pub open spec fn common_places() -> Seq<PlaceView> {
    seq![
        place_of(""@, "plugin_config"@, HostPart::Config),
        place_of("config"@, "get"@, HostPart::Config),
        place_of(""@, "json_parse"@, HostPart::JsonParse),
        place_of(""@, "json_encode"@, HostPart::JsonEncode),
        place_of(""@, "json"@, HostPart::Json),
        place_of(""@, "log"@, HostPart::Log),
        place_of(""@, "http"@, HostPart::Http),
        place_of(""@, "html"@, HostPart::Html),
        place_of(""@, "url"@, HostPart::Url),
    ]
}

/// Functions on files and their names, each under its own name and in a group.
pub open spec fn file_places() -> Seq<PlaceView> {
    seq![
        place_of(""@, "glob"@, HostPart::Glob),
        place_of(""@, "list_dirs"@, HostPart::ListDirs),
        place_of(""@, "file_exists"@, HostPart::Exists),
        place_of(""@, "read_file"@, HostPart::Read),
        place_of(""@, "extension"@, HostPart::Extension),
        place_of(""@, "filename"@, HostPart::Filename),
        place_of(""@, "basename"@, HostPart::Filename),
        place_of(""@, "file_size"@, HostPart::Size),
        place_of(""@, "remove_file"@, HostPart::RemoveFile),
        place_of(""@, "remove_dir"@, HostPart::RemoveDir),
        place_of("fs"@, "glob"@, HostPart::Glob),
        place_of("fs"@, "list_dirs"@, HostPart::ListDirs),
        place_of("fs"@, "exists"@, HostPart::Exists),
        place_of("fs"@, "read"@, HostPart::Read),
        place_of("fs"@, "extension"@, HostPart::Extension),
        place_of("fs"@, "filename"@, HostPart::Filename),
        place_of("fs"@, "basename"@, HostPart::Filename),
        place_of("fs"@, "size"@, HostPart::Size),
        place_of("fs"@, "remove_file"@, HostPart::RemoveFile),
        place_of("fs"@, "remove_dir"@, HostPart::RemoveDir),
    ]
}

/// What only a context for local sources offers besides.
pub open spec fn machine_places() -> Seq<PlaceView> {
    seq![
        place_of(""@, "env"@, HostPart::Env),
        place_of(""@, "libraries"@, HostPart::Libraries),
        place_of(""@, "probe"@, HostPart::Probe),
        place_of(""@, "library_meta_get"@, HostPart::LibraryMetaGet),
        place_of(""@, "library_meta_set"@, HostPart::LibraryMetaSet),
    ]
}

/// What only a context for remote services offers.
pub open spec fn remote_places() -> Seq<PlaceView> {
    seq![
        place_of(""@, "base64_decode"@, HostPart::Base64Decode),
        place_of(""@, "base64"@, HostPart::Base64),
        place_of(""@, "time_unix"@, HostPart::TimeUnix),
        place_of(""@, "time"@, HostPart::Time),
        place_of(""@, "random"@, HostPart::Random),
    ]
}

/// A window into a file came with texts to be translated.
pub open spec fn window_places(contract: Contract) -> Seq<PlaceView> {
    match contract {
        Contract::Plain => Seq::empty(),
        Contract::Localized => seq![place_of("fs"@, "read_bytes"@, HostPart::ReadBytes)],
    }
}

/// All places of a context.
pub open spec fn places(kind: ContextKind, contract: Contract) -> Seq<PlaceView> {
    match kind {
        ContextKind::Source => common_places() + file_places() + machine_places() + window_places(
            contract,
        ),
        ContextKind::Remote => common_places() + remote_places(),
    }
}

// ---------------------------------------------------------------------------
// Listing them

fn add_place(places: &mut Vec<Place>, group: &'static str, name: &'static str, part: HostPart)
    ensures
        places_of(final(places)@) == places_of(old(places)@).push(place_of(group@, name@, part)),
{
    let ghost before = places@;
    let place = Place { group, name, part };
    places.push(place);
    assert(places_of(places@) =~= places_of(before).push(place@));
}

fn add_common(places: &mut Vec<Place>)
    ensures
        places_of(final(places)@) == places_of(old(places)@) + common_places(),
{
    let ghost before = places_of(places@);
    add_place(places, "", "plugin_config", HostPart::Config);
    add_place(places, "config", "get", HostPart::Config);
    add_place(places, "", "json_parse", HostPart::JsonParse);
    add_place(places, "", "json_encode", HostPart::JsonEncode);
    add_place(places, "", "json", HostPart::Json);
    add_place(places, "", "log", HostPart::Log);
    add_place(places, "", "http", HostPart::Http);
    add_place(places, "", "html", HostPart::Html);
    add_place(places, "", "url", HostPart::Url);
    assert(places_of(places@) =~= before + common_places());
}

fn add_files(places: &mut Vec<Place>)
    ensures
        places_of(final(places)@) == places_of(old(places)@) + file_places(),
{
    let ghost before = places_of(places@);
    add_place(places, "", "glob", HostPart::Glob);
    add_place(places, "", "list_dirs", HostPart::ListDirs);
    add_place(places, "", "file_exists", HostPart::Exists);
    add_place(places, "", "read_file", HostPart::Read);
    add_place(places, "", "extension", HostPart::Extension);
    add_place(places, "", "filename", HostPart::Filename);
    add_place(places, "", "basename", HostPart::Filename);
    add_place(places, "", "file_size", HostPart::Size);
    add_place(places, "", "remove_file", HostPart::RemoveFile);
    add_place(places, "", "remove_dir", HostPart::RemoveDir);
    add_place(places, "fs", "glob", HostPart::Glob);
    add_place(places, "fs", "list_dirs", HostPart::ListDirs);
    add_place(places, "fs", "exists", HostPart::Exists);
    add_place(places, "fs", "read", HostPart::Read);
    add_place(places, "fs", "extension", HostPart::Extension);
    add_place(places, "fs", "filename", HostPart::Filename);
    add_place(places, "fs", "basename", HostPart::Filename);
    add_place(places, "fs", "size", HostPart::Size);
    add_place(places, "fs", "remove_file", HostPart::RemoveFile);
    add_place(places, "fs", "remove_dir", HostPart::RemoveDir);
    assert(places_of(places@) =~= before + file_places());
}

fn add_machine(places: &mut Vec<Place>)
    ensures
        places_of(final(places)@) == places_of(old(places)@) + machine_places(),
{
    let ghost before = places_of(places@);
    add_place(places, "", "env", HostPart::Env);
    add_place(places, "", "libraries", HostPart::Libraries);
    add_place(places, "", "probe", HostPart::Probe);
    add_place(places, "", "library_meta_get", HostPart::LibraryMetaGet);
    add_place(places, "", "library_meta_set", HostPart::LibraryMetaSet);
    assert(places_of(places@) =~= before + machine_places());
}

fn add_remote(places: &mut Vec<Place>)
    ensures
        places_of(final(places)@) == places_of(old(places)@) + remote_places(),
{
    let ghost before = places_of(places@);
    add_place(places, "", "base64_decode", HostPart::Base64Decode);
    add_place(places, "", "base64", HostPart::Base64);
    add_place(places, "", "time_unix", HostPart::TimeUnix);
    add_place(places, "", "time", HostPart::Time);
    add_place(places, "", "random", HostPart::Random);
    assert(places_of(places@) =~= before + remote_places());
}

/// What a context offers, in the order in which it is set.
pub fn context_places(kind: ContextKind, contract: Contract) -> (r: Vec<Place>)
    ensures
        places_of(r@) == places(kind, contract),
{
    let mut r: Vec<Place> = Vec::new();
    add_common(&mut r);
    assert(places_of(r@) =~= common_places());
    match kind {
        ContextKind::Source => {
            add_files(&mut r);
            add_machine(&mut r);
            match contract {
                Contract::Plain => {
                    assert(places_of(r@) =~= places_of(r@) + window_places(contract));
                },
                Contract::Localized => {
                    let ghost before = places_of(r@);
                    add_place(&mut r, "fs", "read_bytes", HostPart::ReadBytes);
                    assert(places_of(r@) =~= before + window_places(contract));
                },
            }
        },
        ContextKind::Remote => {
            add_remote(&mut r);
        },
    }
    r
}

// ---------------------------------------------------------------------------
// Laws

/// A plugin that asks a remote service is given nothing that reads or changes
/// files, and nothing that tells of the machine or its libraries.
pub proof fn law_remote_context_has_no_files(contract: Contract, i: int)
    requires
        0 <= i < places(ContextKind::Remote, contract).len(),
    ensures
        !places(ContextKind::Remote, contract)[i].part.uses_files(),
        !places(ContextKind::Remote, contract)[i].part.tells_of_the_machine(),
{
    let common = common_places().len() as int;
    let all = places(ContextKind::Remote, contract);
    if i < common {
        assert(all[i] == common_places()[i]);
    } else {
        assert(all[i] == remote_places()[i - common]);
    }
}

/// Whatever a context offers in the group of files or of settings, but for
/// windows into files, it offers under a name of its own too.
pub proof fn law_grouped_parts_have_a_plain_name(kind: ContextKind, contract: Contract, i: int)
    requires
        0 <= i < places(kind, contract).len(),
        places(kind, contract)[i].group != ""@,
        places(kind, contract)[i].part != HostPart::ReadBytes,
    ensures
        exists|j: int|
            0 <= j < places(kind, contract).len() && (#[trigger] places(kind, contract)[j]).group
                == ""@ && places(kind, contract)[j].part == places(kind, contract)[i].part,
{
    let all = places(kind, contract);
    let common = common_places().len() as int;
    let files = file_places().len() as int;
    if i < common {
        assert(all[i] == common_places()[i]);
        assert(all[0] == common_places()[0]);
    } else if kind == ContextKind::Remote {
        assert(all[i] == remote_places()[i - common]);
    } else if i < common + files {
        assert(all[i] == file_places()[i - common]);
        let j = i - files / 2;
        assert(all[j] == file_places()[j - common]);
    } else if i < common + files + machine_places().len() {
        assert(all[i] == machine_places()[i - common - files]);
    } else {
        assert(all[i] == window_places(contract)[i - common - files - machine_places().len()]);
    }
}

/// What a callback that finds the wallpapers of this machine has at hand, and
/// where it stands.
pub proof fn law_places_of_a_source(contract: Contract)
    ensures
        places(ContextKind::Source, contract).len() == (if contract is Localized {
            35nat
        } else {
            34nat
        }),
        places(ContextKind::Source, contract)[0]
            == (PlaceView { group: ""@, name: "plugin_config"@, part: HostPart::Config }),
        places(ContextKind::Source, contract)[1]
            == (PlaceView { group: "config"@, name: "get"@, part: HostPart::Config }),
        places(ContextKind::Source, contract)[2]
            == (PlaceView { group: ""@, name: "json_parse"@, part: HostPart::JsonParse }),
        places(ContextKind::Source, contract)[3]
            == (PlaceView { group: ""@, name: "json_encode"@, part: HostPart::JsonEncode }),
        places(ContextKind::Source, contract)[4]
            == (PlaceView { group: ""@, name: "json"@, part: HostPart::Json }),
        places(ContextKind::Source, contract)[5]
            == (PlaceView { group: ""@, name: "log"@, part: HostPart::Log }),
        places(ContextKind::Source, contract)[6]
            == (PlaceView { group: ""@, name: "http"@, part: HostPart::Http }),
        places(ContextKind::Source, contract)[7]
            == (PlaceView { group: ""@, name: "html"@, part: HostPart::Html }),
        places(ContextKind::Source, contract)[8]
            == (PlaceView { group: ""@, name: "url"@, part: HostPart::Url }),
        places(ContextKind::Source, contract)[9]
            == (PlaceView { group: ""@, name: "glob"@, part: HostPart::Glob }),
        places(ContextKind::Source, contract)[10]
            == (PlaceView { group: ""@, name: "list_dirs"@, part: HostPart::ListDirs }),
        places(ContextKind::Source, contract)[11]
            == (PlaceView { group: ""@, name: "file_exists"@, part: HostPart::Exists }),
        places(ContextKind::Source, contract)[12]
            == (PlaceView { group: ""@, name: "read_file"@, part: HostPart::Read }),
        places(ContextKind::Source, contract)[13]
            == (PlaceView { group: ""@, name: "extension"@, part: HostPart::Extension }),
        places(ContextKind::Source, contract)[14]
            == (PlaceView { group: ""@, name: "filename"@, part: HostPart::Filename }),
        places(ContextKind::Source, contract)[15]
            == (PlaceView { group: ""@, name: "basename"@, part: HostPart::Filename }),
        places(ContextKind::Source, contract)[16]
            == (PlaceView { group: ""@, name: "file_size"@, part: HostPart::Size }),
        places(ContextKind::Source, contract)[17]
            == (PlaceView { group: ""@, name: "remove_file"@, part: HostPart::RemoveFile }),
        places(ContextKind::Source, contract)[18]
            == (PlaceView { group: ""@, name: "remove_dir"@, part: HostPart::RemoveDir }),
        places(ContextKind::Source, contract)[19]
            == (PlaceView { group: "fs"@, name: "glob"@, part: HostPart::Glob }),
        places(ContextKind::Source, contract)[20]
            == (PlaceView { group: "fs"@, name: "list_dirs"@, part: HostPart::ListDirs }),
        places(ContextKind::Source, contract)[21]
            == (PlaceView { group: "fs"@, name: "exists"@, part: HostPart::Exists }),
        places(ContextKind::Source, contract)[22]
            == (PlaceView { group: "fs"@, name: "read"@, part: HostPart::Read }),
        places(ContextKind::Source, contract)[23]
            == (PlaceView { group: "fs"@, name: "extension"@, part: HostPart::Extension }),
        places(ContextKind::Source, contract)[24]
            == (PlaceView { group: "fs"@, name: "filename"@, part: HostPart::Filename }),
        places(ContextKind::Source, contract)[25]
            == (PlaceView { group: "fs"@, name: "basename"@, part: HostPart::Filename }),
        places(ContextKind::Source, contract)[26]
            == (PlaceView { group: "fs"@, name: "size"@, part: HostPart::Size }),
        places(ContextKind::Source, contract)[27]
            == (PlaceView { group: "fs"@, name: "remove_file"@, part: HostPart::RemoveFile }),
        places(ContextKind::Source, contract)[28]
            == (PlaceView { group: "fs"@, name: "remove_dir"@, part: HostPart::RemoveDir }),
        places(ContextKind::Source, contract)[29]
            == (PlaceView { group: ""@, name: "env"@, part: HostPart::Env }),
        places(ContextKind::Source, contract)[30]
            == (PlaceView { group: ""@, name: "libraries"@, part: HostPart::Libraries }),
        places(ContextKind::Source, contract)[31]
            == (PlaceView { group: ""@, name: "probe"@, part: HostPart::Probe }),
        places(ContextKind::Source, contract)[32]
            == (PlaceView { group: ""@, name: "library_meta_get"@, part: HostPart::LibraryMetaGet }),
        places(ContextKind::Source, contract)[33]
            == (PlaceView { group: ""@, name: "library_meta_set"@, part: HostPart::LibraryMetaSet }),
        contract is Localized ==> places(ContextKind::Source, contract)[34] == (PlaceView {
            group: "fs"@,
            name: "read_bytes"@,
            part: HostPart::ReadBytes,
        }),
{
}

/// What a callback that asks a remote service has at hand, and where it stands.
pub proof fn law_places_of_a_remote_source(contract: Contract)
    ensures
        places(ContextKind::Remote, contract).len() == 14,
        places(ContextKind::Remote, contract)[0]
            == (PlaceView { group: ""@, name: "plugin_config"@, part: HostPart::Config }),
        places(ContextKind::Remote, contract)[1]
            == (PlaceView { group: "config"@, name: "get"@, part: HostPart::Config }),
        places(ContextKind::Remote, contract)[2]
            == (PlaceView { group: ""@, name: "json_parse"@, part: HostPart::JsonParse }),
        places(ContextKind::Remote, contract)[3]
            == (PlaceView { group: ""@, name: "json_encode"@, part: HostPart::JsonEncode }),
        places(ContextKind::Remote, contract)[4]
            == (PlaceView { group: ""@, name: "json"@, part: HostPart::Json }),
        places(ContextKind::Remote, contract)[5]
            == (PlaceView { group: ""@, name: "log"@, part: HostPart::Log }),
        places(ContextKind::Remote, contract)[6]
            == (PlaceView { group: ""@, name: "http"@, part: HostPart::Http }),
        places(ContextKind::Remote, contract)[7]
            == (PlaceView { group: ""@, name: "html"@, part: HostPart::Html }),
        places(ContextKind::Remote, contract)[8]
            == (PlaceView { group: ""@, name: "url"@, part: HostPart::Url }),
        places(ContextKind::Remote, contract)[9]
            == (PlaceView { group: ""@, name: "base64_decode"@, part: HostPart::Base64Decode }),
        places(ContextKind::Remote, contract)[10]
            == (PlaceView { group: ""@, name: "base64"@, part: HostPart::Base64 }),
        places(ContextKind::Remote, contract)[11]
            == (PlaceView { group: ""@, name: "time_unix"@, part: HostPart::TimeUnix }),
        places(ContextKind::Remote, contract)[12]
            == (PlaceView { group: ""@, name: "time"@, part: HostPart::Time }),
        places(ContextKind::Remote, contract)[13]
            == (PlaceView { group: ""@, name: "random"@, part: HostPart::Random }),
{
}

/// The callbacks of the lifecycle that keep state have nothing at hand; those
/// that work on this machine's wallpapers have the files; all others have the
/// network.
pub proof fn law_context_of_a_callback(callback: Callback)
    ensures
        context_of(callback) is None <==> callback is LifecycleLoad || callback is LifecycleSave
            || callback is LifecycleMigrate,
        context_of(callback) == Some(ContextKind::Source) <==> callback is SourceScan || callback
            is SourceAutoDetect || callback is SourceRemove || callback is DiscoverResolve
            || callback is WallpaperApply || callback is WallpaperProperties,
        context_of(callback) == Some(ContextKind::Remote) <==> callback is DiscoverSearch
            || callback is DiscoverTags || callback is DiscoverDetails || callback
            is DiscoverDownload || callback is LifecycleCheck || callback is ActionsStatus
            || callback is ActionsInvoke || callback is QrloginBegin || callback is QrloginPoll
            || callback is QrloginCancel || callback is SubscriptionStatus || callback
            is SubscriptionSubscribe || callback is SubscriptionUnsubscribe,
{
}

/// What is said of a `Place` is said of its own fields.
pub proof fn law_place_in_contracts(place: Place)
    ensures
        place@.group == place.group@,
        place@.name == place.name@,
        place@.part == place.part,
{
}

} // verus!
