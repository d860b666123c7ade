//! Renderer processes: how they are started, what they report, and which of
//! them run.
use vstd::prelude::*;
use crate::error::{Error, Fault};
use crate::map::TextMap;
use crate::path;
use crate::path::join_path;
use crate::producer;
use crate::producer::random_id;
use crate::text;
use crate::text::{decimal_u64, join_texts, lemma_views_push, views};

verus! {

/// Release of the contract between the daemon and its renderers.
pub const SPAWN_VERSION: u32 = 6;

/// The program that is started where the environment names no other.
pub const DEFAULT_RENDERER_BIN: &'static str = "waywallen-renderer";

/// How long a renderer may take to connect back.
pub const CONNECT_TIMEOUT_SECS: u64 = 10;

/// How long a renderer that is shut down may take to leave.
pub const LEAVE_TIMEOUT_SECS: u64 = 2;

/// How many events wait for a slow listener.
pub const EVENT_BACKLOG: usize = 256;

/// The id by which a renderer is addressed.
pub type RendererId = String;

/// What a renderer is to show.
#[derive(Debug)]
pub struct SpawnRequest {
    pub scene_pkg: String,
    pub assets: String,
    pub width: u32,
    pub height: u32,
    pub fps: u32,
    /// Show a test pattern instead of a scene.
    pub test_pattern: bool,
}

impl Default for SpawnRequest {
    fn default() -> (request: Self)
        ensures
            request.scene_pkg@ == Seq::<char>::empty(),
            request.assets@ == Seq::<char>::empty(),
            request.width == 0 && request.height == 0 && request.fps == 0,
            !request.test_pattern,
    {
        SpawnRequest {
            scene_pkg: String::new(),
            assets: String::new(),
            width: 0,
            height: 0,
            fps: 0,
            test_pattern: false,
        }
    }
}

// ---------------------------------------------------------------------------
// Starting a renderer

/// An option with its value, where it has one.
pub open spec fn option_words(name: Seq<char>, value: Seq<char>) -> Seq<Seq<char>> {
    if value.len() > 0 {
        seq![name, value]
    } else {
        Seq::empty()
    }
}

/// The words of the command line after the program.
pub open spec fn command_words(request: SpawnRequest, socket: Seq<char>) -> Seq<Seq<char>> {
    seq![
        "--ipc"@,
        socket,
        "--width"@,
        text::decimal(request.width as int),
        "--height"@,
        text::decimal(request.height as int),
        "--fps"@,
        text::decimal(request.fps as int),
    ] + option_words("--scene"@, request.scene_pkg@) + option_words(
        "--assets"@,
        request.assets@,
    ) + (if request.test_pattern {
        seq!["--test-pattern"@]
    } else {
        Seq::empty()
    })
}

fn add_word(words: &mut Vec<String>, word: &str)
    ensures
        views(final(words)@) == views(old(words)@).push(word@),
{
    let owned = word.to_owned();
    proof {
        lemma_views_push(words@, owned);
    }
    words.push(owned);
}

fn add_option(words: &mut Vec<String>, name: &str, value: &str)
    ensures
        views(final(words)@) == views(old(words)@) + option_words(name@, value@),
{
    let ghost before = views(words@);
    if !value.is_empty() {
        add_word(words, name);
        add_word(words, value);
    }
    assert(views(words@) =~= before + option_words(name@, value@));
}

/// The arguments that a renderer is started with.
pub fn renderer_arguments(request: &SpawnRequest, socket: &str) -> (words: Vec<String>)
    ensures
        views(words@) == command_words(*request, socket@),
{
    let width = decimal_u64(request.width as u64);
    let height = decimal_u64(request.height as u64);
    let fps = decimal_u64(request.fps as u64);
    let mut words: Vec<String> = Vec::new();
    add_word(&mut words, "--ipc");
    add_word(&mut words, socket);
    add_word(&mut words, "--width");
    add_word(&mut words, width.as_str());
    add_word(&mut words, "--height");
    add_word(&mut words, height.as_str());
    add_word(&mut words, "--fps");
    add_word(&mut words, fps.as_str());
    let ghost base = seq![
        "--ipc"@,
        socket@,
        "--width"@,
        text::decimal(request.width as int),
        "--height"@,
        text::decimal(request.height as int),
        "--fps"@,
        text::decimal(request.fps as int),
    ];
    assert(views(words@) =~= base);
    add_option(&mut words, "--scene", request.scene_pkg.as_str());
    add_option(&mut words, "--assets", request.assets.as_str());
    let ghost before = views(words@);
    if request.test_pattern {
        add_word(&mut words, "--test-pattern");
        assert(views(words@) =~= before + seq!["--test-pattern"@]);
    } else {
        assert(views(words@) =~= before + Seq::<Seq<char>>::empty());
    }
    words
}

/// The directory of the sockets.
pub open spec fn socket_dir(runtime_dir: Option<Seq<char>>, temp_dir: Seq<char>) -> Seq<char> {
    path::joined(
        match runtime_dir {
            Some(dir) => dir,
            None => temp_dir,
        },
        "waywallen"@,
    )
}

pub open spec fn socket_path(dir: Seq<char>, id: Seq<char>) -> Seq<char> {
    path::joined(dir, "renderer-"@ + id + ".sock"@)
}

/// Where a renderer connects back, and the directory that must be there for it.
pub fn temp_sock_path(runtime_dir: &Option<String>, temp_dir: &str, id: &str) -> (r: (
    String,
    String,
))
    ensures
        r.0@ == socket_dir(text::view_of(*runtime_dir), temp_dir@),
        r.1@ == socket_path(r.0@, id@),
{
    let base = match runtime_dir {
        Some(dir) => dir.as_str(),
        None => temp_dir,
    };
    let dir = join_path(base, "waywallen");
    let mut name = "renderer-".to_owned();
    name.append(id);
    name.append(".sock");
    let socket = join_path(dir.as_str(), name.as_str());
    (dir, socket)
}

/// How a renderer is started.
#[derive(Debug)]
pub struct SpawnPlan {
    pub id: RendererId,
    pub socket_dir: String,
    pub socket: String,
    pub program: String,
    pub arguments: Vec<String>,
}

/// Everything of a plan but the id follows from the request.
pub open spec fn is_plan(
    plan: SpawnPlan,
    request: SpawnRequest,
    program: Seq<char>,
    runtime_dir: Option<Seq<char>>,
    temp_dir: Seq<char>,
) -> bool {
    &&& plan.socket_dir@ == socket_dir(runtime_dir, temp_dir)
    &&& plan.socket@ == socket_path(plan.socket_dir@, plan.id@)
    &&& plan.program@ == program
    &&& views(plan.arguments@) == command_words(request, plan.socket@)
}

// ---------------------------------------------------------------------------
// What a renderer reports

/// The buffers that a renderer draws into.
#[derive(Debug)]
pub struct BufferLayout {
    pub count: u32,
    pub fourcc: u32,
    pub width: u32,
    pub height: u32,
    pub stride: u32,
    pub modifier: u64,
    pub plane_offset: u64,
    pub sizes: Vec<u64>,
}

/// An event of a renderer.
#[derive(Debug)]
pub enum EventMsg {
    Ready,
    BindBuffers(BufferLayout),
    /// Any other event, by how it is shown.
    Other(String),
}

/// The sizes as they are shown.
pub open spec fn shown_sizes(sizes: Seq<u64>) -> Seq<Seq<char>> {
    sizes.map_values(|size: u64| text::decimal(size as int))
}

impl BufferLayout {
    pub open spec fn shown(self) -> Seq<char> {
        "BindBuffers { count: "@ + text::decimal(self.count as int) + ", fourcc: "@ + text::decimal(
            self.fourcc as int,
        ) + ", width: "@ + text::decimal(self.width as int) + ", height: "@ + text::decimal(
            self.height as int,
        ) + ", stride: "@ + text::decimal(self.stride as int) + ", modifier: "@ + text::decimal(
            self.modifier as int,
        ) + ", plane_offset: "@ + text::decimal(self.plane_offset as int) + ", sizes: ["@
            + text::join(shown_sizes(self.sizes@), ", "@) + "] }"@
    }

    fn show(&self) -> (r: String)
        ensures
            r@ == self.shown(),
    {
        let mut out = String::new();
        add_number(&mut out, "BindBuffers { count: ", self.count as u64);
        assert(out@ =~= "BindBuffers { count: "@ + text::decimal(self.count as int));
        add_number(&mut out, ", fourcc: ", self.fourcc as u64);
        add_number(&mut out, ", width: ", self.width as u64);
        add_number(&mut out, ", height: ", self.height as u64);
        add_number(&mut out, ", stride: ", self.stride as u64);
        add_number(&mut out, ", modifier: ", self.modifier);
        add_number(&mut out, ", plane_offset: ", self.plane_offset);
        let mut sizes: Vec<String> = Vec::new();
        let mut i: usize = 0;
        assert(views(sizes@) =~= shown_sizes(self.sizes@.take(0)));
        while i < self.sizes.len()
            invariant
                i <= self.sizes@.len(),
                views(sizes@) == shown_sizes(self.sizes@.take(i as int)),
            decreases self.sizes@.len() - i,
        {
            let size = decimal_u64(self.sizes[i]);
            proof {
                lemma_views_push(sizes@, size);
            }
            sizes.push(size);
            i = i + 1;
            assert(views(sizes@) =~= shown_sizes(self.sizes@.take(i as int)));
        }
        assert(self.sizes@.take(i as int) =~= self.sizes@);
        out.append(", sizes: [");
        let all = join_texts(&sizes, ", ");
        out.append(all.as_str());
        out.append("] }");
        out
    }
}

fn add_number(out: &mut String, label: &str, number: u64)
    ensures
        final(out)@ == old(out)@ + label@ + text::decimal(number as int),
{
    out.append(label);
    let digits = decimal_u64(number);
    out.append(digits.as_str());
}

impl EventMsg {
    /// How an event is shown in messages.
    pub open spec fn shown(self) -> Seq<char> {
        match self {
            EventMsg::Ready => "Ready"@,
            EventMsg::BindBuffers(layout) => layout.shown(),
            EventMsg::Other(shown) => shown@,
        }
    }

    fn show(&self) -> (r: String)
        ensures
            r@ == self.shown(),
    {
        match self {
            EventMsg::Ready => "Ready".to_owned(),
            EventMsg::BindBuffers(layout) => layout.show(),
            EventMsg::Other(shown) => shown.clone(),
        }
    }
}

/// The latest buffers of a renderer and the numbers of the files that came with
/// them.
#[derive(Debug)]
pub struct BindSnapshot {
    pub count: u32,
    pub fourcc: u32,
    pub width: u32,
    pub height: u32,
    pub stride: u32,
    pub modifier: u64,
    pub plane_offset: u64,
    pub sizes: Vec<u64>,
    pub fds: Vec<i32>,
}

/// The snapshot has the layout and the files.
pub open spec fn is_snapshot(snapshot: BindSnapshot, layout: BufferLayout, fds: Seq<i32>) -> bool {
    &&& snapshot.count == layout.count
    &&& snapshot.fourcc == layout.fourcc
    &&& snapshot.width == layout.width
    &&& snapshot.height == layout.height
    &&& snapshot.stride == layout.stride
    &&& snapshot.modifier == layout.modifier
    &&& snapshot.plane_offset == layout.plane_offset
    &&& snapshot.sizes@ == layout.sizes@
    &&& snapshot.fds@ == fds
}

/// What is noted in the log of an event.
#[derive(Clone, Copy, Debug, PartialEq, Eq, Structural)]
pub enum ReaderNote {
    Nothing,
    /// The buffers and their files are kept.
    Cached,
    /// Buffers came without files.
    MissingFiles,
    /// Files came with an event that has none; they are dropped.
    StrayFiles,
}

fn copy_sizes(sizes: &Vec<u64>) -> (copy: Vec<u64>)
    ensures
        copy@ == sizes@,
{
    let mut copy: Vec<u64> = Vec::new();
    let mut i: usize = 0;
    while i < sizes.len()
        invariant
            i <= sizes@.len(),
            copy@ == sizes@.take(i as int),
        decreases sizes@.len() - i,
    {
        copy.push(sizes[i]);
        i = i + 1;
        assert(copy@ =~= sizes@.take(i as int));
    }
    assert(sizes@.take(i as int) =~= sizes@);
    copy
}

/// Takes an event in. Buffers that come with their files take the place of the
/// ones kept; any other event leaves those as they are.
pub fn run_reader(kept: &mut Option<BindSnapshot>, event: &EventMsg, fds: Vec<i32>) -> (note:
    ReaderNote)
    ensures
        match *event {
            EventMsg::BindBuffers(layout) => if fds@.len() > 0 {
                &&& note is Cached
                &&& *final(kept) matches Some(snapshot)
                &&& is_snapshot(snapshot, layout, fds@)
            } else {
                note is MissingFiles && *final(kept) == *old(kept)
            },
            _ => {
                &&& *final(kept) == *old(kept)
                &&& note == (if fds@.len() > 0 {
                    ReaderNote::StrayFiles
                } else {
                    ReaderNote::Nothing
                })
            },
        },
{
    match event {
        EventMsg::BindBuffers(layout) => {
            if fds.len() == 0 {
                ReaderNote::MissingFiles
            } else {
                *kept = Some(
                    BindSnapshot {
                        count: layout.count,
                        fourcc: layout.fourcc,
                        width: layout.width,
                        height: layout.height,
                        stride: layout.stride,
                        modifier: layout.modifier,
                        plane_offset: layout.plane_offset,
                        sizes: copy_sizes(&layout.sizes),
                        fds,
                    },
                );
                ReaderNote::Cached
            }
        },
        _ => if fds.len() > 0 {
            ReaderNote::StrayFiles
        } else {
            ReaderNote::Nothing
        },
    }
}

// ---------------------------------------------------------------------------
// The renderers that run

#[derive(Debug)]
pub struct RendererHandle {
    pub id: RendererId,
    pub width: u32,
    pub height: u32,
    pub fps: u32,
}

#[derive(Debug)]
pub struct RendererManager {
    renderers: TextMap<RendererHandle>,
    renderer_bin: String,
}

pub struct ManagerView {
    pub renderers: Map<Seq<char>, RendererHandle>,
    pub renderer_bin: Seq<char>,
}

impl View for RendererManager {
    type V = ManagerView;

    closed spec fn view(&self) -> ManagerView {
        ManagerView { renderers: self.renderers@, renderer_bin: self.renderer_bin@ }
    }
}

pub open spec fn unknown(id: Seq<char>) -> Fault {
    Fault::Internal("unknown renderer: "@ + id)
}

fn unknown_renderer(id: &str) -> (e: Error)
    ensures
        e@ == unknown(id@),
{
    let mut message = "unknown renderer: ".to_owned();
    message.append(id);
    Error::Internal(message)
}

impl RendererManager {
    /// Every renderer stands under its own id.
    pub closed spec fn wf(self) -> bool {
        self.renderers.wf() && forall|id: Seq<char>| #[trigger]
            self.renderers@.contains_key(id) ==> self.renderers@[id].id@ == id
    }

    /// `renderer_bin` is the program that the environment names.
    pub fn new(renderer_bin: Option<String>) -> (manager: Self)
        ensures
            manager.wf(),
            manager@.renderers == Map::<Seq<char>, RendererHandle>::empty(),
            manager@.renderer_bin == (match renderer_bin {
                Some(bin) => bin@,
                None => DEFAULT_RENDERER_BIN@,
            }),
    {
        let renderer_bin = match renderer_bin {
            Some(bin) => bin,
            None => DEFAULT_RENDERER_BIN.to_owned(),
        };
        RendererManager { renderers: TextMap::new(), renderer_bin }
    }

    /// Plans a renderer under a fresh id.
    pub fn plan_spawn(
        &self,
        request: &SpawnRequest,
        runtime_dir: &Option<String>,
        temp_dir: &str,
    ) -> (plan: SpawnPlan)
        ensures
            producer::is_random_id(plan.id@),
            is_plan(
                plan,
                *request,
                self@.renderer_bin,
                text::view_of(*runtime_dir),
                temp_dir@,
            ),
    {
        self.plan_spawn_as(random_id(), request, runtime_dir, temp_dir)
    }

    /// Plans a renderer under a given id.
    pub fn plan_spawn_as(
        &self,
        id: RendererId,
        request: &SpawnRequest,
        runtime_dir: &Option<String>,
        temp_dir: &str,
    ) -> (plan: SpawnPlan)
        ensures
            plan.id@ == id@,
            is_plan(
                plan,
                *request,
                self@.renderer_bin,
                text::view_of(*runtime_dir),
                temp_dir@,
            ),
    {
        let (socket_dir, socket) = temp_sock_path(runtime_dir, temp_dir, id.as_str());
        let arguments = renderer_arguments(request, socket.as_str());
        SpawnPlan { id, socket_dir, socket, program: self.renderer_bin.clone(), arguments }
    }

    /// Takes a renderer in whose first event has come. It must be that it is
    /// ready; else the renderer is to be killed.
    pub fn spawn(&mut self, id: RendererId, request: &SpawnRequest, first: &EventMsg) -> (r: Result<
        RendererId,
        Error,
    >)
        requires
            old(self).wf(),
        ensures
            final(self).wf(),
            final(self)@.renderer_bin == old(self)@.renderer_bin,
            match r {
                Ok(given) => {
                    &&& first is Ready
                    &&& given@ == id@
                    &&& final(self)@.renderers.contains_key(id@)
                    &&& final(self)@.renderers[id@].id@ == id@
                    &&& final(self)@.renderers[id@].width == request.width
                    &&& final(self)@.renderers[id@].height == request.height
                    &&& final(self)@.renderers[id@].fps == request.fps
                    &&& final(self)@.renderers.remove(id@) == old(self)@.renderers.remove(id@)
                },
                Err(e) => {
                    &&& !(first is Ready)
                    &&& e@ == Fault::Internal(
                        "host emitted "@ + first.shown() + " before Ready; aborting spawn"@,
                    )
                    &&& final(self)@ == old(self)@
                },
            },
    {
        match first {
            EventMsg::Ready => {},
            other => {
                let mut message = "host emitted ".to_owned();
                let shown = other.show();
                message.append(shown.as_str());
                message.append(" before Ready; aborting spawn");
                return Err(Error::Internal(message));
            },
        }
        let ghost before = self@.renderers;
        let handle = RendererHandle {
            id: id.clone(),
            width: request.width,
            height: request.height,
            fps: request.fps,
        };
        self.renderers.insert(id.clone(), handle);
        assert(self@.renderers.remove(id@) =~= before.remove(id@));
        Ok(id)
    }

    pub fn get(&self, id: &str) -> (r: Option<&RendererHandle>)
        requires
            self.wf(),
        ensures
            match r {
                Some(handle) => self@.renderers.contains_key(id@) && *handle
                    == self@.renderers[id@],
                None => !self@.renderers.contains_key(id@),
            },
    {
        self.renderers.get(id)
    }

    /// The ids of all renderers, each once.
    pub fn list(&self) -> (ids: Vec<RendererId>)
        requires
            self.wf(),
        ensures
            views(ids@).no_duplicates(),
            views(ids@).to_set() == self@.renderers.dom(),
    {
        let ghost order = self.renderers.order();
        let n: usize = self.renderers.len();
        let mut ids: Vec<RendererId> = Vec::new();
        let mut i: usize = 0;
        proof {
            self.renderers.lemma_order();
            assert(views(ids@) =~= order.take(0));
        }
        while i < n
            invariant
                self.renderers.wf(),
                order == self.renderers.order(),
                n == order.len(),
                i <= n,
                views(ids@) == order.take(i as int),
            decreases n - i,
        {
            let id = self.renderers.key_at(i).clone();
            proof {
                lemma_views_push(ids@, id);
            }
            ids.push(id);
            i = i + 1;
            assert(views(ids@) =~= order.take(i as int));
        }
        proof {
            assert(order.take(i as int) =~= order);
            assert(order.to_set() =~= self@.renderers.dom());
        }
        ids
    }

    /// A renderer that a message can be sent to.
    pub fn send_control(&self, id: &str) -> (r: Result<&RendererHandle, Error>)
        requires
            self.wf(),
        ensures
            match r {
                Ok(handle) => self@.renderers.contains_key(id@) && *handle == self@.renderers[id@],
                Err(e) => !self@.renderers.contains_key(id@) && e@ == unknown(id@),
            },
    {
        match self.renderers.get(id) {
            Some(handle) => Ok(handle),
            None => Err(unknown_renderer(id)),
        }
    }

    /// Takes a renderer out that is then to be shut down.
    pub fn kill(&mut self, id: &str) -> (r: Result<RendererHandle, Error>)
        requires
            old(self).wf(),
        ensures
            final(self).wf(),
            final(self)@ == (ManagerView {
                renderers: old(self)@.renderers.remove(id@),
                ..old(self)@
            }),
            match r {
                Ok(handle) => old(self)@.renderers.contains_key(id@) && handle
                    == old(self)@.renderers[id@],
                Err(e) => !old(self)@.renderers.contains_key(id@) && e@ == unknown(id@),
            },
    {
        match self.renderers.remove(id) {
            Some(handle) => Ok(handle),
            None => Err(unknown_renderer(id)),
        }
    }
}

// ---------------------------------------------------------------------------
// Laws

/// To end a renderer that was just started under a new id leaves all as it was.
pub proof fn law_kill_undoes_spawn(
    renderers: Map<Seq<char>, RendererHandle>,
    id: Seq<char>,
    handle: RendererHandle,
)
    requires
        !renderers.contains_key(id),
    ensures
        renderers.insert(id, handle).remove(id) == renderers,
{
    assert(renderers.insert(id, handle).remove(id) =~= renderers);
}

/// Renderers that are started under different ids connect back to different
/// sockets.
pub proof fn law_sockets_differ(dir: Seq<char>, one: Seq<char>, two: Seq<char>)
    requires
        one != two,
    ensures
        socket_path(dir, one) != socket_path(dir, two),
{
    reveal_strlit("renderer-");
    reveal_strlit("/");
    let a = "renderer-"@ + one + ".sock"@;
    let b = "renderer-"@ + two + ".sock"@;
    assert(a[0] == 'r' && b[0] == 'r');
    let head = if dir.len() == 0 {
        Seq::empty()
    } else if dir.last() == '/' {
        dir
    } else {
        dir + "/"@
    };
    assert(socket_path(dir, one) =~= head + a);
    assert(socket_path(dir, two) =~= head + b);
    if head + a == head + b {
        assert(a =~= (head + a).skip(head.len() as int));
        assert(b =~= (head + b).skip(head.len() as int));
        let tail = ".sock"@.len();
        assert(one =~= a.subrange(9, a.len() - tail));
        assert(two =~= b.subrange(9, b.len() - tail));
    }
}

/// A renderer is told its socket, its size and its rate, then its scene and its
/// assets where it has them, then whether to show a test pattern.
pub proof fn law_words_for_a_renderer(request: SpawnRequest, socket: Seq<char>)
    ensures
        command_words(request, socket).take(8) == seq![
            "--ipc"@,
            socket,
            "--width"@,
            text::decimal(request.width as int),
            "--height"@,
            text::decimal(request.height as int),
            "--fps"@,
            text::decimal(request.fps as int),
        ],
        command_words(request, socket).skip(8) == (if request.scene_pkg@.len() > 0 {
            seq!["--scene"@, request.scene_pkg@]
        } else {
            Seq::empty()
        }) + (if request.assets@.len() > 0 {
            seq!["--assets"@, request.assets@]
        } else {
            Seq::empty()
        }) + (if request.test_pattern {
            seq!["--test-pattern"@]
        } else {
            Seq::empty()
        }),
{
    let rest = option_words("--scene"@, request.scene_pkg@) + option_words(
        "--assets"@,
        request.assets@,
    ) + (if request.test_pattern {
        seq!["--test-pattern"@]
    } else {
        Seq::empty()
    });
    let head = seq![
        "--ipc"@,
        socket,
        "--width"@,
        text::decimal(request.width as int),
        "--height"@,
        text::decimal(request.height as int),
        "--fps"@,
        text::decimal(request.fps as int),
    ];
    assert(command_words(request, socket) =~= head + rest);
    assert((head + rest).take(8) =~= head);
    assert((head + rest).skip(8) =~= rest);
}

/// The sockets lie in the directory `waywallen` of the runtime directory, or of
/// the temporary one where there is none, each under its renderer's id.
pub proof fn law_places_of_sockets(runtime_dir: Seq<char>, temp_dir: Seq<char>, id: Seq<char>)
    ensures
        socket_dir(Some(runtime_dir), temp_dir) == path::joined(runtime_dir, "waywallen"@),
        socket_dir(None, temp_dir) == path::joined(temp_dir, "waywallen"@),
        socket_path(socket_dir(None, temp_dir), id) == path::joined(
            path::joined(temp_dir, "waywallen"@),
            "renderer-"@ + id + ".sock"@,
        ),
        socket_path(socket_dir(Some(runtime_dir), temp_dir), id) == path::joined(
            path::joined(runtime_dir, "waywallen"@),
            "renderer-"@ + id + ".sock"@,
        ),
{
}

/// What a plan for a renderer holds.
pub proof fn law_plan(
    plan: SpawnPlan,
    request: SpawnRequest,
    program: Seq<char>,
    runtime_dir: Option<Seq<char>>,
    temp_dir: Seq<char>,
)
    requires
        is_plan(plan, request, program, runtime_dir, temp_dir),
    ensures
        plan.program@ == program,
        plan.socket_dir@ == socket_dir(runtime_dir, temp_dir),
        plan.socket@ == socket_path(socket_dir(runtime_dir, temp_dir), plan.id@),
        views(plan.arguments@) == command_words(request, plan.socket@),
        views(plan.arguments@)[1] == plan.socket@,
{
}

/// The buffers that are kept are those that were announced, with their files.
pub proof fn law_kept_buffers(snapshot: BindSnapshot, layout: BufferLayout, fds: Seq<i32>)
    requires
        is_snapshot(snapshot, layout, fds),
    ensures
        snapshot.count == layout.count,
        snapshot.fourcc == layout.fourcc,
        snapshot.width == layout.width,
        snapshot.height == layout.height,
        snapshot.stride == layout.stride,
        snapshot.modifier == layout.modifier,
        snapshot.plane_offset == layout.plane_offset,
        snapshot.sizes@ == layout.sizes@,
        snapshot.fds@ == fds,
{
}

/// How events are shown: a ready renderer by its name, buffers by each of their
/// numbers, all else as it shows itself.
pub proof fn law_shown_events(layout: BufferLayout, shown: String)
    ensures
        EventMsg::Ready.shown() == "Ready"@,
        EventMsg::Other(shown).shown() == shown@,
        EventMsg::BindBuffers(layout).shown() == "BindBuffers { count: "@ + text::decimal(
            layout.count as int,
        ) + ", fourcc: "@ + text::decimal(layout.fourcc as int) + ", width: "@ + text::decimal(
            layout.width as int,
        ) + ", height: "@ + text::decimal(layout.height as int) + ", stride: "@ + text::decimal(
            layout.stride as int,
        ) + ", modifier: "@ + text::decimal(layout.modifier as int) + ", plane_offset: "@
            + text::decimal(layout.plane_offset as int) + ", sizes: ["@ + text::join(
            shown_sizes(layout.sizes@),
            ", "@,
        ) + "] }"@,
        shown_sizes(layout.sizes@).len() == layout.sizes@.len(),
        forall|i: int|
            0 <= i < layout.sizes@.len() ==> #[trigger] shown_sizes(layout.sizes@)[i]
                == text::decimal(layout.sizes@[i] as int),
{
}

/// A renderer that is not known is refused by its id.
pub proof fn law_unknown_renderer(id: Seq<char>)
    ensures
        unknown(id) == Fault::Internal("unknown renderer: "@ + id),
{
}

/// The release of the contract and the limits that renderers are held to.
pub proof fn law_limits()
    ensures
        SPAWN_VERSION == 6,
        DEFAULT_RENDERER_BIN@ == "waywallen-renderer"@,
        CONNECT_TIMEOUT_SECS == 10,
        LEAVE_TIMEOUT_SECS == 2,
        EVENT_BACKLOG == 256,
{
}

} // verus!
