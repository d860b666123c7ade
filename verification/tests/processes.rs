//! Renderer processes, displays, producers and the probe of media files.
use waywallen::error::Error;
use waywallen::plugin::display_registry::{
    build_default_registry, default_priority, resolve_manifest_bin, DisplayDef, DisplayRegistry,
    SpawnMode,
};
use waywallen::probe_task::{
    candidate_limit, cooldown_cutoff, join_path, ProbeCandidate, ProbeFinding, ProbePass,
    ProbeStats,
};
use waywallen::producer::ProducerManager;
use waywallen::renderer_manager::{
    renderer_arguments, run_reader, temp_sock_path, BindSnapshot, BufferLayout, EventMsg,
    ReaderNote, RendererManager, SpawnRequest,
};

fn request() -> SpawnRequest {
    SpawnRequest {
        scene_pkg: "/w/scene.pkg".to_owned(),
        assets: "/w/assets".to_owned(),
        width: 1920,
        height: 1080,
        fps: 60,
        test_pattern: true,
    }
}

fn layout(width: u32) -> BufferLayout {
    BufferLayout {
        count: 2,
        fourcc: 875713112,
        width,
        height: 1080,
        stride: 7680,
        modifier: 1,
        plane_offset: 0,
        sizes: vec![8294400, 8294400],
    }
}

#[test]
fn a_renderer_is_told_where_to_connect_and_what_to_show() {
    assert_eq!(
        renderer_arguments(&request(), "/run/s.sock"),
        vec![
            "--ipc", "/run/s.sock", "--width", "1920", "--height", "1080", "--fps", "60",
            "--scene", "/w/scene.pkg", "--assets", "/w/assets", "--test-pattern",
        ],
    );
    let bare = SpawnRequest::default();
    assert_eq!(
        renderer_arguments(&bare, "/s"),
        vec!["--ipc", "/s", "--width", "0", "--height", "0", "--fps", "0"],
    );
}

#[test]
fn sockets_stand_below_the_runtime_directory() {
    let some = Some("/run/user/1000".to_owned());
    assert_eq!(
        temp_sock_path(&some, "/tmp", "ab"),
        (
            "/run/user/1000/waywallen".to_owned(),
            "/run/user/1000/waywallen/renderer-ab.sock".to_owned(),
        ),
    );
    assert_eq!(temp_sock_path(&None, "/tmp", "ab").0, "/tmp/waywallen");
}

#[test]
fn a_plan_has_an_id_of_its_own() {
    let manager = RendererManager::new(Some("/opt/renderer".to_owned()));
    let plan = manager.plan_spawn(&request(), &None, "/tmp");
    let other = manager.plan_spawn(&request(), &None, "/tmp");
    assert_eq!(plan.id.len(), 36);
    assert_ne!(plan.id, other.id);
    assert_eq!(plan.program, "/opt/renderer");
    assert_eq!(plan.socket_dir, "/tmp/waywallen");
    assert_eq!(plan.socket, format!("/tmp/waywallen/renderer-{}.sock", plan.id));
    assert_eq!(plan.arguments[1], plan.socket);
    let usual = RendererManager::new(None);
    let plan = usual.plan_spawn_as("r1".to_owned(), &request(), &None, "/tmp");
    assert_eq!(plan.program, "waywallen-renderer");
    assert_eq!(plan.socket, "/tmp/waywallen/renderer-r1.sock");
}

#[test]
fn only_a_ready_renderer_is_kept() {
    let mut manager = RendererManager::new(None);
    assert!(manager.list().is_empty());
    let refused = manager.spawn("r0".to_owned(), &request(), &EventMsg::BindBuffers(layout(1)));
    assert_eq!(
        refused.unwrap_err().message(),
        "host emitted BindBuffers { count: 2, fourcc: 875713112, width: 1, height: 1080, \
         stride: 7680, modifier: 1, plane_offset: 0, sizes: [8294400, 8294400] } before Ready; \
         aborting spawn",
    );
    let other = EventMsg::Other("Stopped".to_owned());
    assert!(manager.spawn("r0".to_owned(), &request(), &other).is_err());
    assert!(manager.get("r0").is_none());

    assert_eq!(manager.spawn("r1".to_owned(), &request(), &EventMsg::Ready).unwrap(), "r1");
    assert_eq!(manager.spawn("r2".to_owned(), &request(), &EventMsg::Ready).unwrap(), "r2");
    let handle = manager.get("r1").unwrap();
    assert_eq!((handle.width, handle.height, handle.fps), (1920, 1080, 60));
    let mut ids = manager.list();
    ids.sort();
    assert_eq!(ids, vec!["r1", "r2"]);
    assert_eq!(manager.send_control("r2").unwrap().id, "r2");

    assert_eq!(manager.kill("r1").unwrap().id, "r1");
    assert!(manager.get("r1").is_none());
    assert_eq!(manager.list(), vec!["r2"]);
    assert!(manager.kill("r1").is_err());
    assert!(manager.send_control("r1").is_err());
}

#[test]
fn the_latest_buffers_are_kept_with_their_files() {
    let mut kept: Option<BindSnapshot> = None;
    let first = EventMsg::BindBuffers(layout(640));
    assert_eq!(run_reader(&mut kept, &first, Vec::new()), ReaderNote::MissingFiles);
    assert!(kept.is_none());
    assert_eq!(run_reader(&mut kept, &first, vec![7, 8]), ReaderNote::Cached);
    assert_eq!(kept.as_ref().unwrap().fds, vec![7, 8]);
    assert_eq!(run_reader(&mut kept, &EventMsg::Ready, vec![9]), ReaderNote::StrayFiles);
    assert_eq!(run_reader(&mut kept, &EventMsg::Ready, Vec::new()), ReaderNote::Nothing);
    assert_eq!(kept.as_ref().unwrap().width, 640);
    let second = EventMsg::BindBuffers(layout(800));
    assert_eq!(run_reader(&mut kept, &second, vec![10]), ReaderNote::Cached);
    let snapshot = kept.unwrap();
    assert_eq!((snapshot.width, snapshot.stride), (800, 7680));
    assert_eq!(snapshot.sizes, vec![8294400, 8294400]);
    assert_eq!(snapshot.fds, vec![10]);
}

fn display(name: &str, priority: i32, bin: &str) -> DisplayDef {
    DisplayDef {
        name: name.to_owned(),
        bin: bin.to_owned(),
        de: Vec::new(),
        priority,
        requires: Vec::new(),
        extra_args: Vec::new(),
        spawn: SpawnMode::default(),
    }
}

fn names(registry: &DisplayRegistry) -> Vec<&str> {
    registry.all().iter().map(|def| def.name.as_str()).collect()
}

#[test]
fn displays_stand_by_priority_and_then_as_they_came() {
    let mut registry = DisplayRegistry::new();
    registry.register(display("low", 10, "/b/low"));
    registry.register(display("first", default_priority(), "/b/first"));
    registry.register(display("high", 200, "/b/high"));
    registry.register(display("second", default_priority(), "/b/second"));
    assert_eq!(names(&registry), vec!["high", "first", "second", "low"]);
    assert_eq!(registry.find("second").unwrap().bin, "/b/second");
    assert!(registry.find("none").is_none());

    registry.register(display("high", 20, "/u/high"));
    assert_eq!(names(&registry), vec!["first", "second", "high", "low"]);
    assert_eq!(registry.find("high").unwrap().bin, "/u/high");
}

#[test]
fn a_display_of_the_user_shadows_the_bundled_one() {
    let bundled = vec![display("kde", 100, "/usr/kde"), display("layer", 100, "/usr/layer")];
    let user = vec![display("kde", 100, "/home/kde")];
    let registry = build_default_registry(vec![bundled, user]);
    assert_eq!(names(&registry), vec!["layer", "kde"]);
    assert_eq!(registry.find("kde").unwrap().bin, "/home/kde");
    assert_eq!(names(&DisplayRegistry::scan(Vec::new())).len(), 0);
}

#[test]
fn a_relative_program_stands_beside_its_manifest() {
    assert_eq!(resolve_manifest_bin("/usr/share/displays", "bin/kde"), "/usr/share/displays/bin/kde");
    assert_eq!(resolve_manifest_bin("/usr/share/displays", "/opt/kde"), "/opt/kde");
    assert_eq!(resolve_manifest_bin("/usr/share/displays", ""), "");
}

#[test]
fn producers_are_found_until_they_are_removed() {
    let mut manager = ProducerManager::new();
    let one = manager.register("camera", "video");
    let two = manager.register("camera", "video");
    assert_ne!(one.id, two.id);
    assert_eq!(one.id.len(), 36);
    assert_eq!((one.name.as_str(), one.ty.as_str()), ("camera", "video"));
    assert!(one.created_at.contains('T'));
    assert!(one.created_at.ends_with("+00:00"));
    assert!("89ab".contains(one.id.as_bytes()[19] as char));
    assert_eq!(manager.get_producer(&two.id).unwrap().id, two.id);
    assert_eq!(manager.list_producers().len(), 2);
    assert!(manager.remove_producer(&one.id));
    assert!(!manager.remove_producer(&one.id));
    assert!(manager.get_producer(&one.id).is_none());
    assert_eq!(manager.list_producers()[0].id, two.id);

    let known = manager.register_as("p1".to_owned(), "a", "b", "then".to_owned());
    assert_eq!((known.id.as_str(), known.created_at.as_str()), ("p1", "then"));
    manager.register_as("p1".to_owned(), "c", "d", "now".to_owned());
    assert_eq!(manager.get_producer("p1").unwrap().name, "a");
    assert_eq!(manager.list_producers().len(), 3);
    assert!(manager.remove_producer("p1"));
    assert_eq!(manager.list_producers().len(), 1);
}

fn candidate(id: i64, path: &str) -> ProbeCandidate {
    ProbeCandidate { id, path: path.to_owned(), library_root: "/r".to_owned() }
}

fn finding(width: Option<u32>, format: Option<&str>) -> ProbeFinding {
    ProbeFinding { width, height: None, format: format.map(|text| text.to_owned()) }
}

/// Runs a pass in which every probe finds the same, and lists what was probed.
fn run(pass: &mut ProbePass, found: &ProbeFinding, written: bool) -> Vec<String> {
    let mut seen: Vec<String> = Vec::new();
    while let Some(target) = pass.next() {
        seen.push(target.path);
        pass.finish(found, written);
    }
    seen
}

#[test]
fn run_pending_skips_non_probable_extensions() {
    let candidates = vec![candidate(1, "12345/scene.pkg"), candidate(2, "clip.mp4")];
    assert_eq!(candidates.len(), 2, "both rows should be candidates pre-filter");
    let mut pass = ProbePass::new(candidates, 10);
    let found = ProbeFinding {
        width: Some(640),
        height: Some(480),
        format: Some("mp4".to_owned()),
    };
    let seen = run(&mut pass, &found, true);
    assert_eq!(pass.stats.probed, 1, "only mp4 should have been probed");
    assert_eq!(pass.stats.skipped_extension, 1, "scene.pkg must be ext-skipped");
    assert_eq!(seen, vec!["/r/clip.mp4".to_owned()]);
}

#[test]
fn a_probe_without_a_finding_gains_nothing() {
    let mut pass = ProbePass::new(vec![candidate(1, "clip.mp4")], 10);
    let seen = run(&mut pass, &finding(None, Some("")), true);
    assert_eq!(seen.len(), 1);
    assert_eq!(
        pass.stats,
        ProbeStats { candidates: 1, probed: 1, ..ProbeStats::default() },
    );
}

#[test]
fn a_pass_ends_with_the_last_item_it_may_probe() {
    let rows = vec![
        candidate(1, "a.png"),
        candidate(2, "b.txt"),
        candidate(3, "c.webm"),
        candidate(4, "d.jpg"),
    ];
    let mut pass = ProbePass::new(rows, 2);
    let seen = run(&mut pass, &finding(Some(4), Some("png")), false);
    assert_eq!(seen, vec!["/r/a.png", "/r/c.webm"]);
    assert_eq!(
        pass.stats,
        ProbeStats {
            candidates: 4,
            skipped_extension: 1,
            probed: 2,
            gained_dimensions: 2,
            gained_format: 2,
            write_errors: 2,
            elapsed_ms: 0,
        },
    );
    assert!(pass.next().is_none());
}

#[test]
fn candidates_are_asked_for_four_times_over() {
    assert_eq!(candidate_limit(10), 40);
    assert_eq!(candidate_limit(usize::MAX), u64::MAX);
    assert_eq!(cooldown_cutoff(30_000_000), 8_400_000);
}

#[test]
fn items_are_joined_to_their_library_by_one_slash() {
    assert_eq!(join_path("/r/", "/a/b.png"), "/r/a/b.png");
    assert_eq!(join_path("/r//", "a"), "/r/a");
    assert_eq!(join_path("/r/", "/"), "/r");
    assert_eq!(join_path("/", "a"), "/a");
}

#[test]
fn every_error_tells_its_message() {
    let plugin = || "p".to_owned();
    let message = || "why".to_owned();
    let all = vec![
        Error::Internal(message()),
        Error::InvalidArgument(message()),
        Error::SourcePluginNotFound(message()),
        Error::SourceExtrasFailed { plugin: plugin(), message: message() },
        Error::SourceApplyFailed { plugin: plugin(), message: message() },
        Error::SourceItemRemoveUnsupported(message()),
        Error::SourceItemRemoveFailed { plugin: plugin(), message: message() },
        Error::DiscoverUnsupported(message()),
        Error::DiscoverFailed { plugin: plugin(), message: message() },
        Error::ResolveFailed { plugin: plugin(), message: message() },
        Error::SettingsValidationFailed(message()),
    ];
    for error in all {
        assert_eq!(error.message(), "why");
    }
}
