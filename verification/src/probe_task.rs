//! The background pass that probes media files for their size and format.
use vstd::prelude::*;
use crate::path;
use crate::path::extension;
use crate::text;
use crate::text::{chars_of, same, text_between};

verus! {

/// Seconds between two wakes of the scheduler.
pub const PROBE_TICK_SECS: u64 = 300;

/// Milliseconds between two attempts on the same item.
pub const PROBE_COOLDOWN_MS: i64 = 21_600_000;

/// Most items processed per tick.
pub const PROBE_BATCH: usize = 64;

/// Most items processed right after a sync.
pub const PROBE_REFRESH_BATCH: usize = 256;

/// Extensions worth probing, in lower case.
pub const PROBABLE_EXTS: [&'static str; 14] = [
    "mp4",
    "mkv",
    "webm",
    "mov",
    "avi",
    "png",
    "jpg",
    "jpeg",
    "webp",
    "gif",
    "bmp",
    "tiff",
    "tif",
    "avif",
];

pub open spec fn ascii_lower_text(s: Seq<char>) -> Seq<char> {
    s.map_values(|c: char| text::ascii_lower(c))
}

/// The extension, whatever its case, is one worth probing.
pub open spec fn probable(path: Seq<char>) -> bool {
    match path::extension_of(path) {
        Some(ext) => exists|i: int|
            0 <= i < PROBABLE_EXTS@.len() && (#[trigger] PROBABLE_EXTS@[i])@ == ascii_lower_text(ext),
        None => false,
    }
}

pub fn is_probable(path: &str) -> (r: bool)
    ensures
        r == probable(path@),
{
    match extension(path) {
        None => false,
        Some(ext) => {
            let lower = to_ascii_lowercase(ext.as_str());
            let exts = PROBABLE_EXTS;
            let mut i: usize = 0;
            while i < exts.len()
                invariant
                    i <= exts@.len(),
                    exts@ == PROBABLE_EXTS@,
                    lower@ == ascii_lower_text(ext@),
                    path::extension_of(path@) == Some(ext@),
                    forall|j: int| 0 <= j < i ==> (#[trigger] PROBABLE_EXTS@[j])@ != lower@,
                decreases exts@.len() - i,
            {
                if same(exts[i], lower.as_str()) {
                    assert(PROBABLE_EXTS@[i as int]@ == lower@);
                    return true;
                }
                i = i + 1;
            }
            false
        },
    }
}

fn to_ascii_lowercase(s: &str) -> (r: String)
    ensures
        r@ == ascii_lower_text(s@),
{
    let chars = chars_of(s);
    let mut out = String::new();
    let mut i: usize = 0;
    while i < chars.len()
        invariant
            i <= chars.len(),
            chars@ == s@,
            out@ == ascii_lower_text(s@.take(i as int)),
        decreases chars.len() - i,
    {
        out.push(text::to_ascii_lower(chars[i]));
        i = i + 1;
        assert(out@ =~= ascii_lower_text(s@.take(i as int)));
    }
    assert(s@.take(i as int) =~= s@);
    out
}

/// A text without the slashes at its end.
pub open spec fn without_end_slashes(s: Seq<char>) -> Seq<char>
    decreases s.len(),
{
    if s.len() > 0 && s.last() == '/' {
        without_end_slashes(s.drop_last())
    } else {
        s
    }
}

/// A text without the slashes at its start.
pub open spec fn without_start_slashes(s: Seq<char>) -> Seq<char>
    decreases s.len(),
{
    if s.len() > 0 && s[0] == '/' {
        without_start_slashes(s.skip(1))
    } else {
        s
    }
}

/// Where an item lies below the root of its library.
pub open spec fn item_path(root: Seq<char>, rel: Seq<char>) -> Seq<char> {
    let root = without_end_slashes(root);
    let rel = without_start_slashes(rel);
    if rel.len() == 0 {
        root
    } else {
        root + "/"@ + rel
    }
}

pub fn join_path(root: &str, rel: &str) -> (r: String)
    ensures
        r@ == item_path(root@, rel@),
{
    let a = chars_of(root);
    let b = chars_of(rel);
    let mut end: usize = a.len();
    assert(a@.take(end as int) =~= root@);
    while end > 0 && a[end - 1] == '/'
        invariant
            end <= a.len(),
            without_end_slashes(root@) == without_end_slashes(a@.take(end as int)),
        decreases end,
    {
        assert(a@.take(end as int).drop_last() =~= a@.take(end - 1));
        end = end - 1;
    }
    let mut start: usize = 0;
    assert(b@.skip(0) =~= rel@);
    while start < b.len() && b[start] == '/'
        invariant
            start <= b.len(),
            without_start_slashes(rel@) == without_start_slashes(b@.skip(start as int)),
        decreases b.len() - start,
    {
        assert(b@.skip(start as int).skip(1) =~= b@.skip(start + 1));
        start = start + 1;
    }
    let mut out = text_between(&a, 0, end);
    assert(out@ =~= a@.take(end as int));
    if start < b.len() {
        out.append("/");
        let rest = text_between(&b, start, b.len());
        assert(rest@ =~= b@.skip(start as int));
        out.append(rest.as_str());
    }
    out
}

/// What one pass did.
#[derive(Clone, Copy, Debug, PartialEq, Eq, Structural)]
pub struct ProbeStats {
    /// Items that were up for a probe.
    pub candidates: usize,
    /// Items passed over for their extension.
    pub skipped_extension: usize,
    /// Items that were probed.
    pub probed: usize,
    /// Items whose probe gave a width or a height.
    pub gained_dimensions: usize,
    /// Items whose probe gave a format that is not empty.
    pub gained_format: usize,
    /// Items whose outcome could not be written.
    pub write_errors: usize,
    /// Wall time of the pass in milliseconds.
    pub elapsed_ms: u128,
}

impl ProbeStats {
    pub open spec fn zero() -> ProbeStats {
        ProbeStats {
            candidates: 0,
            skipped_extension: 0,
            probed: 0,
            gained_dimensions: 0,
            gained_format: 0,
            write_errors: 0,
            elapsed_ms: 0,
        }
    }
}

impl Default for ProbeStats {
    fn default() -> (stats: Self)
        ensures
            stats == ProbeStats::zero(),
    {
        ProbeStats {
            candidates: 0,
            skipped_extension: 0,
            probed: 0,
            gained_dimensions: 0,
            gained_format: 0,
            write_errors: 0,
            elapsed_ms: 0,
        }
    }
}

/// An item up for a probe.
#[derive(Debug)]
pub struct ProbeCandidate {
    pub id: i64,
    pub path: String,
    pub library_root: String,
}

/// A file to be probed for an item.
#[derive(Debug)]
pub struct ProbeTarget {
    pub id: i64,
    pub path: String,
}

/// What a probe found.
#[derive(Debug)]
pub struct ProbeFinding {
    pub width: Option<u32>,
    pub height: Option<u32>,
    pub format: Option<String>,
}

impl ProbeFinding {
    /// The probe gave a width or a height.
    pub open spec fn has_dimensions(self) -> bool {
        self.width is Some || self.height is Some
    }

    /// The probe gave a format that is not empty.
    pub open spec fn has_format(self) -> bool {
        self.format matches Some(format) && format@.len() > 0
    }
}

/// How many candidates are asked for when `max` items may be probed.
pub fn candidate_limit(max: usize) -> (limit: u64)
    ensures
        limit == if max as u64 * 4 > u64::MAX {
            u64::MAX as int
        } else {
            max as u64 * 4
        },
{
    let wanted: u64 = max as u64;
    if wanted > u64::MAX / 4 {
        u64::MAX
    } else {
        wanted * 4
    }
}

/// Items touched later than this are left alone.
pub fn cooldown_cutoff(now_ms: i64) -> (cutoff: i64)
    requires
        now_ms - PROBE_COOLDOWN_MS >= i64::MIN,
    ensures
        cutoff == now_ms - PROBE_COOLDOWN_MS,
{
    now_ms - PROBE_COOLDOWN_MS
}

/// A pass over the candidates: it hands out one file after the other and takes
/// back what came of it.
pub struct ProbePass {
    pub candidates: Vec<ProbeCandidate>,
    pub max: usize,
    pub at: usize,
    pub stats: ProbeStats,
}

/// The first candidate from `at` on that is worth probing; the number of
/// candidates where there is none.
pub open spec fn next_probable(candidates: Seq<ProbeCandidate>, at: int) -> int
    decreases candidates.len() - at,
{
    if at >= candidates.len() || probable(candidates[at].path@) {
        at
    } else {
        next_probable(candidates, at + 1)
    }
}

impl ProbePass {
    /// Every candidate behind `at` was skipped or probed, and no more than `max`
    /// were probed.
    pub open spec fn wf(self) -> bool {
        &&& self.at <= self.candidates@.len()
        &&& self.stats.candidates == self.candidates@.len()
        &&& self.stats.skipped_extension + self.stats.probed == self.at
        &&& self.stats.probed <= self.max
        &&& self.stats.gained_dimensions <= self.stats.probed
        &&& self.stats.gained_format <= self.stats.probed
        &&& self.stats.write_errors <= self.stats.probed
    }

    pub fn new(candidates: Vec<ProbeCandidate>, max: usize) -> (pass: Self)
        ensures
            pass.wf(),
            pass.candidates == candidates,
            pass.max == max,
            pass.at == 0,
            pass.stats == (ProbeStats { candidates: candidates@.len() as usize, ..ProbeStats::zero() }),
    {
        let mut stats = ProbeStats::default();
        stats.candidates = candidates.len();
        ProbePass { candidates, max, at: 0, stats }
    }

    /// The next file to probe. Candidates that are not worth probing are
    /// counted and passed over; nothing is handed out once `max` items were
    /// probed.
    pub fn next(&mut self) -> (r: Option<ProbeTarget>)
        requires
            old(self).wf(),
        ensures
            final(self).wf(),
            final(self).candidates == old(self).candidates,
            final(self).max == old(self).max,
            old(self).stats.probed >= old(self).max ==> r is None && *final(self) == *old(self),
            old(self).stats.probed < old(self).max ==> {
                let found = next_probable(old(self).candidates@, old(self).at as int);
                &&& final(self).at == found
                &&& final(self).stats == (ProbeStats {
                    skipped_extension: (old(self).stats.skipped_extension + found
                        - old(self).at) as usize,
                    ..old(self).stats
                })
                &&& r is None <==> found == old(self).candidates@.len()
                &&& r matches Some(target) ==> target.id == old(self).candidates@[found].id
                    && target.path@ == item_path(
                    old(self).candidates@[found].library_root@,
                    old(self).candidates@[found].path@,
                )
            },
    {
        if self.stats.probed >= self.max {
            return None;
        }
        let ghost start = *self;
        while self.at < self.candidates.len() && !is_probable(self.candidates[self.at].path.as_str())
            invariant
                self.wf(),
                self.candidates == start.candidates,
                self.max == start.max,
                start.at <= self.at,
                self.stats.skipped_extension == start.stats.skipped_extension + self.at - start.at,
                next_probable(start.candidates@, start.at as int) == next_probable(
                    start.candidates@,
                    self.at as int,
                ),
                self.stats == (ProbeStats {
                    skipped_extension: (start.stats.skipped_extension + self.at
                        - start.at) as usize,
                    ..start.stats
                }),
            decreases self.candidates@.len() - self.at,
        {
            self.stats.skipped_extension = self.stats.skipped_extension + 1;
            self.at = self.at + 1;
        }
        if self.at < self.candidates.len() {
            let candidate = &self.candidates[self.at];
            let path = join_path(candidate.library_root.as_str(), candidate.path.as_str());
            Some(ProbeTarget { id: candidate.id, path })
        } else {
            None
        }
    }

    /// Takes back what the probe of the handed out file found and whether it
    /// was written.
    pub fn finish(&mut self, finding: &ProbeFinding, written: bool)
        requires
            old(self).wf(),
            old(self).at < old(self).candidates@.len(),
            old(self).stats.probed < old(self).max,
        ensures
            final(self).wf(),
            final(self).candidates == old(self).candidates,
            final(self).max == old(self).max,
            final(self).at == old(self).at + 1,
            final(self).stats == (ProbeStats {
                probed: (old(self).stats.probed + 1) as usize,
                write_errors: (old(self).stats.write_errors + if written {
                    0int
                } else {
                    1
                }) as usize,
                gained_dimensions: (old(self).stats.gained_dimensions + if finding.has_dimensions() {
                    1int
                } else {
                    0
                }) as usize,
                gained_format: (old(self).stats.gained_format + if finding.has_format() {
                    1int
                } else {
                    0
                }) as usize,
                ..old(self).stats
            }),
    {
        if finding.width.is_some() || finding.height.is_some() {
            self.stats.gained_dimensions = self.stats.gained_dimensions + 1;
        }
        if let Some(format) = &finding.format {
            if !format.as_str().is_empty() {
                self.stats.gained_format = self.stats.gained_format + 1;
            }
        }
        self.stats.probed = self.stats.probed + 1;
        if !written {
            self.stats.write_errors = self.stats.write_errors + 1;
        }
        self.at = self.at + 1;
    }
}

// ---------------------------------------------------------------------------
// Laws

/// A pass that has come to its end passed over or probed every candidate, each
/// once, and never probed more than it may.
pub proof fn law_every_candidate_is_accounted_for(pass: ProbePass)
    requires
        pass.wf(),
        pass.at == pass.candidates@.len(),
    ensures
        pass.stats.skipped_extension + pass.stats.probed == pass.stats.candidates,
        pass.stats.probed <= pass.max,
{
}

/// Only files worth probing are handed out, and none of them is passed over.
pub proof fn law_next_is_probable(candidates: Seq<ProbeCandidate>, at: int)
    requires
        0 <= at <= candidates.len(),
    ensures
        at <= next_probable(candidates, at) <= candidates.len(),
        next_probable(candidates, at) < candidates.len() ==> probable(
            candidates[next_probable(candidates, at)].path@,
        ),
        forall|i: int|
            at <= i < next_probable(candidates, at) ==> !probable((#[trigger] candidates[i]).path@),
    decreases candidates.len() - at,
{
    if at < candidates.len() && !probable(candidates[at].path@) {
        law_next_is_probable(candidates, at + 1);
    }
}

/// An item is probed for its extension in any case: those of the films and
/// pictures that a probe can read.
pub proof fn law_probable(path: Seq<char>)
    ensures
        path::extension_of(path) is None ==> !probable(path),
        path::extension_of(path) matches Some(ext) ==> (probable(path) <==> ({
            let name = ascii_lower_text(ext);
            name == "mp4"@
                || name == "mkv"@
                || name == "webm"@
                || name == "mov"@
                || name == "avi"@
                || name == "png"@
                || name == "jpg"@
                || name == "jpeg"@
                || name == "webp"@
                || name == "gif"@
                || name == "bmp"@
                || name == "tiff"@
                || name == "tif"@
                || name == "avif"@
        })),
{
    if let Some(ext) = path::extension_of(path) {
        let name = ascii_lower_text(ext);
        assert(PROBABLE_EXTS@[0]@ == "mp4"@);
        assert(PROBABLE_EXTS@[1]@ == "mkv"@);
        assert(PROBABLE_EXTS@[2]@ == "webm"@);
        assert(PROBABLE_EXTS@[3]@ == "mov"@);
        assert(PROBABLE_EXTS@[4]@ == "avi"@);
        assert(PROBABLE_EXTS@[5]@ == "png"@);
        assert(PROBABLE_EXTS@[6]@ == "jpg"@);
        assert(PROBABLE_EXTS@[7]@ == "jpeg"@);
        assert(PROBABLE_EXTS@[8]@ == "webp"@);
        assert(PROBABLE_EXTS@[9]@ == "gif"@);
        assert(PROBABLE_EXTS@[10]@ == "bmp"@);
        assert(PROBABLE_EXTS@[11]@ == "tiff"@);
        assert(PROBABLE_EXTS@[12]@ == "tif"@);
        assert(PROBABLE_EXTS@[13]@ == "avif"@);
    }
}

/// A text in lower case has the lower case of each of its characters.
pub proof fn law_lower_case(s: Seq<char>, i: int)
    requires
        0 <= i < s.len(),
    ensures
        ascii_lower_text(s).len() == s.len(),
        ascii_lower_text(s)[i] == text::ascii_lower(s[i]),
{
}

/// An item's path is its root and its own path with one slash between them,
/// however many stand there; without a path of its own it is the root.
pub proof fn law_path_of_an_item(root: Seq<char>, rel: Seq<char>)
    ensures
        item_path(root.push('/'), rel) == item_path(root, rel),
        item_path(root, seq!['/'] + rel) == item_path(root, rel),
        (root.len() == 0 || root.last() != '/') && rel.len() > 0 && rel[0] != '/' ==> item_path(
            root,
            rel,
        ) == root + "/"@ + rel,
        (root.len() == 0 || root.last() != '/') && rel.len() == 0 ==> item_path(root, rel) == root,
{
    assert(root.push('/').drop_last() =~= root);
    assert((seq!['/'] + rel).skip(1) =~= rel);
}

/// A probe gains dimensions with a width or a height, and a format with one
/// that is not empty.
pub proof fn law_findings(finding: ProbeFinding)
    ensures
        finding.has_dimensions() <==> finding.width is Some || finding.height is Some,
        finding.has_format() <==> (finding.format matches Some(format) && format@.len() > 0),
{
}

/// A pass wakes every five minutes, leaves an item alone for six hours, and
/// takes a batch at a time.
pub proof fn law_limits()
    ensures
        PROBE_TICK_SECS == 5 * 60,
        PROBE_COOLDOWN_MS == 6 * 60 * 60 * 1000,
        PROBE_BATCH == 64,
        PROBE_REFRESH_BATCH == 256,
        ProbeStats::zero().candidates == 0,
        ProbeStats::zero().skipped_extension == 0,
        ProbeStats::zero().probed == 0,
        ProbeStats::zero().gained_dimensions == 0,
        ProbeStats::zero().gained_format == 0,
        ProbeStats::zero().write_errors == 0,
        ProbeStats::zero().elapsed_ms == 0,
{
}

} // verus!
