//! Keeping credentials out of messages.
use vstd::prelude::*;
use crate::plugin::i18n::{LocalizedMessage, LocalizedText, LocalizedView, MessageView};
use crate::text;
use crate::text::{chars_of, lemma_views_push, text_of, views, white};

verus! {

// ---------------------------------------------------------------------------
// Finding a marker

/// `part` stands in `text` from place `i` on.
pub open spec fn occurs_at(text: Seq<char>, part: Seq<char>, i: int) -> bool {
    0 <= i && i + part.len() <= text.len() && text.subrange(i, i + part.len()) == part
}

/// The first place from `i` on where `part` stands.
pub open spec fn found_from(text: Seq<char>, part: Seq<char>, i: int) -> Option<int>
    decreases text.len() + 1 - i,
{
    if i + part.len() > text.len() {
        None
    } else if occurs_at(text, part, i) {
        Some(i)
    } else {
        found_from(text, part, i + 1)
    }
}

pub proof fn lemma_found(text: Seq<char>, part: Seq<char>, i: int)
    requires
        0 <= i,
    ensures
        match found_from(text, part, i) {
            Some(p) => i <= p && occurs_at(text, part, p) && forall|j: int|
                i <= j < p ==> !occurs_at(text, part, j),
            None => forall|j: int| i <= j ==> !occurs_at(text, part, j),
        },
    decreases text.len() + 1 - i,
{
    if i + part.len() <= text.len() && !occurs_at(text, part, i) {
        lemma_found(text, part, i + 1);
    }
}

/// Whether `part` stands at place `i`.
fn stands_at(chars: &Vec<char>, part: &Vec<char>, i: usize) -> (r: bool)
    requires
        i + part@.len() <= chars@.len(),
    ensures
        r == occurs_at(chars@, part@, i as int),
{
    let n: usize = chars.len();
    let mut j: usize = 0;
    while j < part.len()
        invariant
            i + part@.len() <= chars@.len(),
            n == chars@.len(),
            j <= part@.len(),
            forall|k: int| 0 <= k < j ==> chars@[i + k] == part@[k],
        decreases part@.len() - j,
    {
        if chars[i + j] != part[j] {
            proof {
                if occurs_at(chars@, part@, i as int) {
                    assert(chars@.subrange(i as int, i + part@.len())[j as int] == part@[j as int]);
                }
            }
            return false;
        }
        j = j + 1;
    }
    assert(chars@.subrange(i as int, i + part@.len()) =~= part@);
    true
}

fn find(chars: &Vec<char>, part: &Vec<char>, from: usize) -> (r: Option<usize>)
    requires
        from <= chars@.len(),
    ensures
        match r {
            Some(i) => found_from(chars@, part@, from as int) == Some(i as int),
            None => found_from(chars@, part@, from as int) is None,
        },
{
    let mut i: usize = from;
    while i <= chars.len() && part.len() <= chars.len() - i
        invariant
            from <= i <= chars@.len() + 1,
            found_from(chars@, part@, from as int) == found_from(chars@, part@, i as int),
        decreases chars@.len() + 1 - i,
    {
        if stands_at(chars, part, i) {
            return Some(i);
        }
        if i == chars.len() {
            assert(found_from(chars@, part@, i + 1) is None);
            return None;
        }
        i = i + 1;
    }
    None
}

// ---------------------------------------------------------------------------
// Masking what follows a marker

/// How far a secret reaches.
#[derive(Clone, Copy, Debug, PartialEq, Eq, Structural)]
pub enum SecretKind {
    /// To the end of the line.
    Header,
    /// To the next separator.
    Token,
}

impl SecretKind {
    pub open spec fn ends(self, c: char) -> bool {
        match self {
            SecretKind::Header => c == '\r' || c == '\n',
            SecretKind::Token => text::is_white(c) || c == '&' || c == ',' || c == '}' || c == ']'
                || c == '"' || c == '\'',
        }
    }

    /// What stands in the place of the secret.
    pub open spec fn mask(self) -> Seq<char> {
        match self {
            SecretKind::Header => " [REDACTED]"@,
            SecretKind::Token => "[REDACTED]"@,
        }
    }

    fn stops(self, c: char) -> (r: bool)
        ensures
            r == self.ends(c),
    {
        match self {
            SecretKind::Header => c == '\r' || c == '\n',
            SecretKind::Token => white(c) || c == '&' || c == ',' || c == '}' || c == ']' || c
                == '"' || c == '\'',
        }
    }

    fn cover(self) -> (r: &'static str)
        ensures
            r@ == self.mask(),
    {
        match self {
            SecretKind::Header => " [REDACTED]",
            SecretKind::Token => "[REDACTED]",
        }
    }
}

/// Where the secret that begins at `i` ends.
pub open spec fn secret_end(text: Seq<char>, kind: SecretKind, i: int) -> int
    decreases text.len() - i,
{
    if i >= text.len() || kind.ends(text[i]) {
        i
    } else {
        secret_end(text, kind, i + 1)
    }
}

pub proof fn lemma_secret_end(text: Seq<char>, kind: SecretKind, i: int)
    requires
        0 <= i <= text.len(),
    ensures
        i <= secret_end(text, kind, i) <= text.len(),
    decreases text.len() - i,
{
    if i < text.len() && !kind.ends(text[i]) {
        lemma_secret_end(text, kind, i + 1);
    }
}

/// The text from `from` on, with everything that follows the marker masked.
pub open spec fn masked_from(
    text: Seq<char>,
    marker: Seq<char>,
    kind: SecretKind,
    from: int,
) -> Seq<char>
    decreases text.len() - from,
    when 0 <= from <= text.len() && marker.len() > 0
{
    proof {
        lemma_found(text, marker, from);
        if let Some(p) = found_from(text, marker, from) {
            lemma_secret_end(text, kind, p + marker.len());
        }
    }
    match found_from(text, marker, from) {
        None => text.skip(from),
        Some(p) => text.subrange(from, p + marker.len()) + kind.mask() + masked_from(
            text,
            marker,
            kind,
            secret_end(text, kind, p + marker.len()),
        ),
    }
}

pub open spec fn masked(text: Seq<char>, marker: Seq<char>, kind: SecretKind) -> Seq<char> {
    masked_from(text, marker, kind, 0)
}

fn push_chars(out: &mut Vec<char>, chars: &Vec<char>, from: usize, to: usize)
    requires
        from <= to <= chars@.len(),
    ensures
        final(out)@ == old(out)@ + chars@.subrange(from as int, to as int),
{
    let ghost before = out@;
    let mut i: usize = from;
    while i < to
        invariant
            from <= i <= to <= chars@.len(),
            out@ == before + chars@.subrange(from as int, i as int),
        decreases to - i,
    {
        out.push(chars[i]);
        i = i + 1;
        assert(out@ =~= before + chars@.subrange(from as int, i as int));
    }
}

/// Masks every secret behind one marker.
fn mask_marker(chars: &Vec<char>, marker: &str, kind: SecretKind) -> (out: Vec<char>)
    requires
        marker@.len() > 0,
    ensures
        out@ == masked(chars@, marker@, kind),
{
    let part = chars_of(marker);
    let cover = chars_of(kind.cover());
    let n: usize = chars.len();
    let mut out: Vec<char> = Vec::new();
    let mut from: usize = 0;
    assert(out@ + masked(chars@, marker@, kind) =~= masked(chars@, marker@, kind));
    loop
        invariant
            from <= chars@.len(),
            n == chars@.len(),
            part@ == marker@,
            marker@.len() > 0,
            cover@ == kind.mask(),
            masked(chars@, marker@, kind) == out@ + masked_from(
                chars@,
                marker@,
                kind,
                from as int,
            ),
        decreases chars@.len() - from,
    {
        proof {
            lemma_found(chars@, part@, from as int);
        }
        match find(chars, &part, from) {
            None => {
                push_chars(&mut out, chars, from, n);
                assert(chars@.subrange(from as int, chars@.len() as int) =~= chars@.skip(
                    from as int,
                ));
                return out;
            },
            Some(p) => {
                let ghost before = out@;
                let start: usize = p + part.len();
                let mut end: usize = start;
                while end < n && !kind.stops(chars[end])
                    invariant
                        start <= end <= n,
                        n == chars@.len(),
                        secret_end(chars@, kind, start as int) == secret_end(
                            chars@,
                            kind,
                            end as int,
                        ),
                    decreases chars@.len() - end,
                {
                    end = end + 1;
                }
                push_chars(&mut out, chars, from, start);
                push_chars(&mut out, &cover, 0, cover.len());
                proof {
                    assert(cover@.subrange(0, cover@.len() as int) =~= cover@);
                    let piece = chars@.subrange(from as int, start as int);
                    let rest = masked_from(chars@, marker@, kind, end as int);
                    assert(out@ =~= before + piece + cover@);
                    assert(masked_from(chars@, marker@, kind, from as int) == piece + cover@
                        + rest);
                    assert(before + (piece + cover@ + rest) =~= out@ + rest);
                }
                from = end;
            },
        }
    }
}

// ---------------------------------------------------------------------------
// The markers

pub const HEADER_MARKERS: [&'static str; 4] = [
    "Authorization:",
    "authorization:",
    "Cookie:",
    "cookie:",
];

pub const TOKEN_MARKERS: [&'static str; 8] = [
    "access_token=",
    "refresh_token=",
    "authorization=",
    "cookie=",
    "\"access_token\":\"",
    "\"access_token\": \"",
    "\"refresh_token\":\"",
    "\"refresh_token\": \"",
];

/// The number of markers.
pub open spec fn marker_count() -> int {
    12
}

/// The markers in the order in which they are looked for.
pub open spec fn marker(k: int) -> Seq<char> {
    if k < 4 {
        HEADER_MARKERS[k]@
    } else {
        TOKEN_MARKERS[k - 4]@
    }
}

pub open spec fn marker_kind(k: int) -> SecretKind {
    if k < 4 {
        SecretKind::Header
    } else {
        SecretKind::Token
    }
}

/// The text after the first `n` markers have been looked for.
pub open spec fn redacted_upto(text: Seq<char>, n: int) -> Seq<char>
    decreases n,
{
    if n <= 0 {
        text
    } else {
        masked(redacted_upto(text, n - 1), marker(n - 1), marker_kind(n - 1))
    }
}

/// The text without its secrets.
pub open spec fn redacted(text: Seq<char>) -> Seq<char> {
    redacted_upto(text, marker_count())
}

pub proof fn lemma_reveal_markers()
    ensures
        forall|k: int|
            0 <= k < marker_count() ==> (#[trigger] marker(k)).len() > 0 && (marker(k).last() == ':'
                || marker(k).last() == '=' || marker(k).last() == '"'),
        forall|k: int, i: int|
            0 <= k < marker_count() && 0 <= i < marker(k).len() ==> #[trigger] marker(k)[i] != ']',
{
    reveal_strlit("Authorization:");
    reveal_strlit("authorization:");
    reveal_strlit("Cookie:");
    reveal_strlit("cookie:");
    reveal_strlit("access_token=");
    reveal_strlit("refresh_token=");
    reveal_strlit("authorization=");
    reveal_strlit("cookie=");
    reveal_strlit("\"access_token\":\"");
    reveal_strlit("\"access_token\": \"");
    reveal_strlit("\"refresh_token\":\"");
    reveal_strlit("\"refresh_token\": \"");
}

/// Masks the credentials in a message.
pub fn redact_secrets(message: &str) -> (r: String)
    ensures
        r@ == redacted(message@),
{
    proof {
        lemma_reveal_markers();
    }
    let mut chars = chars_of(message);
    let mut k: usize = 0;
    while k < 4
        invariant
            k <= 4,
            forall|k: int| 0 <= k < marker_count() ==> (#[trigger] marker(k)).len() > 0,
            chars@ == redacted_upto(message@, k as int),
        decreases 4 - k,
    {
        assert(HEADER_MARKERS[k as int]@ == marker(k as int));
        chars = mask_marker(&chars, HEADER_MARKERS[k], SecretKind::Header);
        k = k + 1;
    }
    k = 0;
    while k < 8
        invariant
            k <= 8,
            forall|k: int| 0 <= k < marker_count() ==> (#[trigger] marker(k)).len() > 0,
            chars@ == redacted_upto(message@, k + 4),
        decreases 8 - k,
    {
        assert(TOKEN_MARKERS[k as int]@ == marker(k + 4));
        chars = mask_marker(&chars, TOKEN_MARKERS[k], SecretKind::Token);
        k = k + 1;
    }
    text_of(&chars)
}

/// Every place of the marker is followed by the mask.
pub open spec fn covered(text: Seq<char>, marker: Seq<char>, mask: Seq<char>, from: int) -> bool {
    forall|i: int|
        from <= i && #[trigger] occurs_at(text, marker, i) ==> occurs_at(
            text,
            mask,
            i + marker.len(),
        )
}

proof fn lemma_masks()
    ensures
        forall|kind: SecretKind|
            (#[trigger] kind.mask()).len() > 0 && kind.mask().last() == ']',
        forall|kind: SecretKind, i: int|
            0 <= i < kind.mask().len() ==> #[trigger] kind.mask()[i] != ':' && kind.mask()[i]
                != '=' && kind.mask()[i] != '"',
{
    reveal_strlit(" [REDACTED]");
    reveal_strlit("[REDACTED]");
}

/// No marker is the tail of another.
proof fn lemma_no_tails(j: int, k: int)
    requires
        0 <= j < marker_count(),
        0 <= k < marker_count(),
        j != k,
        marker(j).len() <= marker(k).len(),
    ensures
        marker(j) != marker(k).skip(marker(k).len() - marker(j).len()),
{
    reveal_strlit("Authorization:");
    reveal_strlit("authorization:");
    reveal_strlit("Cookie:");
    reveal_strlit("cookie:");
    reveal_strlit("access_token=");
    reveal_strlit("refresh_token=");
    reveal_strlit("authorization=");
    reveal_strlit("cookie=");
    reveal_strlit("\"access_token\":\"");
    reveal_strlit("\"access_token\": \"");
    reveal_strlit("\"refresh_token\":\"");
    reveal_strlit("\"refresh_token\": \"");
    let a = marker(j);
    let b = marker(k);
    let t = b.skip(b.len() - a.len());
    if a == t {
        assert(a[a.len() - 1] == b[b.len() - 1]);
        assert(a[a.len() - 2] == b[b.len() - 2]);
        assert(a[a.len() - 3] == b[b.len() - 3]);
        assert(a[a.len() - 7] == b[b.len() - 7]);
        if a.len() >= 8 {
            assert(a[a.len() - 8] == b[b.len() - 8]);
        }
        if a.len() >= 10 {
            assert(a[a.len() - 10] == b[b.len() - 10]);
        }
        if a.len() >= 11 {
            assert(a[a.len() - 11] == b[b.len() - 11]);
        }
        if a.len() >= 14 {
            assert(a[a.len() - 14] == b[b.len() - 14]);
        }
    }
}

/// A marker cannot stand in a text so that it reaches into a mask or begins in
/// one.
proof fn lemma_clear_of_mask(text: Seq<char>, k: int, i: int, mask_kind: SecretKind, at: int)
    requires
        0 <= k < marker_count(),
        occurs_at(text, marker(k), i),
        occurs_at(text, mask_kind.mask(), at),
    ensures
        i + marker(k).len() <= at || at + mask_kind.mask().len() <= i,
{
    lemma_reveal_markers();
    lemma_masks();
    let m = marker(k);
    let mask = mask_kind.mask();
    if at < i + m.len() && i < at + mask.len() {
        let last = i + m.len() - 1;
        if last < at + mask.len() {
            assert(text.subrange(i, i + m.len())[m.len() - 1] == text[last]);
            assert(text.subrange(at, at + mask.len())[last - at] == text[last]);
            assert(m.last() == mask[last - at]);
        } else {
            let end = at + mask.len() - 1;
            assert(text.subrange(at, at + mask.len())[mask.len() - 1] == text[end]);
            assert(text.subrange(i, i + m.len())[end - i] == text[end]);
            assert(m[end - i] == ']');
        }
    }
}

/// Looking for marker `k` covers all of its places, and uncovers no place of
/// another marker `j`.
proof fn lemma_pass_covers(text: Seq<char>, k: int, j: int, from: int)
    requires
        0 <= k < marker_count(),
        0 <= j < marker_count(),
        0 <= from <= text.len(),
        j != k ==> covered(text, marker(j), marker_kind(j).mask(), from),
    ensures
        covered(
            masked_from(text, marker(k), marker_kind(k), from),
            marker(j),
            marker_kind(j).mask(),
            0,
        ),
    decreases text.len() - from,
{
    lemma_reveal_markers();
    lemma_masks();
    let m = marker(k);
    let kind = marker_kind(k);
    let other = marker(j);
    let cover = marker_kind(j).mask();
    let out = masked_from(text, m, kind, from);
    lemma_found(text, m, from);
    match found_from(text, m, from) {
        None => {
            assert forall|i: int| 0 <= i && #[trigger] occurs_at(out, other, i) implies occurs_at(
                out,
                cover,
                i + other.len(),
            ) by {
                assert(text.subrange(from + i, from + i + other.len()) =~= out.subrange(
                    i,
                    i + other.len(),
                ));
                assert(occurs_at(text, other, from + i));
                let next = from + i + other.len();
                assert(occurs_at(text, cover, next));
                assert(text.subrange(next, next + cover.len()) =~= out.subrange(
                    i + other.len(),
                    i + other.len() + cover.len(),
                ));
            }
        },
        Some(p) => {
            let end = secret_end(text, kind, p + m.len());
            lemma_secret_end(text, kind, p + m.len());
            lemma_pass_covers(text, k, j, end);
            let piece = text.subrange(from, p + m.len());
            let mask = kind.mask();
            let rest = masked_from(text, m, kind, end);
            assert(out == piece + mask + rest);
            assert(out.subrange(piece.len() as int, (piece.len() + mask.len()) as int) =~= mask);
            assert(occurs_at(out, mask, piece.len() as int));
            assert forall|i: int| 0 <= i && #[trigger] occurs_at(out, other, i) implies occurs_at(
                out,
                cover,
                i + other.len(),
            ) by {
                lemma_clear_of_mask(out, j, i, kind, piece.len() as int);
                if i + other.len() <= piece.len() {
                    assert(text.subrange(from + i, from + i + other.len()) =~= out.subrange(
                        i,
                        i + other.len(),
                    ));
                    assert(occurs_at(text, other, from + i));
                    if j == k {
                        assert(from + i == p);
                        assert(i + other.len() == piece.len());
                    } else {
                        lemma_in_piece(text, k, j, from, p, i);
                        let next = from + i + other.len();
                        assert(text.subrange(next, next + cover.len()) =~= out.subrange(
                            i + other.len(),
                            i + other.len() + cover.len(),
                        ));
                    }
                } else {
                    let skipped = piece.len() + mask.len();
                    let r = i - skipped;
                    assert(rest.subrange(r, r + other.len()) =~= out.subrange(
                        i,
                        i + other.len(),
                    ));
                    assert(occurs_at(rest, other, r));
                    assert(occurs_at(rest, cover, r + other.len()));
                    assert(rest.subrange(r + other.len(), r + other.len() + cover.len())
                        =~= out.subrange(i + other.len(), i + other.len() + cover.len()));
                }
            }
        },
    }
}

/// The mask of a marker that stands before the end of another one ends before
/// it too.
proof fn lemma_in_piece(text: Seq<char>, k: int, j: int, from: int, p: int, i: int)
    requires
        0 <= k < marker_count(),
        0 <= j < marker_count(),
        j != k,
        0 <= from,
        0 <= i,
        occurs_at(text, marker(k), p),
        occurs_at(text, marker(j), from + i),
        from + i + marker(j).len() <= p + marker(k).len(),
        occurs_at(text, marker_kind(j).mask(), from + i + marker(j).len()),
    ensures
        from + i + marker(j).len() + marker_kind(j).mask().len() <= p + marker(k).len(),
{
    lemma_reveal_markers();
    lemma_masks();
    let m = marker(k);
    let other = marker(j);
    let next = from + i + other.len();
    lemma_clear_of_mask(text, k, p, marker_kind(j), next);
    if p + m.len() <= next {
        // Both end at the same place: one would be the tail of the other.
        if other.len() <= m.len() {
            lemma_no_tails(j, k);
            assert(m.skip(m.len() - other.len()) =~= other) by {
                assert forall|x: int| 0 <= x < other.len() implies m.skip(
                    m.len() - other.len(),
                )[x] == other[x] by {
                    assert(text.subrange(p, p + m.len())[m.len() - other.len() + x] == text[from + i
                        + x]);
                    assert(text.subrange(from + i, next)[x] == text[from + i + x]);
                }
            }
        } else {
            lemma_no_tails(k, j);
            assert(other.skip(other.len() - m.len()) =~= m) by {
                assert forall|x: int| 0 <= x < m.len() implies other.skip(other.len() - m.len())[x]
                    == m[x] by {
                    assert(text.subrange(from + i, next)[other.len() - m.len() + x] == text[p + x]);
                    assert(text.subrange(p, p + m.len())[x] == text[p + x]);
                }
            }
        }
    }
}

/// In a message without its secrets, every marker is followed by its mask.
pub proof fn law_secrets_are_masked(text: Seq<char>, k: int)
    requires
        0 <= k < marker_count(),
    ensures
        covered(redacted(text), marker(k), marker_kind(k).mask(), 0),
{
    lemma_covered_upto(text, marker_count(), k);
}

proof fn lemma_covered_upto(text: Seq<char>, n: int, k: int)
    requires
        0 <= k < n <= marker_count(),
    ensures
        covered(redacted_upto(text, n), marker(k), marker_kind(k).mask(), 0),
    decreases n,
{
    lemma_reveal_markers();
    if k < n - 1 {
        lemma_covered_upto(text, n - 1, k);
    }
    lemma_pass_covers(redacted_upto(text, n - 1), n - 1, k, 0);
}

// ---------------------------------------------------------------------------
// Texts for the user

pub open spec fn redacted_texts(texts: Seq<Seq<char>>) -> Seq<Seq<char>> {
    texts.map_values(|t: Seq<char>| redacted(t))
}

/// A text for the user without its secrets.
pub open spec fn redacted_localized(text: LocalizedView) -> LocalizedView {
    match text {
        LocalizedView::Raw(text) => LocalizedView::Raw(redacted(text)),
        LocalizedView::Message(message) => LocalizedView::Message(
            MessageView {
                plugin_id: message.plugin_id,
                msgid: redacted(message.msgid),
                arguments: redacted_texts(message.arguments),
            },
        ),
    }
}

fn redact_texts(texts: &Vec<String>) -> (out: Vec<String>)
    ensures
        views(out@) == redacted_texts(views(texts@)),
{
    let mut out: Vec<String> = Vec::new();
    let mut i: usize = 0;
    while i < texts.len()
        invariant
            i <= texts@.len(),
            views(out@) == redacted_texts(views(texts@).take(i as int)),
        decreases texts@.len() - i,
    {
        let text = redact_secrets(texts[i].as_str());
        proof {
            lemma_views_push(out@, text);
        }
        out.push(text);
        i = i + 1;
        assert(views(out@) =~= redacted_texts(views(texts@).take(i as int)));
    }
    assert(views(texts@).take(i as int) =~= views(texts@));
    out
}

pub fn redact_localized_text(value: &LocalizedText) -> (r: LocalizedText)
    ensures
        r@ == redacted_localized(value@),
{
    match value {
        LocalizedText::Raw(text) => LocalizedText::Raw(redact_secrets(text.as_str())),
        LocalizedText::Message(message) => LocalizedText::Message(
            LocalizedMessage {
                plugin_id: message.plugin_id.clone(),
                msgid: redact_secrets(message.msgid.as_str()),
                arguments: redact_texts(&message.arguments),
            },
        ),
    }
}

/// The marks behind which a secret stands: of headers, whose secret goes to the
/// end of the line, and of tokens, whose secret goes to the next separator.
pub proof fn law_marks_of_secrets()
    ensures
        marker_count() == 12,
        marker(0) == "Authorization:"@,
        marker(1) == "authorization:"@,
        marker(2) == "Cookie:"@,
        marker(3) == "cookie:"@,
        marker(4) == "access_token="@,
        marker(5) == "refresh_token="@,
        marker(6) == "authorization="@,
        marker(7) == "cookie="@,
        marker(8) == "\"access_token\":\""@,
        marker(9) == "\"access_token\": \""@,
        marker(10) == "\"refresh_token\":\""@,
        marker(11) == "\"refresh_token\": \""@,
        forall|k: int| 0 <= k < 4 ==> #[trigger] marker_kind(k) is Header,
        forall|k: int| 4 <= k < 12 ==> #[trigger] marker_kind(k) is Token,
{
}

/// A secret of a header ends with its line; one of a token at white space, a
/// quote, an ampersand, a comma or a closing bracket.
pub proof fn law_ends_of_secrets(c: char)
    ensures
        SecretKind::Header.ends(c) <==> c == '\r' || c == '\n',
        SecretKind::Token.ends(c) <==> text::is_white(c) || c == '&' || c == ',' || c == '}' || c
            == ']' || c == '"' || c == '\'',
        SecretKind::Header.mask() == " [REDACTED]"@,
        SecretKind::Token.mask() == "[REDACTED]"@,
{
}

/// In a text whose first mark stands at `p`, with a secret behind it that ends
/// at `end`, all up to the secret stays, the mask takes the secret's place, and
/// the rest is treated in the same way.
pub proof fn law_secret_is_replaced(
    text: Seq<char>,
    marker: Seq<char>,
    kind: SecretKind,
    from: int,
    p: int,
    end: int,
)
    requires
        marker.len() > 0,
        0 <= from <= p,
        occurs_at(text, marker, p),
        forall|j: int| from <= j < p ==> !occurs_at(text, marker, j),
        p + marker.len() <= end <= text.len(),
        forall|j: int| p + marker.len() <= j < end ==> !kind.ends(#[trigger] text[j]),
        end < text.len() ==> kind.ends(text[end]),
    ensures
        masked_from(text, marker, kind, from) == text.subrange(from, p + marker.len())
            + kind.mask() + masked_from(text, marker, kind, end),
{
    lemma_found(text, marker, from);
    lemma_end_found(text, kind, p + marker.len(), end);
}

proof fn lemma_end_found(text: Seq<char>, kind: SecretKind, i: int, end: int)
    requires
        0 <= i <= end <= text.len(),
        forall|j: int| i <= j < end ==> !kind.ends(#[trigger] text[j]),
        end < text.len() ==> kind.ends(text[end]),
    ensures
        secret_end(text, kind, i) == end,
    decreases end - i,
{
    if i < end {
        lemma_end_found(text, kind, i + 1, end);
    }
}

/// A text in which no mark stands is not changed.
pub proof fn law_text_without_marks_stays(text: Seq<char>)
    requires
        forall|k: int, i: int| 0 <= k < 12 ==> !#[trigger] occurs_at(text, marker(k), i),
    ensures
        redacted(text) == text,
{
    lemma_nothing_redacted(text, marker_count());
}

proof fn lemma_nothing_redacted(text: Seq<char>, n: int)
    requires
        0 <= n <= marker_count(),
        forall|k: int, i: int| 0 <= k < 12 ==> !#[trigger] occurs_at(text, marker(k), i),
    ensures
        redacted_upto(text, n) == text,
    decreases n,
{
    if n > 0 {
        lemma_nothing_redacted(text, n - 1);
        lemma_reveal_markers();
        lemma_found(text, marker(n - 1), 0);
        assert(text.skip(0) =~= text);
    }
}

/// The texts of a message are redacted one by one; the plugin it names is not.
pub proof fn law_redacted_messages(message: MessageView, text: Seq<char>, i: int)
    ensures
        redacted_localized(LocalizedView::Raw(text)) == LocalizedView::Raw(redacted(text)),
        redacted_localized(LocalizedView::Message(message)) matches LocalizedView::Message(out) && {
            &&& out.plugin_id == message.plugin_id
            &&& out.msgid == redacted(message.msgid)
            &&& out.arguments.len() == message.arguments.len()
            &&& 0 <= i < message.arguments.len() ==> out.arguments[i] == redacted(
                message.arguments[i],
            )
        },
{
}

} // verus!
