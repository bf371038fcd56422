//! What the screens show: the text of each line and the signal tone it is
//! drawn in. Drawing it onto a terminal is left to the binary.
use vstd::prelude::*;

use crate::app::App;
use crate::cert::{expired_at, CertNode, NANOS_PER_DAY};
use crate::chain::{
    fully_valid, hop_views, status_reason, ChainAnalysis, ChainHop, ChainHopView, HopStatus,
    HopStatusView, NodeKind,
};
use crate::hsts::Hsts;
use crate::text::{
    append_repeated, append_str, chars_of, contains_seq, contains_chars, decimal_digits, owned,
    is_control, push_char, push_decimal, repeat_seq, sanitize, sanitized, str_eq,
};
use crate::tls::ChainInfo;

verus! {

/// How many days before expiry the leaf's expiry line turns to a warning.
pub const URGENT_EXPIRY_DAYS: i64 = 14;

/// The signal tones of the palette. Green, yellow and red (`Good`,
/// `Warning`, `Bad`) never mean anything but validity.
#[derive(Debug, Clone, Copy, PartialEq, Eq, Structural)]
pub enum Tone {
    /// The app chrome and anything interactive (cyan).
    Accent,
    /// Inactive chrome and hints (dark gray).
    Muted,
    /// Secondary text (gray).
    Secondary,
    /// Primary text (white).
    Primary,
    /// Valid (green).
    Good,
    /// Urgent or weak (yellow).
    Warning,
    /// Invalid, failed or expired (red).
    Bad,
}

/// An open overlay dims the surface beneath it.
pub fn overlay_open(app: &App) -> (r: bool)
    ensures
        r == (app.show_help || app.show_detail),
{
    app.show_help || app.show_detail
}

/// The overlay drawn over the current screen, if any: help takes
/// precedence over the node detail pane.
#[derive(Debug, Clone, Copy, PartialEq, Eq, Structural)]
pub enum Overlay {
    Nothing,
    Help,
    Detail,
}

pub fn overlay(app: &App) -> (r: Overlay)
    ensures
        r == (if app.show_help {
            Overlay::Help
        } else if app.show_detail {
            Overlay::Detail
        } else {
            Overlay::Nothing
        }),
{
    if app.show_help {
        Overlay::Help
    } else if app.show_detail {
        Overlay::Detail
    } else {
        Overlay::Nothing
    }
}

/// The chrome tone for a pane's border: the normal accent, or a
/// lower-emphasis one while an overlay dims this surface.
pub fn chrome_tone(dimmed: bool) -> (r: Tone)
    ensures
        r == (if dimmed {
            Tone::Muted
        } else {
            Tone::Accent
        }),
{
    if dimmed {
        Tone::Muted
    } else {
        Tone::Accent
    }
}

/// The border tone of the error pane.
pub fn error_border_tone(dimmed: bool) -> (r: Tone)
    ensures
        r == (if dimmed {
            Tone::Muted
        } else {
            Tone::Bad
        }),
{
    if dimmed {
        Tone::Muted
    } else {
        Tone::Bad
    }
}

pub open spec fn status_glyph(s: HopStatusView) -> char {
    match s {
        HopStatusView::Valid => '✔',
        HopStatusView::UnverifiedIssuer(_) => '▲',
        _ => '✘',
    }
}

pub open spec fn status_tone(s: HopStatusView) -> Tone {
    match s {
        HopStatusView::Valid => Tone::Good,
        HopStatusView::UnverifiedIssuer(_) => Tone::Warning,
        _ => Tone::Bad,
    }
}

/// The glyph a hop is prefixed with and the tone it is drawn in.
pub fn status_glyph_and_tone(status: &HopStatus) -> (r: (char, Tone))
    ensures
        r == (status_glyph(status@), status_tone(status@)),
{
    match status {
        HopStatus::Valid => ('✔', Tone::Good),
        HopStatus::Expired | HopStatus::NotYetValid | HopStatus::SignatureMismatch(_) => (
            '✘',
            Tone::Bad,
        ),
        HopStatus::UnverifiedIssuer(_) => ('▲', Tone::Warning),
    }
}

pub open spec fn kind_text(kind: NodeKind) -> Seq<char> {
    match kind {
        NodeKind::Leaf => "leaf"@,
        NodeKind::Intermediate => "intermediate"@,
        NodeKind::Root => "root"@,
    }
}

pub fn kind_label(kind: NodeKind) -> (r: &'static str)
    ensures
        r@ == kind_text(kind),
{
    match kind {
        NodeKind::Leaf => "leaf",
        NodeKind::Intermediate => "intermediate",
        NodeKind::Root => "root",
    }
}

/// The tree line of hop number `index` before it is made safe for the
/// screen: indented two columns per depth, with a branch, its glyph,
/// subject, kind and issuer, and its reason when it has one.
pub open spec fn tree_source(hop: ChainHopView, index: nat) -> Seq<char> {
    let branch = if index == 0 {
        ""@
    } else {
        "└─ "@
    };
    let base = repeat_seq("  "@, index) + branch + seq![status_glyph(hop.status)] + " "@
        + hop.node.subject + " ("@ + kind_text(hop.kind) + ") issuer: "@ + hop.node.issuer;
    match status_reason(hop.status) {
        Some(r) => base + " — "@ + r,
        None => base,
    }
}

/// The tree line as drawn: the certificate's subject and issuer come from
/// whatever server was asked, so every control character in the line is
/// replaced and none reaches the terminal.
pub open spec fn tree_text(hop: ChainHopView, index: nat) -> Seq<char> {
    sanitized(tree_source(hop, index))
}

pub fn tree_line(hop: &ChainHop, index: usize) -> (r: String)
    ensures
        r@ == tree_text(hop@, index as nat),
        forall|i: int| 0 <= i < r@.len() ==> !is_control(#[trigger] r@[i]),
{
    let mut line = String::new();
    append_repeated(&mut line, "  ", index);
    if index != 0 {
        append_str(&mut line, "└─ ");
    }
    proof {
        reveal_strlit("");
        assert(index == 0 ==> line@ =~= repeat_seq("  "@, index as nat) + ""@);
    }
    let (glyph, _) = status_glyph_and_tone(&hop.status);
    push_char(&mut line, glyph);
    append_str(&mut line, " ");
    append_str(&mut line, hop.node.subject.as_str());
    append_str(&mut line, " (");
    append_str(&mut line, kind_label(hop.kind));
    append_str(&mut line, ") issuer: ");
    append_str(&mut line, hop.node.issuer.as_str());
    if let Some(reason) = hop.status.reason() {
        append_str(&mut line, " — ");
        append_str(&mut line, reason);
    }
    sanitize(line.as_str())
}

/// One revealed row of the chain tree.
pub struct TreeRow {
    pub text: String,
    pub tone: Tone,
    pub selected: bool,
}

/// The revealed part of the chain tree, and whether more hops are still to
/// be revealed.
pub struct TreeRows {
    pub rows: Vec<TreeRow>,
    pub pending: bool,
}

pub open spec fn min(a: int, b: int) -> int {
    if a <= b {
        a
    } else {
        b
    }
}

/// The rows of the first `revealed` hops, the one at `selected` marked.
pub fn tree_rows(analysis: &ChainAnalysis, revealed: usize, selected: usize) -> (r: TreeRows)
    ensures
        r.rows@.len() == min(revealed as int, analysis.hops@.len() as int),
        forall|i: int|
            0 <= i < r.rows@.len() ==> {
                &&& (#[trigger] r.rows@[i]).text@ == tree_text(analysis@.hops[i], i as nat)
                &&& r.rows@[i].tone == status_tone(analysis@.hops[i].status)
                &&& r.rows@[i].selected == (i == selected)
            },
        r.pending == (revealed < analysis.hops@.len()),
{
    let n = analysis.hops.len();
    let count = if revealed < n {
        revealed
    } else {
        n
    };
    let mut rows: Vec<TreeRow> = Vec::new();
    let mut i: usize = 0;
    while i < count
        invariant
            0 <= i <= count <= n == analysis.hops@.len(),
            count == min(revealed as int, n as int),
            rows@.len() == i,
            forall|j: int|
                0 <= j < i ==> {
                    &&& (#[trigger] rows@[j]).text@ == tree_text(analysis@.hops[j], j as nat)
                    &&& rows@[j].tone == status_tone(analysis@.hops[j].status)
                    &&& rows@[j].selected == (j == selected)
                },
        decreases count - i,
    {
        let hop = &analysis.hops[i];
        assert(analysis@.hops[i as int] == hop@);
        let (_, tone) = status_glyph_and_tone(&hop.status);
        rows.push(TreeRow { text: tree_line(hop, i), tone, selected: i == selected });
        i += 1;
    }
    TreeRows { rows, pending: revealed < n }
}

/// The hop the detail pane shows: none when the selection lies past the
/// end of the chain.
pub fn selected_hop(analysis: &ChainAnalysis, selected: usize) -> (r: Option<&ChainHop>)
    ensures
        match r {
            Some(h) => selected < analysis.hops@.len() && h == analysis.hops@[selected as int],
            None => selected >= analysis.hops@.len(),
        },
{
    if selected < analysis.hops.len() {
        Some(&analysis.hops[selected])
    } else {
        None
    }
}

/// The verdict line is green for a fully valid chain, red otherwise.
pub fn verdict_tone(analysis: &ChainAnalysis) -> (r: Tone)
    ensures
        r == (if fully_valid(analysis@) {
            Tone::Good
        } else {
            Tone::Bad
        }),
{
    if analysis.is_fully_valid() {
        Tone::Good
    } else {
        Tone::Bad
    }
}

/// TLS 1.0 and 1.1 are deprecated.
pub open spec fn weak_protocol(p: Seq<char>) -> bool {
    p == "TLS 1.0"@ || p == "TLS 1.1"@
}

pub fn is_weak_protocol(protocol_version: &str) -> (r: bool)
    ensures
        r == weak_protocol(protocol_version@),
{
    str_eq(protocol_version, "TLS 1.0") || str_eq(protocol_version, "TLS 1.1")
}

/// A cipher suite with a legacy marker (CBC with SHA-1, RC4, 3DES, NULL or
/// EXPORT) and no SHA-256/SHA-384 hash.
pub open spec fn weak_cipher(c: Seq<char>) -> bool {
    &&& (contains_seq(c, "CBC_SHA"@) || contains_seq(c, "RC4"@) || contains_seq(c, "3DES"@)
        || contains_seq(c, "NULL"@) || contains_seq(c, "EXPORT"@))
    &&& !contains_seq(c, "SHA256"@)
    &&& !contains_seq(c, "SHA384"@)
}

/// A cipher suite is weak exactly when its name carries one of the legacy
/// markers and names neither SHA-256 nor SHA-384: a suite hashed with
/// SHA-256 or SHA-384 is never weak, a suite without a marker is never
/// weak, and a marked suite without those hashes always is.
pub proof fn law_weak_cipher_markers(c: Seq<char>)
    ensures
        contains_seq(c, "SHA256"@) ==> !weak_cipher(c),
        contains_seq(c, "SHA384"@) ==> !weak_cipher(c),
        !contains_seq(c, "CBC_SHA"@) && !contains_seq(c, "RC4"@) && !contains_seq(c, "3DES"@)
            && !contains_seq(c, "NULL"@) && !contains_seq(c, "EXPORT"@) ==> !weak_cipher(c),
        (contains_seq(c, "CBC_SHA"@) || contains_seq(c, "RC4"@) || contains_seq(c, "3DES"@)
            || contains_seq(c, "NULL"@) || contains_seq(c, "EXPORT"@)) && !contains_seq(
            c,
            "SHA256"@,
        ) && !contains_seq(c, "SHA384"@) ==> weak_cipher(c),
{
}

pub fn is_weak_cipher(cipher_suite: &str) -> (r: bool)
    ensures
        r == weak_cipher(cipher_suite@),
{
    let cs = chars_of(cipher_suite);
    let marked = contains_chars(&cs, &chars_of("CBC_SHA")) || contains_chars(&cs, &chars_of("RC4"))
        || contains_chars(&cs, &chars_of("3DES")) || contains_chars(&cs, &chars_of("NULL"))
        || contains_chars(&cs, &chars_of("EXPORT"));
    marked && !contains_chars(&cs, &chars_of("SHA256")) && !contains_chars(
        &cs,
        &chars_of("SHA384"),
    )
}

/// The connection panel warns when the protocol or the cipher is weak.
pub fn connection_is_weak(info: &ChainInfo) -> (r: bool)
    ensures
        r == (weak_protocol(info.protocol_version@) || weak_cipher(info.cipher_suite@)),
{
    is_weak_protocol(info.protocol_version.as_str()) || is_weak_cipher(info.cipher_suite.as_str())
}

/// The text and tone of the HSTS line's value.
pub open spec fn hsts_value(h: Hsts) -> (Seq<char>, Tone) {
    match h {
        Hsts::MaxAge(age) => ("max-age="@ + decimal_digits(age as nat), Tone::Good),
        Hsts::NotSet => ("not set"@, Tone::Muted),
    }
}

pub fn hsts_line(hsts: Hsts) -> (r: (String, Tone))
    ensures
        r.0@ == hsts_value(hsts).0,
        r.1 == hsts_value(hsts).1,
{
    match hsts {
        Hsts::MaxAge(age) => {
            let mut s = owned("max-age=");
            push_decimal(&mut s, age);
            (s, Tone::Good)
        },
        Hsts::NotSet => (owned("not set"), Tone::Muted),
    }
}

/// The calendar date (`YYYY-MM-DD`, UTC) of an instant given in Unix
/// nanoseconds, as the `time` crate displays it; `None` outside the range
/// of dates it represents.
pub uninterp spec fn utc_date_text(nanos: i128) -> Option<Seq<char>>;

/// `OffsetDateTime::from_unix_timestamp_nanos`, then `date()` and its
/// `Display`.
#[verifier::external_body]
pub(crate) fn utc_date(nanos: i128) -> (r: Option<String>)
    ensures
        match r {
            Some(s) => utc_date_text(nanos) == Some(s@),
            None => utc_date_text(nanos) is None,
        },
{
    time::OffsetDateTime::from_unix_timestamp_nanos(nanos).ok().map(|t| t.date().to_string())
}

/// The tone of the leaf's expiry line: red once expired, yellow inside the
/// final days, white otherwise.
pub open spec fn expiry_tone(not_after: i128, now: int) -> Tone {
    if expired_at(Some(not_after), now) {
        Tone::Bad
    } else if not_after <= now + URGENT_EXPIRY_DAYS * NANOS_PER_DAY {
        Tone::Warning
    } else {
        Tone::Primary
    }
}

/// The leaf's expiry line at `now`: `expires <date>` in the expiry tone,
/// or a muted `n/a` for a trust-store root. `None` when the date cannot be
/// written.
pub open spec fn expiry_value(not_after: Option<i128>, now: int) -> Option<(Seq<char>, Tone)> {
    match not_after {
        Some(t) => match utc_date_text(t) {
            Some(d) => Some(("expires "@ + d, expiry_tone(t, now))),
            None => None,
        },
        None => Some(("n/a (trust store)"@, Tone::Muted)),
    }
}

pub fn expiry_line(node: &CertNode, now: i128) -> (r: Option<(String, Tone)>)
    ensures
        match r {
            Some((s, t)) => expiry_value(node.not_after, now as int) == Some((s@, t)),
            None => expiry_value(node.not_after, now as int) is None,
        },
{
    match node.not_after {
        Some(not_after) => {
            let date = match utc_date(not_after) {
                Some(d) => d,
                None => return None,
            };
            let mut text = owned("expires ");
            append_str(&mut text, date.as_str());
            let tone = if node.is_expired(now) {
                Tone::Bad
            } else if node.expires_within(now, URGENT_EXPIRY_DAYS) {
                Tone::Warning
            } else {
                Tone::Primary
            };
            Some((text, tone))
        },
        None => Some((owned("n/a (trust store)"), Tone::Muted)),
    }
}

pub open spec fn opt_str_view(o: Option<&str>) -> Option<Seq<char>> {
    match o {
        Some(s) => Some(s@),
        None => None,
    }
}

/// The title of the error pane.
pub open spec fn error_title_text(domain: Option<Seq<char>>) -> Seq<char> {
    match domain {
        Some(d) => " Porthole — "@ + d + " "@,
        None => " Porthole "@,
    }
}

pub fn error_title(domain: Option<&str>) -> (r: String)
    ensures
        r@ == error_title_text(opt_str_view(domain)),
{
    match domain {
        Some(d) => {
            let mut t = owned(" Porthole — ");
            append_str(&mut t, d);
            append_str(&mut t, " ");
            t
        },
        None => owned(" Porthole "),
    }
}

/// The title of the chain-tree pane: the domain, padded.
pub open spec fn tree_title_text(domain: Option<Seq<char>>) -> Seq<char> {
    match domain {
        Some(d) => " "@ + d + " "@,
        None => " "@ + " "@,
    }
}

pub fn tree_title(domain: Option<&str>) -> (r: String)
    ensures
        r@ == tree_title_text(opt_str_view(domain)),
{
    let mut t = owned(" ");
    match domain {
        Some(d) => append_str(&mut t, d),
        None => {},
    }
    append_str(&mut t, " ");
    proof {
        if domain is None {
            assert(t@ =~= " "@ + " "@);
        }
    }
    t
}

} // verus!
