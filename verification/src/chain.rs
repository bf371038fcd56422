//! Hop-by-hop validation of a presented certificate chain, and the
//! resolution of its terminal hop against a trust store.
use vstd::prelude::*;

use crate::cert::{expired_at, not_yet_valid_at, CertNode, CertNodeView};
use crate::der::{der_contents, der_sequence, der_value, wrap_der_sequence};
use crate::text::{append_str, bytes_eq, owned, str_eq};
use crate::x509::{
    opt_bytes, webpki_anchor, webpki_trust_anchor, x509_common_name,
    x509_issuer_common_name, x509_issuer_raw, x509_issuer_string, x509_key_algorithm,
    x509_key_der, x509_name_der, x509_name_text, x509_not_after, x509_not_before,
    x509_parse_error, x509_parse_failure, x509_parses, x509_public_key_algorithm,
    x509_public_key_der, x509_serial, x509_serial_text, x509_signature_check,
    x509_subject_common_name, x509_subject_raw, x509_subject_string, x509_validity_nanos,
    x509_verify_signature, NameField, ValidityBound,
};

verus! {

/// The outcome of validating a single chain hop.
#[derive(Debug, Clone, PartialEq)]
pub enum HopStatus {
    Valid,
    Expired,
    NotYetValid,
    SignatureMismatch(String),
    /// Dates check out, but there's no certificate or trust anchor
    /// available to verify the signature against (a private/enterprise CA
    /// not present in the compiled-in Mozilla trust store, for example).
    UnverifiedIssuer(String),
}

pub enum HopStatusView {
    Valid,
    Expired,
    NotYetValid,
    SignatureMismatch(Seq<char>),
    UnverifiedIssuer(Seq<char>),
}

impl View for HopStatus {
    type V = HopStatusView;

    open spec fn view(&self) -> HopStatusView {
        match self {
            HopStatus::Valid => HopStatusView::Valid,
            HopStatus::Expired => HopStatusView::Expired,
            HopStatus::NotYetValid => HopStatusView::NotYetValid,
            HopStatus::SignatureMismatch(m) => HopStatusView::SignatureMismatch(m@),
            HopStatus::UnverifiedIssuer(m) => HopStatusView::UnverifiedIssuer(m@),
        }
    }
}

/// The human reason a status gives, `None` for a valid hop.
pub open spec fn status_reason(s: HopStatusView) -> Option<Seq<char>> {
    match s {
        HopStatusView::Valid => None,
        HopStatusView::Expired => Some("expired"@),
        HopStatusView::NotYetValid => Some("not yet valid"@),
        HopStatusView::SignatureMismatch(m) => Some(m),
        HopStatusView::UnverifiedIssuer(m) => Some(m),
    }
}

/// A status that breaks the chain outright (as opposed to a merely
/// unverifiable issuer).
pub open spec fn is_broken(s: HopStatusView) -> bool {
    s is Expired || s is NotYetValid || s is SignatureMismatch
}

impl HopStatus {
    pub fn is_valid(&self) -> (r: bool)
        ensures
            r == (self@ is Valid),
    {
        match self {
            HopStatus::Valid => true,
            _ => false,
        }
    }

    pub fn reason(&self) -> (r: Option<&str>)
        ensures
            match r {
                Some(s) => status_reason(self@) == Some(s@),
                None => status_reason(self@) is None,
            },
    {
        match self {
            HopStatus::Valid => None,
            HopStatus::Expired => Some("expired"),
            HopStatus::NotYetValid => Some("not yet valid"),
            HopStatus::SignatureMismatch(reason) => Some(reason.as_str()),
            HopStatus::UnverifiedIssuer(reason) => Some(reason.as_str()),
        }
    }
}

#[derive(Debug, Clone, Copy, PartialEq, Eq, Structural)]
pub enum NodeKind {
    Leaf,
    Intermediate,
    Root,
}

#[derive(Debug, Clone)]
pub struct ChainHop {
    pub kind: NodeKind,
    pub node: CertNode,
    pub status: HopStatus,
}

pub struct ChainHopView {
    pub kind: NodeKind,
    pub node: CertNodeView,
    pub status: HopStatusView,
}

impl View for ChainHop {
    type V = ChainHopView;

    open spec fn view(&self) -> ChainHopView {
        ChainHopView { kind: self.kind, node: self.node@, status: self.status@ }
    }
}

#[derive(Debug, Clone)]
pub struct ChainAnalysis {
    /// Leaf first, then each intermediate, then the root — if one was
    /// resolved either from the presented chain or the trust store.
    pub hops: Vec<ChainHop>,
    pub reaches_trusted_root: bool,
}

pub struct ChainAnalysisView {
    pub hops: Seq<ChainHopView>,
    pub reaches_trusted_root: bool,
}

pub open spec fn hop_views(hops: Seq<ChainHop>) -> Seq<ChainHopView> {
    hops.map_values(|h: ChainHop| h@)
}

impl View for ChainAnalysis {
    type V = ChainAnalysisView;

    open spec fn view(&self) -> ChainAnalysisView {
        ChainAnalysisView {
            hops: hop_views(self.hops@),
            reaches_trusted_root: self.reaches_trusted_root,
        }
    }
}

/// The chain reaches a trusted root and every hop is valid.
pub open spec fn fully_valid(a: ChainAnalysisView) -> bool {
    a.reaches_trusted_root && forall|i: int| 0 <= i < a.hops.len() ==> a.hops[i].status is Valid
}

/// Index of the first hop whose status breaks the chain, or the number of
/// hops when none does.
pub open spec fn first_broken(hops: Seq<ChainHopView>) -> int
    decreases hops.len(),
{
    if hops.len() == 0 {
        0
    } else if is_broken(hops[0].status) {
        0
    } else {
        1 + first_broken(hops.drop_first())
    }
}

/// The verdict line for an analysis.
pub open spec fn verdict_text(a: ChainAnalysisView) -> Seq<char> {
    if fully_valid(a) {
        "Chain: VALID"@
    } else {
        let i = first_broken(a.hops);
        if 0 <= i < a.hops.len() {
            "Chain: INVALID — "@ + a.hops[i].node.subject + " ("@ + match status_reason(
                a.hops[i].status,
            ) {
                Some(r) => r,
                None => "invalid"@,
            } + ")"@
        } else {
            "Chain: UNTRUSTED — no trusted root found"@
        }
    }
}

proof fn lemma_first_broken(hops: Seq<ChainHopView>)
    ensures
        0 <= first_broken(hops) <= hops.len(),
        forall|j: int| 0 <= j < first_broken(hops) ==> !is_broken(#[trigger] hops[j].status),
        first_broken(hops) < hops.len() ==> is_broken(hops[first_broken(hops)].status),
    decreases hops.len(),
{
    if hops.len() > 0 && !is_broken(hops[0].status) {
        lemma_first_broken(hops.drop_first());
        assert forall|j: int| 0 <= j < first_broken(hops) implies !is_broken(
            #[trigger] hops[j].status,
        ) by {
            if j > 0 {
                assert(hops[j] == hops.drop_first()[j - 1]);
            }
        }
    }
}

proof fn lemma_first_broken_unique(hops: Seq<ChainHopView>, i: int)
    requires
        0 <= i <= hops.len(),
        forall|j: int| 0 <= j < i ==> !is_broken(#[trigger] hops[j].status),
        i < hops.len() ==> is_broken(hops[i].status),
    ensures
        first_broken(hops) == i,
{
    lemma_first_broken(hops);
    if first_broken(hops) < i {
        assert(!is_broken(hops[first_broken(hops)].status));
    }
    if first_broken(hops) > i {
        assert(!is_broken(hops[i].status));
    }
}

impl ChainAnalysis {
    pub fn is_fully_valid(&self) -> (r: bool)
        ensures
            r == fully_valid(self@),
    {
        if !self.reaches_trusted_root {
            return false;
        }
        let mut i: usize = 0;
        while i < self.hops.len()
            invariant
                0 <= i <= self.hops@.len(),
                forall|j: int| 0 <= j < i ==> self.hops@[j].status@ is Valid,
            decreases self.hops@.len() - i,
        {
            if !self.hops[i].status.is_valid() {
                assert(self@.hops[i as int] == self.hops@[i as int]@);
                return false;
            }
            i += 1;
        }
        assert forall|j: int| 0 <= j < self@.hops.len() implies self@.hops[j].status is Valid by {
            assert(self@.hops[j] == self.hops@[j]@);
        }
        true
    }

    /// A short human verdict line for the overall chain.
    pub fn verdict(&self) -> (r: String)
        ensures
            r@ == verdict_text(self@),
    {
        if self.is_fully_valid() {
            return owned("Chain: VALID");
        }
        let mut i: usize = 0;
        while i < self.hops.len()
            invariant
                0 <= i <= self.hops@.len(),
                forall|j: int| 0 <= j < i ==> !is_broken(#[trigger] self@.hops[j].status),
            decreases self.hops@.len() - i,
        {
            let broken = match &self.hops[i].status {
                HopStatus::Expired | HopStatus::NotYetValid | HopStatus::SignatureMismatch(_) => true,
                _ => false,
            };
            assert(self@.hops[i as int] == self.hops@[i as int]@);
            if broken {
                proof {
                    lemma_first_broken_unique(self@.hops, i as int);
                }
                let hop = &self.hops[i];
                let mut line = owned("Chain: INVALID — ");
                append_str(&mut line, hop.node.subject.as_str());
                append_str(&mut line, " (");
                match hop.status.reason() {
                    Some(reason) => append_str(&mut line, reason),
                    None => append_str(&mut line, "invalid"),
                }
                append_str(&mut line, ")");
                return line;
            }
            i += 1;
        }
        proof {
            lemma_first_broken_unique(self@.hops, i as int);
        }
        owned("Chain: UNTRUSTED — no trusted root found")
    }
}

#[derive(Debug, PartialEq)]
pub enum ChainError {
    Empty,
    Parse(String),
}

pub enum ChainErrorView {
    Empty,
    Parse(Seq<char>),
}

impl View for ChainError {
    type V = ChainErrorView;

    open spec fn view(&self) -> ChainErrorView {
        match self {
            ChainError::Empty => ChainErrorView::Empty,
            ChainError::Parse(m) => ChainErrorView::Parse(m@),
        }
    }
}

pub open spec fn chain_error_text(e: ChainErrorView) -> Seq<char> {
    match e {
        ChainErrorView::Empty => "no certificates were presented"@,
        ChainErrorView::Parse(m) => "failed to parse presented certificate: "@ + m,
    }
}

impl ChainError {
    /// The message the error is displayed with.
    pub fn message(&self) -> (r: String)
        ensures
            r@ == chain_error_text(self@),
    {
        match self {
            ChainError::Empty => owned("no certificates were presented"),
            ChainError::Parse(m) => {
                let mut s = owned("failed to parse presented certificate: ");
                append_str(&mut s, m.as_str());
                s
            },
        }
    }
}

/// A trust anchor as the trust store keeps it: the contents (without the
/// outer SEQUENCE header) of its subject name and of its
/// SubjectPublicKeyInfo.
pub struct AnchorKey {
    pub subject: Vec<u8>,
    pub spki: Vec<u8>,
}

pub open spec fn anchor_views(anchors: Seq<AnchorKey>) -> Seq<(Seq<u8>, Seq<u8>)> {
    anchors.map_values(|a: AnchorKey| (a.subject@, a.spki@))
}

pub open spec fn der_views(chain: Seq<Vec<u8>>) -> Seq<Seq<u8>> {
    chain.map_values(|d: Vec<u8>| d@)
}

// ---------------------------------------------------------------------------
// The model of an analysis
// ---------------------------------------------------------------------------

/// The label a presented certificate gets from its position.
pub open spec fn kind_at(index: int, len: int) -> NodeKind {
    if index == 0 {
        NodeKind::Leaf
    } else if index + 1 == len {
        NodeKind::Root
    } else {
        NodeKind::Intermediate
    }
}

/// A name's first common name, or its full text when it has none.
pub open spec fn display_name(cn: Option<Seq<char>>, dn: Seq<char>) -> Seq<char> {
    match cn {
        Some(c) => c,
        None => dn,
    }
}

/// Friendly names for the common public key algorithms, the dotted OID
/// for any other.
pub open spec fn algorithm_name(oid: Seq<char>) -> Seq<char> {
    if oid == "1.2.840.113549.1.1.1"@ {
        "RSA"@
    } else if oid == "1.2.840.10045.2.1"@ {
        "EC (ECDSA)"@
    } else if oid == "1.3.101.112"@ {
        "Ed25519"@
    } else if oid == "1.2.840.10040.4.1"@ {
        "DSA"@
    } else {
        oid
    }
}

pub open spec fn name_of(der: Seq<u8>, field: NameField) -> Seq<char> {
    display_name(x509_common_name(der, field), x509_name_text(der, field))
}

/// The display node of a presented certificate.
pub open spec fn node_of(der: Seq<u8>) -> CertNodeView {
    CertNodeView {
        subject: name_of(der, NameField::Subject),
        subject_dn: x509_name_text(der, NameField::Subject),
        issuer: name_of(der, NameField::Issuer),
        issuer_dn: x509_name_text(der, NameField::Issuer),
        serial: x509_serial_text(der),
        pubkey_algorithm: algorithm_name(x509_key_algorithm(der)),
        not_before: Some(x509_validity_nanos(der, ValidityBound::NotBefore)),
        not_after: Some(x509_validity_nanos(der, ValidityBound::NotAfter)),
    }
}

/// The display node of a trust-store root, known only by the name that the
/// certificate it issued gives it.
pub open spec fn anchor_node_of(der: Seq<u8>) -> CertNodeView {
    CertNodeView {
        subject: name_of(der, NameField::Issuer),
        subject_dn: x509_name_text(der, NameField::Issuer),
        issuer: name_of(der, NameField::Issuer),
        issuer_dn: x509_name_text(der, NameField::Issuer),
        serial: "n/a (system trust store)"@,
        pubkey_algorithm: "n/a"@,
        not_before: None,
        not_after: None,
    }
}

/// The date verdict on a certificate at `now`: not yet valid, expired, or
/// `None` when `now` lies inside its window.
pub open spec fn date_status_of(der: Seq<u8>, now: int) -> Option<HopStatusView> {
    if now < x509_validity_nanos(der, ValidityBound::NotBefore) {
        Some(HopStatusView::NotYetValid)
    } else if now > x509_validity_nanos(der, ValidityBound::NotAfter) {
        Some(HopStatusView::Expired)
    } else {
        None
    }
}

/// The verdict on a certificate: its dates first, then its signature
/// checked with `signer` (its own key when `None`).
pub open spec fn hop_status_of(der: Seq<u8>, signer: Option<Seq<u8>>, now: int) -> HopStatusView {
    match date_status_of(der, now) {
        Some(s) => s,
        None => match x509_signature_check(der, signer) {
            Ok(()) => HopStatusView::Valid,
            Err(m) => HopStatusView::SignatureMismatch(m),
        },
    }
}

/// The hop of presented certificate `i` (not the last), checked against
/// the key of the certificate after it.
pub open spec fn front_hop(ders: Seq<Seq<u8>>, now: int, i: int) -> ChainHopView {
    ChainHopView {
        kind: kind_at(i, ders.len() as int),
        node: node_of(ders[i]),
        status: hop_status_of(ders[i], Some(x509_key_der(ders[i + 1])), now),
    }
}

/// Some trust anchor's key (its SubjectPublicKeyInfo, given full DER)
/// verifies the signature of `der`.
pub open spec fn anchor_verifies(anchors: Seq<(Seq<u8>, Seq<u8>)>, der: Seq<u8>) -> bool {
    exists|i: int|
        0 <= i < anchors.len() && #[trigger] x509_signature_check(
            der,
            Some(der_sequence(anchors[i].1)),
        ) == Ok::<(), Seq<char>>(())
}

/// Some trust anchor holds exactly the public key `key_der`.
pub open spec fn key_in_store(anchors: Seq<(Seq<u8>, Seq<u8>)>, key_der: Seq<u8>) -> bool {
    match der_contents(key_der) {
        Some(k) => exists|i: int| 0 <= i < anchors.len() && #[trigger] anchors[i].1 == k,
        None => false,
    }
}

pub open spec fn self_signed(der: Seq<u8>) -> bool {
    x509_name_der(der, NameField::Subject) == x509_name_der(der, NameField::Issuer)
}

/// The message of a terminal hop that no key of the trust store verifies.
pub open spec fn no_anchor_reason() -> Seq<char> {
    "issuer not found in trust store"@
}

/// The hops that the last presented certificate (of `n`) contributes, and
/// whether the chain reaches a trusted root through it.
pub open spec fn terminal_of(last: Seq<u8>, n: int, now: int, anchors: Seq<(Seq<u8>, Seq<u8>)>) -> (
    Seq<ChainHopView>,
    bool,
) {
    let own_kind = if n == 1 {
        NodeKind::Leaf
    } else {
        NodeKind::Intermediate
    };
    if self_signed(last) {
        let st = hop_status_of(last, None, now);
        (
            seq![ChainHopView { kind: NodeKind::Root, node: node_of(last), status: st }],
            st is Valid && key_in_store(anchors, x509_key_der(last)),
        )
    } else {
        if anchor_verifies(anchors, last) {
            let st = match date_status_of(last, now) {
                Some(s) => s,
                None => HopStatusView::Valid,
            };
            (
                seq![
                    ChainHopView { kind: own_kind, node: node_of(last), status: st },
                    ChainHopView {
                        kind: NodeKind::Root,
                        node: anchor_node_of(last),
                        status: HopStatusView::Valid,
                    },
                ],
                st is Valid,
            )
        } else {
            let st = match date_status_of(last, now) {
                Some(s) => s,
                None => HopStatusView::UnverifiedIssuer(no_anchor_reason()),
            };
            (seq![ChainHopView { kind: own_kind, node: node_of(last), status: st }], false)
        }
    }
}

/// The parse error of the first presented certificate that does not parse.
pub open spec fn first_parse_failure(ders: Seq<Seq<u8>>) -> Option<Seq<char>>
    decreases ders.len(),
{
    if ders.len() == 0 {
        None
    } else {
        match x509_parse_failure(ders[0]) {
            Some(m) => Some(m),
            None => first_parse_failure(ders.drop_first()),
        }
    }
}

/// What [`analyze_with_anchors`] answers for a presented chain (leaf first),
/// the instant `now` (Unix nanoseconds) and a trust store.
pub open spec fn analysis_of(ders: Seq<Seq<u8>>, now: int, anchors: Seq<(Seq<u8>, Seq<u8>)>) -> Result<
    ChainAnalysisView,
    ChainErrorView,
> {
    if ders.len() == 0 {
        Err(ChainErrorView::Empty)
    } else {
        match first_parse_failure(ders) {
            Some(m) => Err(ChainErrorView::Parse(m)),
            None => {
                let n = ders.len() as int;
                let front = Seq::new((n - 1) as nat, |i: int| front_hop(ders, now, i));
                let (tail, reaches) = terminal_of(ders[n - 1], n, now, anchors);
                Ok(ChainAnalysisView { hops: front + tail, reaches_trusted_root: reaches })
            },
        }
    }
}

pub open spec fn result_view(r: Result<ChainAnalysis, ChainError>) -> Result<
    ChainAnalysisView,
    ChainErrorView,
> {
    match r {
        Ok(a) => Ok(a@),
        Err(e) => Err(e@),
    }
}

proof fn lemma_first_parse_failure(ders: Seq<Seq<u8>>, i: int)
    requires
        0 <= i <= ders.len(),
        forall|j: int| 0 <= j < i ==> x509_parses(#[trigger] ders[j]),
    ensures
        i < ders.len() && x509_parse_failure(ders[i]) is Some ==> first_parse_failure(ders)
            == x509_parse_failure(ders[i]),
        i == ders.len() ==> first_parse_failure(ders) is None,
    decreases i,
{
    if i > 0 {
        let t = ders.drop_first();
        assert(x509_parses(ders[0]));
        assert forall|j: int| 0 <= j < i - 1 implies x509_parses(#[trigger] t[j]) by {
            assert(t[j] == ders[j + 1]);
        }
        lemma_first_parse_failure(t, i - 1);
        if i < ders.len() {
            assert(t[i - 1] == ders[i]);
        }
    }
}

// ---------------------------------------------------------------------------
// The analysis
// ---------------------------------------------------------------------------

/// The label a presented certificate gets from its position.
pub fn hop_kind(index: usize, len: usize) -> (r: NodeKind)
    requires
        index < usize::MAX,
    ensures
        r == kind_at(index as int, len as int),
{
    if index == 0 {
        NodeKind::Leaf
    } else if index + 1 == len {
        NodeKind::Root
    } else {
        NodeKind::Intermediate
    }
}

fn name_raw(der: &[u8], field: NameField) -> (r: Vec<u8>)
    requires
        x509_parses(der@),
    ensures
        r@ == x509_name_der(der@, field),
{
    match field {
        NameField::Subject => x509_subject_raw(der),
        NameField::Issuer => x509_issuer_raw(der),
    }
}

fn name_string(der: &[u8], field: NameField) -> (r: String)
    requires
        x509_parses(der@),
    ensures
        r@ == x509_name_text(der@, field),
{
    match field {
        NameField::Subject => x509_subject_string(der),
        NameField::Issuer => x509_issuer_string(der),
    }
}

fn validity(der: &[u8], bound: ValidityBound) -> (r: i128)
    requires
        x509_parses(der@),
    ensures
        r == x509_validity_nanos(der@, bound),
{
    match bound {
        ValidityBound::NotBefore => x509_not_before(der),
        ValidityBound::NotAfter => x509_not_after(der),
    }
}

fn date_status(der: &[u8], now: i128) -> (r: Option<HopStatus>)
    requires
        x509_parses(der@),
    ensures
        match r {
            Some(s) => date_status_of(der@, now as int) == Some(s@),
            None => date_status_of(der@, now as int) is None,
        },
{
    if now < validity(der, ValidityBound::NotBefore) {
        Some(HopStatus::NotYetValid)
    } else if now > validity(der, ValidityBound::NotAfter) {
        Some(HopStatus::Expired)
    } else {
        None
    }
}

fn hop_status(der: &[u8], signer: Option<&[u8]>, now: i128) -> (r: HopStatus)
    requires
        x509_parses(der@),
    ensures
        r@ == hop_status_of(der@, opt_bytes(signer), now as int),
{
    match date_status(der, now) {
        Some(s) => s,
        None => match x509_verify_signature(der, signer) {
            Ok(()) => HopStatus::Valid,
            Err(e) => HopStatus::SignatureMismatch(e),
        },
    }
}

fn common_name(der: &[u8], field: NameField) -> (r: String)
    requires
        x509_parses(der@),
    ensures
        r@ == name_of(der@, field),
{
    let first = match field {
        NameField::Subject => x509_subject_common_name(der),
        NameField::Issuer => x509_issuer_common_name(der),
    };
    match first {
        Some(cn) => cn,
        None => name_string(der, field),
    }
}

fn pubkey_algorithm_name(oid: String) -> (r: String)
    ensures
        r@ == algorithm_name(oid@),
{
    if str_eq(oid.as_str(), "1.2.840.113549.1.1.1") {
        owned("RSA")
    } else if str_eq(oid.as_str(), "1.2.840.10045.2.1") {
        owned("EC (ECDSA)")
    } else if str_eq(oid.as_str(), "1.3.101.112") {
        owned("Ed25519")
    } else if str_eq(oid.as_str(), "1.2.840.10040.4.1") {
        owned("DSA")
    } else {
        oid
    }
}

fn to_cert_node(der: &[u8]) -> (r: CertNode)
    requires
        x509_parses(der@),
    ensures
        r@ == node_of(der@),
{
    CertNode {
        subject: common_name(der, NameField::Subject),
        subject_dn: name_string(der, NameField::Subject),
        issuer: common_name(der, NameField::Issuer),
        issuer_dn: name_string(der, NameField::Issuer),
        serial: x509_serial(der),
        pubkey_algorithm: pubkey_algorithm_name(x509_public_key_algorithm(der)),
        not_before: Some(validity(der, ValidityBound::NotBefore)),
        not_after: Some(validity(der, ValidityBound::NotAfter)),
    }
}

fn root_node_from_anchor(der: &[u8]) -> (r: CertNode)
    requires
        x509_parses(der@),
    ensures
        r@ == anchor_node_of(der@),
{
    CertNode {
        subject: common_name(der, NameField::Issuer),
        subject_dn: name_string(der, NameField::Issuer),
        issuer: common_name(der, NameField::Issuer),
        issuer_dn: name_string(der, NameField::Issuer),
        serial: owned("n/a (system trust store)"),
        pubkey_algorithm: owned("n/a"),
        not_before: None,
        not_after: None,
    }
}

/// Whether `der` is a certificate and some trust anchor's public key
/// verifies its signature: the trust store is searched by key, not by
/// name. Bytes that do not parse as a certificate have no issuer in it.
pub fn issuer_in_store(anchors: &[AnchorKey], der: &[u8]) -> (r: bool)
    ensures
        r == (x509_parses(der@) && anchor_verifies(anchor_views(anchors@), der@)),
{
    if x509_parse_error(der).is_some() {
        return false;
    }
    let ghost av = anchor_views(anchors@);
    let mut i: usize = 0;
    while i < anchors.len()
        invariant
            0 <= i <= anchors@.len(),
            av == anchor_views(anchors@),
            x509_parses(der@),
            forall|j: int|
                0 <= j < i ==> #[trigger] x509_signature_check(der@, Some(der_sequence(av[j].1)))
                    != Ok::<(), Seq<char>>(()),
        decreases anchors@.len() - i,
    {
        let key = wrap_der_sequence(anchors[i].spki.as_slice());
        assert(av[i as int].1 == anchors@[i as int].spki@);
        if x509_verify_signature(der, Some(key.as_slice())).is_ok() {
            return true;
        }
        i += 1;
    }
    false
}

/// Whether some trust anchor holds exactly the public key `key_der` (full
/// SubjectPublicKeyInfo DER).
pub fn key_is_trusted(anchors: &[AnchorKey], key_der: &[u8]) -> (r: bool)
    ensures
        r == key_in_store(anchor_views(anchors@), key_der@),
{
    let ghost av = anchor_views(anchors@);
    let key = match der_value(key_der) {
        Some(k) => k,
        None => return false,
    };
    let mut i: usize = 0;
    while i < anchors.len()
        invariant
            0 <= i <= anchors@.len(),
            av == anchor_views(anchors@),
            der_contents(key_der@) == Some(key@),
            forall|j: int| 0 <= j < i ==> av[j].1 != key@,
        decreases anchors@.len() - i,
    {
        if bytes_eq(anchors[i].spki.as_slice(), key.as_slice()) {
            assert(av[i as int].1 == key@);
            return true;
        }
        i += 1;
    }
    assert forall|j: int| 0 <= j < av.len() implies #[trigger] av[j].1 != key@ by {}
    false
}

fn terminal_hops(last: &[u8], n: usize, now: i128, anchors: &[AnchorKey]) -> (r: (
    Vec<ChainHop>,
    bool,
))
    requires
        x509_parses(last@),
    ensures
        hop_views(r.0@) == terminal_of(last@, n as int, now as int, anchor_views(anchors@)).0,
        r.1 == terminal_of(last@, n as int, now as int, anchor_views(anchors@)).1,
{
    let own_kind = if n == 1 {
        NodeKind::Leaf
    } else {
        NodeKind::Intermediate
    };
    let subject = name_raw(last, NameField::Subject);
    let issuer = name_raw(last, NameField::Issuer);
    let mut hops: Vec<ChainHop> = Vec::new();
    let reaches;
    if bytes_eq(subject.as_slice(), issuer.as_slice()) {
        let status = hop_status(last, None, now);
        let key = x509_public_key_der(last);
        reaches = status.is_valid() && key_is_trusted(anchors, key.as_slice());
        hops.push(ChainHop { kind: NodeKind::Root, node: to_cert_node(last), status });
    } else if issuer_in_store(anchors, last) {
        let status = match date_status(last, now) {
            Some(s) => s,
            None => HopStatus::Valid,
        };
        reaches = status.is_valid();
        hops.push(ChainHop { kind: own_kind, node: to_cert_node(last), status });
        hops.push(
            ChainHop {
                kind: NodeKind::Root,
                node: root_node_from_anchor(last),
                status: HopStatus::Valid,
            },
        );
    } else {
        let status = match date_status(last, now) {
            Some(s) => s,
            None => HopStatus::UnverifiedIssuer(owned("issuer not found in trust store")),
        };
        reaches = false;
        hops.push(ChainHop { kind: own_kind, node: to_cert_node(last), status });
    }
    assert(hop_views(hops@) =~= terminal_of(last@, n as int, now as int, anchor_views(anchors@)).0);
    (hops, reaches)
}

/// Parse and validate a presented DER certificate chain (leaf-first, as
/// returned by a TLS handshake) against the trust store `anchors`,
/// extending it with a trusted-root hop when the key of one of them verifies
/// the terminal certificate. A self-signed terminal certificate is the root
/// itself, trusted only when the store holds its key. `now` is the instant
/// of validation, in nanoseconds since the Unix epoch.
pub fn analyze_with_anchors(der_chain: &[Vec<u8>], now: i128, anchors: &[AnchorKey]) -> (res: Result<
    ChainAnalysis,
    ChainError,
>)
    ensures
        result_view(res) == analysis_of(der_views(der_chain@), now as int, anchor_views(anchors@)),
{
    let ghost ders = der_views(der_chain@);
    let n = der_chain.len();
    if n == 0 {
        return Err(ChainError::Empty);
    }
    let mut i: usize = 0;
    while i < n
        invariant
            0 <= i <= n == der_chain@.len(),
            ders == der_views(der_chain@),
            forall|j: int| 0 <= j < i ==> x509_parses(#[trigger] ders[j]),
        decreases n - i,
    {
        if let Some(message) = x509_parse_error(der_chain[i].as_slice()) {
            proof {
                lemma_first_parse_failure(ders, i as int);
            }
            return Err(ChainError::Parse(message));
        }
        i += 1;
    }
    proof {
        lemma_first_parse_failure(ders, n as int);
    }
    let mut hops: Vec<ChainHop> = Vec::new();
    let mut i: usize = 0;
    while i + 1 < n
        invariant
            0 <= i < n == der_chain@.len(),
            ders == der_views(der_chain@),
            forall|j: int| 0 <= j < n ==> x509_parses(#[trigger] ders[j]),
            hops@.len() == i,
            forall|j: int| 0 <= j < i ==> #[trigger] hops@[j]@ == front_hop(ders, now as int, j),
        decreases n - i,
    {
        assert(x509_parses(ders[i as int]) && x509_parses(ders[i + 1]));
        let signer = x509_public_key_der(der_chain[i + 1].as_slice());
        let status = hop_status(der_chain[i].as_slice(), Some(signer.as_slice()), now);
        let node = to_cert_node(der_chain[i].as_slice());
        hops.push(ChainHop { kind: hop_kind(i, n), node, status });
        i += 1;
    }
    assert(x509_parses(ders[n - 1]));
    let (mut tail, reaches) = terminal_hops(der_chain[n - 1].as_slice(), n, now, anchors);
    let ghost front = hops@;
    let ghost back = tail@;
    hops.append(&mut tail);
    proof {
        let model = analysis_of(ders, now as int, anchor_views(anchors@));
        let spec_front = Seq::new((n - 1) as nat, |j: int| front_hop(ders, now as int, j));
        assert(hop_views(front) =~= spec_front);
        assert(hop_views(hops@) =~= hop_views(front) + hop_views(back));
    }
    Ok(ChainAnalysis { hops, reaches_trusted_root: reaches })
}

/// `store` is the compiled-in Mozilla trust store: entry for entry the
/// table of `webpki-roots`, up to the end of that table.
pub open spec fn is_mozilla_store(store: Seq<(Seq<u8>, Seq<u8>)>) -> bool {
    &&& forall|i: int| 0 <= i < store.len() ==> webpki_anchor(i) == Some(#[trigger] store[i])
    &&& (webpki_anchor(store.len() as int) is None || store.len() == usize::MAX)
}

/// The compiled-in Mozilla trust store.
pub fn mozilla_trust_store() -> (r: Vec<AnchorKey>)
    ensures
        is_mozilla_store(anchor_views(r@)),
{
    let mut store: Vec<AnchorKey> = Vec::new();
    let mut i: usize = 0;
    loop
        invariant
            store@.len() == i,
            forall|j: int| 0 <= j < i ==> webpki_anchor(j) == Some(#[trigger] anchor_views(store@)[j]),
        decreases usize::MAX - i,
    {
        if i == usize::MAX {
            return store;
        }
        match webpki_trust_anchor(i) {
            Some(anchor) => {
                let ghost prev = store@;
                store.push(anchor);
                assert forall|j: int| 0 <= j < i + 1 implies webpki_anchor(j) == Some(
                    #[trigger] anchor_views(store@)[j],
                ) by {
                    if j < i {
                        assert(anchor_views(store@)[j] == anchor_views(prev)[j]);
                    }
                }
            },
            None => {
                return store;
            },
        }
        i += 1;
    }
}

/// Parse and validate a presented DER certificate chain (leaf-first, as
/// returned by a TLS handshake) against the compiled-in Mozilla trust
/// store.
pub fn analyze(der_chain: &[Vec<u8>], now: i128) -> (res: Result<ChainAnalysis, ChainError>)
    ensures
        exists|store: Seq<(Seq<u8>, Seq<u8>)>|
            is_mozilla_store(store) && result_view(res) == analysis_of(
                der_views(der_chain@),
                now as int,
                store,
            ),
{
    let anchors = mozilla_trust_store();
    analyze_with_anchors(der_chain, now, anchors.as_slice())
}

// ---------------------------------------------------------------------------
// Laws
// ---------------------------------------------------------------------------

/// The presented certificates come first, in the order given, each shown
/// as itself; at most one hop (a trust-store root) follows them.
pub proof fn law_presented_order_kept(ders: Seq<Seq<u8>>, now: int, anchors: Seq<(Seq<u8>, Seq<u8>)>)
    ensures
        analysis_of(ders, now, anchors) matches Ok(a) ==> {
            &&& ders.len() <= a.hops.len() <= ders.len() + 1
            &&& forall|i: int| 0 <= i < ders.len() ==> #[trigger] a.hops[i].node == node_of(ders[i])
        },
{
    if analysis_of(ders, now, anchors) is Ok {
        let n = ders.len() as int;
        let front = Seq::new((n - 1) as nat, |i: int| front_hop(ders, now, i));
        let tail = terminal_of(ders[n - 1], n, now, anchors).0;
        let hops = front + tail;
        assert forall|i: int| 0 <= i < n implies #[trigger] hops[i].node == node_of(ders[i]) by {
            if i < n - 1 {
                assert(hops[i] == front[i]);
            } else {
                assert(hops[i] == tail[0]);
            }
        }
    }
}

/// Only the last hop can be labelled the root, and the first hop is the
/// leaf unless the chain is a single self-signed certificate.
pub proof fn law_root_only_last(ders: Seq<Seq<u8>>, now: int, anchors: Seq<(Seq<u8>, Seq<u8>)>)
    ensures
        analysis_of(ders, now, anchors) matches Ok(a) ==> {
            &&& a.hops.len() > 0
            &&& forall|i: int| 0 <= i < a.hops.len() - 1 ==> #[trigger] a.hops[i].kind != NodeKind::Root
            &&& a.hops[0].kind == NodeKind::Leaf || (ders.len() == 1 && self_signed(ders[0]))
        },
{
    if analysis_of(ders, now, anchors) is Ok {
        let n = ders.len() as int;
        let front = Seq::new((n - 1) as nat, |i: int| front_hop(ders, now, i));
        let tail = terminal_of(ders[n - 1], n, now, anchors).0;
        let hops = front + tail;
        assert forall|i: int| 0 <= i < hops.len() - 1 implies #[trigger] hops[i].kind
            != NodeKind::Root by {
            if i < n - 1 {
                assert(hops[i] == front[i]);
            } else {
                assert(hops[i] == tail[i - (n - 1)]);
            }
        }
        if n > 1 {
            assert(hops[0] == front[0]);
        } else {
            assert(hops[0] == tail[0]);
        }
    }
}

/// A chain reaches a trusted root only through the trust store: its last
/// hop is a root, and either the last presented certificate is
/// self-signed with a key the store holds, or the key of some anchor in the
/// store verifies it. In particular, with an empty store no chain is
/// trusted.
pub proof fn law_trust_comes_from_the_store(
    ders: Seq<Seq<u8>>,
    now: int,
    anchors: Seq<(Seq<u8>, Seq<u8>)>,
)
    ensures
        analysis_of(ders, now, anchors) matches Ok(a) ==> a.reaches_trusted_root ==> {
            let last = ders[ders.len() - 1];
            &&& a.hops.last().kind == NodeKind::Root
            &&& a.hops.last().status is Valid
            &&& (self_signed(last) && key_in_store(anchors, x509_key_der(last))) || (!self_signed(
                last,
            ) && anchor_verifies(anchors, last))
            &&& anchors.len() > 0
        },
{
    if analysis_of(ders, now, anchors) is Ok {
        let n = ders.len() as int;
        let front = Seq::new((n - 1) as nat, |i: int| front_hop(ders, now, i));
        let tail = terminal_of(ders[n - 1], n, now, anchors).0;
        let hops = front + tail;
        assert(hops.last() == tail.last());
    }
}

/// The verdict reads `Chain: VALID` exactly when the chain is fully
/// valid.
pub proof fn law_verdict_valid_iff_fully_valid(a: ChainAnalysisView)
    ensures
        (verdict_text(a) == "Chain: VALID"@) <==> fully_valid(a),
{
    reveal_strlit("Chain: VALID");
    reveal_strlit("Chain: INVALID — ");
    reveal_strlit("Chain: UNTRUSTED — no trusted root found");
    if !fully_valid(a) {
        let i = first_broken(a.hops);
        if 0 <= i < a.hops.len() {
            let r = match status_reason(a.hops[i].status) {
                Some(r) => r,
                None => "invalid"@,
            };
            let t = "Chain: INVALID — "@ + a.hops[i].node.subject + " ("@ + r + ")"@;
            assert(t[7] == 'I');
            assert("Chain: VALID"@[7] == 'V');
        } else {
            assert("Chain: UNTRUSTED — no trusted root found"@[7] == 'U');
        }
    }
}

/// The date verdict of a hop agrees with its display node: no date
/// verdict exactly when the node is currently valid, `Expired` only for an
/// expired node and `NotYetValid` only for a node not yet valid.
pub proof fn law_date_status_agrees_with_node(der: Seq<u8>, now: int)
    ensures
        (date_status_of(der, now) is None) <==> (!expired_at(node_of(der).not_after, now)
            && !not_yet_valid_at(node_of(der).not_before, now)),
        date_status_of(der, now) == Some(HopStatusView::Expired) ==> expired_at(
            node_of(der).not_after,
            now,
        ),
        date_status_of(der, now) == Some(HopStatusView::NotYetValid) ==> not_yet_valid_at(
            node_of(der).not_before,
            now,
        ),
{
}

/// Every presented certificate is judged on its dates first, whichever way
/// its hop is resolved: one checked before its window opens is
/// `NotYetValid`, one checked after its window closes is `Expired`, and a
/// hop is `Valid` only when `now` lies inside its certificate's window. A
/// certificate before the last is `Valid` exactly when its window holds
/// `now` and the key of the certificate after it verifies its signature.
/// The chain reaches a trusted root only when the last presented
/// certificate's window holds `now`.
pub proof fn law_dates_come_first(ders: Seq<Seq<u8>>, now: int, anchors: Seq<(Seq<u8>, Seq<u8>)>)
    ensures
        analysis_of(ders, now, anchors) matches Ok(a) ==> {
            &&& forall|i: int|
                0 <= i < ders.len() ==> {
                    let not_before = x509_validity_nanos(ders[i], ValidityBound::NotBefore);
                    let not_after = x509_validity_nanos(ders[i], ValidityBound::NotAfter);
                    &&& now < not_before ==> (#[trigger] a.hops[i]).status
                        == HopStatusView::NotYetValid
                    &&& not_before <= now && now > not_after ==> a.hops[i].status
                        == HopStatusView::Expired
                    &&& a.hops[i].status is Valid ==> not_before <= now && now <= not_after
                    &&& i < ders.len() - 1 ==> ((a.hops[i].status is Valid) <==> (not_before <= now
                        && now <= not_after && x509_signature_check(
                        ders[i],
                        Some(x509_key_der(ders[i + 1])),
                    ) == Ok::<(), Seq<char>>(())))
                }
            &&& a.reaches_trusted_root ==> {
                let last = ders[ders.len() - 1];
                &&& x509_validity_nanos(last, ValidityBound::NotBefore) <= now
                &&& now <= x509_validity_nanos(last, ValidityBound::NotAfter)
            }
        },
{
    if analysis_of(ders, now, anchors) is Ok {
        let n = ders.len() as int;
        let front = Seq::new((n - 1) as nat, |i: int| front_hop(ders, now, i));
        let tail = terminal_of(ders[n - 1], n, now, anchors).0;
        let hops = front + tail;
        assert forall|i: int| 0 <= i < n implies {
            let not_before = x509_validity_nanos(ders[i], ValidityBound::NotBefore);
            let not_after = x509_validity_nanos(ders[i], ValidityBound::NotAfter);
            &&& now < not_before ==> (#[trigger] hops[i]).status == HopStatusView::NotYetValid
            &&& not_before <= now && now > not_after ==> hops[i].status == HopStatusView::Expired
            &&& hops[i].status is Valid ==> not_before <= now && now <= not_after
            &&& i < n - 1 ==> ((hops[i].status is Valid) <==> (not_before <= now && now
                <= not_after && x509_signature_check(ders[i], Some(x509_key_der(ders[i + 1])))
                == Ok::<(), Seq<char>>(())))
        } by {
            if i < n - 1 {
                assert(hops[i] == front[i]);
                let sig = x509_signature_check(ders[i], Some(x509_key_der(ders[i + 1])));
                assert(hops[i].status == hop_status_of(
                    ders[i],
                    Some(x509_key_der(ders[i + 1])),
                    now,
                ));
                if hops[i].status is Valid {
                    assert(date_status_of(ders[i], now) is None);
                    match sig {
                        Ok(u) => {
                            assert(sig == Ok::<(), Seq<char>>(()));
                        },
                        Err(m) => {
                            assert(hops[i].status == HopStatusView::SignatureMismatch(m));
                        },
                    }
                }
            } else {
                assert(hops[i] == tail[0]);
                let last = ders[n - 1];
                assert(i == n - 1);
                if !self_signed(last) && anchor_verifies(anchors, last) {
                    assert(tail[0].status == match date_status_of(last, now) {
                        Some(s) => s,
                        None => HopStatusView::Valid,
                    });
                } else if !self_signed(last) {
                    assert(tail[0].status == match date_status_of(last, now) {
                        Some(s) => s,
                        None => HopStatusView::UnverifiedIssuer(no_anchor_reason()),
                    });
                } else {
                    assert(tail[0].status == hop_status_of(last, None, now));
                }
            }
        }
    }
}

/// The chain is fully valid exactly when it reaches a trusted root and
/// every one of its hops is `Valid`: one hop that is expired, not yet
/// valid or wrongly signed, anywhere in the chain, makes the verdict read
/// `Chain: INVALID`, and an untrusted chain never reads `Chain: VALID`.
pub proof fn law_fully_valid_means_every_hop_valid(a: ChainAnalysisView)
    ensures
        fully_valid(a) <==> (a.reaches_trusted_root && forall|i: int|
            0 <= i < a.hops.len() ==> #[trigger] a.hops[i].status == HopStatusView::Valid),
        (exists|i: int|
            0 <= i < a.hops.len() && (#[trigger] a.hops[i].status == HopStatusView::Expired
                || a.hops[i].status == HopStatusView::NotYetValid
                || a.hops[i].status is SignatureMismatch)) ==> verdict_text(a).take(17)
            == "Chain: INVALID — "@,
        !a.reaches_trusted_root ==> verdict_text(a) != "Chain: VALID"@,
{
    reveal_strlit("Chain: INVALID — ");
    reveal_strlit("Chain: VALID");
    law_verdict_valid_iff_fully_valid(a);
    assert(fully_valid(a) <==> (a.reaches_trusted_root && forall|i: int|
        0 <= i < a.hops.len() ==> #[trigger] a.hops[i].status == HopStatusView::Valid)) by {
        if a.reaches_trusted_root && forall|i: int|
            0 <= i < a.hops.len() ==> #[trigger] a.hops[i].status == HopStatusView::Valid {
            assert forall|i: int| 0 <= i < a.hops.len() implies a.hops[i].status is Valid by {
                assert(a.hops[i].status == HopStatusView::Valid);
            }
        }
    }
    if exists|i: int|
        0 <= i < a.hops.len() && (#[trigger] a.hops[i].status == HopStatusView::Expired
            || a.hops[i].status == HopStatusView::NotYetValid
            || a.hops[i].status is SignatureMismatch) {
        let k = choose|i: int|
            0 <= i < a.hops.len() && (#[trigger] a.hops[i].status == HopStatusView::Expired
                || a.hops[i].status == HopStatusView::NotYetValid
                || a.hops[i].status is SignatureMismatch);
        assert(is_broken(a.hops[k].status));
        assert(!fully_valid(a));
        lemma_first_broken(a.hops);
        let b = first_broken(a.hops);
        assert(b <= k);
        assert(b < a.hops.len());
        let r = match status_reason(a.hops[b].status) {
            Some(r) => r,
            None => "invalid"@,
        };
        let t = "Chain: INVALID — "@ + a.hops[b].node.subject + " ("@ + r + ")"@;
        assert(verdict_text(a) == t);
        assert(t.take(17) =~= "Chain: INVALID — "@);
    }
}

} // verus!
