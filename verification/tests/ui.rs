use porthole::cert::CertNode;
use porthole::chain::{ChainAnalysis, ChainHop, HopStatus, NodeKind};
use porthole::hsts::Hsts;
use porthole::text::sanitize;
use porthole::ui::{
    chrome_tone, error_border_tone, error_title, expiry_line, hsts_line, is_weak_cipher,
    is_weak_protocol, kind_label, selected_hop, status_glyph_and_tone, tree_line, tree_rows,
    tree_title, verdict_tone, Tone,
};

const DAY: i128 = 86_400_000_000_000;

fn fake_node(subject: &str) -> CertNode {
    CertNode {
        subject: subject.to_string(),
        subject_dn: format!("CN={subject}"),
        issuer: "Test CA".to_string(),
        issuer_dn: "CN=Test CA".to_string(),
        serial: "01".to_string(),
        pubkey_algorithm: "RSA".to_string(),
        not_before: None,
        not_after: None,
    }
}

fn fake_analysis() -> ChainAnalysis {
    let hops = vec![
        ChainHop { kind: NodeKind::Leaf, node: fake_node("leaf.example"), status: HopStatus::Valid },
        ChainHop {
            kind: NodeKind::Intermediate,
            node: fake_node("Intermediate CA"),
            status: HopStatus::Expired,
        },
        ChainHop {
            kind: NodeKind::Root,
            node: fake_node("Root CA"),
            status: HopStatus::UnverifiedIssuer("no trusted root found".to_string()),
        },
    ];
    ChainAnalysis { hops, reaches_trusted_root: false }
}

#[test]
fn tls_1_0_and_1_1_are_weak() {
    assert!(is_weak_protocol("TLS 1.0"));
    assert!(is_weak_protocol("TLS 1.1"));
}

#[test]
fn tls_1_2_and_1_3_are_not_weak() {
    assert!(!is_weak_protocol("TLS 1.2"));
    assert!(!is_weak_protocol("TLS 1.3"));
}

#[test]
fn unknown_protocol_string_is_not_flagged_weak() {
    assert!(!is_weak_protocol("unknown"));
}

#[test]
fn legacy_cbc_sha1_cipher_is_weak() {
    assert!(is_weak_cipher("TLS_ECDHE_RSA_WITH_AES_128_CBC_SHA"));
}

#[test]
fn rc4_3des_null_export_ciphers_are_weak() {
    assert!(is_weak_cipher("TLS_RSA_WITH_RC4_128_SHA"));
    assert!(is_weak_cipher("TLS_RSA_WITH_3DES_EDE_CBC_SHA"));
    assert!(is_weak_cipher("TLS_RSA_WITH_NULL_SHA"));
    assert!(is_weak_cipher("TLS_RSA_EXPORT_WITH_RC4_40_MD5"));
}

#[test]
fn modern_cbc_sha256_cipher_is_not_weak() {
    // Contains "CBC_SHA" as a substring of "CBC_SHA256" but uses a
    // strong hash, so it must not be flagged.
    assert!(!is_weak_cipher("TLS_ECDHE_RSA_WITH_AES_128_CBC_SHA256"));
}

#[test]
fn aead_tls13_cipher_is_not_weak() {
    assert!(!is_weak_cipher("TLS13_AES_256_GCM_SHA384"));
    assert!(!is_weak_cipher("TLS13_CHACHA20_POLY1305_SHA256"));
}

#[test]
fn protocol_names_must_match_exactly_to_be_weak() {
    assert!(!is_weak_protocol("TLS 1.0 "));
    assert!(!is_weak_protocol("tls 1.0"));
    assert!(!is_weak_protocol(""));
}

#[test]
fn an_open_overlay_dims_the_chrome() {
    assert_eq!(chrome_tone(false), Tone::Accent);
    assert_eq!(chrome_tone(true), Tone::Muted);
    assert_eq!(error_border_tone(false), Tone::Bad);
    assert_eq!(error_border_tone(true), Tone::Muted);
}

#[test]
fn each_status_has_its_glyph_and_tone() {
    assert_eq!(status_glyph_and_tone(&HopStatus::Valid), ('✔', Tone::Good));
    assert_eq!(status_glyph_and_tone(&HopStatus::Expired), ('✘', Tone::Bad));
    assert_eq!(status_glyph_and_tone(&HopStatus::NotYetValid), ('✘', Tone::Bad));
    assert_eq!(
        status_glyph_and_tone(&HopStatus::SignatureMismatch("bad".to_string())),
        ('✘', Tone::Bad)
    );
    assert_eq!(
        status_glyph_and_tone(&HopStatus::UnverifiedIssuer("unknown".to_string())),
        ('▲', Tone::Warning)
    );
    assert_eq!(kind_label(NodeKind::Intermediate), "intermediate");
}

#[test]
fn tree_lines_indent_by_depth_and_carry_the_reason() {
    let analysis = fake_analysis();
    assert_eq!(tree_line(&analysis.hops[0], 0), "✔ leaf.example (leaf) issuer: Test CA");
    assert_eq!(
        tree_line(&analysis.hops[1], 1),
        "  └─ ✘ Intermediate CA (intermediate) issuer: Test CA — expired"
    );
    assert_eq!(
        tree_line(&analysis.hops[2], 2),
        "    └─ ▲ Root CA (root) issuer: Test CA — no trusted root found"
    );
}

#[test]
fn tree_rows_show_only_revealed_hops_and_mark_the_selection() {
    let analysis = fake_analysis();
    let partial = tree_rows(&analysis, 2, 1);
    assert_eq!(partial.rows.len(), 2);
    assert!(partial.pending);
    assert!(!partial.rows[0].selected);
    assert!(partial.rows[1].selected);
    assert_eq!(partial.rows[1].tone, Tone::Bad);
    let all = tree_rows(&analysis, 9, 0);
    assert_eq!(all.rows.len(), 3);
    assert!(!all.pending);
    assert_eq!(all.rows[2].tone, Tone::Warning);
    assert_eq!(all.rows[0].text, "✔ leaf.example (leaf) issuer: Test CA");
}

#[test]
fn a_selection_past_the_chain_shows_no_detail() {
    let analysis = fake_analysis();
    assert!(selected_hop(&analysis, 999).is_none());
    assert_eq!(selected_hop(&analysis, 2).map(|h| h.node.subject.clone()), Some("Root CA".to_string()));
}

#[test]
fn the_verdict_is_green_only_for_a_fully_valid_chain() {
    let mut analysis = fake_analysis();
    assert_eq!(verdict_tone(&analysis), Tone::Bad);
    for hop in analysis.hops.iter_mut() {
        hop.status = HopStatus::Valid;
    }
    assert_eq!(verdict_tone(&analysis), Tone::Bad);
    analysis.reaches_trusted_root = true;
    assert_eq!(verdict_tone(&analysis), Tone::Good);
}

#[test]
fn hsts_line_shows_the_max_age_or_not_set() {
    assert_eq!(hsts_line(Hsts::MaxAge(63_072_000)), ("max-age=63072000".to_string(), Tone::Good));
    assert_eq!(hsts_line(Hsts::MaxAge(0)), ("max-age=0".to_string(), Tone::Good));
    assert_eq!(hsts_line(Hsts::NotSet), ("not set".to_string(), Tone::Muted));
}

#[test]
fn expiry_line_warns_early_and_turns_red_once_expired() {
    let mut node = fake_node("leaf.example");
    // 2026-09-29T00:00:00Z
    let not_after: i128 = 1_790_640_000 * 1_000_000_000;
    node.not_after = Some(not_after);
    let far = expiry_line(&node, not_after - 30 * DAY).unwrap();
    assert_eq!(far, ("expires 2026-09-29".to_string(), Tone::Primary));
    let soon = expiry_line(&node, not_after - 3 * DAY).unwrap();
    assert_eq!(soon.1, Tone::Warning);
    let edge = expiry_line(&node, not_after - 14 * DAY).unwrap();
    assert_eq!(edge.1, Tone::Warning);
    let gone = expiry_line(&node, not_after + 1).unwrap();
    assert_eq!(gone.1, Tone::Bad);
    node.not_after = None;
    assert_eq!(expiry_line(&node, 0).unwrap(), ("n/a (trust store)".to_string(), Tone::Muted));
}

#[test]
fn pane_titles_carry_the_domain() {
    assert_eq!(error_title(Some("example.com")), " Porthole — example.com ");
    assert_eq!(error_title(None), " Porthole ");
    assert_eq!(tree_title(Some("example.com")), " example.com ");
    assert_eq!(tree_title(None), "  ");
}

#[test]
fn help_is_drawn_over_the_detail_pane() {
    let mut app = porthole::app::App::new(None);
    assert_eq!(porthole::ui::overlay(&app), porthole::ui::Overlay::Nothing);
    assert!(!porthole::ui::overlay_open(&app));
    app.show_detail = true;
    assert_eq!(porthole::ui::overlay(&app), porthole::ui::Overlay::Detail);
    app.show_help = true;
    assert_eq!(porthole::ui::overlay(&app), porthole::ui::Overlay::Help);
    assert!(porthole::ui::overlay_open(&app));
}

#[test]
fn sanitize_replaces_control_characters_and_keeps_the_rest() {
    assert_eq!(sanitize("evil\u{1b}]0;pwned\u{7}.example"), "evil\u{FFFD}]0;pwned\u{FFFD}.example");
    assert_eq!(sanitize("tab\there\nnl\u{7f}\u{9f}"), "tab\u{FFFD}here\u{FFFD}nl\u{FFFD}\u{FFFD}");
    assert_eq!(sanitize("Let's Encrypt — R3 ü"), "Let's Encrypt — R3 ü");
    assert_eq!(sanitize(""), "");
}

#[test]
fn a_control_sequence_in_a_subject_never_reaches_the_tree_line() {
    let mut node = fake_node("evil\u{1b}[2Jhost");
    node.issuer = "CA\u{1b}]0;title\u{7}".to_string();
    let hop = ChainHop { kind: NodeKind::Leaf, node, status: HopStatus::Valid };
    let line = tree_line(&hop, 0);
    assert!(!line.chars().any(|c| c.is_control()));
    assert_eq!(line, "✔ evil\u{FFFD}[2Jhost (leaf) issuer: CA\u{FFFD}]0;title\u{FFFD}");
}
