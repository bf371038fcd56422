use porthole::app::{App, Key, KeyCode, Screen, MAX_DOMAIN_INPUT_LEN, REVEAL_INTERVAL_MS};
use porthole::chain::{ChainAnalysis, ChainHop, HopStatus, NodeKind};
use porthole::cert::CertNode;
use porthole::hsts::Hsts;
use porthole::tls::ChainInfo;

fn key(code: KeyCode) -> Key {
    Key::new(code, false)
}

fn chain_screen_app(revealed: usize) -> App {
    let mut app = App::new(None);
    app.screen = Screen::Chain;
    app.revealed = revealed;
    app
}

fn two_hop_info() -> ChainInfo {
    let node = CertNode {
        subject: "leaf.example".to_string(),
        subject_dn: "CN=leaf.example".to_string(),
        issuer: "Test CA".to_string(),
        issuer_dn: "CN=Test CA".to_string(),
        serial: "01".to_string(),
        pubkey_algorithm: "RSA".to_string(),
        not_before: None,
        not_after: None,
    };
    let hops = vec![
        ChainHop { kind: NodeKind::Leaf, node: node.clone(), status: HopStatus::Valid },
        ChainHop { kind: NodeKind::Root, node, status: HopStatus::Valid },
    ];
    ChainInfo {
        analysis: ChainAnalysis { hops, reaches_trusted_root: true },
        protocol_version: "TLS 1.3".to_string(),
        cipher_suite: "TLS13_AES_256_GCM_SHA384".to_string(),
        hsts: Hsts::NotSet,
    }
}

#[test]
fn typing_inserts_at_cursor_and_advances_it() {
    let mut app = App::new(None);
    app.handle_key(key(KeyCode::Char('a')));
    app.handle_key(key(KeyCode::Char('b')));
    assert_eq!(app.domain_input, "ab");
    assert_eq!(app.input_cursor, 2);
}

#[test]
fn typing_inserts_in_the_middle_not_just_at_the_end() {
    let mut app = App::new(None);
    app.domain_input = "ac".to_string();
    app.input_cursor = 1;
    app.handle_key(key(KeyCode::Char('b')));
    assert_eq!(app.domain_input, "abc");
    assert_eq!(app.input_cursor, 2);
}

#[test]
fn backspace_removes_char_before_cursor() {
    let mut app = App::new(None);
    app.domain_input = "abc".to_string();
    app.input_cursor = 2;
    app.handle_key(key(KeyCode::Backspace));
    assert_eq!(app.domain_input, "ac");
    assert_eq!(app.input_cursor, 1);
}

#[test]
fn backspace_at_start_is_a_no_op() {
    let mut app = App::new(None);
    app.domain_input = "abc".to_string();
    app.input_cursor = 0;
    app.handle_key(key(KeyCode::Backspace));
    assert_eq!(app.domain_input, "abc");
    assert_eq!(app.input_cursor, 0);
}

#[test]
fn left_and_right_move_the_cursor_and_clamp_at_the_edges() {
    let mut app = App::new(None);
    app.domain_input = "ab".to_string();
    app.input_cursor = 0;

    app.handle_key(key(KeyCode::Left));
    assert_eq!(app.input_cursor, 0, "must not go below zero");

    app.handle_key(key(KeyCode::Right));
    app.handle_key(key(KeyCode::Right));
    app.handle_key(key(KeyCode::Right));
    assert_eq!(app.input_cursor, 2, "must not exceed the input length");
}

#[test]
fn enter_on_empty_input_does_not_start_a_lookup() {
    let mut app = App::new(None);
    app.handle_key(key(KeyCode::Enter));
    assert!(matches!(app.screen, Screen::Input));
    assert!(app.fetch_result.is_none());
}

#[test]
fn esc_on_input_screen_quits() {
    let mut app = App::new(None);
    app.handle_key(key(KeyCode::Esc));
    assert!(app.should_quit);
}

#[test]
fn ctrl_c_quits_from_any_screen() {
    let mut app = App::new(None);
    app.handle_key(Key::new(KeyCode::Char('c'), true));
    assert!(app.should_quit);
}

#[test]
fn help_overlay_toggles_and_any_key_dismisses_without_leaking_through() {
    let mut app = App::new(None);
    app.handle_key(key(KeyCode::Char('?')));
    assert!(app.show_help);

    app.handle_key(key(KeyCode::Char('x')));
    assert!(!app.show_help);
    // the dismiss keypress must not also have been typed into the input
    assert!(app.domain_input.is_empty());
}

#[test]
fn arrow_down_selects_next_node_and_clamps_to_revealed_count() {
    let mut app = chain_screen_app(2);
    app.handle_key(key(KeyCode::Down));
    assert_eq!(app.selected, 1);

    // only indices 0..1 are revealed — must not select past that
    app.handle_key(key(KeyCode::Down));
    assert_eq!(app.selected, 1);
}

#[test]
fn arrow_up_does_not_go_below_zero() {
    let mut app = chain_screen_app(2);
    app.handle_key(key(KeyCode::Up));
    assert_eq!(app.selected, 0);
}

#[test]
fn enter_opens_detail_only_once_a_node_is_revealed() {
    let mut app = chain_screen_app(0);
    app.handle_key(key(KeyCode::Enter));
    assert!(!app.show_detail);

    app.revealed = 1;
    app.handle_key(key(KeyCode::Enter));
    assert!(app.show_detail);
}

#[test]
fn esc_closes_detail_without_quitting() {
    let mut app = chain_screen_app(1);
    app.show_detail = true;
    app.handle_key(key(KeyCode::Esc));
    assert!(!app.show_detail);
    assert!(!app.should_quit);
}

#[test]
fn q_quits_from_the_chain_screen_but_not_while_detail_is_open() {
    let mut app = chain_screen_app(1);
    app.show_detail = true;
    app.handle_key(key(KeyCode::Char('q')));
    assert!(!app.should_quit, "q while the detail pane is open should be a no-op");

    app.show_detail = false;
    app.handle_key(key(KeyCode::Char('q')));
    assert!(app.should_quit);
}

#[test]
fn n_key_returns_to_input_screen_and_clears_state() {
    let mut app = chain_screen_app(2);
    app.selected = 1;
    app.domain = Some("example.com".to_string());
    app.domain_input = "example.com".to_string();

    app.handle_key(key(KeyCode::Char('n')));

    assert!(matches!(app.screen, Screen::Input));
    assert_eq!(app.revealed, 0);
    assert_eq!(app.selected, 0);
    assert!(app.domain.is_none());
    assert!(app.domain_input.is_empty());
    assert!(app.fetch_result.is_none());
}

#[test]
fn typing_beyond_the_max_domain_length_is_a_no_op() {
    let mut app = App::new(None);
    app.domain_input = "a".repeat(MAX_DOMAIN_INPUT_LEN);
    app.input_cursor = MAX_DOMAIN_INPUT_LEN;
    app.handle_key(key(KeyCode::Char('x')));
    assert_eq!(app.domain_input.len(), MAX_DOMAIN_INPUT_LEN, "must not grow past the cap");
    assert_eq!(app.input_cursor, MAX_DOMAIN_INPUT_LEN);
}

#[test]
fn typing_a_multibyte_char_then_another_does_not_panic() {
    let mut app = App::new(None);
    app.handle_key(key(KeyCode::Char('é')));
    app.handle_key(key(KeyCode::Char('x')));
    assert_eq!(app.domain_input, "éx");
    assert_eq!(app.input_cursor, 2);
}

#[test]
fn backspace_after_a_multibyte_char_does_not_panic() {
    let mut app = App::new(None);
    app.handle_key(key(KeyCode::Char('日')));
    app.handle_key(key(KeyCode::Char('本')));
    app.handle_key(key(KeyCode::Backspace));
    assert_eq!(app.domain_input, "日");
    assert_eq!(app.input_cursor, 1);
}

#[test]
fn tick_reveals_nothing_without_a_fetch_result() {
    let mut app = App::new(None);
    app.tick(10_000);
    assert_eq!(app.revealed, 0);
}

#[test]
fn enter_queues_the_typed_domain_for_lookup() {
    let mut app = App::new(None);
    for c in "example.com".chars() {
        app.handle_key(key(KeyCode::Char(c)));
    }
    app.handle_key(key(KeyCode::Enter));
    assert_eq!(app.pending_lookup.as_deref(), Some("example.com"));
    assert!(App::new(Some("a.example".to_string())).pending_lookup.is_some());
}

#[test]
fn a_finished_lookup_shows_the_chain_and_reveals_one_hop_per_interval() {
    let mut app = App::new(None);
    app.pending_lookup = Some("example.com".to_string());
    app.selected = 3;
    app.start_lookup("example.com".to_string(), Ok(two_hop_info()), 1_000);
    assert!(matches!(app.screen, Screen::Chain));
    assert_eq!(app.domain.as_deref(), Some("example.com"));
    assert!(app.pending_lookup.is_none());
    assert_eq!((app.revealed, app.selected), (0, 0));
    assert_eq!(app.total_hops(), 2);

    app.tick(1_000 + REVEAL_INTERVAL_MS - 1);
    assert_eq!(app.revealed, 0);
    app.tick(1_000 + REVEAL_INTERVAL_MS);
    assert_eq!(app.revealed, 1);
    app.tick(1_000 + 2 * REVEAL_INTERVAL_MS);
    assert_eq!(app.revealed, 2);
    app.tick(1_000 + 10 * REVEAL_INTERVAL_MS);
    assert_eq!(app.revealed, 2);
}

#[test]
fn a_failed_lookup_has_no_hops_to_reveal() {
    let mut app = App::new(None);
    app.start_lookup("nowhere.invalid".to_string(), Err("could not resolve".to_string()), 0);
    assert!(matches!(app.screen, Screen::Chain));
    assert_eq!(app.total_hops(), 0);
    app.tick(5_000);
    assert_eq!(app.revealed, 0);
}

#[test]
fn typing_then_backspace_restores_the_input() {
    let mut app = App::new(None);
    app.domain_input = "exmple".to_string();
    app.input_cursor = 2;
    app.handle_key(key(KeyCode::Char('a')));
    assert_eq!(app.domain_input, "example");
    app.handle_key(key(KeyCode::Backspace));
    assert_eq!(app.domain_input, "exmple");
    assert_eq!(app.input_cursor, 2);
}

#[test]
fn enter_with_the_detail_pane_closed_changes_nothing_before_a_reveal() {
    let mut app = App::new(None);
    app.start_lookup("example.com".to_string(), Err("no route".to_string()), 0);
    let revealed_before = app.revealed;
    app.handle_key(Key::new(KeyCode::Enter, false));
    assert!(!app.show_detail);
    assert_eq!(app.revealed, revealed_before);
    assert!(!app.should_quit);
}
