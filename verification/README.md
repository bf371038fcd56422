# Porthole

A terminal app that draws a domain's TLS certificate chain as a color-coded
tree — leaf, intermediates and root, each hop validated — with the
negotiated protocol and cipher, the leaf's expiry and the origin's HSTS
policy beside it.

The logic is a library verified with Verus:

- `src/hsts.rs` — the `Strict-Transport-Security` header parser.
- `src/chain.rs` — hop-by-hop validation of a presented chain (dates, then
  signatures) and the resolution of its terminal hop against a trust store.
- `src/der.rs` — moving between full DER encodings and their contents, as
  the trust store keeps names and keys without their outer header.
- `src/cert.rs` — a certificate's validity window.
- `src/app.rs` — the app's state and what each key press and each tick does.
- `src/ui.rs` — the text and signal tone of each line on screen.
- `src/text.rs` — character-level string operations with their models,
  among them `sanitize`, which every string bound for a terminal cell
  passes through so that no control character reaches the terminal.
- `src/x509.rs` — the calls into `x509-parser` and `webpki-roots`.

`app/` holds the binary: command-line parsing, the terminal, the event loop
and the drawing with `ratatui`.
