use vstd::prelude::*;

pub mod app;
pub mod cert;
pub mod chain;
pub mod der;
pub mod hsts;
pub mod text;
pub mod tls;
pub mod ui;
pub mod x509;

verus! {
}
