//! What a lookup of a domain yields.
use vstd::prelude::*;

use crate::chain::{ChainAnalysis, ChainAnalysisView};
use crate::hsts::Hsts;

verus! {

/// The result of connecting to a domain: the analysed certificate chain
/// plus the negotiated protocol/cipher suite and the origin's HSTS policy.
#[derive(Debug, Clone)]
pub struct ChainInfo {
    pub analysis: ChainAnalysis,
    pub protocol_version: String,
    pub cipher_suite: String,
    pub hsts: Hsts,
}

pub struct ChainInfoView {
    pub analysis: ChainAnalysisView,
    pub protocol_version: Seq<char>,
    pub cipher_suite: Seq<char>,
    pub hsts: Hsts,
}

impl View for ChainInfo {
    type V = ChainInfoView;

    open spec fn view(&self) -> ChainInfoView {
        ChainInfoView {
            analysis: self.analysis@,
            protocol_version: self.protocol_version@,
            cipher_suite: self.cipher_suite@,
            hsts: self.hsts,
        }
    }
}

} // verus!
