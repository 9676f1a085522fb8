//! The reputation ledger's vocabulary and its Sybil-attack detector.
use vstd::prelude::*;

verus! {

/// What changed a reputation.
#[derive(Debug, Clone, Copy, PartialEq, Eq, Structural)]
pub enum ReputationEventType {
    ContributionUpdate,
    PeerValidation,
    SlashingPenalty,
    ReputationDecay,
}

/// What a peer validation vouches for.
#[derive(Debug, Clone, Copy, PartialEq, Eq, Structural)]
pub enum ValidationType {
    WorkQuality,
    Expertise,
    Reliability,
    Honesty,
}

/// Behaviour that betrays a Sybil attack.
#[derive(Debug, Clone, Copy, PartialEq, Eq, Structural)]
pub enum SybilPattern {
    IdenticalBehavior,
    CoordinatedTiming,
    SimilarPerformance,
    NetworkClustering,
}

/// Graph analysis of who trusts whom, for finding Sybil networks.
#[derive(Debug)]
pub struct NetworkAnalyzer {}

impl NetworkAnalyzer {
    /// The analyzer.
    pub fn new() -> (r: NetworkAnalyzer) {
        NetworkAnalyzer {}
    }
}

/// Looks for Sybil attacks: the patterns it watches for and its network
/// analysis.
#[derive(Debug)]
pub struct SybilDetector {
    pub suspicious_patterns: Vec<SybilPattern>,
    pub network_analyzer: NetworkAnalyzer,
}

/// The patterns the detector watches for once initialized.
pub open spec fn watched_patterns() -> Seq<SybilPattern> {
    seq![
        SybilPattern::IdenticalBehavior,
        SybilPattern::CoordinatedTiming,
        SybilPattern::SimilarPerformance,
        SybilPattern::NetworkClustering,
    ]
}

impl SybilDetector {
    /// A detector watching for no pattern yet.
    pub fn new() -> (r: SybilDetector)
        ensures
            r.suspicious_patterns@ == Seq::<SybilPattern>::empty(),
    {
        SybilDetector { suspicious_patterns: Vec::new(), network_analyzer: NetworkAnalyzer::new() }
    }

    /// Starts watching for the four known patterns.
    pub fn initialize(&mut self)
        ensures
            final(self).suspicious_patterns@ == watched_patterns(),
    {
        let mut patterns: Vec<SybilPattern> = Vec::new();
        patterns.push(SybilPattern::IdenticalBehavior);
        patterns.push(SybilPattern::CoordinatedTiming);
        patterns.push(SybilPattern::SimilarPerformance);
        patterns.push(SybilPattern::NetworkClustering);
        proof {
            assert(patterns@ =~= watched_patterns());
        }
        self.suspicious_patterns = patterns;
    }
}

} // verus!
