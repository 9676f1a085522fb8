//! The economic optimizer's models and the analyzer of network conditions,
//! with the trend, volatility and congestion levels they report.
use vstd::prelude::*;
use crate::text::text;

verus! {

/// The models the optimizer consults, by name.
#[derive(Debug)]
pub struct OptimizationModels {
    pub inflation_predictor: String,
    pub demand_forecaster: String,
    pub reward_optimizer: String,
    pub stability_analyzer: String,
}

impl OptimizationModels {
    /// The optimizer's four models.
    pub fn new() -> (r: OptimizationModels)
        ensures
            r.inflation_predictor@ == "inflation_lstm_model"@,
            r.demand_forecaster@ == "demand_prophet_model"@,
            r.reward_optimizer@ == "reward_genetic_algorithm"@,
            r.stability_analyzer@ == "stability_neural_network"@,
    {
        OptimizationModels {
            inflation_predictor: text("inflation_lstm_model"),
            demand_forecaster: text("demand_prophet_model"),
            reward_optimizer: text("reward_genetic_algorithm"),
            stability_analyzer: text("stability_neural_network"),
        }
    }
}

/// Reads the network's conditions.
#[derive(Debug)]
pub struct NetworkConditionAnalyzer;

impl NetworkConditionAnalyzer {
    /// The analyzer.
    pub fn new() -> (r: NetworkConditionAnalyzer) {
        NetworkConditionAnalyzer
    }
}

/// Which way demand is heading.
#[derive(Debug, Clone, Copy, PartialEq, Eq, Structural)]
pub enum TrendDirection {
    Growing,
    Stable,
    Declining,
}

/// How volatile the market is.
#[derive(Debug, Clone, Copy, PartialEq, Eq, Structural)]
pub enum VolatilityLevel {
    Low,
    Medium,
    High,
}

/// How congested the network is.
#[derive(Debug, Clone, Copy, PartialEq, Eq, Structural)]
pub enum CongestionLevel {
    Low,
    Medium,
    High,
}

} // verus!
