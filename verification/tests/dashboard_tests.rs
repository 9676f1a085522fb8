use paradigm_core::tokenomics::network_analytics::{
    expired_prefix_len, generate_recommendations, points_since, supply_trend_insight, timeframe_seconds,
    InsightCategory, InsightSeverity, NetworkInsight, RetentionPolicy, TimeFrame, TrendDirection,
};

fn insight(category: InsightCategory, severity: InsightSeverity) -> NetworkInsight {
    NetworkInsight { category, severity, message: String::new(), recommendation: String::new() }
}

#[test]
fn retention_defaults_to_thirty_days() {
    let policy = RetentionPolicy::default();
    assert_eq!(policy.days_to_keep, 30);
    assert_eq!(policy.max_data_points, 10000);
}

#[test]
fn time_frames_in_seconds() {
    assert_eq!(timeframe_seconds(TimeFrame::LastHour), 3600);
    assert_eq!(timeframe_seconds(TimeFrame::LastDay), 86400);
    assert_eq!(timeframe_seconds(TimeFrame::LastWeek), 604800);
    assert_eq!(timeframe_seconds(TimeFrame::LastMonth), 2592000);
}

#[test]
fn history_is_trimmed_from_the_front_only() {
    assert_eq!(expired_prefix_len(&[1, 2, 10, 3, 20], 5), 2);
    assert_eq!(expired_prefix_len(&[10, 1, 2], 5), 0);
    assert_eq!(expired_prefix_len(&[1, 2, 3], 5), 3);
    assert_eq!(expired_prefix_len(&[], 5), 0);
}

#[test]
fn reports_cover_the_points_at_or_after_the_cutoff() {
    assert_eq!(points_since(&[1, 5, 3, 9, 5], 5), vec![1, 3, 4]);
    assert!(points_since(&[1, 2], 5).is_empty());
}

#[test]
fn supply_trend_insights() {
    let up = supply_trend_insight(TrendDirection::Increasing).unwrap();
    assert_eq!(up.severity, InsightSeverity::Info);
    assert_eq!(up.category, InsightCategory::Tokenomics);
    assert_eq!(up.message, "Token supply is increasing, indicating network growth");
    let down = supply_trend_insight(TrendDirection::Decreasing).unwrap();
    assert_eq!(down.severity, InsightSeverity::Warning);
    assert_eq!(down.recommendation, "Consider adjusting burn rate or increasing rewards");
    assert!(supply_trend_insight(TrendDirection::Stable).is_none());
}

#[test]
fn recommendations_follow_the_insights() {
    assert_eq!(
        generate_recommendations(&[]),
        vec!["Continue monitoring network metrics for emerging trends".to_string()]
    );
    assert_eq!(
        generate_recommendations(&[insight(InsightCategory::Tokenomics, InsightSeverity::Warning)]),
        vec![
            "Review network health indicators and consider parameter adjustments".to_string(),
            "Analyze tokenomics parameters and consider optimization".to_string(),
            "Continue monitoring network metrics for emerging trends".to_string(),
        ]
    );
    assert_eq!(
        generate_recommendations(&[
            insight(InsightCategory::Stability, InsightSeverity::Critical),
            insight(InsightCategory::Performance, InsightSeverity::Info),
        ]),
        vec![
            "Review network health indicators and consider parameter adjustments".to_string(),
            "Continue monitoring network metrics for emerging trends".to_string(),
        ]
    );
    assert_eq!(
        generate_recommendations(&[insight(InsightCategory::Tokenomics, InsightSeverity::Info)]).len(),
        2
    );
}
