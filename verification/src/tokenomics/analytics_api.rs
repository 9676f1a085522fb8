//! The analytics API's settings, the insight summaries it serves, and its
//! summary of the active alerts.
use vstd::prelude::*;
use crate::tokenomics::network_analytics::{Alert, AlertSeverity, InsightCategory, InsightSeverity};

verus! {

/// An insight as the API reports it.
#[derive(Debug)]
pub struct InsightSummary {
    pub category: InsightCategory,
    pub severity: InsightSeverity,
    pub message: String,
    pub recommendation: String,
}

/// Where and how the API listens.
#[derive(Debug)]
pub struct APIConfig {
    pub port: u16,
    pub host: String,
    pub enable_cors: bool,
    pub rate_limit_requests_per_minute: u32,
}


/// An alert as the API reports it.
#[derive(Debug)]
pub struct AlertSummary {
    pub id: u128,
    pub message: String,
    pub severity: AlertSeverity,
    /// Unix time in seconds.
    pub timestamp: i64,
    pub acknowledged: bool,
}

/// The active alerts, counted by severity.
#[derive(Debug)]
pub struct AlertsResponse {
    pub total_alerts: usize,
    pub critical_alerts: usize,
    pub warning_alerts: usize,
    pub info_alerts: usize,
    pub alerts: Vec<AlertSummary>,
}

/// How many of some alerts have a severity.
pub open spec fn severity_count(s: Seq<Alert>, severity: AlertSeverity) -> int
    decreases s.len(),
{
    if s.len() == 0 {
        0
    } else {
        severity_count(s.drop_last(), severity) + (if s.last().severity == severity {
            1int
        } else {
            0int
        })
    }
}

/// Whether a summary reports an alert.
pub open spec fn summarizes(summary: AlertSummary, alert: Alert) -> bool {
    &&& summary.id == alert.id
    &&& summary.message == alert.message
    &&& summary.severity == alert.severity
    &&& summary.timestamp == alert.timestamp
    &&& summary.acknowledged == alert.acknowledged
}

/// The API's report of a list of alerts: how many there are, how many of
/// each severity, and a summary of each, in order.
pub fn alerts_response(alerts: Vec<Alert>) -> (r: AlertsResponse)
    ensures
        r.total_alerts == alerts@.len(),
        r.critical_alerts == severity_count(alerts@, AlertSeverity::Critical),
        r.warning_alerts == severity_count(alerts@, AlertSeverity::Warning),
        r.info_alerts == severity_count(alerts@, AlertSeverity::Info),
        r.critical_alerts + r.warning_alerts + r.info_alerts == r.total_alerts,
        r.alerts@.len() == alerts@.len(),
        forall|i: int| 0 <= i < alerts@.len() ==> #[trigger] summarizes(r.alerts@[i], alerts@[i]),
{
    let ghost all = alerts@;
    let n = alerts.len();
    let mut critical: usize = 0;
    let mut warning: usize = 0;
    let mut info: usize = 0;
    let mut summaries: Vec<AlertSummary> = Vec::new();
    let mut rest = alerts;
    let mut i: usize = 0;
    while i < n
        invariant
            n == all.len(),
            i <= n,
            rest@ == all.skip(i as int),
            critical == severity_count(all.take(i as int), AlertSeverity::Critical),
            warning == severity_count(all.take(i as int), AlertSeverity::Warning),
            info == severity_count(all.take(i as int), AlertSeverity::Info),
            critical + warning + info == i,
            summaries@.len() == i,
            forall|k: int| 0 <= k < i ==> #[trigger] summarizes(summaries@[k], all[k]),
        decreases n - i,
    {
        proof {
            assert(all.take(i as int + 1).drop_last() =~= all.take(i as int));
            assert(rest@[0] == all[i as int]);
        }
        let a = rest.remove(0);
        proof {
            assert(rest@ =~= all.skip(i as int + 1));
        }
        match a.severity {
            AlertSeverity::Critical => {
                critical = critical + 1;
            },
            AlertSeverity::Warning => {
                warning = warning + 1;
            },
            AlertSeverity::Info => {
                info = info + 1;
            },
        }
        summaries.push(
            AlertSummary {
                id: a.id,
                message: a.message,
                severity: a.severity,
                timestamp: a.timestamp,
                acknowledged: a.acknowledged,
            },
        );
        i = i + 1;
    }
    proof {
        assert(all.take(n as int) =~= all);
    }
    AlertsResponse {
        total_alerts: n,
        critical_alerts: critical,
        warning_alerts: warning,
        info_alerts: info,
        alerts: summaries,
    }
}

} // verus!
