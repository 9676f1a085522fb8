//! The analytics dashboard: alert severities, reporting time frames,
//! trends, insights and how long data is kept; the alert system's rules,
//! active alerts and bounded history; and the bounded log of contribution
//! events.
use vstd::prelude::*;
use crate::address::Address;
use crate::sys::{new_uuid, now_unix_seconds};
use crate::text::{push_text, text};
use crate::tokenomics::ContributionType;

verus! {

/// How serious an alert is.
#[derive(Debug, Clone, Copy, PartialEq, Eq, Structural)]
pub enum AlertSeverity {
    Info,
    Warning,
    Critical,
}

/// The period a report covers.
#[derive(Debug, Clone, Copy, PartialEq, Eq, Structural)]
pub enum TimeFrame {
    LastHour,
    LastDay,
    LastWeek,
    LastMonth,
}

/// Which way a metric moves.
#[derive(Debug, Clone, Copy, PartialEq, Eq, Structural)]
pub enum TrendDirection {
    Increasing,
    Decreasing,
    Stable,
}

/// What an insight is about.
#[derive(Debug, Clone, Copy, PartialEq, Eq, Structural)]
pub enum InsightCategory {
    Tokenomics,
    Performance,
    Governance,
    Security,
    Stability,
}

/// How serious an insight is.
#[derive(Debug, Clone, Copy, PartialEq, Eq, Structural)]
pub enum InsightSeverity {
    Info,
    Warning,
    Critical,
}

/// An observation about the network with a recommendation.
#[derive(Debug)]
pub struct NetworkInsight {
    pub category: InsightCategory,
    pub severity: InsightSeverity,
    pub message: String,
    pub recommendation: String,
}

/// What the token supply's trend says: growth is noted with a reminder to
/// watch inflation, shrinkage is a warning of deflationary pressure, and a
/// stable supply says nothing.
pub fn supply_trend_insight(trend: TrendDirection) -> (r: Option<NetworkInsight>)
    ensures
        trend == TrendDirection::Stable ==> r is None,
        trend == TrendDirection::Increasing ==> (r matches Some(i) && i.category == InsightCategory::Tokenomics
            && i.severity == InsightSeverity::Info && i.message@
            == "Token supply is increasing, indicating network growth"@ && i.recommendation@
            == "Monitor inflation rate to ensure sustainability"@),
        trend == TrendDirection::Decreasing ==> (r matches Some(i) && i.category == InsightCategory::Tokenomics
            && i.severity == InsightSeverity::Warning && i.message@
            == "Token supply is decreasing, potential deflationary pressure"@ && i.recommendation@
            == "Consider adjusting burn rate or increasing rewards"@),
{
    match trend {
        TrendDirection::Increasing => Some(
            NetworkInsight {
                category: InsightCategory::Tokenomics,
                severity: InsightSeverity::Info,
                message: text("Token supply is increasing, indicating network growth"),
                recommendation: text("Monitor inflation rate to ensure sustainability"),
            },
        ),
        TrendDirection::Decreasing => Some(
            NetworkInsight {
                category: InsightCategory::Tokenomics,
                severity: InsightSeverity::Warning,
                message: text("Token supply is decreasing, potential deflationary pressure"),
                recommendation: text("Consider adjusting burn rate or increasing rewards"),
            },
        ),
        TrendDirection::Stable => None,
    }
}

/// Whether some insight is a warning or worse.
pub open spec fn has_warning(insights: Seq<NetworkInsight>) -> bool {
    exists|i: int|
        0 <= i < insights.len() && (#[trigger] insights[i]).severity != InsightSeverity::Info
}

/// Whether some insight is about tokenomics.
pub open spec fn has_tokenomics_issue(insights: Seq<NetworkInsight>) -> bool {
    exists|i: int|
        0 <= i < insights.len() && (#[trigger] insights[i]).category == InsightCategory::Tokenomics
}

/// The recommendations a report closes with: a look at the health
/// indicators when some insight warns, an analysis of the tokenomics when
/// some insight is about them, and always continued monitoring.
pub open spec fn recommendations_for(insights: Seq<NetworkInsight>) -> Seq<Seq<char>> {
    (if has_warning(insights) {
        seq!["Review network health indicators and consider parameter adjustments"@]
    } else {
        Seq::<Seq<char>>::empty()
    }) + (if has_tokenomics_issue(insights) {
        seq!["Analyze tokenomics parameters and consider optimization"@]
    } else {
        Seq::<Seq<char>>::empty()
    }) + seq!["Continue monitoring network metrics for emerging trends"@]
}

/// The recommendations that follow from a report's insights.
pub fn generate_recommendations(insights: &[NetworkInsight]) -> (r: Vec<String>)
    ensures
        r@.len() == recommendations_for(insights@).len(),
        forall|i: int| 0 <= i < r@.len() ==> #[trigger] r@[i]@ == recommendations_for(insights@)[i],
{
    let n = insights.len();
    let mut warning = false;
    let mut tokenomics = false;
    let mut i: usize = 0;
    while i < n
        invariant
            n == insights@.len(),
            i <= n,
            warning <==> exists|j: int| 0 <= j < i && (#[trigger] insights@[j]).severity != InsightSeverity::Info,
            tokenomics <==> exists|j: int|
                0 <= j < i && (#[trigger] insights@[j]).category == InsightCategory::Tokenomics,
        decreases n - i,
    {
        match insights[i].severity {
            InsightSeverity::Info => {},
            _ => {
                warning = true;
            },
        }
        match insights[i].category {
            InsightCategory::Tokenomics => {
                tokenomics = true;
            },
            _ => {},
        }
        i = i + 1;
    }
    let mut out: Vec<String> = Vec::new();
    if warning {
        out.push(text("Review network health indicators and consider parameter adjustments"));
    }
    let ghost after_warning = out@;
    if tokenomics {
        out.push(text("Analyze tokenomics parameters and consider optimization"));
    }
    let ghost after_tokenomics = out@;
    out.push(text("Continue monitoring network metrics for emerging trends"));
    proof {
        let want = recommendations_for(insights@);
        assert forall|k: int| 0 <= k < out@.len() implies #[trigger] out@[k]@ == want[k] by {
            if k < after_warning.len() {
                assert(out@[k] == after_warning[k]);
            } else if k < after_tokenomics.len() {
                assert(out@[k] == after_tokenomics[k]);
            }
        }
    }
    out
}

/// How long collected data is kept.
#[derive(Debug, Clone, Copy, PartialEq, Eq)]
pub struct RetentionPolicy {
    pub days_to_keep: u32,
    pub max_data_points: usize,
}

impl Default for RetentionPolicy {
    /// Thirty days of data, at most ten thousand points.
    fn default() -> (r: Self)
        ensures
            r.days_to_keep == 30,
            r.max_data_points == 10000,
    {
        RetentionPolicy { days_to_keep: 30, max_data_points: 10000 }
    }
}

/// How many seconds back a time frame reaches: an hour, a day, a week or
/// thirty days.
pub open spec fn timeframe_secs(timeframe: TimeFrame) -> int {
    match timeframe {
        TimeFrame::LastHour => 3600,
        TimeFrame::LastDay => 86400,
        TimeFrame::LastWeek => 604800,
        TimeFrame::LastMonth => 2592000,
    }
}

/// How many seconds back a time frame reaches.
pub fn timeframe_seconds(timeframe: TimeFrame) -> (r: i64)
    ensures
        r == timeframe_secs(timeframe),
{
    match timeframe {
        TimeFrame::LastHour => 3600,
        TimeFrame::LastDay => 86400,
        TimeFrame::LastWeek => 604800,
        TimeFrame::LastMonth => 2592000,
    }
}

/// How many of the oldest points, kept oldest first, fall before the
/// cutoff and leave the history: the history is trimmed from its front
/// while the front point is older than the cutoff.
pub fn expired_prefix_len(timestamps: &[i64], cutoff: i64) -> (r: usize)
    ensures
        r <= timestamps@.len(),
        forall|i: int| 0 <= i < r ==> #[trigger] timestamps@[i] < cutoff,
        r < timestamps@.len() ==> timestamps@[r as int] >= cutoff,
{
    let n = timestamps.len();
    let mut i: usize = 0;
    while i < n && timestamps[i] < cutoff
        invariant
            n == timestamps@.len(),
            i <= n,
            forall|j: int| 0 <= j < i ==> #[trigger] timestamps@[j] < cutoff,
        decreases n - i,
    {
        i = i + 1;
    }
    i
}

/// The positions, in order, of the points at or after the cutoff.
pub open spec fn positions_since(timestamps: Seq<i64>, cutoff: i64) -> Seq<usize>
    decreases timestamps.len(),
{
    if timestamps.len() == 0 {
        Seq::empty()
    } else if timestamps.last() >= cutoff {
        positions_since(timestamps.drop_last(), cutoff).push((timestamps.len() - 1) as usize)
    } else {
        positions_since(timestamps.drop_last(), cutoff)
    }
}

/// The positions of the points at or after the cutoff: what a report over
/// a time frame covers.
pub fn points_since(timestamps: &[i64], cutoff: i64) -> (r: Vec<usize>)
    ensures
        r@ == positions_since(timestamps@, cutoff),
{
    let n = timestamps.len();
    let mut out: Vec<usize> = Vec::new();
    let mut i: usize = 0;
    while i < n
        invariant
            n == timestamps@.len(),
            i <= n,
            out@ == positions_since(timestamps@.take(i as int), cutoff),
        decreases n - i,
    {
        proof {
            let t = timestamps@.take(i as int + 1);
            assert(t.drop_last() =~= timestamps@.take(i as int));
            assert(t.last() == timestamps@[i as int]);
        }
        if timestamps[i] >= cutoff {
            out.push(i);
        }
        i = i + 1;
    }
    proof {
        assert(timestamps@.take(n as int) =~= timestamps@);
    }
    out
}


/// A rule that raises an alert when its condition on the network holds.
#[derive(Debug)]
pub struct AlertRule {
    pub id: u128,
    pub name: String,
    pub severity: AlertSeverity,
    pub enabled: bool,
}

/// An alert raised by a rule.
#[derive(Debug)]
pub struct Alert {
    pub id: u128,
    pub rule_id: u128,
    pub message: String,
    pub severity: AlertSeverity,
    /// Unix time in seconds.
    pub timestamp: i64,
    pub acknowledged: bool,
}

impl Alert {
    /// A copy of the alert.
    pub fn duplicate(&self) -> (r: Alert)
        ensures
            r == *self,
    {
        Alert {
            id: self.id,
            rule_id: self.rule_id,
            message: self.message.clone(),
            severity: self.severity,
            timestamp: self.timestamp,
            acknowledged: self.acknowledged,
        }
    }
}

/// The most alerts the history keeps.
pub const MAX_ALERT_HISTORY: usize = 1000;

/// The names and severities of the rules the alert system starts with.
pub open spec fn default_rules() -> Seq<(Seq<char>, AlertSeverity)> {
    seq![
        ("High Error Rate"@, AlertSeverity::Warning),
        ("Low Uptime"@, AlertSeverity::Critical),
        ("High Inflation"@, AlertSeverity::Warning),
        ("Low Participation"@, AlertSeverity::Info),
    ]
}

/// Whether `a` is the alert raised by rule `rule`: it names the rule, says
/// "Alert: " and the rule's name, has its severity and is not acknowledged.
pub open spec fn raised_by(a: Alert, rule: AlertRule) -> bool {
    &&& a.rule_id == rule.id
    &&& a.message@ == "Alert: "@ + rule.name@
    &&& a.severity == rule.severity
    &&& !a.acknowledged
}

/// The positions of the enabled rules whose condition holds, in order.
pub open spec fn fired(rules: Seq<AlertRule>, triggered: Seq<bool>) -> Seq<int>
    decreases rules.len(),
{
    if rules.len() == 0 {
        Seq::empty()
    } else {
        let rest = fired(rules.drop_last(), triggered);
        let i = rules.len() - 1;
        if rules[i].enabled && triggered[i] {
            rest.push(i)
        } else {
            rest
        }
    }
}

/// The last `MAX_ALERT_HISTORY` alerts of a sequence (all of them when
/// there are fewer).
pub open spec fn newest_alerts(s: Seq<Alert>) -> Seq<Alert> {
    if s.len() > MAX_ALERT_HISTORY {
        s.skip(s.len() - MAX_ALERT_HISTORY)
    } else {
        s
    }
}

/// Raises alerts from rules, keeps the active ones and a bounded history.
#[derive(Debug)]
pub struct AlertSystem {
    alert_rules: Vec<AlertRule>,
    active_alerts: Vec<Alert>,
    alert_history: Vec<Alert>,
}

impl AlertSystem {
    /// The rules, in order.
    pub closed spec fn rules(self) -> Seq<AlertRule> {
        self.alert_rules@
    }

    /// The active alerts, oldest first.
    pub closed spec fn active(self) -> Seq<Alert> {
        self.active_alerts@
    }

    /// The alerts raised, oldest first, at most `MAX_ALERT_HISTORY`.
    pub closed spec fn history(self) -> Seq<Alert> {
        self.alert_history@
    }

    /// The history stays within its bound.
    pub closed spec fn wf(self) -> bool {
        self.alert_history@.len() <= MAX_ALERT_HISTORY
    }

    /// No rules and no alerts.
    pub fn new() -> (r: AlertSystem)
        ensures
            r.wf(),
            r.rules() == Seq::<AlertRule>::empty(),
            r.active() == Seq::<Alert>::empty(),
            r.history() == Seq::<Alert>::empty(),
    {
        AlertSystem { alert_rules: Vec::new(), active_alerts: Vec::new(), alert_history: Vec::new() }
    }

    /// Replaces the rules with the four default rules, all enabled, each
    /// under a fresh id.
    pub fn initialize(&mut self)
        requires
            old(self).wf(),
        ensures
            final(self).wf(),
            final(self).rules().len() == default_rules().len(),
            forall|i: int|
                0 <= i < final(self).rules().len() ==> (#[trigger] final(self).rules()[i]).name@ == default_rules()[i].0
                    && final(self).rules()[i].severity == default_rules()[i].1 && final(self).rules()[i].enabled,
            final(self).active() == old(self).active(),
            final(self).history() == old(self).history(),
    {
        let mut rules: Vec<AlertRule> = Vec::new();
        rules.push(
            AlertRule { id: new_uuid(), name: text("High Error Rate"), severity: AlertSeverity::Warning, enabled: true },
        );
        rules.push(AlertRule { id: new_uuid(), name: text("Low Uptime"), severity: AlertSeverity::Critical, enabled: true });
        rules.push(
            AlertRule { id: new_uuid(), name: text("High Inflation"), severity: AlertSeverity::Warning, enabled: true },
        );
        rules.push(
            AlertRule { id: new_uuid(), name: text("Low Participation"), severity: AlertSeverity::Info, enabled: true },
        );
        self.alert_rules = rules;
        proof {
            reveal_strlit("High Error Rate");
            reveal_strlit("Low Uptime");
            reveal_strlit("High Inflation");
            reveal_strlit("Low Participation");
        }
    }

    /// Raises an alert, stamped now and under a fresh id, for each enabled
    /// rule whose condition holds (`triggered`, one verdict per rule, in
    /// rule order); the new alerts join the active alerts and the history,
    /// which then keeps its newest thousand.
    pub fn raise_alerts(&mut self, triggered: &[bool])
        requires
            old(self).wf(),
            triggered@.len() == old(self).rules().len(),
        ensures
            final(self).wf(),
            final(self).rules() == old(self).rules(),
            ({
                let f = fired(old(self).rules(), triggered@);
                let added = final(self).active().skip(old(self).active().len() as int);
                &&& final(self).active().len() == old(self).active().len() + f.len()
                &&& final(self).active().take(old(self).active().len() as int) == old(self).active()
                &&& forall|k: int| 0 <= k < f.len() ==> #[trigger] raised_by(added[k], old(self).rules()[f[k]])
                &&& final(self).history() == newest_alerts(old(self).history() + added)
            }),
    {
        let ghost rules = self.alert_rules@;
        let ghost active0 = self.active_alerts@;
        let mut new_alerts: Vec<Alert> = Vec::new();
        let n = self.alert_rules.len();
        let mut i: usize = 0;
        while i < n
            invariant
                n == rules.len(),
                rules == self.alert_rules@,
                triggered@.len() == n,
                i <= n,
                new_alerts@.len() == fired(rules.take(i as int), triggered@).len(),
                forall|k: int|
                    0 <= k < new_alerts@.len() ==> #[trigger] raised_by(
                        new_alerts@[k],
                        rules[fired(rules.take(i as int), triggered@)[k]],
                    ),
                forall|k: int|
                    0 <= k < fired(rules.take(i as int), triggered@).len() ==> 0 <= #[trigger] fired(
                        rules.take(i as int),
                        triggered@,
                    )[k] < i,
            decreases n - i,
        {
            proof {
                assert(rules.take(i as int + 1).drop_last() =~= rules.take(i as int));
                assert(rules.take(i as int + 1)[i as int] == rules[i as int]);
            }
            let rule = &self.alert_rules[i];
            if rule.enabled && triggered[i] {
                let mut message = text("Alert: ");
                push_text(&mut message, rule.name.as_str());
                proof {
                    reveal_strlit("Alert: ");
                }
                new_alerts.push(
                    Alert {
                        id: new_uuid(),
                        rule_id: rule.id,
                        message,
                        severity: rule.severity,
                        timestamp: now_unix_seconds(),
                        acknowledged: false,
                    },
                );
            }
            i = i + 1;
        }
        proof {
            assert(rules.take(n as int) =~= rules);
        }
        let ghost added = new_alerts@;
        let ghost history0 = self.alert_history@;
        let m = new_alerts.len();
        let mut j: usize = 0;
        while j < m
            invariant
                m == added.len(),
                new_alerts@ == added,
                self.alert_rules@ == rules,
                j <= m,
                self.active_alerts@ == active0 + added.take(j as int),
                self.alert_history@ == history0 + added.take(j as int),
            decreases m - j,
        {
            self.active_alerts.push(new_alerts[j].duplicate());
            self.alert_history.push(new_alerts[j].duplicate());
            j = j + 1;
            proof {
                assert(self.active_alerts@ =~= active0 + added.take(j as int));
                assert(self.alert_history@ =~= history0 + added.take(j as int));
            }
        }
        proof {
            assert(added.take(m as int) =~= added);
            assert(self.active_alerts@.skip(active0.len() as int) =~= added);
            assert(self.active_alerts@.take(active0.len() as int) =~= active0);
        }
        let ghost full = self.alert_history@;
        while self.alert_history.len() > MAX_ALERT_HISTORY
            invariant
                self.alert_rules@ == rules,
                self.active_alerts@ == active0 + added,
                full.len() >= self.alert_history@.len(),
                self.alert_history@ == full.skip(full.len() - self.alert_history@.len()),
                full.len() > MAX_ALERT_HISTORY ==> self.alert_history@.len() >= MAX_ALERT_HISTORY,
                full.len() <= MAX_ALERT_HISTORY ==> self.alert_history@ == full,
            decreases self.alert_history@.len(),
        {
            let ghost before = self.alert_history@;
            self.alert_history.remove(0);
            proof {
                assert(self.alert_history@ =~= full.skip(full.len() - self.alert_history@.len()));
            }
        }
        proof {
            if full.len() > MAX_ALERT_HISTORY {
                assert(self.alert_history@ =~= newest_alerts(full));
            } else {
                assert(full.skip(0) =~= full);
            }
        }
    }

    /// Copies of the active alerts, oldest first.
    pub fn get_active_alerts(&self) -> (r: Vec<Alert>)
        ensures
            r@ == self.active(),
    {
        let mut r: Vec<Alert> = Vec::new();
        let n = self.active_alerts.len();
        let mut i: usize = 0;
        while i < n
            invariant
                n == self.active_alerts@.len(),
                i <= n,
                r@ == self.active_alerts@.take(i as int),
            decreases n - i,
        {
            r.push(self.active_alerts[i].duplicate());
            i = i + 1;
            proof {
                assert(r@ =~= self.active_alerts@.take(i as int));
            }
        }
        proof {
            assert(self.active_alerts@.take(n as int) =~= self.active_alerts@);
        }
        r
    }

    /// Marks the first active alert with this id acknowledged; nothing
    /// happens when there is none.
    pub fn acknowledge_alert(&mut self, alert_id: u128)
        ensures
            final(self).rules() == old(self).rules(),
            final(self).history() == old(self).history(),
            final(self).active().len() == old(self).active().len(),
            (forall|i: int| 0 <= i < old(self).active().len() ==> old(self).active()[i].id != alert_id)
                ==> final(self).active() == old(self).active(),
            forall|i: int|
                0 <= i < old(self).active().len() && old(self).active()[i].id == alert_id && (forall|j: int|
                    0 <= j < i ==> old(self).active()[j].id != alert_id) ==> final(self).active() == old(
                    self,
                ).active().update(i, Alert { acknowledged: true, ..old(self).active()[i] }),
    {
        let n = self.active_alerts.len();
        let mut i: usize = 0;
        while i < n
            invariant
                n == self.active_alerts@.len(),
                self.active_alerts@ == old(self).active_alerts@,
                self.alert_rules@ == old(self).alert_rules@,
                self.alert_history@ == old(self).alert_history@,
                i <= n,
                forall|j: int| 0 <= j < i ==> self.active_alerts@[j].id != alert_id,
            decreases n - i,
        {
            if self.active_alerts[i].id == alert_id {
                let a = self.active_alerts[i].duplicate();
                self.active_alerts.set(i, Alert { acknowledged: true, ..a });
                return;
            }
            i = i + 1;
        }
    }

    /// The rules, in order.
    pub fn get_alert_rules(&self) -> (r: &[AlertRule])
        ensures
            r@ == self.rules(),
    {
        self.alert_rules.as_slice()
    }
}

/// A contribution as the dashboard records it.
#[derive(Debug, Clone, Copy)]
pub struct ContributionEvent {
    pub id: u128,
    pub contributor: Address,
    pub contribution_type: ContributionType,
    pub value: u64,
    /// Unix time in seconds.
    pub timestamp: i64,
}

/// The most contribution events the collector keeps.
pub const MAX_CONTRIBUTION_EVENTS: usize = 500;

/// The events after one more: appended, and the oldest dropped when there
/// are more than the bound.
pub open spec fn events_after(s: Seq<ContributionEvent>, e: ContributionEvent) -> Seq<ContributionEvent> {
    if s.len() + 1 > MAX_CONTRIBUTION_EVENTS {
        s.push(e).drop_first()
    } else {
        s.push(e)
    }
}

/// Collects the network's contribution events.
#[derive(Debug)]
pub struct MetricsCollector {
    contribution_events: Vec<ContributionEvent>,
}

impl MetricsCollector {
    /// The events, oldest first.
    pub closed spec fn events(self) -> Seq<ContributionEvent> {
        self.contribution_events@
    }

    /// No events yet.
    pub fn new() -> (r: MetricsCollector)
        ensures
            r.events() == Seq::<ContributionEvent>::empty(),
    {
        MetricsCollector { contribution_events: Vec::new() }
    }

    /// Records a contribution of some value, stamped now under a fresh id;
    /// the oldest event is dropped once there are more than 500.
    pub fn record_contribution(&mut self, contributor: &Address, contribution_type: ContributionType, value: u64)
        ensures
            exists|id: u128, timestamp: i64|
                final(self).events() == #[trigger] events_after(
                    old(self).events(),
                    (ContributionEvent { id, contributor: *contributor, contribution_type, value, timestamp }),
                ),
    {
        let event = ContributionEvent {
            id: new_uuid(),
            contributor: *contributor,
            contribution_type,
            value,
            timestamp: now_unix_seconds(),
        };
        let ghost grown = self.contribution_events@.push(event);
        self.contribution_events.push(event);
        if self.contribution_events.len() > MAX_CONTRIBUTION_EVENTS {
            self.contribution_events.remove(0);
            proof {
                assert(self.contribution_events@ =~= grown.drop_first());
            }
        }
        assert(self.contribution_events@ == events_after(old(self).events(), event));
    }

    /// The events, oldest first.
    pub fn get_contribution_events(&self) -> (r: &[ContributionEvent])
        ensures
            r@ == self.events(),
    {
        self.contribution_events.as_slice()
    }
}

} // verus!
