//! The boat's alarms: which are active, and the edge-triggered events that
//! announce a change.
use vstd::prelude::*;

verus! {

/// The alarms of the boat.
#[derive(Debug, Clone, Copy, PartialEq, Eq, Hash, Structural)]
pub enum AlertKind {
    BatteryLow,
    AirCritical,
    Cavitation,
    CriticalDepth,
}

/// The alarms in their fixed order.
pub open spec fn alert_kinds() -> Seq<AlertKind> {
    seq![AlertKind::BatteryLow, AlertKind::AirCritical, AlertKind::Cavitation, AlertKind::CriticalDepth]
}

/// The alarms in their fixed order.
pub fn alert_kinds_in_order() -> (r: [AlertKind; 4])
    ensures
        r@ == alert_kinds(),
{
    let r = [AlertKind::BatteryLow, AlertKind::AirCritical, AlertKind::Cavitation, AlertKind::CriticalDepth];
    assert(r@ =~= alert_kinds());
    r
}

/// An alarm going on or off.
#[derive(Debug, Clone, Copy, PartialEq, Eq, Structural)]
pub enum AlertEvent {
    Raised(AlertKind),
    Cleared(AlertKind),
}

/// The events for the change from `previous` to `current` flags (indexed as
/// `alert_kinds`): one per alarm that changed, in alarm order.
pub open spec fn transitions(previous: Seq<bool>, current: Seq<bool>) -> Seq<AlertEvent>
    decreases current.len(),
{
    if current.len() == 0 || previous.len() < current.len() {
        Seq::empty()
    } else {
        let k = current.len() - 1;
        let head = transitions(previous.take(k), current.take(k));
        if !previous[k] && current[k] {
            head.push(AlertEvent::Raised(alert_kinds()[k]))
        } else if previous[k] && !current[k] {
            head.push(AlertEvent::Cleared(alert_kinds()[k]))
        } else {
            head
        }
    }
}

/// The alarms set in `flags`, in alarm order.
pub open spec fn active_kinds(flags: Seq<bool>) -> Seq<AlertKind>
    decreases flags.len(),
{
    if flags.len() == 0 {
        Seq::empty()
    } else {
        let k = flags.len() - 1;
        let head = active_kinds(flags.take(k));
        if flags[k] {
            head.push(alert_kinds()[k])
        } else {
            head
        }
    }
}

/// Which alarms are currently on.
pub struct AlertMonitor {
    active: [bool; 4],
}

impl View for AlertMonitor {
    type V = Seq<bool>;

    closed spec fn view(&self) -> Seq<bool> {
        self.active@
    }
}

impl AlertMonitor {
    /// No alarm on.
    pub fn new() -> (r: Self)
        ensures
            r@ == seq![false, false, false, false],
    {
        let r = AlertMonitor { active: [false, false, false, false] };
        assert(r@ =~= seq![false, false, false, false]);
        r
    }

    /// Takes the alarms that hold now (indexed as `alert_kinds`) and returns
    /// the events for those that changed.
    pub fn update(&mut self, current: [bool; 4]) -> (r: Vec<AlertEvent>)
        ensures
            r@ == transitions(old(self)@, current@),
            final(self)@ == current@,
    {
        let kinds = alert_kinds_in_order();
        let mut events: Vec<AlertEvent> = Vec::new();
        let mut k: usize = 0;
        while k < 4
            invariant
                k <= 4,
                kinds@ == alert_kinds(),
                self.active@.len() == 4,
                current@.len() == 4,
                self.active@ == old(self).active@,
                events@ == transitions(self.active@.take(k as int), current@.take(k as int)),
            decreases 4 - k,
        {
            proof {
                assert(self.active@.take(k + 1).take(k as int) =~= self.active@.take(k as int));
                assert(current@.take(k + 1).take(k as int) =~= current@.take(k as int));
            }
            if !self.active[k] && current[k] {
                events.push(AlertEvent::Raised(kinds[k]));
            } else if self.active[k] && !current[k] {
                events.push(AlertEvent::Cleared(kinds[k]));
            }
            k = k + 1;
        }
        proof {
            assert(self.active@.take(4) =~= self.active@);
            assert(current@.take(4) =~= current@);
        }
        self.active = current;
        events
    }

    /// The alarms that are on, in alarm order.
    pub fn active_alerts(&self) -> (r: Vec<AlertKind>)
        ensures
            r@ == active_kinds(self@),
    {
        let kinds = alert_kinds_in_order();
        let mut out: Vec<AlertKind> = Vec::new();
        let mut k: usize = 0;
        while k < 4
            invariant
                k <= 4,
                kinds@ == alert_kinds(),
                self.active@.len() == 4,
                out@ == active_kinds(self.active@.take(k as int)),
            decreases 4 - k,
        {
            proof {
                assert(self.active@.take(k + 1).take(k as int) =~= self.active@.take(k as int));
            }
            if self.active[k] {
                out.push(kinds[k]);
            }
            k = k + 1;
        }
        proof {
            assert(self.active@.take(4) =~= self.active@);
        }
        out
    }
}

/// A monitor follows each of the four alarms.
pub proof fn lemma_monitor_has_four_alarms(m: &AlertMonitor)
    ensures
        m@.len() == 4,
{
}

/// What a monitor reports when it reads `current`: an alarm is announced
/// raised exactly when it was off and now holds, cleared exactly when it was
/// on and no longer holds, and nothing when nothing changed.
pub proof fn lemma_monitor_edges(m: &AlertMonitor, current: [bool; 4], kind: AlertKind)
    ensures
        transitions(m@, current@).contains(AlertEvent::Raised(kind))
            <==> exists|k: int| 0 <= k < 4 && alert_kinds()[k] == kind && !m@[k] && current@[k],
        transitions(m@, current@).contains(AlertEvent::Cleared(kind))
            <==> exists|k: int| 0 <= k < 4 && alert_kinds()[k] == kind && m@[k] && !current@[k],
        m@ == current@ ==> transitions(m@, current@) == Seq::<AlertEvent>::empty(),
{
    lemma_events_are_changes(m@, current@, kind);
    lemma_no_change_no_event(m@);
}

/// Alarms are edge-triggered: when nothing changed there is no event.
pub proof fn lemma_no_change_no_event(flags: Seq<bool>)
    ensures
        transitions(flags, flags) == Seq::<AlertEvent>::empty(),
    decreases flags.len(),
{
    if flags.len() > 0 {
        let k = flags.len() - 1;
        lemma_no_change_no_event(flags.take(k));
    }
}

/// An alarm is announced raised exactly when it goes from off to on, and
/// cleared exactly when it goes from on to off.
pub proof fn lemma_events_are_changes(previous: Seq<bool>, current: Seq<bool>, kind: AlertKind)
    requires
        previous.len() == current.len(),
        current.len() <= 4,
    ensures
        transitions(previous, current).contains(AlertEvent::Raised(kind))
            <==> exists|k: int| 0 <= k < current.len() && alert_kinds()[k] == kind && !previous[k] && current[k],
        transitions(previous, current).contains(AlertEvent::Cleared(kind))
            <==> exists|k: int| 0 <= k < current.len() && alert_kinds()[k] == kind && previous[k] && !current[k],
    decreases current.len(),
{
    if current.len() > 0 {
        let k = current.len() - 1;
        let p = previous.take(k);
        let c = current.take(k);
        lemma_events_are_changes(p, c, kind);
        let head = transitions(p, c);
        assert forall|x: int| 0 <= x < k implies p[x] == previous[x] && c[x] == current[x] by {}
        if exists|x: int| 0 <= x < current.len() && alert_kinds()[x] == kind && !previous[x] && current[x] {
            let x = choose|x: int| 0 <= x < current.len() && alert_kinds()[x] == kind && !previous[x] && current[x];
            if x < k {
                assert(alert_kinds()[x] == kind && !p[x] && c[x]);
            }
        }
        if exists|x: int| 0 <= x < current.len() && alert_kinds()[x] == kind && previous[x] && !current[x] {
            let x = choose|x: int| 0 <= x < current.len() && alert_kinds()[x] == kind && previous[x] && !current[x];
            if x < k {
                assert(alert_kinds()[x] == kind && p[x] && !c[x]);
            }
        }
        let t = transitions(previous, current);
        if t.contains(AlertEvent::Raised(kind)) {
            let i = choose|i: int| 0 <= i < t.len() && t[i] == AlertEvent::Raised(kind);
            if i < head.len() {
                assert(head[i] == t[i]);
                assert(head.contains(AlertEvent::Raised(kind)));
            }
        }
        if t.contains(AlertEvent::Cleared(kind)) {
            let i = choose|i: int| 0 <= i < t.len() && t[i] == AlertEvent::Cleared(kind);
            if i < head.len() {
                assert(head[i] == t[i]);
                assert(head.contains(AlertEvent::Cleared(kind)));
            }
        }
        if head.contains(AlertEvent::Raised(kind)) {
            let i = choose|i: int| 0 <= i < head.len() && head[i] == AlertEvent::Raised(kind);
            assert(t[i] == head[i]);
        }
        if head.contains(AlertEvent::Cleared(kind)) {
            let i = choose|i: int| 0 <= i < head.len() && head[i] == AlertEvent::Cleared(kind);
            assert(t[i] == head[i]);
        }
        if !previous[k] && current[k] && alert_kinds()[k] == kind {
            assert(t[t.len() - 1] == AlertEvent::Raised(kind));
        }
        if previous[k] && !current[k] && alert_kinds()[k] == kind {
            assert(t[t.len() - 1] == AlertEvent::Cleared(kind));
        }
    }
}

} // verus!
