//! Decisions taken by the polling loops: where the viewline comes from, when
//! the alert flag changes, and which SWPC alerts are new.
use vstd::prelude::*;
use vstd::hash_set::StringHashSet;

verus! {

/// Where a poll cycle takes the viewline from.
#[derive(Clone, Copy, Debug, PartialEq, Eq, Structural)]
pub enum ViewlineSource {
    /// The boundary found in the OVATION probabilities.
    Ovation,
    /// The Kp-based circle, computed from the latest Kp reading, because the
    /// OVATION data gave no boundary.
    KpFallback,
    /// Neither: no boundary and no Kp reading yet.
    Unavailable,
}

pub open spec fn viewline_source_for(ovation_points: nat, latest_kp_known: bool) -> ViewlineSource {
    if ovation_points > 0 {
        ViewlineSource::Ovation
    } else if latest_kp_known {
        ViewlineSource::KpFallback
    } else {
        ViewlineSource::Unavailable
    }
}

/// Chooses the viewline's source from the number of points the OVATION data
/// gave and whether a Kp reading is at hand.
pub fn choose_viewline_source(ovation_points: usize, latest_kp_known: bool) -> (s: ViewlineSource)
    ensures
        s == viewline_source_for(ovation_points as nat, latest_kp_known),
{
    if ovation_points > 0 {
        ViewlineSource::Ovation
    } else if latest_kp_known {
        ViewlineSource::KpFallback
    } else {
        ViewlineSource::Unavailable
    }
}

/// The alert flag after a poll cycle: when the cycle produced a viewline, it
/// says whether the aurora is visible at the configured location; otherwise
/// it keeps its value.
pub open spec fn alert_flag_after(prev: bool, viewline_points: nat, visible: bool) -> bool {
    if viewline_points > 0 {
        visible
    } else {
        prev
    }
}

/// What an OVATION poll cycle does once its viewline and the visibility at
/// the configured location are known.
#[derive(Clone, Copy, Debug, PartialEq, Eq, Structural)]
pub struct OvationPlan {
    /// Raise an aurora-visible alert through the notifiers.
    pub notify: bool,
    /// Store a snapshot of the viewline, broadcast it and cache it.
    pub publish_viewline: bool,
    /// The alert flag after the cycle.
    pub alert_active: bool,
}

pub open spec fn ovation_plan_of(prev_alert_active: bool, viewline_points: nat, visible: bool) -> OvationPlan {
    OvationPlan {
        notify: viewline_points > 0 && visible,
        publish_viewline: viewline_points > 0,
        alert_active: alert_flag_after(prev_alert_active, viewline_points, visible),
    }
}

/// Plans the rest of an OVATION poll cycle: with a viewline, notify when the
/// aurora is visible, set the alert flag to the visibility and publish the
/// viewline; without one, do neither and keep the flag. Whatever the plan,
/// the cycle then records the poll time and broadcasts the OVATION data and
/// the status.
pub fn plan_ovation_cycle(prev_alert_active: bool, viewline_points: usize, visible: bool) -> (plan: OvationPlan)
    ensures
        plan == ovation_plan_of(prev_alert_active, viewline_points as nat, visible),
{
    let has_viewline = viewline_points > 0;
    OvationPlan {
        notify: has_viewline && visible,
        publish_viewline: has_viewline,
        alert_active: if has_viewline {
            visible
        } else {
            prev_alert_active
        },
    }
}

/// Whether the alert is stored after the notifiers were asked: exactly when
/// they answered (the cooldown did not hold the alert back), even if no
/// channel got it through.
pub fn store_alert_after_notify(answer: &Option<Vec<String>>) -> (store: bool)
    ensures
        store == answer is Some,
{
    answer.is_some()
}

/// Law: a cycle that produced no viewline neither notifies nor publishes, and
/// leaves the alert flag as it was.
pub proof fn lemma_cycle_without_viewline_changes_nothing(prev_alert_active: bool, visible: bool)
    ensures
        ovation_plan_of(prev_alert_active, 0, visible) == (OvationPlan {
            notify: false,
            publish_viewline: false,
            alert_active: prev_alert_active,
        }),
{
}

/// Law: in a cycle that produced a viewline, the alert is raised and the
/// flag set exactly when the aurora is visible, whatever the flag was before,
/// and the viewline is published.
pub proof fn lemma_cycle_with_viewline_follows_visibility(
    prev_alert_active: bool,
    viewline_points: nat,
    visible: bool,
)
    requires
        viewline_points > 0,
    ensures
        ovation_plan_of(prev_alert_active, viewline_points, visible).notify == visible,
        ovation_plan_of(prev_alert_active, viewline_points, visible).alert_active == visible,
        ovation_plan_of(prev_alert_active, viewline_points, visible).publish_viewline,
{
}

/// Law: the alert flag is raised after a cycle exactly when that cycle notifies.
pub proof fn lemma_flag_raised_with_notification(prev_alert_active: bool, viewline_points: nat, visible: bool)
    requires
        viewline_points > 0,
    ensures
        ovation_plan_of(prev_alert_active, viewline_points, visible).alert_active
            == ovation_plan_of(prev_alert_active, viewline_points, visible).notify,
{
}

/// An alert product published by NOAA's Space Weather Prediction Center.
#[derive(Clone, Debug)]
pub struct SwpcAlert {
    pub product_id: String,
    pub issue_datetime: String,
    pub message: String,
}

/// The product identifiers of a list of SWPC alerts.
pub open spec fn product_ids(alerts: Seq<SwpcAlert>) -> Seq<Seq<char>> {
    alerts.map_values(|a: SwpcAlert| a.product_id@)
}

/// How many entries of `ids` are not in `seen` (an identifier listed twice
/// counts twice).
pub open spec fn unseen_count(seen: Set<Seq<char>>, ids: Seq<Seq<char>>) -> nat {
    ids.filter(|id: Seq<char>| !seen.contains(id)).len()
}

/// The SWPC alert identifiers seen so far.
pub struct SeenAlerts {
    ids: StringHashSet,
}

impl View for SeenAlerts {
    type V = Set<Seq<char>>;

    closed spec fn view(&self) -> Set<Seq<char>> {
        self.ids@
    }
}

impl SeenAlerts {
    pub fn new() -> (s: Self)
        ensures
            s@ == Set::<Seq<char>>::empty(),
    {
        SeenAlerts { ids: StringHashSet::new() }
    }

    /// Whether an identifier has been seen.
    pub fn contains(&self, id: &str) -> (b: bool)
        ensures
            b == self@.contains(id@),
    {
        self.ids.contains(id)
    }

    /// Counts the alerts of a fetched batch whose identifiers were not seen
    /// before, then marks all of the batch's identifiers as seen.
    pub fn register(&mut self, alerts: &Vec<SwpcAlert>) -> (new_count: usize)
        ensures
            new_count == unseen_count(old(self)@, product_ids(alerts@)),
            forall|id: Seq<char>|
                #![trigger final(self)@.contains(id)]
                final(self)@.contains(id) <==> old(self)@.contains(id) || product_ids(
                    alerts@,
                ).contains(id),
    {
        let ghost ids = product_ids(alerts@);
        let ghost seen = self@;
        let ghost p = |id: Seq<char>| !seen.contains(id);
        let mut count: usize = 0;
        let mut i: usize = 0;
        assert(ids.take(0) =~= Seq::<Seq<char>>::empty());
        proof {
            reveal(Seq::filter);
        }
        while i < alerts.len()
            invariant
                i <= alerts.len(),
                ids == product_ids(alerts@),
                seen == self@,
                p == (|id: Seq<char>| !seen.contains(id)),
                count == ids.take(i as int).filter(p).len(),
                count <= i,
            decreases alerts.len() - i,
        {
            assert(ids.take(i + 1) =~= ids.take(i as int).push(ids[i as int]));
            assert(ids[i as int] == alerts@[i as int].product_id@);
            proof {
                ids.take(i as int).lemma_filter_push(ids[i as int], p);
            }
            if !self.ids.contains(alerts[i].product_id.as_str()) {
                count = count + 1;
            }
            i = i + 1;
        }
        assert(ids.take(alerts.len() as int) =~= ids);
        let mut j: usize = 0;
        while j < alerts.len()
            invariant
                j <= alerts.len(),
                ids == product_ids(alerts@),
                forall|id: Seq<char>|
                    #![trigger self@.contains(id)]
                    self@.contains(id) <==> seen.contains(id) || ids.take(j as int).contains(id),
            decreases alerts.len() - j,
        {
            assert(ids[j as int] == alerts@[j as int].product_id@);
            let ghost before = self@;
            self.ids.insert(alerts[j].product_id.clone());
            let ghost t0 = ids.take(j as int);
            let ghost t1 = ids.take(j + 1);
            assert(t1 =~= t0.push(ids[j as int]));
            assert forall|id: Seq<char>| #![trigger self@.contains(id)]
                self@.contains(id) <==> seen.contains(id) || t1.contains(id) by {
                if t1.contains(id) && id != ids[j as int] {
                    let k = choose|k: int| 0 <= k < t1.len() && t1[k] == id;
                    assert(k < j);
                    assert(t0[k] == id);
                }
                if t0.contains(id) {
                    let k = choose|k: int| 0 <= k < t0.len() && t0[k] == id;
                    assert(t1[k] == id);
                }
                if id == ids[j as int] {
                    assert(t1[j as int] == id);
                }
            }
            j = j + 1;
        }
        assert(ids.take(alerts.len() as int) =~= ids);
        count
    }
}

/// Law: an empty batch holds no new alert.
pub proof fn lemma_unseen_count_empty(seen: Set<Seq<char>>)
    ensures
        unseen_count(seen, Seq::empty()) == 0,
{
    reveal(Seq::filter);
}

/// Law: adding an identifier at the end of a batch adds one to the count of
/// new alerts when it was not seen before, and nothing when it was.
pub proof fn lemma_unseen_count_append(seen: Set<Seq<char>>, ids: Seq<Seq<char>>, id: Seq<char>)
    ensures
        unseen_count(seen, ids.push(id)) == unseen_count(seen, ids) + (if seen.contains(id) {
            0int
        } else {
            1int
        }),
{
    ids.lemma_filter_push(id, |x: Seq<char>| !seen.contains(x));
}

/// Law: adding an identifier at the front of a batch adds one to the count
/// of new alerts when it was not seen before, and nothing when it was.
pub proof fn lemma_unseen_count_prepend(seen: Set<Seq<char>>, ids: Seq<Seq<char>>, id: Seq<char>)
    ensures
        unseen_count(seen, seq![id] + ids) == unseen_count(seen, ids) + (if seen.contains(id) {
            0int
        } else {
            1int
        }),
{
    ids.lemma_filter_prepend(id, |x: Seq<char>| !seen.contains(x));
}

/// Law: the count of new alerts is the number of positions of the batch whose
/// identifier was not seen before, whatever their order.
pub proof fn lemma_unseen_count_positions(seen: Set<Seq<char>>, ids: Seq<Seq<char>>)
    ensures
        unseen_count(seen, ids) == Set::new(|k: int| 0 <= k < ids.len() && !seen.contains(ids[k])).len(),
        Set::new(|k: int| 0 <= k < ids.len() && !seen.contains(ids[k])).finite(),
    decreases ids.len(),
{
    let positions = Set::new(|k: int| 0 <= k < ids.len() && !seen.contains(ids[k]));
    if ids.len() == 0 {
        reveal(Seq::filter);
        assert(positions =~= Set::<int>::empty());
    } else {
        let init = ids.drop_last();
        let last = ids.len() - 1;
        lemma_unseen_count_positions(seen, init);
        lemma_unseen_count_append(seen, init, ids.last());
        assert(init.push(ids.last()) =~= ids);
        let before = Set::new(|k: int| 0 <= k < init.len() && !seen.contains(init[k]));
        if seen.contains(ids.last()) {
            assert(positions =~= before);
        } else {
            assert(positions =~= before.insert(last));
            assert(!before.contains(last));
        }
    }
}

/// Law: once a batch's identifiers have all been seen, the batch holds no new
/// alert; in particular registering a batch twice finds nothing new the
/// second time.
pub proof fn lemma_seen_batch_has_nothing_new(seen: Set<Seq<char>>, ids: Seq<Seq<char>>)
    requires
        forall|k: int| 0 <= k < ids.len() ==> seen.contains(#[trigger] ids[k]),
    ensures
        unseen_count(seen, ids) == 0,
    decreases ids.len(),
{
    reveal(Seq::filter);
    if ids.len() > 0 {
        let init = ids.drop_last();
        assert forall|k: int| 0 <= k < init.len() implies seen.contains(#[trigger] init[k]) by {
            assert(init[k] == ids[k]);
        }
        lemma_seen_batch_has_nothing_new(seen, init);
        assert(seen.contains(ids[ids.len() - 1]));
    }
}

} // verus!
