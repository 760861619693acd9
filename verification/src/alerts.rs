//! The alert ledger: a mutable collection of alerts keyed by
//! identifier, kept in creation order.
//!
//! Alerts are created with a fresh identifier, listed in creation
//! order, and acknowledged by identifier. Acknowledgment is the only
//! mutation: the flag moves from false to true and never reverts, and
//! no alert is ever removed. Acknowledging an unknown identifier is a
//! silent no-op by design, not an error.

use vstd::prelude::*;
use crate::text::str_eq;

verus! {

/// Urgency of an alert, from most to least urgent.
#[derive(Clone, Copy, PartialEq, Eq, Structural, Debug)]
pub enum AlertSeverity {
    Critical,
    Warning,
    Info,
}

/// One key/value pair of an alert's open-ended metadata.
pub struct MetadataEntry {
    pub key: String,
    pub value: String,
}

/// One alert. `timestamp` is in milliseconds since the Unix epoch.
pub struct Alert {
    pub id: String,
    pub severity: AlertSeverity,
    pub source: String,
    pub message: String,
    pub timestamp: i64,
    pub acknowledged: bool,
    pub metadata: Vec<MetadataEntry>,
}

/// Mathematical model of one metadata pair.
pub ghost struct MetadataEntryModel {
    pub key: Seq<char>,
    pub value: Seq<char>,
}

/// Mathematical model of one alert.
pub ghost struct AlertModel {
    pub id: Seq<char>,
    pub severity: AlertSeverity,
    pub source: Seq<char>,
    pub message: Seq<char>,
    pub timestamp: i64,
    pub acknowledged: bool,
    pub metadata: Seq<MetadataEntryModel>,
}

impl View for MetadataEntry {
    type V = MetadataEntryModel;

    open spec fn view(&self) -> MetadataEntryModel {
        MetadataEntryModel { key: self.key@, value: self.value@ }
    }
}

impl View for Alert {
    type V = AlertModel;

    open spec fn view(&self) -> AlertModel {
        AlertModel {
            id: self.id@,
            severity: self.severity,
            source: self.source@,
            message: self.message@,
            timestamp: self.timestamp,
            acknowledged: self.acknowledged,
            metadata: self.metadata@.map_values(|e: MetadataEntry| e@),
        }
    }
}

impl Clone for MetadataEntry {
    fn clone(&self) -> (r: Self)
        ensures
            r == *self,
    {
        MetadataEntry { key: self.key.clone(), value: self.value.clone() }
    }
}

impl Clone for Alert {
    fn clone(&self) -> (r: Self)
        ensures
            r@ == self@,
    {
        let mut metadata: Vec<MetadataEntry> = Vec::new();
        let mut i: usize = 0;
        while i < self.metadata.len()
            invariant
                i <= self.metadata.len(),
                metadata@ == self.metadata@.take(i as int),
            decreases self.metadata.len() - i,
        {
            metadata.push(self.metadata[i].clone());
            proof {
                assert(metadata@ =~= self.metadata@.take(i + 1 as int));
            }
            i = i + 1;
        }
        proof {
            assert(metadata@ =~= self.metadata@);
        }
        Alert {
            id: self.id.clone(),
            severity: self.severity,
            source: self.source.clone(),
            message: self.message.clone(),
            timestamp: self.timestamp,
            acknowledged: self.acknowledged,
            metadata,
        }
    }
}

/// `a` with its acknowledged flag set; every other field unchanged.
pub open spec fn ack_one(a: AlertModel) -> AlertModel {
    AlertModel { acknowledged: true, ..a }
}

/// Whether some alert of `s` carries identifier `id`.
pub open spec fn has_alert(s: Seq<AlertModel>, id: Seq<char>) -> bool {
    exists|i: int| 0 <= i < s.len() && (#[trigger] s[i]).id == id
}

/// Index of the first alert of `s` carrying identifier `id`; `s.len()`
/// when none does.
pub open spec fn first_match(s: Seq<AlertModel>, id: Seq<char>) -> int
    decreases s.len(),
{
    if s.len() == 0 {
        0
    } else if s.first().id == id {
        0
    } else {
        1 + first_match(s.drop_first(), id)
    }
}

/// Acknowledging identifier `id` on ledger contents `s`: the first
/// matching alert, if any, has its flag set; everything else is
/// untouched.
pub open spec fn acknowledge_spec(s: Seq<AlertModel>, id: Seq<char>) -> Seq<AlertModel> {
    if has_alert(s, id) {
        s.update(first_match(s, id), ack_one(s[first_match(s, id)]))
    } else {
        s
    }
}

/// `first_match` names the first index whose alert carries `id`:
/// it is in range, it matches, and nothing before it does.
pub proof fn lemma_first_match(s: Seq<AlertModel>, id: Seq<char>)
    requires
        has_alert(s, id),
    ensures
        0 <= first_match(s, id) < s.len(),
        s[first_match(s, id)].id == id,
        forall|j: int| 0 <= j < first_match(s, id) ==> (#[trigger] s[j]).id != id,
    decreases s.len(),
{
    if s.first().id == id {
    } else {
        assert(has_alert(s.drop_first(), id)) by {
            let i = choose|i: int| 0 <= i < s.len() && (#[trigger] s[i]).id == id;
            assert(s.drop_first()[i - 1] == s[i]);
        }
        lemma_first_match(s.drop_first(), id);
        assert forall|j: int| 0 <= j < first_match(s, id) implies (#[trigger] s[j]).id
            != id by {
            if j > 0 {
                assert(s.drop_first()[j - 1] == s[j]);
            }
        }
        assert(s[first_match(s, id)] == s.drop_first()[first_match(s.drop_first(), id)]);
    }
}

/// Acknowledging is idempotent and total: acknowledging the same
/// identifier twice leaves the ledger exactly as one acknowledgment
/// does, and acknowledging an identifier no alert carries changes
/// nothing; neither call is an error.
pub proof fn lemma_acknowledge_idempotent(s: Seq<AlertModel>, id: Seq<char>)
    ensures
        acknowledge_spec(acknowledge_spec(s, id), id) =~= acknowledge_spec(s, id),
        !has_alert(s, id) ==> acknowledge_spec(s, id) == s,
{
    if has_alert(s, id) {
        lemma_first_match(s, id);
        let fm = first_match(s, id);
        let s1 = acknowledge_spec(s, id);
        assert(s1[fm].id == id);
        assert(has_alert(s1, id));
        lemma_first_match(s1, id);
        let fm1 = first_match(s1, id);
        if fm1 < fm {
            assert(s1[fm1] == s[fm1]);
        }
        if fm < fm1 {
            assert(s1[fm].id != id);
        }
        assert(fm1 == fm);
        assert(ack_one(s1[fm]) == s1[fm]);
        assert(acknowledge_spec(s1, id) =~= s1.update(fm, s1[fm]));
        assert(s1.update(fm, s1[fm]) =~= s1);
    }
}

/// The alert ledger.
pub struct AlertLedger {
    alerts: Vec<Alert>,
}

impl View for AlertLedger {
    type V = Seq<AlertModel>;

    closed spec fn view(&self) -> Seq<AlertModel> {
        self.alerts@.map_values(|a: Alert| a@)
    }
}

impl AlertLedger {
    /// An empty ledger.
    pub fn new() -> (r: Self)
        ensures
            r@ =~= Seq::<AlertModel>::empty(),
    {
        AlertLedger { alerts: Vec::new() }
    }

    /// How many alerts the ledger holds.
    pub fn len(&self) -> (r: usize)
        ensures
            r == self@.len(),
    {
        self.alerts.len()
    }

    /// Appends one freshly created alert: unacknowledged, with empty
    /// metadata and the given identifier, stamp and text. Never fails.
    pub fn create_with_id(
        &mut self,
        id: String,
        severity: AlertSeverity,
        source: String,
        message: String,
        timestamp: i64,
    )
        ensures
            final(self)@ =~= old(self)@.push(
                AlertModel {
                    id: id@,
                    severity,
                    source: source@,
                    message: message@,
                    timestamp,
                    acknowledged: false,
                    metadata: Seq::empty(),
                },
            ),
    {
        let alert = Alert {
            id,
            severity,
            source,
            message,
            timestamp,
            acknowledged: false,
            metadata: Vec::new(),
        };
        proof {
            assert(alert@.metadata =~= Seq::<MetadataEntryModel>::empty());
        }
        self.alerts.push(alert);
    }

    /// Every alert, acknowledged or not, in creation order. The caller
    /// receives copies.
    pub fn list(&self) -> (r: Vec<Alert>)
        ensures
            r@.map_values(|a: Alert| a@) =~= self@,
    {
        let mut out: Vec<Alert> = Vec::new();
        let mut i: usize = 0;
        while i < self.alerts.len()
            invariant
                i <= self.alerts.len(),
                out@.len() == i,
                forall|j: int| 0 <= j < i ==> (#[trigger] out@[j])@ == self@[j],
            decreases self.alerts.len() - i,
        {
            out.push(self.alerts[i].clone());
            i = i + 1;
        }
        proof {
            assert forall|j: int| 0 <= j < out@.len() implies out@.map_values(|a: Alert| a@)[j]
                == self@[j] by {
                assert(out@.map_values(|a: Alert| a@)[j] == out@[j]@);
            }
            assert(out@.map_values(|a: Alert| a@) =~= self@);
        }
        out
    }

    /// Sets the acknowledged flag of the first alert carrying the
    /// given identifier. When no alert does, the ledger is unchanged
    /// and the call is a silent no-op, not an error.
    pub fn acknowledge(&mut self, alert_id: &str)
        ensures
            final(self)@ =~= acknowledge_spec(old(self)@, alert_id@),
    {
        let mut i: usize = 0;
        while i < self.alerts.len()
            invariant
                i <= self.alerts.len(),
                self@ == old(self)@,
                forall|j: int| 0 <= j < i ==> (#[trigger] old(self)@[j]).id != alert_id@,
            decreases self.alerts.len() - i,
        {
            let ghost s = old(self)@;
            if str_eq(self.alerts[i].id.as_str(), alert_id) {
                proof {
                    assert(s[i as int].id == alert_id@);
                    lemma_first_match(s, alert_id@);
                    let fm = first_match(s, alert_id@);
                    if fm < i as int {
                        assert(s[fm].id != alert_id@);
                    }
                    assert(fm == i as int);
                }
                self.alerts[i].acknowledged = true;
                proof {
                    assert(self@ =~= s.update(i as int, ack_one(s[i as int])));
                }
                return ;
            }
            i = i + 1;
        }
        proof {
            assert(!has_alert(self@, alert_id@));
        }
    }
}

} // verus!
