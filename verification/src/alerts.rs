//! The zombie-alert engine: detected resurrection events with a read/unread
//! flag, acknowledged one by one and cleared in bulk.

use vstd::prelude::*;

verus! {

/// A detected resurrection event. Similarity and confidence scores are
/// held in per-mille (0 ..= 1000), standing for the unit interval.
pub struct ZombieAlert {
    pub id: String,
    pub corpse_repo: String,
    pub corpse_path: String,
    pub zombie_repo: String,
    pub zombie_path: String,
    pub similarity_per_mille: u32,
    pub resurrection_type: String,
    pub confidence_per_mille: u32,
    pub detected_at: String,
    pub notified: bool,
}

/// The mathematical value of an alert.
#[verifier::ext_equal]
pub struct ZombieAlertView {
    pub id: Seq<char>,
    pub corpse_repo: Seq<char>,
    pub corpse_path: Seq<char>,
    pub zombie_repo: Seq<char>,
    pub zombie_path: Seq<char>,
    pub similarity_per_mille: u32,
    pub resurrection_type: Seq<char>,
    pub confidence_per_mille: u32,
    pub detected_at: Seq<char>,
    pub notified: bool,
}

impl DeepView for ZombieAlert {
    type V = ZombieAlertView;

    open spec fn deep_view(&self) -> ZombieAlertView {
        ZombieAlertView {
            id: self.id@,
            corpse_repo: self.corpse_repo@,
            corpse_path: self.corpse_path@,
            zombie_repo: self.zombie_repo@,
            zombie_path: self.zombie_path@,
            similarity_per_mille: self.similarity_per_mille,
            resurrection_type: self.resurrection_type@,
            confidence_per_mille: self.confidence_per_mille,
            detected_at: self.detected_at@,
            notified: self.notified,
        }
    }
}

impl Clone for ZombieAlert {
    fn clone(&self) -> (res: Self)
        ensures
            res.deep_view() == self.deep_view(),
    {
        let res = ZombieAlert {
            id: self.id.clone(),
            corpse_repo: self.corpse_repo.clone(),
            corpse_path: self.corpse_path.clone(),
            zombie_repo: self.zombie_repo.clone(),
            zombie_path: self.zombie_path.clone(),
            similarity_per_mille: self.similarity_per_mille,
            resurrection_type: self.resurrection_type.clone(),
            confidence_per_mille: self.confidence_per_mille,
            detected_at: self.detected_at.clone(),
            notified: self.notified,
        };
        proof {
            assert(res.deep_view() =~= self.deep_view());
        }
        res
    }
}

/// A score within the per-mille unit interval.
pub open spec fn valid_alert(a: ZombieAlertView) -> bool {
    &&& a.similarity_per_mille <= 1000
    &&& a.confidence_per_mille <= 1000
}

/// How many alerts are still unread.
pub open spec fn count_unread(s: Seq<ZombieAlertView>) -> nat
    decreases s.len(),
{
    if s.len() == 0 {
        0
    } else {
        count_unread(s.drop_last()) + if !s.last().notified {
            1nat
        } else {
            0
        }
    }
}

/// The alerts kept from independently validated entries: parsed ones with
/// scores in range, in order; malformed ones are skipped one by one.
pub open spec fn kept_alerts(entries: Seq<Option<ZombieAlertView>>) -> Seq<ZombieAlertView>
    decreases entries.len(),
{
    if entries.len() == 0 {
        Seq::<ZombieAlertView>::empty()
    } else {
        let rest = kept_alerts(entries.drop_last());
        match entries.last() {
            Some(a) => if valid_alert(a) {
                rest.push(a)
            } else {
                rest
            },
            None => rest,
        }
    }
}

/// The alert set after `mark_read`: the first alert with the id gets its
/// flag set, all else is untouched.
pub open spec fn mark_read_spec(s: Seq<ZombieAlertView>, id: Seq<char>) -> Seq<ZombieAlertView>
    decreases s.len(),
{
    if s.len() == 0 {
        s
    } else if s.first().id == id {
        seq![ZombieAlertView { notified: true, ..s.first() }] + s.drop_first()
    } else {
        seq![s.first()] + mark_read_spec(s.drop_first(), id)
    }
}

/// The alert store: the detected events, the time of the last check, and
/// the two derived counters kept consistent with the set.
pub struct ZombieAlerts {
    pub alerts: Vec<ZombieAlert>,
    pub last_check: String,
    pub total_alerts: usize,
    pub unread_count: usize,
}

impl ZombieAlerts {
    /// The store invariant: the counters agree with the alert set.
    pub open spec fn wf(self) -> bool {
        &&& self.total_alerts == self.alerts.deep_view().len()
        &&& self.unread_count == count_unread(self.alerts.deep_view())
        &&& forall|i: int|
            0 <= i < self.alerts.deep_view().len() ==> valid_alert(
                #[trigger] self.alerts.deep_view()[i],
            )
    }

    /// An empty store with the given last-check stamp.
    pub fn new(last_check: String) -> (r: Self)
        ensures
            r.wf(),
            r.alerts.deep_view() =~= Seq::<ZombieAlertView>::empty(),
            r.last_check == last_check,
            r.total_alerts == 0,
            r.unread_count == 0,
    {
        let r = ZombieAlerts { alerts: Vec::new(), last_check, total_alerts: 0, unread_count: 0 };
        proof {
            assert(r.alerts.deep_view() =~= Seq::<ZombieAlertView>::empty());
        }
        r
    }

    /// Builds the store from independently validated entries: a malformed
    /// or out-of-range entry is skipped, never aborting the listing.
    #[verifier::loop_isolation(false)]
    pub fn from_entries(entries: Vec<Option<ZombieAlert>>, last_check: String) -> (r: Self)
        ensures
            r.wf(),
            r.alerts.deep_view() == kept_alerts(entries.deep_view()),
            r.last_check == last_check,
            r.total_alerts == kept_alerts(entries.deep_view()).len(),
            r.unread_count == count_unread(kept_alerts(entries.deep_view())),
    {
        let ghost ev = entries.deep_view();
        let mut alerts: Vec<ZombieAlert> = Vec::new();
        let mut unread: usize = 0;
        proof {
            assert(ev.take(0int) =~= Seq::<Option<ZombieAlertView>>::empty());
            assert(alerts.deep_view() =~= Seq::<ZombieAlertView>::empty());
        }
        let mut i: usize = 0;
        while i < entries.len()
            invariant
                0 <= i <= ev.len(),
                ev.len() == entries@.len(),
                alerts.deep_view() == kept_alerts(ev.take(i as int)),
                unread == count_unread(alerts.deep_view()),
                unread <= alerts@.len(),
                alerts@.len() <= i,
                forall|k: int|
                    0 <= k < alerts.deep_view().len() ==> valid_alert(
                        #[trigger] alerts.deep_view()[k],
                    ),
            decreases ev.len() - i,
        {
            let ghost prev = alerts.deep_view();
            proof {
                assert(ev[i as int] == entries@[i as int].deep_view());
                assert(ev.take(i + 1).drop_last() =~= ev.take(i as int));
                assert(ev.take(i + 1).last() == ev[i as int]);
            }
            match &entries[i] {
                Some(a) => {
                    if a.similarity_per_mille <= 1000 && a.confidence_per_mille <= 1000 {
                        let al = a.clone();
                        if !al.notified {
                            unread = unread + 1;
                        }
                        proof {
                            assert(al.deep_view() == a.deep_view());
                        }
                        alerts.push(al);
                        proof {
                            assert(alerts.deep_view() =~= prev.push(a.deep_view()));
                            assert((prev.push(a.deep_view())).drop_last() =~= prev);
                            assert(count_unread(prev.push(a.deep_view())) == count_unread(prev)
                                + if !a.deep_view().notified {
                                1nat
                            } else {
                                0
                            });
                        }
                    }
                },
                None => {},
            }
            i = i + 1;
        }
        proof {
            assert(ev.take(ev.len() as int) =~= ev);
        }
        let total = alerts.len();
        ZombieAlerts { alerts, last_check, total_alerts: total, unread_count: unread }
    }

    /// Marks the alert with the given id as read; a no-op when no alert
    /// matches or it is already read. The unread counter follows.
    #[verifier::loop_isolation(false)]
    pub fn mark_alert_read(&mut self, alert_id: &String)
        requires
            old(self).wf(),
        ensures
            final(self).wf(),
            final(self).alerts.deep_view() == mark_read_spec(
                old(self).alerts.deep_view(),
                alert_id@,
            ),
            final(self).last_check == old(self).last_check,
            final(self).total_alerts == old(self).total_alerts,
    {
        let ghost orig = self.alerts.deep_view();
        let ghost marked = mark_read_spec(orig, alert_id@);
        let mut i: usize = 0;
        while i < self.alerts.len()
            invariant
                0 <= i <= orig.len(),
                self.alerts.deep_view() == orig,
                self.alerts@ == old(self).alerts@,
                self.last_check == old(self).last_check,
                self.total_alerts == old(self).total_alerts,
                self.unread_count == old(self).unread_count,
                old(self).wf(),
                orig == old(self).alerts.deep_view(),
                forall|k: int| 0 <= k < i ==> (#[trigger] orig[k]).id != alert_id@,
            decreases orig.len() - i,
        {
            proof {
                assert(orig[i as int] == self.alerts@[i as int].deep_view());
            }
            let a_ref = &self.alerts[i];
            if a_ref.id == *alert_id {
                let was_unread = !a_ref.notified;
                let mut a = a_ref.clone();
                a.notified = true;
                proof {
                    lemma_mark_read_at(orig, alert_id@, i as int);
                    assert(a.deep_view() =~= ZombieAlertView { notified: true, ..orig[i as int] });
                }
                self.alerts[i] = a;
                proof {
                    lemma_count_unread_update(orig, i as int);
                }
                if was_unread {
                    self.unread_count = self.unread_count - 1;
                }
                proof {
                    assert(self.alerts.deep_view() =~= marked) by {
                        assert forall|k: int| 0 <= k < orig.len() implies self.alerts.deep_view()[k]
                            == marked[k] by {
                            assert(self.alerts.deep_view()[k] == self.alerts@[k].deep_view());
                        }
                    }
                    assert forall|k: int|
                        0 <= k < self.alerts.deep_view().len() implies valid_alert(
                        #[trigger] self.alerts.deep_view()[k],
                    ) by {
                        if k == i {
                            assert(valid_alert(orig[i as int]));
                        } else {
                            assert(self.alerts.deep_view()[k] == orig[k]);
                        }
                    }
                }
                return ;
            }
            i = i + 1;
        }
        proof {
            lemma_mark_read_absent(orig, alert_id@);
        }
    }

    /// Clears every alert at once and stamps the time of this check.
    pub fn clear_all_alerts(&mut self, now: String)
        ensures
            final(self).wf(),
            final(self).alerts.deep_view() =~= Seq::<ZombieAlertView>::empty(),
            final(self).last_check == now,
            final(self).total_alerts == 0,
            final(self).unread_count == 0,
    {
        let empty: Vec<ZombieAlert> = Vec::new();
        proof {
            assert(empty.deep_view() =~= Seq::<ZombieAlertView>::empty());
        }
        self.alerts = empty;
        self.last_check = now;
        self.total_alerts = 0;
        self.unread_count = 0;
    }

    /// Clears every alert at once, stamped with the wall clock of this
    /// check.
    pub fn clear_all_alerts_now(&mut self)
        ensures
            final(self).wf(),
            final(self).alerts.deep_view() =~= Seq::<ZombieAlertView>::empty(),
            final(self).last_check@.len() > 0,
            final(self).total_alerts == 0,
            final(self).unread_count == 0,
    {
        let now = crate::timefmt::now_rfc3339();
        self.clear_all_alerts(now);
    }

    /// A full snapshot of the store, counters included.
    pub fn get_zombie_alerts(&self) -> (r: Self)
        requires
            self.wf(),
        ensures
            r.wf(),
            r.alerts.deep_view() == self.alerts.deep_view(),
            r.last_check@ == self.last_check@,
            r.total_alerts == self.total_alerts,
            r.unread_count == self.unread_count,
    {
        let mut alerts: Vec<ZombieAlert> = Vec::new();
        let mut i: usize = 0;
        while i < self.alerts.len()
            invariant
                0 <= i <= self.alerts@.len(),
                alerts.deep_view() == self.alerts.deep_view().take(i as int),
                alerts@.len() == i,
            decreases self.alerts@.len() - i,
        {
            let ghost prev = alerts.deep_view();
            proof {
                assert(self.alerts.deep_view()[i as int] == self.alerts@[i as int].deep_view());
            }
            alerts.push(self.alerts[i].clone());
            proof {
                assert(alerts.deep_view() =~= prev.push(self.alerts.deep_view()[i as int]));
                assert(self.alerts.deep_view().take(i + 1) =~= self.alerts.deep_view().take(
                    i as int,
                ).push(self.alerts.deep_view()[i as int]));
            }
            i = i + 1;
        }
        proof {
            assert(self.alerts.deep_view().take(self.alerts@.len() as int) =~= self.alerts.deep_view());
        }
        ZombieAlerts {
            alerts,
            last_check: self.last_check.clone(),
            total_alerts: self.total_alerts,
            unread_count: self.unread_count,
        }
    }
}

/// `mark_read_spec` updates exactly the first match, found at `i`.
proof fn lemma_mark_read_at(s: Seq<ZombieAlertView>, id: Seq<char>, i: int)
    requires
        0 <= i < s.len(),
        s[i].id == id,
        forall|k: int| 0 <= k < i ==> (#[trigger] s[k]).id != id,
    ensures
        mark_read_spec(s, id) == s.update(i, ZombieAlertView { notified: true, ..s[i] }),
    decreases i,
{
    if i == 0 {
        assert(s.first().id == id);
        assert(seq![ZombieAlertView { notified: true, ..s.first() }] + s.drop_first() =~= s.update(
            0,
            ZombieAlertView { notified: true, ..s[0] },
        ));
    } else {
        let df = s.drop_first();
        assert(s.first().id != id);
        assert forall|k: int| 0 <= k < i - 1 implies (#[trigger] df[k]).id != id by {
            assert(df[k] == s[k + 1]);
        }
        lemma_mark_read_at(df, id, i - 1);
        assert(seq![s.first()] + df.update(i - 1, ZombieAlertView { notified: true, ..df[i - 1] })
            =~= s.update(i, ZombieAlertView { notified: true, ..s[i] }));
    }
}

/// `mark_read_spec` on an id that no alert carries is a no-op: the set
/// and with it the unread count stay as they were.
pub proof fn lemma_mark_read_absent(s: Seq<ZombieAlertView>, id: Seq<char>)
    requires
        forall|k: int| 0 <= k < s.len() ==> (#[trigger] s[k]).id != id,
    ensures
        mark_read_spec(s, id) == s,
        count_unread(mark_read_spec(s, id)) == count_unread(s),
    decreases s.len(),
{
    if s.len() > 0 {
        let df = s.drop_first();
        assert forall|k: int| 0 <= k < df.len() implies (#[trigger] df[k]).id != id by {
            assert(df[k] == s[k + 1]);
        }
        lemma_mark_read_absent(df, id);
        assert(seq![s.first()] + df =~= s);
    }
}

/// Setting the read flag at one position lowers the unread count by one
/// exactly when that alert was unread.
proof fn lemma_count_unread_update(s: Seq<ZombieAlertView>, i: int)
    requires
        0 <= i < s.len(),
    ensures
        count_unread(s.update(i, ZombieAlertView { notified: true, ..s[i] })) == count_unread(s)
            - if !s[i].notified {
            1int
        } else {
            0
        },
    decreases s.len(),
{
    let u = s.update(i, ZombieAlertView { notified: true, ..s[i] });
    if i == s.len() - 1 {
        assert(u.drop_last() =~= s.drop_last());
        assert(u.last() == ZombieAlertView { notified: true, ..s[i] });
    } else {
        assert(u.drop_last() =~= s.drop_last().update(i, ZombieAlertView {
            notified: true,
            ..s.drop_last()[i]
        }));
        lemma_count_unread_update(s.drop_last(), i);
        assert(u.last() == s.last());
    }
}

} // verus!
