//! The tombstone registry: an ordered store of retired-asset records with
//! id-deduplication and a hard retention cap, newest insert first.

use vstd::prelude::*;
use vstd::multiset::Multiset;
use vstd::string::StringExecFns;
use crate::strutil::lex_le;
use crate::strutil::lex_lt;
use crate::strutil::str_lt;
use crate::strutil::lemma_lex_le_total;
use crate::strutil::lemma_lex_le_trans;
use crate::strutil::lemma_lex_le_refl;

verus! {

/// The persisted record of a dead asset.
pub struct Tombstone {
    pub id: String,
    pub name: String,
    pub cause_of_death: String,
    pub epitaph: String,
    pub tags: Vec<String>,
    pub original_path: String,
    pub language: Option<String>,
    pub line_count: usize,
    pub died_at: String,
    pub resurrected_at: Option<String>,
    pub resurrected_to: Option<String>,
}

/// The mathematical value of a tombstone record.
#[verifier::ext_equal]
pub struct TombstoneView {
    pub id: Seq<char>,
    pub name: Seq<char>,
    pub cause_of_death: Seq<char>,
    pub epitaph: Seq<char>,
    pub tags: Seq<Seq<char>>,
    pub original_path: Seq<char>,
    pub language: Option<Seq<char>>,
    pub line_count: usize,
    pub died_at: Seq<char>,
    pub resurrected_at: Option<Seq<char>>,
    pub resurrected_to: Option<Seq<char>>,
}

impl DeepView for Tombstone {
    type V = TombstoneView;

    open spec fn deep_view(&self) -> TombstoneView {
        TombstoneView {
            id: self.id@,
            name: self.name@,
            cause_of_death: self.cause_of_death@,
            epitaph: self.epitaph@,
            tags: self.tags.deep_view(),
            original_path: self.original_path@,
            language: self.language.deep_view(),
            line_count: self.line_count,
            died_at: self.died_at@,
            resurrected_at: self.resurrected_at.deep_view(),
            resurrected_to: self.resurrected_to.deep_view(),
        }
    }
}

impl Clone for Tombstone {
    fn clone(&self) -> (res: Self)
        ensures
            res.deep_view() == self.deep_view(),
    {
        let res = Tombstone {
            id: self.id.clone(),
            name: self.name.clone(),
            cause_of_death: self.cause_of_death.clone(),
            epitaph: self.epitaph.clone(),
            tags: clone_strings(&self.tags),
            original_path: self.original_path.clone(),
            language: clone_opt_string(&self.language),
            line_count: self.line_count,
            died_at: self.died_at.clone(),
            resurrected_at: clone_opt_string(&self.resurrected_at),
            resurrected_to: clone_opt_string(&self.resurrected_to),
        };
        proof {
            assert(res.deep_view() =~= self.deep_view());
        }
        res
    }
}

/// Clones a vector of strings, preserving its contents exactly.
fn clone_strings(v: &Vec<String>) -> (res: Vec<String>)
    ensures
        res@ == v@,
{
    let mut res: Vec<String> = Vec::new();
    let mut i: usize = 0;
    while i < v.len()
        invariant
            0 <= i <= v@.len(),
            res@ == v@.take(i as int),
        decreases v@.len() - i,
    {
        res.push(v[i].clone());
        proof {
            assert(v@.take(i + 1) =~= v@.take(i as int).push(v@[i as int]));
        }
        i = i + 1;
    }
    proof {
        assert(v@.take(v@.len() as int) =~= v@);
    }
    res
}

/// Clones an optional string, preserving it exactly.
fn clone_opt_string(v: &Option<String>) -> (res: Option<String>)
    ensures
        res == *v,
{
    match v {
        Some(s) => Some(s.clone()),
        None => None,
    }
}

/// The retention cap of the tombstone store.
pub const TOMBSTONE_CAP: usize = 100;

/// No two records share an id.
pub open spec fn ids_unique(s: Seq<TombstoneView>) -> bool {
    forall|i: int, j: int| 0 <= i < j < s.len() ==> s[i].id != s[j].id
}

/// The records of `s`, in order, without those whose id is `id`.
pub open spec fn remove_id(s: Seq<TombstoneView>, id: Seq<char>) -> Seq<TombstoneView>
    decreases s.len(),
{
    if s.len() == 0 {
        s
    } else {
        let rest = remove_id(s.drop_last(), id);
        if s.last().id == id {
            rest
        } else {
            rest.push(s.last())
        }
    }
}

/// The store after an upsert: the new record goes to the head, any record
/// with the same id is dropped, and the result is truncated to the cap.
pub open spec fn upserted(s: Seq<TombstoneView>, t: TombstoneView) -> Seq<TombstoneView> {
    let with_new = seq![t] + remove_id(s, t.id);
    if with_new.len() <= TOMBSTONE_CAP {
        with_new
    } else {
        with_new.take(TOMBSTONE_CAP as int)
    }
}

/// The append-only-with-eviction store of retired-asset records.
pub struct TombstoneRegistry {
    pub records: Vec<Tombstone>,
}

impl View for TombstoneRegistry {
    type V = Seq<TombstoneView>;

    open spec fn view(&self) -> Seq<TombstoneView> {
        self.records.deep_view()
    }
}

impl TombstoneRegistry {
    /// The store invariant: ids unique, size within the cap.
    pub open spec fn wf(self) -> bool {
        &&& ids_unique(self@)
        &&& self@.len() <= TOMBSTONE_CAP
    }

    /// An empty store.
    pub fn new() -> (r: Self)
        ensures
            r@ =~= Seq::<TombstoneView>::empty(),
            r.wf(),
    {
        TombstoneRegistry { records: Vec::new() }
    }

    /// How many records the store holds.
    pub fn len(&self) -> (n: usize)
        ensures
            n == self@.len(),
    {
        self.records.len()
    }

    /// Inserts `t` at the head; a prior record with the same id is removed
    /// first, and the store is truncated to the cap afterwards.
    pub fn upsert(&mut self, t: Tombstone)
        requires
            old(self).wf(),
        ensures
            final(self)@ == upserted(old(self)@, t.deep_view()),
            final(self).wf(),
            final(self)@.len() > 0,
            final(self)@[0] == t.deep_view(),
    {
        let ghost orig = self@;
        let ghost tv = t.deep_view();
        let tid = t.id.clone();
        let mut out: Vec<Tombstone> = Vec::new();
        out.push(t);
        proof {
            assert(orig.take(0int) =~= Seq::<TombstoneView>::empty());
            assert(out.deep_view() =~= seq![tv] + remove_id(orig.take(0int), tv.id));
        }
        let mut i: usize = 0;
        while i < self.records.len()
            invariant
                0 <= i <= orig.len(),
                self@ == orig,
                orig.len() == self.records@.len(),
                tid@ == tv.id,
                out.deep_view() == seq![tv] + remove_id(orig.take(i as int), tv.id),
            decreases orig.len() - i,
        {
            let ghost prev = out.deep_view();
            let rec_ref = &self.records[i];
            let eq = rec_ref.id == tid;
            proof {
                assert(orig[i as int] == self.records@[i as int].deep_view());
                lemma_remove_id_take_step(orig, tv.id, i as int);
            }
            if !eq {
                let rec = rec_ref.clone();
                assert(rec.deep_view() == orig[i as int]);
                out.push(rec);
                proof {
                    assert(out.deep_view() =~= prev.push(orig[i as int]));
                    assert(prev.push(orig[i as int]) =~= seq![tv] + remove_id(
                        orig.take(i as int),
                        tv.id,
                    ).push(orig[i as int]));
                }
            }
            i = i + 1;
        }
        proof {
            assert(orig.take(orig.len() as int) =~= orig);
        }
        if out.len() > TOMBSTONE_CAP {
            let ghost full = out.deep_view();
            out.truncate(TOMBSTONE_CAP);
            proof {
                assert(out.deep_view() =~= full.take(TOMBSTONE_CAP as int));
            }
        }
        self.records = out;
        proof {
            lemma_upserted_wf(orig, tv);
        }
    }
}

/// A record after a resurrection mark: the matching record gets the
/// resurrection fields set, every other record is untouched.
pub open spec fn mark_view(t: TombstoneView, id: Seq<char>, to: String, now: String) -> TombstoneView {
    if t.id == id {
        TombstoneView { resurrected_at: Some(now@), resurrected_to: Some(to@), ..t }
    } else {
        t
    }
}

/// Every record of `s` after a resurrection mark for `id`.
pub open spec fn marked_resurrected(
    s: Seq<TombstoneView>,
    id: Seq<char>,
    to: String,
    now: String,
) -> Seq<TombstoneView>
    decreases s.len(),
{
    if s.len() == 0 {
        s
    } else {
        marked_resurrected(s.drop_last(), id, to, now).push(mark_view(s.last(), id, to, now))
    }
}

/// The resurrection mark keeps the length.
proof fn lemma_marked_resurrected_len(
    s: Seq<TombstoneView>,
    id: Seq<char>,
    to: String,
    now: String,
)
    ensures
        marked_resurrected(s, id, to, now).len() == s.len(),
    decreases s.len(),
{
    if s.len() > 0 {
        lemma_marked_resurrected_len(s.drop_last(), id, to, now);
    }
}

/// The resurrection mark acts on each record independently.
proof fn lemma_marked_resurrected_at(
    s: Seq<TombstoneView>,
    id: Seq<char>,
    to: String,
    now: String,
    k: int,
)
    requires
        0 <= k < s.len(),
    ensures
        marked_resurrected(s, id, to, now).len() == s.len(),
        marked_resurrected(s, id, to, now)[k] == mark_view(s[k], id, to, now),
    decreases s.len(),
{
    lemma_marked_resurrected_len(s, id, to, now);
    if k < s.len() - 1 {
        lemma_marked_resurrected_at(s.drop_last(), id, to, now, k);
        assert(s.drop_last()[k] == s[k]);
    }
}

impl TombstoneRegistry {
    /// Lists up to `limit` records, most recently dead first; the order is
    /// recomputed from the death dates, not taken from storage order.
    pub fn get_recent_corpses(&self, limit: i32) -> (r: Vec<Tombstone>)
        ensures
            r.deep_view() == recent_tombstones(self@, limit as int),
    {
        if limit <= 0 {
            let r: Vec<Tombstone> = Vec::new();
            proof {
                assert(r.deep_view() =~= Seq::<TombstoneView>::empty());
            }
            return r;
        }
        let mut r = sort_by_died_at(&self.records);
        proof {
            lemma_sort_desc_properties(self@);
        }
        let limit_us = limit as usize;
        if limit_us < r.len() {
            let ghost full = r.deep_view();
            r.truncate(limit_us);
            proof {
                assert(r.deep_view() =~= full.take(limit_us as int));
            }
        }
        r
    }

    /// Sets the resurrection fields on the record with the given id; a
    /// no-op when no record matches.
    #[verifier::loop_isolation(false)]
    pub fn mark_resurrected(&mut self, id: &String, resurrected_to: String, now: String)
        requires
            old(self).wf(),
        ensures
            final(self)@ == marked_resurrected(old(self)@, id@, resurrected_to, now),
            final(self).wf(),
    {
        let ghost orig = self@;
        let ghost gto = resurrected_to;
        let ghost gnow = now;
        let ghost marked = marked_resurrected(orig, id@, resurrected_to, now);
        proof {
            lemma_marked_resurrected_len(orig, id@, gto, gnow);
        }
        let mut i: usize = 0;
        while i < self.records.len()
            invariant
                0 <= i <= orig.len(),
                self@ == orig,
                self.records@ == old(self).records@,
                orig.len() == self.records@.len(),
                old(self).wf(),
                orig == old(self)@,
                now == gnow,
                resurrected_to == gto,
                forall|k: int| 0 <= k < i ==> (#[trigger] orig[k]).id != id@,
            decreases orig.len() - i,
        {
            proof {
                assert(orig[i as int] == self.records@[i as int].deep_view());
            }
            let rec_ref = &self.records[i];
            if rec_ref.id == *id {
                let mut rec = rec_ref.clone();
                proof {
                    assert(rec.deep_view() == orig[i as int]);
                }
                rec.resurrected_at = Some(now);
                rec.resurrected_to = Some(resurrected_to);
                proof {
                    lemma_marked_resurrected_at(orig, id@, gto, gnow, i as int);
                    assert(rec.deep_view() =~= marked[i as int]);
                }
                self.records[i] = rec;
                proof {
                    assert(self@ =~= marked) by {
                        assert forall|k: int| 0 <= k < orig.len() implies self@[k] == marked[k] by {
                            assert(self@[k] == self.records@[k].deep_view());
                            lemma_marked_resurrected_at(orig, id@, gto, gnow, k);
                            if k != i {
                                assert(self.records@[k] == old(self).records@[k]);
                                assert(self@[k] == orig[k]);
                                assert(orig[i as int].id == id@);
                                assert(orig[k].id != orig[i as int].id);
                                assert(orig[k].id != id@);
                                assert(marked[k] == orig[k]);
                            } else {
                                assert(self.records@[i as int].deep_view() == marked[i as int]);
                            }
                        }
                    }
                    assert(ids_unique(self@)) by {
                        assert forall|a: int, b: int| 0 <= a < b < self@.len() implies self@[a].id
                            != self@[b].id by {
                            assert(self@[a] == marked[a] && self@[b] == marked[b]);
                            assert(marked[a].id == orig[a].id && marked[b].id == orig[b].id);
                        }
                    }
                }
                return ;
            }
            i = i + 1;
        }
        proof {
            assert(self@ =~= marked) by {
                assert forall|k: int| 0 <= k < orig.len() implies self@[k] == marked[k] by {
                    lemma_marked_resurrected_at(orig, id@, gto, gnow, k);
                    assert(orig[k].id != id@);
                }
            }
        }
    }
}

/// Sorts records by death date, most recent first.
pub fn sort_by_died_at(v: &Vec<Tombstone>) -> (r: Vec<Tombstone>)
    ensures
        r.deep_view() == sort_desc(v.deep_view()),
{
    let ghost s = v.deep_view();
    let mut out: Vec<Tombstone> = Vec::new();
    proof {
        assert(s.take(0int) =~= Seq::<TombstoneView>::empty());
        assert(out.deep_view() =~= Seq::<TombstoneView>::empty());
    }
    let mut i: usize = 0;
    while i < v.len()
        invariant
            0 <= i <= s.len(),
            s == v.deep_view(),
            v@.len() == s.len(),
            out.deep_view() == sort_desc(s.take(i as int)),
        decreases s.len() - i,
    {
        proof {
            assert(s[i as int] == v@[i as int].deep_view());
        }
        let t = v[i].clone();
        insert_sorted(&mut out, t);
        proof {
            assert(s.take(i + 1).drop_last() =~= s.take(i as int));
            assert(s.take(i + 1).last() == s[i as int]);
        }
        i = i + 1;
    }
    proof {
        assert(s.take(s.len() as int) =~= s);
    }
    out
}

/// Upserting two records that share an id leaves exactly one record with
/// that id: the newer one, at the head, with its fields.
pub proof fn lemma_upsert_same_id_replaces(
    s: Seq<TombstoneView>,
    t1: TombstoneView,
    t2: TombstoneView,
)
    requires
        t1.id == t2.id,
    ensures
        ({
            let r = upserted(upserted(s, t1), t2);
            &&& r.len() > 0
            &&& r[0] == t2
            &&& forall|i: int| 1 <= i < r.len() ==> (#[trigger] r[i]).id != t2.id
        }),
{
    let s1 = upserted(s, t1);
    let r = upserted(s1, t2);
    let f = remove_id(s1, t2.id);
    lemma_remove_id_elements(s1, t2.id);
    let with_new = seq![t2] + f;
    assert forall|i: int| 1 <= i < r.len() implies (#[trigger] r[i]).id != t2.id by {
        assert(r[i] == with_new[i]);
        assert(with_new[i] == f[i - 1]);
    }
}

/// Upserting a fresh id only prepends: the store keeps the cap's worth of
/// the most recently inserted records.
pub proof fn lemma_upsert_fresh_id(s: Seq<TombstoneView>, t: TombstoneView)
    requires
        forall|i: int| 0 <= i < s.len() ==> (#[trigger] s[i]).id != t.id,
    ensures
        upserted(s, t) == if s.len() + 1 <= TOMBSTONE_CAP {
            seq![t] + s
        } else {
            (seq![t] + s).take(TOMBSTONE_CAP as int)
        },
{
    lemma_remove_id_absent(s, t.id);
}

/// The records of `s` are in descending death-date order.
pub open spec fn sorted_by_died_at_desc(s: Seq<TombstoneView>) -> bool {
    forall|i: int, j: int| 0 <= i <= j < s.len() ==> lex_le(s[j].died_at, s[i].died_at)
}

/// `t` inserted into `s` before the first record that died strictly
/// earlier than it.
pub open spec fn insert_desc(s: Seq<TombstoneView>, t: TombstoneView) -> Seq<TombstoneView>
    decreases s.len(),
{
    if s.len() == 0 {
        seq![t]
    } else if lex_lt(s.first().died_at, t.died_at) {
        seq![t] + s
    } else {
        seq![s.first()] + insert_desc(s.drop_first(), t)
    }
}

/// `s` sorted by death date, most recent first (insertion sort, stable).
pub open spec fn sort_desc(s: Seq<TombstoneView>) -> Seq<TombstoneView>
    decreases s.len(),
{
    if s.len() == 0 {
        s
    } else {
        insert_desc(sort_desc(s.drop_last()), s.last())
    }
}

/// The most recently dead records: the whole store sorted by death date
/// descending, truncated to `limit`.
pub open spec fn recent_tombstones(s: Seq<TombstoneView>, limit: int) -> Seq<TombstoneView> {
    if limit <= 0 {
        Seq::<TombstoneView>::empty()
    } else if limit >= s.len() {
        sort_desc(s)
    } else {
        sort_desc(s).take(limit)
    }
}

/// The position where an insertion keeps descending order: past every
/// record at least as recent as `t`, at the first strictly older one.
fn find_insert_pos(out: &Vec<Tombstone>, t: &Tombstone) -> (idx: usize)
    ensures
        0 <= idx <= out.deep_view().len(),
        forall|k: int|
            0 <= k < idx ==> !lex_lt((#[trigger] out.deep_view()[k]).died_at, t.deep_view().died_at),
        idx < out.deep_view().len() ==> lex_lt(
            out.deep_view()[idx as int].died_at,
            t.deep_view().died_at,
        ),
{
    let ghost s = out.deep_view();
    let mut idx: usize = 0;
    while idx < out.len()
        invariant
            0 <= idx <= s.len(),
            s == out.deep_view(),
            out@.len() == s.len(),
            forall|k: int| 0 <= k < idx ==> !lex_lt((#[trigger] s[k]).died_at, t.deep_view().died_at),
        decreases s.len() - idx,
    {
        proof {
            assert(s[idx as int] == out@[idx as int].deep_view());
        }
        if str_lt(&out[idx].died_at, &t.died_at) {
            return idx;
        }
        idx = idx + 1;
    }
    idx
}

/// Inserts `t` into a vector kept in descending death-date order.
fn insert_sorted(out: &mut Vec<Tombstone>, t: Tombstone)
    ensures
        final(out).deep_view() == insert_desc(old(out).deep_view(), t.deep_view()),
{
    let ghost s = out.deep_view();
    let ghost tv = t.deep_view();
    let idx = find_insert_pos(out, &t);
    out.insert(idx, t);
    proof {
        assert(out.deep_view() =~= s.take(idx as int) + seq![tv] + s.skip(idx as int)) by {
            assert forall|k: int| 0 <= k < out@.len() implies out.deep_view()[k] == (s.take(
                idx as int,
            ) + seq![tv] + s.skip(idx as int))[k] by {
                assert(out.deep_view()[k] == out@[k].deep_view());
            }
        }
        lemma_insert_desc_at(s, tv, idx as int);
    }
}

/// `insert_desc` places the new record exactly at the first position whose
/// record died strictly earlier.
proof fn lemma_insert_desc_at(s: Seq<TombstoneView>, t: TombstoneView, idx: int)
    requires
        0 <= idx <= s.len(),
        forall|k: int| 0 <= k < idx ==> !lex_lt((#[trigger] s[k]).died_at, t.died_at),
        idx < s.len() ==> lex_lt(s[idx].died_at, t.died_at),
    ensures
        insert_desc(s, t) == s.take(idx) + seq![t] + s.skip(idx),
    decreases idx,
{
    if idx == 0 {
        if s.len() == 0 {
            assert(insert_desc(s, t) =~= s.take(0) + seq![t] + s.skip(0));
        } else {
            assert(s.take(0) + seq![t] + s.skip(0) =~= seq![t] + s);
        }
    } else {
        let df = s.drop_first();
        assert(!lex_lt(s[0].died_at, t.died_at));
        assert forall|k: int| 0 <= k < idx - 1 implies !lex_lt(
            (#[trigger] df[k]).died_at,
            t.died_at,
        ) by {
            assert(df[k] == s[k + 1]);
        }
        lemma_insert_desc_at(df, t, idx - 1);
        assert(seq![s.first()] + (df.take(idx - 1) + seq![t] + df.skip(idx - 1)) =~= s.take(idx)
            + seq![t] + s.skip(idx));
    }
}

/// Sorted insertion adds exactly the new record to the multiset.
proof fn lemma_insert_desc_multiset(s: Seq<TombstoneView>, t: TombstoneView)
    ensures
        insert_desc(s, t).to_multiset() == s.to_multiset().insert(t),
        insert_desc(s, t).len() == s.len() + 1,
    decreases s.len(),
{
    broadcast use vstd::seq_lib::group_to_multiset_ensures;
    broadcast use vstd::multiset::group_multiset_axioms;

    if s.len() == 0 {
        assert(seq![t] =~= s.push(t));
    } else if lex_lt(s.first().died_at, t.died_at) {
        vstd::seq_lib::lemma_multiset_commutative(seq![t], s);
        assert(seq![t] =~= Seq::<TombstoneView>::empty().push(t));
        assert(Seq::<TombstoneView>::empty().to_multiset() =~= Multiset::<TombstoneView>::empty());
        assert((seq![t] + s).to_multiset() =~= s.to_multiset().insert(t));
    } else {
        let df = s.drop_first();
        lemma_insert_desc_multiset(df, t);
        vstd::seq_lib::lemma_multiset_commutative(seq![s.first()], insert_desc(df, t));
        vstd::seq_lib::lemma_multiset_commutative(seq![s.first()], df);
        assert(s =~= seq![s.first()] + df);
        assert((seq![s.first()] + insert_desc(df, t)).to_multiset() =~= s.to_multiset().insert(t));
    }
}

/// Sorted insertion keeps the order sorted.
proof fn lemma_insert_desc_sorted(s: Seq<TombstoneView>, t: TombstoneView)
    requires
        sorted_by_died_at_desc(s),
    ensures
        sorted_by_died_at_desc(insert_desc(s, t)),
    decreases s.len(),
{
    broadcast use vstd::seq_lib::group_to_multiset_ensures;
    broadcast use vstd::multiset::group_multiset_axioms;

    let r = insert_desc(s, t);
    lemma_lex_le_refl(t.died_at);
    if s.len() == 0 {
    } else if lex_lt(s.first().died_at, t.died_at) {
        assert forall|i: int, j: int| 0 <= i <= j < r.len() implies lex_le(
            r[j].died_at,
            r[i].died_at,
        ) by {
            lemma_lex_le_total(t.died_at, s[0].died_at);
            if i == 0 && j > 0 {
                assert(r[j] == s[j - 1]);
                assert(lex_le(s[j - 1].died_at, s[0].died_at));
                lemma_lex_le_trans(s[j - 1].died_at, s[0].died_at, t.died_at);
            } else if i > 0 {
                assert(r[i] == s[i - 1] && r[j] == s[j - 1]);
            }
        }
    } else {
        let df = s.drop_first();
        assert(sorted_by_died_at_desc(df)) by {
            assert forall|i: int, j: int| 0 <= i <= j < df.len() implies lex_le(
                df[j].died_at,
                df[i].died_at,
            ) by {
                assert(df[i] == s[i + 1] && df[j] == s[j + 1]);
            }
        }
        lemma_insert_desc_sorted(df, t);
        lemma_insert_desc_multiset(df, t);
        let r2 = insert_desc(df, t);
        assert forall|i: int, j: int| 0 <= i <= j < r.len() implies lex_le(
            r[j].died_at,
            r[i].died_at,
        ) by {
            if i == 0 && j > 0 {
                assert(r[j] == r2[j - 1]);
                assert(r2.contains(r2[j - 1]));
                assert(r2.to_multiset().count(r2[j - 1]) > 0);
                if r2[j - 1] == t {
                    assert(lex_le(t.died_at, s[0].died_at));
                } else {
                    assert(df.to_multiset().count(r2[j - 1]) > 0);
                    assert(df.contains(r2[j - 1]));
                    let m = choose|m: int| 0 <= m < df.len() && df[m] == r2[j - 1];
                    assert(df[m] == s[m + 1]);
                    assert(lex_le(s[m + 1].died_at, s[0].died_at));
                }
            } else if i > 0 {
                assert(r[i] == r2[i - 1] && r[j] == r2[j - 1]);
            }
        }
    }
}

/// Sorting yields a descending-by-death-date permutation of the input.
pub proof fn lemma_sort_desc_properties(s: Seq<TombstoneView>)
    ensures
        sorted_by_died_at_desc(sort_desc(s)),
        sort_desc(s).to_multiset() == s.to_multiset(),
        sort_desc(s).len() == s.len(),
    decreases s.len(),
{
    broadcast use vstd::seq_lib::group_to_multiset_ensures;
    broadcast use vstd::multiset::group_multiset_axioms;

    if s.len() == 0 {
    } else {
        let dl = s.drop_last();
        lemma_sort_desc_properties(dl);
        lemma_insert_desc_sorted(sort_desc(dl), s.last());
        lemma_insert_desc_multiset(sort_desc(dl), s.last());
        assert(s =~= dl.push(s.last()));
    }
}

/// The listing is sorted for every limit, empty for limits at or below
/// zero, and a full permutation when the limit covers the store.
pub proof fn lemma_recent_tombstones_sorted(s: Seq<TombstoneView>, limit: int)
    ensures
        sorted_by_died_at_desc(recent_tombstones(s, limit)),
        recent_tombstones(s, limit).len() == if limit <= 0 {
            0
        } else if limit >= s.len() {
            s.len() as int
        } else {
            limit
        },
        limit >= s.len() ==> recent_tombstones(s, limit).to_multiset() == s.to_multiset(),
{
    lemma_sort_desc_properties(s);
    if limit <= 0 {
        if s.len() == 0 {
            assert(s =~= Seq::<TombstoneView>::empty());
        }
    } else if limit >= s.len() {
    } else {
        let r = sort_desc(s).take(limit);
        assert forall|i: int, j: int| 0 <= i <= j < r.len() implies lex_le(
            r[j].died_at,
            r[i].died_at,
        ) by {
            assert(r[i] == sort_desc(s)[i] && r[j] == sort_desc(s)[j]);
        }
    }
}

/// Removing an id from a one-longer prefix keeps the shorter result and
/// appends the new element exactly when its id differs.
proof fn lemma_remove_id_take_step(s: Seq<TombstoneView>, id: Seq<char>, i: int)
    requires
        0 <= i < s.len(),
    ensures
        remove_id(s.take(i + 1), id) == if s[i].id == id {
            remove_id(s.take(i), id)
        } else {
            remove_id(s.take(i), id).push(s[i])
        },
{
    let t1 = s.take(i + 1);
    assert(t1.drop_last() =~= s.take(i));
    assert(t1.last() == s[i]);
}

/// Every element of `remove_id(s, id)` comes from `s`, and none carries `id`.
proof fn lemma_remove_id_elements(s: Seq<TombstoneView>, id: Seq<char>)
    ensures
        remove_id(s, id).len() <= s.len(),
        forall|k: int| 0 <= k < remove_id(s, id).len() ==> (#[trigger] remove_id(s, id)[k]).id
            != id,
        forall|k: int|
            0 <= k < remove_id(s, id).len() ==> exists|m: int|
                0 <= m < s.len() && s[m] == #[trigger] remove_id(s, id)[k],
    decreases s.len(),
{
    if s.len() == 0 {
    } else {
        let dl = s.drop_last();
        let rest = remove_id(dl, id);
        lemma_remove_id_elements(dl, id);
        assert forall|k: int| 0 <= k < remove_id(s, id).len() implies (#[trigger] remove_id(
            s,
            id,
        )[k]).id != id && exists|m: int| 0 <= m < s.len() && s[m] == remove_id(s, id)[k] by {
            if k < rest.len() {
                assert(remove_id(s, id)[k] == rest[k]);
                let m = choose|m: int| 0 <= m < dl.len() && dl[m] == rest[k];
                assert(s[m] == remove_id(s, id)[k]);
            } else {
                assert(remove_id(s, id)[k] == s.last());
                assert(s[s.len() - 1] == remove_id(s, id)[k]);
            }
        }
    }
}

/// Removing an id on which no record matches changes nothing.
proof fn lemma_remove_id_absent(s: Seq<TombstoneView>, id: Seq<char>)
    requires
        forall|i: int| 0 <= i < s.len() ==> (#[trigger] s[i]).id != id,
    ensures
        remove_id(s, id) == s,
    decreases s.len(),
{
    if s.len() == 0 {
    } else {
        let dl = s.drop_last();
        lemma_remove_id_absent(dl, id);
        assert(s[s.len() - 1].id != id);
        assert(remove_id(s, id) =~= dl.push(s.last()));
        assert(dl.push(s.last()) =~= s);
    }
}

/// Removing an id preserves id uniqueness.
proof fn lemma_remove_id_unique(s: Seq<TombstoneView>, id: Seq<char>)
    requires
        ids_unique(s),
    ensures
        ids_unique(remove_id(s, id)),
    decreases s.len(),
{
    if s.len() == 0 {
    } else {
        let dl = s.drop_last();
        assert(ids_unique(dl));
        lemma_remove_id_unique(dl, id);
        lemma_remove_id_elements(dl, id);
        if s.last().id != id {
            let f = remove_id(dl, id).push(s.last());
            assert(ids_unique(f)) by {
                assert forall|i: int, j: int| 0 <= i < j < f.len() implies f[i].id != f[j].id by {
                    if j < f.len() - 1 {
                        assert(f[i] == remove_id(dl, id)[i] && f[j] == remove_id(dl, id)[j]);
                    } else {
                        assert(f[j] == s.last());
                        assert(f[i] == remove_id(dl, id)[i]);
                        let m = choose|m: int| 0 <= m < dl.len() && dl[m] == remove_id(dl, id)[i];
                        assert(s[m] == f[i]);
                        assert(s[m].id != s[s.len() - 1].id);
                    }
                }
            }
        }
    }
}

/// An upsert keeps ids unique and the store within the cap.
proof fn lemma_upserted_wf(s: Seq<TombstoneView>, t: TombstoneView)
    requires
        ids_unique(s),
    ensures
        ids_unique(upserted(s, t)),
        upserted(s, t).len() <= TOMBSTONE_CAP,
        upserted(s, t).len() > 0,
        upserted(s, t)[0] == t,
{
    let f = remove_id(s, t.id);
    lemma_remove_id_unique(s, t.id);
    lemma_remove_id_elements(s, t.id);
    let with_new = seq![t] + f;
    assert(ids_unique(with_new)) by {
        assert forall|i: int, j: int| 0 <= i < j < with_new.len() implies with_new[i].id
            != with_new[j].id by {
            if i == 0 {
                assert(with_new[j] == f[j - 1]);
            } else {
                assert(with_new[i] == f[i - 1] && with_new[j] == f[j - 1]);
            }
        }
    }
    if with_new.len() > TOMBSTONE_CAP {
        let capped = with_new.take(TOMBSTONE_CAP as int);
        assert(ids_unique(capped)) by {
            assert forall|i: int, j: int| 0 <= i < j < capped.len() implies capped[i].id
                != capped[j].id by {
                assert(capped[i] == with_new[i] && capped[j] == with_new[j]);
            }
        }
    }
}

} // verus!

verus! {

/// The fixed placeholder records, every field of them.
pub open spec fn mock_corpse_views() -> Seq<TombstoneView> {
    seq![
        TombstoneView {
            id: "regex-validator"@,
            name: "RegEx captcha parser"@,
            cause_of_death: "Slider captchas made it obsolete"@,
            epitaph: "It once read most captchas, until they learned to evolve"@,
            tags: seq!["rust"@, "validator"@],
            original_path: "src/utils/regex-validator.ts"@,
            language: Some("Rust"@),
            line_count: 256,
            died_at: "2024-03-15T00:00:00Z"@,
            resurrected_at: None,
            resurrected_to: None,
        },
        TombstoneView {
            id: "vue2-admin"@,
            name: "Vue 2.0 admin console"@,
            cause_of_death: "Vue 3 was released"@,
            epitaph: "The Composition API never took it alive"@,
            tags: seq!["vue"@, "admin"@],
            original_path: "packages/admin/src/main.ts"@,
            language: Some("Vue"@),
            line_count: 1542,
            died_at: "2023-01-07T00:00:00Z"@,
            resurrected_at: None,
            resurrected_to: None,
        },
        TombstoneView {
            id: "jquery-branch"@,
            name: "jQuery compatibility branch"@,
            cause_of_death: "IE11 finally died"@,
            epitaph: "Rest in peace, old friend of the legacy web"@,
            tags: seq!["javascript"@, "jquery"@],
            original_path: "src/legacy/jquery-bridge.js"@,
            language: Some("JavaScript"@),
            line_count: 892,
            died_at: "2022-06-15T00:00:00Z"@,
            resurrected_at: None,
            resurrected_to: None,
        },
    ]
}

/// The fixed placeholder records served when the backing store is absent
/// or unreadable: a deliberate degrade-gracefully listing, recognizable
/// by its well-known ids.
pub fn get_mock_corpses() -> (r: Vec<Tombstone>)
    ensures
        r.deep_view() == mock_corpse_views(),
{
    let t0 = Tombstone {
        id: String::from_str("regex-validator"),
        name: String::from_str("RegEx captcha parser"),
        cause_of_death: String::from_str("Slider captchas made it obsolete"),
        epitaph: String::from_str("It once read most captchas, until they learned to evolve"),
        tags: vec![String::from_str("rust"), String::from_str("validator")],
        original_path: String::from_str("src/utils/regex-validator.ts"),
        language: Some(String::from_str("Rust")),
        line_count: 256,
        died_at: String::from_str("2024-03-15T00:00:00Z"),
        resurrected_at: None,
        resurrected_to: None,
    };
    let t1 = Tombstone {
        id: String::from_str("vue2-admin"),
        name: String::from_str("Vue 2.0 admin console"),
        cause_of_death: String::from_str("Vue 3 was released"),
        epitaph: String::from_str("The Composition API never took it alive"),
        tags: vec![String::from_str("vue"), String::from_str("admin")],
        original_path: String::from_str("packages/admin/src/main.ts"),
        language: Some(String::from_str("Vue")),
        line_count: 1542,
        died_at: String::from_str("2023-01-07T00:00:00Z"),
        resurrected_at: None,
        resurrected_to: None,
    };
    let t2 = Tombstone {
        id: String::from_str("jquery-branch"),
        name: String::from_str("jQuery compatibility branch"),
        cause_of_death: String::from_str("IE11 finally died"),
        epitaph: String::from_str("Rest in peace, old friend of the legacy web"),
        tags: vec![String::from_str("javascript"), String::from_str("jquery")],
        original_path: String::from_str("src/legacy/jquery-bridge.js"),
        language: Some(String::from_str("JavaScript")),
        line_count: 892,
        died_at: String::from_str("2022-06-15T00:00:00Z"),
        resurrected_at: None,
        resurrected_to: None,
    };
    proof {
        assert(t0.tags.deep_view() =~= seq!["rust"@, "validator"@]);
        assert(t0.deep_view() =~= mock_corpse_views()[0]);
        assert(t1.tags.deep_view() =~= seq!["vue"@, "admin"@]);
        assert(t1.deep_view() =~= mock_corpse_views()[1]);
        assert(t2.tags.deep_view() =~= seq!["javascript"@, "jquery"@]);
        assert(t2.deep_view() =~= mock_corpse_views()[2]);
    }
    let mut r: Vec<Tombstone> = Vec::new();
    r.push(t0);
    r.push(t1);
    r.push(t2);
    proof {
        assert(r.deep_view()[0] == r@[0].deep_view());
        assert(r.deep_view()[1] == r@[1].deep_view());
        assert(r.deep_view()[2] == r@[2].deep_view());
        assert(r.deep_view() =~= mock_corpse_views());
    }
    r
}

} // verus!
