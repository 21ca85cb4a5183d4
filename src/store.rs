use vstd::prelude::*;
use crate::backend::WorkmuxBackend;
use crate::status::WorkmuxAgentStatus;

verus! {

/// Identity of a live pane: unique within its multiplexer, never reused for
/// another live pane.
#[derive(Debug)]
pub struct PaneKey {
    pub backend: WorkmuxBackend,
    pub pane_id: String,
}

impl View for PaneKey {
    type V = (WorkmuxBackend, Seq<char>);

    open spec fn view(&self) -> (WorkmuxBackend, Seq<char>) {
        (self.backend, self.pane_id@)
    }
}

impl PaneKey {
    /// A copy of this key.
    pub fn duplicate(&self) -> (r: PaneKey)
        ensures
            r@ == self@,
    {
        PaneKey { backend: self.backend, pane_id: self.pane_id.clone() }
    }

    /// Whether two keys name the same pane.
    pub fn same(&self, other: &PaneKey) -> (r: bool)
        ensures
            r == (self@ == other@),
    {
        self.backend == other.backend && self.pane_id == other.pane_id
    }
}

/// One agent's entry in the registry.
#[derive(Debug)]
pub struct AgentRecord {
    pub pane_key: PaneKey,
    /// Absolute path of the agent's working directory.
    pub workdir: String,
    pub status: Option<WorkmuxAgentStatus>,
    pub pane_title: Option<String>,
    /// Seconds since the Unix epoch of the last status update.
    pub status_ts: Option<u64>,
}

/// What a record holds, as values.
pub struct RecordView {
    pub key: (WorkmuxBackend, Seq<char>),
    pub workdir: Seq<char>,
    pub status: Option<WorkmuxAgentStatus>,
    pub title: Option<Seq<char>>,
    pub status_ts: Option<u64>,
}

pub open spec fn opt_view(o: Option<String>) -> Option<Seq<char>> {
    match o {
        Some(s) => Some(s@),
        None => None,
    }
}

fn copy_opt(o: &Option<String>) -> (r: Option<String>)
    ensures
        opt_view(r) == opt_view(*o),
{
    match o {
        Some(s) => Some(s.clone()),
        None => None,
    }
}

impl View for AgentRecord {
    type V = RecordView;

    open spec fn view(&self) -> RecordView {
        RecordView {
            key: self.pane_key@,
            workdir: self.workdir@,
            status: self.status,
            title: opt_view(self.pane_title),
            status_ts: self.status_ts,
        }
    }
}

impl AgentRecord {
    /// A copy of this record.
    pub fn duplicate(&self) -> (r: AgentRecord)
        ensures
            r@ == self@,
    {
        AgentRecord {
            pane_key: self.pane_key.duplicate(),
            workdir: self.workdir.clone(),
            status: self.status,
            pane_title: copy_opt(&self.pane_title),
            status_ts: self.status_ts,
        }
    }
}

pub open spec fn records_view(v: Seq<AgentRecord>) -> Seq<RecordView> {
    v.map_values(|r: AgentRecord| r@)
}

/// No two records share a key.
pub open spec fn keys_distinct(s: Seq<RecordView>) -> bool {
    forall|i: int, j: int| 0 <= i < j < s.len() ==> s[i].key != s[j].key
}

/// Position of the record for `k`, or -1.
pub open spec fn key_index(s: Seq<RecordView>, k: (WorkmuxBackend, Seq<char>)) -> int
    decreases s.len(),
{
    if s.len() == 0 {
        -1
    } else if s.last().key == k {
        s.len() - 1
    } else {
        key_index(s.drop_last(), k)
    }
}

/// The record for `k`, if there is one.
pub open spec fn record_for(s: Seq<RecordView>, k: (WorkmuxBackend, Seq<char>)) -> Option<RecordView> {
    let i = key_index(s, k);
    if i >= 0 {
        Some(s[i])
    } else {
        None
    }
}

/// A record after an update: only the supplied fields change, and a supplied
/// status stamps the time.
pub open spec fn merged(
    r: RecordView,
    status: Option<WorkmuxAgentStatus>,
    title: Option<Seq<char>>,
    now: u64,
) -> RecordView {
    RecordView {
        key: r.key,
        workdir: r.workdir,
        status: if status is Some { status } else { r.status },
        title: if title is Some { title } else { r.title },
        status_ts: if status is Some { Some(now) } else { r.status_ts },
    }
}

/// The record that a first update for a key creates.
pub open spec fn created(
    k: (WorkmuxBackend, Seq<char>),
    workdir: Seq<char>,
    status: Option<WorkmuxAgentStatus>,
    title: Option<Seq<char>>,
    now: u64,
) -> RecordView {
    RecordView {
        key: k,
        workdir,
        status,
        title,
        status_ts: if status is Some { Some(now) } else { None },
    }
}

/// The registry after one update of `k`.
pub open spec fn upserted(
    s: Seq<RecordView>,
    k: (WorkmuxBackend, Seq<char>),
    workdir: Seq<char>,
    status: Option<WorkmuxAgentStatus>,
    title: Option<Seq<char>>,
    now: u64,
) -> Seq<RecordView> {
    let i = key_index(s, k);
    if i >= 0 {
        s.update(i, merged(s[i], status, title, now))
    } else {
        s.push(created(k, workdir, status, title, now))
    }
}

/// `key_index` finds the record with the key, or reports that none has it.
pub proof fn lemma_key_index(s: Seq<RecordView>, k: (WorkmuxBackend, Seq<char>))
    ensures
        -1 <= key_index(s, k) < s.len(),
        key_index(s, k) >= 0 ==> s[key_index(s, k)].key == k,
        key_index(s, k) < 0 ==> forall|j: int| 0 <= j < s.len() ==> s[j].key != k,
    decreases s.len(),
{
    if s.len() > 0 && s.last().key != k {
        lemma_key_index(s.drop_last(), k);
        assert forall|j: int| 0 <= j < s.len() - 1 implies s[j] == s.drop_last()[j] by {}
    }
}

/// With distinct keys, the record at `i` is the one `key_index` finds.
pub proof fn lemma_key_index_unique(s: Seq<RecordView>, i: int)
    requires
        keys_distinct(s),
        0 <= i < s.len(),
    ensures
        key_index(s, s[i].key) == i,
{
    lemma_key_index(s, s[i].key);
}

/// An update keeps the keys distinct.
pub proof fn lemma_upserted_distinct(
    s: Seq<RecordView>,
    k: (WorkmuxBackend, Seq<char>),
    workdir: Seq<char>,
    status: Option<WorkmuxAgentStatus>,
    title: Option<Seq<char>>,
    now: u64,
)
    requires
        keys_distinct(s),
    ensures
        keys_distinct(upserted(s, k, workdir, status, title, now)),
{
    lemma_key_index(s, k);
}

/// The registry with `r` in place of the record of its key, or added.
pub open spec fn placed(s: Seq<RecordView>, r: RecordView) -> Seq<RecordView> {
    let i = key_index(s, r.key);
    if i >= 0 {
        s.update(i, r)
    } else {
        s.push(r)
    }
}

/// A second update of a key with status `b`, after a first with status `a`,
/// leaves exactly one record for the key, and it shows `b`, stamped at the
/// second update's time, which is no earlier than the first stamp.
pub proof fn lemma_last_status_wins(
    s: Seq<RecordView>,
    k: (WorkmuxBackend, Seq<char>),
    w1: Seq<char>,
    a: WorkmuxAgentStatus,
    title1: Option<Seq<char>>,
    t1: u64,
    w2: Seq<char>,
    b: WorkmuxAgentStatus,
    title2: Option<Seq<char>>,
    t2: u64,
)
    requires
        keys_distinct(s),
        t1 <= t2,
    ensures
        ({
            let s1 = upserted(s, k, w1, Some(a), title1, t1);
            let s2 = upserted(s1, k, w2, Some(b), title2, t2);
            &&& record_for(s1, k) is Some
            &&& record_for(s1, k)->0.status == Some(a)
            &&& record_for(s1, k)->0.status_ts == Some(t1)
            &&& record_for(s2, k) is Some
            &&& record_for(s2, k)->0.status == Some(b)
            &&& record_for(s2, k)->0.status_ts == Some(t2)
            &&& t1 <= t2
            &&& keys_distinct(s2)
            &&& forall|j: int| 0 <= j < s2.len() && (#[trigger] s2[j]).key == k ==> s2[j].status == Some(b)
        }),
{
    let s1 = upserted(s, k, w1, Some(a), title1, t1);
    lemma_key_index(s, k);
    lemma_upserted_distinct(s, k, w1, Some(a), title1, t1);
    lemma_key_index(s1, k);
    let i1 = key_index(s1, k);
    assert(i1 >= 0) by {
        if key_index(s, k) < 0 {
            assert(s1[s.len() as int].key == k);
        } else {
            assert(s1[key_index(s, k)].key == k);
        }
    }
    lemma_key_index_unique(s1, i1);
    assert(record_for(s1, k) == Some(s1[i1]));
    let s2 = upserted(s1, k, w2, Some(b), title2, t2);
    lemma_upserted_distinct(s1, k, w2, Some(b), title2, t2);
    assert(s2[i1].key == k);
    lemma_key_index_unique(s2, i1);
    assert forall|j: int| 0 <= j < s2.len() && (#[trigger] s2[j]).key == k implies s2[j].status == Some(b) by {
        lemma_key_index_unique(s2, j);
    }
}

/// One update as values: the pane key, the working directory of a new
/// record, the supplied status and title, and the time.
pub struct UpdateView {
    pub key: (WorkmuxBackend, Seq<char>),
    pub workdir: Seq<char>,
    pub status: Option<WorkmuxAgentStatus>,
    pub title: Option<Seq<char>>,
    pub now: u64,
}

/// The registry after a series of updates, applied in order.
pub open spec fn upserted_all(s: Seq<RecordView>, ups: Seq<UpdateView>) -> Seq<RecordView>
    decreases ups.len(),
{
    if ups.len() == 0 {
        s
    } else {
        let u = ups[0];
        upserted_all(upserted(s, u.key, u.workdir, u.status, u.title, u.now), ups.drop_first())
    }
}

/// Updates whose keys differ from each other and from every record.
pub open spec fn fresh_keys(s: Seq<RecordView>, ups: Seq<UpdateView>) -> bool {
    &&& forall|i: int, j: int| 0 <= i < j < ups.len() ==> ups[i].key != ups[j].key
    &&& forall|i: int, j: int| 0 <= i < ups.len() && 0 <= j < s.len() ==> ups[i].key != s[j].key
}

proof fn lemma_upserted_all_fresh(s: Seq<RecordView>, ups: Seq<UpdateView>)
    requires
        keys_distinct(s),
        fresh_keys(s, ups),
    ensures
        upserted_all(s, ups).len() == s.len() + ups.len(),
        keys_distinct(upserted_all(s, ups)),
        forall|i: int| 0 <= i < ups.len() ==> record_for(upserted_all(s, ups), (#[trigger] ups[i]).key)
            == Some(created(ups[i].key, ups[i].workdir, ups[i].status, ups[i].title, ups[i].now)),
        forall|k: (WorkmuxBackend, Seq<char>)| (forall|i: int| 0 <= i < ups.len() ==> (#[trigger] ups[i]).key != k)
            ==> #[trigger] record_for(upserted_all(s, ups), k) == record_for(s, k),
    decreases ups.len(),
{
    if ups.len() > 0 {
        let u = ups[0];
        let rest = ups.drop_first();
        lemma_key_index(s, u.key);
        let c = created(u.key, u.workdir, u.status, u.title, u.now);
        let s1 = upserted(s, u.key, u.workdir, u.status, u.title, u.now);
        assert(s1 == s.push(c));
        lemma_upserted_distinct(s, u.key, u.workdir, u.status, u.title, u.now);
        assert(fresh_keys(s1, rest)) by {
            assert forall|i: int, j: int| 0 <= i < rest.len() && 0 <= j < s1.len() implies rest[i].key != s1[j].key by {
                assert(rest[i] == ups[i + 1]);
            }
            assert forall|i: int, j: int| 0 <= i < j < rest.len() implies rest[i].key != rest[j].key by {
                assert(rest[i] == ups[i + 1] && rest[j] == ups[j + 1]);
            }
        }
        lemma_upserted_all_fresh(s1, rest);
        assert(s1.drop_last() =~= s);
        assert forall|k: (WorkmuxBackend, Seq<char>)| k != u.key implies key_index(s1, k) == key_index(s, k) by {}
        assert forall|k: (WorkmuxBackend, Seq<char>)| k != u.key implies record_for(s1, k) == record_for(s, k) by {
            lemma_key_index(s, k);
        }
        assert(record_for(s1, u.key) == Some(c));
        assert forall|i: int| 0 <= i < rest.len() implies (#[trigger] rest[i]).key != u.key by {
            assert(rest[i] == ups[i + 1]);
        }
        assert forall|i: int| 0 <= i < ups.len() implies record_for(upserted_all(s, ups), (#[trigger] ups[i]).key)
            == Some(created(ups[i].key, ups[i].workdir, ups[i].status, ups[i].title, ups[i].now)) by {
            if i > 0 {
                assert(rest[i - 1] == ups[i]);
            }
        }
        assert forall|k: (WorkmuxBackend, Seq<char>)| (forall|i: int| 0 <= i < ups.len() ==> (#[trigger] ups[i]).key != k)
            implies #[trigger] record_for(upserted_all(s, ups), k) == record_for(s, k) by {
            assert(ups[0].key != k);
            assert forall|i: int| 0 <= i < rest.len() implies (#[trigger] rest[i]).key != k by {
                assert(rest[i] == ups[i + 1]);
            }
        }
    }
}

/// Updates of `n` distinct keys, starting from an empty registry and taken in
/// any order, leave exactly `n` records, one per key, each holding what its
/// own update supplied.
pub proof fn lemma_distinct_updates_all_kept(ups: Seq<UpdateView>)
    requires
        forall|i: int, j: int| 0 <= i < j < ups.len() ==> ups[i].key != ups[j].key,
    ensures
        upserted_all(Seq::empty(), ups).len() == ups.len(),
        keys_distinct(upserted_all(Seq::empty(), ups)),
        forall|i: int| 0 <= i < ups.len() ==> record_for(upserted_all(Seq::empty(), ups), (#[trigger] ups[i]).key)
            == Some(created(ups[i].key, ups[i].workdir, ups[i].status, ups[i].title, ups[i].now)),
{
    lemma_upserted_all_fresh(Seq::empty(), ups);
}

/// The registry of agent records: one record per pane key.
#[derive(Debug)]
pub struct AgentStore {
    records: Vec<AgentRecord>,
}

impl View for AgentStore {
    type V = Seq<RecordView>;

    closed spec fn view(&self) -> Seq<RecordView> {
        records_view(self.records@)
    }
}

impl AgentStore {
    /// Well-formed: no two records share a key.
    pub open spec fn wf(&self) -> bool {
        keys_distinct(self@)
    }

    /// An empty registry.
    pub fn new() -> (r: AgentStore)
        ensures
            r.wf(),
            r@ == Seq::<RecordView>::empty(),
    {
        let r = AgentStore { records: Vec::new() };
        assert(r@ =~= Seq::<RecordView>::empty());
        r
    }

    /// Number of records.
    pub fn len(&self) -> (r: usize)
        ensures
            r == self@.len(),
    {
        self.records.len()
    }

    /// Position of the record for `key`, or `None`.
    fn find(&self, key: &PaneKey) -> (r: Option<usize>)
        requires
            self.wf(),
        ensures
            match r {
                Some(i) => key_index(self@, key@) == i as int,
                None => key_index(self@, key@) == -1,
            },
    {
        let mut i: usize = 0;
        while i < self.records.len()
            invariant
                i <= self.records.len(),
                self.wf(),
                forall|j: int| 0 <= j < i ==> (#[trigger] self@[j]).key != key@,
            decreases self.records.len() - i,
        {
            if self.records[i].pane_key.same(key) {
                proof {
                    lemma_key_index_unique(self@, i as int);
                }
                return Some(i);
            }
            i = i + 1;
        }
        proof {
            lemma_key_index(self@, key@);
        }
        None
    }

    /// Creates the record for `key` on its first update; otherwise changes only
    /// the supplied fields. A supplied status stamps `now`.
    pub fn upsert(
        &mut self,
        key: PaneKey,
        workdir: String,
        status: Option<WorkmuxAgentStatus>,
        title: Option<String>,
        now: u64,
    )
        requires
            old(self).wf(),
        ensures
            final(self).wf(),
            final(self)@ == upserted(old(self)@, key@, workdir@, status, opt_view(title), now),
    {
        proof {
            lemma_upserted_distinct(self@, key@, workdir@, status, opt_view(title), now);
            lemma_key_index(self@, key@);
        }
        match self.find(&key) {
            Some(i) => {
                let prev = &self.records[i];
                let rec = AgentRecord {
                    pane_key: prev.pane_key.duplicate(),
                    workdir: prev.workdir.clone(),
                    status: if status.is_some() { status } else { prev.status },
                    pane_title: match title {
                        Some(t) => Some(t),
                        None => copy_opt(&prev.pane_title),
                    },
                    status_ts: if status.is_some() { Some(now) } else { prev.status_ts },
                };
                let ghost before = self@;
                self.records.set(i, rec);
                assert(self@ =~= before.update(i as int, merged(before[i as int], status, opt_view(title), now)));
            },
            None => {
                let ghost before = self@;
                let ts = if status.is_some() { Some(now) } else { None };
                let rec = AgentRecord { pane_key: key, workdir, status, pane_title: title, status_ts: ts };
                self.records.push(rec);
                assert(self@ =~= before.push(created(key@, workdir@, status, opt_view(title), now)));
            },
        }
    }

    /// Stores a whole record, replacing the one of the same key.
    pub fn put(&mut self, rec: AgentRecord)
        requires
            old(self).wf(),
        ensures
            final(self).wf(),
            final(self)@ == placed(old(self)@, rec@),
    {
        proof {
            lemma_key_index(self@, rec@.key);
        }
        let ghost before = self@;
        match self.find(&rec.pane_key) {
            Some(i) => {
                self.records.set(i, rec);
                assert(self@ =~= before.update(i as int, rec@));
            },
            None => {
                self.records.push(rec);
                assert(self@ =~= before.push(rec@));
            },
        }
    }

    /// A snapshot of every record; the order carries no meaning.
    pub fn list_all(&self) -> (r: Vec<AgentRecord>)
        ensures
            records_view(r@) == self@,
    {
        let mut out: Vec<AgentRecord> = Vec::new();
        let mut i: usize = 0;
        while i < self.records.len()
            invariant
                i <= self.records.len(),
                out@.len() == i,
                forall|j: int| 0 <= j < i ==> (#[trigger] out@[j])@ == self.records@[j]@,
            decreases self.records.len() - i,
        {
            let rec = self.records[i].duplicate();
            out.push(rec);
            i = i + 1;
        }
        assert(records_view(out@) =~= self@);
        out
    }
}

} // verus!
