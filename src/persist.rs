use vstd::prelude::*;
use crate::adapter::{lines_of, split_from, split_lines, words};
use crate::backend::{backend_from_name, backend_name, lemma_backend_name_round_trip, WorkmuxBackend};
use crate::codec::{decimal_text, decimal_value, format_u64, is_digit, is_u64_text, lemma_decimal_text, parse_u64};
use crate::status::{lemma_status_name_round_trip, status_from_name, status_name, WorkmuxAgentStatus};
use crate::store::{placed, AgentRecord, AgentStore, PaneKey, RecordView};

verus! {

/// Lines joined with line breaks between them.
pub open spec fn join_lines(ls: Seq<Seq<char>>) -> Seq<char>
    decreases ls.len(),
{
    if ls.len() == 0 {
        Seq::empty()
    } else if ls.len() == 1 {
        ls[0]
    } else {
        join_lines(ls.drop_last()) + seq!['\n'] + ls.last()
    }
}

/// Joins lines with line breaks.
pub fn join_text(v: &Vec<String>) -> (r: String)
    ensures
        r@ == join_lines(words(v@)),
{
    let mut r = String::new();
    let mut i: usize = 0;
    while i < v.len()
        invariant
            i <= v.len(),
            r@ == join_lines(words(v@).take(i as int)),
        decreases v.len() - i,
    {
        let ghost prev = words(v@).take(i as int);
        assert(words(v@).take(i + 1).drop_last() =~= prev);
        if i == 0 {
            r = v[i].clone();
            assert(words(v@).take(1) =~= seq![v@[0]@]);
        } else {
            proof {
                reveal_strlit("\n");
            }
            r = r.concat("\n").concat(v[i].as_str());
            assert(words(v@).take(i + 1).last() == v@[i as int]@);
            assert(r@ =~= join_lines(words(v@).take(i + 1)));
        }
        i = i + 1;
    }
    assert(words(v@).take(v@.len() as int) =~= words(v@));
    r
}

/// The lines that a record is stored as: backend, pane, working directory,
/// status (empty for none), title after an `=` (empty for none), and the
/// status time in decimal (empty for none).
pub open spec fn record_fields(r: RecordView) -> Seq<Seq<char>> {
    seq![
        backend_name(r.key.0),
        r.key.1,
        r.workdir,
        match r.status {
            Some(s) => status_name(s),
            None => Seq::empty(),
        },
        match r.title {
            Some(t) => seq!['='] + t,
            None => Seq::empty(),
        },
        match r.status_ts {
            Some(n) => decimal_text(n as nat),
            None => Seq::empty(),
        },
    ]
}

/// The stored text of a record.
pub fn encode_record(rec: &AgentRecord) -> (r: String)
    ensures
        r@ == join_lines(record_fields(rec@)),
{
    proof {
        reveal_strlit("=");
    }
    let ghost want = record_fields(rec@);
    let f0 = rec.pane_key.backend.name();
    let f1 = rec.pane_key.pane_id.clone();
    let f2 = rec.workdir.clone();
    let f3 = match rec.status {
        Some(s) => s.name(),
        None => String::new(),
    };
    assert(f3@ == want[3]);
    let f4 = match &rec.pane_title {
        Some(t) => String::from_str("=").concat(t.as_str()),
        None => String::new(),
    };
    assert(f4@ =~= want[4]);
    let f5 = match rec.status_ts {
        Some(n) => format_u64(n),
        None => String::new(),
    };
    assert(f5@ == want[5]);
    let v: Vec<String> = vec![f0, f1, f2, f3, f4, f5];
    assert(words(v@)[0] == v@[0]@ && words(v@)[1] == v@[1]@ && words(v@)[2] == v@[2]@);
    assert(words(v@)[3] == v@[3]@ && words(v@)[4] == v@[4]@ && words(v@)[5] == v@[5]@);
    assert(words(v@) =~= want);
    join_text(&v)
}

pub open spec fn field_status(f: Seq<char>) -> Option<Option<WorkmuxAgentStatus>> {
    if f.len() == 0 {
        Some(None)
    } else {
        match status_from_name(f) {
            Some(s) => Some(Some(s)),
            None => None,
        }
    }
}

pub open spec fn field_title(f: Seq<char>) -> Option<Option<Seq<char>>> {
    if f.len() == 0 {
        Some(None)
    } else if f[0] == '=' {
        Some(Some(f.drop_first()))
    } else {
        None
    }
}

pub open spec fn field_ts(f: Seq<char>) -> Option<Option<u64>> {
    if f.len() == 0 {
        Some(None)
    } else if is_u64_text(f) {
        Some(Some(decimal_value(f) as u64))
    } else {
        None
    }
}

/// The record that a stored text holds, or `None` for a damaged text.
pub open spec fn decoded(t: Seq<char>) -> Option<RecordView> {
    let ls = lines_of(t);
    if ls.len() != 6 {
        None
    } else {
        match (backend_from_name(ls[0]), field_status(ls[3]), field_title(ls[4]), field_ts(ls[5])) {
            (Some(b), Some(s), Some(ti), Some(ts)) => Some(
                RecordView { key: (b, ls[1]), workdir: ls[2], status: s, title: ti, status_ts: ts },
            ),
            _ => None,
        }
    }
}

/// Reads a stored record; `None` for a damaged or partly written text.
pub fn decode_record(text: &str) -> (r: Option<AgentRecord>)
    ensures
        match r {
            Some(a) => decoded(text@) == Some(a@),
            None => decoded(text@) is None,
        },
{
    let ls = split_lines(text);
    if ls.len() != 6 {
        return None;
    }
    let ghost f = words(ls@);
    assert(f[0] == ls@[0]@ && f[1] == ls@[1]@ && f[2] == ls@[2]@);
    assert(f[3] == ls@[3]@ && f[4] == ls@[4]@ && f[5] == ls@[5]@);
    let backend = match WorkmuxBackend::from_name(ls[0].as_str()) {
        Some(b) => b,
        None => return None,
    };
    let status = if ls[3].as_str().unicode_len() == 0 {
        None
    } else {
        match WorkmuxAgentStatus::from_name(ls[3].as_str()) {
            Some(s) => Some(s),
            None => return None,
        }
    };
    let t = ls[4].as_str();
    let tn = t.unicode_len();
    let title = if tn == 0 {
        None
    } else if t.get_char(0) == '=' {
        let rest = t.substring_char(1, tn).to_owned();
        assert(rest@ =~= t@.drop_first());
        Some(rest)
    } else {
        return None;
    };
    let ts = if ls[5].as_str().unicode_len() == 0 {
        None
    } else {
        match parse_u64(ls[5].as_str()) {
            Some(n) => Some(n),
            None => return None,
        }
    };
    let rec = AgentRecord {
        pane_key: PaneKey { backend, pane_id: ls[1].clone() },
        workdir: ls[2].clone(),
        status,
        pane_title: title,
        status_ts: ts,
    };
    Some(rec)
}

/// The registry that a series of stored texts gives: each readable record
/// in turn, a later one replacing an earlier of the same key; damaged texts
/// are passed over.
pub open spec fn loaded(ts: Seq<Seq<char>>) -> Seq<RecordView>
    decreases ts.len(),
{
    if ts.len() == 0 {
        Seq::empty()
    } else {
        let s = loaded(ts.drop_last());
        match decoded(ts.last()) {
            Some(r) => placed(s, r),
            None => s,
        }
    }
}

/// Builds the registry from stored texts, skipping those that do not read.
pub fn load_store(texts: &Vec<String>) -> (r: AgentStore)
    ensures
        r.wf(),
        r@ == loaded(words(texts@)),
{
    let mut store = AgentStore::new();
    let mut i: usize = 0;
    while i < texts.len()
        invariant
            i <= texts.len(),
            store.wf(),
            store@ == loaded(words(texts@).take(i as int)),
        decreases texts.len() - i,
    {
        assert(words(texts@).take(i + 1).drop_last() =~= words(texts@).take(i as int));
        assert(words(texts@).take(i + 1).last() == texts@[i as int]@);
        match decode_record(texts[i].as_str()) {
            Some(rec) => store.put(rec),
            None => {},
        }
        i = i + 1;
    }
    assert(words(texts@).take(texts@.len() as int) =~= words(texts@));
    store
}

/// `t` holds no line break.
pub open spec fn no_break(t: Seq<char>) -> bool {
    forall|i: int| 0 <= i < t.len() ==> t[i] != '\n'
}

proof fn lemma_split_plain(t: Seq<char>, rest: Seq<char>, cur: Seq<char>, acc: Seq<Seq<char>>)
    requires
        no_break(t),
    ensures
        split_from(t + rest, cur, acc) == split_from(rest, cur + t, acc),
    decreases t.len(),
{
    if t.len() == 0 {
        assert(t + rest =~= rest);
        assert(cur + t =~= cur);
    } else {
        assert((t + rest)[0] == t[0]);
        assert((t + rest).drop_first() =~= t.drop_first() + rest);
        lemma_split_plain(t.drop_first(), rest, cur.push(t[0]), acc);
        assert(cur.push(t[0]) + t.drop_first() =~= cur + t);
    }
}

proof fn lemma_split_joined(ls: Seq<Seq<char>>, rest: Seq<char>, acc: Seq<Seq<char>>)
    requires
        ls.len() >= 1,
        forall|i: int| 0 <= i < ls.len() ==> no_break(#[trigger] ls[i]),
    ensures
        split_from(join_lines(ls) + rest, Seq::empty(), acc) == split_from(rest, ls.last(), acc + ls.drop_last()),
    decreases ls.len(),
{
    if ls.len() == 1 {
        lemma_split_plain(ls[0], rest, Seq::empty(), acc);
        assert(Seq::<char>::empty() + ls[0] =~= ls[0]);
        assert(acc + ls.drop_last() =~= acc);
    } else {
        let init = ls.drop_last();
        let tail = seq!['\n'] + ls.last() + rest;
        assert(join_lines(ls) + rest =~= join_lines(init) + tail);
        assert forall|i: int| 0 <= i < init.len() implies no_break(#[trigger] init[i]) by {
            assert(init[i] == ls[i]);
        }
        lemma_split_joined(init, tail, acc);
        assert(tail[0] == '\n');
        assert(tail.drop_first() =~= ls.last() + rest);
        assert((acc + init.drop_last()).push(init.last()) =~= acc + init);
        lemma_split_plain(ls.last(), rest, Seq::empty(), acc + init);
        assert(Seq::<char>::empty() + ls.last() =~= ls.last());
    }
}

/// Joined lines without line breaks of their own split back into the same lines.
pub proof fn lemma_lines_of_joined(ls: Seq<Seq<char>>)
    requires
        ls.len() >= 1,
        forall|i: int| 0 <= i < ls.len() ==> no_break(#[trigger] ls[i]),
    ensures
        lines_of(join_lines(ls)) == ls,
{
    lemma_split_joined(ls, Seq::empty(), Seq::empty());
    assert(join_lines(ls) + Seq::<char>::empty() =~= join_lines(ls));
    assert(Seq::<Seq<char>>::empty() + ls.drop_last() =~= ls.drop_last());
    assert(ls.drop_last().push(ls.last()) =~= ls);
}

/// A record whose pane identity, working directory and title hold no line
/// break reads back from its stored text unchanged.
pub proof fn lemma_record_text_round_trip(r: RecordView)
    requires
        no_break(r.key.1),
        no_break(r.workdir),
        r.title matches Some(t) ==> no_break(t),
    ensures
        decoded(join_lines(record_fields(r))) == Some(r),
{
    let fs = record_fields(r);
    lemma_backend_name_round_trip(r.key.0);
    assert(no_break(fs[0])) by {
        match r.key.0 {
            WorkmuxBackend::Tmux => {},
            WorkmuxBackend::WezTerm => {},
            WorkmuxBackend::Kitty => {},
        }
    }
    reveal_strlit("Working");
    reveal_strlit("Waiting");
    reveal_strlit("Done");
    match r.status {
        Some(st) => {
            lemma_status_name_round_trip(st);
        },
        None => {},
    }
    assert(no_break(fs[3]));
    assert(field_status(fs[3]) == Some(r.status));
    match r.title {
        Some(t) => {
            assert((seq!['='] + t)[0] == '=');
            assert((seq!['='] + t).drop_first() =~= t);
            assert forall|i: int| 0 <= i < fs[4].len() implies fs[4][i] != '\n' by {
                if i > 0 {
                    assert(fs[4][i] == t[i - 1]);
                }
            }
        },
        None => {},
    }
    assert(field_title(fs[4]) == Some(r.title));
    match r.status_ts {
        Some(n) => {
            lemma_decimal_text(n as nat);
            assert(is_u64_text(fs[5]));
            assert forall|i: int| 0 <= i < fs[5].len() implies fs[5][i] != '\n' by {
                assert(is_digit(fs[5][i]));
            }
        },
        None => {},
    }
    assert(field_ts(fs[5]) == Some(r.status_ts));
    assert forall|i: int| 0 <= i < fs.len() implies no_break(#[trigger] fs[i]) by {}
    lemma_lines_of_joined(fs);
}

} // verus!
