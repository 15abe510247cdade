//! The digest store: for each announcement id, the fingerprint that was last
//! dispatched.

use vstd::prelude::*;
use vstd::string::*;
use crate::digest::option_text;
use crate::text::same_text;

verus! {

/// One entry of the store.
#[derive(Clone, Debug, PartialEq, Eq)]
pub struct DigestRecord {
    pub id: String,
    pub fingerprint: String,
}

/// An entry as plain text.
pub struct RecordText {
    pub id: Seq<char>,
    pub fingerprint: Seq<char>,
}

impl View for DigestRecord {
    type V = RecordText;

    open spec fn view(&self) -> RecordText {
        RecordText { id: self.id@, fingerprint: self.fingerprint@ }
    }
}

/// The views of a list of entries.
pub open spec fn record_texts(records: Seq<DigestRecord>) -> Seq<RecordText> {
    records.map_values(|r: DigestRecord| r@)
}

/// The mapping that a list of entries stands for; of two entries with one id
/// the later one counts.
pub open spec fn records_map(records: Seq<RecordText>) -> Map<Seq<char>, Seq<char>>
    decreases records.len(),
{
    if records.len() == 0 {
        Map::empty()
    } else {
        records_map(records.drop_last()).insert(records.last().id, records.last().fingerprint)
    }
}

/// No id occurs twice.
pub open spec fn distinct_ids(records: Seq<RecordText>) -> bool {
    forall|i: int, j: int|
        0 <= i < j < records.len() ==> (#[trigger] records[i]).id != (#[trigger] records[j]).id
}

/// An id is in the mapping exactly where an entry has it.
pub proof fn lemma_map_keys(records: Seq<RecordText>, id: Seq<char>)
    ensures
        records_map(records).contains_key(id) <==> exists|i: int|
            0 <= i < records.len() && (#[trigger] records[i]).id == id,
    decreases records.len(),
{
    if records.len() > 0 {
        let front = records.drop_last();
        lemma_map_keys(front, id);
        if records_map(records).contains_key(id) {
            if records.last().id == id {
                assert(records[records.len() - 1].id == id);
            } else {
                let i = choose|i: int| 0 <= i < front.len() && (#[trigger] front[i]).id == id;
                assert(records[i].id == id);
            }
        }
        if exists|i: int| 0 <= i < records.len() && (#[trigger] records[i]).id == id {
            let i = choose|i: int| 0 <= i < records.len() && (#[trigger] records[i]).id == id;
            if i < records.len() - 1 {
                assert(front[i].id == id);
            }
        }
    }
}

/// Where no id occurs twice, each entry's fingerprint is what the mapping
/// holds under its id.
pub proof fn lemma_map_entry(records: Seq<RecordText>, i: int)
    requires
        distinct_ids(records),
        0 <= i < records.len(),
    ensures
        records_map(records).contains_key(records[i].id),
        records_map(records)[records[i].id] == records[i].fingerprint,
    decreases records.len(),
{
    let front = records.drop_last();
    if i < records.len() - 1 {
        assert(distinct_ids(front)) by {
            assert forall|a: int, b: int| 0 <= a < b < front.len() implies (#[trigger] front[a]).id
                != (#[trigger] front[b]).id by {
                assert(front[a] == records[a]);
                assert(front[b] == records[b]);
            }
        }
        lemma_map_entry(front, i);
        assert(front[i] == records[i]);
        assert(records[i].id != records[records.len() - 1].id);
    }
}

/// Where no id occurs twice, a new fingerprint for the id of entry `i`
/// changes the mapping as an insertion does.
pub proof fn lemma_map_update(records: Seq<RecordText>, i: int, fingerprint: Seq<char>)
    requires
        distinct_ids(records),
        0 <= i < records.len(),
    ensures
        distinct_ids(records.update(i, RecordText { id: records[i].id, fingerprint })),
        records_map(records.update(i, RecordText { id: records[i].id, fingerprint }))
            == records_map(records).insert(records[i].id, fingerprint),
    decreases records.len(),
{
    let entry = RecordText { id: records[i].id, fingerprint };
    let updated = records.update(i, entry);
    let front = records.drop_last();
    assert(distinct_ids(updated)) by {
        assert forall|a: int, b: int| 0 <= a < b < updated.len() implies (#[trigger] updated[a]).id
            != (#[trigger] updated[b]).id by {
            assert(updated[a].id == records[a].id);
            assert(updated[b].id == records[b].id);
        }
    }
    if i == records.len() - 1 {
        assert(updated.drop_last() =~= front);
        assert(records_map(updated) =~= records_map(records).insert(records[i].id, fingerprint));
    } else {
        assert(distinct_ids(front)) by {
            assert forall|a: int, b: int| 0 <= a < b < front.len() implies (#[trigger] front[a]).id
                != (#[trigger] front[b]).id by {
                assert(front[a] == records[a]);
                assert(front[b] == records[b]);
            }
        }
        lemma_map_update(front, i, fingerprint);
        assert(front[i] == records[i]);
        assert(updated.drop_last() =~= front.update(i, entry));
        assert(updated.last() == records.last());
        assert(records[i].id != records[records.len() - 1].id);
        assert(records_map(updated) =~= records_map(records).insert(records[i].id, fingerprint));
    }
}

/// The store. A well-formed store has at most one entry for an id.
#[derive(Clone, Debug)]
pub struct DigestStore {
    records: Vec<DigestRecord>,
}

impl View for DigestStore {
    type V = Map<Seq<char>, Seq<char>>;

    closed spec fn view(&self) -> Map<Seq<char>, Seq<char>> {
        records_map(record_texts(self.records@))
    }
}

impl DigestStore {
    /// Whether no id has more than one entry.
    pub closed spec fn wf(&self) -> bool {
        distinct_ids(record_texts(self.records@))
    }

    /// A store that holds nothing.
    pub fn new() -> (out: DigestStore)
        ensures
            out.wf(),
            out@ == Map::<Seq<char>, Seq<char>>::empty(),
    {
        DigestStore { records: Vec::new() }
    }

    /// Position of the entry for `id`, if there is one.
    fn position(&self, id: &str) -> (out: Option<usize>)
        ensures
            match out {
                Some(i) => i < self.records@.len() && self.records@[i as int].id@ == id@,
                None => forall|k: int| 0 <= k < self.records@.len() ==> self.records@[k].id@ != id@,
            },
    {
        let mut i: usize = 0;
        while i < self.records.len()
            invariant
                i <= self.records@.len(),
                forall|k: int| 0 <= k < i ==> self.records@[k].id@ != id@,
            decreases self.records@.len() - i,
        {
            if same_text(self.records[i].id.as_str(), id) {
                return Some(i);
            }
            i += 1;
        }
        None
    }

    /// The fingerprint stored for `id`, if any.
    pub fn get(&self, id: &str) -> (out: Option<String>)
        requires
            self.wf(),
        ensures
            option_text(out) == (if self@.contains_key(id@) {
                Some(self@[id@])
            } else {
                None
            }),
    {
        let ghost texts = record_texts(self.records@);
        proof {
            lemma_map_keys(texts, id@);
        }
        match self.position(id) {
            Some(i) => {
                proof {
                    assert(texts[i as int] == self.records@[i as int]@);
                    lemma_map_entry(texts, i as int);
                }
                Some(self.records[i].fingerprint.clone())
            },
            None => {
                proof {
                    if self@.contains_key(id@) {
                        let k = choose|k: int| 0 <= k < texts.len() && (#[trigger] texts[k]).id == id@;
                        assert(texts[k] == self.records@[k]@);
                    }
                }
                None
            },
        }
    }

    /// Stores `fingerprint` for `id`, in place of what was stored for it.
    pub fn set(&mut self, id: &str, fingerprint: &str)
        requires
            old(self).wf(),
        ensures
            final(self).wf(),
            final(self)@ == old(self)@.insert(id@, fingerprint@),
    {
        let ghost texts = record_texts(self.records@);
        let entry = DigestRecord { id: id.to_owned(), fingerprint: fingerprint.to_owned() };
        match self.position(id) {
            Some(i) => {
                proof {
                    assert(texts[i as int] == self.records@[i as int]@);
                    lemma_map_update(texts, i as int, fingerprint@);
                }
                self.records.set(i, entry);
                assert(record_texts(self.records@) =~= texts.update(
                    i as int,
                    RecordText { id: id@, fingerprint: fingerprint@ },
                ));
            },
            None => {
                self.records.push(entry);
                proof {
                    let grown = record_texts(self.records@);
                    assert(grown.drop_last() =~= texts);
                    assert(grown.last() == RecordText { id: id@, fingerprint: fingerprint@ });
                    assert forall|a: int, b: int| 0 <= a < b < grown.len() implies (
                    #[trigger] grown[a]).id != (#[trigger] grown[b]).id by {
                        assert(grown[a] == texts[a]);
                        assert(texts[a] == old(self).records@[a]@);
                        if b < texts.len() {
                            assert(grown[b] == texts[b]);
                        }
                    }
                }
            },
        }
    }

    /// The entries of the store, as a flat list that can be written out and
    /// read back with `restore`.
    pub fn snapshot(&self) -> (out: Vec<DigestRecord>)
        requires
            self.wf(),
        ensures
            distinct_ids(record_texts(out@)),
            records_map(record_texts(out@)) == self@,
    {
        let mut out: Vec<DigestRecord> = Vec::new();
        let mut i: usize = 0;
        while i < self.records.len()
            invariant
                i <= self.records@.len(),
                out@.len() == i,
                forall|k: int| 0 <= k < i ==> out@[k]@ == self.records@[k]@,
            decreases self.records@.len() - i,
        {
            out.push(
                DigestRecord {
                    id: self.records[i].id.clone(),
                    fingerprint: self.records[i].fingerprint.clone(),
                },
            );
            i += 1;
        }
        assert(record_texts(out@) =~= record_texts(self.records@));
        out
    }

    /// The store that a flat list of entries stands for. Of two entries with
    /// one id the later one counts.
    pub fn restore(records: &Vec<DigestRecord>) -> (out: DigestStore)
        ensures
            out.wf(),
            out@ == records_map(record_texts(records@)),
    {
        let ghost texts = record_texts(records@);
        let mut out = DigestStore::new();
        let mut i: usize = 0;
        while i < records.len()
            invariant
                texts == record_texts(records@),
                i <= records@.len(),
                out.wf(),
                out@ == records_map(texts.take(i as int)),
            decreases records@.len() - i,
        {
            proof {
                assert(texts.take(i + 1).drop_last() =~= texts.take(i as int));
                assert(texts.take(i + 1).last() == records@[i as int]@);
            }
            out.set(records[i].id.as_str(), records[i].fingerprint.as_str());
            i += 1;
        }
        assert(texts.take(records@.len() as int) =~= texts);
        out
    }

    /// The store as it comes back from a restart: its snapshot, restored.
    /// It holds what this store holds.
    pub fn reload(&self) -> (out: DigestStore)
        requires
            self.wf(),
        ensures
            out.wf(),
            out@ == self@,
    {
        let written = self.snapshot();
        DigestStore::restore(&written)
    }

    /// Number of ids that the store holds a fingerprint for.
    pub fn len(&self) -> (out: usize)
        requires
            self.wf(),
        ensures
            out == self@.dom().len(),
            self@.dom().finite(),
    {
        proof {
            lemma_map_size(record_texts(self.records@));
        }
        self.records.len()
    }
}

/// Where no id occurs twice, the mapping has as many ids as there are
/// entries.
pub proof fn lemma_map_size(records: Seq<RecordText>)
    requires
        distinct_ids(records),
    ensures
        records_map(records).dom().finite(),
        records_map(records).dom().len() == records.len(),
    decreases records.len(),
{
    if records.len() > 0 {
        let front = records.drop_last();
        assert(distinct_ids(front)) by {
            assert forall|a: int, b: int| 0 <= a < b < front.len() implies (#[trigger] front[a]).id
                != (#[trigger] front[b]).id by {
                assert(front[a] == records[a]);
                assert(front[b] == records[b]);
            }
        }
        lemma_map_size(front);
        lemma_map_keys(front, records.last().id);
        if records_map(front).contains_key(records.last().id) {
            let i = choose|i: int|
                0 <= i < front.len() && (#[trigger] front[i]).id == records.last().id;
            assert(front[i] == records[i]);
            assert(records[i].id != records[records.len() - 1].id);
        }
        assert(records_map(records).dom() =~= records_map(front).dom().insert(records.last().id));
    }
}

} // verus!
