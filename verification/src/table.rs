use vstd::prelude::*;

use crate::outcome::{Outcome, OutcomeView};

verus! {

/// One recorded write: a task identifier with the outcome recorded under it.
pub type RecordedPair = (Seq<char>, OutcomeView);

/// The table a sequence of writes builds, applied left to right: a later
/// write under an identifier overwrites an earlier one.
pub open spec fn table_of(pairs: Seq<RecordedPair>) -> Map<Seq<char>, OutcomeView>
    decreases pairs.len(),
{
    if pairs.len() == 0 {
        Map::empty()
    } else {
        table_of(pairs.drop_last()).insert(pairs.last().0, pairs.last().1)
    }
}

/// The identifiers of a sequence of writes, in order.
pub open spec fn ids_of(pairs: Seq<RecordedPair>) -> Seq<Seq<char>> {
    pairs.map_values(|p: RecordedPair| p.0)
}

/// The table a sequence of writes builds holds exactly the identifiers
/// written: no other key, and none missing.
pub proof fn lemma_table_of_dom(pairs: Seq<RecordedPair>)
    ensures
        table_of(pairs).dom() == ids_of(pairs).to_set(),
    decreases pairs.len(),
{
    broadcast use vstd::set::group_set_axioms;

    if pairs.len() == 0 {
        assert(table_of(pairs).dom() =~= ids_of(pairs).to_set());
    } else {
        let prev = pairs.drop_last();
        lemma_table_of_dom(prev);
        assert forall|k: Seq<char>| #[trigger] table_of(pairs).dom().contains(k) implies ids_of(
            pairs,
        ).to_set().contains(k) by {
            if k == pairs.last().0 {
                assert(ids_of(pairs)[pairs.len() - 1] == k);
                assert(ids_of(pairs).contains(k));
            } else {
                assert(ids_of(prev).contains(k));
                let i = choose|i: int| 0 <= i < ids_of(prev).len() && ids_of(prev)[i] == k;
                assert(ids_of(pairs)[i] == k);
                assert(ids_of(pairs).contains(k));
            }
        };
        assert forall|k: Seq<char>| ids_of(pairs).to_set().contains(k) implies table_of(
            pairs,
        ).dom().contains(k) by {
            let i = choose|i: int| 0 <= i < ids_of(pairs).len() && ids_of(pairs)[i] == k;
            if i < pairs.len() - 1 {
                assert(ids_of(prev)[i] == k);
                assert(ids_of(prev).contains(k));
            }
        };
        assert(table_of(pairs).dom() =~= ids_of(pairs).to_set());
    }
}

/// With no identifier written twice, the table holds each write as it was
/// made: the pair at any index is in the table.
pub proof fn lemma_table_of_index(pairs: Seq<RecordedPair>, i: int)
    requires
        ids_of(pairs).no_duplicates(),
        0 <= i < pairs.len(),
    ensures
        table_of(pairs).contains_key(pairs[i].0),
        table_of(pairs)[pairs[i].0] == pairs[i].1,
    decreases pairs.len(),
{
    let prev = pairs.drop_last();
    if i == pairs.len() - 1 {
    } else {
        assert forall|a: int, b: int| 0 <= a < b < ids_of(prev).len() implies ids_of(prev)[a]
            != ids_of(prev)[b] by {
            assert(ids_of(pairs)[a] != ids_of(pairs)[b]);
        };
        lemma_table_of_index(prev, i);
        assert(ids_of(pairs)[i] != ids_of(pairs)[pairs.len() - 1]);
    }
}

/// Two write sequences that record the same writes, each identifier once,
/// build the same table, whatever order the writes came in.
pub proof fn lemma_table_of_permutation(p1: Seq<RecordedPair>, p2: Seq<RecordedPair>)
    requires
        ids_of(p1).no_duplicates(),
        ids_of(p2).no_duplicates(),
        p1.to_multiset() == p2.to_multiset(),
    ensures
        table_of(p1) == table_of(p2),
{
    broadcast use vstd::set::group_set_axioms;
    broadcast use vstd::seq_lib::group_to_multiset_ensures;

    lemma_table_of_dom(p1);
    lemma_table_of_dom(p2);
    assert forall|k: Seq<char>| #[trigger] table_of(p1).dom().contains(k) implies table_of(
        p2,
    ).dom().contains(k) && table_of(p1)[k] == table_of(p2)[k] by {
        let i = choose|i: int| 0 <= i < ids_of(p1).len() && ids_of(p1)[i] == k;
        assert(p1[i].0 == k);
        assert(p1.contains(p1[i]));
        assert(p1.to_multiset().count(p1[i]) > 0);
        assert(p2.contains(p1[i]));
        let j = choose|j: int| 0 <= j < p2.len() && p2[j] == p1[i];
        assert(ids_of(p2)[j] == k);
        assert(ids_of(p2).contains(k));
        lemma_table_of_index(p1, i);
        lemma_table_of_index(p2, j);
    };
    assert forall|k: Seq<char>| #[trigger] table_of(p2).dom().contains(k) implies table_of(
        p1,
    ).dom().contains(k) by {
        let j = choose|j: int| 0 <= j < ids_of(p2).len() && ids_of(p2)[j] == k;
        assert(p2[j].0 == k);
        assert(p2.contains(p2[j]));
        assert(p2.to_multiset().count(p2[j]) > 0);
        assert(p1.contains(p2[j]));
        let i = choose|i: int| 0 <= i < p1.len() && p1[i] == p2[j];
        assert(ids_of(p1)[i] == k);
        assert(ids_of(p1).contains(k));
    };
    assert(table_of(p1) =~= table_of(p2));
}

/// Overwriting the one write an identifier has: replacing its pair by a new
/// pair under the same identifier builds the table an insert builds.
proof fn lemma_table_of_overwrite(pairs: Seq<RecordedPair>, i: int, p: RecordedPair)
    requires
        ids_of(pairs).no_duplicates(),
        0 <= i < pairs.len(),
        pairs[i].0 == p.0,
    ensures
        ids_of(pairs.update(i, p)).no_duplicates(),
        table_of(pairs.update(i, p)) == table_of(pairs).insert(p.0, p.1),
{
    broadcast use vstd::set::group_set_axioms;

    let q = pairs.update(i, p);
    assert(ids_of(q) =~= ids_of(pairs));
    lemma_table_of_dom(pairs);
    lemma_table_of_dom(q);
    assert(ids_of(pairs).to_set().contains(p.0)) by {
        assert(ids_of(pairs)[i] == p.0);
        assert(ids_of(pairs).contains(p.0));
    };
    assert forall|k: Seq<char>| #[trigger] table_of(q).dom().contains(k) implies table_of(q)[k]
        == table_of(pairs).insert(p.0, p.1)[k] by {
        if k == p.0 {
            lemma_table_of_index(q, i);
        } else {
            let j = choose|j: int| 0 <= j < ids_of(q).len() && ids_of(q)[j] == k;
            assert(ids_of(pairs)[i] == p.0);
            assert(j != i);
            assert(q[j] == pairs[j]);
            lemma_table_of_index(q, j);
            lemma_table_of_index(pairs, j);
        }
    };
    assert(table_of(q) =~= table_of(pairs).insert(p.0, p.1));
}

/// Relies on str's PartialEq: two strings are equal exactly when their
/// character sequences are.
#[verifier::external_body]
fn str_eq(a: &str, b: &str) -> (r: bool)
    ensures
        r == (a@ == b@),
{
    a == b
}

/// The shared mapping from task identifier to outcome. The writes stand in
/// the order they arrived; no identifier is held twice.
pub struct ResultTable {
    pub entries: Vec<(String, Outcome)>,
}

impl ResultTable {
    /// The table's writes as mathematical values, in the order they arrived.
    pub open spec fn pairs(&self) -> Seq<RecordedPair> {
        self.entries@.map_values(|e: (String, Outcome)| (e.0@, e.1@))
    }

    /// Well-formed: no identifier is held twice.
    pub open spec fn wf(&self) -> bool {
        ids_of(self.pairs()).no_duplicates()
    }

    /// Creates the empty table.
    pub fn new() -> (table: ResultTable)
        ensures
            table.wf(),
            table@ == Map::<Seq<char>, OutcomeView>::empty(),
            table.pairs() == Seq::<RecordedPair>::empty(),
    {
        let table = ResultTable { entries: Vec::new() };
        proof {
            assert(table.pairs() =~= Seq::<RecordedPair>::empty());
            assert(table@ =~= Map::<Seq<char>, OutcomeView>::empty());
        }
        table
    }

    /// The index holding an identifier, if any write holds it.
    fn find_index(&self, id: &str) -> (r: Option<usize>)
        ensures
            match r {
                Some(i) => i < self.entries@.len() && self.pairs()[i as int].0 == id@,
                None => forall|j: int|
                    0 <= j < self.pairs().len() ==> self.pairs()[j].0 != id@,
            },
    {
        let n = self.entries.len();
        let mut i: usize = 0;
        while i < n
            invariant
                i <= n == self.entries@.len(),
                forall|j: int| 0 <= j < i ==> self.pairs()[j].0 != id@,
            decreases n - i,
        {
            if str_eq(self.entries[i].0.as_str(), id) {
                return Some(i);
            }
            i += 1;
        }
        None
    }

    /// Records an outcome under an identifier, overwriting whatever earlier
    /// outcome the identifier had.
    pub fn insert(&mut self, id: String, outcome: Outcome)
        requires
            old(self).wf(),
        ensures
            final(self).wf(),
            final(self)@ == old(self)@.insert(id@, outcome@),
    {
        let found = self.find_index(id.as_str());
        match found {
            Some(i) => {
                proof {
                    lemma_table_of_overwrite(self.pairs(), i as int, (id@, outcome@));
                }
                self.entries[i] = (id, outcome);
                proof {
                    assert(self.pairs() =~= old(self).pairs().update(
                        i as int,
                        (id@, outcome@),
                    ));
                }
            },
            None => {
                let ghost prev = self.pairs();
                self.entries.push((id, outcome));
                proof {
                    assert(self.pairs() =~= prev.push((id@, outcome@)));
                    assert(self.pairs().drop_last() =~= prev);
                    assert(ids_of(self.pairs()) =~= ids_of(prev).push(id@));
                    assert forall|a: int, b: int|
                        0 <= a < b < ids_of(self.pairs()).len() implies ids_of(self.pairs())[a]
                        != ids_of(self.pairs())[b] by {
                        if b < prev.len() {
                            assert(ids_of(prev)[a] != ids_of(prev)[b]);
                        } else {
                            assert(prev[a].0 != id@);
                        }
                    };
                }
            },
        }
    }

    /// The outcome recorded under an identifier, if the identifier has one.
    pub fn get(&self, id: &str) -> (r: Option<&Outcome>)
        requires
            self.wf(),
        ensures
            match r {
                Some(o) => self@.contains_key(id@) && o@ == self@[id@],
                None => !self@.contains_key(id@),
            },
    {
        proof {
            broadcast use vstd::set::group_set_axioms;

            lemma_table_of_dom(self.pairs());
        }
        let found = self.find_index(id);
        match found {
            Some(i) => {
                proof {
                    lemma_table_of_index(self.pairs(), i as int);
                    assert(ids_of(self.pairs())[i as int] == id@);
                    assert(ids_of(self.pairs()).contains(id@));
                }
                Some(&self.entries[i].1)
            },
            None => {
                proof {
                    if self@.contains_key(id@) {
                        let j = choose|j: int|
                            0 <= j < ids_of(self.pairs()).len() && ids_of(self.pairs())[j] == id@;
                        assert(self.pairs()[j].0 == id@);
                    }
                }
                None
            },
        }
    }

    /// How many identifiers the table holds.
    pub fn len(&self) -> (n: usize)
        requires
            self.wf(),
        ensures
            n == self@.dom().len(),
            n == self.pairs().len(),
    {
        proof {
            lemma_table_of_dom(self.pairs());
            ids_of(self.pairs()).unique_seq_to_set();
        }
        self.entries.len()
    }
}

impl View for ResultTable {
    type V = Map<Seq<char>, OutcomeView>;

    /// The mapping the table holds: its writes applied in order.
    open spec fn view(&self) -> Map<Seq<char>, OutcomeView> {
        table_of(self.pairs())
    }
}

} // verus!
