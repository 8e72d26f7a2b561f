//! A table from CPUID queries to their results.

use vstd::prelude::*;
use vstd::set_lib::lemma_map_size;
use std::collections::BTreeMap;
use crate::cpu_information::CpuidQuery;
use crate::cpu_information::CpuidResult;

verus! {

/// The leaf and subleaf of a query as a pair, leaf first. Pairs are ordered
/// as queries are: by leaf, then by subleaf.
pub open spec fn query_key(query: CpuidQuery) -> (u32, u32) {
    (query.leaf, query.subleaf)
}

/// The query that a pair of leaf and subleaf stands for.
pub open spec fn key_query(key: (u32, u32)) -> CpuidQuery {
    CpuidQuery { leaf: key.0, subleaf: key.1 }
}

/// The CPUID results of a dump, each under its query. A table holds at most
/// one result for a query.
#[derive(Debug)]
pub struct CpuidTable {
    entries: BTreeMap<(u32, u32), CpuidResult>,
}

impl Clone for CpuidTable {
    fn clone(&self) -> (table: Self)
        ensures
            table@ == self@,
    {
        CpuidTable { entries: self.entries.clone() }
    }
}

impl View for CpuidTable {
    type V = Map<CpuidQuery, CpuidResult>;

    closed spec fn view(&self) -> Map<CpuidQuery, CpuidResult> {
        Map::new(
            |query: CpuidQuery| self.entries@.contains_key(query_key(query)),
            |query: CpuidQuery| self.entries@[query_key(query)],
        )
    }
}

impl CpuidTable {
    /// The queries of a table are those of its entries, and there are as many.
    proof fn lemma_queries(&self)
        ensures
            self@.dom().finite(),
            self@.dom().len() == self.entries@.dom().len(),
    {
        broadcast use vstd::std_specs::btree::group_btree_axioms;

        let keys = self.entries@.dom();
        let f = |key: (u32, u32)| key_query(key);
        assert forall|query: CpuidQuery| keys.map(f).contains(query) <==> self@.dom().contains(
            query,
        ) by {
            if self@.dom().contains(query) {
                assert(keys.contains(query_key(query)));
                assert(f(query_key(query)) == query);
            }
        }
        assert(keys.map(f) =~= self@.dom());
        lemma_map_size(keys, self@.dom(), f);
    }

    /// A table holds finitely many queries.
    pub proof fn lemma_finite(&self)
        ensures
            self@.dom().finite(),
    {
        self.lemma_queries();
    }

    /// A table without entries.
    pub fn new() -> (table: Self)
        ensures
            table@ == Map::<CpuidQuery, CpuidResult>::empty(),
    {
        let table = CpuidTable { entries: BTreeMap::new() };
        assert(table@ =~= Map::<CpuidQuery, CpuidResult>::empty());
        table
    }

    /// Puts `result` under `query`, in place of what the table held for that
    /// query, and returns what it held.
    pub fn insert(&mut self, query: CpuidQuery, result: CpuidResult) -> (previous: Option<
        CpuidResult,
    >)
        ensures
            final(self)@ == old(self)@.insert(query, result),
            previous == (if old(self)@.contains_key(query) {
                Some(old(self)@[query])
            } else {
                None::<CpuidResult>
            }),
    {
        broadcast use vstd::laws_cmp::group_laws_cmp;

        let previous = self.entries.insert((query.leaf, query.subleaf), result);
        assert(self@ =~= old(self)@.insert(query, result)) by {
            assert forall|q: CpuidQuery| query_key(q) == query_key(query) implies q == query by {}
        }
        previous
    }

    /// The result that the table holds for `query`.
    pub fn get(&self, query: &CpuidQuery) -> (result: Option<&CpuidResult>)
        ensures
            result == (if self@.contains_key(*query) {
                Some(&self@[*query])
            } else {
                None::<&CpuidResult>
            }),
    {
        broadcast use vstd::laws_cmp::group_laws_cmp;

        let key = (query.leaf, query.subleaf);
        self.entries.get(&key)
    }

    /// Whether the table holds a result for `query`.
    pub fn contains_key(&self, query: &CpuidQuery) -> (r: bool)
        ensures
            r == self@.contains_key(*query),
    {
        self.get(query).is_some()
    }

    /// The number of queries that the table holds a result for.
    pub fn len(&self) -> (n: usize)
        ensures
            n == self@.len(),
    {
        broadcast use vstd::laws_cmp::group_laws_cmp;
        broadcast use vstd::std_specs::btree::group_btree_axioms;

        proof {
            self.lemma_queries();
        }
        self.entries.len()
    }

    /// Whether the table holds no result.
    pub fn is_empty(&self) -> (r: bool)
        ensures
            r == (self@.len() == 0),
    {
        self.len() == 0
    }
}

} // verus!
