//! What the yield oracle reports, and the choice of the best candidate.
//!
//! A report holds one quote for each protocol, in the order in which the
//! protocols were first reported. Among quotes that share the highest yield
//! the earliest one is chosen, so the same report always gives the same
//! choice.

use vstd::prelude::*;

verus! {

/// One protocol's yield as the oracle reports it, in basis points.
#[derive(Clone, Debug, PartialEq, Eq)]
pub struct ProtocolYield {
    pub protocol: String,
    pub yield_bps: u64,
}

/// A quote as a name and a number.
pub struct ProtocolYieldView {
    pub protocol: Seq<char>,
    pub yield_bps: nat,
}

impl View for ProtocolYield {
    type V = ProtocolYieldView;

    open spec fn view(&self) -> ProtocolYieldView {
        ProtocolYieldView { protocol: self.protocol@, yield_bps: self.yield_bps as nat }
    }
}

/// No protocol is quoted twice.
pub open spec fn distinct_protocols(quotes: Seq<ProtocolYieldView>) -> bool {
    forall|i: int, j: int|
        0 <= i < j < quotes.len() ==> (#[trigger] quotes[i]).protocol != (
        #[trigger] quotes[j]).protocol
}

/// No quote of the report is for `protocol`.
pub open spec fn unquoted(quotes: Seq<ProtocolYieldView>, protocol: Seq<char>) -> bool {
    forall|i: int| 0 <= i < quotes.len() ==> (#[trigger] quotes[i]).protocol != protocol
}

/// Quote `i` is the best of the report: none yields more, and every earlier
/// quote yields strictly less.
pub open spec fn is_best(quotes: Seq<ProtocolYieldView>, i: int) -> bool {
    &&& 0 <= i < quotes.len()
    &&& forall|j: int| 0 <= j < quotes.len() ==> (#[trigger] quotes[j]).yield_bps <= quotes[i].yield_bps
    &&& forall|j: int| 0 <= j < i ==> (#[trigger] quotes[j]).yield_bps < quotes[i].yield_bps
}

/// The index of the best quote of a report that is not empty.
pub open spec fn best_index(quotes: Seq<ProtocolYieldView>) -> int
    decreases quotes.len(),
{
    if quotes.len() <= 1 {
        0
    } else {
        let earlier = best_index(quotes.drop_last());
        if quotes.last().yield_bps > quotes[earlier].yield_bps {
            quotes.len() - 1
        } else {
            earlier
        }
    }
}

/// `best_index` names the best quote.
pub proof fn lemma_best_index_is_best(quotes: Seq<ProtocolYieldView>)
    requires
        quotes.len() > 0,
    ensures
        is_best(quotes, best_index(quotes)),
    decreases quotes.len(),
{
    if quotes.len() > 1 {
        let front = quotes.drop_last();
        lemma_best_index_is_best(front);
        let earlier = best_index(front);
        assert(forall|j: int| 0 <= j < front.len() ==> front[j] == quotes[j]);
        if quotes.last().yield_bps > quotes[earlier].yield_bps {
            assert forall|j: int| 0 <= j < quotes.len() implies (#[trigger] quotes[j]).yield_bps
                <= quotes.last().yield_bps by {
                if j < front.len() {
                    assert(front[j].yield_bps <= front[earlier].yield_bps);
                }
            }
            assert forall|j: int| 0 <= j < quotes.len() - 1 implies (#[trigger] quotes[j]).yield_bps
                < quotes.last().yield_bps by {
                assert(front[j].yield_bps <= front[earlier].yield_bps);
            }
        } else {
            assert forall|j: int| 0 <= j < quotes.len() implies (#[trigger] quotes[j]).yield_bps
                <= quotes[earlier].yield_bps by {
                if j < front.len() {
                    assert(front[j].yield_bps <= front[earlier].yield_bps);
                }
            }
            assert forall|j: int| 0 <= j < earlier implies (#[trigger] quotes[j]).yield_bps
                < quotes[earlier].yield_bps by {
                assert(front[j].yield_bps < front[earlier].yield_bps);
            }
        }
    }
}

/// A report has at most one best quote.
pub proof fn lemma_best_is_unique(quotes: Seq<ProtocolYieldView>, i: int, j: int)
    requires
        is_best(quotes, i),
        is_best(quotes, j),
    ensures
        i == j,
{
    if i < j {
        assert(quotes[i].yield_bps < quotes[j].yield_bps);
        assert(quotes[j].yield_bps <= quotes[i].yield_bps);
    } else if j < i {
        assert(quotes[j].yield_bps < quotes[i].yield_bps);
        assert(quotes[i].yield_bps <= quotes[j].yield_bps);
    }
}

/// The oracle's report: at most one quote for each protocol, in the order in
/// which the protocols were first reported.
#[derive(Clone, Debug, PartialEq, Eq)]
pub struct YieldReport {
    quotes: Vec<ProtocolYield>,
}

impl View for YieldReport {
    type V = Seq<ProtocolYieldView>;

    closed spec fn view(&self) -> Seq<ProtocolYieldView> {
        self.quotes@.map_values(|quote: ProtocolYield| quote@)
    }
}

impl YieldReport {
    /// The report quotes no protocol twice.
    pub open spec fn wf(&self) -> bool {
        distinct_protocols(self@)
    }

    /// An empty report.
    pub fn new() -> (report: YieldReport)
        ensures
            report@.len() == 0,
            report.wf(),
    {
        YieldReport { quotes: Vec::new() }
    }

    /// The number of protocols quoted.
    pub fn len(&self) -> (count: usize)
        ensures
            count == self@.len(),
    {
        self.quotes.len()
    }

    /// The quote at `index`, counting from the first protocol reported.
    pub fn quote(&self, index: usize) -> (quote: &ProtocolYield)
        requires
            index < self@.len(),
        ensures
            quote@ == self@[index as int],
    {
        &self.quotes[index]
    }

    /// Where the report quotes `protocol`: the first quote with that name, or
    /// `None` exactly when there is none.
    pub fn position(&self, protocol: &String) -> (found: Option<usize>)
        ensures
            match found {
                Some(index) => {
                    &&& index < self@.len()
                    &&& self@[index as int].protocol == protocol@
                    &&& unquoted(self@.take(index as int), protocol@)
                },
                None => unquoted(self@, protocol@),
            },
    {
        let mut index: usize = 0;
        while index < self.quotes.len()
            invariant
                index <= self.quotes@.len(),
                self@.len() == self.quotes@.len(),
                unquoted(self@.take(index as int), protocol@),
            decreases self.quotes.len() - index,
        {
            if self.quotes[index].protocol == *protocol {
                return Some(index);
            }
            proof {
                let seen = self@.take(index as int);
                let next = self@.take(index + 1);
                assert forall|i: int| 0 <= i < next.len() implies (#[trigger] next[i]).protocol
                    != protocol@ by {
                    if i < index {
                        assert(seen[i].protocol != protocol@);
                    }
                }
            }
            index = index + 1;
        }
        proof {
            assert(self@.take(index as int) =~= self@);
        }
        None
    }

    /// Records the yield of `protocol`, as a map does: a protocol that the
    /// report already quotes keeps its place and gets the new yield, and the
    /// yield it had is returned; a new protocol goes to the end.
    pub fn insert(&mut self, protocol: String, yield_bps: u64) -> (previous: Option<u64>)
        requires
            old(self).wf(),
        ensures
            final(self).wf(),
            match previous {
                Some(replaced) => exists|index: int|
                    {
                        &&& 0 <= index < old(self)@.len()
                        &&& #[trigger] old(self)@[index] == (ProtocolYieldView {
                            protocol: protocol@,
                            yield_bps: replaced as nat,
                        })
                        &&& final(self)@ == old(self)@.update(
                            index,
                            ProtocolYieldView { protocol: protocol@, yield_bps: yield_bps as nat },
                        )
                    },
                None => {
                    &&& unquoted(old(self)@, protocol@)
                    &&& final(self)@ == old(self)@.push(
                        ProtocolYieldView { protocol: protocol@, yield_bps: yield_bps as nat },
                    )
                },
            },
    {
        let ghost before = self@;
        let ghost quote = ProtocolYieldView { protocol: protocol@, yield_bps: yield_bps as nat };
        match self.position(&protocol) {
            Some(index) => {
                let replaced: u64 = self.quotes[index].yield_bps;
                self.quotes.set(index, ProtocolYield { protocol, yield_bps });
                proof {
                    assert(self@ =~= before.update(index as int, quote));
                    assert(before[index as int] == (ProtocolYieldView {
                        protocol: quote.protocol,
                        yield_bps: replaced as nat,
                    }));
                    assert forall|i: int, j: int| 0 <= i < j < self@.len() implies (
                    #[trigger] self@[i]).protocol != (#[trigger] self@[j]).protocol by {
                        assert(before[i].protocol != before[j].protocol);
                    }
                }
                Some(replaced)
            },
            None => {
                self.quotes.push(ProtocolYield { protocol, yield_bps });
                proof {
                    assert(self@ =~= before.push(quote));
                    assert forall|i: int, j: int| 0 <= i < j < self@.len() implies (
                    #[trigger] self@[i]).protocol != (#[trigger] self@[j]).protocol by {
                        if j < before.len() {
                            assert(before[i].protocol != before[j].protocol);
                        } else {
                            assert(before[i].protocol != quote.protocol);
                        }
                    }
                }
                None
            },
        }
    }

    /// Finds the best quote: the highest yield, and among equal yields the
    /// earliest quote. `None` exactly when the report is empty.
    pub fn select_best(&self) -> (result: Option<usize>)
        ensures
            result is None <==> self@.len() == 0,
            result matches Some(index) ==> is_best(self@, index as int) && index == best_index(
                self@,
            ),
    {
        if self.quotes.len() == 0 {
            return None;
        }
        let mut best: usize = 0;
        let mut k: usize = 1;
        while k < self.quotes.len()
            invariant
                1 <= k <= self.quotes@.len(),
                self@.len() == self.quotes@.len(),
                forall|i: int| 0 <= i < self@.len() ==> self@[i] == self.quotes@[i]@,
                is_best(self@.take(k as int), best as int),
            decreases self.quotes.len() - k,
        {
            let ghost seen = self@.take(k as int);
            let ghost next = self@.take(k + 1);
            if self.quotes[k].yield_bps > self.quotes[best].yield_bps {
                proof {
                    assert forall|j: int| 0 <= j < next.len() implies (#[trigger] next[j]).yield_bps
                        <= next[k as int].yield_bps by {
                        if j < k {
                            assert(seen[j].yield_bps <= seen[best as int].yield_bps);
                        }
                    }
                    assert forall|j: int| 0 <= j < k implies (#[trigger] next[j]).yield_bps
                        < next[k as int].yield_bps by {
                        assert(seen[j].yield_bps <= seen[best as int].yield_bps);
                    }
                }
                best = k;
            } else {
                proof {
                    assert forall|j: int| 0 <= j < next.len() implies (#[trigger] next[j]).yield_bps
                        <= next[best as int].yield_bps by {
                        if j < k {
                            assert(seen[j].yield_bps <= seen[best as int].yield_bps);
                        }
                    }
                    assert forall|j: int| 0 <= j < best implies (#[trigger] next[j]).yield_bps
                        < next[best as int].yield_bps by {
                        assert(seen[j].yield_bps < seen[best as int].yield_bps);
                    }
                }
            }
            k = k + 1;
        }
        proof {
            assert(self@.take(k as int) =~= self@);
            lemma_best_index_is_best(self@);
            lemma_best_is_unique(self@, best as int, best_index(self@));
        }
        Some(best)
    }
}

/// The report of the stand-in oracle: three protocols, in a fixed order.
pub open spec fn mock_report() -> Seq<ProtocolYieldView> {
    seq![
        ProtocolYieldView { protocol: "ProtocolA"@, yield_bps: 500 },
        ProtocolYieldView { protocol: "ProtocolB"@, yield_bps: 550 },
        ProtocolYieldView { protocol: "ProtocolC"@, yield_bps: 480 },
    ]
}

/// A stand-in for the yield oracle, with fixed quotes.
pub fn fetch_current_yields() -> (yields: YieldReport)
    ensures
        yields@ == mock_report(),
        yields.wf(),
{
    proof {
        reveal_strlit("ProtocolA");
        reveal_strlit("ProtocolB");
        reveal_strlit("ProtocolC");
    }
    let mut yields = YieldReport::new();
    let ghost empty = yields@;
    yields.insert("ProtocolA".to_owned(), 500);
    let ghost one = yields@;
    yields.insert("ProtocolB".to_owned(), 550);
    let ghost two = yields@;
    yields.insert("ProtocolC".to_owned(), 480);
    proof {
        assert("ProtocolA"@[8] != "ProtocolB"@[8]);
        assert("ProtocolA"@[8] != "ProtocolC"@[8]);
        assert("ProtocolB"@[8] != "ProtocolC"@[8]);
        assert(one[0].protocol == "ProtocolA"@);
        assert(two[1].protocol == "ProtocolB"@);
        assert(yields@ =~= mock_report());
    }
    yields
}

} // verus!
