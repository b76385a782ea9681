//! The cost vector: one counter for each kind of event that a report
//! declares, and the counters derived from them.

use vstd::prelude::*;
use crate::event_kind::EventKind;
use crate::text::{parse_counter, parse_u64, texts};

verus! {

/// The derived counters.
#[derive(Clone, Copy, Debug, PartialEq, Eq, Structural)]
pub struct Summary {
    pub l1_hits: u64,
    pub ll_hits: u64,
    pub ram_hits: u64,
    pub total_rw: u64,
    pub estimated_cycles: u64,
}

impl Summary {
    /// The counter of a derived kind; none for a raw kind.
    pub open spec fn get(self, kind: EventKind) -> Option<u64> {
        match kind {
            EventKind::L1hits => Some(self.l1_hits),
            EventKind::LLhits => Some(self.ll_hits),
            EventKind::RamHits => Some(self.ram_hits),
            EventKind::TotalRW => Some(self.total_rw),
            EventKind::EstimatedCycles => Some(self.estimated_cycles),
            _ => None,
        }
    }

    /// The counter of a derived kind; none for a raw kind.
    pub fn cost(&self, kind: EventKind) -> (r: Option<u64>)
        ensures
            r == self.get(kind),
    {
        match kind {
            EventKind::L1hits => Some(self.l1_hits),
            EventKind::LLhits => Some(self.ll_hits),
            EventKind::RamHits => Some(self.ram_hits),
            EventKind::TotalRW => Some(self.total_rw),
            EventKind::EstimatedCycles => Some(self.estimated_cycles),
            _ => None,
        }
    }
}

/// `x` held to the range of a counter.
pub open spec fn saturate(x: int) -> u64 {
    if x <= 0 {
        0
    } else if x >= u64::MAX {
        u64::MAX
    } else {
        x as u64
    }
}

/// The derived counters that follow from nine raw ones.
///
/// Main memory serves what misses the last-level cache; the last-level cache
/// serves what misses the first level and is not served by main memory; the
/// first level serves the rest of all accesses. A first-level hit is taken to
/// cost one cycle, a last-level hit five, a main-memory hit thirty-five. A
/// difference that would be negative is zero, and each counter stops at the
/// largest value it can hold.
pub open spec fn summarize(
    ir: u64,
    dr: u64,
    dw: u64,
    i1mr: u64,
    d1mr: u64,
    d1mw: u64,
    ilmr: u64,
    dlmr: u64,
    dlmw: u64,
) -> Summary {
    let ram = ilmr + dlmr + dlmw;
    let ll = saturate(i1mr + d1mr + d1mw - ram) as int;
    let total = ir + dr + dw;
    let l1 = saturate(total - ram - ll) as int;
    Summary {
        l1_hits: saturate(l1),
        ll_hits: saturate(ll),
        ram_hits: saturate(ram),
        total_rw: saturate(total),
        estimated_cycles: saturate(l1 + 5 * ll + 35 * ram),
    }
}

fn clamp(x: u128) -> (r: u64)
    ensures
        r == saturate(x as int),
{
    if x >= u64::MAX as u128 {
        u64::MAX
    } else {
        x as u64
    }
}

fn summarize_counters(
    ir: u64,
    dr: u64,
    dw: u64,
    i1mr: u64,
    d1mr: u64,
    d1mw: u64,
    ilmr: u64,
    dlmr: u64,
    dlmw: u64,
) -> (r: Summary)
    ensures
        r == summarize(ir, dr, dw, i1mr, d1mr, d1mw, ilmr, dlmr, dlmw),
{
    let ram: u128 = ilmr as u128 + dlmr as u128 + dlmw as u128;
    let l1_miss: u128 = i1mr as u128 + d1mr as u128 + d1mw as u128;
    let ll: u128 = if l1_miss >= ram {
        clamp(l1_miss - ram) as u128
    } else {
        0
    };
    let total: u128 = ir as u128 + dr as u128 + dw as u128;
    let l1: u128 = if total >= ram + ll {
        clamp(total - ram - ll) as u128
    } else {
        0
    };
    Summary {
        l1_hits: clamp(l1),
        ll_hits: clamp(ll),
        ram_hits: clamp(ram),
        total_rw: clamp(total),
        estimated_cycles: clamp(l1 + 5 * ll + 35 * ram),
    }
}

/// The sum of two counters, stopping at the largest value a counter can hold.
pub open spec fn saturating_sum(a: u64, b: u64) -> u64 {
    saturate(a + b)
}

/// How many tokens of a cost line reach a counter when `limit` kinds are
/// declared.
pub open spec fn consumed(limit: nat, tokens: Seq<Seq<char>>) -> int {
    if tokens.len() < limit {
        tokens.len() as int
    } else {
        limit as int
    }
}

/// Whether token `i` is the first of those that reach a counter which writes
/// no counter.
pub open spec fn first_bad(limit: nat, tokens: Seq<Seq<char>>, i: int) -> bool {
    &&& 0 <= i < consumed(limit, tokens)
    &&& parse_counter(tokens[i]) is None
    &&& forall|j: int| 0 <= j < i ==> (#[trigger] parse_counter(tokens[j])) is Some
}

/// The index of the first token that reaches a counter and writes none, if
/// there is one.
pub open spec fn malformed(limit: nat, tokens: Seq<Seq<char>>) -> Option<int> {
    if exists|i: int| first_bad(limit, tokens, i) {
        Some(choose|i: int| first_bad(limit, tokens, i))
    } else {
        None
    }
}

/// At most one token is the first bad one.
pub proof fn lemma_malformed_at(limit: nat, tokens: Seq<Seq<char>>, i: int)
    requires
        first_bad(limit, tokens, i),
    ensures
        malformed(limit, tokens) == Some(i),
{
    let k = choose|k: int| first_bad(limit, tokens, k);
    if k < i {
        assert(parse_counter(tokens[k]) is Some);
    } else if i < k {
        assert(parse_counter(tokens[i]) is Some);
    }
}

/// The counters after a cost line: position by position, each token's counter
/// is added; a position that the line does not reach keeps its counter.
pub open spec fn add_counters(values: Seq<u64>, tokens: Seq<Seq<char>>) -> Seq<u64> {
    Seq::new(
        values.len(),
        |i: int|
            if i < tokens.len() {
                match parse_counter(tokens[i]) {
                    Some(c) => saturating_sum(values[i], c),
                    None => values[i],
                }
            } else {
                values[i]
            },
    )
}

/// Whether position `i` of `kinds` holds `kind`.
pub open spec fn declared_at(kinds: Seq<EventKind>, kind: EventKind, i: int) -> bool {
    0 <= i < kinds.len() && kinds[i] == kind
}

/// The counter, among `values`, at the position where `kinds` holds `kind`;
/// none if no position does.
pub open spec fn declared_cost(kinds: Seq<EventKind>, values: Seq<u64>, kind: EventKind) -> Option<
    u64,
> {
    if exists|i: int| declared_at(kinds, kind, i) {
        Some(values[choose|i: int| declared_at(kinds, kind, i)])
    } else {
        None
    }
}

/// What a cost vector holds.
pub struct CostsView {
    /// The declared kinds, in the order of the report's columns.
    pub kinds: Seq<EventKind>,
    /// The counter of each declared kind.
    pub values: Seq<u64>,
    /// The derived counters, once computed.
    pub summary: Option<Summary>,
}

impl CostsView {
    /// One counter for each declared kind, and no kind declared twice.
    pub open spec fn wf(self) -> bool {
        &&& self.kinds.len() == self.values.len()
        &&& forall|i: int, j: int|
            0 <= i < j < self.kinds.len() ==> #[trigger] self.kinds[i] != #[trigger] self.kinds[j]
    }

    /// The counter of a declared kind; none for any other.
    pub open spec fn raw_cost(self, kind: EventKind) -> Option<u64> {
        declared_cost(self.kinds, self.values, kind)
    }

    /// The counter of `kind`: the declared counter where the kind is
    /// declared, else the computed one where the kind is derived and the
    /// derived counters are held. None in every other case: a derived kind
    /// that was never computed has no counter, not a counter of zero.
    pub open spec fn cost(self, kind: EventKind) -> Option<u64> {
        match self.raw_cost(kind) {
            Some(c) => Some(c),
            None => match self.summary {
                Some(s) => s.get(kind),
                None => None,
            },
        }
    }

    /// The first raw kind that the derived counters need and that is not
    /// declared.
    pub open spec fn first_missing(self) -> Option<EventKind> {
        if self.raw_cost(EventKind::Ir) is None {
            Some(EventKind::Ir)
        } else if self.raw_cost(EventKind::Dr) is None {
            Some(EventKind::Dr)
        } else if self.raw_cost(EventKind::Dw) is None {
            Some(EventKind::Dw)
        } else if self.raw_cost(EventKind::I1mr) is None {
            Some(EventKind::I1mr)
        } else if self.raw_cost(EventKind::D1mr) is None {
            Some(EventKind::D1mr)
        } else if self.raw_cost(EventKind::D1mw) is None {
            Some(EventKind::D1mw)
        } else if self.raw_cost(EventKind::ILmr) is None {
            Some(EventKind::ILmr)
        } else if self.raw_cost(EventKind::DLmr) is None {
            Some(EventKind::DLmr)
        } else if self.raw_cost(EventKind::DLmw) is None {
            Some(EventKind::DLmw)
        } else {
            None
        }
    }

    /// The derived counters that follow from the raw counters held now.
    pub open spec fn derive(self) -> Summary
        recommends
            self.first_missing() is None,
    {
        summarize(
            self.raw_cost(EventKind::Ir).unwrap(),
            self.raw_cost(EventKind::Dr).unwrap(),
            self.raw_cost(EventKind::Dw).unwrap(),
            self.raw_cost(EventKind::I1mr).unwrap(),
            self.raw_cost(EventKind::D1mr).unwrap(),
            self.raw_cost(EventKind::D1mw).unwrap(),
            self.raw_cost(EventKind::ILmr).unwrap(),
            self.raw_cost(EventKind::DLmr).unwrap(),
            self.raw_cost(EventKind::DLmw).unwrap(),
        )
    }

    /// The vector once the derived counters have been asked for: unchanged if
    /// they are held already or cannot be computed, else with those that
    /// follow from the raw counters.
    pub open spec fn summarized(self) -> CostsView {
        if self.summary is Some || self.first_missing() is Some {
            self
        } else {
            CostsView { summary: Some(self.derive()), ..self }
        }
    }

    /// The vector after the tokens of one cost line have been added.
    pub open spec fn add_tokens(self, tokens: Seq<Seq<char>>) -> CostsView {
        CostsView { values: add_counters(self.values, tokens), ..self }
    }

    /// The vector after the raw counters of `other` have been added, kind by
    /// kind; a kind that `other` does not declare adds nothing.
    pub open spec fn merged(self, other: CostsView) -> CostsView {
        CostsView {
            values: Seq::new(
                self.values.len(),
                |i: int|
                    match other.raw_cost(self.kinds[i]) {
                        Some(c) => saturating_sum(self.values[i], c),
                        None => self.values[i],
                    },
            ),
            ..self
        }
    }
}

/// In a well-formed vector the kind at position `i` has the counter at
/// position `i`.
pub proof fn lemma_raw_cost_at(v: CostsView, i: int)
    requires
        v.wf(),
        0 <= i < v.kinds.len(),
    ensures
        v.raw_cost(v.kinds[i]) == Some(v.values[i]),
{
    let kind = v.kinds[i];
    assert(declared_at(v.kinds, kind, i));
    let k = choose|k: int| declared_at(v.kinds, kind, k);
    assert(k == i);
}

/// A required raw kind is not declared.
#[derive(Clone, Copy, Debug, PartialEq, Eq, Structural)]
pub struct MissingEvent {
    /// The first kind that is missing.
    pub kind: EventKind,
}

/// A token of a cost line does not write a counter.
#[derive(Clone, Copy, Debug, PartialEq, Eq, Structural)]
pub struct MalformedCounter {
    /// The position of the token among those handed in.
    pub position: usize,
}

/// A cost vector.
#[derive(Debug)]
pub struct Costs {
    kinds: Vec<EventKind>,
    values: Vec<u64>,
    summary: Option<Summary>,
}

impl View for Costs {
    type V = CostsView;

    closed spec fn view(&self) -> CostsView {
        CostsView { kinds: self.kinds@, values: self.values@, summary: self.summary }
    }
}

fn find_kind(kinds: &Vec<EventKind>, limit: usize, kind: EventKind) -> (r: Option<usize>)
    requires
        limit <= kinds@.len(),
    ensures
        match r {
            Some(i) => i < limit && kinds@[i as int] == kind,
            None => forall|j: int| 0 <= j < limit ==> kinds@[j] != kind,
        },
{
    let mut i: usize = 0;
    while i < limit
        invariant
            i <= limit <= kinds@.len(),
            forall|j: int| 0 <= j < i ==> kinds@[j] != kind,
        decreases limit - i,
    {
        if kinds[i] == kind {
            return Some(i);
        }
        i += 1;
    }
    None
}

fn saturating_add(a: u64, b: u64) -> (r: u64)
    ensures
        r == saturating_sum(a, b),
{
    if a > u64::MAX - b {
        u64::MAX
    } else {
        a + b
    }
}

impl Costs {
    #[verifier::type_invariant]
    spec fn well_formed(&self) -> bool {
        self@.wf()
    }

    /// Whether the vector is well formed. Every vector is: the functions
    /// that hand one out say so, for the use of proofs.
    pub open spec fn wf(&self) -> bool {
        self@.wf()
    }

    /// A vector of zeros for the given kinds, in the given order. There is
    /// none if a kind occurs twice.
    pub fn with_event_kinds(kinds: Vec<EventKind>) -> (r: Option<Costs>)
        ensures
            match r {
                Some(costs) => {
                    &&& costs.wf()
                    &&& costs@.kinds == kinds@
                    &&& costs@.values == Seq::new(kinds@.len(), |i: int| 0u64)
                    &&& costs@.summary is None
                },
                None => !(CostsView {
                    kinds: kinds@,
                    values: Seq::new(kinds@.len(), |i: int| 0u64),
                    summary: None,
                }).wf(),
            },
    {
        let mut values: Vec<u64> = Vec::new();
        let mut i: usize = 0;
        while i < kinds.len()
            invariant
                i <= kinds@.len(),
                values@ == Seq::new(i as nat, |k: int| 0u64),
                forall|k: int, j: int| 0 <= k < j < i ==> #[trigger] kinds@[k] != #[trigger] kinds@[j],
            decreases kinds@.len() - i,
        {
            match find_kind(&kinds, i, kinds[i]) {
                Some(k) => {
                    return None;
                },
                None => {},
            }
            values.push(0);
            assert(values@ =~= Seq::new((i + 1) as nat, |k: int| 0u64));
            i += 1;
        }
        Some(Costs { kinds, values, summary: None })
    }

    /// The declared kinds, in order.
    pub fn event_kinds(&self) -> (r: Vec<EventKind>)
        ensures
            r@ == self@.kinds,
    {
        let mut out: Vec<EventKind> = Vec::new();
        let mut i: usize = 0;
        while i < self.kinds.len()
            invariant
                i <= self.kinds@.len(),
                out@ == self.kinds@.take(i as int),
            decreases self.kinds@.len() - i,
        {
            out.push(self.kinds[i]);
            assert(out@ =~= self.kinds@.take(i + 1));
            i += 1;
        }
        assert(self.kinds@.take(self.kinds@.len() as int) =~= self.kinds@);
        out
    }

    /// The counter at a position of the declaration order.
    pub fn cost_by_index(&self, index: usize) -> (r: Option<u64>)
        ensures
            r == if index < self@.values.len() {
                Some(self@.values[index as int])
            } else {
                None::<u64>
            },
    {
        proof {
            use_type_invariant(self);
        }
        if index < self.values.len() {
            Some(self.values[index])
        } else {
            None
        }
    }

    /// The counter of a declared kind; none for any other.
    fn declared_cost_of(&self, kind: EventKind) -> (r: Option<u64>)
        ensures
            r == self@.raw_cost(kind),
    {
        proof {
            use_type_invariant(self);
        }
        match find_kind(&self.kinds, self.kinds.len(), kind) {
            Some(i) => {
                proof {
                    lemma_raw_cost_at(self@, i as int);
                }
                Some(self.values[i])
            },
            None => None,
        }
    }

    /// The counter of `kind`, if the vector holds one. A kind that is not
    /// declared has one only if it is derived and the derived counters have
    /// been computed.
    pub fn cost_by_kind(&self, kind: &EventKind) -> (r: Option<u64>)
        ensures
            r == self@.cost(*kind),
            self.wf(),
    {
        proof {
            use_type_invariant(self);
        }
        match self.declared_cost_of(*kind) {
            Some(c) => Some(c),
            None => match &self.summary {
                Some(s) => s.cost(*kind),
                None => None,
            },
        }
    }

    /// Whether the derived counters have been computed.
    pub fn is_summarized(&self) -> (r: bool)
        ensures
            r == (self@.summary is Some),
    {
        self.summary.is_some()
    }

    /// Adds the tokens of a cost line to the counters, position by position in
    /// declaration order. A line with fewer tokens than declared kinds leaves
    /// the rest as they are; tokens beyond the declared kinds are not read.
    /// A counter stops at the largest value it can hold. Fails at the first
    /// token read that writes no counter, and then changes nothing.
    pub fn add_iter_str(&mut self, values: &[&str]) -> (r: Result<(), MalformedCounter>)
        ensures
            old(self).wf(),
            final(self).wf(),
            match r {
                Ok(()) => {
                    &&& malformed(old(self)@.kinds.len(), texts(values@)) is None
                    &&& final(self)@ == old(self)@.add_tokens(texts(values@))
                },
                Err(e) => {
                    &&& malformed(old(self)@.kinds.len(), texts(values@)) == Some(e.position as int)
                    &&& final(self)@ == old(self)@
                },
            },
    {
        proof {
            use_type_invariant(&*self);
        }
        let ghost tokens = texts(values@);
        let ghost limit = self@.kinds.len();
        let n: usize = if values.len() < self.values.len() {
            values.len()
        } else {
            self.values.len()
        };
        assert(n == consumed(limit, tokens));
        let mut counters: Vec<u64> = Vec::new();
        let mut i: usize = 0;
        while i < n
            invariant
                i <= n,
                n == consumed(limit, tokens),
                tokens == texts(values@),
                limit == old(self)@.kinds.len(),
                *self == *old(self),
                self.wf(),
                counters@.len() == i,
                forall|j: int|
                    0 <= j < i ==> #[trigger] parse_counter(tokens[j]) == Some(counters@[j]),
            decreases n - i,
        {
            assert(tokens[i as int] == values@[i as int]@);
            match parse_u64(values[i]) {
                Some(c) => {
                    counters.push(c);
                },
                None => {
                    proof {
                        assert(first_bad(limit, tokens, i as int));
                        lemma_malformed_at(limit, tokens, i as int);
                    }
                    return Err(MalformedCounter { position: i });
                },
            }
            i += 1;
        }
        assert(malformed(limit, tokens) is None) by {
            if exists|k: int| first_bad(limit, tokens, k) {
                let k = choose|k: int| first_bad(limit, tokens, k);
                assert(parse_counter(tokens[k]) == Some(counters@[k]));
            }
        }
        let mut updated: Vec<u64> = Vec::new();
        let mut k: usize = 0;
        while k < self.values.len()
            invariant
                k <= self.values@.len(),
                n == consumed(limit, tokens),
                n <= self.values@.len(),
                counters@.len() == n,
                forall|j: int|
                    0 <= j < n ==> #[trigger] parse_counter(tokens[j]) == Some(counters@[j]),
                *self == *old(self),
                limit == self.values@.len(),
                tokens == texts(values@),
                updated@.len() == k,
                forall|j: int|
                    0 <= j < k ==> #[trigger] updated@[j] == add_counters(
                        old(self).values@,
                        tokens,
                    )[j],
            decreases self.values@.len() - k,
        {
            let sum = if k < n {
                saturating_add(self.values[k], counters[k])
            } else {
                self.values[k]
            };
            updated.push(sum);
            k += 1;
        }
        assert(updated@ =~= add_counters(old(self).values@, tokens));
        self.values = updated;
        Ok(())
    }

    /// Adds the raw counters of `other`, kind by kind. A kind that `other`
    /// does not declare adds nothing; a kind that only `other` declares is
    /// left out.
    pub fn add(&mut self, other: &Costs)
        ensures
            final(self).wf(),
            final(self)@ == old(self)@.merged(other@),
    {
        proof {
            use_type_invariant(&*self);
            use_type_invariant(other);
        }
        let mut updated: Vec<u64> = Vec::new();
        let mut k: usize = 0;
        while k < self.values.len()
            invariant
                k <= self.values@.len(),
                other.wf(),
                old(self).wf(),
                *self == *old(self),
                updated@.len() == k,
                forall|j: int|
                    0 <= j < k ==> #[trigger] updated@[j] == old(self)@.merged(other@).values[j],
            decreases self.values@.len() - k,
        {
            let sum = match other.declared_cost_of(self.kinds[k]) {
                Some(c) => saturating_add(self.values[k], c),
                None => self.values[k],
            };
            updated.push(sum);
            k += 1;
        }
        assert(updated@ =~= old(self)@.merged(other@).values);
        self.values = updated;
    }

    /// Computes the derived counters from the raw counters held now, unless
    /// they are held already: a second call changes nothing. Fails, and
    /// changes nothing, if a raw kind that they need is not declared.
    pub fn make_summary(&mut self) -> (r: Result<(), MissingEvent>)
        ensures
            old(self).wf(),
            final(self).wf(),
            final(self)@ == old(self)@.summarized(),
            match r {
                Ok(()) => final(self)@.summary is Some,
                Err(e) => old(self)@.summary is None && old(self)@.first_missing() == Some(e.kind),
            },
    {
        proof {
            use_type_invariant(&*self);
        }
        if self.summary.is_some() {
            return Ok(());
        }
        let ir = match self.declared_cost_of(EventKind::Ir) {
            Some(c) => c,
            None => {
                return Err(MissingEvent { kind: EventKind::Ir });
            },
        };
        let dr = match self.declared_cost_of(EventKind::Dr) {
            Some(c) => c,
            None => {
                return Err(MissingEvent { kind: EventKind::Dr });
            },
        };
        let dw = match self.declared_cost_of(EventKind::Dw) {
            Some(c) => c,
            None => {
                return Err(MissingEvent { kind: EventKind::Dw });
            },
        };
        let i1mr = match self.declared_cost_of(EventKind::I1mr) {
            Some(c) => c,
            None => {
                return Err(MissingEvent { kind: EventKind::I1mr });
            },
        };
        let d1mr = match self.declared_cost_of(EventKind::D1mr) {
            Some(c) => c,
            None => {
                return Err(MissingEvent { kind: EventKind::D1mr });
            },
        };
        let d1mw = match self.declared_cost_of(EventKind::D1mw) {
            Some(c) => c,
            None => {
                return Err(MissingEvent { kind: EventKind::D1mw });
            },
        };
        let ilmr = match self.declared_cost_of(EventKind::ILmr) {
            Some(c) => c,
            None => {
                return Err(MissingEvent { kind: EventKind::ILmr });
            },
        };
        let dlmr = match self.declared_cost_of(EventKind::DLmr) {
            Some(c) => c,
            None => {
                return Err(MissingEvent { kind: EventKind::DLmr });
            },
        };
        let dlmw = match self.declared_cost_of(EventKind::DLmw) {
            Some(c) => c,
            None => {
                return Err(MissingEvent { kind: EventKind::DLmw });
            },
        };
        self.summary = Some(summarize_counters(ir, dr, dw, i1mr, d1mr, d1mw, ilmr, dlmr, dlmw));
        Ok(())
    }
}

impl Clone for Costs {
    /// A vector that holds what this one holds.
    fn clone(&self) -> (r: Self)
        ensures
            r@ == self@,
            r.wf(),
    {
        proof {
            use_type_invariant(self);
        }
        let kinds = self.event_kinds();
        let mut values: Vec<u64> = Vec::new();
        let mut i: usize = 0;
        while i < self.values.len()
            invariant
                i <= self.values@.len(),
                values@ == self.values@.take(i as int),
            decreases self.values@.len() - i,
        {
            values.push(self.values[i]);
            assert(values@ =~= self.values@.take(i + 1));
            i += 1;
        }
        assert(self.values@.take(self.values@.len() as int) =~= self.values@);
        Costs { kinds, values, summary: self.summary }
    }
}

impl PartialEq for Costs {
    /// Two vectors are equal when they declare the same kinds in the same
    /// order with the same counters. Derived counters are not compared: they
    /// follow from the raw ones.
    fn eq(&self, other: &Self) -> (r: bool) {
        let n: usize = self.kinds.len();
        if n != other.kinds.len() || self.values.len() != other.values.len() {
            return false;
        }
        let mut i: usize = 0;
        while i < n
            invariant
                i <= n,
                n == self.kinds@.len(),
                n == other.kinds@.len(),
                forall|j: int| 0 <= j < i ==> self.kinds@[j] == other.kinds@[j],
            decreases n - i,
        {
            if self.kinds[i] != other.kinds[i] {
                return false;
            }
            i += 1;
        }
        assert(self.kinds@ =~= other.kinds@);
        let m: usize = self.values.len();
        let mut k: usize = 0;
        while k < m
            invariant
                k <= m,
                m == self.values@.len(),
                m == other.values@.len(),
                forall|j: int| 0 <= j < k ==> self.values@[j] == other.values@[j],
            decreases m - k,
        {
            if self.values[k] != other.values[k] {
                return false;
            }
            k += 1;
        }
        assert(self.values@ =~= other.values@);
        true
    }
}

impl vstd::std_specs::cmp::PartialEqSpecImpl for Costs {
    open spec fn obeys_eq_spec() -> bool {
        true
    }

    open spec fn eq_spec(&self, other: &Self) -> bool {
        self@.kinds == other@.kinds && self@.values == other@.values
    }
}

impl Eq for Costs {

}

/// Where no difference is negative and nothing exceeds a counter, the hits
/// of the three tiers add up to all accesses: main memory serves the misses
/// of the last level, the last level the other misses of the first, and the
/// first level the rest.
pub proof fn lemma_tiers_add_up(
    ir: u64,
    dr: u64,
    dw: u64,
    i1mr: u64,
    d1mr: u64,
    d1mw: u64,
    ilmr: u64,
    dlmr: u64,
    dlmw: u64,
)
    requires
        ilmr + dlmr + dlmw <= i1mr + d1mr + d1mw <= ir + dr + dw <= u64::MAX,
    ensures
        ({
            let s = summarize(ir, dr, dw, i1mr, d1mr, d1mw, ilmr, dlmr, dlmw);
            &&& s.total_rw == ir + dr + dw
            &&& s.ram_hits == ilmr + dlmr + dlmw
            &&& s.ll_hits == i1mr + d1mr + d1mw - s.ram_hits
            &&& s.l1_hits == s.total_rw - (i1mr + d1mr + d1mw)
            &&& s.l1_hits + s.ll_hits + s.ram_hits == s.total_rw
            &&& s.estimated_cycles == saturate(s.l1_hits + 5 * s.ll_hits + 35 * s.ram_hits)
        }),
{
}

/// Asking for the derived counters twice gives what asking once gives, and
/// once they are held they stay.
pub proof fn lemma_summary_idempotent(v: CostsView)
    ensures
        v.summarized().summarized() == v.summarized(),
        v.summarized().summary is Some ==> v.summarized().summarized().summary is Some,
        v.summary is Some ==> v.summarized() == v,
{
}

/// A cost line adds to the counters that it reaches and to no other: with
/// `m` tokens and more than `m` declared kinds, the kinds from position `m`
/// on keep their counters, and so does every position whose token writes
/// zero.
pub proof fn lemma_short_line_zero_fill(v: CostsView, tokens: Seq<Seq<char>>, i: int)
    requires
        v.wf(),
        malformed(v.kinds.len(), tokens) is None,
        0 <= i < v.kinds.len(),
    ensures
        v.add_tokens(tokens).kinds == v.kinds,
        v.add_tokens(tokens).values.len() == v.values.len(),
        i >= tokens.len() ==> v.add_tokens(tokens).values[i] == v.values[i],
        i < tokens.len() ==> parse_counter(tokens[i]) is Some && v.add_tokens(tokens).values[i]
            == saturating_sum(v.values[i], parse_counter(tokens[i]).unwrap()),
        v.add_tokens(tokens) == v.add_tokens(tokens.take(consumed(v.kinds.len(), tokens))),
{
    let limit = v.kinds.len();
    if i < tokens.len() {
        if parse_counter(tokens[i]) is None {
            lemma_first_bad_exists(limit, tokens, i);
        }
    }
    let cut = tokens.take(consumed(limit, tokens));
    assert(add_counters(v.values, tokens) =~= add_counters(v.values, cut));
}

/// If a token that reaches a counter writes none, some token is the first
/// such.
pub proof fn lemma_first_bad_exists(limit: nat, tokens: Seq<Seq<char>>, i: int)
    requires
        0 <= i < consumed(limit, tokens),
        parse_counter(tokens[i]) is None,
    ensures
        malformed(limit, tokens) is Some,
        malformed(limit, tokens).unwrap() <= i,
    decreases i,
{
    if forall|j: int| 0 <= j < i ==> (#[trigger] parse_counter(tokens[j])) is Some {
        assert(first_bad(limit, tokens, i));
        lemma_malformed_at(limit, tokens, i);
    } else {
        let j = choose|j: int| 0 <= j < i && !((#[trigger] parse_counter(tokens[j])) is Some);
        lemma_first_bad_exists(limit, tokens, j);
    }
}

} // verus!
