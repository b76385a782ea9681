//! The closed set of cost counters that a profile can hold.

use vstd::prelude::*;
use crate::text::str_eq;

verus! {

/// A kind of cost counter. Raw kinds are read from a report; derived kinds are
/// computed from raw ones.
#[derive(Clone, Copy, Debug, PartialEq, Eq, Hash, Structural)]
pub enum EventKind {
    /// Instructions executed (instruction cache reads).
    Ir,
    /// System calls made.
    SysCount,
    /// Time spent in system calls.
    SysTime,
    /// Processor time spent in system calls.
    SysCpuTime,
    /// Global bus events.
    Ge,
    /// Data cache reads (memory reads).
    Dr,
    /// Data cache writes (memory writes).
    Dw,
    /// First-level instruction cache read misses.
    I1mr,
    /// Last-level instruction cache read misses.
    ILmr,
    /// First-level data cache read misses.
    D1mr,
    /// Last-level data cache read misses.
    DLmr,
    /// First-level data cache write misses.
    D1mw,
    /// Last-level data cache write misses.
    DLmw,
    /// Derived: accesses served by the first-level caches.
    L1hits,
    /// Derived: accesses served by the last-level cache.
    LLhits,
    /// Derived: accesses served by main memory.
    RamHits,
    /// Derived: all instruction reads, data reads and data writes.
    TotalRW,
    /// Derived: an estimate of processor cycles.
    EstimatedCycles,
    /// Conditional branches executed.
    Bc,
    /// Conditional branches mispredicted.
    Bcm,
    /// Indirect branches executed.
    Bi,
    /// Indirect branches mispredicted.
    Bim,
    /// Dirty misses caused by instruction reads.
    ILdmr,
    /// Dirty misses caused by data reads.
    DLdmr,
    /// Dirty misses caused by data writes.
    DLdmw,
    /// Cost of bad temporal locality in the first-level caches.
    AcCost1,
    /// Cost of bad temporal locality in the last-level cache.
    AcCost2,
    /// Cost of bad spatial locality in the first-level caches.
    SpLoss1,
    /// Cost of bad spatial locality in the last-level cache.
    SpLoss2,
}

/// How many kinds there are.
pub const EVENT_KIND_COUNT: usize = 29;

impl EventKind {
    /// Whether this kind is computed from other counters.
    pub open spec fn derived(self) -> bool {
        self == EventKind::L1hits || self == EventKind::LLhits || self == EventKind::RamHits
            || self == EventKind::TotalRW || self == EventKind::EstimatedCycles
    }

    /// Whether this kind is computed from other counters.
    pub fn is_derived(&self) -> (r: bool)
        ensures
            r == self.derived(),
    {
        match self {
            EventKind::L1hits
            | EventKind::LLhits
            | EventKind::RamHits
            | EventKind::TotalRW
            | EventKind::EstimatedCycles => true,
            _ => false,
        }
    }

    /// The position of this kind in the declaration order.
    pub open spec fn ordinal(self) -> nat {
        match self {
            EventKind::Ir => 0,
            EventKind::SysCount => 1,
            EventKind::SysTime => 2,
            EventKind::SysCpuTime => 3,
            EventKind::Ge => 4,
            EventKind::Dr => 5,
            EventKind::Dw => 6,
            EventKind::I1mr => 7,
            EventKind::ILmr => 8,
            EventKind::D1mr => 9,
            EventKind::DLmr => 10,
            EventKind::D1mw => 11,
            EventKind::DLmw => 12,
            EventKind::L1hits => 13,
            EventKind::LLhits => 14,
            EventKind::RamHits => 15,
            EventKind::TotalRW => 16,
            EventKind::EstimatedCycles => 17,
            EventKind::Bc => 18,
            EventKind::Bcm => 19,
            EventKind::Bi => 20,
            EventKind::Bim => 21,
            EventKind::ILdmr => 22,
            EventKind::DLdmr => 23,
            EventKind::DLdmw => 24,
            EventKind::AcCost1 => 25,
            EventKind::AcCost2 => 26,
            EventKind::SpLoss1 => 27,
            EventKind::SpLoss2 => 28,
        }
    }

    /// The name under which a report declares this kind.
    pub open spec fn name(self) -> Seq<char> {
        match self {
            EventKind::Ir => "Ir"@,
            EventKind::SysCount => "sysCount"@,
            EventKind::SysTime => "sysTime"@,
            EventKind::SysCpuTime => "sysCpuTime"@,
            EventKind::Ge => "Ge"@,
            EventKind::Dr => "Dr"@,
            EventKind::Dw => "Dw"@,
            EventKind::I1mr => "I1mr"@,
            EventKind::ILmr => "ILmr"@,
            EventKind::D1mr => "D1mr"@,
            EventKind::DLmr => "DLmr"@,
            EventKind::D1mw => "D1mw"@,
            EventKind::DLmw => "DLmw"@,
            EventKind::L1hits => "L1hits"@,
            EventKind::LLhits => "LLhits"@,
            EventKind::RamHits => "RamHits"@,
            EventKind::TotalRW => "TotalRW"@,
            EventKind::EstimatedCycles => "EstimatedCycles"@,
            EventKind::Bc => "Bc"@,
            EventKind::Bcm => "Bcm"@,
            EventKind::Bi => "Bi"@,
            EventKind::Bim => "Bim"@,
            EventKind::ILdmr => "ILdmr"@,
            EventKind::DLdmr => "DLdmr"@,
            EventKind::DLdmw => "DLdmw"@,
            EventKind::AcCost1 => "AcCost1"@,
            EventKind::AcCost2 => "AcCost2"@,
            EventKind::SpLoss1 => "SpLoss1"@,
            EventKind::SpLoss2 => "SpLoss2"@,
        }
    }

    /// The name under which this kind is shown.
    pub open spec fn identifier(self) -> Seq<char> {
        match self {
            EventKind::SysCount => "SysCount"@,
            EventKind::SysTime => "SysTime"@,
            EventKind::SysCpuTime => "SysCpuTime"@,
            _ => self.name(),
        }
    }

    /// The name under which a report declares this kind.
    pub fn as_str(&self) -> (r: &'static str)
        ensures
            r@ == self.name(),
    {
        match self {
            EventKind::Ir => "Ir",
            EventKind::SysCount => "sysCount",
            EventKind::SysTime => "sysTime",
            EventKind::SysCpuTime => "sysCpuTime",
            EventKind::Ge => "Ge",
            EventKind::Dr => "Dr",
            EventKind::Dw => "Dw",
            EventKind::I1mr => "I1mr",
            EventKind::ILmr => "ILmr",
            EventKind::D1mr => "D1mr",
            EventKind::DLmr => "DLmr",
            EventKind::D1mw => "D1mw",
            EventKind::DLmw => "DLmw",
            EventKind::L1hits => "L1hits",
            EventKind::LLhits => "LLhits",
            EventKind::RamHits => "RamHits",
            EventKind::TotalRW => "TotalRW",
            EventKind::EstimatedCycles => "EstimatedCycles",
            EventKind::Bc => "Bc",
            EventKind::Bcm => "Bcm",
            EventKind::Bi => "Bi",
            EventKind::Bim => "Bim",
            EventKind::ILdmr => "ILdmr",
            EventKind::DLdmr => "DLdmr",
            EventKind::DLdmw => "DLdmw",
            EventKind::AcCost1 => "AcCost1",
            EventKind::AcCost2 => "AcCost2",
            EventKind::SpLoss1 => "SpLoss1",
            EventKind::SpLoss2 => "SpLoss2",
        }
    }

    /// The name under which this kind is shown.
    pub fn to_string(&self) -> (r: String)
        ensures
            r@ == self.identifier(),
    {
        match self {
            EventKind::SysCount => String::from_str("SysCount"),
            EventKind::SysTime => String::from_str("SysTime"),
            EventKind::SysCpuTime => String::from_str("SysCpuTime"),
            _ => String::from_str(self.as_str()),
        }
    }

    /// Every kind, in declaration order.
    pub fn all() -> (r: Vec<EventKind>)
        ensures
            r@.len() == EVENT_KIND_COUNT,
            forall|k: EventKind| #[trigger] r@[k.ordinal() as int] == k,
    {
        vec![
            EventKind::Ir,
            EventKind::SysCount,
            EventKind::SysTime,
            EventKind::SysCpuTime,
            EventKind::Ge,
            EventKind::Dr,
            EventKind::Dw,
            EventKind::I1mr,
            EventKind::ILmr,
            EventKind::D1mr,
            EventKind::DLmr,
            EventKind::D1mw,
            EventKind::DLmw,
            EventKind::L1hits,
            EventKind::LLhits,
            EventKind::RamHits,
            EventKind::TotalRW,
            EventKind::EstimatedCycles,
            EventKind::Bc,
            EventKind::Bcm,
            EventKind::Bi,
            EventKind::Bim,
            EventKind::ILdmr,
            EventKind::DLdmr,
            EventKind::DLdmw,
            EventKind::AcCost1,
            EventKind::AcCost2,
            EventKind::SpLoss1,
            EventKind::SpLoss2,
        ]
    }

    /// The kind that a report declares as `name`, if there is one.
    pub fn from_name(name: &str) -> (r: Option<EventKind>)
        ensures
            match r {
                Some(kind) => kind.name() == name@,
                None => forall|kind: EventKind| kind.name() != name@,
            },
    {
        let kinds = EventKind::all();
        let mut i: usize = 0;
        while i < kinds.len()
            invariant
                i <= kinds.len(),
                kinds@.len() == EVENT_KIND_COUNT,
                forall|k: EventKind| #[trigger] kinds@[k.ordinal() as int] == k,
                forall|j: int| 0 <= j < i ==> (#[trigger] kinds@[j]).name() != name@,
            decreases kinds.len() - i,
        {
            if str_eq(kinds[i].as_str(), name) {
                return Some(kinds[i]);
            }
            i += 1;
        }
        assert forall|kind: EventKind| kind.name() != name@ by {
            assert(kinds@[kind.ordinal() as int] == kind);
        }
        None
    }
}

/// The length of a kind's name and the characters that tell it from the others.
proof fn lemma_name_marks(kind: EventKind)
    ensures
        match kind {
            EventKind::Ir => kind.name().len() == 2 && kind.name()[0] == 'I' && kind.name()[1] == 'r',
            EventKind::SysCount => kind.name().len() == 8 && kind.name()[0] == 's' && kind.name()[1] == 'y' && kind.name()[3] == 'C' && kind.name()[4] == 'o' && kind.name()[6] == 'n',
            EventKind::SysTime => kind.name().len() == 7 && kind.name()[0] == 's' && kind.name()[1] == 'y' && kind.name()[3] == 'T' && kind.name()[4] == 'i' && kind.name()[6] == 'e',
            EventKind::SysCpuTime => kind.name().len() == 10 && kind.name()[0] == 's' && kind.name()[1] == 'y' && kind.name()[3] == 'C' && kind.name()[4] == 'p' && kind.name()[6] == 'T',
            EventKind::Ge => kind.name().len() == 2 && kind.name()[0] == 'G' && kind.name()[1] == 'e',
            EventKind::Dr => kind.name().len() == 2 && kind.name()[0] == 'D' && kind.name()[1] == 'r',
            EventKind::Dw => kind.name().len() == 2 && kind.name()[0] == 'D' && kind.name()[1] == 'w',
            EventKind::I1mr => kind.name().len() == 4 && kind.name()[0] == 'I' && kind.name()[1] == '1' && kind.name()[3] == 'r',
            EventKind::ILmr => kind.name().len() == 4 && kind.name()[0] == 'I' && kind.name()[1] == 'L' && kind.name()[3] == 'r',
            EventKind::D1mr => kind.name().len() == 4 && kind.name()[0] == 'D' && kind.name()[1] == '1' && kind.name()[3] == 'r',
            EventKind::DLmr => kind.name().len() == 4 && kind.name()[0] == 'D' && kind.name()[1] == 'L' && kind.name()[3] == 'r',
            EventKind::D1mw => kind.name().len() == 4 && kind.name()[0] == 'D' && kind.name()[1] == '1' && kind.name()[3] == 'w',
            EventKind::DLmw => kind.name().len() == 4 && kind.name()[0] == 'D' && kind.name()[1] == 'L' && kind.name()[3] == 'w',
            EventKind::L1hits => kind.name().len() == 6 && kind.name()[0] == 'L' && kind.name()[1] == '1' && kind.name()[3] == 'i' && kind.name()[4] == 't',
            EventKind::LLhits => kind.name().len() == 6 && kind.name()[0] == 'L' && kind.name()[1] == 'L' && kind.name()[3] == 'i' && kind.name()[4] == 't',
            EventKind::RamHits => kind.name().len() == 7 && kind.name()[0] == 'R' && kind.name()[1] == 'a' && kind.name()[3] == 'H' && kind.name()[4] == 'i' && kind.name()[6] == 's',
            EventKind::TotalRW => kind.name().len() == 7 && kind.name()[0] == 'T' && kind.name()[1] == 'o' && kind.name()[3] == 'a' && kind.name()[4] == 'l' && kind.name()[6] == 'W',
            EventKind::EstimatedCycles => kind.name().len() == 15 && kind.name()[0] == 'E' && kind.name()[1] == 's' && kind.name()[3] == 'i' && kind.name()[4] == 'm' && kind.name()[6] == 't',
            EventKind::Bc => kind.name().len() == 2 && kind.name()[0] == 'B' && kind.name()[1] == 'c',
            EventKind::Bcm => kind.name().len() == 3 && kind.name()[0] == 'B' && kind.name()[1] == 'c',
            EventKind::Bi => kind.name().len() == 2 && kind.name()[0] == 'B' && kind.name()[1] == 'i',
            EventKind::Bim => kind.name().len() == 3 && kind.name()[0] == 'B' && kind.name()[1] == 'i',
            EventKind::ILdmr => kind.name().len() == 5 && kind.name()[0] == 'I' && kind.name()[1] == 'L' && kind.name()[3] == 'm' && kind.name()[4] == 'r',
            EventKind::DLdmr => kind.name().len() == 5 && kind.name()[0] == 'D' && kind.name()[1] == 'L' && kind.name()[3] == 'm' && kind.name()[4] == 'r',
            EventKind::DLdmw => kind.name().len() == 5 && kind.name()[0] == 'D' && kind.name()[1] == 'L' && kind.name()[3] == 'm' && kind.name()[4] == 'w',
            EventKind::AcCost1 => kind.name().len() == 7 && kind.name()[0] == 'A' && kind.name()[1] == 'c' && kind.name()[3] == 'o' && kind.name()[4] == 's' && kind.name()[6] == '1',
            EventKind::AcCost2 => kind.name().len() == 7 && kind.name()[0] == 'A' && kind.name()[1] == 'c' && kind.name()[3] == 'o' && kind.name()[4] == 's' && kind.name()[6] == '2',
            EventKind::SpLoss1 => kind.name().len() == 7 && kind.name()[0] == 'S' && kind.name()[1] == 'p' && kind.name()[3] == 'o' && kind.name()[4] == 's' && kind.name()[6] == '1',
            EventKind::SpLoss2 => kind.name().len() == 7 && kind.name()[0] == 'S' && kind.name()[1] == 'p' && kind.name()[3] == 'o' && kind.name()[4] == 's' && kind.name()[6] == '2',
        },
{
    reveal_strlit("Ir");
    reveal_strlit("sysCount");
    reveal_strlit("sysTime");
    reveal_strlit("sysCpuTime");
    reveal_strlit("Ge");
    reveal_strlit("Dr");
    reveal_strlit("Dw");
    reveal_strlit("I1mr");
    reveal_strlit("ILmr");
    reveal_strlit("D1mr");
    reveal_strlit("DLmr");
    reveal_strlit("D1mw");
    reveal_strlit("DLmw");
    reveal_strlit("L1hits");
    reveal_strlit("LLhits");
    reveal_strlit("RamHits");
    reveal_strlit("TotalRW");
    reveal_strlit("EstimatedCycles");
    reveal_strlit("Bc");
    reveal_strlit("Bcm");
    reveal_strlit("Bi");
    reveal_strlit("Bim");
    reveal_strlit("ILdmr");
    reveal_strlit("DLdmr");
    reveal_strlit("DLdmw");
    reveal_strlit("AcCost1");
    reveal_strlit("AcCost2");
    reveal_strlit("SpLoss1");
    reveal_strlit("SpLoss2");
}

/// No two kinds are declared under the same name.
pub proof fn lemma_name_unique(a: EventKind, b: EventKind)
    requires
        a.name() == b.name(),
    ensures
        a == b,
{
    lemma_name_marks(a);
    lemma_name_marks(b);
}

} // verus!
