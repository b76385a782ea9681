use iai_callgrind_runner::event_kind::{EventKind, EVENT_KIND_COUNT};

#[test]
fn five_kinds_are_derived() {
    let derived: Vec<EventKind> =
        EventKind::all().into_iter().filter(|kind| kind.is_derived()).collect();
    assert_eq!(
        derived,
        vec![
            EventKind::L1hits,
            EventKind::LLhits,
            EventKind::RamHits,
            EventKind::TotalRW,
            EventKind::EstimatedCycles,
        ]
    );
    assert!(!EventKind::Ir.is_derived());
    assert!(!EventKind::SpLoss2.is_derived());
}

#[test]
fn all_kinds_in_order() {
    let all = EventKind::all();
    assert_eq!(all.len(), EVENT_KIND_COUNT);
    assert_eq!(all.len(), 29);
    assert_eq!(all[0], EventKind::Ir);
    assert_eq!(all[1], EventKind::SysCount);
    assert_eq!(all[13], EventKind::L1hits);
    assert_eq!(all[28], EventKind::SpLoss2);
    for (i, a) in all.iter().enumerate() {
        for b in &all[i + 1..] {
            assert_ne!(a, b);
        }
    }
}

#[test]
fn names_lead_back_to_their_kinds() {
    for kind in EventKind::all() {
        assert_eq!(EventKind::from_name(kind.as_str()), Some(kind));
    }
}

#[test]
fn names_as_a_report_writes_them() {
    assert_eq!(EventKind::Ir.as_str(), "Ir");
    assert_eq!(EventKind::SysCount.as_str(), "sysCount");
    assert_eq!(EventKind::SysTime.as_str(), "sysTime");
    assert_eq!(EventKind::SysCpuTime.as_str(), "sysCpuTime");
    assert_eq!(EventKind::DLdmw.as_str(), "DLdmw");
    assert_eq!(EventKind::EstimatedCycles.as_str(), "EstimatedCycles");
    assert_eq!(EventKind::from_name("I1mr"), Some(EventKind::I1mr));
    assert_eq!(EventKind::from_name("ILmr"), Some(EventKind::ILmr));
    assert_eq!(EventKind::from_name("AcCost2"), Some(EventKind::AcCost2));
    assert_eq!(EventKind::from_name("SysCount"), None);
    assert_eq!(EventKind::from_name("ir"), None);
    assert_eq!(EventKind::from_name("Ir "), None);
    assert_eq!(EventKind::from_name(""), None);
    assert_eq!(EventKind::from_name("Irr"), None);
}

#[test]
fn names_as_shown() {
    assert_eq!(EventKind::SysCount.to_string(), "SysCount");
    assert_eq!(EventKind::SysTime.to_string(), "SysTime");
    assert_eq!(EventKind::SysCpuTime.to_string(), "SysCpuTime");
    assert_eq!(EventKind::Ge.to_string(), "Ge");
    assert_eq!(EventKind::TotalRW.to_string(), "TotalRW");
    for kind in EventKind::all() {
        assert_eq!(kind.to_string(), format!("{:?}", kind));
    }
}
