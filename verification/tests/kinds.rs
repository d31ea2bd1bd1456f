//! Node kinds and their order.
use adaptite::NodeKind;

#[test]
fn node_kind_all_and_count_track_the_variant_set() {
    let declared = [
        NodeKind::Source,
        NodeKind::Signal,
        NodeKind::Event,
        NodeKind::Thunk,
        NodeKind::Memo,
        NodeKind::Effect,
    ];
    for kind in declared {
        match kind {
            NodeKind::Source
            | NodeKind::Signal
            | NodeKind::Event
            | NodeKind::Thunk
            | NodeKind::Memo
            | NodeKind::Effect => {}
        }
    }

    assert_eq!(
        declared.len(),
        NodeKind::COUNT,
        "COUNT drifted from the variant set, and it sizes the per-kind counter arrays"
    );
    assert_eq!(
        NodeKind::all().into_iter().count(),
        NodeKind::COUNT,
        "all() drifted from the variant set"
    );

    let mut seen = [false; NodeKind::COUNT];
    for kind in NodeKind::all() {
        let index = kind.index();
        assert!(index < NodeKind::COUNT, "{kind:?} indexes past the counters");
        assert!(!seen[index], "{kind:?} shares index {index} with another kind");
        seen[index] = true;
    }
    assert!(seen.iter().all(|slot| *slot), "all() does not cover every counter slot");
    for kind in declared {
        assert!(
            NodeKind::all().into_iter().any(|reported| reported == kind),
            "{kind:?} is missing from all()"
        );
    }
}
