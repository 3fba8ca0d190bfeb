use brume::mod_routing::{Assignment, ModRouting, RoutingMsg};

fn a(source: usize, dest: usize, depth: f32) -> Assignment<f32> {
    Assignment { source, dest, depth }
}

#[test]
fn routing_add_appends_default_assignment() {
    let mut r: ModRouting<f32> = ModRouting::new();
    assert_eq!(r.len(1), 0);
    let msgs = r.add(1, 0.5);
    assert_eq!(msgs, vec![RoutingMsg::Add { part: 1, source: 0, dest: 0, depth: 0.5 }]);
    assert_eq!(r.len(1), 1);
    assert_eq!(r.get(1, 0), Some(a(0, 0, 0.5)));
    assert_eq!(r.len(0), 0);
}

#[test]
fn routing_ignores_parts_and_indices_out_of_range() {
    let mut r: ModRouting<f32> = ModRouting::new();
    assert!(r.add(4, 0.5).is_empty());
    assert!(r.remove(0, 0).is_empty());
    assert!(r.cycle_source(2, 3).is_empty());
    assert!(r.cycle_dest(9, 0).is_empty());
    assert!(r.set_depth(0, 1, 0.1).is_empty());
    assert_eq!(r.get(0, 0), None);
    assert_eq!(r.len(7), 0);
}

#[test]
fn routing_cycle_source_wraps_and_respins() {
    let mut r: ModRouting<f32> = ModRouting::new();
    r.add(0, 0.5);
    for expected in [1, 2, 3, 0] {
        let msgs = r.cycle_source(0, 0);
        assert_eq!(
            msgs,
            vec![
                RoutingMsg::Remove { part: 0, index: 0 },
                RoutingMsg::Add { part: 0, source: expected, dest: 0, depth: 0.5 },
            ]
        );
        assert_eq!(r.get(0, 0), Some(a(expected, 0, 0.5)));
    }
}

#[test]
fn routing_cycle_dest_wraps_after_thirteen() {
    let mut r: ModRouting<f32> = ModRouting::new();
    r.add(3, -0.25);
    for _ in 0..12 {
        r.cycle_dest(3, 0);
    }
    assert_eq!(r.get(3, 0), Some(a(0, 12, -0.25)));
    r.cycle_dest(3, 0);
    assert_eq!(r.get(3, 0), Some(a(0, 0, -0.25)));
}

#[test]
fn routing_remove_and_set_depth_address_by_index() {
    let mut r: ModRouting<f32> = ModRouting::new();
    r.add(2, 0.5);
    r.add(2, 0.5);
    r.cycle_dest(2, 1);
    assert_eq!(r.set_depth(2, 1, -1.0), vec![RoutingMsg::SetDepth { part: 2, index: 1, depth: -1.0 }]);
    assert_eq!(r.get(2, 1), Some(a(0, 1, -1.0)));
    assert_eq!(r.remove(2, 0), vec![RoutingMsg::Remove { part: 2, index: 0 }]);
    assert_eq!(r.len(2), 1);
    assert_eq!(r.get(2, 0), Some(a(0, 1, -1.0)));
}

#[test]
fn routing_respin_of_earlier_row_keeps_engine_order() {
    let mut r: ModRouting<f32> = ModRouting::new();
    r.add(1, 0.5);
    r.add(1, 0.25);
    r.add(1, -0.5);
    r.cycle_dest(1, 2);
    let msgs = r.cycle_source(1, 0);
    assert_eq!(
        msgs,
        vec![
            RoutingMsg::Remove { part: 1, index: 2 },
            RoutingMsg::Remove { part: 1, index: 1 },
            RoutingMsg::Remove { part: 1, index: 0 },
            RoutingMsg::Add { part: 1, source: 1, dest: 0, depth: 0.5 },
            RoutingMsg::Add { part: 1, source: 0, dest: 0, depth: 0.25 },
            RoutingMsg::Add { part: 1, source: 0, dest: 1, depth: -0.5 },
        ]
    );
    assert_eq!(r.get(1, 0), Some(a(1, 0, 0.5)));
    assert_eq!(r.get(1, 2), Some(a(0, 1, -0.5)));
}
