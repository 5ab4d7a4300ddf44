use bacak_compositor::hotplug::{ConnectorSnapshot, HotplugChange, OutputRegistry};
use bacak_compositor::wm::{Monitor, OutputId, Rect, WindowManager};

fn wm_with_primary() -> (WindowManager, u32, OutputId) {
    let wm = WindowManager::new(Monitor {
        work_area: Rect::px(0, 0, 1920, 1080),
    });
    // Pretend connector handle 100 is the primary that boot already wired.
    let primary = wm.primary_output().unwrap();
    (wm, 100, primary)
}

#[test]
fn add_new_connector_becomes_new_output() {
    let (mut wm, conn_a, primary) = wm_with_primary();
    let mut reg = OutputRegistry::new();
    reg.adopt(conn_a, primary);

    let snaps = vec![
        ConnectorSnapshot { handle: conn_a, bounds: Rect::px(0, 0, 1920, 1080) },
        ConnectorSnapshot { handle: 200,    bounds: Rect::px(1920, 0, 2560, 1440) },
    ];
    let changes = reg.reconcile(&snaps, &mut wm);

    assert_eq!(changes.len(), 1);
    assert!(matches!(changes[0], HotplugChange::Added { connector: 200, .. }));
    assert_eq!(wm.outputs().len(), 2);
    assert!(reg.knows(200));
}

#[test]
fn remove_disconnected_connector() {
    let (mut wm, conn_a, primary) = wm_with_primary();
    let mut reg = OutputRegistry::new();
    reg.adopt(conn_a, primary);

    // First reconcile adds a secondary.
    let _ = reg.reconcile(
        &[
            ConnectorSnapshot { handle: conn_a, bounds: Rect::px(0, 0, 1920, 1080) },
            ConnectorSnapshot { handle: 200,    bounds: Rect::px(1920, 0, 2560, 1440) },
        ],
        &mut wm,
    );
    let secondary_oid = reg.output_for(200).unwrap();
    assert_eq!(wm.outputs().len(), 2);

    // Now the secondary is unplugged.
    let changes = reg.reconcile(
        &[ConnectorSnapshot { handle: conn_a, bounds: Rect::px(0, 0, 1920, 1080) }],
        &mut wm,
    );
    assert_eq!(
        changes,
        vec![HotplugChange::Removed { connector: 200, output: secondary_oid }]
    );
    assert_eq!(wm.outputs().len(), 1);
    assert!(!reg.knows(200));
}

#[test]
fn mode_change_emits_resize() {
    let (mut wm, conn_a, primary) = wm_with_primary();
    let mut reg = OutputRegistry::new();
    reg.adopt(conn_a, primary);

    // Same connector reports a new bounds (4K → 1080p, say).
    let changes = reg.reconcile(
        &[ConnectorSnapshot { handle: conn_a, bounds: Rect::px(0, 0, 3840, 2160) }],
        &mut wm,
    );

    assert_eq!(
        changes,
        vec![HotplugChange::Resized { connector: conn_a, output: primary }]
    );
    assert_eq!(wm.output(primary).unwrap().bounds, Rect::px(0, 0, 3840, 2160));
}

#[test]
fn noop_when_snapshot_matches_current_state() {
    let (mut wm, conn_a, primary) = wm_with_primary();
    let mut reg = OutputRegistry::new();
    reg.adopt(conn_a, primary);

    let bounds = wm.output(primary).unwrap().bounds;
    let changes = reg.reconcile(
        &[ConnectorSnapshot { handle: conn_a, bounds }],
        &mut wm,
    );
    assert!(changes.is_empty());
}

#[test]
fn last_output_unplug_keeps_mapping() {
    // Single monitor session: user yanks the only cable. The WM
    // refuses to delete the last output (a headless WM has no
    // useful coordinate system), so the registry must preserve the
    // mapping — otherwise a re-plug would silently duplicate.
    let (mut wm, conn_a, primary) = wm_with_primary();
    let mut reg = OutputRegistry::new();
    reg.adopt(conn_a, primary);

    let changes = reg.reconcile(&[], &mut wm);
    assert!(changes.is_empty(), "remove of last output is refused, no change emitted");
    assert!(reg.knows(conn_a), "mapping survives so re-plug is a bounds update");
    assert_eq!(wm.outputs().len(), 1);

    // Re-plug at a new resolution — treated as resize, not double-add.
    let changes = reg.reconcile(
        &[ConnectorSnapshot { handle: conn_a, bounds: Rect::px(0, 0, 2560, 1440) }],
        &mut wm,
    );
    assert_eq!(
        changes,
        vec![HotplugChange::Resized { connector: conn_a, output: primary }]
    );
    assert_eq!(wm.outputs().len(), 1);
}

#[test]
fn add_remove_combo_in_one_reconcile() {
    let (mut wm, conn_a, primary) = wm_with_primary();
    let mut reg = OutputRegistry::new();
    reg.adopt(conn_a, primary);

    // First, plug in a second monitor.
    let _ = reg.reconcile(
        &[
            ConnectorSnapshot { handle: conn_a, bounds: Rect::px(0, 0, 1920, 1080) },
            ConnectorSnapshot { handle: 200,    bounds: Rect::px(1920, 0, 2560, 1440) },
        ],
        &mut wm,
    );
    let secondary_oid = reg.output_for(200).unwrap();

    // Now swap that second monitor for a third one in the same dock
    // (different connector handle), reported in a single reconcile.
    let changes = reg.reconcile(
        &[
            ConnectorSnapshot { handle: conn_a, bounds: Rect::px(0, 0, 1920, 1080) },
            ConnectorSnapshot { handle: 300,    bounds: Rect::px(1920, 0, 1920, 1080) },
        ],
        &mut wm,
    );

    assert!(changes
        .iter()
        .any(|c| matches!(c, HotplugChange::Removed { connector: 200, output } if *output == secondary_oid)));
    assert!(changes
        .iter()
        .any(|c| matches!(c, HotplugChange::Added { connector: 300, .. })));
    assert!(!reg.knows(200));
    assert!(reg.knows(300));
    assert_eq!(wm.outputs().len(), 2);
}

#[test]
fn outputs_follow_the_connectors() {
    let (mut wm, handle, primary) = wm_with_primary();
    let mut reg = OutputRegistry::new();
    reg.adopt(handle, primary);
    let at = |handle: u32, x: i32| ConnectorSnapshot { handle, bounds: Rect::px(x, 0, 1280, 720) };
    reg.reconcile(&[at(300, 1280), at(200, 0)], &mut wm);
    for s in [at(300, 1280), at(200, 0)] {
        let o = reg.output_for(s.handle).unwrap();
        assert_eq!(wm.output(o).unwrap().bounds, s.bounds);
    }
    assert_ne!(reg.output_for(200), reg.output_for(300));
    // The only output outlived its connector; it goes once there are others.
    assert!(reg.knows(handle));
    reg.reconcile(&[at(300, 1280), at(200, 0)], &mut wm);
    assert!(!reg.knows(handle));
    assert!(wm.output(primary).is_none());
    assert_eq!(reg.len(), 2);
}

#[test]
fn the_same_snapshot_again_changes_nothing() {
    let (mut wm, handle, primary) = wm_with_primary();
    let mut reg = OutputRegistry::new();
    reg.adopt(handle, primary);
    let at = |handle: u32, x: i32| ConnectorSnapshot { handle, bounds: Rect::px(x, 0, 1280, 720) };
    let snaps = [at(300, 2560), at(handle, 0), at(200, 1280)];
    assert_eq!(reg.reconcile(&snaps, &mut wm).len(), 3);
    let outputs = |reg: &OutputRegistry| -> Vec<Option<OutputId>> {
        snaps.iter().map(|s| reg.output_for(s.handle)).collect()
    };
    let before = outputs(&reg);
    assert_eq!(reg.reconcile(&snaps, &mut wm), vec![]);
    assert_eq!(outputs(&reg), before);
    assert_eq!(reg.len(), 3);
    for s in &snaps {
        let o = reg.output_for(s.handle).unwrap();
        assert_eq!(wm.output(o).unwrap().bounds, s.bounds);
    }
    // The last monitor gone: what is left of it stays as it is.
    reg.reconcile(&[], &mut wm);
    assert_eq!(wm.outputs().len(), 1);
    assert_eq!(reg.reconcile(&[], &mut wm), vec![]);
    assert_eq!(wm.outputs().len(), 1);
}

#[test]
fn reported_changes_are_true_of_the_bindings() {
    let (mut wm, handle, primary) = wm_with_primary();
    let mut reg = OutputRegistry::new();
    reg.adopt(handle, primary);
    let at = |handle: u32, x: i32| ConnectorSnapshot { handle, bounds: Rect::px(x, 0, 1280, 720) };
    let rounds: Vec<Vec<ConnectorSnapshot>> = vec![
        vec![at(handle, 0), at(200, 1280)],
        vec![at(300, 0), at(200, 1280)],
        vec![at(300, 0), at(200, 640), at(handle, 1920)],
    ];
    let mut kinds = (0, 0, 0);
    for snaps in &rounds {
        let known: Vec<(u32, Option<OutputId>)> =
            [handle, 200, 300].iter().map(|h| (*h, reg.output_for(*h))).collect();
        for change in reg.reconcile(snaps, &mut wm) {
            let before = known.iter().find(|(h, _)| *h == change.connector()).unwrap().1;
            let after = reg.output_for(change.connector());
            match change {
                HotplugChange::Added { .. } => {
                    kinds.0 += 1;
                    assert_eq!((before, after), (None, Some(change.output())));
                }
                HotplugChange::Removed { .. } => {
                    kinds.1 += 1;
                    assert_eq!((before, after), (Some(change.output()), None));
                }
                HotplugChange::Resized { .. } => {
                    kinds.2 += 1;
                    assert_eq!(after, Some(change.output()));
                }
            }
        }
    }
    assert_eq!(kinds, (3, 1, 2));
}

#[test]
fn reconciles_settle_with_stale_and_shared_bindings_too() {
    let (mut wm, conn_a, primary) = wm_with_primary();
    let mut reg = OutputRegistry::new();
    reg.adopt(conn_a, primary);
    // Two connectors of one output, and one whose output is long gone.
    reg.adopt(150, primary);
    reg.adopt(170, 9999);
    let bounds = Rect::px(0, 0, 1280, 720);
    let snaps = [
        ConnectorSnapshot { handle: conn_a, bounds },
        ConnectorSnapshot { handle: 150, bounds },
        ConnectorSnapshot { handle: 170, bounds },
        ConnectorSnapshot { handle: 200, bounds: Rect::px(1280, 0, 800, 600) },
    ];
    let changes = reg.reconcile(&snaps, &mut wm);
    assert_eq!(changes.len(), 2);
    assert!(reg.reconcile(&snaps, &mut wm).is_empty());
}

#[test]
fn rows_that_disagree_on_one_output_never_settle() {
    let (mut wm, conn_a, primary) = wm_with_primary();
    let mut reg = OutputRegistry::new();
    reg.adopt(conn_a, primary);
    reg.adopt(150, primary);
    let snaps = [
        ConnectorSnapshot { handle: conn_a, bounds: Rect::px(0, 0, 1280, 720) },
        ConnectorSnapshot { handle: 150, bounds: Rect::px(0, 0, 800, 600) },
    ];
    for _ in 0..3 {
        assert_eq!(reg.reconcile(&snaps, &mut wm).len(), 2);
    }
}

#[test]
fn a_kept_connector_goes_once_others_came() {
    let (mut wm, conn_a, primary) = wm_with_primary();
    let mut reg = OutputRegistry::new();
    reg.adopt(conn_a, primary);
    let snaps = [ConnectorSnapshot { handle: 200, bounds: Rect::px(0, 0, 800, 600) }];
    let first = reg.reconcile(&snaps, &mut wm);
    assert!(matches!(first[..], [HotplugChange::Added { connector: 200, .. }]));
    let second = reg.reconcile(&snaps, &mut wm);
    assert!(matches!(second[..], [HotplugChange::Removed { .. }]));
    assert_eq!(second[0].connector(), conn_a);
    assert!(reg.reconcile(&snaps, &mut wm).is_empty());
}

#[test]
fn gone_connectors_are_reported_by_ascending_handle() {
    let (mut wm, conn_a, primary) = wm_with_primary();
    let mut reg = OutputRegistry::new();
    reg.adopt(conn_a, primary);
    let row = |handle| ConnectorSnapshot { handle, bounds: Rect::px(0, 0, 800, 600) };
    reg.reconcile(&[row(conn_a), row(7), row(900), row(300), row(12)], &mut wm);
    let gone: Vec<u32> =
        reg.reconcile(&[row(conn_a)], &mut wm).iter().map(|c| c.connector()).collect();
    assert_eq!(gone, [7, 12, 300, 900]);
    assert_eq!(reg.len(), 1);
}
