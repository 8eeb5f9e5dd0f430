use driftlet::policy::{command_policies, perm_const_value, Gate, PERM_SYS_INFO};

#[test]
fn policies_complete_and_marked() {
    let table = command_policies();
    // no command is listed twice
    let mut names: Vec<&str> = table.iter().map(|(n, _)| *n).collect();
    names.sort_unstable();
    names.windows(2).for_each(|w| assert_ne!(w[0], w[1], "duplicate policy row '{}'", w[0]));
    // every gated command has a marker that names its gate
    for (name, gate) in &table {
        match gate.marker() {
            Some(m) => {
                assert!(!m.is_empty(), "{}: empty marker", name);
                if let Gate::Perm(p) = gate {
                    assert_eq!(m, format!("require_perm(&state, &window, {})", p));
                }
            }
            None => assert!(matches!(gate, Gate::Ungated), "{}: gate without marker", name),
        }
    }
    // the commands that only act on the caller's own window are the ungated ones
    let ungated: Vec<&str> =
        table.iter().filter(|(_, g)| matches!(g, Gate::Ungated)).map(|(n, _)| *n).collect();
    assert_eq!(ungated, vec!["start_skin_drag", "start_skin_resize"]);
}

#[test]
fn perm_const_names_resolve() {
    for (cmd, gate) in command_policies() {
        if let Gate::Perm(name) = gate {
            let v = perm_const_value(name);
            assert!(!v.is_empty(), "{}: empty permission value", cmd);
        }
    }
    assert_eq!(perm_const_value("PERM_SYS_INFO"), PERM_SYS_INFO);
    assert_eq!(perm_const_value("PERM_FILE_SYSTEM"), "file_system");
}

#[test]
fn gate_distribution_snapshot() {
    let table = command_policies();
    let count = |pred: fn(&Gate) -> bool| table.iter().filter(|(_, g)| pred(g)).count();
    assert_eq!(count(|g| matches!(g, Gate::ManagerOnly)), 55);
    assert_eq!(count(|g| matches!(g, Gate::LogWindow)), 2);
    assert_eq!(count(|g| matches!(g, Gate::Ungated)), 2);
    assert_eq!(count(|g| matches!(g, Gate::SkinLabel)), 4);
    assert_eq!(count(|g| matches!(g, Gate::CallerSkin)), 8);
    assert_eq!(count(|g| matches!(g, Gate::ControlTarget)), 7);
    assert_eq!(count(|g| matches!(g, Gate::AnyPerm)), 1);
    assert_eq!(count(|g| matches!(g, Gate::Perm(_))), 38);
    assert_eq!(table.len(), 117);
}

#[test]
fn gate_markers_are_exact() {
    assert_eq!(Gate::ManagerOnly.marker().as_deref(), Some("require_manager(&window)"));
    assert_eq!(Gate::LogWindow.marker().as_deref(), Some("require_log_window(&window)"));
    assert_eq!(Gate::SkinLabel.marker().as_deref(), Some("strip_prefix(\"skin-\")"));
    assert_eq!(
        Gate::Perm("PERM_MEDIA").marker().as_deref(),
        Some("require_perm(&state, &window, PERM_MEDIA)")
    );
    assert_eq!(Gate::Ungated.marker(), None);
}
