use aetheris_client::render_modes::{
    grid_line_style, is_major_grid_line, DebugGridMode, DebugRenderMode, GridLineStyle,
};

#[test]
fn render_mode_cycle_visits_every_mode_and_returns() {
    let mut m = DebugRenderMode::Off;
    m.cycle();
    assert_eq!(m, DebugRenderMode::Wireframe);
    m.cycle();
    assert_eq!(m, DebugRenderMode::Components);
    m.cycle();
    assert_eq!(m, DebugRenderMode::Full);
    m.cycle();
    assert_eq!(m, DebugRenderMode::Off);
}

#[test]
fn grid_mode_cycle_visits_every_mode_and_returns() {
    let mut g = DebugGridMode::Off;
    g.cycle();
    assert_eq!(g, DebugGridMode::Large);
    g.cycle();
    assert_eq!(g, DebugGridMode::Small);
    g.cycle();
    assert_eq!(g, DebugGridMode::Both);
    g.cycle();
    assert_eq!(g, DebugGridMode::Off);
}

#[test]
fn render_mode_from_code_maps_unknown_codes_to_full() {
    assert_eq!(DebugRenderMode::from_code(0), DebugRenderMode::Off);
    assert_eq!(DebugRenderMode::from_code(1), DebugRenderMode::Wireframe);
    assert_eq!(DebugRenderMode::from_code(2), DebugRenderMode::Components);
    assert_eq!(DebugRenderMode::from_code(3), DebugRenderMode::Full);
    assert_eq!(DebugRenderMode::from_code(99), DebugRenderMode::Full);
}

#[test]
fn render_mode_overlay_decisions() {
    assert!(DebugRenderMode::Wireframe.draws_wireframe(true));
    assert!(!DebugRenderMode::Wireframe.draws_wireframe(false));
    assert!(DebugRenderMode::Full.draws_wireframe(true));
    assert!(!DebugRenderMode::Components.draws_wireframe(true));
    assert!(!DebugRenderMode::Off.draws_components());
    assert!(!DebugRenderMode::Wireframe.draws_components());
    assert!(DebugRenderMode::Components.draws_components());
    assert!(DebugRenderMode::Full.draws_components());
}

#[test]
fn grid_line_styles_per_mode() {
    assert_eq!(grid_line_style(DebugGridMode::Off, true), GridLineStyle::Hidden);
    assert_eq!(grid_line_style(DebugGridMode::Large, true), GridLineStyle::Major);
    assert_eq!(grid_line_style(DebugGridMode::Large, false), GridLineStyle::Hidden);
    assert_eq!(grid_line_style(DebugGridMode::Small, true), GridLineStyle::Minor);
    assert_eq!(grid_line_style(DebugGridMode::Both, true), GridLineStyle::Major);
    assert_eq!(grid_line_style(DebugGridMode::Both, false), GridLineStyle::Minor);
}

#[test]
fn major_grid_lines_every_ten_units() {
    assert!(is_major_grid_line(0));
    assert!(is_major_grid_line(10));
    assert!(is_major_grid_line(-10));
    assert!(is_major_grid_line(-250));
    assert!(!is_major_grid_line(5));
    assert!(!is_major_grid_line(-5));
    assert!(!is_major_grid_line(11));
}
