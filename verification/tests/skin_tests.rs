use stttwmdtt::event::Transition;
use stttwmdtt::region::{BoardRef, CellRef};
use stttwmdtt::skin::{
    toggle_for, toggles_for, BoardHighlights, CellHighlights, HighlightLayer, SkinAction,
    SkinTarget, SkinVariant,
};

#[test]
fn cell_enter_on_active_board_uses_active_skin() {
    let cell = CellRef { x: 1, y: 2, board_id: 7 };
    let action = toggle_for(&Transition::CellEntered(cell), 7);
    assert_eq!(
        action,
        SkinAction {
            target: SkinTarget::Cell(cell),
            layer: HighlightLayer::Hover(SkinVariant::OnActiveBoard),
            visible: true,
        }
    );
    // Applying it touches only the active-skin layer.
    let mut layers = CellHighlights::hidden();
    if let HighlightLayer::Hover(variant) = action.layer {
        layers.apply(variant, action.visible);
    }
    assert!(layers.hover_on_active);
    assert!(!layers.hover_on_inactive);
}

#[test]
fn cell_enter_on_foreign_board_uses_inactive_skin() {
    let cell = CellRef { x: 1, y: 2, board_id: 3 };
    let action = toggle_for(&Transition::CellEntered(cell), 7);
    assert_eq!(
        action,
        SkinAction {
            target: SkinTarget::Cell(cell),
            layer: HighlightLayer::Hover(SkinVariant::OnInactiveBoard),
            visible: true,
        }
    );
    let mut layers = CellHighlights { hover_on_active: true, hover_on_inactive: false };
    if let HighlightLayer::Hover(variant) = action.layer {
        layers.apply(variant, action.visible);
    }
    // The active-skin layer is left exactly as it was.
    assert!(layers.hover_on_active);
    assert!(layers.hover_on_inactive);
}

#[test]
fn cell_exit_hides_the_matching_skin() {
    let cell = CellRef { x: 0, y: 0, board_id: 7 };
    let action = toggle_for(&Transition::CellExited(cell), 7);
    assert_eq!(action.layer, HighlightLayer::Hover(SkinVariant::OnActiveBoard));
    assert!(!action.visible);
}

#[test]
fn board_hover_picks_skin_by_active_register() {
    let b = BoardRef { board_id: 2 };
    let on_active = toggle_for(&Transition::BoardEntered(b), 2);
    assert_eq!(on_active.layer, HighlightLayer::Hover(SkinVariant::OnActiveBoard));
    let on_foreign = toggle_for(&Transition::BoardEntered(b), 9);
    assert_eq!(on_foreign.layer, HighlightLayer::Hover(SkinVariant::OnInactiveBoard));
}

#[test]
fn activation_transitions_drive_the_border_layer() {
    let b = BoardRef { board_id: 4 };
    let shown = toggle_for(&Transition::BoardActivated(b), 4);
    assert_eq!(
        shown,
        SkinAction {
            target: SkinTarget::Board(b),
            layer: HighlightLayer::ActiveBorder,
            visible: true,
        }
    );
    let hidden = toggle_for(&Transition::BoardDeactivated(b), 9);
    assert_eq!(
        hidden,
        SkinAction {
            target: SkinTarget::Board(b),
            layer: HighlightLayer::ActiveBorder,
            visible: false,
        }
    );
}

#[test]
fn board_apply_touches_exactly_one_layer() {
    let mut layers = BoardHighlights::hidden();
    layers.apply(HighlightLayer::ActiveBorder, true);
    assert_eq!(
        layers,
        BoardHighlights { hover_on_active: false, hover_on_inactive: false, active_border: true }
    );
    layers.apply(HighlightLayer::Hover(SkinVariant::OnInactiveBoard), true);
    assert_eq!(
        layers,
        BoardHighlights { hover_on_active: false, hover_on_inactive: true, active_border: true }
    );
    layers.apply(HighlightLayer::Hover(SkinVariant::OnActiveBoard), true);
    layers.apply(HighlightLayer::Hover(SkinVariant::OnInactiveBoard), false);
    assert_eq!(
        layers,
        BoardHighlights { hover_on_active: true, hover_on_inactive: false, active_border: true }
    );
}

#[test]
fn toggles_follow_emission_order() {
    let b_old = BoardRef { board_id: 7 };
    let b_new = BoardRef { board_id: 10 };
    let evs = vec![
        Transition::BoardDeactivated(b_old),
        Transition::BoardActivated(b_new),
    ];
    // The register has already stepped to 10 when the applier runs.
    let acts = toggles_for(&evs, 10);
    assert_eq!(
        acts,
        vec![
            SkinAction {
                target: SkinTarget::Board(b_old),
                layer: HighlightLayer::ActiveBorder,
                visible: false,
            },
            SkinAction {
                target: SkinTarget::Board(b_new),
                layer: HighlightLayer::ActiveBorder,
                visible: true,
            },
        ]
    );
}
