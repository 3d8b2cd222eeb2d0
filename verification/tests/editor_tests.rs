use glyphgrid::Pixel;
use glyphgrid::PixelGrid;
use glyphgrid::editor::Command;
use glyphgrid::editor::EditorSession;
use glyphgrid::editor::EditorState;
use glyphgrid::export::export;
use glyphgrid::export::parse_glyph;

fn grids_equal(a: &PixelGrid, b: &PixelGrid) -> bool {
    for y in 0..7 {
        for x in 0..5 {
            if a.get(x, y) != b.get(x, y) {
                return false;
            }
        }
    }
    true
}

#[test]
fn editor_starts_at_fixed_position_with_unlit_grid() {
    let s = EditorSession::new();
    assert_eq!(s.cursor_x, 3);
    assert_eq!(s.cursor_y, 0);
    assert_eq!(s.state, EditorState::Editing);
    for y in 0..7 {
        for x in 0..5 {
            assert_eq!(s.grid.get(x, y), Pixel::Unlit);
        }
    }
}

#[test]
fn move_right_wraps_after_width_steps() {
    let mut s = EditorSession::new();
    let start = s.cursor_x;
    for _ in 0..5 {
        s.step(Command::MoveRight);
    }
    assert_eq!(s.cursor_x, start);
}

#[test]
fn move_down_wraps_after_height_steps() {
    let mut s = EditorSession::new();
    s.step(Command::MoveDown);
    let start = s.cursor_y;
    for _ in 0..7 {
        s.step(Command::MoveDown);
    }
    assert_eq!(s.cursor_y, start);
}

#[test]
fn move_left_wraps_from_column_zero() {
    let mut s = EditorSession::new();
    s.step(Command::MoveLeft);
    s.step(Command::MoveLeft);
    s.step(Command::MoveLeft);
    assert_eq!(s.cursor_x, 0);
    s.step(Command::MoveLeft);
    assert_eq!(s.cursor_x, 4);
}

#[test]
fn move_up_wraps_from_row_zero() {
    let mut s = EditorSession::new();
    assert_eq!(s.cursor_y, 0);
    s.step(Command::MoveUp);
    assert_eq!(s.cursor_y, 6);
    s.step(Command::MoveDown);
    assert_eq!(s.cursor_y, 0);
}

#[test]
fn toggle_twice_restores_the_pixel() {
    let mut s = EditorSession::new();
    s.step(Command::TogglePixel);
    assert_eq!(s.grid.get(3, 0), Pixel::Lit);
    s.step(Command::TogglePixel);
    assert_eq!(s.grid.get(3, 0), Pixel::Unlit);
}

#[test]
fn fill_row_twice_equals_once() {
    let mut once = EditorSession::new();
    once.step(Command::MoveDown);
    once.step(Command::FillRow);
    let mut twice = EditorSession::new();
    twice.step(Command::MoveDown);
    twice.step(Command::FillRow);
    twice.step(Command::FillRow);
    assert!(grids_equal(&once.grid, &twice.grid));
    for x in 0..5 {
        assert_eq!(once.grid.get(x, 1), Pixel::Lit);
        assert_eq!(once.grid.get(x, 0), Pixel::Unlit);
        assert_eq!(once.grid.get(x, 2), Pixel::Unlit);
    }
}

#[test]
fn fill_column_twice_equals_once() {
    let mut once = EditorSession::new();
    once.step(Command::FillColumn);
    let mut twice = EditorSession::new();
    twice.step(Command::FillColumn);
    twice.step(Command::FillColumn);
    assert!(grids_equal(&once.grid, &twice.grid));
    for y in 0..7 {
        assert_eq!(once.grid.get(3, y), Pixel::Lit);
        assert_eq!(once.grid.get(2, y), Pixel::Unlit);
        assert_eq!(once.grid.get(4, y), Pixel::Unlit);
    }
}

#[test]
fn fill_row_never_clears_other_pixels() {
    let mut s = EditorSession::new();
    s.step(Command::TogglePixel);
    assert_eq!(s.grid.get(3, 0), Pixel::Lit);
    s.step(Command::MoveDown);
    s.step(Command::FillRow);
    assert_eq!(s.grid.get(3, 0), Pixel::Lit);
}

#[test]
fn fill_column_never_clears_other_pixels() {
    let mut s = EditorSession::new();
    s.step(Command::TogglePixel);
    s.step(Command::MoveLeft);
    s.step(Command::FillColumn);
    assert_eq!(s.grid.get(3, 0), Pixel::Lit);
    assert_eq!(s.grid.get(2, 6), Pixel::Lit);
}

#[test]
fn noop_changes_nothing() {
    let mut s = EditorSession::new();
    s.step(Command::Noop);
    assert_eq!(s.cursor_x, 3);
    assert_eq!(s.cursor_y, 0);
    assert_eq!(s.state, EditorState::Editing);
    for y in 0..7 {
        for x in 0..5 {
            assert_eq!(s.grid.get(x, y), Pixel::Unlit);
        }
    }
}

#[test]
fn exit_is_terminal() {
    let mut s = EditorSession::new();
    s.step(Command::Exit);
    assert_eq!(s.state, EditorState::Exited);
    s.step(Command::MoveRight);
    s.step(Command::TogglePixel);
    assert_eq!(s.cursor_x, 3);
    assert_eq!(s.grid.get(3, 0), Pixel::Unlit);
    assert_eq!(s.state, EditorState::Exited);
}

#[test]
fn export_fresh_grid_is_all_zero_bits() {
    let g = PixelGrid::new();
    let text = export(&g, "blank");
    let expected = "byte blank[8] = {\n\
                    \tB00000,\n\
                    \tB00000,\n\
                    \tB00000,\n\
                    \tB00000,\n\
                    \tB00000,\n\
                    \tB00000,\n\
                    \tB00000,\n\
                    };\n";
    assert_eq!(text, expected);
}

#[test]
fn editor_scenario_wrap_then_toggle() {
    // From the start column 3, three `MoveRight` steps pass 4, wrap to 0 and
    // land on 1; the toggle lights (1, 0); exit freezes the session.
    let mut s = EditorSession::new();
    s.step(Command::MoveRight);
    s.step(Command::MoveRight);
    s.step(Command::MoveRight);
    s.step(Command::TogglePixel);
    s.step(Command::Exit);
    assert_eq!(s.cursor_x, 1);
    assert_eq!(s.cursor_y, 0);
    let text = export(&s.grid, "glyph");
    let expected = "byte glyph[8] = {\n\
                    \tB01000,\n\
                    \tB00000,\n\
                    \tB00000,\n\
                    \tB00000,\n\
                    \tB00000,\n\
                    \tB00000,\n\
                    \tB00000,\n\
                    };\n";
    assert_eq!(text, expected);
}

#[test]
fn export_then_parse_round_trips() {
    let mut g = PixelGrid::new();
    g.set(0, 0, Pixel::Lit);
    g.set(4, 0, Pixel::Lit);
    g.set(2, 3, Pixel::Lit);
    g.set(1, 6, Pixel::Lit);
    g.set(3, 6, Pixel::Lit);
    let text = export(&g, "dots");
    let back = match parse_glyph(&text) {
        Some(b) => b,
        None => panic!("exported text did not re-parse"),
    };
    assert!(grids_equal(&g, &back));
}

#[test]
fn parse_ignores_formatting() {
    let text = "header line\n 11111 00000,\n11111\t00000 11111,\n00000x11111 extra";
    let g = match parse_glyph(text) {
        Some(g) => g,
        None => panic!("expected a grid"),
    };
    for y in 0..7 {
        for x in 0..5 {
            let expected = if y % 2 == 0 { Pixel::Lit } else { Pixel::Unlit };
            assert_eq!(g.get(x, y), expected, "at ({}, {})", x, y);
        }
    }
}

#[test]
fn parse_needs_a_header_line() {
    // 35 bits but no newline before them: everything counts as header.
    let text = "11111111111111111111111111111111111";
    assert!(parse_glyph(text).is_none());
}

#[test]
fn parse_too_few_bits_is_none() {
    let text = "byte x[8] = {\n\tB01010,\n};\n";
    assert!(parse_glyph(text).is_none());
}
