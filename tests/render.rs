use tui_2048::board::Grid;
use tui_2048::error::GameError;
use tui_2048::render::{tile_color, DefaultRenderer, NoColorRenderer, TileColor};

const BOARD: Grid = [[0, 2, 16, 2048], [4, 0, 0, 0], [0, 0, 131072, 0], [0, 0, 0, 8]];

#[test]
fn colors_by_tile_value() {
    assert_eq!(tile_color(0), TileColor::DarkGray);
    assert_eq!(tile_color(2), TileColor::Green);
    assert_eq!(tile_color(4), TileColor::Yellow);
    assert_eq!(tile_color(64), TileColor::Cyan);
    assert_eq!(tile_color(2048), TileColor::LightRed);
    assert_eq!(tile_color(4096), TileColor::LightCyan);
}

#[test]
fn renders_score_blank_line_and_three_lines_per_row() {
    let lines = DefaultRenderer.render(1234, &BOARD);
    assert_eq!(lines.len(), 14);
    assert_eq!(lines[0].len(), 1);
    assert_eq!(lines[0][0].text, "Score: 1234");
    assert_eq!(lines[0][0].color, None);
    assert!(lines[1].is_empty());
    for row in 0..4 {
        for line in 2 + 3 * row..5 + 3 * row {
            assert_eq!(lines[line].len(), 4);
        }
    }
    assert_eq!(lines[2][0].text, "┌─────┐ ");
    assert_eq!(lines[4][3].text, "└─────┘ ");
    assert_eq!(lines[3][0].text, "│     │ ");
    assert_eq!(lines[3][1].text, "│  2  │ ");
    assert_eq!(lines[3][2].text, "│ 16  │ ");
    assert_eq!(lines[3][3].text, "│2048 │ ");
    assert_eq!(lines[9][2].text, "│131072│ ");
    assert_eq!(lines[3][3].color, Some(TileColor::LightRed));
    assert_eq!(lines[2][0].color, Some(TileColor::DarkGray));
    assert!(DefaultRenderer.is_color());
}

#[test]
fn no_color_renderer_draws_the_same_text_without_colours() {
    let plain = NoColorRenderer.render(0, &BOARD);
    let colored = DefaultRenderer.render(0, &BOARD);
    assert_eq!(plain[0][0].text, "Score: 0");
    assert_eq!(plain.len(), colored.len());
    for (a, b) in plain.iter().zip(colored.iter()) {
        assert_eq!(a.len(), b.len());
        for (x, y) in a.iter().zip(b.iter()) {
            assert_eq!(x.text, y.text);
            assert_eq!(x.color, None);
        }
    }
    assert!(!NoColorRenderer.is_color());
}

#[test]
fn error_messages_name_their_kind() {
    assert_eq!(GameError::InputError("bad key".to_string()).message(), "Input error: bad key");
    assert_eq!(GameError::GameStateError("x".to_string()).message(), "Game state error: x");
    assert_eq!(GameError::TerminalError("raw".to_string()).message(), "Terminal error: raw");
    let io = std::io::Error::new(std::io::ErrorKind::Other, "boom");
    assert_eq!(GameError::from(io).message(), "IO error: boom");
}
