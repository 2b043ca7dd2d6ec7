use console_io::color::{color_to_console_code, severity_to_color, Color, Severity};

const ALL_COLORS: [Color; 16] = [
    Color::Black,
    Color::Blue,
    Color::Green,
    Color::Cyan,
    Color::Red,
    Color::Magenta,
    Color::Brown,
    Color::LightGray,
    Color::DarkGray,
    Color::LightBlue,
    Color::LightGreen,
    Color::LightCyan,
    Color::LightRed,
    Color::Pink,
    Color::Yellow,
    Color::White,
];

#[test]
fn severity_maps_to_its_color() {
    assert_eq!(severity_to_color(Severity::Error), Color::Red);
    assert_eq!(severity_to_color(Severity::Warn), Color::Yellow);
    assert_eq!(severity_to_color(Severity::Info), Color::Blue);
    assert_eq!(severity_to_color(Severity::Debug), Color::LightRed);
    assert_eq!(severity_to_color(Severity::Trace), Color::DarkGray);
}

#[test]
fn from_severity_agrees_with_the_mapping() {
    let all = [
        Severity::Error,
        Severity::Warn,
        Severity::Info,
        Severity::Debug,
        Severity::Trace,
    ];
    for severity in all {
        assert_eq!(Color::from(severity), severity_to_color(severity));
    }
}

#[test]
fn severities_have_distinct_colors() {
    let all = [
        Severity::Error,
        Severity::Warn,
        Severity::Info,
        Severity::Debug,
        Severity::Trace,
    ];
    for (i, a) in all.iter().enumerate() {
        for (j, b) in all.iter().enumerate() {
            if i != j {
                assert_ne!(severity_to_color(*a), severity_to_color(*b));
            }
        }
    }
}

#[test]
fn console_code_table() {
    assert_eq!(color_to_console_code(Color::Black), (0, 0));
    assert_eq!(color_to_console_code(Color::Blue), (0, 4));
    assert_eq!(color_to_console_code(Color::Green), (0, 2));
    assert_eq!(color_to_console_code(Color::Cyan), (0, 6));
    assert_eq!(color_to_console_code(Color::Red), (0, 1));
    assert_eq!(color_to_console_code(Color::Magenta), (0, 5));
    assert_eq!(color_to_console_code(Color::Brown), (0, 3));
    assert_eq!(color_to_console_code(Color::LightGray), (1, 7));
    assert_eq!(color_to_console_code(Color::DarkGray), (0, 7));
    assert_eq!(color_to_console_code(Color::LightBlue), (1, 4));
    assert_eq!(color_to_console_code(Color::LightGreen), (1, 2));
    assert_eq!(color_to_console_code(Color::LightCyan), (1, 6));
    assert_eq!(color_to_console_code(Color::LightRed), (1, 1));
    assert_eq!(color_to_console_code(Color::Pink), (1, 5));
    assert_eq!(color_to_console_code(Color::Yellow), (1, 3));
    assert_eq!(color_to_console_code(Color::White), (1, 0));
}

#[test]
fn console_codes_are_in_range() {
    for color in ALL_COLORS {
        let (intensity, base) = color_to_console_code(color);
        assert!(intensity <= 1);
        assert!(base <= 7);
    }
}

#[test]
fn console_codes_are_distinct_and_cover_every_pair() {
    let mut seen = [[false; 8]; 2];
    for color in ALL_COLORS {
        let (intensity, base) = color_to_console_code(color);
        assert!(!seen[intensity as usize][base as usize]);
        seen[intensity as usize][base as usize] = true;
    }
    for row in seen {
        for cell in row {
            assert!(cell);
        }
    }
}
