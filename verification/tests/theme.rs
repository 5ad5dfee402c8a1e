use sn::style::{Color, Style, BOLD, DIM};
use sn::theme::{colorfgbg_is_light, detect, Theme};

#[test]
fn light_colorfgbg_is_detected() {
    assert_eq!(detect(false, Some("0;15".to_string())), Theme::Light);
}

#[test]
fn dark_colorfgbg_is_detected() {
    assert_eq!(detect(false, Some("15;0".to_string())), Theme::Dark);
}

#[test]
fn override_wins_and_unknown_is_dark() {
    assert_eq!(detect(true, Some("15;0".to_string())), Theme::Light);
    assert_eq!(detect(true, None), Theme::Light);
    assert_eq!(detect(false, None), Theme::Dark);
}

#[test]
fn colorfgbg_reads_the_last_field() {
    assert!(colorfgbg_is_light(Some("7".to_string())));
    assert!(colorfgbg_is_light(Some("1;2;250".to_string())));
    assert!(colorfgbg_is_light(Some("+255".to_string())));
    assert!(!colorfgbg_is_light(Some("0;256".to_string())));
    assert!(!colorfgbg_is_light(Some("15;".to_string())));
    assert!(!colorfgbg_is_light(Some("15; 7".to_string())));
    assert!(!colorfgbg_is_light(Some("0;8".to_string())));
    assert!(!colorfgbg_is_light(None));
}

#[test]
fn styles_follow_the_theme() {
    assert_eq!(Theme::Light.text_primary(), Style::new().fg(Color::Black));
    assert_eq!(Theme::Dark.text_primary(), Style::new());
    assert_eq!(Theme::Light.popup_text(), Style::new().fg(Color::Black).bg(Color::White));
    assert_eq!(Theme::Dark.popup_surface(), Style::new());
    assert_eq!(Theme::Dark.text_secondary(), Style::new().fg(Color::DarkGray));
    assert_eq!(Theme::Light.text_dim(), Style::new().add_modifier(DIM));
    assert_eq!(
        Theme::Light.selection(),
        Style::new().bg(Color::Blue).fg(Color::White).add_modifier(BOLD)
    );
    assert_eq!(
        Theme::Dark.selection(),
        Style::new().bg(Color::Blue).fg(Color::Black).add_modifier(BOLD)
    );
    assert_eq!(Theme::Dark.heading_emphasis(), Style::new().add_modifier(BOLD));
}
