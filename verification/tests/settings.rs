use flyline::settings::{ColourTheme, MatrixAnimation, MouseMode, Placeholder, ShellIntegrationLevel};

#[test]
fn setting_defaults() {
    assert_eq!(ColourTheme::default(), ColourTheme::Dark);
    assert_eq!(MatrixAnimation::default(), MatrixAnimation::Off);
    assert_eq!(MouseMode::default(), MouseMode::Smart);
    assert_eq!(ShellIntegrationLevel::default(), ShellIntegrationLevel::OnlyPromptPos);
    assert_eq!(Placeholder::default(), Placeholder::Prev);
}
