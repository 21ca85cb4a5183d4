use workmux_core::{detect_backend, EnvMarkers, WorkmuxBackend};

#[test]
fn backend_names_round_trip() {
    for k in [WorkmuxBackend::Tmux, WorkmuxBackend::WezTerm, WorkmuxBackend::Kitty] {
        assert_eq!(WorkmuxBackend::from_name(&k.name()), Some(k));
    }
}

#[test]
fn backend_names_are_exact() {
    assert_eq!(WorkmuxBackend::Tmux.name(), "Tmux");
    assert_eq!(WorkmuxBackend::WezTerm.name(), "WezTerm");
    assert_eq!(WorkmuxBackend::Kitty.name(), "Kitty");
}

#[test]
fn unknown_backend_name_is_rejected() {
    assert_eq!(WorkmuxBackend::from_name("tmux"), None);
    assert_eq!(WorkmuxBackend::from_name(""), None);
    assert_eq!(WorkmuxBackend::from_name("Screen"), None);
}

#[test]
fn detection_follows_markers() {
    let none = EnvMarkers { tmux: false, wezterm: false, kitty: false };
    assert_eq!(detect_backend(none), WorkmuxBackend::Tmux);
    let w = EnvMarkers { tmux: false, wezterm: true, kitty: false };
    assert_eq!(detect_backend(w), WorkmuxBackend::WezTerm);
    let k = EnvMarkers { tmux: false, wezterm: false, kitty: true };
    assert_eq!(detect_backend(k), WorkmuxBackend::Kitty);
    let all = EnvMarkers { tmux: true, wezterm: true, kitty: true };
    assert_eq!(detect_backend(all), WorkmuxBackend::Tmux);
}
