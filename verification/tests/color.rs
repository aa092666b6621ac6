use ecd::color::{encoding_rgb, hsl_to_rgb, paint_label, stable_index, use_truecolor, ColorEnv, ColorWhen};

fn terminal_env() -> ColorEnv {
    ColorEnv { stdout_is_terminal: true, no_color: false, colorterm: None, term: None }
}

#[test]
fn never_disables_color() {
    assert!(!ColorWhen::Never.enabled(&terminal_env()));
}

#[test]
fn always_enables_color() {
    let env = ColorEnv { stdout_is_terminal: false, no_color: true, colorterm: None, term: None };
    assert!(ColorWhen::Always.enabled(&env));
}

#[test]
fn auto_follows_terminal_and_no_color() {
    assert!(ColorWhen::Auto.enabled(&terminal_env()));
    let piped = ColorEnv { stdout_is_terminal: false, ..terminal_env() };
    assert!(!ColorWhen::Auto.enabled(&piped));
    let no_color = ColorEnv { no_color: true, ..terminal_env() };
    assert!(!ColorWhen::Auto.enabled(&no_color));
}

#[test]
fn default_is_never() {
    assert_eq!(ColorWhen::default(), ColorWhen::Never);
}

#[test]
fn plain_when_never() {
    assert_eq!(paint_label("[UTF-8]", "utf-8", ColorWhen::Never, &terminal_env()), "[UTF-8]");
}

#[test]
fn stable_encoding_color() {
    assert_eq!(encoding_rgb("utf-8"), encoding_rgb("utf-8"));
    assert_ne!(encoding_rgb("utf-8"), encoding_rgb("gbk"));
}

#[test]
fn encoding_color_ignores_ascii_case() {
    assert_eq!(encoding_rgb("UTF-8"), encoding_rgb("utf-8"));
}

#[test]
fn stable_index_folds_bytes() {
    assert_eq!(stable_index(""), 0);
    assert_eq!(stable_index("a"), 97);
    assert_eq!(stable_index("ab"), 97 * 31 + 98);
}

fn reference_hsl(h: f32, s: f32, l: f32) -> (u8, u8, u8) {
    let c = (1.0 - (2.0 * l - 1.0).abs()) * s;
    let x = c * (1.0 - ((h / 60.0) % 2.0 - 1.0).abs());
    let m = l - c / 2.0;
    let (rp, gp, bp) = match h as u32 {
        0..=59 => (c, x, 0.0),
        60..=119 => (x, c, 0.0),
        120..=179 => (0.0, c, x),
        180..=239 => (0.0, x, c),
        240..=299 => (x, 0.0, c),
        _ => (c, 0.0, x),
    };
    (
        ((rp + m) * 255.0).round() as u8,
        ((gp + m) * 255.0).round() as u8,
        ((bp + m) * 255.0).round() as u8,
    )
}

#[test]
fn integer_hues_match_float_reference() {
    for h in 0u32..360 {
        assert_eq!(hsl_to_rgb(h), reference_hsl(h as f32, 0.72, 0.58), "hue {h}");
    }
}

#[test]
fn hue_samples() {
    assert_eq!(hsl_to_rgb(0), (225, 71, 71));
    assert_eq!(hsl_to_rgb(120), (71, 225, 71));
    assert_eq!(hsl_to_rgb(240), (71, 71, 225));
}

#[test]
fn truecolor_label() {
    let env = ColorEnv { colorterm: Some("TrueColor".to_string()), ..terminal_env() };
    assert!(use_truecolor(&env));
    assert_eq!(
        paint_label("[SKIP]", "skip", ColorWhen::Always, &env),
        "\x1b[38;2;120;120;120m[SKIP]\x1b[0m"
    );
    let (r, g, b) = encoding_rgb("gbk");
    assert_eq!(
        paint_label("[GBK]", "gbk", ColorWhen::Always, &env),
        format!("\x1b[38;2;{r};{g};{b}m[GBK]\x1b[0m")
    );
}

#[test]
fn palette_label() {
    let env = terminal_env();
    assert!(!use_truecolor(&env));
    let palette = [91u8, 92, 93, 94, 95, 96, 31, 32, 33, 34, 35, 36];
    let code = palette[stable_index("utf-8") % 12];
    assert_eq!(
        paint_label("[UTF-8]", "utf-8", ColorWhen::Always, &env),
        format!("\x1b[{code}m[UTF-8]\x1b[0m")
    );
}

#[test]
fn truecolor_from_term() {
    let env = ColorEnv { term: Some("xterm-256color".to_string()), ..terminal_env() };
    assert!(use_truecolor(&env));
    let off = ColorEnv { no_color: true, ..env.clone() };
    assert!(!use_truecolor(&off));
    let dumb = ColorEnv { term: Some("dumb".to_string()), ..terminal_env() };
    assert!(!use_truecolor(&dumb));
}
