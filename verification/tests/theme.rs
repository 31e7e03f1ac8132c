use std::fmt;
use std::marker::PhantomData;

use serde::de::{DeserializeSeed, Deserializer, Error, IgnoredAny, MapAccess, SeqAccess, Visitor};
use serde::Deserialize;
use videocall::theme_color::{is_valid_color_value, MAX_COLOR_VALUE_LEN};
use videocall::theme_file::{
    apply_theme_file_tokens, bundled_default_json, clear_theme_overrides,
    custom_theme_display_name, is_too_large, load_validated_custom_theme_json, parse_theme_file,
    persist_custom_theme_json, persisted, skipped_values, validate_and_resolve,
    validate_theme_json, BorderTokens, BrandTokens, ColorTokens, FocusTokens, ModeValue,
    ResolvedVariant, StatusTokens, StorageOutcome, StyleOp, SurfaceTokens, TextTokens, ThemeFile,
    ThemeFileError, ThemeText, BACKDROP_VAR, CUSTOM_THEME_BACKDROP_GRADIENT,
    CUSTOM_THEME_STORAGE_KEY, MAX_DISPLAY_NAME_CHARS, MAX_THEME_JSON_BYTES,
};

/// A record whose fields are all optional and of one type.
struct Record<T> {
    name: &'static str,
    fields: &'static [&'static str],
    of: PhantomData<T>,
}

impl<'de, T: Deserialize<'de>> Visitor<'de> for Record<T> {
    type Value = Vec<Option<T>>;

    fn expecting(&self, f: &mut fmt::Formatter) -> fmt::Result {
        f.write_str("struct ")?;
        f.write_str(self.name)
    }

    fn visit_map<A: MapAccess<'de>>(self, mut map: A) -> Result<Self::Value, A::Error> {
        let mut slots: Vec<Option<Option<T>>> = self.fields.iter().map(|_| None).collect();
        while let Some(key) = map.next_key::<String>()? {
            match self.fields.iter().position(|f| *f == key) {
                Some(i) if slots[i].is_some() => {
                    return Err(A::Error::duplicate_field(self.fields[i]));
                }
                Some(i) => slots[i] = Some(map.next_value()?),
                None => {
                    map.next_value::<IgnoredAny>()?;
                }
            }
        }
        Ok(slots.into_iter().map(Option::flatten).collect())
    }

    fn visit_seq<A: SeqAccess<'de>>(self, mut seq: A) -> Result<Self::Value, A::Error> {
        let mut values = Vec::new();
        for i in 0..self.fields.len() {
            match seq.next_element()? {
                Some(v) => values.push(v),
                None => return Err(A::Error::invalid_length(i, &self)),
            }
        }
        Ok(values)
    }
}

/// The values of one token, as they are read.
struct Mode(ModeValue);

impl<'de> Deserialize<'de> for Mode {
    fn deserialize<D: Deserializer<'de>>(d: D) -> Result<Self, D::Error> {
        let fields = &["dark", "light"];
        let record = Record::<String> { name: "ModeValue", fields, of: PhantomData };
        let mut values = d.deserialize_struct("ModeValue", fields, record)?.into_iter();
        Ok(Mode(ModeValue {
            dark: values.next().flatten(),
            light: values.next().flatten(),
        }))
    }
}

type Tokens = std::vec::IntoIter<Option<Mode>>;

fn next(tokens: &mut Tokens) -> Option<ModeValue> {
    tokens.next().flatten().map(|m| m.0)
}

/// A group of tokens, or `null`.
#[derive(Clone, Copy)]
struct Group {
    name: &'static str,
    tokens: &'static [&'static str],
}

impl<'de> Visitor<'de> for Group {
    type Value = Option<Tokens>;

    fn expecting(&self, f: &mut fmt::Formatter) -> fmt::Result {
        f.write_str("option")
    }

    fn visit_none<E: Error>(self) -> Result<Self::Value, E> {
        Ok(None)
    }

    fn visit_unit<E: Error>(self) -> Result<Self::Value, E> {
        Ok(None)
    }

    fn visit_some<D: Deserializer<'de>>(self, d: D) -> Result<Self::Value, D::Error> {
        let record = Record::<Mode> { name: self.name, fields: self.tokens, of: PhantomData };
        Ok(Some(d.deserialize_struct(self.name, self.tokens, record)?.into_iter()))
    }
}

impl<'de> DeserializeSeed<'de> for Group {
    type Value = Option<Tokens>;

    fn deserialize<D: Deserializer<'de>>(self, d: D) -> Result<Self::Value, D::Error> {
        d.deserialize_option(self)
    }
}

const GROUP_NAMES: &[&str] = &["surface", "border", "text", "brand", "status", "focus"];

const GROUPS: &[Group] = &[
    Group { name: "SurfaceTokens", tokens: &["base", "raised", "elevated"] },
    Group { name: "BorderTokens", tokens: &["default", "emphasis"] },
    Group { name: "TextTokens", tokens: &["primary", "secondary", "error"] },
    Group { name: "BrandTokens", tokens: &["accent", "accent-hover"] },
    Group { name: "StatusTokens", tokens: &["success", "warning", "error"] },
    Group { name: "FocusTokens", tokens: &["ring"] },
];

struct Color(ColorTokens);

struct ColorVisitor;

impl<'de> Visitor<'de> for ColorVisitor {
    type Value = Vec<Option<Tokens>>;

    fn expecting(&self, f: &mut fmt::Formatter) -> fmt::Result {
        f.write_str("struct ColorTokens")
    }

    fn visit_map<A: MapAccess<'de>>(self, mut map: A) -> Result<Self::Value, A::Error> {
        let mut slots: Vec<Option<Option<Tokens>>> = GROUPS.iter().map(|_| None).collect();
        while let Some(key) = map.next_key::<String>()? {
            match GROUP_NAMES.iter().position(|g| *g == key) {
                Some(i) if slots[i].is_some() => {
                    return Err(A::Error::duplicate_field(GROUP_NAMES[i]));
                }
                Some(i) => slots[i] = Some(map.next_value_seed(GROUPS[i])?),
                None => {
                    map.next_value::<IgnoredAny>()?;
                }
            }
        }
        Ok(slots.into_iter().map(Option::flatten).collect())
    }

    fn visit_seq<A: SeqAccess<'de>>(self, mut seq: A) -> Result<Self::Value, A::Error> {
        let mut values = Vec::new();
        for (i, group) in GROUPS.iter().enumerate() {
            match seq.next_element_seed(*group)? {
                Some(v) => values.push(v),
                None => return Err(A::Error::invalid_length(i, &self)),
            }
        }
        Ok(values)
    }
}

impl<'de> Deserialize<'de> for Color {
    fn deserialize<D: Deserializer<'de>>(d: D) -> Result<Self, D::Error> {
        let mut groups = d.deserialize_struct("ColorTokens", GROUP_NAMES, ColorVisitor)?.into_iter();
        let mut group = || groups.next().flatten();
        Ok(Color(ColorTokens {
            surface: group().map(|mut t| SurfaceTokens {
                base: next(&mut t),
                raised: next(&mut t),
                elevated: next(&mut t),
            }),
            border: group().map(|mut t| BorderTokens {
                default: next(&mut t),
                emphasis: next(&mut t),
            }),
            text: group().map(|mut t| TextTokens {
                primary: next(&mut t),
                secondary: next(&mut t),
                error: next(&mut t),
            }),
            brand: group().map(|mut t| BrandTokens {
                accent: next(&mut t),
                accent_hover: next(&mut t),
            }),
            status: group().map(|mut t| StatusTokens {
                success: next(&mut t),
                warning: next(&mut t),
                error: next(&mut t),
            }),
            focus: group().map(|mut t| FocusTokens { ring: next(&mut t) }),
        }))
    }
}

struct Theme(ThemeFile);

struct ThemeVisitor;

impl<'de> Visitor<'de> for ThemeVisitor {
    type Value = ThemeFile;

    fn expecting(&self, f: &mut fmt::Formatter) -> fmt::Result {
        f.write_str("struct ThemeFile")
    }

    fn visit_map<A: MapAccess<'de>>(self, mut map: A) -> Result<ThemeFile, A::Error> {
        let mut version: Option<u32> = None;
        let mut name: Option<Option<String>> = None;
        let mut color: Option<Option<Color>> = None;
        while let Some(key) = map.next_key::<String>()? {
            match key.as_str() {
                "version" if version.is_some() => {
                    return Err(A::Error::duplicate_field("version"));
                }
                "name" if name.is_some() => return Err(A::Error::duplicate_field("name")),
                "color" if color.is_some() => return Err(A::Error::duplicate_field("color")),
                "version" => version = Some(map.next_value()?),
                "name" => name = Some(map.next_value()?),
                "color" => color = Some(map.next_value()?),
                _ => {
                    map.next_value::<IgnoredAny>()?;
                }
            }
        }
        match version {
            Some(version) => Ok(ThemeFile {
                version,
                name: name.flatten(),
                color: color.flatten().map(|c| c.0),
            }),
            None => Err(A::Error::missing_field("version")),
        }
    }
}

impl<'de> Deserialize<'de> for Theme {
    fn deserialize<D: Deserializer<'de>>(d: D) -> Result<Self, D::Error> {
        let fields = &["version", "name", "color"];
        Ok(Theme(d.deserialize_struct("ThemeFile", fields, ThemeVisitor)?))
    }
}

/// What `serde_json` reads in a text as a theme file.
fn read(json: &str) -> Result<ThemeFile, String> {
    match serde_json::from_str::<Theme>(json) {
        Ok(theme) => Ok(theme.0),
        Err(e) => Err(e.to_string()),
    }
}

/// A text, and what is read in it.
fn text(json: &str) -> ThemeText {
    ThemeText { json: json.to_string(), reading: read(json) }
}

#[test]
fn parse_bundled_default() {
    let file = parse_theme_file(read(bundled_default_json())).expect("bundled default must parse");
    assert_eq!(file.version, 1);

    let dark_pairs = validate_and_resolve(&file, ResolvedVariant::Dark);
    assert!(!dark_pairs.is_empty());
    assert_eq!(dark_pairs.len(), 14);

    let light_pairs = validate_and_resolve(&file, ResolvedVariant::Light);
    assert_eq!(light_pairs.len(), 14);
}

#[test]
fn rejects_invalid_version() {
    let json = r#"{"version": 99, "color": {}}"#;
    assert!(matches!(
        parse_theme_file(read(json)),
        Err(ThemeFileError::UnsupportedVersion(99))
    ));
}

#[test]
fn rejects_css_injection() {
    let json = r##"{
            "version": 1,
            "color": {
                "surface": {
                    "base": {"dark": "red; } html { display:none", "light": "#fff"}
                }
            }
        }"##;
    let file = parse_theme_file(read(json)).unwrap();
    let pairs = validate_and_resolve(&file, ResolvedVariant::Dark);
    assert!(pairs.is_empty());
}

#[test]
fn valid_color_formats() {
    assert!(is_valid_color_value("#fff"));
    assert!(is_valid_color_value("#ffffff"));
    assert!(is_valid_color_value("#ffffffaa"));
    assert!(is_valid_color_value("#abcdef"));
    assert!(is_valid_color_value("rgb(1, 2, 3)"));
    assert!(is_valid_color_value("rgba(1, 2, 3, 0.5)"));
    assert!(is_valid_color_value("hsl(120, 50%, 50%)"));
    assert!(is_valid_color_value("hsla(120, 50%, 50%, 0.8)"));
}

#[test]
fn invalid_color_formats() {
    assert!(!is_valid_color_value("red"));
    assert!(!is_valid_color_value("not-a-color"));
    assert!(!is_valid_color_value("#gg"));
    assert!(!is_valid_color_value("rgb(1,2,3};html{display:none"));
}

#[test]
fn rejects_functional_notation_smuggling() {
    assert!(!is_valid_color_value("rgba(0, url(https://evil/x), 0, 1)"));
    assert!(!is_valid_color_value("rgb(var(--x), 0, 0)"));
    assert!(!is_valid_color_value("rgba(0,0,0,1) /* x */"));
    assert!(!is_valid_color_value("rgb(expression(alert(1)), 0, 0)"));
    assert!(!is_valid_color_value("rgb(0,0,0) URL(https://evil/x)"));
    assert!(!is_valid_color_value("rgb(0,0,0) Url(https://evil/x)"));
    assert!(!is_valid_color_value("rgb(0,0,0) uRl(https://evil/x)"));
    assert!(!is_valid_color_value(
        "rgb(0,0,0) image-set('https://evil/x')"
    ));
    assert!(!is_valid_color_value(
        "rgb(0,0,0) IMAGE-SET('https://evil/x')"
    ));
    assert!(!is_valid_color_value("rgb(0,0,0) image('https://evil/x')"));
    assert!(!is_valid_color_value(
        "rgb(0,0,0) -webkit-image-set('https://evil/x')"
    ));
    assert!(!is_valid_color_value("rgb(0,0,0) attr(data-x)"));
}

#[test]
fn garbage_json_yields_error() {
    assert!(parse_theme_file(read("not json at all")).is_err());
    assert!(parse_theme_file(read("")).is_err());
    assert!(parse_theme_file(read("{}")).is_err());
}

#[test]
fn validate_theme_json_accepts_valid() {
    let json = bundled_default_json();
    let file = validate_theme_json(text(json)).expect("bundled default must validate");
    assert_eq!(file.version, 1);
}

#[test]
fn validate_theme_json_rejects_oversize() {
    let big = " ".repeat(MAX_THEME_JSON_BYTES + 1);
    assert!(matches!(
        validate_theme_json(text(&big)),
        Err(ThemeFileError::TooLarge)
    ));
}

#[test]
fn validate_theme_json_rejects_version_0() {
    let json = r#"{"version": 0, "color": {}}"#;
    assert!(matches!(
        validate_theme_json(text(json)),
        Err(ThemeFileError::UnsupportedVersion(0))
    ));
}

#[test]
fn validate_theme_json_rejects_version_2() {
    let json = r#"{"version": 2, "color": {}}"#;
    assert!(matches!(
        validate_theme_json(text(json)),
        Err(ThemeFileError::UnsupportedVersion(2))
    ));
}

#[test]
fn validate_theme_json_rejects_smuggled_values() {
    let json = r##"{"version": 1, "color": {"surface": {"base": {"dark": "url(https://evil)", "light": "#fff"}}}}"##;
    assert!(matches!(
        validate_theme_json(text(json)),
        Err(ThemeFileError::InvalidValue)
    ));

    let json = r##"{"version": 1, "color": {"surface": {"base": {"dark": "var(--x)", "light": "#fff"}}}}"##;
    assert!(matches!(
        validate_theme_json(text(json)),
        Err(ThemeFileError::InvalidValue)
    ));

    let json = r##"{"version": 1, "color": {"surface": {"base": {"dark": "rgb(expression(1), 0, 0)", "light": "#fff"}}}}"##;
    assert!(matches!(
        validate_theme_json(text(json)),
        Err(ThemeFileError::InvalidValue)
    ));

    let json = r##"{"version": 1, "color": {"surface": {"base": {"dark": "rgb(0,0,0); body{display:none}", "light": "#fff"}}}}"##;
    assert!(matches!(
        validate_theme_json(text(json)),
        Err(ThemeFileError::InvalidValue)
    ));
}

#[test]
fn is_valid_color_value_rejects_over_max_len() {
    let long = format!("#{}", "a".repeat(MAX_COLOR_VALUE_LEN));
    assert!(!is_valid_color_value(&long));
}

#[test]
fn is_valid_color_value_rejects_trailing_junk() {
    assert!(!is_valid_color_value("rgba(0,0,0,1) anything)"));
    assert!(!is_valid_color_value("rgb(0,0,0) extra"));
}

#[test]
fn backdrop_gradient_is_nonempty_and_references_tokens() {
    assert!(!CUSTOM_THEME_BACKDROP_GRADIENT.is_empty());
    assert!(CUSTOM_THEME_BACKDROP_GRADIENT.contains("var(--bg)"));
    assert!(CUSTOM_THEME_BACKDROP_GRADIENT.contains("var(--accent)"));
    assert!(CUSTOM_THEME_BACKDROP_GRADIENT.contains("var(--surface)"));
    assert!(CUSTOM_THEME_BACKDROP_GRADIENT.contains("var(--accent-hover)"));
}

#[test]
fn backdrop_gradient_contains_no_url() {
    let lower = CUSTOM_THEME_BACKDROP_GRADIENT.to_ascii_lowercase();
    assert!(
        !lower.contains("url("),
        "backdrop gradient must not contain url()"
    );
}

#[test]
fn hex_literals_have_three_six_or_eight_digits() {
    for n in 0..12 {
        let value = format!("#{}", "a".repeat(n));
        assert_eq!(is_valid_color_value(&value), [3, 6, 8].contains(&n), "{}", value);
    }
    assert!(!is_valid_color_value("#abcd"));
    assert!(!is_valid_color_value("#ffé"));
    assert!(!is_valid_color_value(""));
    assert!(!is_valid_color_value("#"));
}

#[test]
fn color_functions_in_either_case_with_space_around() {
    assert!(is_valid_color_value("  RGBA(0,0,0,.5)\t"));
    assert!(is_valid_color_value("\u{3000}#fff\u{a0}"));
    assert!(is_valid_color_value("HsL(120 50% 50% / 0.5)"));
    assert!(is_valid_color_value("rgb()"));
    assert!(!is_valid_color_value("rgb (1,2,3)"));
    assert!(!is_valid_color_value("rgb("));
    assert!(!is_valid_color_value("rgb)"));
    assert!(!is_valid_color_value("rgb(1\n2)"));
    assert!(!is_valid_color_value("hwb(1,2,3)"));
}

#[test]
fn length_counts_bytes_with_surrounding_space() {
    let padded = format!("{}#fff", " ".repeat(MAX_COLOR_VALUE_LEN - 4));
    assert!(is_valid_color_value(&padded));
    let too_long = format!("{}#fff", " ".repeat(MAX_COLOR_VALUE_LEN - 3));
    assert!(!is_valid_color_value(&too_long));
}

#[test]
fn variants() {
    assert_eq!(ResolvedVariant::from_resolved("light"), ResolvedVariant::Light);
    assert_eq!(ResolvedVariant::from_resolved("dark"), ResolvedVariant::Dark);
    assert_eq!(ResolvedVariant::from_resolved("Light"), ResolvedVariant::Dark);
    assert_eq!(ResolvedVariant::from_resolved(""), ResolvedVariant::Dark);
}

#[test]
fn tokens_resolve_to_their_properties_in_order() {
    let json = r##"{"version": 1, "color": {
        "focus": {"ring": {"dark": "#001", "light": "#101"}},
        "text": {"error": {"dark": "#002"}, "primary": {"dark": "#003"}, "secondary": {"dark": "#004"}},
        "brand": {"accent": {"dark": "#005"}, "accent-hover": {"dark": "#006"}},
        "status": {"success": {"dark": "#007"}, "warning": {"dark": "#008"}, "error": {"dark": "#009"}},
        "border": {"default": {"dark": "#00a"}, "emphasis": {"dark": "#00b"}},
        "surface": {"base": {"dark": "#00c"}, "raised": {"dark": "#00d"}, "elevated": {"dark": "#00e"}}
    }}"##;
    let file = parse_theme_file(read(json)).unwrap();
    let dark = validate_and_resolve(&file, ResolvedVariant::Dark);
    let expected = [
        ("--bg", "#00c"),
        ("--surface", "#00d"),
        ("--surface-elevated", "#00e"),
        ("--border", "#00a"),
        ("--border-emphasis", "#00b"),
        ("--text-primary", "#003"),
        ("--text-secondary", "#004"),
        ("--accent", "#005"),
        ("--accent-hover", "#006"),
        ("--success", "#007"),
        ("--warning", "#008"),
        ("--error", "#009"),
        ("--error-text", "#002"),
        ("--focus-ring", "#001"),
    ];
    assert_eq!(dark.len(), expected.len());
    for (got, want) in dark.iter().zip(expected.iter()) {
        assert_eq!((got.0, got.1.as_str()), *want);
    }
    let light = validate_and_resolve(&file, ResolvedVariant::Light);
    assert_eq!(light, vec![("--focus-ring", "#101".to_string())]);
}

#[test]
fn what_was_read_is_a_theme_or_not() {
    assert!(parse_theme_file(read(r#"{"version": 1}"#)).is_ok());
    assert!(matches!(
        parse_theme_file(read(r#"{"version": 7}"#)),
        Err(ThemeFileError::UnsupportedVersion(7))
    ));
    assert!(matches!(
        parse_theme_file(Err("broken".to_string())),
        Err(ThemeFileError::Json(m)) if m == "broken"
    ));
}

#[test]
fn the_message_of_the_reader_is_shown() {
    for (json, message) in [
        (r#"{"version": 1, "version": 1}"#, "duplicate field `version` at line 1 column 24"),
        (r#"{"name": "x"}"#, "missing field `version` at line 1 column 13"),
    ] {
        let e = validate_theme_json(text(json)).err().unwrap();
        assert_eq!(e.message(), format!("theme JSON parse error: {}", message));
    }
}

#[test]
fn what_the_schema_does_not_know_is_ignored() {
    let json = r#"{"version": 1, "extra": [1e999, "\ud800"], "color": {"unknown": 1e999}}"#;
    assert!(validate_theme_json(text(json)).is_ok());
}

#[test]
fn values_that_are_no_colors_are_skipped() {
    let json = r##"{"version": 1, "color": {
        "surface": {"base": {"dark": "red", "light": "#fff"}},
        "brand": {"accent": {"dark": "#123", "light": "url(x)"}}
    }}"##;
    let file = parse_theme_file(read(json)).unwrap();
    assert_eq!(
        skipped_values(&file, ResolvedVariant::Dark),
        vec![("--bg", "red".to_string())]
    );
    assert_eq!(
        skipped_values(&file, ResolvedVariant::Light),
        vec![("--accent", "url(x)".to_string())]
    );
    let applied = apply_theme_file_tokens("dark", None, read(json));
    assert_eq!(applied.skipped, vec![("--bg", "red".to_string())]);
    assert_eq!(applied.ops.len(), clear_theme_overrides().len() + 1);
}

#[test]
fn the_size_counts_bytes() {
    assert!(!is_too_large(&" ".repeat(MAX_THEME_JSON_BYTES)));
    assert!(is_too_large(&" ".repeat(MAX_THEME_JSON_BYTES + 1)));
    assert!(is_too_large(&"é".repeat(MAX_THEME_JSON_BYTES / 2 + 1)));
}

#[test]
fn error_messages() {
    assert_eq!(
        ThemeFileError::Json("x".to_string()).message(),
        "theme JSON parse error: x"
    );
    assert_eq!(
        ThemeFileError::UnsupportedVersion(12).message(),
        "unsupported theme version: 12"
    );
    assert_eq!(
        ThemeFileError::TooLarge.message(),
        "theme file exceeds maximum size (64 KB)"
    );
    assert_eq!(
        ThemeFileError::InvalidValue.message(),
        "theme contains an unsupported color value"
    );
    assert_eq!(ThemeFileError::StorageFull.message(), "storage is full");
    let e = parse_theme_file(read("nonsense")).err().unwrap();
    assert_eq!(
        e.message(),
        "theme JSON parse error: expected ident at line 1 column 2"
    );
}

#[test]
fn stored_themes_are_checked() {
    let good = r##"{"version": 1, "name": "Mine", "color": {"surface": {"base": {"dark": "#123"}}}}"##;
    let loaded = load_validated_custom_theme_json(Some(text(good)));
    let (json, file) = loaded.theme.unwrap();
    assert_eq!(json, good);
    assert_eq!(file.name.as_deref(), Some("Mine"));
    assert!(!loaded.forget);
    let loaded = load_validated_custom_theme_json(Some(text("broken")));
    assert!(loaded.theme.is_none());
    assert!(loaded.forget);
    let loaded = load_validated_custom_theme_json(None);
    assert!(loaded.theme.is_none());
    assert!(!loaded.forget);
    assert_eq!(CUSTOM_THEME_STORAGE_KEY, "vc_theme_custom");
}

#[test]
fn only_themes_in_order_are_persisted() {
    assert_eq!(persist_custom_theme_json(text(bundled_default_json())), Ok(()));
    assert_eq!(
        persist_custom_theme_json(text(r#"{"version": 3}"#)),
        Err(ThemeFileError::UnsupportedVersion(3))
    );
    assert_eq!(persisted(StorageOutcome::Stored), Ok(()));
    assert_eq!(
        persisted(StorageOutcome::Refused),
        Err(ThemeFileError::StorageFull)
    );
}

#[test]
fn display_names() {
    let name = |json: &str| custom_theme_display_name(Some(text(json)));
    assert_eq!(
        name(r#"{"version": 1, "name": "Ocean"}"#).as_deref(),
        Some("Ocean")
    );
    assert_eq!(name(r#"{"version": 1}"#).as_deref(), Some("Custom Theme"));
    assert_eq!(name("broken"), None);
    assert_eq!(custom_theme_display_name(None), None);
    let long = "é".repeat(MAX_DISPLAY_NAME_CHARS + 10);
    let shown = name(&format!(r#"{{"version": 1, "name": "{}"}}"#, long)).unwrap();
    assert_eq!(shown, "é".repeat(MAX_DISPLAY_NAME_CHARS));
}

#[test]
fn clearing_takes_away_every_managed_property() {
    let ops = clear_theme_overrides();
    assert_eq!(ops.len(), 15);
    assert_eq!(ops[0], StyleOp::Remove("--bg"));
    assert_eq!(ops[13], StyleOp::Remove("--focus-ring"));
    assert_eq!(ops[14], StyleOp::Remove(BACKDROP_VAR));
}

#[test]
fn the_default_theme_is_applied_without_a_backdrop() {
    let applied = apply_theme_file_tokens("dark", None, read(bundled_default_json()));
    assert!(!applied.forget);
    assert_eq!(applied.ops.len(), 15 + 14);
    assert!(applied.ops[15..]
        .iter()
        .all(|op| matches!(op, StyleOp::Assign(name, _) if *name != BACKDROP_VAR)));
}

#[test]
fn an_imported_theme_is_applied_with_the_backdrop() {
    let json = r##"{"version": 1, "color": {"brand": {"accent": {"dark": "#123", "light": "#456"}}}}"##;
    let applied = apply_theme_file_tokens("light", Some(text(json)), read(bundled_default_json()));
    assert!(!applied.forget);
    assert_eq!(applied.ops.len(), 15 + 2);
    assert_eq!(
        applied.ops[15],
        StyleOp::Assign("--accent", "#456".to_string())
    );
    assert_eq!(
        applied.ops[16],
        StyleOp::Assign(BACKDROP_VAR, CUSTOM_THEME_BACKDROP_GRADIENT.to_string())
    );
}

#[test]
fn a_damaged_theme_is_forgotten_and_the_default_applied() {
    let applied = apply_theme_file_tokens("dark", Some(text("{")), read(bundled_default_json()));
    assert!(applied.forget);
    assert_eq!(applied.ops.len(), 15 + 14);
}

#[test]
fn an_unreadable_default_leaves_the_style_sheet() {
    let applied = apply_theme_file_tokens("dark", None, Err("broken".to_string()));
    assert!(!applied.forget);
    assert_eq!(applied.ops, clear_theme_overrides());
    assert_eq!(applied.fault, Some(ThemeFileError::Json("broken".to_string())));
    assert!(applied.skipped.is_empty());
}
