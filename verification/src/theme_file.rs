//! Theme files: their schema, how they are read and checked, and what they
//! change in the style of a page.
//!
//! A theme file is a JSON document that gives colours, one for dark and one for
//! light, to a fixed list of CSS custom properties. The caller reads a text into a
//! [`ThemeFile`] with `serde_json` and hands in what came of it; which files are
//! accepted, and what they do, is decided here.

use vstd::prelude::*;
use vstd::utf8::encode_utf8;
use crate::json;
use crate::text;
use crate::theme_color;

verus! {

// ---------------------------------------------------------------------------
// Schema
// ---------------------------------------------------------------------------

/// A theme file.
#[derive(Debug)]
pub struct ThemeFile {
    pub version: u32,
    pub name: Option<String>,
    pub color: Option<ColorTokens>,
}

#[derive(Debug)]
pub struct ColorTokens {
    pub surface: Option<SurfaceTokens>,
    pub border: Option<BorderTokens>,
    pub text: Option<TextTokens>,
    pub brand: Option<BrandTokens>,
    pub status: Option<StatusTokens>,
    pub focus: Option<FocusTokens>,
}

#[derive(Debug)]
pub struct SurfaceTokens {
    pub base: Option<ModeValue>,
    pub raised: Option<ModeValue>,
    pub elevated: Option<ModeValue>,
}

#[derive(Debug)]
pub struct BorderTokens {
    pub default: Option<ModeValue>,
    pub emphasis: Option<ModeValue>,
}

#[derive(Debug)]
pub struct TextTokens {
    pub primary: Option<ModeValue>,
    pub secondary: Option<ModeValue>,
    pub error: Option<ModeValue>,
}

#[derive(Debug)]
pub struct BrandTokens {
    pub accent: Option<ModeValue>,
    pub accent_hover: Option<ModeValue>,
}

#[derive(Debug)]
pub struct StatusTokens {
    pub success: Option<ModeValue>,
    pub warning: Option<ModeValue>,
    pub error: Option<ModeValue>,
}

#[derive(Debug)]
pub struct FocusTokens {
    pub ring: Option<ModeValue>,
}

/// The values of one token.
#[derive(Debug)]
pub struct ModeValue {
    pub dark: Option<String>,
    pub light: Option<String>,
}

/// Which of a token's two values is wanted.
#[derive(Clone, Copy, PartialEq, Eq, Debug, Structural)]
pub enum ResolvedVariant {
    Dark,
    Light,
}

pub open spec fn variant_of(s: Seq<char>) -> ResolvedVariant {
    if s == "light"@ {
        ResolvedVariant::Light
    } else {
        ResolvedVariant::Dark
    }
}

impl ResolvedVariant {
    /// The variant of a resolved theme name: anything but `light` is dark.
    pub fn from_resolved(s: &str) -> (res: ResolvedVariant)
        ensures
            res == variant_of(s@),
    {
        if s.eq("light") {
            ResolvedVariant::Light
        } else {
            ResolvedVariant::Dark
        }
    }
}

// ---------------------------------------------------------------------------
// The list of properties
// ---------------------------------------------------------------------------

/// How many CSS properties a theme file can set.
pub const TOKEN_COUNT: usize = 14;

/// The name of each CSS property that a theme file can set.
pub open spec fn css_var(i: int) -> Seq<char> {
    if i == 0 {
        "--bg"@
    } else if i == 1 {
        "--surface"@
    } else if i == 2 {
        "--surface-elevated"@
    } else if i == 3 {
        "--border"@
    } else if i == 4 {
        "--border-emphasis"@
    } else if i == 5 {
        "--text-primary"@
    } else if i == 6 {
        "--text-secondary"@
    } else if i == 7 {
        "--accent"@
    } else if i == 8 {
        "--accent-hover"@
    } else if i == 9 {
        "--success"@
    } else if i == 10 {
        "--warning"@
    } else if i == 11 {
        "--error"@
    } else if i == 12 {
        "--error-text"@
    } else {
        "--focus-ring"@
    }
}

fn css_var_name(i: usize) -> (res: &'static str)
    requires
        i < TOKEN_COUNT,
    ensures
        res@ == css_var(i as int),
{
    match i {
        0 => "--bg",
        1 => "--surface",
        2 => "--surface-elevated",
        3 => "--border",
        4 => "--border-emphasis",
        5 => "--text-primary",
        6 => "--text-secondary",
        7 => "--accent",
        8 => "--accent-hover",
        9 => "--success",
        10 => "--warning",
        11 => "--error",
        12 => "--error-text",
        _ => "--focus-ring",
    }
}

pub open spec fn surface_of(f: ThemeFile) -> Option<SurfaceTokens> {
    match f.color {
        Some(c) => c.surface,
        None => None,
    }
}

pub open spec fn border_of(f: ThemeFile) -> Option<BorderTokens> {
    match f.color {
        Some(c) => c.border,
        None => None,
    }
}

pub open spec fn text_of(f: ThemeFile) -> Option<TextTokens> {
    match f.color {
        Some(c) => c.text,
        None => None,
    }
}

pub open spec fn brand_of(f: ThemeFile) -> Option<BrandTokens> {
    match f.color {
        Some(c) => c.brand,
        None => None,
    }
}

pub open spec fn status_of(f: ThemeFile) -> Option<StatusTokens> {
    match f.color {
        Some(c) => c.status,
        None => None,
    }
}

pub open spec fn focus_of(f: ThemeFile) -> Option<FocusTokens> {
    match f.color {
        Some(c) => c.focus,
        None => None,
    }
}

/// The values that a file gives to the property with a number.
pub open spec fn token(f: ThemeFile, i: int) -> Option<ModeValue> {
    if i == 0 {
        match surface_of(f) {
            Some(s) => s.base,
            None => None,
        }
    } else if i == 1 {
        match surface_of(f) {
            Some(s) => s.raised,
            None => None,
        }
    } else if i == 2 {
        match surface_of(f) {
            Some(s) => s.elevated,
            None => None,
        }
    } else if i == 3 {
        match border_of(f) {
            Some(s) => s.default,
            None => None,
        }
    } else if i == 4 {
        match border_of(f) {
            Some(s) => s.emphasis,
            None => None,
        }
    } else if i == 5 {
        match text_of(f) {
            Some(s) => s.primary,
            None => None,
        }
    } else if i == 6 {
        match text_of(f) {
            Some(s) => s.secondary,
            None => None,
        }
    } else if i == 7 {
        match brand_of(f) {
            Some(s) => s.accent,
            None => None,
        }
    } else if i == 8 {
        match brand_of(f) {
            Some(s) => s.accent_hover,
            None => None,
        }
    } else if i == 9 {
        match status_of(f) {
            Some(s) => s.success,
            None => None,
        }
    } else if i == 10 {
        match status_of(f) {
            Some(s) => s.warning,
            None => None,
        }
    } else if i == 11 {
        match status_of(f) {
            Some(s) => s.error,
            None => None,
        }
    } else if i == 12 {
        match text_of(f) {
            Some(s) => s.error,
            None => None,
        }
    } else {
        match focus_of(f) {
            Some(s) => s.ring,
            None => None,
        }
    }
}

/// The value of a token in a variant.
pub open spec fn picked(m: Option<ModeValue>, v: ResolvedVariant) -> Option<Seq<char>> {
    match m {
        Some(m) => match v {
            ResolvedVariant::Dark => json::opt_string(m.dark),
            ResolvedVariant::Light => json::opt_string(m.light),
        },
        None => None,
    }
}

/// The value that a file gives to the property with a number.
pub open spec fn token_value(f: ThemeFile, i: int, v: ResolvedVariant) -> Option<Seq<char>> {
    picked(token(f, i), v)
}

/// What an optional borrowed string says.
pub open spec fn opt_ref(o: Option<&String>) -> Option<Seq<char>> {
    match o {
        Some(s) => Some(s@),
        None => None,
    }
}

/// The value of a token in a variant.
pub fn mode_pick(mv: &ModeValue, v: ResolvedVariant) -> (res: Option<&String>)
    ensures
        opt_ref(res) == picked(Some(*mv), v),
{
    match v {
        ResolvedVariant::Dark => mv.dark.as_ref(),
        ResolvedVariant::Light => mv.light.as_ref(),
    }
}

pub fn extract_surface_base(f: &ThemeFile, v: ResolvedVariant) -> (res: Option<&String>)
    ensures
        opt_ref(res) == token_value(*f, 0, v),
{
    mode_pick(f.color.as_ref()?.surface.as_ref()?.base.as_ref()?, v)
}

pub fn extract_surface_raised(f: &ThemeFile, v: ResolvedVariant) -> (res: Option<&String>)
    ensures
        opt_ref(res) == token_value(*f, 1, v),
{
    mode_pick(f.color.as_ref()?.surface.as_ref()?.raised.as_ref()?, v)
}

pub fn extract_surface_elevated(f: &ThemeFile, v: ResolvedVariant) -> (res: Option<&String>)
    ensures
        opt_ref(res) == token_value(*f, 2, v),
{
    mode_pick(f.color.as_ref()?.surface.as_ref()?.elevated.as_ref()?, v)
}

pub fn extract_border_default(f: &ThemeFile, v: ResolvedVariant) -> (res: Option<&String>)
    ensures
        opt_ref(res) == token_value(*f, 3, v),
{
    mode_pick(f.color.as_ref()?.border.as_ref()?.default.as_ref()?, v)
}

pub fn extract_border_emphasis(f: &ThemeFile, v: ResolvedVariant) -> (res: Option<&String>)
    ensures
        opt_ref(res) == token_value(*f, 4, v),
{
    mode_pick(f.color.as_ref()?.border.as_ref()?.emphasis.as_ref()?, v)
}

pub fn extract_text_primary(f: &ThemeFile, v: ResolvedVariant) -> (res: Option<&String>)
    ensures
        opt_ref(res) == token_value(*f, 5, v),
{
    mode_pick(f.color.as_ref()?.text.as_ref()?.primary.as_ref()?, v)
}

pub fn extract_text_secondary(f: &ThemeFile, v: ResolvedVariant) -> (res: Option<&String>)
    ensures
        opt_ref(res) == token_value(*f, 6, v),
{
    mode_pick(f.color.as_ref()?.text.as_ref()?.secondary.as_ref()?, v)
}

pub fn extract_brand_accent(f: &ThemeFile, v: ResolvedVariant) -> (res: Option<&String>)
    ensures
        opt_ref(res) == token_value(*f, 7, v),
{
    mode_pick(f.color.as_ref()?.brand.as_ref()?.accent.as_ref()?, v)
}

pub fn extract_brand_accent_hover(f: &ThemeFile, v: ResolvedVariant) -> (res: Option<&String>)
    ensures
        opt_ref(res) == token_value(*f, 8, v),
{
    mode_pick(f.color.as_ref()?.brand.as_ref()?.accent_hover.as_ref()?, v)
}

pub fn extract_status_success(f: &ThemeFile, v: ResolvedVariant) -> (res: Option<&String>)
    ensures
        opt_ref(res) == token_value(*f, 9, v),
{
    mode_pick(f.color.as_ref()?.status.as_ref()?.success.as_ref()?, v)
}

pub fn extract_status_warning(f: &ThemeFile, v: ResolvedVariant) -> (res: Option<&String>)
    ensures
        opt_ref(res) == token_value(*f, 10, v),
{
    mode_pick(f.color.as_ref()?.status.as_ref()?.warning.as_ref()?, v)
}

pub fn extract_status_error(f: &ThemeFile, v: ResolvedVariant) -> (res: Option<&String>)
    ensures
        opt_ref(res) == token_value(*f, 11, v),
{
    mode_pick(f.color.as_ref()?.status.as_ref()?.error.as_ref()?, v)
}

pub fn extract_text_error(f: &ThemeFile, v: ResolvedVariant) -> (res: Option<&String>)
    ensures
        opt_ref(res) == token_value(*f, 12, v),
{
    mode_pick(f.color.as_ref()?.text.as_ref()?.error.as_ref()?, v)
}

pub fn extract_focus_ring(f: &ThemeFile, v: ResolvedVariant) -> (res: Option<&String>)
    ensures
        opt_ref(res) == token_value(*f, 13, v),
{
    mode_pick(f.color.as_ref()?.focus.as_ref()?.ring.as_ref()?, v)
}

/// The value that a file gives to the property with number `i`.
fn extract(i: usize, f: &ThemeFile, v: ResolvedVariant) -> (res: Option<&String>)
    requires
        i < TOKEN_COUNT,
    ensures
        opt_ref(res) == token_value(*f, i as int, v),
{
    match i {
        0 => extract_surface_base(f, v),
        1 => extract_surface_raised(f, v),
        2 => extract_surface_elevated(f, v),
        3 => extract_border_default(f, v),
        4 => extract_border_emphasis(f, v),
        5 => extract_text_primary(f, v),
        6 => extract_text_secondary(f, v),
        7 => extract_brand_accent(f, v),
        8 => extract_brand_accent_hover(f, v),
        9 => extract_status_success(f, v),
        10 => extract_status_warning(f, v),
        11 => extract_status_error(f, v),
        12 => extract_text_error(f, v),
        _ => extract_focus_ring(f, v),
    }
}

// ---------------------------------------------------------------------------
// Resolving
// ---------------------------------------------------------------------------

/// A CSS property and its value.
pub type Declaration = (Seq<char>, Seq<char>);

/// The declarations for the first `n` properties: those with a value that is a
/// valid colour, in the order of the list.
pub open spec fn declared(value: spec_fn(int) -> Option<Seq<char>>, n: int) -> Seq<Declaration>
    decreases n,
{
    if n <= 0 {
        Seq::empty()
    } else {
        let before = declared(value, n - 1);
        match value(n - 1) {
            Some(c) => if theme_color::valid_color(c) {
                before.push((css_var(n - 1), c))
            } else {
                before
            },
            None => before,
        }
    }
}

/// The declarations of a file in a variant.
pub open spec fn resolved(f: ThemeFile, v: ResolvedVariant) -> Seq<Declaration> {
    declared(|i: int| token_value(f, i, v), TOKEN_COUNT as int)
}

/// What a list of declarations says.
pub open spec fn declarations(s: Seq<(&'static str, String)>) -> Seq<Declaration> {
    Seq::new(s.len(), |i: int| (s[i].0@, s[i].1@))
}

/// The declarations of a file in a variant. A value that is no valid colour is
/// left out.
pub fn validate_and_resolve(file: &ThemeFile, variant: ResolvedVariant) -> (res: Vec<
    (&'static str, String),
>)
    ensures
        declarations(res@) == resolved(*file, variant),
{
    let mut pairs: Vec<(&'static str, String)> = Vec::new();
    let mut i: usize = 0;
    assert(declarations(pairs@) =~= Seq::empty());
    while i < TOKEN_COUNT
        invariant
            i <= TOKEN_COUNT,
            declarations(pairs@) == declared(|k: int| token_value(*file, k, variant), i as int),
        decreases TOKEN_COUNT - i,
    {
        if let Some(value) = extract(i, file, variant) {
            if theme_color::is_valid_color_value(value.as_str()) {
                let ghost before = pairs@;
                pairs.push((css_var_name(i), value.clone()));
                proof {
                    assert(declarations(pairs@) =~= declarations(before).push(
                        (css_var(i as int), value@),
                    ));
                }
            }
        }
        i = i + 1;
    }
    pairs
}

/// The values for the first `n` properties that are no valid colours, in the order
/// of the list.
pub open spec fn left_out(value: spec_fn(int) -> Option<Seq<char>>, n: int) -> Seq<Declaration>
    decreases n,
{
    if n <= 0 {
        Seq::empty()
    } else {
        let before = left_out(value, n - 1);
        match value(n - 1) {
            Some(c) => if theme_color::valid_color(c) {
                before
            } else {
                before.push((css_var(n - 1), c))
            },
            None => before,
        }
    }
}

/// The values of a file in a variant that are no valid colours.
pub open spec fn skipped(f: ThemeFile, v: ResolvedVariant) -> Seq<Declaration> {
    left_out(|i: int| token_value(f, i, v), TOKEN_COUNT as int)
}

/// The values of a file in a variant that are no valid colours.
pub fn skipped_values(file: &ThemeFile, variant: ResolvedVariant) -> (res: Vec<
    (&'static str, String),
>)
    ensures
        declarations(res@) == skipped(*file, variant),
{
    let mut pairs: Vec<(&'static str, String)> = Vec::new();
    let mut i: usize = 0;
    assert(declarations(pairs@) =~= Seq::empty());
    while i < TOKEN_COUNT
        invariant
            i <= TOKEN_COUNT,
            declarations(pairs@) == left_out(|k: int| token_value(*file, k, variant), i as int),
        decreases TOKEN_COUNT - i,
    {
        if let Some(value) = extract(i, file, variant) {
            if !theme_color::is_valid_color_value(value.as_str()) {
                let ghost before = pairs@;
                pairs.push((css_var_name(i), value.clone()));
                proof {
                    assert(declarations(pairs@) =~= declarations(before).push(
                        (css_var(i as int), value@),
                    ));
                }
            }
        }
        i = i + 1;
    }
    pairs
}

/// Whether every value that a file gives is a valid colour, in both variants.
pub open spec fn all_values_valid(f: ThemeFile) -> bool {
    forall|i: int, v: ResolvedVariant|
        0 <= i < TOKEN_COUNT ==> ((#[trigger] token_value(f, i, v)) matches Some(c)
            ==> theme_color::valid_color(c))
}

/// Whether every value that a file gives is a valid colour, in both variants.
pub fn values_are_valid(file: &ThemeFile) -> (res: bool)
    ensures
        res == all_values_valid(*file),
{
    let mut i: usize = 0;
    while i < TOKEN_COUNT
        invariant
            i <= TOKEN_COUNT,
            forall|k: int, v: ResolvedVariant|
                0 <= k < i ==> ((#[trigger] token_value(*file, k, v)) matches Some(c)
                    ==> theme_color::valid_color(c)),
        decreases TOKEN_COUNT - i,
    {
        if let Some(value) = extract(i, file, ResolvedVariant::Dark) {
            if !theme_color::is_valid_color_value(value.as_str()) {
                assert(token_value(*file, i as int, ResolvedVariant::Dark) == Some(value@));
                return false;
            }
        }
        if let Some(value) = extract(i, file, ResolvedVariant::Light) {
            if !theme_color::is_valid_color_value(value.as_str()) {
                assert(token_value(*file, i as int, ResolvedVariant::Light) == Some(value@));
                return false;
            }
        }
        assert forall|v: ResolvedVariant|
            (#[trigger] token_value(*file, i as int, v)) matches Some(
            c,
        ) ==> theme_color::valid_color(c) by {
            match v {
                ResolvedVariant::Dark => {},
                ResolvedVariant::Light => {},
            }
        }
        i = i + 1;
    }
    true
}

// ---------------------------------------------------------------------------
// Reading
// ---------------------------------------------------------------------------

/// Why a theme was not accepted.
#[derive(Debug, PartialEq, Eq)]
pub enum ThemeFileError {
    /// The text is no JSON, or no theme file; what `serde_json` says of it.
    Json(String),
    UnsupportedVersion(u32),
    TooLarge,
    InvalidValue,
    StorageFull,
}

pub enum ThemeFault {
    Json(Seq<char>),
    UnsupportedVersion(u32),
    TooLarge,
    InvalidValue,
    StorageFull,
}

impl View for ThemeFileError {
    type V = ThemeFault;

    open spec fn view(&self) -> ThemeFault {
        match self {
            ThemeFileError::Json(m) => ThemeFault::Json(m@),
            ThemeFileError::UnsupportedVersion(v) => ThemeFault::UnsupportedVersion(*v),
            ThemeFileError::TooLarge => ThemeFault::TooLarge,
            ThemeFileError::InvalidValue => ThemeFault::InvalidValue,
            ThemeFileError::StorageFull => ThemeFault::StorageFull,
        }
    }
}

/// What the user is told of a fault.
pub open spec fn fault_message(e: ThemeFault) -> Seq<char> {
    match e {
        ThemeFault::Json(m) => "theme JSON parse error: "@ + m,
        ThemeFault::UnsupportedVersion(v) => "unsupported theme version: "@ + text::decimal(
            v as nat,
        ),
        ThemeFault::TooLarge => "theme file exceeds maximum size (64 KB)"@,
        ThemeFault::InvalidValue => "theme contains an unsupported color value"@,
        ThemeFault::StorageFull => "storage is full"@,
    }
}

impl ThemeFileError {
    /// What the user is told.
    pub fn message(&self) -> (res: String)
        ensures
            res@ == fault_message(self@),
    {
        match self {
            ThemeFileError::Json(m) => text::join("theme JSON parse error: ", m.as_str()),
            ThemeFileError::UnsupportedVersion(v) => {
                let mut s = "unsupported theme version: ".to_owned();
                text::push_decimal(&mut s, *v as u64);
                s
            },
            ThemeFileError::TooLarge => "theme file exceeds maximum size (64 KB)".to_owned(),
            ThemeFileError::InvalidValue => "theme contains an unsupported color value".to_owned(),
            ThemeFileError::StorageFull => "storage is full".to_owned(),
        }
    }
}

/// What is wrong with what the reading of a text gave, if anything. Only version 1
/// is supported.
pub open spec fn reading_fault(reading: Result<ThemeFile, String>) -> Option<ThemeFault> {
    match reading {
        Err(m) => Some(ThemeFault::Json(m@)),
        Ok(f) => if f.version == 1 {
            None
        } else {
            Some(ThemeFault::UnsupportedVersion(f.version))
        },
    }
}

/// The theme file in what the reading of a text gave: the file, or the message of
/// the error. Only version 1 is supported.
pub fn parse_theme_file(reading: Result<ThemeFile, String>) -> (res: Result<
    ThemeFile,
    ThemeFileError,
>)
    ensures
        match res {
            Ok(f) => reading_fault(reading) is None && reading == Ok::<ThemeFile, String>(f),
            Err(e) => reading_fault(reading) == Some(e@),
        },
{
    match reading {
        Err(m) => Err(ThemeFileError::Json(m)),
        Ok(file) => if file.version != 1 {
            Err(ThemeFileError::UnsupportedVersion(file.version))
        } else {
            Ok(file)
        },
    }
}

// ---------------------------------------------------------------------------
// Checking an imported file
// ---------------------------------------------------------------------------

/// The most bytes that an imported theme file may have.
pub const MAX_THEME_JSON_BYTES: usize = 64 * 1024;

/// A text, and what its reading as a theme file gave: the file, or the message of
/// the error. A text that is too large need not be read.
#[derive(Debug)]
pub struct ThemeText {
    pub json: String,
    pub reading: Result<ThemeFile, String>,
}

/// Whether a text is too large for an imported theme.
pub open spec fn too_large(json: Seq<char>) -> bool {
    encode_utf8(json).len() > MAX_THEME_JSON_BYTES
}

/// Whether a text is too large for an imported theme.
pub fn is_too_large(json: &str) -> (res: bool)
    ensures
        res == too_large(json@),
{
    json.as_bytes().len() > MAX_THEME_JSON_BYTES
}

/// What is wrong with a text as an imported theme, if anything: it is too large,
/// it is no theme file, or not every value is a valid colour.
pub open spec fn import_fault(t: ThemeText) -> Option<ThemeFault> {
    if too_large(t.json@) {
        Some(ThemeFault::TooLarge)
    } else {
        match t.reading {
            Err(_) => reading_fault(t.reading),
            Ok(f) => if reading_fault(t.reading) is Some {
                reading_fault(t.reading)
            } else if all_values_valid(f) {
                None
            } else {
                Some(ThemeFault::InvalidValue)
            },
        }
    }
}

/// The theme file in an imported text: within its size, of a supported version,
/// and with a valid colour in every place.
pub fn validate_theme_json(theme: ThemeText) -> (res: Result<ThemeFile, ThemeFileError>)
    ensures
        match res {
            Ok(f) => import_fault(theme) is None && theme.reading == Ok::<ThemeFile, String>(f),
            Err(e) => import_fault(theme) == Some(e@),
        },
{
    if is_too_large(theme.json.as_str()) {
        return Err(ThemeFileError::TooLarge);
    }
    match parse_theme_file(theme.reading) {
        Err(e) => Err(e),
        Ok(file) => if values_are_valid(&file) {
            Ok(file)
        } else {
            Err(ThemeFileError::InvalidValue)
        },
    }
}

// ---------------------------------------------------------------------------
// The active theme
// ---------------------------------------------------------------------------

/// Where the imported theme is kept in the browser's storage.
pub const CUSTOM_THEME_STORAGE_KEY: &'static str = "vc_theme_custom";

/// The theme that is active when none is imported.
pub const DEFAULT_THEME_JSON: &'static str = r##"{
  "version": 1,
  "name": "Default",
  "color": {
    "surface": {
      "base": { "dark": "#0d0f14", "light": "#f6f7f9" },
      "raised": { "dark": "#161a22", "light": "#ffffff" },
      "elevated": { "dark": "#1f2530", "light": "#ffffff" }
    },
    "border": {
      "default": { "dark": "rgba(255, 255, 255, 0.10)", "light": "rgba(15, 20, 30, 0.12)" },
      "emphasis": { "dark": "rgba(255, 255, 255, 0.22)", "light": "rgba(15, 20, 30, 0.26)" }
    },
    "text": {
      "primary": { "dark": "#f2f4f8", "light": "#10141c" },
      "secondary": { "dark": "#a7afbd", "light": "#4d5666" },
      "error": { "dark": "#ff9d94", "light": "#a3221b" }
    },
    "brand": {
      "accent": { "dark": "#6b8cff", "light": "#3558d6" },
      "accent-hover": { "dark": "#86a2ff", "light": "#2746b3" }
    },
    "status": {
      "success": { "dark": "#35c27d", "light": "#147a48" },
      "warning": { "dark": "#f0b13c", "light": "#8f5c00" },
      "error": { "dark": "#f2645a", "light": "#c92a20" }
    },
    "focus": {
      "ring": { "dark": "#9db4ff", "light": "#3558d6" }
    }
  }
}"##;

/// The theme that is active when none is imported.
pub fn bundled_default_json() -> (res: &'static str)
    ensures
        res@ == DEFAULT_THEME_JSON@,
{
    DEFAULT_THEME_JSON
}

/// What was found in storage, checked.
#[derive(Debug)]
pub struct StoredTheme {
    /// The imported theme, if there is one and it is in order: its text, and the
    /// file in it.
    pub theme: Option<(String, ThemeFile)>,
    /// Whether what is stored is damaged and is to be removed.
    pub forget: bool,
}

/// The imported theme, if one is stored and it is in order.
pub open spec fn custom_theme(stored: Option<ThemeText>) -> Option<(Seq<char>, ThemeFile)> {
    match stored {
        Some(t) => if import_fault(t) is None {
            Some((t.json@, t.reading->Ok_0))
        } else {
            None
        },
        None => None,
    }
}

/// Checks what was found in storage: a text that is no theme in order counts as
/// none, and is to be removed.
pub fn load_validated_custom_theme_json(stored: Option<ThemeText>) -> (res: StoredTheme)
    ensures
        match res.theme {
            Some(t) => custom_theme(stored) == Some((t.0@, t.1)),
            None => custom_theme(stored) is None,
        },
        res.forget == (stored is Some && res.theme is None),
{
    match stored {
        None => StoredTheme { theme: None, forget: false },
        Some(t) => {
            let json = t.json.clone();
            match validate_theme_json(t) {
                Ok(file) => StoredTheme { theme: Some((json, file)), forget: false },
                Err(_) => StoredTheme { theme: None, forget: true },
            }
        },
    }
}

/// What came of a write to storage.
#[derive(Debug, Clone, Copy, PartialEq, Eq, Structural)]
pub enum StorageOutcome {
    Stored,
    /// There is no storage, or it took no more.
    Refused,
}

/// Whether a theme may be written to storage: only one that is in order may.
pub fn persist_custom_theme_json(theme: ThemeText) -> (res: Result<(), ThemeFileError>)
    ensures
        match res {
            Ok(_) => import_fault(theme) is None,
            Err(e) => import_fault(theme) == Some(e@),
        },
{
    match validate_theme_json(theme) {
        Ok(_) => Ok(()),
        Err(e) => Err(e),
    }
}

/// The end of an import, after the write to storage.
pub fn persisted(outcome: StorageOutcome) -> (res: Result<(), ThemeFileError>)
    ensures
        match res {
            Ok(_) => outcome == StorageOutcome::Stored,
            Err(e) => outcome == StorageOutcome::Refused && e@ == ThemeFault::StorageFull,
        },
{
    match outcome {
        StorageOutcome::Stored => Ok(()),
        StorageOutcome::Refused => Err(ThemeFileError::StorageFull),
    }
}

/// The most characters that are shown of a theme's name.
pub const MAX_DISPLAY_NAME_CHARS: usize = 64;

/// The first characters of a name, as many as are shown.
pub open spec fn shown_name(name: Seq<char>) -> Seq<char> {
    if name.len() <= MAX_DISPLAY_NAME_CHARS {
        name
    } else {
        name.take(MAX_DISPLAY_NAME_CHARS as int)
    }
}

/// The name of a theme, as it is shown.
pub open spec fn display_name(name: Option<Seq<char>>) -> Seq<char> {
    match name {
        Some(n) => shown_name(n),
        None => shown_name("Custom Theme"@),
    }
}

/// The name of a theme, as it is shown.
pub fn theme_display_name(name: Option<String>) -> (res: String)
    ensures
        res@ == display_name(json::opt_string(name)),
{
    let name = match name {
        Some(n) => n,
        None => "Custom Theme".to_owned(),
    };
    let v = text::chars_of(name.as_str());
    if v.len() <= MAX_DISPLAY_NAME_CHARS {
        name
    } else {
        text::string_of(&v, 0, MAX_DISPLAY_NAME_CHARS)
    }
}

/// The name of the imported theme, as it is shown, if there is one in order.
pub fn custom_theme_display_name(stored: Option<ThemeText>) -> (res: Option<String>)
    ensures
        json::opt_string(res) == match custom_theme(stored) {
            Some(t) => Some(display_name(json::opt_string(t.1.name))),
            None => None,
        },
{
    let (_json, file) = load_validated_custom_theme_json(stored).theme?;
    Some(theme_display_name(file.name))
}

// ---------------------------------------------------------------------------
// What changes in the page
// ---------------------------------------------------------------------------

/// The backdrop of the page while an imported theme is active. It is made of the
/// theme's properties only, never of anything in the file, and fetches nothing.
pub const CUSTOM_THEME_BACKDROP_GRADIENT: &'static str = "\
radial-gradient(900px 600px at 50% -10%, color-mix(in oklch, var(--accent) 22%, transparent), transparent 70%), \
radial-gradient(700px 500px at 85% 110%, color-mix(in oklch, var(--accent-hover) 18%, transparent), transparent 65%), \
linear-gradient(160deg, var(--bg) 0%, var(--surface) 100%)";

/// The CSS property that holds the backdrop.
pub const BACKDROP_VAR: &'static str = "--bg-image";

/// A change to the inline style of the page.
#[derive(Debug, PartialEq, Eq)]
pub enum StyleOp {
    Remove(&'static str),
    Assign(&'static str, String),
}

pub enum StyleChange {
    Remove(Seq<char>),
    Assign(Seq<char>, Seq<char>),
}

impl View for StyleOp {
    type V = StyleChange;

    open spec fn view(&self) -> StyleChange {
        match self {
            StyleOp::Remove(n) => StyleChange::Remove(n@),
            StyleOp::Assign(n, v) => StyleChange::Assign(n@, v@),
        }
    }
}

/// What a list of changes says.
pub open spec fn changes(s: Seq<StyleOp>) -> Seq<StyleChange> {
    Seq::new(s.len(), |i: int| s[i]@)
}

/// Takes away every property that a theme manages.
pub open spec fn clearing() -> Seq<StyleChange> {
    Seq::new(TOKEN_COUNT as nat, |i: int| StyleChange::Remove(css_var(i))).push(
        StyleChange::Remove(BACKDROP_VAR@),
    )
}

/// Sets the properties of some declarations.
pub open spec fn setting(d: Seq<Declaration>) -> Seq<StyleChange> {
    Seq::new(d.len(), |i: int| StyleChange::Assign(d[i].0, d[i].1))
}

/// What the reading of the active theme gave: of the imported one, if one is stored
/// and it is in order, and else of the default.
pub open spec fn active_reading(
    stored: Option<ThemeText>,
    default: Result<ThemeFile, String>,
) -> Result<ThemeFile, String> {
    match custom_theme(stored) {
        Some(t) => Ok(t.1),
        None => default,
    }
}

/// The changes that show a theme, after the managed properties were cleared.
pub open spec fn showing(
    reading: Result<ThemeFile, String>,
    custom: bool,
    v: ResolvedVariant,
) -> Seq<StyleChange> {
    if reading_fault(reading) is Some {
        Seq::empty()
    } else {
        let set = setting(resolved(reading->Ok_0, v));
        if custom {
            set.push(StyleChange::Assign(BACKDROP_VAR@, CUSTOM_THEME_BACKDROP_GRADIENT@))
        } else {
            set
        }
    }
}

/// The changes that show the active theme in a variant.
pub open spec fn applying(
    v: ResolvedVariant,
    stored: Option<ThemeText>,
    default: Result<ThemeFile, String>,
) -> Seq<StyleChange> {
    clearing() + showing(active_reading(stored, default), custom_theme(stored) is Some, v)
}

/// Takes away every property that a theme manages, the backdrop included.
pub fn clear_theme_overrides() -> (ops: Vec<StyleOp>)
    ensures
        changes(ops@) == clearing(),
{
    let mut ops: Vec<StyleOp> = Vec::new();
    let mut i: usize = 0;
    while i < TOKEN_COUNT
        invariant
            i <= TOKEN_COUNT,
            ops@.len() == i,
            forall|k: int|
                0 <= k < i ==> (#[trigger] ops@[k])@ == StyleChange::Remove(css_var(k)),
        decreases TOKEN_COUNT - i,
    {
        ops.push(StyleOp::Remove(css_var_name(i)));
        i = i + 1;
    }
    ops.push(StyleOp::Remove(BACKDROP_VAR));
    assert(changes(ops@) =~= clearing());
    ops
}

/// The changes that show a theme file.
fn show_file(file: &ThemeFile, custom: bool, variant: ResolvedVariant) -> (ops: Vec<StyleOp>)
    requires
        file.version == 1,
    ensures
        changes(ops@) == showing(Ok(*file), custom, variant),
{
    let mut ops: Vec<StyleOp> = Vec::new();
    let pairs = validate_and_resolve(file, variant);
    let ghost wanted = resolved(*file, variant);
    let mut i: usize = 0;
    while i < pairs.len()
        invariant
            i <= pairs@.len(),
            declarations(pairs@) == wanted,
            ops@.len() == i,
            forall|k: int| 0 <= k < i ==> (#[trigger] ops@[k])@ == setting(wanted)[k],
        decreases pairs@.len() - i,
    {
        assert(wanted[i as int] == (pairs@[i as int].0@, pairs@[i as int].1@));
        ops.push(StyleOp::Assign(pairs[i].0, pairs[i].1.clone()));
        i = i + 1;
    }
    assert(changes(ops@) =~= setting(wanted));
    if custom {
        let ghost before = ops@;
        ops.push(StyleOp::Assign(BACKDROP_VAR, CUSTOM_THEME_BACKDROP_GRADIENT.to_owned()));
        assert(changes(ops@) =~= changes(before).push(ops@.last()@));
    }
    ops
}

/// What is to be done to show the active theme.
#[derive(Debug)]
pub struct ThemeApplication {
    /// Whether what is stored is damaged and is to be removed.
    pub forget: bool,
    /// The changes to the style of the page, in order.
    pub ops: Vec<StyleOp>,
    /// Why the active theme is not shown, if it is not.
    pub fault: Option<ThemeFileError>,
    /// The values of the active theme that are no valid colours.
    pub skipped: Vec<(&'static str, String)>,
}

/// What an optional fault says.
pub open spec fn opt_fault(o: Option<ThemeFileError>) -> Option<ThemeFault> {
    match o {
        Some(e) => Some(e@),
        None => None,
    }
}

/// What is to be done to show the active theme: the imported one, if one is
/// stored and it is in order, and else the default.
pub fn apply_theme_file_tokens(
    resolved_variant: &str,
    stored: Option<ThemeText>,
    default: Result<ThemeFile, String>,
) -> (res: ThemeApplication)
    ensures
        changes(res.ops@) == applying(variant_of(resolved_variant@), stored, default),
        res.forget == (stored is Some && custom_theme(stored) is None),
        opt_fault(res.fault) == reading_fault(active_reading(stored, default)),
        declarations(res.skipped@) == if res.fault is None {
            skipped(active_reading(stored, default)->Ok_0, variant_of(resolved_variant@))
        } else {
            Seq::empty()
        },
{
    let mut ops = clear_theme_overrides();
    let loaded = load_validated_custom_theme_json(stored);
    let variant = ResolvedVariant::from_resolved(resolved_variant);
    let custom = loaded.theme.is_some();
    let active = match loaded.theme {
        Some((_json, file)) => Ok(file),
        None => parse_theme_file(default),
    };
    match active {
        Err(e) => {
            let skipped: Vec<(&'static str, String)> = Vec::new();
            assert(declarations(skipped@) =~= Seq::empty());
            assert(changes(ops@) + Seq::<StyleChange>::empty() =~= changes(ops@));
            ThemeApplication { forget: loaded.forget, ops, fault: Some(e), skipped }
        },
        Ok(file) => {
            let mut shown = show_file(&file, custom, variant);
            let ghost first = ops@;
            let ghost second = shown@;
            ops.append(&mut shown);
            assert(changes(ops@) =~= changes(first) + changes(second));
            let skipped = skipped_values(&file, variant);
            ThemeApplication { forget: loaded.forget, ops, fault: None, skipped }
        },
    }
}

// ---------------------------------------------------------------------------
// Laws
// ---------------------------------------------------------------------------

/// The inline style of a page: its properties and their values.
pub type Style = Map<Seq<char>, Seq<char>>;

/// The style after one change.
pub open spec fn changed(style: Style, c: StyleChange) -> Style {
    match c {
        StyleChange::Remove(n) => style.remove(n),
        StyleChange::Assign(n, v) => style.insert(n, v),
    }
}

/// The style after some changes.
pub open spec fn styled(style: Style, c: Seq<StyleChange>) -> Style
    decreases c.len(),
{
    if c.len() == 0 {
        style
    } else {
        changed(styled(style, c.drop_last()), c.last())
    }
}

/// Whether a theme manages a property.
pub open spec fn managed(name: Seq<char>) -> bool {
    name == BACKDROP_VAR@ || exists|i: int| 0 <= i < TOKEN_COUNT && name == #[trigger] css_var(i)
}

/// The value of a property, where it has one.
pub open spec fn lookup(style: Style, name: Seq<char>) -> Option<Seq<char>> {
    if style.dom().contains(name) {
        Some(style[name])
    } else {
        None
    }
}

proof fn lemma_declared(value: spec_fn(int) -> Option<Seq<char>>, n: int)
    requires
        0 <= n <= TOKEN_COUNT,
    ensures
        forall|k: int|
            0 <= k < declared(value, n).len() ==> exists|i: int|
                0 <= i < n && (#[trigger] declared(value, n)[k]).0 == #[trigger] css_var(i)
                    && value(i) == Some(declared(value, n)[k].1) && theme_color::valid_color(
                    declared(value, n)[k].1,
                ),
        forall|i: int|
            0 <= i < n && value(i) is Some && theme_color::valid_color(value(i)->0) ==> declared(
                value,
                n,
            ).contains((#[trigger] css_var(i), value(i)->0)),
    decreases n,
{
    if n > 0 {
        lemma_declared(value, n - 1);
        let before = declared(value, n - 1);
        let now = declared(value, n);
        assert forall|k: int| 0 <= k < now.len() implies exists|i: int|
            0 <= i < n && (#[trigger] now[k]).0 == #[trigger] css_var(i) && value(i) == Some(
                now[k].1,
            ) && theme_color::valid_color(now[k].1) by {
            if k < before.len() {
                assert(now[k] == before[k]);
            } else {
                assert(now[k].0 == css_var(n - 1));
            }
        }
        assert forall|i: int|
            0 <= i < n && value(i) is Some && theme_color::valid_color(value(i)->0) implies now.contains(
            (#[trigger] css_var(i), value(i)->0),
        ) by {
            if i < n - 1 {
                let k = choose|k: int|
                    0 <= k < before.len() && before[k] == (css_var(i), value(i)->0);
                assert(now[k] == (css_var(i), value(i)->0));
            } else {
                assert(now.last() == (css_var(i), value(i)->0));
            }
        }
    }
}

/// Whatever a file holds, it can set nothing but the listed properties, and those
/// only to valid colours.
pub proof fn law_only_listed_properties_and_valid_colors(f: ThemeFile, v: ResolvedVariant)
    ensures
        forall|k: int|
            0 <= k < resolved(f, v).len() ==> exists|i: int|
                0 <= i < TOKEN_COUNT && (#[trigger] resolved(f, v)[k]).0 == #[trigger] css_var(i)
                    && token_value(f, i, v) == Some(resolved(f, v)[k].1)
                    && theme_color::valid_color(resolved(f, v)[k].1),
{
    lemma_declared(|i: int| token_value(f, i, v), TOKEN_COUNT as int);
}

/// Nothing is left out of a file that was checked on import: each value that it
/// gives is declared, in either variant.
pub proof fn law_checked_file_resolves_completely(f: ThemeFile, v: ResolvedVariant)
    requires
        all_values_valid(f),
    ensures
        forall|i: int|
            0 <= i < TOKEN_COUNT && token_value(f, i, v) is Some ==> resolved(f, v).contains(
                (#[trigger] css_var(i), token_value(f, i, v)->0),
            ),
{
    let value = |i: int| token_value(f, i, v);
    lemma_declared(value, TOKEN_COUNT as int);
    assert forall|i: int|
        0 <= i < TOKEN_COUNT && token_value(f, i, v) is Some implies resolved(f, v).contains(
        (#[trigger] css_var(i), token_value(f, i, v)->0),
    ) by {
        assert(value(i) == token_value(f, i, v));
    }
}

proof fn lemma_styled_append(style: Style, a: Seq<StyleChange>, b: Seq<StyleChange>)
    ensures
        styled(style, a + b) == styled(styled(style, a), b),
    decreases b.len(),
{
    if b.len() == 0 {
        assert(a + b =~= a);
    } else {
        lemma_styled_append(style, a, b.drop_last());
        assert((a + b).drop_last() =~= a + b.drop_last());
        assert((a + b).last() == b.last());
    }
}

proof fn lemma_cleared(style: Style, n: int)
    requires
        0 <= n <= TOKEN_COUNT,
    ensures
        forall|name: Seq<char>|
            #[trigger] lookup(styled(style, clearing().take(n)), name) == if exists|i: int|
                0 <= i < n && name == #[trigger] css_var(i) {
                None
            } else {
                lookup(style, name)
            },
    decreases n,
{
    if n > 0 {
        lemma_cleared(style, n - 1);
        assert(clearing().take(n).drop_last() =~= clearing().take(n - 1));
        assert(clearing().take(n).last() == StyleChange::Remove(css_var(n - 1)));
        assert forall|name: Seq<char>| #[trigger]
            lookup(styled(style, clearing().take(n)), name) == if exists|i: int|
                0 <= i < n && name == #[trigger] css_var(i) {
                None
            } else {
                lookup(style, name)
            } by {
            let before = lookup(styled(style, clearing().take(n - 1)), name);
            if name == css_var(n - 1) {
            } else if exists|i: int| 0 <= i < n && name == #[trigger] css_var(i) {
                let i = choose|i: int| 0 <= i < n && name == #[trigger] css_var(i);
                assert(i < n - 1);
                assert(before is None);
            } else {
                assert(before == lookup(style, name));
            }
        }
    } else {
        assert(clearing().take(0).len() == 0);
    }
}

/// Clearing takes away the managed properties and no others.
pub proof fn law_clearing(style: Style)
    ensures
        forall|name: Seq<char>|
            #[trigger] lookup(styled(style, clearing()), name) == if managed(name) {
                None
            } else {
                lookup(style, name)
            },
{
    let n = TOKEN_COUNT as int;
    lemma_cleared(style, n);
    assert(clearing().drop_last() =~= clearing().take(n));
    assert forall|name: Seq<char>| #[trigger] lookup(styled(style, clearing()), name) == if managed(
        name,
    ) {
        None
    } else {
        lookup(style, name)
    } by {
        let before = lookup(styled(style, clearing().take(n)), name);
        assert(styled(style, clearing()) == styled(style, clearing().take(n)).remove(
            BACKDROP_VAR@,
        ));
    }
}

/// Nothing of the theme or the variant that was shown before shows through: the
/// style that comes out depends on the properties that no theme manages alone.
pub proof fn law_no_stale_overrides(
    a: Style,
    b: Style,
    v: ResolvedVariant,
    stored: Option<ThemeText>,
    default: Result<ThemeFile, String>,
)
    requires
        forall|name: Seq<char>| !managed(name) ==> lookup(a, name) == lookup(b, name),
    ensures
        styled(a, applying(v, stored, default)) == styled(b, applying(v, stored, default)),
{
    law_clearing(a);
    law_clearing(b);
    let ca = styled(a, clearing());
    let cb = styled(b, clearing());
    assert forall|name: Seq<char>| #[trigger] lookup(ca, name) == lookup(cb, name) by {
        if !managed(name) {
            assert(lookup(a, name) == lookup(b, name));
        }
    }
    assert forall|name: Seq<char>| #[trigger] ca.dom().contains(name) == cb.dom().contains(
        name,
    ) by {
        assert(lookup(ca, name) == lookup(cb, name));
    }
    assert forall|name: Seq<char>| #[trigger] ca.dom().contains(name) implies ca[name]
        == cb[name] by {
        assert(lookup(ca, name) == lookup(cb, name));
    }
    assert(ca =~= cb);
    let shown = showing(active_reading(stored, default), custom_theme(stored) is Some, v);
    lemma_styled_append(a, clearing(), shown);
    lemma_styled_append(b, clearing(), shown);
}

proof fn lemma_css_vars_differ(i: int, j: int)
    requires
        0 <= i < j < TOKEN_COUNT,
    ensures
        css_var(i) != css_var(j),
        css_var(i) != BACKDROP_VAR@,
        css_var(j) != BACKDROP_VAR@,
{
    reveal_strlit("--bg");
    reveal_strlit("--surface");
    reveal_strlit("--surface-elevated");
    reveal_strlit("--border");
    reveal_strlit("--border-emphasis");
    reveal_strlit("--text-primary");
    reveal_strlit("--text-secondary");
    reveal_strlit("--accent");
    reveal_strlit("--accent-hover");
    reveal_strlit("--success");
    reveal_strlit("--warning");
    reveal_strlit("--error");
    reveal_strlit("--error-text");
    reveal_strlit("--focus-ring");
    reveal_strlit("--bg-image");
    let a = css_var(i);
    let b = css_var(j);
    assert(a.len() != b.len() || a[2] != b[2] || a[4] != b[4]);
    assert(BACKDROP_VAR@.len() == 10);
}

proof fn lemma_shown(
    style: Style,
    value: spec_fn(int) -> Option<Seq<char>>,
    n: int,
)
    requires
        0 <= n <= TOKEN_COUNT,
        forall|i: int| 0 <= i < TOKEN_COUNT ==> lookup(style, #[trigger] css_var(i)) is None,
    ensures
        forall|i: int|
            0 <= i < TOKEN_COUNT ==> lookup(
                styled(style, setting(declared(value, n))),
                #[trigger] css_var(i),
            ) == if i < n && value(i) is Some && theme_color::valid_color(value(i)->0) {
                value(i)
            } else {
                None
            },
        forall|name: Seq<char>|
            !managed(name) || name == BACKDROP_VAR@ ==> #[trigger] lookup(
                styled(style, setting(declared(value, n))),
                name,
            ) == lookup(style, name),
    decreases n,
{
    if n > 0 {
        lemma_shown(style, value, n - 1);
        let before = declared(value, n - 1);
        let now = declared(value, n);
        if now != before {
            let d = now.last();
            assert(setting(now).drop_last() =~= setting(before));
            assert(setting(now).last() == StyleChange::Assign(d.0, d.1));
            assert forall|i: int| 0 <= i < TOKEN_COUNT && i != n - 1 implies #[trigger] css_var(i)
                != css_var(n - 1) by {
                if i < n - 1 {
                    lemma_css_vars_differ(i, n - 1);
                } else {
                    lemma_css_vars_differ(n - 1, i);
                }
            }
            if n < TOKEN_COUNT {
                lemma_css_vars_differ(n - 1, n);
            } else {
                lemma_css_vars_differ(0, n - 1);
            }
            assert(managed(css_var(n - 1)));
            let after = styled(style, setting(now));
            assert forall|name: Seq<char>|
                !managed(name) || name == BACKDROP_VAR@ implies #[trigger] lookup(after, name)
                == lookup(style, name) by {
                assert(name != css_var(n - 1));
                assert(lookup(styled(style, setting(before)), name) == lookup(style, name));
            }
        }
    } else {
        assert(setting(declared(value, 0)).len() == 0);
    }
}

/// After a theme was applied, the page shows it: each property has the value that
/// the active theme gives it in the variant, if that is a valid colour, and else
/// none of its own. The backdrop is replaced exactly while an imported theme is
/// active. No other property has changed.
pub proof fn law_page_shows_the_active_theme(
    style: Style,
    v: ResolvedVariant,
    stored: Option<ThemeText>,
    default: Result<ThemeFile, String>,
)
    requires
        reading_fault(active_reading(stored, default)) is None,
    ensures
        ({
            let after = styled(style, applying(v, stored, default));
            let file = active_reading(stored, default)->Ok_0;
            &&& forall|i: int|
                0 <= i < TOKEN_COUNT ==> lookup(after, #[trigger] css_var(i)) == match token_value(
                    file,
                    i,
                    v,
                ) {
                    Some(c) => if theme_color::valid_color(c) {
                        Some(c)
                    } else {
                        None
                    },
                    None => None,
                }
            &&& lookup(after, BACKDROP_VAR@) == if custom_theme(stored) is Some {
                Some(CUSTOM_THEME_BACKDROP_GRADIENT@)
            } else {
                None
            }
            &&& forall|name: Seq<char>|
                !managed(name) ==> #[trigger] lookup(after, name) == lookup(style, name)
        }),
{
    let cleared = styled(style, clearing());
    let file = active_reading(stored, default)->Ok_0;
    let value = |i: int| token_value(file, i, v);
    law_clearing(style);
    assert forall|i: int| 0 <= i < TOKEN_COUNT implies lookup(
        cleared,
        #[trigger] css_var(i),
    ) is None by {
        assert(managed(css_var(i)));
    }
    lemma_shown(cleared, value, TOKEN_COUNT as int);
    let set = setting(declared(value, TOKEN_COUNT as int));
    let shown = showing(active_reading(stored, default), custom_theme(stored) is Some, v);
    lemma_styled_append(style, clearing(), shown);
    assert(lookup(styled(cleared, set), BACKDROP_VAR@) == lookup(cleared, BACKDROP_VAR@));
    if custom_theme(stored) is Some {
        assert(shown.drop_last() =~= set);
        assert forall|i: int| 0 <= i < TOKEN_COUNT implies #[trigger] css_var(i) != BACKDROP_VAR@ by {
            if i > 0 {
                lemma_css_vars_differ(0, i);
            } else {
                lemma_css_vars_differ(0, 1);
            }
        }
    }
    assert forall|i: int| 0 <= i < TOKEN_COUNT implies lookup(
        styled(style, applying(v, stored, default)),
        #[trigger] css_var(i),
    ) == (match token_value(file, i, v) {
        Some(c) => if theme_color::valid_color(c) {
            Some(c)
        } else {
            None
        },
        None => None,
    }) by {
        assert(value(i) == token_value(file, i, v));
        assert(lookup(styled(cleared, set), css_var(i)) == if value(i) is Some
            && theme_color::valid_color(value(i)->0) {
            value(i)
        } else {
            None
        });
    }
    assert forall|name: Seq<char>| !managed(name) implies #[trigger] lookup(
        styled(style, applying(v, stored, default)),
        name,
    ) == lookup(style, name) by {
        assert(name != BACKDROP_VAR@);
        assert(lookup(styled(cleared, set), name) == lookup(cleared, name));
    }
    assert(managed(BACKDROP_VAR@));
    assert(lookup(cleared, BACKDROP_VAR@) is None);
}

/// When the active theme cannot be read, the page is left without overrides.
pub proof fn law_unreadable_theme_leaves_the_stylesheet(
    style: Style,
    v: ResolvedVariant,
    stored: Option<ThemeText>,
    default: Result<ThemeFile, String>,
)
    requires
        reading_fault(active_reading(stored, default)) is Some,
    ensures
        forall|name: Seq<char>|
            managed(name) ==> #[trigger] lookup(styled(style, applying(v, stored, default)), name) is None,
{
    law_clearing(style);
    assert(applying(v, stored, default) =~= clearing());
}

/// The value that a token has in a variant, where it has one.
pub open spec fn in_variant(m: Option<ModeValue>, v: ResolvedVariant) -> Option<String> {
    match m {
        Some(m) => if v is Light {
            m.light
        } else {
            m.dark
        },
        None => None,
    }
}

/// Whether some declarations give a property the value that a token has in a
/// variant, if that is a valid colour, and else no value at all.
pub open spec fn shows(
    d: Seq<Declaration>,
    name: Seq<char>,
    m: Option<ModeValue>,
    v: ResolvedVariant,
) -> bool {
    match in_variant(m, v) {
        Some(c) => if theme_color::valid_color(c@) {
            d.contains((name, c@)) && forall|k: int|
                0 <= k < d.len() && (#[trigger] d[k]).0 == name ==> d[k].1 == c@
        } else {
            forall|k: int| 0 <= k < d.len() ==> (#[trigger] d[k]).0 != name
        },
        None => forall|k: int| 0 <= k < d.len() ==> (#[trigger] d[k]).0 != name,
    }
}

proof fn lemma_shows(f: ThemeFile, v: ResolvedVariant, i: int)
    requires
        0 <= i < TOKEN_COUNT,
    ensures
        shows(resolved(f, v), css_var(i), token(f, i), v),
{
    let value = |k: int| token_value(f, k, v);
    let d = resolved(f, v);
    lemma_declared(value, TOKEN_COUNT as int);
    assert(value(i) == token_value(f, i, v));
    assert forall|k: int| 0 <= k < d.len() && (#[trigger] d[k]).0 == css_var(i) implies value(i)
        == Some(d[k].1) && theme_color::valid_color(d[k].1) by {
        let j = choose|j: int|
            0 <= j < TOKEN_COUNT && d[k].0 == #[trigger] css_var(j) && value(j) == Some(d[k].1)
                && theme_color::valid_color(d[k].1);
        if j < i {
            lemma_css_vars_differ(j, i);
        } else if i < j {
            lemma_css_vars_differ(i, j);
        }
    }
}

/// Each token sets the property that is its own: the surfaces those of the page,
/// the border and the text their own, the brand the accents, the status the three
/// signals, and the focus its ring; in the variant that is wanted.
pub proof fn law_each_token_sets_its_property(
    f: &ThemeFile,
    c: ColorTokens,
    v: ResolvedVariant,
    res: Vec<(&'static str, String)>,
)
    requires
        call_ensures(validate_and_resolve, (f, v), res),
        f.color == Some(c),
    ensures
        match c.surface {
            Some(t) => {
                &&& shows(declarations(res@), "--bg"@, t.base, v)
                &&& shows(declarations(res@), "--surface"@, t.raised, v)
                &&& shows(declarations(res@), "--surface-elevated"@, t.elevated, v)
            },
            None => {
                &&& shows(declarations(res@), "--bg"@, None, v)
                &&& shows(declarations(res@), "--surface"@, None, v)
                &&& shows(declarations(res@), "--surface-elevated"@, None, v)
            },
        },
        match c.border {
            Some(t) => {
                &&& shows(declarations(res@), "--border"@, t.default, v)
                &&& shows(declarations(res@), "--border-emphasis"@, t.emphasis, v)
            },
            None => {
                &&& shows(declarations(res@), "--border"@, None, v)
                &&& shows(declarations(res@), "--border-emphasis"@, None, v)
            },
        },
        match c.text {
            Some(t) => {
                &&& shows(declarations(res@), "--text-primary"@, t.primary, v)
                &&& shows(declarations(res@), "--text-secondary"@, t.secondary, v)
                &&& shows(declarations(res@), "--error-text"@, t.error, v)
            },
            None => {
                &&& shows(declarations(res@), "--text-primary"@, None, v)
                &&& shows(declarations(res@), "--text-secondary"@, None, v)
                &&& shows(declarations(res@), "--error-text"@, None, v)
            },
        },
        match c.brand {
            Some(t) => {
                &&& shows(declarations(res@), "--accent"@, t.accent, v)
                &&& shows(declarations(res@), "--accent-hover"@, t.accent_hover, v)
            },
            None => {
                &&& shows(declarations(res@), "--accent"@, None, v)
                &&& shows(declarations(res@), "--accent-hover"@, None, v)
            },
        },
        match c.status {
            Some(t) => {
                &&& shows(declarations(res@), "--success"@, t.success, v)
                &&& shows(declarations(res@), "--warning"@, t.warning, v)
                &&& shows(declarations(res@), "--error"@, t.error, v)
            },
            None => {
                &&& shows(declarations(res@), "--success"@, None, v)
                &&& shows(declarations(res@), "--warning"@, None, v)
                &&& shows(declarations(res@), "--error"@, None, v)
            },
        },
        match c.focus {
            Some(t) => {
                &&& shows(declarations(res@), "--focus-ring"@, t.ring, v)
            },
            None => {
                &&& shows(declarations(res@), "--focus-ring"@, None, v)
            },
        },
{
    lemma_shows(*f, v, 0);
    lemma_shows(*f, v, 1);
    lemma_shows(*f, v, 2);
    lemma_shows(*f, v, 3);
    lemma_shows(*f, v, 4);
    lemma_shows(*f, v, 5);
    lemma_shows(*f, v, 6);
    lemma_shows(*f, v, 7);
    lemma_shows(*f, v, 8);
    lemma_shows(*f, v, 9);
    lemma_shows(*f, v, 10);
    lemma_shows(*f, v, 11);
    lemma_shows(*f, v, 12);
    lemma_shows(*f, v, 13);
}

/// A file without colours sets nothing.
pub proof fn law_no_colors_no_declarations(
    f: &ThemeFile,
    v: ResolvedVariant,
    res: Vec<(&'static str, String)>,
)
    requires
        call_ensures(validate_and_resolve, (f, v), res),
        f.color is None,
    ensures
        res@.len() == 0,
{
    law_only_listed_properties_and_valid_colors(*f, v);
    let d = resolved(*f, v);
    assert(d == declarations(res@) && d.len() == res@.len());
    if d.len() > 0 {
        let i = choose|i: int|
            0 <= i < TOKEN_COUNT && d[0].0 == #[trigger] css_var(i) && token_value(*f, i, v)
                == Some(d[0].1);
        assert(token(*f, i) is None);
    }
}

proof fn lemma_left_out(value: spec_fn(int) -> Option<Seq<char>>, n: int)
    requires
        0 <= n <= TOKEN_COUNT,
    ensures
        left_out(value, n).len() == 0 <==> forall|i: int|
            0 <= i < n ==> ((#[trigger] value(i)) matches Some(c) ==> theme_color::valid_color(c)),
        forall|k: int|
            0 <= k < left_out(value, n).len() ==> !theme_color::valid_color(
                (#[trigger] left_out(value, n)[k]).1,
            ),
    decreases n,
{
    if n > 0 {
        lemma_left_out(value, n - 1);
        let before = left_out(value, n - 1);
        let now = left_out(value, n);
        assert forall|k: int| 0 <= k < now.len() implies !theme_color::valid_color(
            (#[trigger] now[k]).1,
        ) by {
            if k < before.len() {
                assert(now[k] == before[k]);
            }
        }
        if now.len() == 0 {
            assert forall|i: int| 0 <= i < n implies ((#[trigger] value(i)) matches Some(c)
                ==> theme_color::valid_color(c)) by {
                if i < n - 1 {
                    assert(before.len() == 0);
                }
            }
        } else if forall|i: int| 0 <= i < n ==> ((#[trigger] value(i)) matches Some(c)
            ==> theme_color::valid_color(c)) {
            assert(value(n - 1) matches Some(c) ==> theme_color::valid_color(c));
        }
    }
}

/// A text is accepted exactly when it is not larger than 65536 bytes, was read as a
/// file of version 1, and no value of it would be skipped in either variant.
pub proof fn law_accepted_themes(
    theme: ThemeText,
    dark: Vec<(&'static str, String)>,
    light: Vec<(&'static str, String)>,
    res: Result<ThemeFile, ThemeFileError>,
)
    requires
        call_ensures(validate_theme_json, (theme,), res),
        theme.reading matches Ok(f) ==> call_ensures(
            skipped_values,
            (&f, ResolvedVariant::Dark),
            dark,
        ) && call_ensures(skipped_values, (&f, ResolvedVariant::Light), light),
    ensures
        encode_utf8(theme.json@).len() > 65536 <==> res is Err && res->Err_0 is TooLarge,
        encode_utf8(theme.json@).len() <= 65536 ==> match theme.reading {
            Err(m) => res is Err && res->Err_0@ == ThemeFault::Json(m@),
            Ok(f) => {
                &&& f.version != 1 ==> res is Err && res->Err_0@ == ThemeFault::UnsupportedVersion(
                    f.version,
                )
                &&& f.version == 1 && dark@.len() == 0 && light@.len() == 0 ==> res
                    == Ok::<ThemeFile, ThemeFileError>(f)
                &&& f.version == 1 && (dark@.len() > 0 || light@.len() > 0) ==> res is Err
                    && res->Err_0@ is InvalidValue
            },
        },
{
    if let Ok(f) = theme.reading {
        lemma_skipped_or_valid(f);
        assert(declarations(dark@).len() == dark@.len());
        assert(declarations(light@).len() == light@.len());
    }
}

/// What is kept, and what may be written to storage, is what is accepted on import;
/// what is stored and is not accepted is forgotten.
pub proof fn law_stored_themes(
    theme: ThemeText,
    checked: Result<ThemeFile, ThemeFileError>,
    loaded: StoredTheme,
    written: Result<(), ThemeFileError>,
)
    requires
        call_ensures(validate_theme_json, (theme,), checked),
        call_ensures(load_validated_custom_theme_json, (Some(theme),), loaded),
        call_ensures(persist_custom_theme_json, (theme,), written),
    ensures
        written is Ok <==> checked is Ok,
        written is Err ==> written->Err_0@ == checked->Err_0@,
        loaded.forget <==> checked is Err,
        match loaded.theme {
            Some(t) => t.0@ == theme.json@ && checked == Ok::<ThemeFile, ThemeFileError>(t.1),
            None => checked is Err,
        },
{
}

/// Where nothing is stored there is no imported theme, and nothing to forget.
pub proof fn law_nothing_stored(loaded: StoredTheme, name: Option<String>)
    requires
        call_ensures(load_validated_custom_theme_json, (None::<ThemeText>,), loaded),
        call_ensures(custom_theme_display_name, (None::<ThemeText>,), name),
    ensures
        loaded.theme is None,
        !loaded.forget,
        name is None,
{
}

/// The name that is shown is the start of the theme's own, whole when it has no more
/// than 64 characters; a theme without a name has one that says so. There is a name
/// exactly when there is an imported theme.
pub proof fn law_display_names(
    theme: ThemeText,
    checked: Result<ThemeFile, ThemeFileError>,
    res: Option<String>,
)
    requires
        call_ensures(validate_theme_json, (theme,), checked),
        call_ensures(custom_theme_display_name, (Some(theme),), res),
    ensures
        res is Some <==> checked is Ok,
        res matches Some(shown) ==> shown@.len() <= 64,
        res matches Some(shown) ==> match checked->Ok_0.name {
            Some(n) => {
                &&& shown@ == n@.take(shown@.len() as int)
                &&& n@.len() <= 64 ==> shown@ == n@
                &&& n@.len() > 64 ==> shown@.len() == 64
            },
            None => shown@ == "Custom Theme"@,
        },
{
    reveal_strlit("Custom Theme");
    if let Some(shown) = res {
        if let Some(n) = checked->Ok_0.name {
            assert(n@.take(n@.len() as int) =~= n@);
        }
    }
}

/// A page is light exactly when the theme's name says so.
pub proof fn law_variants(s: &str, res: ResolvedVariant)
    requires
        call_ensures(ResolvedVariant::from_resolved, (s,), res),
    ensures
        res is Light <==> s@ == "light"@,
{
}

/// The page shows what the active file declares: its properties are those of the
/// declarations of the imported file, or of the default where none is imported.
pub proof fn law_active_theme_is_applied(
    name: &str,
    stored: Option<ThemeText>,
    default: Result<ThemeFile, String>,
    loaded: StoredTheme,
    variant: ResolvedVariant,
    res: ThemeApplication,
)
    requires
        call_ensures(apply_theme_file_tokens, (name, stored, default), res),
        call_ensures(load_validated_custom_theme_json, (stored,), loaded),
        call_ensures(ResolvedVariant::from_resolved, (name,), variant),
    ensures
        res.forget == loaded.forget,
        loaded.theme matches Some(t) ==> res.fault is None && changes(res.ops@) == clearing()
            + setting(resolved(t.1, variant)).push(
            StyleChange::Assign("--bg-image"@, CUSTOM_THEME_BACKDROP_GRADIENT@),
        ) && declarations(res.skipped@) == skipped(t.1, variant),
        loaded.theme is None ==> match default {
            Ok(f) => if f.version == 1 {
                res.fault is None && changes(res.ops@) == clearing() + setting(
                    resolved(f, variant),
                ) && declarations(res.skipped@) == skipped(f, variant)
            } else {
                changes(res.ops@) == clearing() && res.skipped@.len() == 0 && opt_fault(res.fault)
                    == Some(ThemeFault::UnsupportedVersion(f.version))
            },
            Err(m) => changes(res.ops@) == clearing() && res.skipped@.len() == 0 && opt_fault(
                res.fault,
            ) == Some(ThemeFault::Json(m@)),
        },
{
    assert(declarations(res.skipped@).len() == res.skipped@.len());
    assert(clearing() + Seq::<StyleChange>::empty() =~= clearing());
}

/// Clearing removes fifteen properties, each by its name, and does nothing else.
pub proof fn law_what_is_cleared(res: Vec<StyleOp>)
    requires
        call_ensures(clear_theme_overrides, (), res),
    ensures
        res@.len() == 15,
        forall|i: int| 0 <= i < res@.len() ==> (#[trigger] res@[i])@ is Remove,
        ({
            let names = changes(res@);
            &&& names.contains(StyleChange::Remove("--bg"@))
            &&& names.contains(StyleChange::Remove("--surface"@))
            &&& names.contains(StyleChange::Remove("--surface-elevated"@))
            &&& names.contains(StyleChange::Remove("--border"@))
            &&& names.contains(StyleChange::Remove("--border-emphasis"@))
            &&& names.contains(StyleChange::Remove("--text-primary"@))
            &&& names.contains(StyleChange::Remove("--text-secondary"@))
            &&& names.contains(StyleChange::Remove("--accent"@))
            &&& names.contains(StyleChange::Remove("--accent-hover"@))
            &&& names.contains(StyleChange::Remove("--success"@))
            &&& names.contains(StyleChange::Remove("--warning"@))
            &&& names.contains(StyleChange::Remove("--error"@))
            &&& names.contains(StyleChange::Remove("--error-text"@))
            &&& names.contains(StyleChange::Remove("--focus-ring"@))
            &&& names.contains(StyleChange::Remove("--bg-image"@))
        }),
{
    let names = changes(res@);
    assert(names.len() == res@.len());
    assert forall|i: int| 0 <= i < res@.len() implies (#[trigger] res@[i])@ is Remove by {
        assert(names[i] == res@[i]@);
    }
    assert(names[0] == StyleChange::Remove(css_var(0)));
    assert(names[1] == StyleChange::Remove(css_var(1)));
    assert(names[2] == StyleChange::Remove(css_var(2)));
    assert(names[3] == StyleChange::Remove(css_var(3)));
    assert(names[4] == StyleChange::Remove(css_var(4)));
    assert(names[5] == StyleChange::Remove(css_var(5)));
    assert(names[6] == StyleChange::Remove(css_var(6)));
    assert(names[7] == StyleChange::Remove(css_var(7)));
    assert(names[8] == StyleChange::Remove(css_var(8)));
    assert(names[9] == StyleChange::Remove(css_var(9)));
    assert(names[10] == StyleChange::Remove(css_var(10)));
    assert(names[11] == StyleChange::Remove(css_var(11)));
    assert(names[12] == StyleChange::Remove(css_var(12)));
    assert(names[13] == StyleChange::Remove(css_var(13)));
    assert(names[14] == StyleChange::Remove("--bg-image"@));
}

/// The values of the surfaces are read where the file has them, in the variant that is wanted.
pub proof fn law_values_of_surface(
    f: &ThemeFile,
    c: ColorTokens,
    v: ResolvedVariant,
    base: Option<&String>,
    raised: Option<&String>,
    elevated: Option<&String>,
)
    requires
        f.color == Some(c),
        call_ensures(extract_surface_base, (f, v), base),
        call_ensures(extract_surface_raised, (f, v), raised),
        call_ensures(extract_surface_elevated, (f, v), elevated),
    ensures
        match c.surface {
            Some(t) => {
                &&& opt_ref(base) == json::opt_string(in_variant(t.base, v))
                &&& opt_ref(raised) == json::opt_string(in_variant(t.raised, v))
                &&& opt_ref(elevated) == json::opt_string(in_variant(t.elevated, v))
            },
            None => {
                &&& base is None
                &&& raised is None
                &&& elevated is None
            },
        },
{
}

/// The values of the borders are read where the file has them, in the variant that is wanted.
pub proof fn law_values_of_border(
    f: &ThemeFile,
    c: ColorTokens,
    v: ResolvedVariant,
    default: Option<&String>,
    emphasis: Option<&String>,
)
    requires
        f.color == Some(c),
        call_ensures(extract_border_default, (f, v), default),
        call_ensures(extract_border_emphasis, (f, v), emphasis),
    ensures
        match c.border {
            Some(t) => {
                &&& opt_ref(default) == json::opt_string(in_variant(t.default, v))
                &&& opt_ref(emphasis) == json::opt_string(in_variant(t.emphasis, v))
            },
            None => {
                &&& default is None
                &&& emphasis is None
            },
        },
{
}

/// The values of the text are read where the file has them, in the variant that is wanted.
pub proof fn law_values_of_text(
    f: &ThemeFile,
    c: ColorTokens,
    v: ResolvedVariant,
    primary: Option<&String>,
    secondary: Option<&String>,
    error: Option<&String>,
)
    requires
        f.color == Some(c),
        call_ensures(extract_text_primary, (f, v), primary),
        call_ensures(extract_text_secondary, (f, v), secondary),
        call_ensures(extract_text_error, (f, v), error),
    ensures
        match c.text {
            Some(t) => {
                &&& opt_ref(primary) == json::opt_string(in_variant(t.primary, v))
                &&& opt_ref(secondary) == json::opt_string(in_variant(t.secondary, v))
                &&& opt_ref(error) == json::opt_string(in_variant(t.error, v))
            },
            None => {
                &&& primary is None
                &&& secondary is None
                &&& error is None
            },
        },
{
}

/// The values of the brand are read where the file has them, in the variant that is wanted.
pub proof fn law_values_of_brand(
    f: &ThemeFile,
    c: ColorTokens,
    v: ResolvedVariant,
    accent: Option<&String>,
    accent_hover: Option<&String>,
)
    requires
        f.color == Some(c),
        call_ensures(extract_brand_accent, (f, v), accent),
        call_ensures(extract_brand_accent_hover, (f, v), accent_hover),
    ensures
        match c.brand {
            Some(t) => {
                &&& opt_ref(accent) == json::opt_string(in_variant(t.accent, v))
                &&& opt_ref(accent_hover) == json::opt_string(in_variant(t.accent_hover, v))
            },
            None => {
                &&& accent is None
                &&& accent_hover is None
            },
        },
{
}

/// The values of the status are read where the file has them, in the variant that is wanted.
pub proof fn law_values_of_status(
    f: &ThemeFile,
    c: ColorTokens,
    v: ResolvedVariant,
    success: Option<&String>,
    warning: Option<&String>,
    error: Option<&String>,
)
    requires
        f.color == Some(c),
        call_ensures(extract_status_success, (f, v), success),
        call_ensures(extract_status_warning, (f, v), warning),
        call_ensures(extract_status_error, (f, v), error),
    ensures
        match c.status {
            Some(t) => {
                &&& opt_ref(success) == json::opt_string(in_variant(t.success, v))
                &&& opt_ref(warning) == json::opt_string(in_variant(t.warning, v))
                &&& opt_ref(error) == json::opt_string(in_variant(t.error, v))
            },
            None => {
                &&& success is None
                &&& warning is None
                &&& error is None
            },
        },
{
}

/// The values of the focus are read where the file has them, in the variant that is wanted.
pub proof fn law_values_of_focus(
    f: &ThemeFile,
    c: ColorTokens,
    v: ResolvedVariant,
    ring: Option<&String>,
)
    requires
        f.color == Some(c),
        call_ensures(extract_focus_ring, (f, v), ring),
    ensures
        match c.focus {
            Some(t) => {
                &&& opt_ref(ring) == json::opt_string(in_variant(t.ring, v))
            },
            None => {
                &&& ring is None
            },
        },
{
}

/// A token has one value for a dark page and one for a light one.
pub proof fn law_two_values(m: &ModeValue, dark: Option<&String>, light: Option<&String>)
    requires
        call_ensures(mode_pick, (m, ResolvedVariant::Dark), dark),
        call_ensures(mode_pick, (m, ResolvedVariant::Light), light),
    ensures
        opt_ref(dark) == json::opt_string(m.dark),
        opt_ref(light) == json::opt_string(m.light),
{
}

/// A file counts when it was read and is of version one; what was said when it could
/// not be read is passed on.
pub proof fn law_files_that_count(
    reading: Result<ThemeFile, String>,
    res: Result<ThemeFile, ThemeFileError>,
)
    requires
        call_ensures(parse_theme_file, (reading,), res),
    ensures
        match reading {
            Ok(f) => {
                &&& f.version == 1 ==> res == Ok::<ThemeFile, ThemeFileError>(f)
                &&& f.version != 1 ==> res is Err && res->Err_0@ == ThemeFault::UnsupportedVersion(
                    f.version,
                )
            },
            Err(m) => res is Err && res->Err_0@ == ThemeFault::Json(m@),
        },
{
}

/// A text is too large above 65536 bytes; every value of a file is valid exactly when
/// none would be skipped; and what storage refused is said to be full.
pub proof fn law_limits(
    json: &str,
    f: &ThemeFile,
    dark: Vec<(&'static str, String)>,
    light: Vec<(&'static str, String)>,
    large: bool,
    valid: bool,
    stored: Result<(), ThemeFileError>,
    refused: Result<(), ThemeFileError>,
)
    requires
        call_ensures(is_too_large, (json,), large),
        call_ensures(skipped_values, (f, ResolvedVariant::Dark), dark),
        call_ensures(skipped_values, (f, ResolvedVariant::Light), light),
        call_ensures(values_are_valid, (f,), valid),
        call_ensures(persisted, (StorageOutcome::Stored,), stored),
        call_ensures(persisted, (StorageOutcome::Refused,), refused),
    ensures
        large <==> encode_utf8(json@).len() > 65536,
        valid <==> dark@.len() == 0 && light@.len() == 0,
        stored is Ok,
        refused is Err && refused->Err_0@ is StorageFull,
{
    lemma_skipped_or_valid(*f);
    assert(declarations(dark@).len() == dark@.len());
    assert(declarations(light@).len() == light@.len());
}

proof fn lemma_skipped_or_valid(f: ThemeFile)
    ensures
        all_values_valid(f) <==> skipped(f, ResolvedVariant::Dark).len() == 0 && skipped(
            f,
            ResolvedVariant::Light,
        ).len() == 0,
{
    let d = |i: int| token_value(f, i, ResolvedVariant::Dark);
    let l = |i: int| token_value(f, i, ResolvedVariant::Light);
    lemma_left_out(d, TOKEN_COUNT as int);
    lemma_left_out(l, TOKEN_COUNT as int);
    if left_out(d, TOKEN_COUNT as int).len() == 0 && left_out(l, TOKEN_COUNT as int).len() == 0 {
        assert forall|i: int, v: ResolvedVariant| 0 <= i < TOKEN_COUNT implies ((
        #[trigger] token_value(f, i, v)) matches Some(c) ==> theme_color::valid_color(c)) by {
            if v is Dark {
                assert(d(i) == token_value(f, i, v));
            } else {
                assert(l(i) == token_value(f, i, v));
            }
        }
    } else if all_values_valid(f) {
        assert forall|i: int| 0 <= i < TOKEN_COUNT implies ((#[trigger] d(i)) matches Some(c)
            ==> theme_color::valid_color(c)) by {
            assert(token_value(f, i, ResolvedVariant::Dark) == d(i));
        }
        assert forall|i: int| 0 <= i < TOKEN_COUNT implies ((#[trigger] l(i)) matches Some(c)
            ==> theme_color::valid_color(c)) by {
            assert(token_value(f, i, ResolvedVariant::Light) == l(i));
        }
    }
}

/// A value that is skipped is one that is no valid colour, under the name of its
/// property; none of the values that are declared is skipped.
pub proof fn law_skipped_values(
    f: &ThemeFile,
    v: ResolvedVariant,
    left: Vec<(&'static str, String)>,
    set: Vec<(&'static str, String)>,
)
    requires
        call_ensures(skipped_values, (f, v), left),
        call_ensures(validate_and_resolve, (f, v), set),
    ensures
        forall|k: int|
            0 <= k < left@.len() ==> !theme_color::valid_color((#[trigger] left@[k]).1@),
        forall|k: int| 0 <= k < set@.len() ==> theme_color::valid_color((#[trigger] set@[k]).1@),
{
    let g = *f;
    lemma_left_out(|i: int| token_value(g, i, v), TOKEN_COUNT as int);
    law_only_listed_properties_and_valid_colors(g, v);
    let l = declarations(left@);
    let s = declarations(set@);
    assert(l.len() == left@.len() && s.len() == set@.len());
    assert forall|k: int| 0 <= k < left@.len() implies !theme_color::valid_color(
        (#[trigger] left@[k]).1@,
    ) by {
        assert(l[k].1 == left@[k].1@);
        assert(skipped(g, v)[k] == l[k]);
    }
    assert forall|k: int| 0 <= k < set@.len() implies theme_color::valid_color(
        (#[trigger] set@[k]).1@,
    ) by {
        assert(s[k].1 == set@[k].1@);
        assert(resolved(g, v)[k] == s[k]);
    }
}

/// What the user is told of a fault.
pub proof fn law_messages(e: ThemeFileError, number: String, v: u32, res: String)
    requires
        call_ensures(ThemeFileError::message, (&e,), res),
        call_ensures(text::decimal_string, (v as u64,), number),
    ensures
        match e@ {
            ThemeFault::Json(m) => res@ == "theme JSON parse error: "@ + m,
            ThemeFault::UnsupportedVersion(w) => w == v ==> res@ == "unsupported theme version: "@
                + number@,
            ThemeFault::TooLarge => res@ == "theme file exceeds maximum size (64 KB)"@,
            ThemeFault::InvalidValue => res@ == "theme contains an unsupported color value"@,
            ThemeFault::StorageFull => res@ == "storage is full"@,
        },
{
}

} // verus!
