use vstd::prelude::*;

use crate::text::{
    chars_of, clean_range, clean_value, decimal, find_char, find_char_range, is_white_space,
    lemma_find_char, push_decimal, push_range, range_eq, trim, trim_end_by, trim_range,
    trim_start_by, trims,
};

verus! {

/// Which of the palettes sampled from the wallpaper the bar uses.
#[derive(Debug, Clone, Copy, PartialEq, Eq, Structural)]
pub enum PaletteMode {
    Balanced,
    Vibrant,
    Contrast,
    Center,
}

/// Whether the bar starts in the foreground or detaches into the background.
#[derive(Debug, Clone, Copy, PartialEq, Eq, Structural)]
pub enum StartupMode {
    Foreground,
    Background,
}

/// The settings read from `rebar.toml`.
#[derive(Debug, Clone, Copy, PartialEq, Eq, Structural)]
pub struct AppConfig {
    pub palette_mode: PaletteMode,
    pub hide_windows_taskbar: bool,
    pub auto_hide_panels_on_focus_loss: bool,
    pub flyout_animation_ms: u64,
    pub launch_on_startup: bool,
    pub startup_mode: StartupMode,
}

/// The spelling of a palette mode in the config file.
pub open spec fn palette_key(mode: PaletteMode) -> Seq<char> {
    match mode {
        PaletteMode::Balanced => "balanced"@,
        PaletteMode::Vibrant => "vibrant"@,
        PaletteMode::Contrast => "contrast"@,
        PaletteMode::Center => "center"@,
    }
}

/// The spelling of a startup mode in the config file.
pub open spec fn startup_key(mode: StartupMode) -> Seq<char> {
    match mode {
        StartupMode::Foreground => "foreground"@,
        StartupMode::Background => "background"@,
    }
}

impl PaletteMode {
    pub fn as_key(self) -> (r: &'static str)
        ensures
            r@ == palette_key(self),
    {
        match self {
            PaletteMode::Balanced => "balanced",
            PaletteMode::Vibrant => "vibrant",
            PaletteMode::Contrast => "contrast",
            PaletteMode::Center => "center",
        }
    }
}

impl StartupMode {
    /// The command-line argument that selects this mode when the bar is started by the
    /// system; the foreground mode needs none.
    pub fn as_startup_arg(self) -> (r: Option<&'static str>)
        ensures
            match self {
                StartupMode::Foreground => r is None,
                StartupMode::Background => r matches Some(a) && a@ == "--background"@,
            },
    {
        match self {
            StartupMode::Foreground => None,
            StartupMode::Background => Some("--background"),
        }
    }

    pub fn as_key(self) -> (r: &'static str)
        ensures
            r@ == startup_key(self),
    {
        match self {
            StartupMode::Foreground => "foreground",
            StartupMode::Background => "background",
        }
    }
}

/// The configuration used when the file sets nothing.
pub open spec fn default_config() -> AppConfig {
    AppConfig {
        palette_mode: PaletteMode::Balanced,
        hide_windows_taskbar: true,
        auto_hide_panels_on_focus_loss: true,
        flyout_animation_ms: 200,
        launch_on_startup: false,
        startup_mode: StartupMode::Background,
    }
}

impl Default for AppConfig {
    fn default() -> (r: Self)
        ensures
            r == default_config(),
    {
        AppConfig {
            palette_mode: PaletteMode::Balanced,
            hide_windows_taskbar: true,
            auto_hide_panels_on_focus_loss: true,
            flyout_animation_ms: 200,
            launch_on_startup: false,
            startup_mode: StartupMode::Background,
        }
    }
}

/// `bool`'s `Display`.
pub open spec fn bool_text(b: bool) -> Seq<char> {
    if b {
        "true"@
    } else {
        "false"@
    }
}

/// `"v"`.
pub open spec fn quoted(v: Seq<char>) -> Seq<char> {
    seq!['"'] + v + seq!['"']
}

/// One line of the config file.
pub open spec fn setting_line(key: Seq<char>, value: Seq<char>) -> Seq<char> {
    key + " = "@ + value + "\n"@
}

/// The file that `to_toml` writes for `c`: one line per setting, in a fixed order.
pub open spec fn toml_text(c: AppConfig) -> Seq<char> {
    setting_line("palette"@, quoted(palette_key(c.palette_mode))) + setting_line(
        "hide_windows_taskbar"@,
        bool_text(c.hide_windows_taskbar),
    ) + setting_line(
        "auto_hide_panels_on_focus_loss"@,
        bool_text(c.auto_hide_panels_on_focus_loss),
    ) + setting_line("flyout_animation_ms"@, decimal(c.flyout_animation_ms as nat))
        + setting_line("launch_on_startup"@, bool_text(c.launch_on_startup)) + setting_line(
        "startup_mode"@,
        quoted(startup_key(c.startup_mode)),
    )
}

fn push_bool(s: &mut String, b: bool)
    ensures
        final(s)@ == old(s)@ + bool_text(b),
{
    if b {
        s.append("true");
    } else {
        s.append("false");
    }
}

fn push_quoted(s: &mut String, v: &str)
    ensures
        final(s)@ == old(s)@ + quoted(v@),
{
    crate::text::push_char(s, '"');
    s.append(v);
    crate::text::push_char(s, '"');
    assert(final(s)@ =~= old(s)@ + quoted(v@));
}

fn push_setting_start(s: &mut String, key: &str)
    ensures
        final(s)@ == old(s)@ + key@ + " = "@,
{
    s.append(key);
    s.append(" = ");
}

impl AppConfig {
    /// The config file for these settings, one `key = value` line per setting.
    pub fn to_toml(self) -> (r: String)
        ensures
            r@ == toml_text(self),
    {
        let mut s = String::new();
        push_setting_start(&mut s, "palette");
        push_quoted(&mut s, self.palette_mode.as_key());
        s.append("\n");
        let ghost s1 = s@;
        push_setting_start(&mut s, "hide_windows_taskbar");
        push_bool(&mut s, self.hide_windows_taskbar);
        s.append("\n");
        let ghost s2 = s@;
        push_setting_start(&mut s, "auto_hide_panels_on_focus_loss");
        push_bool(&mut s, self.auto_hide_panels_on_focus_loss);
        s.append("\n");
        let ghost s3 = s@;
        push_setting_start(&mut s, "flyout_animation_ms");
        push_decimal(&mut s, self.flyout_animation_ms);
        s.append("\n");
        let ghost s4 = s@;
        push_setting_start(&mut s, "launch_on_startup");
        push_bool(&mut s, self.launch_on_startup);
        s.append("\n");
        let ghost s5 = s@;
        push_setting_start(&mut s, "startup_mode");
        push_quoted(&mut s, self.startup_mode.as_key());
        s.append("\n");
        proof {
            let c = self;
            assert(s1 =~= setting_line("palette"@, quoted(palette_key(c.palette_mode))));
            assert(s2 =~= s1 + setting_line("hide_windows_taskbar"@, bool_text(c.hide_windows_taskbar)));
            assert(s3 =~= s2 + setting_line(
                "auto_hide_panels_on_focus_loss"@,
                bool_text(c.auto_hide_panels_on_focus_loss),
            ));
            assert(s4 =~= s3 + setting_line("flyout_animation_ms"@, decimal(c.flyout_animation_ms as nat)));
            assert(s5 =~= s4 + setting_line("launch_on_startup"@, bool_text(c.launch_on_startup)));
            assert(s@ =~= s5 + setting_line("startup_mode"@, quoted(startup_key(c.startup_mode))));
        }
        s
    }
}

// ---------------------------------------------------------------------------
// Values
// ---------------------------------------------------------------------------

/// An exec result whose error text is `String`, against a spec result whose error is
/// the text itself.
pub open spec fn same_result<T>(r: Result<T, String>, s: Result<T, Seq<char>>) -> bool {
    match (r, s) {
        (Ok(a), Ok(b)) => a == b,
        (Err(e), Err(m)) => e@ == m,
        _ => false,
    }
}

pub open spec fn spec_parse_palette_mode(value: Seq<char>) -> Result<PaletteMode, Seq<char>> {
    let v = clean_value(value);
    if v == "balanced"@ {
        Ok(PaletteMode::Balanced)
    } else if v == "vibrant"@ {
        Ok(PaletteMode::Vibrant)
    } else if v == "contrast"@ {
        Ok(PaletteMode::Contrast)
    } else if v == "center"@ || v == "center_bias"@ {
        Ok(PaletteMode::Center)
    } else {
        Err(
            "Unknown palette mode '"@ + v
                + "' in rebar.toml. Expected balanced, vibrant, contrast, or center."@,
        )
    }
}

pub open spec fn spec_parse_bool(value: Seq<char>) -> Result<bool, Seq<char>> {
    let v = clean_value(value);
    if v == "true"@ || v == "1"@ || v == "yes"@ || v == "on"@ {
        Ok(true)
    } else if v == "false"@ || v == "0"@ || v == "no"@ || v == "off"@ {
        Ok(false)
    } else {
        Err("Unknown boolean value '"@ + v + "' in rebar.toml. Expected true or false."@)
    }
}

pub open spec fn spec_parse_startup_mode(value: Seq<char>) -> Result<StartupMode, Seq<char>> {
    let v = clean_value(value);
    if v == "foreground"@ || v == "normal"@ {
        Ok(StartupMode::Foreground)
    } else if v == "background"@ {
        Ok(StartupMode::Background)
    } else {
        Err(
            "Unknown startup mode '"@ + v
                + "' in rebar.toml. Expected foreground or background."@,
        )
    }
}

/// Why an unsigned integer failed to parse, as `u64::from_str` reports it.
#[derive(Debug, Clone, Copy, PartialEq, Eq, Structural)]
pub enum IntErrorKind {
    Empty,
    InvalidDigit,
    PosOverflow,
}

/// The text of `ParseIntError`'s `Display` for each kind.
pub open spec fn int_error_text(kind: IntErrorKind) -> Seq<char> {
    match kind {
        IntErrorKind::Empty => "cannot parse integer from empty string"@,
        IntErrorKind::InvalidDigit => "invalid digit found in string"@,
        IntErrorKind::PosOverflow => "number too large to fit in target type"@,
    }
}

pub open spec fn is_digit(c: char) -> bool {
    '0' <= c <= '9'
}

pub open spec fn digit_value(c: char) -> nat {
    (c as u32 - '0' as u32) as nat
}

/// Reads the decimal digits `d` after `acc` has been read, left to right: the first
/// character that is not a digit is an `InvalidDigit`, and a value past `u64::MAX` is a
/// `PosOverflow`, whichever comes first.
pub open spec fn digits_from(acc: nat, d: Seq<char>) -> Result<u64, IntErrorKind>
    decreases d.len(),
{
    if d.len() == 0 {
        Ok(acc as u64)
    } else if !is_digit(d[0]) {
        Err(IntErrorKind::InvalidDigit)
    } else if acc * 10 + digit_value(d[0]) > u64::MAX {
        Err(IntErrorKind::PosOverflow)
    } else {
        digits_from(acc * 10 + digit_value(d[0]), d.drop_first())
    }
}

/// `u64::from_str`: an optional leading `+`, then at least one decimal digit.
pub open spec fn spec_u64_from_str(s: Seq<char>) -> Result<u64, IntErrorKind> {
    if s.len() == 0 {
        Err(IntErrorKind::Empty)
    } else if s.len() == 1 && (s[0] == '+' || s[0] == '-') {
        Err(IntErrorKind::InvalidDigit)
    } else if s[0] == '+' {
        digits_from(0, s.drop_first())
    } else {
        digits_from(0, s)
    }
}

pub open spec fn spec_parse_u64(value: Seq<char>, key: Seq<char>) -> Result<u64, Seq<char>> {
    let v = clean_value(value);
    match spec_u64_from_str(v) {
        Ok(n) => Ok(n),
        Err(kind) => Err(
            "Invalid integer value '"@ + v + "' for "@ + key + " in rebar.toml: "@
                + int_error_text(kind),
        ),
    }
}

fn error_with_value(prefix: &str, v: &Vec<char>, lo: usize, hi: usize, suffix: &str) -> (s: String)
    requires
        lo <= hi <= v.len(),
    ensures
        s@ == prefix@ + v@.subrange(lo as int, hi as int) + suffix@,
{
    let mut s = String::new();
    s.append(prefix);
    push_range(&mut s, v, lo, hi);
    s.append(suffix);
    s
}

pub fn parse_palette_mode_range(v: &Vec<char>, lo: usize, hi: usize) -> (r: Result<
    PaletteMode,
    String,
>)
    requires
        lo <= hi <= v.len(),
    ensures
        same_result(r, spec_parse_palette_mode(v@.subrange(lo as int, hi as int))),
{
    let (a, b) = clean_range(v, lo, hi);
    if range_eq(v, a, b, "balanced") {
        Ok(PaletteMode::Balanced)
    } else if range_eq(v, a, b, "vibrant") {
        Ok(PaletteMode::Vibrant)
    } else if range_eq(v, a, b, "contrast") {
        Ok(PaletteMode::Contrast)
    } else if range_eq(v, a, b, "center") || range_eq(v, a, b, "center_bias") {
        Ok(PaletteMode::Center)
    } else {
        Err(
            error_with_value(
                "Unknown palette mode '",
                v,
                a,
                b,
                "' in rebar.toml. Expected balanced, vibrant, contrast, or center.",
            ),
        )
    }
}

pub fn parse_bool_range(v: &Vec<char>, lo: usize, hi: usize) -> (r: Result<bool, String>)
    requires
        lo <= hi <= v.len(),
    ensures
        same_result(r, spec_parse_bool(v@.subrange(lo as int, hi as int))),
{
    let (a, b) = clean_range(v, lo, hi);
    if range_eq(v, a, b, "true") || range_eq(v, a, b, "1") || range_eq(v, a, b, "yes")
        || range_eq(v, a, b, "on") {
        Ok(true)
    } else if range_eq(v, a, b, "false") || range_eq(v, a, b, "0") || range_eq(v, a, b, "no")
        || range_eq(v, a, b, "off") {
        Ok(false)
    } else {
        Err(
            error_with_value(
                "Unknown boolean value '",
                v,
                a,
                b,
                "' in rebar.toml. Expected true or false.",
            ),
        )
    }
}

pub fn parse_startup_mode_range(v: &Vec<char>, lo: usize, hi: usize) -> (r: Result<
    StartupMode,
    String,
>)
    requires
        lo <= hi <= v.len(),
    ensures
        same_result(r, spec_parse_startup_mode(v@.subrange(lo as int, hi as int))),
{
    let (a, b) = clean_range(v, lo, hi);
    if range_eq(v, a, b, "foreground") || range_eq(v, a, b, "normal") {
        Ok(StartupMode::Foreground)
    } else if range_eq(v, a, b, "background") {
        Ok(StartupMode::Background)
    } else {
        Err(
            error_with_value(
                "Unknown startup mode '",
                v,
                a,
                b,
                "' in rebar.toml. Expected foreground or background.",
            ),
        )
    }
}

fn digit_of(c: char) -> (r: Option<u64>)
    ensures
        match r {
            Some(d) => is_digit(c) && d == digit_value(c),
            None => !is_digit(c),
        },
{
    if '0' <= c && c <= '9' {
        Some((c as u32 - '0' as u32) as u64)
    } else {
        None
    }
}

/// `u64::from_str` on `v[lo..hi]`.
pub fn u64_from_range(v: &Vec<char>, lo: usize, hi: usize) -> (r: Result<u64, IntErrorKind>)
    requires
        lo <= hi <= v.len(),
    ensures
        r == spec_u64_from_str(v@.subrange(lo as int, hi as int)),
{
    let ghost s = v@.subrange(lo as int, hi as int);
    if lo == hi {
        return Err(IntErrorKind::Empty);
    }
    if hi - lo == 1 && (v[lo] == '+' || v[lo] == '-') {
        return Err(IntErrorKind::InvalidDigit);
    }
    let mut i = if v[lo] == '+' {
        lo + 1
    } else {
        lo
    };
    assert(v@.subrange(i as int, hi as int) == (if s[0] == '+' {
        s.drop_first()
    } else {
        s
    }));
    let mut acc: u64 = 0;
    while i < hi
        invariant
            lo <= i <= hi <= v.len(),
            spec_u64_from_str(s) == digits_from(acc as nat, v@.subrange(i as int, hi as int)),
            s == v@.subrange(lo as int, hi as int),
            s.len() > 0,
            !(s.len() == 1 && (s[0] == '+' || s[0] == '-')),
        decreases hi - i,
    {
        let ghost d = v@.subrange(i as int, hi as int);
        assert(d.drop_first() =~= v@.subrange(i + 1, hi as int));
        match digit_of(v[i]) {
            None => {
                return Err(IntErrorKind::InvalidDigit);
            },
            Some(x) => {
                if acc > (u64::MAX - x) / 10 {
                    assert(acc * 10 + x > u64::MAX) by (nonlinear_arith)
                        requires
                            acc > (u64::MAX - x) / 10,
                            x <= 9,
                    ;
                    return Err(IntErrorKind::PosOverflow);
                }
                assert(acc * 10 + x <= u64::MAX) by (nonlinear_arith)
                    requires
                        acc <= (u64::MAX - x) / 10,
                        x <= 9,
                ;
                acc = acc * 10 + x;
            },
        }
        i = i + 1;
    }
    assert(v@.subrange(i as int, hi as int).len() == 0);
    Ok(acc)
}

fn push_int_error(s: &mut String, kind: IntErrorKind)
    ensures
        final(s)@ == old(s)@ + int_error_text(kind),
{
    match kind {
        IntErrorKind::Empty => s.append("cannot parse integer from empty string"),
        IntErrorKind::InvalidDigit => s.append("invalid digit found in string"),
        IntErrorKind::PosOverflow => s.append("number too large to fit in target type"),
    }
}

pub fn parse_u64_range(v: &Vec<char>, lo: usize, hi: usize, key: &str) -> (r: Result<
    u64,
    String,
>)
    requires
        lo <= hi <= v.len(),
    ensures
        same_result(r, spec_parse_u64(v@.subrange(lo as int, hi as int), key@)),
{
    let (a, b) = clean_range(v, lo, hi);
    match u64_from_range(v, a, b) {
        Ok(n) => Ok(n),
        Err(kind) => {
            let mut s = String::new();
            s.append("Invalid integer value '");
            push_range(&mut s, v, a, b);
            s.append("' for ");
            s.append(key);
            s.append(" in rebar.toml: ");
            push_int_error(&mut s, kind);
            Err(s)
        },
    }
}

/// Reads a palette mode; quotes and surrounding white space are ignored, and
/// `center_bias` is another name for `center`.
pub fn parse_palette_mode(value: &str) -> (r: Result<PaletteMode, String>)
    ensures
        same_result(r, spec_parse_palette_mode(value@)),
{
    let v = chars_of(value);
    assert(v@.subrange(0, v@.len() as int) =~= v@);
    parse_palette_mode_range(&v, 0, v.len())
}

/// Reads a boolean: `true`, `1`, `yes`, `on` or `false`, `0`, `no`, `off`.
pub fn parse_bool(value: &str) -> (r: Result<bool, String>)
    ensures
        same_result(r, spec_parse_bool(value@)),
{
    let v = chars_of(value);
    assert(v@.subrange(0, v@.len() as int) =~= v@);
    parse_bool_range(&v, 0, v.len())
}

/// Reads a startup mode; `normal` is another name for `foreground`.
pub fn parse_startup_mode(value: &str) -> (r: Result<StartupMode, String>)
    ensures
        same_result(r, spec_parse_startup_mode(value@)),
{
    let v = chars_of(value);
    assert(v@.subrange(0, v@.len() as int) =~= v@);
    parse_startup_mode_range(&v, 0, v.len())
}

/// Reads an unsigned integer for the setting `key`.
pub fn parse_u64(value: &str, key: &str) -> (r: Result<u64, String>)
    ensures
        same_result(r, spec_parse_u64(value@, key@)),
{
    let v = chars_of(value);
    assert(v@.subrange(0, v@.len() as int) =~= v@);
    parse_u64_range(&v, 0, v.len(), key)
}

// ---------------------------------------------------------------------------
// The config file
// ---------------------------------------------------------------------------

/// The lines of `s`: the pieces between `'\n'` characters, the last one included even
/// when empty.
pub open spec fn split_lines(s: Seq<char>) -> Seq<Seq<char>>
    decreases s.len(),
{
    match find_char(s, '\n') {
        Some(i) => {
            proof {
                lemma_find_char_bounds(s, '\n');
            }
            seq![s.take(i)] + split_lines(s.skip(i + 1))
        },
        None => seq![s],
    }
}

pub proof fn lemma_find_char_bounds(s: Seq<char>, c: char)
    ensures
        find_char(s, c) matches Some(i) ==> 0 <= i < s.len() && s[i] == c,
    decreases s.len(),
{
    if s.len() > 0 && s[0] != c {
        lemma_find_char_bounds(s.drop_first(), c);
    }
}

/// Applies one line of the file to `c`: blank lines, `#` comments, lines without `=`
/// and unknown keys leave it unchanged; a known key whose value does not parse is an
/// error.
pub open spec fn apply_line(c: AppConfig, raw: Seq<char>) -> Result<AppConfig, Seq<char>> {
    let line = trim(raw);
    if line.len() == 0 || line[0] == '#' {
        Ok(c)
    } else {
        match find_char(line, '=') {
            None => Ok(c),
            Some(i) => {
                let key = trim(line.take(i));
                let value = trim(line.skip(i + 1));
                if key == "palette"@ {
                    match spec_parse_palette_mode(value) {
                        Ok(m) => Ok(AppConfig { palette_mode: m, ..c }),
                        Err(e) => Err(e),
                    }
                } else if key == "hide_windows_taskbar"@ {
                    match spec_parse_bool(value) {
                        Ok(b) => Ok(AppConfig { hide_windows_taskbar: b, ..c }),
                        Err(e) => Err(e),
                    }
                } else if key == "auto_hide_panels_on_focus_loss"@ {
                    match spec_parse_bool(value) {
                        Ok(b) => Ok(AppConfig { auto_hide_panels_on_focus_loss: b, ..c }),
                        Err(e) => Err(e),
                    }
                } else if key == "flyout_animation_ms"@ {
                    match spec_parse_u64(value, "flyout_animation_ms"@) {
                        Ok(n) => Ok(AppConfig { flyout_animation_ms: n, ..c }),
                        Err(e) => Err(e),
                    }
                } else if key == "launch_on_startup"@ {
                    match spec_parse_bool(value) {
                        Ok(b) => Ok(AppConfig { launch_on_startup: b, ..c }),
                        Err(e) => Err(e),
                    }
                } else if key == "startup_mode"@ {
                    match spec_parse_startup_mode(value) {
                        Ok(m) => Ok(AppConfig { startup_mode: m, ..c }),
                        Err(e) => Err(e),
                    }
                } else {
                    Ok(c)
                }
            },
        }
    }
}

/// Applies the lines in order, stopping at the first error.
pub open spec fn apply_lines(lines: Seq<Seq<char>>, c: AppConfig) -> Result<AppConfig, Seq<char>>
    decreases lines.len(),
{
    if lines.len() == 0 {
        Ok(c)
    } else {
        match apply_line(c, lines[0]) {
            Ok(next) => apply_lines(lines.drop_first(), next),
            Err(e) => Err(e),
        }
    }
}

/// The settings that the file `text` gives, starting from the defaults.
pub open spec fn spec_from_toml(text: Seq<char>) -> Result<AppConfig, Seq<char>> {
    apply_lines(split_lines(text), default_config())
}

fn apply_line_range(v: &Vec<char>, lo: usize, hi: usize, c: AppConfig) -> (r: Result<
    AppConfig,
    String,
>)
    requires
        lo <= hi <= v.len(),
    ensures
        same_result(r, apply_line(c, v@.subrange(lo as int, hi as int))),
{
    let (a, b) = trim_range(v, lo, hi, true, ' ');
    let ghost line = v@.subrange(a as int, b as int);
    if a == b || v[a] == '#' {
        return Ok(c);
    }
    assert(line[0] == v@[a as int]);
    match find_char_range(v, a, b, '=') {
        None => Ok(c),
        Some(i) => {
            assert(line.take(i - a) =~= v@.subrange(a as int, i as int));
            assert(line.skip(i - a + 1) =~= v@.subrange(i + 1, b as int));
            let (ka, kb) = trim_range(v, a, i, true, ' ');
            let (va, vb) = trim_range(v, i + 1, b, true, ' ');
            if range_eq(v, ka, kb, "palette") {
                match parse_palette_mode_range(v, va, vb) {
                    Ok(m) => Ok(AppConfig { palette_mode: m, ..c }),
                    Err(e) => Err(e),
                }
            } else if range_eq(v, ka, kb, "hide_windows_taskbar") {
                match parse_bool_range(v, va, vb) {
                    Ok(x) => Ok(AppConfig { hide_windows_taskbar: x, ..c }),
                    Err(e) => Err(e),
                }
            } else if range_eq(v, ka, kb, "auto_hide_panels_on_focus_loss") {
                match parse_bool_range(v, va, vb) {
                    Ok(x) => Ok(AppConfig { auto_hide_panels_on_focus_loss: x, ..c }),
                    Err(e) => Err(e),
                }
            } else if range_eq(v, ka, kb, "flyout_animation_ms") {
                match parse_u64_range(v, va, vb, "flyout_animation_ms") {
                    Ok(n) => Ok(AppConfig { flyout_animation_ms: n, ..c }),
                    Err(e) => Err(e),
                }
            } else if range_eq(v, ka, kb, "launch_on_startup") {
                match parse_bool_range(v, va, vb) {
                    Ok(x) => Ok(AppConfig { launch_on_startup: x, ..c }),
                    Err(e) => Err(e),
                }
            } else if range_eq(v, ka, kb, "startup_mode") {
                match parse_startup_mode_range(v, va, vb) {
                    Ok(m) => Ok(AppConfig { startup_mode: m, ..c }),
                    Err(e) => Err(e),
                }
            } else {
                Ok(c)
            }
        },
    }
}

impl AppConfig {
    /// Reads the settings from the text of a config file, one `key = value` per line;
    /// keys that do not occur keep their defaults.
    pub fn from_toml(contents: &str) -> (r: Result<AppConfig, String>)
        ensures
            same_result(r, spec_from_toml(contents@)),
    {
        let v = chars_of(contents);
        let mut config = AppConfig::default();
        let mut start: usize = 0;
        assert(v@.skip(0) =~= v@);
        loop
            invariant
                start <= v.len(),
                v@ == contents@,
                spec_from_toml(v@) == apply_lines(split_lines(v@.skip(start as int)), config),
            decreases v.len() - start,
        {
            let ghost rest = v@.skip(start as int);
            assert(rest =~= v@.subrange(start as int, v.len() as int));
            let found = find_char_range(&v, start, v.len(), '\n');
            let end = match found {
                Some(e) => e,
                None => v.len(),
            };
            proof {
                if let Some(e) = found {
                    assert(rest.take(e - start) =~= v@.subrange(start as int, e as int));
                    assert(rest.skip(e - start + 1) =~= v@.skip(e + 1));
                    assert(split_lines(rest) == seq![rest.take(e - start)] + split_lines(
                        rest.skip(e - start + 1),
                    ));
                    assert((seq![rest.take(e - start)] + split_lines(rest.skip(e - start + 1))).drop_first() =~= split_lines(rest.skip(e - start + 1)));
                } else {
                    assert(split_lines(rest) == seq![rest]);
                    assert(seq![rest].drop_first() =~= Seq::<Seq<char>>::empty());
                }
            }
            let ghost lines = split_lines(rest);
            assert(lines.len() >= 1 && lines[0] == v@.subrange(start as int, end as int)) by {
                if let Some(e) = found {
                    assert((seq![rest.take(e - start)] + split_lines(rest.skip(e - start + 1)))[0]
                        == rest.take(e - start));
                }
            }
            let ghost old_config = config;
            match apply_line_range(&v, start, end, config) {
                Ok(next) => {
                    config = next;
                },
                Err(e) => {
                    assert(apply_lines(lines, old_config) == Err::<AppConfig, Seq<char>>(e@));
                    return Err(e);
                },
            }
            assert(apply_lines(lines, old_config) == apply_lines(lines.drop_first(), config));
            match found {
                None => {
                    return Ok(config);
                },
                Some(e) => {
                    start = e + 1;
                },
            }
        }
    }
}

// ---------------------------------------------------------------------------
// Reading back what was written
// ---------------------------------------------------------------------------

proof fn lemma_split_lines_cons(a: Seq<char>, rest: Seq<char>)
    requires
        forall|i: int| 0 <= i < a.len() ==> #[trigger] a[i] != '\n',
    ensures
        split_lines(a + seq!['\n'] + rest) == seq![a] + split_lines(rest),
{
    let s = a + seq!['\n'] + rest;
    assert forall|i: int| 0 <= i < a.len() implies #[trigger] s[i] != '\n' by {
        assert(s[i] == a[i]);
    }
    assert(s[a.len() as int] == '\n');
    lemma_find_char(s, '\n', a.len() as int);
    assert(s.take(a.len() as int) =~= a);
    assert(s.skip(a.len() + 1 as int) =~= rest);
}

proof fn lemma_trim_noop(s: Seq<char>, ws: bool, c: char)
    requires
        s.len() > 0,
        !trims(s[0], ws, c),
        !trims(s.last(), ws, c),
    ensures
        trim_end_by(trim_start_by(s, ws, c), ws, c) == s,
{
    crate::text::lemma_trim_start_at(s, 0, ws, c);
    assert(s.subrange(0, s.len() as int) =~= s);
    crate::text::lemma_trim_end_at(s, s.len() as int, ws, c);
}

/// A value that needs no cleaning: its ends are neither white space nor quotes.
pub open spec fn plain_ends(s: Seq<char>) -> bool {
    &&& s.len() > 0
    &&& !is_white_space(s[0]) && s[0] != '"' && s[0] != '\''
    &&& !is_white_space(s.last()) && s.last() != '"' && s.last() != '\''
}

proof fn lemma_clean_plain(s: Seq<char>)
    requires
        plain_ends(s),
    ensures
        trim(s) == s,
        clean_value(s) == s,
{
    lemma_trim_noop(s, true, ' ');
    lemma_trim_noop(s, false, '"');
    lemma_trim_noop(s, false, '\'');
}

proof fn lemma_clean_quoted(k: Seq<char>)
    requires
        plain_ends(k),
    ensures
        trim(quoted(k)) == quoted(k),
        clean_value(quoted(k)) == k,
{
    let q = quoted(k);
    assert(q[0] == '"');
    assert(q.last() == '"');
    lemma_trim_noop(q, true, ' ');
    crate::text::lemma_trim_start_at(q, 1, false, '"');
    let t = q.subrange(1, q.len() as int);
    assert(t =~= k + seq!['"']);
    crate::text::lemma_trim_end_at(t, k.len() as int, false, '"');
    assert(t.subrange(0, k.len() as int) =~= k);
    lemma_trim_noop(k, false, '\'');
}

proof fn lemma_decimal_digits(n: nat)
    ensures
        decimal(n).len() >= 1,
        forall|i: int| 0 <= i < decimal(n).len() ==> is_digit(#[trigger] decimal(n)[i]),
    decreases n,
{
    if n >= 10 {
        lemma_decimal_digits(n / 10);
        let d = decimal(n / 10);
        assert forall|i: int| 0 <= i < decimal(n).len() implies is_digit(
            #[trigger] decimal(n)[i],
        ) by {
            if i < d.len() {
                assert(decimal(n)[i] == d[i]);
            }
        }
    }
}

proof fn lemma_digits_push(acc: nat, s: Seq<char>, ch: char)
    requires
        acc <= u64::MAX,
    ensures
        digits_from(acc, s.push(ch)) == match digits_from(acc, s) {
            Ok(x) => if !is_digit(ch) {
                Err(IntErrorKind::InvalidDigit)
            } else if x * 10 + digit_value(ch) > u64::MAX {
                Err(IntErrorKind::PosOverflow)
            } else {
                Ok((x * 10 + digit_value(ch)) as u64)
            },
            Err(e) => Err(e),
        },
    decreases s.len(),
{
    if s.len() == 0 {
        assert(s.push(ch).drop_first() =~= Seq::<char>::empty());
        assert(s.push(ch)[0] == ch);
        if is_digit(ch) && acc * 10 + digit_value(ch) <= u64::MAX {
            assert(digits_from(acc * 10 + digit_value(ch), Seq::<char>::empty()) == Ok::<
                u64,
                IntErrorKind,
            >((acc * 10 + digit_value(ch)) as u64));
        }
        assert(digits_from(acc, s) == Ok::<u64, IntErrorKind>(acc as u64));
    } else {
        assert(s.push(ch).drop_first() =~= s.drop_first().push(ch));
        assert(s.push(ch)[0] == s[0]);
        if is_digit(s[0]) && acc * 10 + digit_value(s[0]) <= u64::MAX {
            lemma_digits_push(acc * 10 + digit_value(s[0]), s.drop_first(), ch);
        }
    }
}

proof fn lemma_decimal_parse(n: u64)
    ensures
        digits_from(0, decimal(n as nat)) == Ok::<u64, IntErrorKind>(n),
    decreases n,
{
    let d = (n % 10) as nat;
    if n < 10 {
        assert(decimal(n as nat) == seq![crate::text::digit_char(n as nat)]);
        assert(seq![crate::text::digit_char(n as nat)] =~= Seq::<char>::empty().push(
            crate::text::digit_char(n as nat),
        ));
        lemma_digits_push(0, Seq::empty(), crate::text::digit_char(n as nat));
    } else {
        lemma_decimal_parse(n / 10);
        lemma_digits_push(0, decimal((n / 10) as nat), crate::text::digit_char(d));
        assert((n / 10) as nat * 10 + d == n);
    }
}

proof fn lemma_decimal_value(n: u64)
    ensures
        plain_ends(decimal(n as nat)),
        clean_value(decimal(n as nat)) == decimal(n as nat),
        spec_u64_from_str(decimal(n as nat)) == Ok::<u64, IntErrorKind>(n),
{
    let s = decimal(n as nat);
    lemma_decimal_digits(n as nat);
    assert(is_digit(s[0]));
    assert(is_digit(s.last()));
    lemma_clean_plain(s);
    lemma_decimal_parse(n);
}

/// The facts about one line `key = value` that reading it relies on.
proof fn lemma_setting_line(key: Seq<char>, value: Seq<char>)
    requires
        plain_ends(key),
        key[0] != '#',
        forall|i: int| 0 <= i < key.len() ==> #[trigger] key[i] != '=',
        value.len() > 0,
        !is_white_space(value[0]),
        !is_white_space(value.last()),
    ensures
        ({
            let line = key + " = "@ + value;
            &&& trim(line) == line
            &&& line.len() > 0 && line[0] != '#'
            &&& find_char(line, '=') == Some(key.len() as int + 1)
            &&& trim(line.take(key.len() as int + 1)) == key
            &&& trim(line.skip(key.len() as int + 2)) == value
        }),
{
    reveal_strlit(" = ");
    let line = key + " = "@ + value;
    assert(line[0] == key[0]);
    assert(line.last() == value.last());
    lemma_trim_noop(line, true, ' ');
    assert forall|i: int| 0 <= i < key.len() as int + 1 implies #[trigger] line[i] != '=' by {
        if i < key.len() {
            assert(line[i] == key[i]);
        } else {
            assert(line[i] == ' ');
        }
    }
    assert(line[key.len() as int + 1] == '=');
    lemma_find_char(line, '=', key.len() as int + 1);
    let k = line.take(key.len() as int + 1);
    assert(k =~= key.push(' '));
    crate::text::lemma_trim_start_at(k, 0, true, ' ');
    assert(k.subrange(0, k.len() as int) =~= k);
    crate::text::lemma_trim_end_at(k, key.len() as int, true, ' ');
    assert(k.subrange(0, key.len() as int) =~= key);
    let v = line.skip(key.len() as int + 2);
    assert(v =~= seq![' '] + value);
    crate::text::lemma_trim_start_at(v, 1, true, ' ');
    assert(v.subrange(1, v.len() as int) =~= value);
    lemma_trim_noop(value, true, ' ');
}

proof fn lemma_no_newline(key: Seq<char>, value: Seq<char>)
    requires
        forall|i: int| 0 <= i < key.len() ==> #[trigger] key[i] != '\n',
        forall|i: int| 0 <= i < value.len() ==> #[trigger] value[i] != '\n',
    ensures
        forall|i: int|
            0 <= i < (key + " = "@ + value).len() ==> #[trigger] (key + " = "@ + value)[i]
                != '\n',
{
    reveal_strlit(" = ");
    let line = key + " = "@ + value;
    assert forall|i: int| 0 <= i < line.len() implies #[trigger] line[i] != '\n' by {
        if i < key.len() {
            assert(line[i] == key[i]);
        } else if i < key.len() + 3 {
        } else {
            assert(line[i] == value[i - key.len() - 3]);
        }
    }
}

proof fn lemma_bool_value(b: bool)
    ensures
        plain_ends(bool_text(b)),
        forall|i: int| 0 <= i < bool_text(b).len() ==> #[trigger] bool_text(b)[i] != '\n',
        spec_parse_bool(bool_text(b)) == Ok::<bool, Seq<char>>(b),
{
    reveal_strlit("true");
    reveal_strlit("false");
    reveal_strlit("1");
    reveal_strlit("yes");
    reveal_strlit("on");
    lemma_clean_plain(bool_text(b));
    if !b {
        assert("false"@[0] != "true"@[0]);
        assert("false"@[0] != "yes"@[0]);
        assert("false"@[0] != "on"@[0]);
    }
}

proof fn lemma_palette_value(m: PaletteMode)
    ensures
        plain_ends(palette_key(m)),
        forall|i: int| 0 <= i < quoted(palette_key(m)).len() ==> #[trigger] quoted(palette_key(m))[i] != '\n',
        spec_parse_palette_mode(quoted(palette_key(m))) == Ok::<PaletteMode, Seq<char>>(m),
{
    reveal_strlit("balanced");
    reveal_strlit("vibrant");
    reveal_strlit("contrast");
    reveal_strlit("center");
    let k = palette_key(m);
    lemma_clean_quoted(k);
    let q = quoted(k);
    assert forall|i: int| 0 <= i < q.len() implies #[trigger] q[i] != '\n' by {
        if 0 < i < q.len() - 1 {
            assert(q[i] == k[i - 1]);
        }
    }
    if m == PaletteMode::Contrast {
        assert("contrast"@[0] != "balanced"@[0]);
    }
    if m == PaletteMode::Center {
        assert("center"@[0] != "balanced"@[0]);
        assert("center"@[1] != "contrast"@[1]);
    }
}

proof fn lemma_startup_value(m: StartupMode)
    ensures
        plain_ends(startup_key(m)),
        forall|i: int| 0 <= i < quoted(startup_key(m)).len() ==> #[trigger] quoted(startup_key(m))[i] != '\n',
        spec_parse_startup_mode(quoted(startup_key(m))) == Ok::<StartupMode, Seq<char>>(m),
{
    reveal_strlit("foreground");
    reveal_strlit("normal");
    reveal_strlit("background");
    let k = startup_key(m);
    lemma_clean_quoted(k);
    let q = quoted(k);
    assert forall|i: int| 0 <= i < q.len() implies #[trigger] q[i] != '\n' by {
        if 0 < i < q.len() - 1 {
            assert(q[i] == k[i - 1]);
        }
    }
    if m == StartupMode::Background {
        assert("background"@[0] != "foreground"@[0]);
    }
}

proof fn lemma_key_facts()
    ensures
        plain_ends("palette"@),
        plain_ends("hide_windows_taskbar"@),
        plain_ends("auto_hide_panels_on_focus_loss"@),
        plain_ends("flyout_animation_ms"@),
        plain_ends("launch_on_startup"@),
        plain_ends("startup_mode"@),
        "palette"@[0] != '#',
        "hide_windows_taskbar"@[0] != '#',
        "auto_hide_panels_on_focus_loss"@[0] != '#',
        "flyout_animation_ms"@[0] != '#',
        "launch_on_startup"@[0] != '#',
        "startup_mode"@[0] != '#',
        forall|i: int| 0 <= i < "palette"@.len() ==> #[trigger] "palette"@[i] != '=' && "palette"@[i] != '\n',
        forall|i: int| 0 <= i < "hide_windows_taskbar"@.len() ==> #[trigger] "hide_windows_taskbar"@[i] != '=' && "hide_windows_taskbar"@[i] != '\n',
        forall|i: int| 0 <= i < "auto_hide_panels_on_focus_loss"@.len() ==> #[trigger] "auto_hide_panels_on_focus_loss"@[i] != '=' && "auto_hide_panels_on_focus_loss"@[i] != '\n',
        forall|i: int| 0 <= i < "flyout_animation_ms"@.len() ==> #[trigger] "flyout_animation_ms"@[i] != '=' && "flyout_animation_ms"@[i] != '\n',
        forall|i: int| 0 <= i < "launch_on_startup"@.len() ==> #[trigger] "launch_on_startup"@[i] != '=' && "launch_on_startup"@[i] != '\n',
        forall|i: int| 0 <= i < "startup_mode"@.len() ==> #[trigger] "startup_mode"@[i] != '=' && "startup_mode"@[i] != '\n',
{
    reveal_strlit("palette");
    reveal_strlit("hide_windows_taskbar");
    reveal_strlit("auto_hide_panels_on_focus_loss");
    reveal_strlit("flyout_animation_ms");
    reveal_strlit("launch_on_startup");
    reveal_strlit("startup_mode");
}

proof fn lemma_keys_distinct()
    ensures
        "palette"@ != "hide_windows_taskbar"@,
        "palette"@ != "auto_hide_panels_on_focus_loss"@,
        "palette"@ != "flyout_animation_ms"@,
        "palette"@ != "launch_on_startup"@,
        "palette"@ != "startup_mode"@,
        "hide_windows_taskbar"@ != "auto_hide_panels_on_focus_loss"@,
        "hide_windows_taskbar"@ != "flyout_animation_ms"@,
        "hide_windows_taskbar"@ != "launch_on_startup"@,
        "hide_windows_taskbar"@ != "startup_mode"@,
        "auto_hide_panels_on_focus_loss"@ != "flyout_animation_ms"@,
        "auto_hide_panels_on_focus_loss"@ != "launch_on_startup"@,
        "auto_hide_panels_on_focus_loss"@ != "startup_mode"@,
        "flyout_animation_ms"@ != "launch_on_startup"@,
        "flyout_animation_ms"@ != "startup_mode"@,
        "launch_on_startup"@ != "startup_mode"@,
{
    reveal_strlit("palette");
    reveal_strlit("hide_windows_taskbar");
    reveal_strlit("auto_hide_panels_on_focus_loss");
    reveal_strlit("flyout_animation_ms");
    reveal_strlit("launch_on_startup");
    reveal_strlit("startup_mode");
    assert("palette"@.len() == 7);
    assert("hide_windows_taskbar"@.len() == 20);
    assert("auto_hide_panels_on_focus_loss"@.len() == 30);
    assert("flyout_animation_ms"@.len() == 19);
    assert("launch_on_startup"@.len() == 17);
    assert("startup_mode"@.len() == 12);
}

/// The line for `key` applied to `c0` reads `value` back.
proof fn lemma_read_line(c0: AppConfig, key: Seq<char>, value: Seq<char>)
    requires
        plain_ends(key),
        key[0] != '#',
        forall|i: int| 0 <= i < key.len() ==> #[trigger] key[i] != '=',
        value.len() > 0,
        !is_white_space(value[0]),
        !is_white_space(value.last()),
    ensures
        ({
            let line = key + " = "@ + value;
            let v = trim(line.skip(key.len() as int + 2));
            &&& v == value
            &&& apply_line(c0, line) == (if key == "palette"@ {
                match spec_parse_palette_mode(v) {
                    Ok(m) => Ok(AppConfig { palette_mode: m, ..c0 }),
                    Err(e) => Err(e),
                }
            } else if key == "hide_windows_taskbar"@ {
                match spec_parse_bool(v) {
                    Ok(b) => Ok(AppConfig { hide_windows_taskbar: b, ..c0 }),
                    Err(e) => Err(e),
                }
            } else if key == "auto_hide_panels_on_focus_loss"@ {
                match spec_parse_bool(v) {
                    Ok(b) => Ok(AppConfig { auto_hide_panels_on_focus_loss: b, ..c0 }),
                    Err(e) => Err(e),
                }
            } else if key == "flyout_animation_ms"@ {
                match spec_parse_u64(v, "flyout_animation_ms"@) {
                    Ok(n) => Ok(AppConfig { flyout_animation_ms: n, ..c0 }),
                    Err(e) => Err(e),
                }
            } else if key == "launch_on_startup"@ {
                match spec_parse_bool(v) {
                    Ok(b) => Ok(AppConfig { launch_on_startup: b, ..c0 }),
                    Err(e) => Err(e),
                }
            } else if key == "startup_mode"@ {
                match spec_parse_startup_mode(v) {
                    Ok(m) => Ok(AppConfig { startup_mode: m, ..c0 }),
                    Err(e) => Err(e),
                }
            } else {
                Ok(c0)
            })
        }),
{
    lemma_setting_line(key, value);
}

/// The lines of the file that `to_toml` writes, without their `'\n'`.
pub open spec fn toml_lines(c: AppConfig) -> Seq<Seq<char>> {
    seq![
        "palette"@ + " = "@ + quoted(palette_key(c.palette_mode)),
        "hide_windows_taskbar"@ + " = "@ + bool_text(c.hide_windows_taskbar),
        "auto_hide_panels_on_focus_loss"@ + " = "@ + bool_text(c.auto_hide_panels_on_focus_loss),
        "flyout_animation_ms"@ + " = "@ + decimal(c.flyout_animation_ms as nat),
        "launch_on_startup"@ + " = "@ + bool_text(c.launch_on_startup),
        "startup_mode"@ + " = "@ + quoted(startup_key(c.startup_mode)),
    ]
}

proof fn lemma_toml_split(c: AppConfig)
    ensures
        split_lines(toml_text(c)) == toml_lines(c) + seq![Seq::<char>::empty()],
{
    reveal_strlit("\n");
    lemma_key_facts();
    lemma_palette_value(c.palette_mode);
    lemma_bool_value(c.hide_windows_taskbar);
    lemma_bool_value(c.auto_hide_panels_on_focus_loss);
    lemma_bool_value(c.launch_on_startup);
    lemma_decimal_digits(c.flyout_animation_ms as nat);
    lemma_startup_value(c.startup_mode);
    let ls = toml_lines(c);
    let l1 = ls[0];
    let l2 = ls[1];
    let l3 = ls[2];
    let l4 = ls[3];
    let l5 = ls[4];
    let l6 = ls[5];
    let v4 = decimal(c.flyout_animation_ms as nat);
    let nl = seq!['\n'];
    let e = Seq::<char>::empty();
    assert(toml_text(c) =~= l1 + nl + (l2 + nl + (l3 + nl + (l4 + nl + (l5 + nl + (l6 + nl + e))))));
    assert forall|i: int| 0 <= i < v4.len() implies #[trigger] v4[i] != '\n' by {
        assert(is_digit(v4[i]));
    }
    lemma_no_newline("palette"@, quoted(palette_key(c.palette_mode)));
    lemma_no_newline("hide_windows_taskbar"@, bool_text(c.hide_windows_taskbar));
    lemma_no_newline("auto_hide_panels_on_focus_loss"@, bool_text(c.auto_hide_panels_on_focus_loss));
    lemma_no_newline("flyout_animation_ms"@, v4);
    lemma_no_newline("launch_on_startup"@, bool_text(c.launch_on_startup));
    lemma_no_newline("startup_mode"@, quoted(startup_key(c.startup_mode)));
    lemma_split_lines_cons(l6, e);
    lemma_split_lines_cons(l5, l6 + nl + e);
    lemma_split_lines_cons(l4, l5 + nl + (l6 + nl + e));
    lemma_split_lines_cons(l3, l4 + nl + (l5 + nl + (l6 + nl + e)));
    lemma_split_lines_cons(l2, l3 + nl + (l4 + nl + (l5 + nl + (l6 + nl + e))));
    lemma_split_lines_cons(l1, l2 + nl + (l3 + nl + (l4 + nl + (l5 + nl + (l6 + nl + e)))));
    assert(find_char(e, '\n') == None::<int>);
    assert(split_lines(e) == seq![e]);
    assert(split_lines(toml_text(c)) =~= toml_lines(c) + seq![e]);
}

proof fn lemma_toml_apply(c: AppConfig)
    ensures
        apply_lines(toml_lines(c) + seq![Seq::<char>::empty()], default_config()) == Ok::<
            AppConfig,
            Seq<char>,
        >(c),
{
    lemma_key_facts();
    lemma_keys_distinct();
    lemma_palette_value(c.palette_mode);
    lemma_bool_value(c.hide_windows_taskbar);
    lemma_bool_value(c.auto_hide_panels_on_focus_loss);
    lemma_bool_value(c.launch_on_startup);
    lemma_decimal_value(c.flyout_animation_ms);
    lemma_startup_value(c.startup_mode);
    let ls = toml_lines(c);
    let e = Seq::<char>::empty();
    let c0 = default_config();
    let c1 = AppConfig { palette_mode: c.palette_mode, ..c0 };
    let c2 = AppConfig { hide_windows_taskbar: c.hide_windows_taskbar, ..c1 };
    let c3 = AppConfig { auto_hide_panels_on_focus_loss: c.auto_hide_panels_on_focus_loss, ..c2 };
    let c4 = AppConfig { flyout_animation_ms: c.flyout_animation_ms, ..c3 };
    let c5 = AppConfig { launch_on_startup: c.launch_on_startup, ..c4 };
    let c6 = AppConfig { startup_mode: c.startup_mode, ..c5 };
    assert(c6 == c);
    lemma_read_line(c0, "palette"@, quoted(palette_key(c.palette_mode)));
    assert(apply_line(c0, ls[0]) == Ok::<AppConfig, Seq<char>>(c1));
    lemma_read_line(c1, "hide_windows_taskbar"@, bool_text(c.hide_windows_taskbar));
    assert(apply_line(c1, ls[1]) == Ok::<AppConfig, Seq<char>>(c2));
    lemma_read_line(c2, "auto_hide_panels_on_focus_loss"@, bool_text(c.auto_hide_panels_on_focus_loss));
    assert(apply_line(c2, ls[2]) == Ok::<AppConfig, Seq<char>>(c3));
    lemma_read_line(c3, "flyout_animation_ms"@, decimal(c.flyout_animation_ms as nat));
    assert(apply_line(c3, ls[3]) == Ok::<AppConfig, Seq<char>>(c4));
    lemma_read_line(c4, "launch_on_startup"@, bool_text(c.launch_on_startup));
    assert(apply_line(c4, ls[4]) == Ok::<AppConfig, Seq<char>>(c5));
    lemma_read_line(c5, "startup_mode"@, quoted(startup_key(c.startup_mode)));
    assert(apply_line(c5, ls[5]) == Ok::<AppConfig, Seq<char>>(c6));
    assert(trim(e) =~= e) by {
        assert(trim_start_by(e, true, ' ') == e);
    }
    assert(apply_line(c6, e) == Ok::<AppConfig, Seq<char>>(c6));
    let all = ls + seq![e];
    let n = all.len() as int;
    assert(all.subrange(0, n) =~= all);
    lemma_apply_step(all, 0, c0, c1);
    lemma_apply_step(all, 1, c1, c2);
    lemma_apply_step(all, 2, c2, c3);
    lemma_apply_step(all, 3, c3, c4);
    lemma_apply_step(all, 4, c4, c5);
    lemma_apply_step(all, 5, c5, c6);
    lemma_apply_step(all, 6, c6, c6);
    assert(all.subrange(7, n).len() == 0);
}

proof fn lemma_apply_step(s: Seq<Seq<char>>, k: int, c: AppConfig, n: AppConfig)
    requires
        0 <= k < s.len(),
        apply_line(c, s[k]) == Ok::<AppConfig, Seq<char>>(n),
    ensures
        apply_lines(s.subrange(k, s.len() as int), c) == apply_lines(
            s.subrange(k + 1, s.len() as int),
            n,
        ),
{
    assert(s.subrange(k, s.len() as int)[0] == s[k]);
    assert(s.subrange(k, s.len() as int).drop_first() =~= s.subrange(k + 1, s.len() as int));
}

/// Reading the file that `to_toml` writes gives back the same settings.
pub proof fn lemma_toml_round_trip(c: AppConfig)
    ensures
        spec_from_toml(toml_text(c)) == Ok::<AppConfig, Seq<char>>(c),
{
    lemma_toml_split(c);
    lemma_toml_apply(c);
}

// ---------------------------------------------------------------------------
// Reading a key back
// ---------------------------------------------------------------------------

/// Every character of `s` is white space.
pub open spec fn all_white(s: Seq<char>) -> bool {
    forall|i: int| 0 <= i < s.len() ==> is_white_space(#[trigger] s[i])
}

/// A quote that a value may be wrapped in: a double or a single quote, or none.
pub open spec fn value_quote(quote: Option<char>) -> bool {
    quote is None || quote == Some('"') || quote == Some('\'')
}

/// `k`, wrapped in `quote` when there is one, between `pre` and `post`.
pub open spec fn padded(k: Seq<char>, quote: Option<char>, pre: Seq<char>, post: Seq<char>) -> Seq<char> {
    pre + (match quote {
        Some(q) => seq![q] + k + seq![q],
        None => k,
    }) + post
}

proof fn lemma_clean_single_quoted(k: Seq<char>)
    requires
        plain_ends(k),
    ensures
        trim(seq!['\''] + k + seq!['\'']) == seq!['\''] + k + seq!['\''],
        clean_value(seq!['\''] + k + seq!['\'']) == k,
{
    let q = seq!['\''] + k + seq!['\''];
    assert(q[0] == '\'');
    assert(q.last() == '\'');
    lemma_trim_noop(q, true, ' ');
    lemma_trim_noop(q, false, '"');
    crate::text::lemma_trim_start_at(q, 1, false, '\'');
    let t = q.subrange(1, q.len() as int);
    assert(t =~= k + seq!['\'']);
    crate::text::lemma_trim_end_at(t, k.len() as int, false, '\'');
    assert(t.subrange(0, k.len() as int) =~= k);
}

/// White space around a value, and one pair of quotes inside it, are cleaned away.
pub proof fn lemma_clean_padded(k: Seq<char>, quote: Option<char>, pre: Seq<char>, post: Seq<char>)
    requires
        plain_ends(k),
        value_quote(quote),
        all_white(pre),
        all_white(post),
    ensures
        clean_value(padded(k, quote, pre, post)) == k,
{
    let inner = match quote {
        Some(q) => seq![q] + k + seq![q],
        None => k,
    };
    match quote {
        Some(q) => {
            if q == '"' {
                lemma_clean_quoted(k);
                assert(inner =~= quoted(k));
            } else {
                lemma_clean_single_quoted(k);
            }
        },
        None => {
            lemma_clean_plain(k);
        },
    }
    assert(inner.len() > 0);
    assert(!is_white_space(inner[0]));
    assert(!is_white_space(inner.last()));
    let s = padded(k, quote, pre, post);
    assert(s =~= pre + inner + post);
    assert forall|i: int| 0 <= i < pre.len() implies trims(#[trigger] s[i], true, ' ') by {
        assert(s[i] == pre[i]);
    }
    assert(s[pre.len() as int] == inner[0]);
    crate::text::lemma_trim_start_at(s, pre.len() as int, true, ' ');
    let t = s.subrange(pre.len() as int, s.len() as int);
    assert(t =~= inner + post);
    assert forall|i: int| inner.len() <= i < t.len() implies trims(#[trigger] t[i], true, ' ') by {
        assert(t[i] == post[i - inner.len()]);
    }
    assert(t[inner.len() - 1] == inner.last());
    crate::text::lemma_trim_end_at(t, inner.len() as int, true, ' ');
    assert(t.subrange(0, inner.len() as int) =~= inner);
    assert(trim(s) == inner);
}

/// Reading a palette mode undoes `as_key`, also with white space around the key and
/// with the key in double or single quotes.
pub proof fn lemma_palette_key_read_back(
    m: PaletteMode,
    quote: Option<char>,
    pre: Seq<char>,
    post: Seq<char>,
)
    requires
        value_quote(quote),
        all_white(pre),
        all_white(post),
    ensures
        spec_parse_palette_mode(padded(palette_key(m), quote, pre, post)) == Ok::<
            PaletteMode,
            Seq<char>,
        >(m),
{
    lemma_palette_value(m);
    lemma_clean_quoted(palette_key(m));
    lemma_clean_padded(palette_key(m), quote, pre, post);
}

/// Reading a startup mode undoes `as_key`, also with white space around the key and
/// with the key in double or single quotes.
pub proof fn lemma_startup_key_read_back(
    m: StartupMode,
    quote: Option<char>,
    pre: Seq<char>,
    post: Seq<char>,
)
    requires
        value_quote(quote),
        all_white(pre),
        all_white(post),
    ensures
        spec_parse_startup_mode(padded(startup_key(m), quote, pre, post)) == Ok::<
            StartupMode,
            Seq<char>,
        >(m),
{
    lemma_startup_value(m);
    lemma_clean_quoted(startup_key(m));
    lemma_clean_padded(startup_key(m), quote, pre, post);
}

} // verus!
