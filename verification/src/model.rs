//! Strokes, font names, keyboard chords and the discrete rules of the
//! settings. Floating-point quantities (coordinates, widths, opacities) are
//! carried as the bit patterns of their `f64` values: this library stores and
//! moves them, and the caller checks their numeric ranges.
use vstd::prelude::*;
use crate::text::{
    all_hex, char_is_hex_digit, chars_of, has_control, has_non_space, is_blank, is_control,
    is_hex_digit, owned, same_text, starts_with, string_of,
};

verus! {

/// Longest font family name accepted, in characters.
pub const FONT_NAME_LIMIT: usize = 160;

/// Longest text annotation, in characters.
pub const TEXT_LIMIT: usize = 4096;

/// Most points in one stroke.
pub const POINT_LIMIT: usize = 100_000;

/// Latest timestamp within a stroke, in milliseconds (one hour).
pub const STROKE_TIME_LIMIT: u64 = 3_600_000;

/// A usable font family name: not blank, at most 160 characters and free of
/// control characters.
pub open spec fn font_name_ok(font: Seq<char>) -> bool {
    &&& !is_blank(font)
    &&& font.len() <= FONT_NAME_LIMIT
    &&& forall|i: int| 0 <= i < font.len() ==> !is_control(#[trigger] font[i])
}

/// Whether `font` is a usable font family name.
pub fn valid_font(font: &str) -> (r: bool)
    ensures
        r == font_name_ok(font@),
{
    let cs = chars_of(font);
    has_non_space(&cs) && cs.len() <= FONT_NAME_LIMIT && !has_control(&cs)
}

/// A colour written `#rrggbb`.
pub open spec fn hex_color_ok(c: Seq<char>) -> bool {
    &&& c.len() == 7
    &&& c[0] == '#'
    &&& forall|i: int| 1 <= i < 7 ==> is_hex_digit(#[trigger] c[i])
}

/// Whether `color` is written `#rrggbb`.
pub fn valid_color(color: &str) -> (r: bool)
    ensures
        r == hex_color_ok(color@),
{
    let cs = chars_of(color);
    if cs.len() != 7 || cs[0] != '#' {
        return false;
    }
    let mut i: usize = 1;
    while i < 7
        invariant
            1 <= i <= 7,
            cs@.len() == 7,
            cs@ == color@,
            forall|j: int| 1 <= j < i ==> is_hex_digit(#[trigger] cs@[j]),
        decreases 7 - i,
    {
        if !char_is_hex_digit(cs[i]) {
            assert(!is_hex_digit(cs@[i as int]));
            return false;
        }
        i += 1;
    }
    true
}

/// A point of a stroke; each coordinate is the bit pattern of an `f64` in
/// normalized monitor coordinates.
#[derive(Clone, Copy, Debug)]
pub struct Point {
    pub x: u64,
    pub y: u64,
}

/// The text of a text annotation. `size`, `box_width` and `box_height` are
/// the bit patterns of `f64` values.
#[derive(Clone, Debug)]
pub struct TextData {
    pub content: String,
    pub font: String,
    pub size: u64,
    pub box_width: u64,
    pub box_height: u64,
}

/// The mathematical value of a `TextData`.
pub struct TextView {
    pub content: Seq<char>,
    pub font: Seq<char>,
    pub size: u64,
    pub box_width: u64,
    pub box_height: u64,
}

impl View for TextData {
    type V = TextView;

    open spec fn view(&self) -> TextView {
        TextView {
            content: self.content@,
            font: self.font@,
            size: self.size,
            box_width: self.box_width,
            box_height: self.box_height,
        }
    }
}

/// The textual rules of a text annotation: some visible content of at most
/// 4096 characters, in a usable font.
pub open spec fn text_ok(t: TextView) -> bool {
    &&& !is_blank(t.content)
    &&& t.content.len() <= TEXT_LIMIT
    &&& font_name_ok(t.font)
}

impl TextData {
    /// Checks the textual rules of the annotation; its size and box are
    /// numeric and checked by the caller.
    pub fn valid_text(&self) -> (r: bool)
        ensures
            r == text_ok(self@),
    {
        let cs = chars_of(self.content.as_str());
        has_non_space(&cs) && cs.len() <= TEXT_LIMIT && valid_font(self.font.as_str())
    }

    pub fn duplicate(&self) -> (r: TextData)
        ensures
            r@ == self@,
    {
        TextData {
            content: self.content.clone(),
            font: self.font.clone(),
            size: self.size,
            box_width: self.box_width,
            box_height: self.box_height,
        }
    }
}

/// One annotation: a free-hand stroke, a shape or a text box.
/// `width` and `opacity` are the bit patterns of `f64` values.
#[derive(Clone, Debug)]
pub struct Stroke {
    pub tool: String,
    pub color: String,
    pub width: u64,
    pub opacity: u64,
    pub points: Vec<Point>,
    pub times: Vec<u64>,
    pub text: Option<TextData>,
}

/// The mathematical value of a `Stroke`.
pub struct StrokeView {
    pub tool: Seq<char>,
    pub color: Seq<char>,
    pub width: u64,
    pub opacity: u64,
    pub points: Seq<Point>,
    pub times: Seq<u64>,
    pub text: Option<TextView>,
}

pub open spec fn text_view(t: Option<TextData>) -> Option<TextView> {
    match t {
        Some(t) => Some(t@),
        None => None,
    }
}

impl View for Stroke {
    type V = StrokeView;

    open spec fn view(&self) -> StrokeView {
        StrokeView {
            tool: self.tool@,
            color: self.color@,
            width: self.width,
            opacity: self.opacity,
            points: self.points@,
            times: self.times@,
            text: text_view(self.text),
        }
    }
}

/// The drawing tools a stroke may come from.
pub open spec fn stroke_tool_ok(tool: Seq<char>) -> bool {
    ||| tool == "pen"@
    ||| tool == "marker"@
    ||| tool == "fade"@
    ||| tool == "eraser"@
    ||| tool == "line"@
    ||| tool == "rectangle"@
    ||| tool == "ellipse"@
    ||| tool == "text"@
}

/// Timestamps are optional; when present there is one per point, they never
/// decrease and the last is within an hour.
pub open spec fn times_ok(times: Seq<u64>, points: nat) -> bool {
    ||| times.len() == 0
    ||| {
        &&& times.len() == points
        &&& forall|i: int, j: int| 0 <= i <= j < times.len() ==> times[i] <= times[j]
        &&& times.last() <= STROKE_TIME_LIMIT
    }
}

/// The rules of a stroke apart from its numeric values (width, opacity, the
/// coordinates, the text size and box, and the order of a text box's
/// corners), which the caller checks.
pub open spec fn stroke_shape_ok(s: StrokeView) -> bool {
    &&& stroke_tool_ok(s.tool)
    &&& hex_color_ok(s.color)
    &&& times_ok(s.times, s.points.len())
    &&& s.points.len() > 0
    &&& s.points.len() <= POINT_LIMIT
    &&& if s.tool == "text"@ {
        &&& s.points.len() == 2
        &&& s.text matches Some(t) && text_ok(t)
    } else {
        s.text is None
    }
}

fn times_nondecreasing(times: &Vec<u64>) -> (r: bool)
    ensures
        r == forall|i: int, j: int| 0 <= i <= j < times@.len() ==> times@[i] <= times@[j],
{
    let mut i: usize = 1;
    while i < times.len()
        invariant
            1 <= i,
            i <= times.len() || times.len() == 0,
            forall|a: int, b: int| 0 <= a <= b < i && b < times@.len() ==> times@[a] <= times@[b],
        decreases times.len() - i,
    {
        if times[i - 1] > times[i] {
            return false;
        }
        i += 1;
    }
    true
}

impl Stroke {
    /// Checks the rules of `stroke_shape_ok`.
    pub fn valid_shape(&self) -> (r: bool)
        ensures
            r == stroke_shape_ok(self@),
    {
        let tool = self.tool.as_str();
        let tool_ok = same_text(tool, "pen") || same_text(tool, "marker") || same_text(tool, "fade")
            || same_text(tool, "eraser") || same_text(tool, "line") || same_text(tool, "rectangle")
            || same_text(tool, "ellipse") || same_text(tool, "text");
        if !tool_ok || !valid_color(self.color.as_str()) {
            return false;
        }
        let n = self.times.len();
        let times_fine = n == 0 || (n == self.points.len() && times_nondecreasing(&self.times)
            && self.times[n - 1] <= STROKE_TIME_LIMIT);
        if !times_fine || self.points.len() == 0 || self.points.len() > POINT_LIMIT {
            return false;
        }
        if same_text(tool, "text") {
            self.points.len() == 2 && match &self.text {
                Some(t) => t.valid_text(),
                None => false,
            }
        } else {
            self.text.is_none()
        }
    }

    /// An equal copy of the stroke.
    pub fn duplicate(&self) -> (r: Stroke)
        ensures
            r@ == self@,
    {
        let mut points: Vec<Point> = Vec::new();
        let mut i: usize = 0;
        while i < self.points.len()
            invariant
                i <= self.points.len(),
                points@ == self.points@.take(i as int),
            decreases self.points.len() - i,
        {
            points.push(self.points[i]);
            i += 1;
            assert(points@ =~= self.points@.take(i as int));
        }
        let mut times: Vec<u64> = Vec::new();
        let mut j: usize = 0;
        while j < self.times.len()
            invariant
                j <= self.times.len(),
                times@ == self.times@.take(j as int),
            decreases self.times.len() - j,
        {
            times.push(self.times[j]);
            j += 1;
            assert(times@ =~= self.times@.take(j as int));
        }
        assert(points@ =~= self.points@);
        assert(times@ =~= self.times@);
        let text = match &self.text {
            Some(t) => Some(t.duplicate()),
            None => None,
        };
        Stroke {
            tool: self.tool.clone(),
            color: self.color.clone(),
            width: self.width,
            opacity: self.opacity,
            points,
            times,
            text,
        }
    }

    /// How long the stroke took to draw: its last timestamp, or 0.
    pub fn duration(&self) -> (r: u64)
        ensures
            r == stroke_duration(self@),
    {
        if self.times.len() == 0 {
            0
        } else {
            self.times[self.times.len() - 1]
        }
    }
}

/// How long a stroke took to draw: its last timestamp, or 0 without times.
pub open spec fn stroke_duration(s: StrokeView) -> u64 {
    if s.times.len() == 0 {
        0
    } else {
        s.times.last()
    }
}

// ---------------------------------------------------------------------------
// Keyboard chords and tool shortcuts

/// A tool shortcut: its chord and whether it is on.
#[derive(Clone, Debug)]
pub struct KeyBinding {
    pub key: String,
    pub enabled: bool,
}

/// The tool shortcuts that a fresh profile has, by action, in the order of
/// their action names.
pub open spec fn default_table() -> Seq<(Seq<char>, Seq<char>)> {
    seq![
        ("board"@, "B"@),
        ("capture"@, "Mod+Shift+S"@),
        ("clear"@, "Mod+Shift+Delete"@),
        ("color1"@, "1"@),
        ("color2"@, "2"@),
        ("color3"@, "3"@),
        ("color4"@, "4"@),
        ("color5"@, "5"@),
        ("ellipse"@, "O"@),
        ("eraser"@, "E"@),
        ("fade"@, "F"@),
        ("gif"@, "Mod+Shift+G"@),
        ("line"@, "L"@),
        ("marker"@, "H"@),
        ("mouse"@, "M"@),
        ("pen"@, "P"@),
        ("rectangle"@, "R"@),
        ("redo"@, "Mod+Shift+Z"@),
        ("select"@, "V"@),
        ("thicker"@, "]"@),
        ("thinner"@, "["@),
        ("undo"@, "Mod+Z"@),
        ("visibility"@, "Tab"@),
        ("zoom"@, "Z"@),
        ("zoom_reset"@, "0"@),
    ]
}

/// The bindings of a table, as (action, chord, enabled).
pub open spec fn bindings_view(b: Seq<(String, KeyBinding)>) -> Seq<(Seq<char>, Seq<char>, bool)> {
    b.map_values(|e: (String, KeyBinding)| (e.0@, e.1.key@, e.1.enabled))
}

fn binding(id: &str, key: &str) -> (r: (String, KeyBinding))
    ensures
        r.0@ == id@,
        r.1.key@ == key@,
        r.1.enabled,
{
    (owned(id), KeyBinding { key: owned(key), enabled: true })
}

/// The default tool shortcuts, all enabled, ordered by action name.
pub fn default_bindings() -> (r: Vec<(String, KeyBinding)>)
    ensures
        r@.len() == default_table().len(),
        forall|i: int|
            0 <= i < r@.len() ==> (#[trigger] r@[i]).0@ == default_table()[i].0 && r@[i].1.key@
                == default_table()[i].1 && r@[i].1.enabled,
{
    let mut r: Vec<(String, KeyBinding)> = Vec::new();
    r.push(binding("board", "B"));
    r.push(binding("capture", "Mod+Shift+S"));
    r.push(binding("clear", "Mod+Shift+Delete"));
    r.push(binding("color1", "1"));
    r.push(binding("color2", "2"));
    r.push(binding("color3", "3"));
    r.push(binding("color4", "4"));
    r.push(binding("color5", "5"));
    r.push(binding("ellipse", "O"));
    r.push(binding("eraser", "E"));
    r.push(binding("fade", "F"));
    r.push(binding("gif", "Mod+Shift+G"));
    r.push(binding("line", "L"));
    r.push(binding("marker", "H"));
    r.push(binding("mouse", "M"));
    r.push(binding("pen", "P"));
    r.push(binding("rectangle", "R"));
    r.push(binding("redo", "Mod+Shift+Z"));
    r.push(binding("select", "V"));
    r.push(binding("thicker", "]"));
    r.push(binding("thinner", "["));
    r.push(binding("undo", "Mod+Z"));
    r.push(binding("visibility", "Tab"));
    r.push(binding("zoom", "Z"));
    r.push(binding("zoom_reset", "0"));
    r
}

/// Removes `prefix` from the front of `s` when it is there.
pub open spec fn strip(s: Seq<char>, prefix: Seq<char>) -> Seq<char> {
    if prefix.len() <= s.len() && s.take(prefix.len() as int) == prefix {
        s.skip(prefix.len() as int)
    } else {
        s
    }
}

/// A chord without its modifiers: at most one each of `Mod+`, `Alt+` and
/// `Shift+`, in that order.
pub open spec fn chord_key(chord: Seq<char>) -> Seq<char> {
    strip(strip(strip(chord, "Mod+"@), "Alt+"@), "Shift+"@)
}

/// A single-character key: an upper-case letter, a digit or one of ``[]`=,./\;'-``.
pub open spec fn key_char_ok(c: char) -> bool {
    ||| 'A' <= c <= 'Z'
    ||| '0' <= c <= '9'
    ||| c == '['
    ||| c == ']'
    ||| c == '`'
    ||| c == '='
    ||| c == ','
    ||| c == '.'
    ||| c == '/'
    ||| c == '\\'
    ||| c == ';'
    ||| c == '\''
    ||| c == '-'
}

/// A named key.
pub open spec fn named_key(k: Seq<char>) -> bool {
    ||| k == "Tab"@
    ||| k == "Enter"@
    ||| k == "Delete"@
    ||| k == "Backspace"@
    ||| k == "Space"@
    ||| k == "ArrowUp"@
    ||| k == "ArrowDown"@
    ||| k == "ArrowLeft"@
    ||| k == "ArrowRight"@
    ||| k == "Home"@
    ||| k == "End"@
    ||| k == "PageUp"@
    ||| k == "PageDown"@
}

pub open spec fn is_digit(c: char) -> bool {
    '0' <= c <= '9'
}

/// The number that a string of decimal digits denotes.
pub open spec fn decimal(ds: Seq<char>) -> nat
    decreases ds.len(),
{
    if ds.len() == 0 {
        0
    } else {
        decimal(ds.drop_last()) * 10 + (ds.last() as u32 - '0' as u32) as nat
    }
}

/// What `u8::from_str` accepts and the value is between 1 and 12: an
/// optional `+` and then decimal digits.
/// The digits after an optional leading `+`.
pub open spec fn unsigned_digits(n: Seq<char>) -> Seq<char> {
    if n.len() > 0 && n[0] == '+' {
        n.skip(1)
    } else {
        n
    }
}

pub open spec fn function_number(n: Seq<char>) -> bool {
    let ds = unsigned_digits(n);
    &&& ds.len() > 0
    &&& forall|i: int| 0 <= i < ds.len() ==> is_digit(#[trigger] ds[i])
    &&& 1 <= decimal(ds) <= 12
}

/// A function key `F1` to `F12`.
pub open spec fn function_key(k: Seq<char>) -> bool {
    k.len() > 0 && k[0] == 'F' && function_number(k.skip(1))
}

/// A chord that a shortcut may use.
pub open spec fn chord_ok(chord: Seq<char>) -> bool {
    let k = chord_key(chord);
    ||| (k.len() == 1 && key_char_ok(k[0]))
    ||| named_key(k)
    ||| function_key(k)
}

fn strip_exec(s: Vec<char>, prefix: &str) -> (r: Vec<char>)
    ensures
        r@ == strip(s@, prefix@),
{
    let p = chars_of(prefix);
    if starts_with(&s, &p) {
        let mut r: Vec<char> = Vec::new();
        let mut i = p.len();
        while i < s.len()
            invariant
                p.len() <= i <= s.len(),
                r@ == s@.subrange(p.len() as int, i as int),
            decreases s.len() - i,
        {
            r.push(s[i]);
            i += 1;
            assert(r@ =~= s@.subrange(p.len() as int, i as int));
        }
        assert(r@ =~= s@.skip(p@.len() as int));
        r
    } else {
        s
    }
}

fn key_char_exec(c: char) -> (r: bool)
    ensures
        r == key_char_ok(c),
{
    ('A' <= c && c <= 'Z') || ('0' <= c && c <= '9') || c == '[' || c == ']' || c == '`' || c
        == '=' || c == ',' || c == '.' || c == '/' || c == '\\' || c == ';' || c == '\'' || c == '-'
}

fn function_number_exec(n: &[char]) -> (r: bool)
    ensures
        r == function_number(n@),
{
    let start: usize = if n.len() > 0 && n[0] == '+' {
        1
    } else {
        0
    };
    let ghost ds = unsigned_digits(n@);
    if start >= n.len() {
        assert(ds.len() == 0);
        return false;
    }
    // The value, capped at 100 so that it cannot overflow.
    let mut v: u32 = 0;
    let mut i = start;
    while i < n.len()
        invariant
            start <= i <= n.len(),
            ds == n@.skip(start as int),
            ds == unsigned_digits(n@),
            forall|j: int| 0 <= j < i - start ==> is_digit(#[trigger] ds[j]),
            v as nat == if decimal(ds.take(i - start)) < 100 {
                decimal(ds.take(i - start))
            } else {
                100
            },
        decreases n.len() - i,
    {
        let c = n[i];
        if !('0' <= c && c <= '9') {
            assert(!is_digit(ds[i - start]));
            return false;
        }
        proof {
            assert(ds.take(i + 1 - start).drop_last() =~= ds.take(i - start));
            assert(ds[i - start] == c);
        }
        let d = (c as u32) - ('0' as u32);
        let next = v * 10 + d;
        v = if next < 100 {
            next
        } else {
            100
        };
        i += 1;
    }
    assert(ds.take(ds.len() as int) =~= ds);
    1 <= v && v <= 12
}

/// Whether `chord` is a chord that a shortcut may use.
pub fn valid_chord(chord: &str) -> (r: bool)
    ensures
        r == chord_ok(chord@),
{
    let cs = chars_of(chord);
    let k = strip_exec(strip_exec(strip_exec(cs, "Mod+"), "Alt+"), "Shift+");
    if k.len() == 1 && key_char_exec(k[0]) {
        return true;
    }
    let ks = string_of(&k);
    let key = ks.as_str();
    if same_text(key, "Tab") || same_text(key, "Enter") || same_text(key, "Delete") || same_text(
        key,
        "Backspace",
    ) || same_text(key, "Space") || same_text(key, "ArrowUp") || same_text(key, "ArrowDown")
        || same_text(key, "ArrowLeft") || same_text(key, "ArrowRight") || same_text(key, "Home")
        || same_text(key, "End") || same_text(key, "PageUp") || same_text(key, "PageDown") {
        return true;
    }
    if k.len() > 0 && k[0] == 'F' {
        let mut rest: Vec<char> = Vec::new();
        let mut i: usize = 1;
        while i < k.len()
            invariant
                1 <= i <= k.len(),
                rest@ == k@.subrange(1, i as int),
            decreases k.len() - i,
        {
            rest.push(k[i]);
            i += 1;
            assert(rest@ =~= k@.subrange(1, i as int));
        }
        assert(rest@ =~= k@.skip(1));
        function_number_exec(&rest)
    } else {
        false
    }
}

/// `s` with every occurrence of `from` replaced by `to`, scanning from the
/// left, as `str::replace` does.
pub open spec fn replace_all(s: Seq<char>, from: Seq<char>, to: Seq<char>) -> Seq<char>
    recommends
        from.len() > 0,
    decreases s.len(),
{
    if s.len() == 0 || from.len() == 0 {
        s
    } else if from.len() <= s.len() && s.take(from.len() as int) == from {
        to + replace_all(s.skip(from.len() as int), from, to)
    } else {
        seq![s[0]] + replace_all(s.drop_first(), from, to)
    }
}

/// The global shortcut as written for chord checks: `CommandOrControl` is
/// spelled `Mod`.
pub open spec fn global_chord(shortcut: Seq<char>) -> Seq<char> {
    replace_all(shortcut, "CommandOrControl"@, "Mod"@)
}

proof fn lemma_replace_step(s: Seq<char>, from: Seq<char>, to: Seq<char>, i: int)
    requires
        0 <= i <= s.len(),
        from.len() > 0,
    ensures
        i < s.len() && from.len() <= s.len() - i && s.skip(i).take(from.len() as int) == from
            ==> replace_all(s.skip(i), from, to) == to + replace_all(
            s.skip(i + from.len()),
            from,
            to,
        ),
        i < s.len() && !(from.len() <= s.len() - i && s.skip(i).take(from.len() as int) == from)
            ==> replace_all(s.skip(i), from, to) == seq![s[i]] + replace_all(
            s.skip(i + 1),
            from,
            to,
        ),
{
    if i < s.len() {
        if from.len() <= s.len() - i {
            assert(s.skip(i).skip(from.len() as int) =~= s.skip(i + from.len()));
        }
        assert(s.skip(i).drop_first() =~= s.skip(i + 1));
    }
}

/// Replaces every `from` in `s` by `to`.
pub fn replace_text(s: &str, from: &str, to: &str) -> (r: String)
    requires
        from@.len() > 0,
    ensures
        r@ == replace_all(s@, from@, to@),
{
    let cs = chars_of(s);
    let f = chars_of(from);
    let t = chars_of(to);
    let mut out: Vec<char> = Vec::new();
    let mut i: usize = 0;
    assert(s@.skip(0) =~= s@);
    assert(out@ + s@ =~= s@);
    while i < cs.len()
        invariant
            i <= cs.len(),
            cs@ == s@,
            f@ == from@,
            t@ == to@,
            f@.len() > 0,
            replace_all(s@, from@, to@) == out@ + replace_all(s@.skip(i as int), from@, to@),
        decreases cs.len() - i,
    {
        // Does `from` start at position i?
        let mut matched = f.len() <= cs.len() - i;
        let mut j: usize = 0;
        while matched && j < f.len()
            invariant
                i < cs.len(),
                j <= f.len(),
                matched ==> f.len() <= cs.len() - i,
                matched ==> forall|k: int| 0 <= k < j ==> cs@[i + k] == f@[k],
                !matched ==> !(f@.len() <= cs@.len() - i && cs@.skip(i as int).take(
                    f@.len() as int,
                ) == f@),
            decreases (f.len() - j) as int + (if matched {
                1int
            } else {
                0int
            }),
        {
            if cs[i + j] != f[j] {
                assert(cs@.skip(i as int).take(f@.len() as int)[j as int] != f@[j as int]);
                matched = false;
            } else {
                j += 1;
            }
        }
        proof {
            lemma_replace_step(s@, from@, to@, i as int);
            if matched {
                assert(cs@.skip(i as int).take(f@.len() as int) =~= f@);
            }
        }
        if matched {
            let mut k: usize = 0;
            let ghost before = out@;
            while k < t.len()
                invariant
                    k <= t.len(),
                    out@ == before + t@.take(k as int),
                decreases t.len() - k,
            {
                out.push(t[k]);
                k += 1;
                assert(out@ =~= before + t@.take(k as int));
            }
            assert(t@.take(t@.len() as int) =~= t@);
            i = i + f.len();
            assert(out@ + replace_all(s@.skip(i as int), from@, to@) =~= before + (to@
                + replace_all(s@.skip(i as int), from@, to@)));
        } else {
            let ghost before = out@;
            out.push(cs[i]);
            i = i + 1;
            assert(out@ + replace_all(s@.skip(i as int), from@, to@) =~= before + (seq![
                s@[i - 1],
            ] + replace_all(s@.skip(i as int), from@, to@)));
        }
    }
    assert(s@.skip(cs@.len() as int) =~= Seq::<char>::empty());
    assert(out@ + Seq::<char>::empty() =~= out@);
    string_of(&out)
}

} // verus!

verus! {

// ---------------------------------------------------------------------------
// Settings

/// The user's settings. Numeric settings are the bit patterns of `f64`
/// values; `palette` holds five `#rrggbb` colours.
#[derive(Clone, Debug)]
pub struct Preferences {
    pub language: String,
    pub text_font: String,
    pub theme: String,
    pub monitor: Option<String>,
    pub layout: String,
    pub pen_width: u64,
    pub marker_width: u64,
    pub eraser_width: u64,
    pub marker_opacity: u64,
    pub shortcut: String,
    pub capture_dir: String,
    pub capture_layer_only: bool,
    pub palette: [String; 5],
    pub gif_speed: u64,
    pub gif_background: String,
    pub gif_repeat: bool,
    pub tool_shortcuts: bool,
    pub keybindings: Vec<(String, KeyBinding)>,
    pub global_shortcut_enabled: bool,
    pub fade_seconds: u64,
    pub spotlight_radius: u64,
    pub spotlight_dim: u64,
    pub spotlight_scale: u64,
}

pub open spec fn language_ok(l: Seq<char>) -> bool {
    l == "auto"@ || l == "ko"@ || l == "en"@ || l == "ja"@ || l == "zh-CN"@
}

pub open spec fn theme_ok(t: Seq<char>) -> bool {
    t == "blue"@ || t == "teal"@ || t == "green"@ || t == "orange"@ || t == "purple"@
}

pub open spec fn gif_background_ok(b: Seq<char>) -> bool {
    b == "screen"@ || b == "white"@ || b == "dark"@ || b == "transparent"@
}

pub open spec fn layout_ok(l: Seq<char>) -> bool {
    l == "horizontal"@ || l == "vertical"@
}

/// Action names are unique.
pub open spec fn ids_unique(kb: Seq<(Seq<char>, Seq<char>, bool)>) -> bool {
    forall|a: int, b: int| 0 <= a < b < kb.len() ==> kb[a].0 != kb[b].0
}

pub open spec fn is_default_id(id: Seq<char>) -> bool {
    exists|j: int| 0 <= j < default_table().len() && default_table()[j].0 == id
}

/// The global shortcut is a usable chord that starts with `Mod+`, `Alt+` or
/// a function key.
pub open spec fn global_ok(global: Seq<char>) -> bool {
    &&& chord_ok(global)
    &&& (starts_with_spec(global, "Mod+"@) || starts_with_spec(global, "Alt+"@) || (global.len() > 0
        && global[0] == 'F'))
}

/// The rules of the shortcuts. `accepted` is whether the shortcut
/// registry parses the global shortcut.
pub open spec fn shortcuts_ok(
    shortcut: Seq<char>,
    accepted: bool,
    global_enabled: bool,
    tool_shortcuts: bool,
    kb: Seq<(Seq<char>, Seq<char>, bool)>,
) -> bool {
    let global = global_chord(shortcut);
    &&& global_ok(global)
    &&& accepted
    &&& kb.len() == default_table().len()
    &&& forall|i: int| 0 <= i < kb.len() ==> is_default_id(#[trigger] kb[i].0)
    &&& forall|i: int| 0 <= i < kb.len() ==> chord_ok(#[trigger] kb[i].1)
    &&& tool_shortcuts ==> {
        &&& forall|a: int, b: int|
            0 <= a < b < kb.len() && kb[a].2 && kb[b].2 ==> kb[a].1 != kb[b].1
        &&& global_enabled ==> forall|a: int| 0 <= a < kb.len() && kb[a].2 ==> kb[a].1 != global
    }
}

/// The rules of the settings that are not numeric ranges; `accepted` is
/// whether the shortcut registry parses the global shortcut.
pub open spec fn discrete_settings_ok(p: Preferences, accepted: bool) -> bool {
    discrete_settings_with(p, bindings_view(p.keybindings@), accepted)
}

/// `discrete_settings_ok` with the tool shortcuts given as a table `kb`.
pub open spec fn discrete_settings_with(
    p: Preferences,
    kb: Seq<(Seq<char>, Seq<char>, bool)>,
    accepted: bool,
) -> bool {
    &&& language_ok(p.language@)
    &&& theme_ok(p.theme@)
    &&& font_name_ok(p.text_font@)
    &&& 1 <= p.fade_seconds <= 10
    &&& gif_background_ok(p.gif_background@)
    &&& layout_ok(p.layout@)
    &&& forall|i: int| 0 <= i < 5 ==> hex_color_ok(#[trigger] p.palette@[i]@)
    &&& shortcuts_ok(p.shortcut@, accepted, p.global_shortcut_enabled, p.tool_shortcuts, kb)
}

/// Whether some binding among the first `n` is for action `id`.
fn has_id(kb: &Vec<(String, KeyBinding)>, id: &str) -> (r: bool)
    ensures
        r == exists|i: int| 0 <= i < kb@.len() && (#[trigger] kb@[i]).0@ == id@,
{
    let mut i: usize = 0;
    while i < kb.len()
        invariant
            i <= kb@.len(),
            forall|j: int| 0 <= j < i ==> (#[trigger] kb@[j]).0@ != id@,
        decreases kb.len() - i,
    {
        if same_text(kb[i].0.as_str(), id) {
            return true;
        }
        i += 1;
    }
    false
}

/// Whether an enabled binding uses chord `key`.
fn enabled_key_used(kb: &Vec<(String, KeyBinding)>, key: &str) -> (r: bool)
    ensures
        r == exists|i: int| 0 <= i < kb@.len() && (#[trigger] kb@[i]).1.enabled && kb@[i].1.key@ == key@,
{
    let mut i: usize = 0;
    while i < kb.len()
        invariant
            i <= kb@.len(),
            forall|j: int| 0 <= j < i ==> !((#[trigger] kb@[j]).1.enabled && kb@[j].1.key@ == key@),
        decreases kb.len() - i,
    {
        if kb[i].1.enabled && same_text(kb[i].1.key.as_str(), key) {
            return true;
        }
        i += 1;
    }
    false
}

/// The bindings after adding, in order, each default action that is missing;
/// an added binding starts disabled when an enabled binding or the global
/// shortcut already uses its chord.
pub open spec fn migrated(kb: Seq<(Seq<char>, Seq<char>, bool)>, global: Seq<char>, d: nat) -> Seq<
    (Seq<char>, Seq<char>, bool),
>
    decreases d,
{
    if d == 0 {
        kb
    } else {
        let prev = migrated(kb, global, (d - 1) as nat);
        let id = default_table()[d - 1].0;
        let key = default_table()[d - 1].1;
        if exists|i: int| 0 <= i < prev.len() && (#[trigger] prev[i]).0 == id {
            prev
        } else {
            let used = exists|i: int| 0 <= i < prev.len() && (#[trigger] prev[i]).2 && prev[i].1 == key;
            prev.push((id, key, !(used || global == key)))
        }
    }
}

/// Adding the missing defaults keeps every binding already present, in its
/// place.
pub proof fn lemma_migrated_keeps_bindings(kb: Seq<(Seq<char>, Seq<char>, bool)>, global: Seq<char>, d: nat)
    ensures
        kb.is_prefix_of(migrated(kb, global, d)),
    decreases d,
{
    if d > 0 {
        lemma_migrated_keeps_bindings(kb, global, (d - 1) as nat);
    }
}

proof fn lemma_bindings_view_push(b: Seq<(String, KeyBinding)>, e: (String, KeyBinding))
    ensures
        bindings_view(b.push(e)) == bindings_view(b).push((e.0@, e.1.key@, e.1.enabled)),
{
    assert(bindings_view(b.push(e)) =~= bindings_view(b).push((e.0@, e.1.key@, e.1.enabled)));
}

impl Preferences {
    /// Checks `shortcuts_ok`; `accepted` is whether the shortcut registry
    /// parses the global shortcut.
    pub fn valid_shortcuts(&self, accepted: bool) -> (r: bool)
        requires
            ids_unique(bindings_view(self.keybindings@)),
        ensures
            r == shortcuts_ok(
                self.shortcut@,
                accepted,
                self.global_shortcut_enabled,
                self.tool_shortcuts,
                bindings_view(self.keybindings@),
            ),
    {
        let ghost kb = bindings_view(self.keybindings@);
        proof {
            reveal_strlit("CommandOrControl");
        }
        let global = replace_text(self.shortcut.as_str(), "CommandOrControl", "Mod");
        let gs = global.as_str();
        let gc = chars_of(gs);
        let starts_ok = starts_with(&gc, &chars_of("Mod+")) || starts_with(&gc, &chars_of("Alt+"))
            || (gc.len() > 0 && gc[0] == 'F');
        if !valid_chord(gs) || !starts_ok || !accepted {
            return false;
        }
        let defaults = default_bindings();
        if self.keybindings.len() != defaults.len() {
            return false;
        }
        let mut i: usize = 0;
        while i < self.keybindings.len()
            invariant
                i <= self.keybindings@.len(),
                kb == bindings_view(self.keybindings@),
                defaults@.len() == default_table().len(),
                forall|k: int|
                    0 <= k < defaults@.len() ==> (#[trigger] defaults@[k]).0@ == default_table()[k].0,
                forall|j: int| 0 <= j < i ==> is_default_id(#[trigger] kb[j].0),
                forall|j: int| 0 <= j < i ==> chord_ok(#[trigger] kb[j].1),
            decreases self.keybindings.len() - i,
        {
            let id = self.keybindings[i].0.as_str();
            assert(kb[i as int].0 == id@);
            if !has_id(&defaults, id) {
                assert forall|k: int| 0 <= k < default_table().len() implies default_table()[k].0
                    != kb[i as int].0 by {
                    assert(defaults@[k].0@ == default_table()[k].0);
                }
                return false;
            }
            proof {
                let k = choose|k: int| 0 <= k < defaults@.len() && (#[trigger] defaults@[k]).0@ == id@;
                assert(default_table()[k].0 == kb[i as int].0);
            }
            assert(kb[i as int].1 == self.keybindings@[i as int].1.key@);
            if !valid_chord(self.keybindings[i].1.key.as_str()) {
                assert(!chord_ok(kb[i as int].1));
                return false;
            }
            i += 1;
        }
        if !self.tool_shortcuts {
            return true;
        }
        // Enabled chords must be distinct, and differ from an enabled global shortcut.
        let mut a: usize = 0;
        while a < self.keybindings.len()
            invariant
                a <= self.keybindings@.len(),
                kb == bindings_view(self.keybindings@),
                gs@ == global_chord(self.shortcut@),
                self.tool_shortcuts,
                forall|x: int, y: int| 0 <= x < a && x < y < kb.len() && kb[x].2 && kb[y].2 ==> kb[x].1 != kb[y].1,
                self.global_shortcut_enabled ==> forall|x: int| 0 <= x < a && kb[x].2 ==> kb[x].1 != gs@,
            decreases self.keybindings.len() - a,
        {
            if self.keybindings[a].1.enabled {
                let key = self.keybindings[a].1.key.as_str();
                assert(kb[a as int].1 == key@ && kb[a as int].2);
                if self.global_shortcut_enabled && same_text(key, gs) {
                    return false;
                }
                let mut b: usize = a + 1;
                while b < self.keybindings.len()
                    invariant
                        a < b <= self.keybindings@.len(),
                        kb == bindings_view(self.keybindings@),
                        kb[a as int].1 == key@,
                        kb[a as int].2,
                        self.tool_shortcuts,
                        forall|y: int| a < y < b && kb[y].2 ==> kb[a as int].1 != kb[y].1,
                    decreases self.keybindings.len() - b,
                {
                    if self.keybindings[b].1.enabled && same_text(self.keybindings[b].1.key.as_str(), key) {
                        assert(kb[b as int].1 == kb[a as int].1 && kb[b as int].2);
                        return false;
                    }
                    b += 1;
                }
            }
            a += 1;
        }
        true
    }

    /// Checks `discrete_settings_ok`.
    pub fn valid_discrete(&self, accepted: bool) -> (r: bool)
        requires
            ids_unique(bindings_view(self.keybindings@)),
        ensures
            r == discrete_settings_ok(*self, accepted),
    {
        let l = self.language.as_str();
        let t = self.theme.as_str();
        let g = self.gif_background.as_str();
        let y = self.layout.as_str();
        let language = same_text(l, "auto") || same_text(l, "ko") || same_text(l, "en") || same_text(
            l,
            "ja",
        ) || same_text(l, "zh-CN");
        let theme = same_text(t, "blue") || same_text(t, "teal") || same_text(t, "green")
            || same_text(t, "orange") || same_text(t, "purple");
        let background = same_text(g, "screen") || same_text(g, "white") || same_text(g, "dark")
            || same_text(g, "transparent");
        let layout = same_text(y, "horizontal") || same_text(y, "vertical");
        if !(language && theme && valid_font(self.text_font.as_str()) && 1 <= self.fade_seconds
            && self.fade_seconds <= 10 && background && layout) {
            return false;
        }
        let mut i: usize = 0;
        while i < 5
            invariant
                i <= 5,
                forall|j: int| 0 <= j < i ==> hex_color_ok(#[trigger] self.palette@[j]@),
            decreases 5 - i,
        {
            if !valid_color(self.palette[i].as_str()) {
                return false;
            }
            i += 1;
        }
        self.valid_shortcuts(accepted)
    }

    /// Adds every default tool shortcut missing from the settings, as
    /// `migrated` describes; existing bindings are kept as they are.
    pub fn migrate_bindings(&mut self)
        ensures
            bindings_view(final(self).keybindings@) == migrated(
                bindings_view(old(self).keybindings@),
                global_chord(old(self).shortcut@),
                default_table().len(),
            ),
            final(self).shortcut == old(self).shortcut,
            *final(self) == (Preferences { keybindings: final(self).keybindings, ..*old(self) }),
            ids_unique(bindings_view(old(self).keybindings@)) ==> ids_unique(
                bindings_view(final(self).keybindings@),
            ),
            bindings_view(old(self).keybindings@).is_prefix_of(bindings_view(final(self).keybindings@)),
    {
        let ghost kb0 = bindings_view(self.keybindings@);
        proof {
            reveal_strlit("CommandOrControl");
        }
        let global = replace_text(self.shortcut.as_str(), "CommandOrControl", "Mod");
        let defaults = default_bindings();
        let mut d: usize = 0;
        while d < defaults.len()
            invariant
                d <= defaults@.len(),
                defaults@.len() == default_table().len(),
                forall|k: int|
                    0 <= k < defaults@.len() ==> (#[trigger] defaults@[k]).0@ == default_table()[k].0
                        && defaults@[k].1.key@ == default_table()[k].1,
                global@ == global_chord(old(self).shortcut@),
                self.shortcut == old(self).shortcut,
                *self == (Preferences { keybindings: self.keybindings, ..*old(self) }),
                kb0 == bindings_view(old(self).keybindings@),
                bindings_view(self.keybindings@) == migrated(kb0, global@, d as nat),
                ids_unique(kb0) ==> ids_unique(bindings_view(self.keybindings@)),
            decreases defaults.len() - d,
        {
            let ghost prev = bindings_view(self.keybindings@);
            let id = defaults[d].0.as_str();
            let key = defaults[d].1.key.as_str();
            assert(id@ == default_table()[d as int].0);
            assert(key@ == default_table()[d as int].1);
            let present = has_id(&self.keybindings, id);
            proof {
                if present {
                    let i = choose|i: int| 0 <= i < self.keybindings@.len() && (#[trigger] self.keybindings@[i]).0@ == id@;
                    assert(prev[i].0 == id@);
                } else {
                    assert forall|i: int| 0 <= i < prev.len() implies (#[trigger] prev[i]).0 != id@ by {
                        assert(prev[i].0 == self.keybindings@[i].0@);
                    }
                }
            }
            if !present {
                let used = enabled_key_used(&self.keybindings, key);
                let clash = same_text(global.as_str(), key);
                proof {
                    if used {
                        let i = choose|i: int| 0 <= i < self.keybindings@.len() && (#[trigger] self.keybindings@[i]).1.enabled && self.keybindings@[i].1.key@ == key@;
                        assert(prev[i].2 && prev[i].1 == key@);
                    } else {
                        assert forall|i: int| 0 <= i < prev.len() implies !((#[trigger] prev[i]).2 && prev[i].1 == key@) by {
                            assert(prev[i].1 == self.keybindings@[i].1.key@);
                        }
                    }
                }
                let entry = (owned(id), KeyBinding { key: owned(key), enabled: !(used || clash) });
                proof {
                    lemma_bindings_view_push(self.keybindings@, entry);
                }
                self.keybindings.push(entry);
            }
            d += 1;
        }
        proof {
            lemma_migrated_keeps_bindings(kb0, global_chord(old(self).shortcut@), default_table().len());
        }
    }

    /// The configured width for `tool`.
    pub fn width_for(&self, tool: &str) -> (r: u64)
        ensures
            r == configured_width(*self, tool@),
    {
        if same_text(tool, "marker") {
            self.marker_width
        } else if same_text(tool, "eraser") {
            self.eraser_width
        } else {
            self.pen_width
        }
    }
}

/// The width setting of `tool`: the marker's, the eraser's, else the pen's.
pub open spec fn configured_width(p: Preferences, tool: Seq<char>) -> u64 {
    if tool == "marker"@ {
        p.marker_width
    } else if tool == "eraser"@ {
        p.eraser_width
    } else {
        p.pen_width
    }
}

pub open spec fn starts_with_spec(s: Seq<char>, prefix: Seq<char>) -> bool {
    prefix.len() <= s.len() && s.take(prefix.len() as int) == prefix
}

/// Calls `SystemTime::now().duration_since(UNIX_EPOCH)` and returns the
/// whole milliseconds since the Unix epoch, or `None` when the clock stands
/// before the epoch. The reading depends on the clock, so nothing is stated
/// of it.
#[verifier::external_body]
fn epoch_millis() -> (r: Option<u128>) {
    std::time::SystemTime::now().duration_since(std::time::UNIX_EPOCH).ok().map(|d| d.as_millis())
}

/// Milliseconds since the epoch as a `u64`: zero for a clock before the
/// epoch, else the reading truncated to 64 bits.
pub fn millis_from(elapsed: Option<u128>) -> (r: u64)
    ensures
        r == match elapsed {
            Some(m) => m as u64,
            None => 0u64,
        },
{
    match elapsed {
        Some(m) => m as u64,
        None => 0,
    }
}

/// The current time in milliseconds since the Unix epoch, zero when the clock
/// stands before it. The clock is outside the library, so any value may come
/// back.
pub fn now_ms() -> (r: u64) {
    millis_from(epoch_millis())
}

/// The settings of a fresh profile. Numeric settings are IEEE 754 bit
/// patterns: widths 4, 16 and 24, marker opacity 0.3, GIF speed 1, spotlight
/// radius 120, dim 0.65 and magnification 2.
pub open spec fn fresh_preferences(r: Preferences) -> bool {
    &&& r.language@ == "auto"@
    &&& r.text_font@ == "Malgun Gothic"@
    &&& r.theme@ == "blue"@
    &&& r.monitor is None
    &&& r.layout@ == "horizontal"@
    &&& r.pen_width == 0x4010_0000_0000_0000u64
    &&& r.marker_width == 0x4030_0000_0000_0000u64
    &&& r.eraser_width == 0x4038_0000_0000_0000u64
    &&& r.marker_opacity == 0x3FD3_3333_3333_3333u64
    &&& r.shortcut@ == "CommandOrControl+Shift+D"@
    &&& r.capture_dir@.len() == 0
    &&& !r.capture_layer_only
    &&& r.palette@[0]@ == "#8b5cf6"@
    &&& r.palette@[1]@ == "#f43f5e"@
    &&& r.palette@[2]@ == "#fbbf24"@
    &&& r.palette@[3]@ == "#38bdf8"@
    &&& r.palette@[4]@ == "#f8fafc"@
    &&& r.gif_speed == 0x3FF0_0000_0000_0000u64
    &&& r.gif_background@ == "white"@
    &&& r.gif_repeat
    &&& r.tool_shortcuts
    &&& r.keybindings@.len() == default_table().len()
    &&& forall|i: int| 0 <= i < r.keybindings@.len() ==> (#[trigger] r.keybindings@[i]).0@ == default_table()[i].0 && r.keybindings@[i].1.key@ == default_table()[i].1 && r.keybindings@[i].1.enabled
    &&& r.global_shortcut_enabled
    &&& r.fade_seconds == 3
    &&& r.spotlight_radius == 0x405E_0000_0000_0000u64
    &&& r.spotlight_dim == 0x3FE4_CCCC_CCCC_CCCDu64
    &&& r.spotlight_scale == 0x4000_0000_0000_0000u64
}

/// The settings of a fresh profile.
pub fn default_preferences() -> (r: Preferences)
    ensures
        fresh_preferences(r),
{
    Preferences {
        language: owned("auto"),
        text_font: owned("Malgun Gothic"),
        theme: owned("blue"),
        monitor: None,
        layout: owned("horizontal"),
        pen_width: 0x4010_0000_0000_0000u64,
        marker_width: 0x4030_0000_0000_0000u64,
        eraser_width: 0x4038_0000_0000_0000u64,
        marker_opacity: 0x3FD3_3333_3333_3333u64,
        shortcut: owned("CommandOrControl+Shift+D"),
        capture_dir: String::new(),
        capture_layer_only: false,
        palette: [owned("#8b5cf6"), owned("#f43f5e"), owned("#fbbf24"), owned("#38bdf8"), owned("#f8fafc")],
        gif_speed: 0x3FF0_0000_0000_0000u64,
        gif_background: owned("white"),
        gif_repeat: true,
        tool_shortcuts: true,
        keybindings: default_bindings(),
        global_shortcut_enabled: true,
        fade_seconds: 3,
        spotlight_radius: 0x405E_0000_0000_0000u64,
        spotlight_dim: 0x3FE4_CCCC_CCCC_CCCDu64,
        spotlight_scale: 0x4000_0000_0000_0000u64,
    }
}

impl Default for Preferences {
    fn default() -> (r: Preferences)
        ensures
            fresh_preferences(r),
    {
        default_preferences()
    }
}

/// The default palette, font and choices keep the settings rules.
proof fn lemma_fresh_basics(p: Preferences)
    requires
        fresh_preferences(p),
    ensures
        language_ok(p.language@),
        theme_ok(p.theme@),
        font_name_ok(p.text_font@),
        1 <= p.fade_seconds <= 10,
        gif_background_ok(p.gif_background@),
        layout_ok(p.layout@),
        forall|i: int| 0 <= i < 5 ==> hex_color_ok(#[trigger] p.palette@[i]@),
{
    reveal_strlit("Malgun Gothic");
    reveal_strlit("#8b5cf6");
    reveal_strlit("#f43f5e");
    reveal_strlit("#fbbf24");
    reveal_strlit("#38bdf8");
    reveal_strlit("#f8fafc");
    let f = p.text_font@;
    assert(!crate::text::is_space(f[0]));
    assert forall|i: int| 0 <= i < 5 implies hex_color_ok(#[trigger] p.palette@[i]@) by {
        if i == 0 {} else if i == 1 {} else if i == 2 {} else if i == 3 {} else {}
    }
}

/// A text shorter than the pattern is left as it is.
proof fn lemma_replace_short(s: Seq<char>, from: Seq<char>, to: Seq<char>)
    requires
        s.len() < from.len(),
    ensures
        replace_all(s, from, to) == s,
    decreases s.len(),
{
    if s.len() > 0 {
        lemma_replace_short(s.drop_first(), from, to);
        assert(seq![s[0]] + s.drop_first() =~= s);
    }
}

/// The default global shortcut, written for the chord checks, is
/// `Mod+Shift+D`, a usable global chord.
proof fn lemma_default_global()
    ensures
        global_chord("CommandOrControl+Shift+D"@) == "Mod+Shift+D"@,
        global_ok("Mod+Shift+D"@),
{
    reveal_strlit("CommandOrControl+Shift+D");
    reveal_strlit("CommandOrControl");
    reveal_strlit("Mod");
    reveal_strlit("Mod+Shift+D");
    reveal_strlit("+Shift+D");
    reveal_strlit("Mod+");
    reveal_strlit("Alt+");
    reveal_strlit("Shift+");
    let s = "CommandOrControl+Shift+D"@;
    let from = "CommandOrControl"@;
    assert(s.take(16) =~= from);
    assert(s.skip(16) =~= "+Shift+D"@);
    lemma_replace_short("+Shift+D"@, from, "Mod"@);
    assert("Mod"@ + "+Shift+D"@ =~= "Mod+Shift+D"@);
    let g = "Mod+Shift+D"@;
    assert(g.take(4) =~= "Mod+"@);
    let a = g.skip(4);
    assert(a.take(4)[0] == 'S');
    assert(a.take(6) =~= "Shift+"@);
    assert(chord_key(g) =~= seq!['D']);
}

/// Which default binding a key belongs to, told by its length and last
/// character; -1 for any other key of those shapes.
spec fn key_slot(k: Seq<char>) -> int {
    if k.len() == 1 {
        if k[0] == 'B' {
            0
        } else         if k[0] == '1' {
            3
        } else         if k[0] == '2' {
            4
        } else         if k[0] == '3' {
            5
        } else         if k[0] == '4' {
            6
        } else         if k[0] == '5' {
            7
        } else         if k[0] == 'O' {
            8
        } else         if k[0] == 'E' {
            9
        } else         if k[0] == 'F' {
            10
        } else         if k[0] == 'L' {
            12
        } else         if k[0] == 'H' {
            13
        } else         if k[0] == 'M' {
            14
        } else         if k[0] == 'P' {
            15
        } else         if k[0] == 'R' {
            16
        } else         if k[0] == 'V' {
            18
        } else         if k[0] == ']' {
            19
        } else         if k[0] == '[' {
            20
        } else         if k[0] == 'Z' {
            23
        } else         if k[0] == '0' {
            24
        } else {
            -1
        }
    } else if k.len() == 11 {
        if k[10] == 'S' {
            1
        } else if k[10] == 'G' {
            11
        } else if k[10] == 'Z' {
            17
        } else {
            -1
        }
    } else if k.len() == 16 {
        2
    } else if k.len() == 5 {
        21
    } else if k.len() == 3 {
        22
    } else {
        -1
    }
}

proof fn lemma_mod_shift_chord(tail: Seq<char>)
    requires
        tail.len() > 0,
    ensures
        chord_key("Mod+Shift+"@ + tail) == tail,
{
    reveal_strlit("Mod+Shift+");
    reveal_strlit("Mod+");
    reveal_strlit("Alt+");
    reveal_strlit("Shift+");
    let k = "Mod+Shift+"@ + tail;
    assert(k.take(4) =~= "Mod+"@);
    let a = k.skip(4);
    assert(a.take(4)[0] == 'S');
    assert(a.take(6) =~= "Shift+"@);
    assert(a.skip(6) =~= tail);
}

proof fn lemma_mod_chord(tail: Seq<char>)
    requires
        tail.len() == 1 || tail.len() > 1 && tail[0] != 'A' && tail[0] != 'S',
    ensures
        chord_key("Mod+"@ + tail) == tail,
{
    reveal_strlit("Mod+");
    reveal_strlit("Alt+");
    reveal_strlit("Shift+");
    let k = "Mod+"@ + tail;
    assert(k.take(4) =~= "Mod+"@);
    assert(k.skip(4) =~= tail);
    if tail.len() >= 4 {
        assert(tail.take(4)[0] == tail[0]);
    }
    if tail.len() >= 6 {
        assert(tail.take(6)[0] == tail[0]);
    }
}

/// Each default key is a usable chord, and `key_slot` finds its place.
proof fn lemma_default_key(i: int)
    requires
        0 <= i < default_table().len(),
    ensures
        chord_ok(default_table()[i].1),
        key_slot(default_table()[i].1) == i,
{
    reveal_strlit("Mod+");
    reveal_strlit("Alt+");
    reveal_strlit("Shift+");
    reveal_strlit("Mod+Shift+");
    if i == 0 {
        reveal_strlit("B");
    } else if i == 1 {
        reveal_strlit("Mod+Shift+S");
        reveal_strlit("S");
        assert("Mod+Shift+S"@ =~= "Mod+Shift+"@ + "S"@);
        lemma_mod_shift_chord("S"@);
    } else if i == 2 {
        reveal_strlit("Mod+Shift+Delete");
        reveal_strlit("Delete");
        assert("Mod+Shift+Delete"@ =~= "Mod+Shift+"@ + "Delete"@);
        lemma_mod_shift_chord("Delete"@);
    } else if i == 3 {
        reveal_strlit("1");
    } else if i == 4 {
        reveal_strlit("2");
    } else if i == 5 {
        reveal_strlit("3");
    } else if i == 6 {
        reveal_strlit("4");
    } else if i == 7 {
        reveal_strlit("5");
    } else if i == 8 {
        reveal_strlit("O");
    } else if i == 9 {
        reveal_strlit("E");
    } else if i == 10 {
        reveal_strlit("F");
    } else if i == 11 {
        reveal_strlit("Mod+Shift+G");
        reveal_strlit("G");
        assert("Mod+Shift+G"@ =~= "Mod+Shift+"@ + "G"@);
        lemma_mod_shift_chord("G"@);
    } else if i == 12 {
        reveal_strlit("L");
    } else if i == 13 {
        reveal_strlit("H");
    } else if i == 14 {
        reveal_strlit("M");
    } else if i == 15 {
        reveal_strlit("P");
    } else if i == 16 {
        reveal_strlit("R");
    } else if i == 17 {
        reveal_strlit("Mod+Shift+Z");
        reveal_strlit("Z");
        assert("Mod+Shift+Z"@ =~= "Mod+Shift+"@ + "Z"@);
        lemma_mod_shift_chord("Z"@);
    } else if i == 18 {
        reveal_strlit("V");
    } else if i == 19 {
        reveal_strlit("]");
    } else if i == 20 {
        reveal_strlit("[");
    } else if i == 21 {
        reveal_strlit("Mod+Z");
        reveal_strlit("Z");
        assert("Mod+Z"@ =~= "Mod+"@ + "Z"@);
        lemma_mod_chord("Z"@);
    } else if i == 22 {
        reveal_strlit("Tab");
    } else if i == 23 {
        reveal_strlit("Z");
    } else {
        reveal_strlit("0");
    }
}

/// The settings of a fresh profile keep every settings rule that the
/// library decides; `accepted` stands for the shortcut registry, which
/// parses the default global shortcut.
pub proof fn lemma_fresh_preferences_are_valid(p: Preferences)
    requires
        fresh_preferences(p),
    ensures
        discrete_settings_ok(p, true),
{
    lemma_fresh_basics(p);
    lemma_default_global();
    reveal_strlit("Mod+Shift+D");
    let kb = bindings_view(p.keybindings@);
    assert(kb.len() == default_table().len());
    assert forall|i: int| 0 <= i < kb.len() implies #[trigger] kb[i] == (
        default_table()[i].0,
        default_table()[i].1,
        true,
    ) by {
        assert(p.keybindings@[i].0@ == default_table()[i].0);
    }
    assert forall|i: int| 0 <= i < kb.len() implies is_default_id(#[trigger] kb[i].0) by {
        assert(kb[i] == (default_table()[i].0, default_table()[i].1, true));
    }
    assert forall|i: int| 0 <= i < kb.len() implies chord_ok(#[trigger] kb[i].1) by {
        assert(kb[i] == (default_table()[i].0, default_table()[i].1, true));
        lemma_default_key(i);
    }
    assert forall|a: int, b: int| 0 <= a < b < kb.len() && kb[a].2 && kb[b].2 implies kb[a].1 != kb[b].1 by {
        assert(kb[a] == (default_table()[a].0, default_table()[a].1, true));
        assert(kb[b] == (default_table()[b].0, default_table()[b].1, true));
        lemma_default_key(a);
        lemma_default_key(b);
    }
    assert forall|a: int| 0 <= a < kb.len() && kb[a].2 implies kb[a].1 != "Mod+Shift+D"@ by {
        assert(kb[a] == (default_table()[a].0, default_table()[a].1, true));
        lemma_default_key(a);
        assert(key_slot("Mod+Shift+D"@) == -1);
    }
}

/// Every drawing tool of the toolbar makes a valid stroke: with a
/// `#rrggbb` colour, at least one point (within the limit), no timestamps
/// and no text, a pen, marker, fade, eraser, line, rectangle or ellipse
/// stroke keeps the stroke rules; so does a text box of two corners with
/// usable text.
pub proof fn lemma_drawing_tools_make_strokes(s: StrokeView)
    requires
        hex_color_ok(s.color),
        1 <= s.points.len() <= POINT_LIMIT,
        s.times.len() == 0,
        (s.tool == "pen"@ || s.tool == "marker"@ || s.tool == "fade"@ || s.tool == "eraser"@
            || s.tool == "line"@ || s.tool == "rectangle"@ || s.tool == "ellipse"@) && s.text is None
            || s.tool == "text"@ && s.points.len() == 2 && (s.text matches Some(t) && text_ok(t)),
    ensures
        stroke_tool_ok(s.tool),
        stroke_shape_ok(s),
{
    reveal_strlit("pen");
    reveal_strlit("marker");
    reveal_strlit("fade");
    reveal_strlit("eraser");
    reveal_strlit("line");
    reveal_strlit("rectangle");
    reveal_strlit("ellipse");
    reveal_strlit("text");
    assert("pen"@[0] != "text"@[0]);
    assert("marker"@[0] != "text"@[0]);
    assert("fade"@[0] != "text"@[0]);
    assert("eraser"@[0] != "text"@[0]);
    assert("line"@[0] != "text"@[0]);
    assert("rectangle"@[0] != "text"@[0]);
    assert("ellipse"@[0] != "text"@[0]);
}

/// Both toolbar layouts are accepted: settings that differ only in the
/// layout, one vertical and one horizontal, pass or fail the checks
/// together.
pub proof fn lemma_both_layouts(p: Preferences, q: Preferences, accepted: bool)
    requires
        p.layout@ == "vertical"@,
        q.layout@ == "horizontal"@,
        q == (Preferences { layout: q.layout, ..p }),
    ensures
        layout_ok(p.layout@),
        layout_ok(q.layout@),
        discrete_settings_ok(p, accepted) == discrete_settings_ok(q, accepted),
{
    reveal_strlit("vertical");
    reveal_strlit("horizontal");
    assert(layout_ok(p.layout@));
    assert(layout_ok(q.layout@));
    assert(bindings_view(p.keybindings@) == bindings_view(q.keybindings@));
    assert(p.palette == q.palette);
    assert(p.language == q.language);
    assert(p.shortcut == q.shortcut);
    assert(p.text_font == q.text_font);
    assert(p.theme == q.theme);
    assert(p.gif_background == q.gif_background);
}

} // verus!
