//! The state of an annotation session and the decisions of its commands:
//! which monitor is selected, its board, drawing mode, captures and exports,
//! and the per-monitor annotations. Window work happens outside; each
//! command here says what the windows must do next.
use vstd::prelude::*;
use crate::history::{reshape, History, RecordedView, Timeline};
use crate::model::{bindings_view, default_preferences, fresh_preferences, ids_unique, stroke_shape_ok, Point, Preferences, Stroke};
use crate::text::{owned, same_text};

verus! {

// ---------------------------------------------------------------------------
// Per-monitor tables

/// A table keyed by monitor identifier, read as a map; a later entry for the
/// same key shadows an earlier one.
pub open spec fn table<V>(s: Seq<(String, V)>) -> Map<Seq<char>, V>
    decreases s.len(),
{
    if s.len() == 0 {
        Map::empty()
    } else {
        table(s.drop_last()).insert(s.last().0@, s.last().1)
    }
}

/// `i` is the last entry of `s` with key `k`.
pub open spec fn last_entry<V>(s: Seq<(String, V)>, k: Seq<char>, i: int) -> bool {
    &&& 0 <= i < s.len()
    &&& s[i].0@ == k
    &&& forall|j: int| i < j < s.len() ==> (#[trigger] s[j]).0@ != k
}

proof fn lemma_table_absent<V>(s: Seq<(String, V)>, k: Seq<char>)
    requires
        forall|j: int| 0 <= j < s.len() ==> (#[trigger] s[j]).0@ != k,
    ensures
        !table(s).dom().contains(k),
    decreases s.len(),
{
    if s.len() > 0 {
        assert(s.last() == s[s.len() - 1]);
        lemma_table_absent(s.drop_last(), k);
    }
}

proof fn lemma_table_last<V>(s: Seq<(String, V)>, k: Seq<char>, i: int)
    requires
        last_entry(s, k, i),
    ensures
        table(s).dom().contains(k),
        table(s)[k] == s[i].1,
    decreases s.len(),
{
    if i < s.len() - 1 {
        assert(s.last() == s[s.len() - 1]);
        assert(last_entry(s.drop_last(), k, i));
        lemma_table_last(s.drop_last(), k, i);
    }
}

proof fn lemma_table_update<V>(s: Seq<(String, V)>, k: Seq<char>, i: int, e: (String, V))
    requires
        last_entry(s, k, i),
        e.0@ == k,
    ensures
        table(s.update(i, e)) == table(s).insert(k, e.1),
    decreases s.len(),
{
    let t = s.update(i, e);
    if i == s.len() - 1 {
        assert(t.drop_last() =~= s.drop_last());
        assert(table(t) =~= table(s).insert(k, e.1));
    } else {
        assert(t.drop_last() =~= s.drop_last().update(i, e));
        assert(last_entry(s.drop_last(), k, i));
        lemma_table_update(s.drop_last(), k, i, e);
        assert(s.last() == s[s.len() - 1]);
        assert(t.last() == s.last());
        assert(s.last().0@ != k);
        assert(table(t) =~= table(s).insert(k, e.1));
    }
}

/// The position of the last entry for `id`, which `table` reads.
pub fn find_last<V>(s: &Vec<(String, V)>, id: &str) -> (r: Option<usize>)
    ensures
        r matches Some(i) ==> last_entry(s@, id@, i as int),
        r is None ==> forall|j: int| 0 <= j < s@.len() ==> (#[trigger] s@[j]).0@ != id@,
        r matches Some(i) ==> table(s@).dom().contains(id@) && table(s@)[id@] == s@[i as int].1,
        r is None ==> !table(s@).dom().contains(id@),
{
    let mut i = s.len();
    while i > 0
        invariant
            i <= s@.len(),
            forall|j: int| i <= j < s@.len() ==> (#[trigger] s@[j]).0@ != id@,
        decreases i,
    {
        i -= 1;
        if crate::text::same_text(s[i].0.as_str(), id) {
            proof {
                lemma_table_last(s@, id@, i as int);
            }
            return Some(i);
        }
    }
    proof {
        lemma_table_absent(s@, id@);
    }
    None
}

/// Replaces the value stored for `id`, or appends an entry for it.
pub fn table_insert<V>(s: &mut Vec<(String, V)>, id: &str, v: V)
    ensures
        table(final(s)@) == table(old(s)@).insert(id@, v),
{
    match find_last(s, id) {
        Some(i) => {
            let (k, _) = s.remove(i);
            s.insert(i, (k, v));
            proof {
                lemma_table_update(old(s)@, id@, i as int, final(s)@[i as int]);
                assert(final(s)@ =~= old(s)@.update(i as int, final(s)@[i as int]));
            }
        },
        None => {
            s.push((crate::text::owned(id), v));
            proof {
                assert(final(s)@.drop_last() =~= old(s)@);
            }
        },
    }
}

/// Removes every entry for `id`.
pub fn table_remove<V>(s: &mut Vec<(String, V)>, id: &str)
    ensures
        table(final(s)@) == table(old(s)@).remove(id@),
{
    let mut kept: Vec<(String, V)> = Vec::new();
    let ghost s0 = s@;
    let mut rest: Vec<(String, V)> = Vec::new();
    std::mem::swap(&mut rest, s);
    let n = rest.len();
    let mut i: usize = 0;
    while i < n
        invariant
            i <= n,
            n == s0.len(),
            rest@ == s0.subrange(i as int, n as int),
            table(kept@) == table(s0.take(i as int)).remove(id@),
        decreases n - i,
    {
        let e = rest.remove(0);
        assert(e == s0[i as int]);
        assert(s0.take(i + 1).drop_last() =~= s0.take(i as int));
        assert(s0.take(i + 1).last() == s0[i as int]);
        let ghost before = kept@;
        if !same_text(e.0.as_str(), id) {
            kept.push(e);
            assert(kept@.drop_last() =~= before);
        }
        i += 1;
        assert(rest@ =~= s0.subrange(i as int, n as int));
        assert(table(kept@) =~= table(s0.take(i as int)).remove(id@));
    }
    assert(s0.take(n as int) =~= s0);
    *s = kept;
}

// ---------------------------------------------------------------------------
// Monitors and the session

/// A connected monitor, in physical pixels; `scale` is the bit pattern of
/// its `f64` scale factor.
#[derive(Clone, Debug)]
pub struct Display {
    pub id: String,
    pub name: String,
    pub x: i32,
    pub y: i32,
    pub width: u32,
    pub height: u32,
    pub scale: u64,
}

/// A stroke that fades away `life` ms after `born` (ms since the epoch).
#[derive(Clone, Debug)]
pub struct FadingStroke {
    pub stroke: Stroke,
    pub born: u64,
    pub life: u64,
}

/// A magnified view: `scale`, `x` and `y` are `f64` bit patterns; `image` is
/// the frozen background as a data URL.
#[derive(Clone, Debug)]
pub struct ZoomView {
    pub id: u64,
    pub scale: u64,
    pub x: u64,
    pub y: u64,
    pub image: String,
}

/// Everything the overlay, toolbar and settings windows show.
pub struct Session {
    pub prefs: Preferences,
    pub displays: Vec<Display>,
    pub drawing: bool,
    pub visible: bool,
    pub tool: String,
    pub color: String,
    /// Bit pattern of the current `f64` line width.
    pub width: u64,
    pub documents: Vec<(String, History)>,
    pub warning: Option<String>,
    pub capturing: bool,
    pub boards: Vec<(String, String)>,
    pub fading: Vec<(String, Vec<FadingStroke>)>,
    pub capture_board: String,
    pub zoom: Option<ZoomView>,
    pub zoom_return_tool: String,
    pub zoom_return_width: u64,
}

/// The selected monitor is among the connected displays.
pub open spec fn connected(s: Session) -> bool {
    s.prefs.monitor matches Some(m) && exists|i: int|
        0 <= i < s.displays@.len() && (#[trigger] s.displays@[i]).id@ == m@
}

/// The board of the selected monitor: `screen` unless one was chosen.
pub open spec fn board_of(s: Session) -> Seq<char> {
    match s.prefs.monitor {
        Some(m) => if table(s.boards@).dom().contains(m@) {
            table(s.boards@)[m@]@
        } else {
            "screen"@
        },
        None => "screen"@,
    }
}

/// The board that shows: the monitor's board while drawing on a visible
/// layer, else the screen.
pub open spec fn active_board_of(s: Session) -> Seq<char> {
    if s.drawing && s.visible {
        board_of(s)
    } else {
        "screen"@
    }
}

/// The session after a successful change of drawing mode.
pub open spec fn after_drawing(s: Session, enabled: bool) -> Session {
    Session {
        drawing: enabled,
        visible: if enabled { true } else { s.visible },
        zoom: if !enabled && !s.capturing { None } else { s.zoom },
        ..s
    }
}

/// Why drawing cannot be turned on, if it cannot.
pub open spec fn drawing_refusal(s: Session, enabled: bool) -> Option<Seq<char>> {
    if enabled && s.capturing {
        Some("캡처를 저장하는 중입니다."@)
    } else if enabled && !connected(s) {
        Some("선택한 모니터가 연결되어 있지 않습니다. 설정에서 다시 선택하세요."@)
    } else {
        None
    }
}

impl Session {
    /// A session on `prefs`, after adding missing default shortcuts. Settings
    /// that break a rule are replaced by the defaults, keeping the chosen
    /// monitor; `numbers_ok` is whether the numeric settings are in range and
    /// `accepted` whether the shortcut registry parses the global shortcut.
    /// Existing bindings are kept, and either way the settings keep every
    /// rule that the library decides.
    pub fn new(prefs: Preferences, numbers_ok: bool, accepted: bool) -> (r: Session)
        requires
            ids_unique(bindings_view(prefs.keybindings@)),
        ensures
            ({
                let kb = crate::model::migrated(
                    bindings_view(prefs.keybindings@),
                    crate::model::global_chord(prefs.shortcut@),
                    crate::model::default_table().len(),
                );
                let kept = numbers_ok && crate::model::discrete_settings_with(prefs, kb, accepted);
                &&& kept ==> r.prefs == Preferences { keybindings: r.prefs.keybindings, ..prefs }
                &&& kept ==> bindings_view(r.prefs.keybindings@) == kb
                &&& kept ==> crate::model::discrete_settings_ok(r.prefs, accepted)
                &&& kept ==> bindings_view(prefs.keybindings@).is_prefix_of(bindings_view(r.prefs.keybindings@))
                &&& !kept ==> fresh_preferences(Preferences { monitor: None, ..r.prefs })
                &&& !kept ==> crate::model::discrete_settings_ok(r.prefs, true)
                &&& r.prefs.monitor == prefs.monitor
            }),
            r.displays@.len() == 0,
            !r.drawing,
            r.visible,
            r.tool@ == "pen"@,
            r.color@ == "#8b5cf6"@,
            r.width == r.prefs.pen_width,
            r.documents@.len() == 0,
            r.warning is None,
            !r.capturing,
            r.boards@.len() == 0,
            r.fading@.len() == 0,
            r.capture_board@ == "screen"@,
            r.zoom is None,
            r.zoom_return_tool@ == "pen"@,
            r.zoom_return_width == r.prefs.pen_width,
    {
        let mut prefs = prefs;
        prefs.migrate_bindings();
        let prefs = if numbers_ok && prefs.valid_discrete(accepted) {
            prefs
        } else {
            let mut fresh = default_preferences();
            fresh.monitor = prefs.monitor;
            proof {
                crate::model::lemma_fresh_preferences_are_valid(Preferences { monitor: None, ..fresh });
            }
            fresh
        };
        let width = prefs.pen_width;
        Session {
            prefs,
            displays: Vec::new(),
            drawing: false,
            visible: true,
            tool: owned("pen"),
            color: owned("#8b5cf6"),
            width,
            documents: Vec::new(),
            warning: None,
            capturing: false,
            boards: Vec::new(),
            fading: Vec::new(),
            capture_board: owned("screen"),
            zoom: None,
            zoom_return_tool: owned("pen"),
            zoom_return_width: width,
        }
    }

    /// The position of the selected monitor among the displays, the first
    /// whose identifier matches.
    pub fn selected(&self) -> (r: Option<usize>)
        ensures
            r is Some <==> connected(*self),
            r matches Some(i) ==> (self.prefs.monitor matches Some(m) && i < self.displays@.len()
                && self.displays@[i as int].id@ == m@ && forall|j: int|
                0 <= j < i ==> (#[trigger] self.displays@[j]).id@ != m@),
    {
        let m = match &self.prefs.monitor {
            Some(m) => m,
            None => return None,
        };
        let mut i: usize = 0;
        while i < self.displays.len()
            invariant
                i <= self.displays@.len(),
                self.prefs.monitor == Some(*m),
                forall|j: int| 0 <= j < i ==> (#[trigger] self.displays@[j]).id@ != m@,
            decreases self.displays.len() - i,
        {
            if same_text(self.displays[i].id.as_str(), m.as_str()) {
                return Some(i);
            }
            i += 1;
        }
        None
    }

    /// The board of the selected monitor.
    pub fn board(&self) -> (r: String)
        ensures
            r@ == board_of(*self),
    {
        match &self.prefs.monitor {
            Some(m) => match find_last(&self.boards, m.as_str()) {
                Some(i) => self.boards[i].1.clone(),
                None => owned("screen"),
            },
            None => owned("screen"),
        }
    }

    /// The board that shows now.
    pub fn active_board(&self) -> (r: String)
        ensures
            r@ == active_board_of(*self),
    {
        if self.drawing && self.visible {
            self.board()
        } else {
            owned("screen")
        }
    }

    /// Turns drawing on or off. Drawing cannot start during a capture or
    /// without a connected monitor; turning it off outside a capture also
    /// ends a magnified view, and turning it on shows the layer.
    pub fn drawing(&mut self, enabled: bool) -> (r: Result<(), String>)
        ensures
            match drawing_refusal(*old(self), enabled) {
                Some(e) => r matches Err(m) && m@ == e && *final(self) == *old(self),
                None => r is Ok && *final(self) == after_drawing(*old(self), enabled),
            },
    {
        if enabled && self.capturing {
            return Err(owned("캡처를 저장하는 중입니다."));
        }
        if enabled && self.selected().is_none() {
            return Err(owned("선택한 모니터가 연결되어 있지 않습니다. 설정에서 다시 선택하세요."));
        }
        self.drawing = enabled;
        if !enabled && !self.capturing {
            self.zoom = None;
        }
        if enabled {
            self.visible = true;
        }
        Ok(())
    }
}

// ---------------------------------------------------------------------------
// Toolbar actions

/// No strokes and empty stacks.
pub open spec fn empty_timeline() -> Timeline {
    Timeline { strokes: Seq::empty(), undo: Seq::empty(), redo: Seq::empty() }
}

/// The strokes and stacks of monitor `id`; a monitor without annotations has
/// none.
pub open spec fn timeline_of(docs: Seq<(String, History)>, id: Seq<char>) -> Timeline {
    if table(docs).dom().contains(id) {
        table(docs)[id].timeline()
    } else {
        empty_timeline()
    }
}

/// The annotations of `id`, created empty when the monitor has none yet;
/// returns the position of its entry.
fn document_index(docs: &mut Vec<(String, History)>, id: &str) -> (i: usize)
    ensures
        last_entry(final(docs)@, id@, i as int),
        table(final(docs)@) == table(old(docs)@).insert(id@, final(docs)@[i as int].1),
        final(docs)@[i as int].1.timeline() == timeline_of(old(docs)@, id@),
        !table(old(docs)@).dom().contains(id@) ==> final(docs)@[i as int].1.recording@.len() == 0,
        table(old(docs)@).dom().contains(id@) ==> final(docs)@ == old(docs)@,
{
    match find_last(docs, id) {
        Some(i) => {
            assert(table(old(docs)@).insert(id@, old(docs)@[i as int].1) =~= table(old(docs)@));
            i
        },
        None => {
            let h = History::new();
            assert(h.timeline().strokes =~= empty_timeline().strokes);
            assert(h.timeline().undo =~= empty_timeline().undo);
            assert(h.timeline().redo =~= empty_timeline().redo);
            docs.push((owned(id), h));
            assert(final(docs)@.drop_last() =~= old(docs)@);
            (docs.len() - 1)
        },
    }
}

/// What the windows must do after a command.
#[derive(Debug, Clone, Copy, PartialEq, Eq)]
pub enum Effect {
    /// Leave the application.
    Quit,
    /// Drawing is off; the settings panel is shown if hidden, else hidden.
    ToggleSettings,
    /// Drawing was set to this value: the overlay takes input exactly while
    /// it is on, and takes focus when it comes on.
    Drawing(bool),
    /// Only the published state changed.
    Refresh,
}

/// The board a board action switches to: a named board, or the next of
/// screen, white and black.
pub open spec fn next_board(name: Seq<char>, current: Seq<char>) -> Seq<char> {
    if name == "board_white"@ {
        "white"@
    } else if name == "board_black"@ {
        "black"@
    } else if name == "board_screen"@ {
        "screen"@
    } else if current == "screen"@ {
        "white"@
    } else if current == "white"@ {
        "black"@
    } else {
        "screen"@
    }
}

/// The ink after switching to `board`: white ink on a white board becomes
/// near-black, black ink on a black board near-white.
pub open spec fn ink_for_board(board: Seq<char>, color: Seq<char>) -> Seq<char> {
    if board == "white"@ && (color == "#ffffff"@ || color == "#f8fafc"@) {
        "#171717"@
    } else if board == "black"@ && (color == "#000000"@ || color == "#171717"@) {
        "#f8fafc"@
    } else {
        color
    }
}

pub open spec fn board_action(name: Seq<char>) -> bool {
    name == "board"@ || name == "board_white"@ || name == "board_black"@ || name == "board_screen"@
}

pub open spec fn edit_action(name: Seq<char>) -> bool {
    name == "undo"@ || name == "redo"@ || name == "clear"@
}

/// An undo that the top edit allows.
/// The replay recording of monitor `id`: empty when it has no annotations.
pub open spec fn recorded_of(docs: Seq<(String, History)>, id: Seq<char>) -> Seq<RecordedView> {
    if table(docs).dom().contains(id) {
        table(docs)[id].recorded()
    } else {
        seq![]
    }
}

/// `after`'s recording is `before` with, when `stepped`, one more event
/// that replaces the page by `after`'s strokes.
pub open spec fn records_replace(before: Seq<RecordedView>, after: History, stepped: bool) -> bool {
    &&& stepped ==> {
        &&& after.recorded().len() == before.len() + 1
        &&& after.recorded().drop_last() == before
        &&& after.recorded().last() matches RecordedView::Replace { strokes, .. }
            && strokes == after.timeline().strokes
    }
    &&& !stepped ==> after.recorded() == before
}

pub open spec fn undo_ok(t: Timeline) -> bool {
    t.undo.len() > 0 ==> crate::history::undo_safe(t.strokes, t.undo.last())
}

pub open spec fn redo_ok(t: Timeline) -> bool {
    t.redo.len() > 0 ==> crate::history::redo_safe(t.strokes, t.redo.last())
}

/// The result of a toolbar action and the session after it, but for the
/// ink color, the boards, the annotations and the fading strokes, which
/// `action` states apart.
pub open spec fn action_outcome(s: Session, name: Seq<char>) -> (Session, Result<Effect, Seq<char>>) {
    if name == "quit"@ {
        (s, Ok(Effect::Quit))
    } else if s.capturing && edit_action(name) {
        (s, Err("내보내기 완료 후 편집하세요."@))
    } else if name == "settings"@ {
        (after_drawing(s, false), Ok(Effect::ToggleSettings))
    } else if name == "toggle"@ {
        match drawing_refusal(s, !s.drawing) {
            Some(e) => (s, Err(e)),
            None => (after_drawing(s, !s.drawing), Ok(Effect::Drawing(!s.drawing))),
        }
    } else if name == "zoom_reset"@ {
        if s.capturing {
            (s, Err("내보내기 후 확대를 종료하세요."@))
        } else {
            (Session { zoom: None, ..s }, Ok(Effect::Refresh))
        }
    } else if board_action(name) {
        if s.capturing {
            (s, Err("내보내기 후 보드를 바꾸세요."@))
        } else {
            let cleared = Session { zoom: None, ..s };
            if s.prefs.monitor is None {
                (cleared, Err("모니터를 선택하세요."@))
            } else {
                match drawing_refusal(cleared, true) {
                    Some(e) => (cleared, Err(e)),
                    None => (after_drawing(cleared, true), Ok(Effect::Drawing(true))),
                }
            }
        }
    } else if name == "mouse"@ {
        (after_drawing(s, false), Ok(Effect::Drawing(false)))
    } else if name == "toggle_visibility"@ {
        if s.capturing {
            (s, Err("캡처 저장 후 표시 상태를 바꾸세요."@))
        } else {
            let off = after_drawing(s, false);
            (Session { visible: !off.visible, ..off }, Ok(Effect::Drawing(false)))
        }
    } else if edit_action(name) {
        (s, Ok(Effect::Refresh))
    } else {
        (s, Err("Unknown action"@))
    }
}

pub open spec fn result_view(r: Result<Effect, String>) -> Result<Effect, Seq<char>> {
    match r {
        Ok(e) => Ok(e),
        Err(m) => Err(m@),
    }
}

/// A board action on a monitor that switched the board.
pub open spec fn switches_board(s: Session, name: Seq<char>) -> bool {
    board_action(name) && !s.capturing && s.prefs.monitor is Some && drawing_refusal(
        Session { zoom: None, ..s },
        true,
    ) is None
}

/// An undo, redo or clear on the selected monitor.
pub open spec fn edits_document(s: Session, name: Seq<char>) -> bool {
    edit_action(name) && !s.capturing && s.prefs.monitor is Some
}

/// The action names are told apart by the groups they belong to.
proof fn lemma_action_names()
    ensures
        !board_action("quit"@) && !edit_action("quit"@),
        !board_action("settings"@) && !edit_action("settings"@),
        !board_action("toggle"@) && !edit_action("toggle"@),
        !board_action("zoom_reset"@) && !edit_action("zoom_reset"@),
        !board_action("mouse"@) && !edit_action("mouse"@),
        !board_action("toggle_visibility"@) && !edit_action("toggle_visibility"@),
        !edit_action("board"@) && !edit_action("board_white"@) && !edit_action("board_black"@)
            && !edit_action("board_screen"@),
        "undo"@ != "redo"@ && "undo"@ != "clear"@ && "redo"@ != "clear"@,
        "white"@ != "black"@ && "white"@ != "screen"@ && "black"@ != "screen"@,
{
    reveal_strlit("white");
    reveal_strlit("black");
    reveal_strlit("screen");
    assert("white"@[0] != "black"@[0] && "white"@[0] != "screen"@[0] && "black"@[0] != "screen"@[0]);
    reveal_strlit("quit");
    reveal_strlit("settings");
    reveal_strlit("toggle");
    reveal_strlit("zoom_reset");
    reveal_strlit("mouse");
    reveal_strlit("toggle_visibility");
    reveal_strlit("board");
    reveal_strlit("board_white");
    reveal_strlit("board_black");
    reveal_strlit("board_screen");
    reveal_strlit("undo");
    reveal_strlit("redo");
    reveal_strlit("clear");
    assert("undo"@[0] != "redo"@[0]);
    assert("undo"@[0] != "clear"@[0]);
    assert("redo"@[0] != "clear"@[0]);
    assert("board"@[0] != "undo"@[0] && "board"@[0] != "redo"@[0] && "board"@[0] != "clear"@[0]);
    assert("quit"@[0] != "board"@[0] && "quit"@[0] != "undo"@[0] && "quit"@[0] != "redo"@[0] && "quit"@[0] != "clear"@[0]);
    assert("settings"@[0] != "board"@[0] && "settings"@[0] != "undo"@[0] && "settings"@[0] != "redo"@[0] && "settings"@[0] != "clear"@[0]);
    assert("toggle"@[0] != "board"@[0] && "toggle"@[0] != "undo"@[0] && "toggle"@[0] != "redo"@[0] && "toggle"@[0] != "clear"@[0]);
    assert("zoom_reset"@[0] != "board"@[0] && "zoom_reset"@[0] != "undo"@[0] && "zoom_reset"@[0] != "redo"@[0] && "zoom_reset"@[0] != "clear"@[0]);
    assert("mouse"@[0] != "board"@[0] && "mouse"@[0] != "undo"@[0] && "mouse"@[0] != "redo"@[0] && "mouse"@[0] != "clear"@[0]);
    assert("toggle_visibility"@[0] != "board"@[0] && "toggle_visibility"@[0] != "undo"@[0] && "toggle_visibility"@[0] != "redo"@[0] && "toggle_visibility"@[0] != "clear"@[0]);
    assert("board_white"@[0] != "undo"@[0] && "board_white"@[0] != "redo"@[0] && "board_white"@[0] != "clear"@[0]);
    assert("board_black"@[0] != "undo"@[0] && "board_black"@[0] != "redo"@[0] && "board_black"@[0] != "clear"@[0]);
    assert("board_screen"@[0] != "undo"@[0] && "board_screen"@[0] != "redo"@[0] && "board_screen"@[0] != "clear"@[0]);
    assert("quit"@[0] != "board_white"@[0]);
    assert("settings"@[0] != "board_white"@[0]);
    assert("toggle"@[0] != "board_white"@[0]);
    assert("zoom_reset"@[0] != "board_white"@[0]);
    assert("mouse"@[0] != "board_white"@[0]);
    assert("toggle_visibility"@[0] != "board_white"@[0]);
}

impl Session {
    /// Carries out a toolbar action: quit, settings, toggle, mouse,
    /// toggle_visibility, zoom_reset, board (next board) or board_white,
    /// board_black, board_screen, and undo, redo or clear on the selected
    /// monitor. Edits and board changes are refused during an export.
    pub fn action(&mut self, name: &str) -> (r: Result<Effect, String>)
        ensures
            ({
                let (t, res) = action_outcome(*old(self), name@);
                &&& result_view(r) == res
                &&& *final(self) == Session {
                    color: final(self).color,
                    boards: final(self).boards,
                    documents: final(self).documents,
                    fading: final(self).fading,
                    ..t
                }
            }),
            switches_board(*old(self), name@) ==> ({
                let id = old(self).prefs.monitor->0@;
                let next = next_board(name@, board_of(*old(self)));
                &&& table(final(self).boards@) == table(old(self).boards@).insert(
                    id,
                    table(final(self).boards@)[id],
                )
                &&& table(final(self).boards@)[id]@ == next
                &&& final(self).color@ == ink_for_board(next, old(self).color@)
            }),
            !switches_board(*old(self), name@) ==> final(self).boards == old(self).boards
                && final(self).color == old(self).color,
            edits_document(*old(self), name@) ==> ({
                let id = old(self).prefs.monitor->0@;
                let before = timeline_of(old(self).documents@, id);
                let after = table(final(self).documents@)[id];
                &&& table(final(self).documents@) == table(old(self).documents@).insert(id, after)
                &&& name@ == "undo"@ ==> after.timeline() == if undo_ok(before) {
                    crate::history::undo_step(before)
                } else {
                    before
                }
                &&& name@ == "redo"@ ==> after.timeline() == if redo_ok(before) {
                    crate::history::redo_step(before)
                } else {
                    before
                }
                &&& name@ == "undo"@ ==> records_replace(
                    recorded_of(old(self).documents@, id),
                    after,
                    undo_ok(before) && before.undo.len() > 0,
                )
                &&& name@ == "redo"@ ==> records_replace(
                    recorded_of(old(self).documents@, id),
                    after,
                    redo_ok(before) && before.redo.len() > 0,
                )
                &&& name@ == "clear"@ ==> after.timeline() == empty_timeline()
                    && after.recording@.len() == 0
                &&& name@ == "clear"@ ==> table(final(self).fading@) == table(
                    old(self).fading@,
                ).remove(id)
                &&& name@ != "clear"@ ==> final(self).fading == old(self).fading
            }),
            !edits_document(*old(self), name@) ==> final(self).documents == old(self).documents
                && final(self).fading == old(self).fading,
    {
        proof {
            lemma_action_names();
        }
        if same_text(name, "quit") {
            return Ok(Effect::Quit);
        }
        let is_edit = same_text(name, "undo") || same_text(name, "redo") || same_text(name, "clear");
        if self.capturing && is_edit {
            return Err(owned("내보내기 완료 후 편집하세요."));
        }
        if same_text(name, "settings") {
            let _ = self.drawing(false);
            return Ok(Effect::ToggleSettings);
        }
        if same_text(name, "toggle") {
            let enabled = !self.drawing;
            return match self.drawing(enabled) {
                Ok(()) => Ok(Effect::Drawing(enabled)),
                Err(e) => Err(e),
            };
        }
        if same_text(name, "zoom_reset") {
            if self.capturing {
                return Err(owned("내보내기 후 확대를 종료하세요."));
            }
            self.zoom = None;
            return Ok(Effect::Refresh);
        }
        if same_text(name, "board") || same_text(name, "board_white") || same_text(name, "board_black")
            || same_text(name, "board_screen") {
            if self.capturing {
                return Err(owned("내보내기 후 보드를 바꾸세요."));
            }
            self.zoom = None;
            let current = self.board();
            let next = if same_text(name, "board_white") {
                "white"
            } else if same_text(name, "board_black") {
                "black"
            } else if same_text(name, "board_screen") {
                "screen"
            } else if same_text(current.as_str(), "screen") {
                "white"
            } else if same_text(current.as_str(), "white") {
                "black"
            } else {
                "screen"
            };
            assert(next@ == next_board(name@, board_of(*old(self))));
            let id = match &self.prefs.monitor {
                Some(id) => id.clone(),
                None => return Err(owned("모니터를 선택하세요.")),
            };
            if let Err(e) = self.drawing(true) {
                return Err(e);
            }
            let ghost color0 = self.color@;
            assert(color0 == old(self).color@);
            let value = owned(next);
            table_insert(&mut self.boards, id.as_str(), value);
            assert(table(self.boards@)[id@] == value);
            if same_text(next, "white") && (same_text(self.color.as_str(), "#ffffff") || same_text(
                self.color.as_str(),
                "#f8fafc",
            )) {
                self.color = owned("#171717");
            }
            if same_text(next, "black") && (same_text(self.color.as_str(), "#000000") || same_text(
                self.color.as_str(),
                "#171717",
            )) {
                self.color = owned("#f8fafc");
            }
            return Ok(Effect::Drawing(true));
        }
        if same_text(name, "mouse") {
            let _ = self.drawing(false);
            return Ok(Effect::Drawing(false));
        }
        if same_text(name, "toggle_visibility") {
            if self.capturing {
                return Err(owned("캡처 저장 후 표시 상태를 바꾸세요."));
            }
            let _ = self.drawing(false);
            self.visible = !self.visible;
            return Ok(Effect::Drawing(false));
        }
        if is_edit {
            let id = match &self.prefs.monitor {
                Some(id) => id.clone(),
                None => return Ok(Effect::Refresh),
            };
            if same_text(name, "clear") {
                table_remove(&mut self.fading, id.as_str());
            }
            let i = document_index(&mut self.documents, id.as_str());
            let ghost mid = self.documents@;
            let (k, mut h) = self.documents.remove(i);
            proof {
                if !table(old(self).documents@).dom().contains(id@) {
                    assert(h.recorded() =~= recorded_of(old(self).documents@, id@));
                }
            }
            let ghost rec0 = h.recorded();
            assert(rec0 == recorded_of(old(self).documents@, id@));
            if same_text(name, "undo") {
                if h.can_undo_safely() {
                    h.undo();
                }
            } else if same_text(name, "redo") {
                if h.can_redo_safely() {
                    h.redo();
                }
            } else {
                h.clear();
                assert(h.timeline().strokes =~= empty_timeline().strokes);
                assert(h.timeline().undo =~= empty_timeline().undo);
                assert(h.timeline().redo =~= empty_timeline().redo);
            }
            self.documents.insert(i, (k, h));
            proof {
                lemma_table_update(mid, id@, i as int, self.documents@[i as int]);
                assert(self.documents@ =~= mid.update(i as int, self.documents@[i as int]));
                assert(table(self.documents@) =~= table(old(self).documents@).insert(
                    id@,
                    self.documents@[i as int].1,
                ));
                assert(table(self.documents@)[id@] == self.documents@[i as int].1);
            }
            return Ok(Effect::Refresh);
        }
        Err(owned("Unknown action"))
    }
}

// ---------------------------------------------------------------------------
// Monitor selection, tools and settings

/// The session after the overlay was placed again: drawing off, no
/// magnified view.
pub open spec fn placed(s: Session) -> Session {
    Session { drawing: false, zoom: None, ..s }
}

/// Monitor `id` is among `displays`.
pub open spec fn listed(displays: Seq<Display>, id: Seq<char>) -> bool {
    exists|i: int| 0 <= i < displays.len() && (#[trigger] displays[i]).id@ == id
}

/// The tool that stands for `tool` when a tool choice is checked: the
/// select, zoom and text tools are checked as the pen.
pub open spec fn probe_tool(tool: Seq<char>) -> Seq<char> {
    if tool == "select"@ || tool == "zoom"@ || tool == "text"@ {
        "pen"@
    } else {
        tool
    }
}

/// `set_tool` accepts `tool` with `color`: it draws as a stroke tool (the
/// select, zoom and text tools are checked as the pen) with a `#rrggbb`
/// colour, and `width_ok` says the width is in range.
pub open spec fn tool_accepted(tool: Seq<char>, color: Seq<char>, width_ok: bool) -> bool {
    &&& crate::model::stroke_tool_ok(probe_tool(tool))
    &&& probe_tool(tool) != "text"@
    &&& crate::model::hex_color_ok(color)
    &&& width_ok
}

/// The tool a magnified view returns to: the current tool, with select
/// returning to the pen.
pub open spec fn return_tool(tool: Seq<char>) -> Seq<char> {
    if tool == "select"@ {
        "pen"@
    } else {
        tool
    }
}

/// The session's settings may be replaced: the new ones are valid and no
/// export is running. `numbers_ok` is whether the numeric settings are in
/// range, `accepted` whether the registry parses the global shortcut.
pub open spec fn configure_refusal(s: Session, p: Preferences, numbers_ok: bool, accepted: bool) -> Option<Seq<char>> {
    if !(numbers_ok && crate::model::discrete_settings_ok(p, accepted)) {
        Some(
            "설정 값을 확인하세요. 켜진 단축키는 서로 중복될 수 없으며, 전역 단축키는 Ctrl/⌘·Alt 조합 또는 F1–F12여야 합니다."@,
        )
    } else if s.capturing {
        Some("캡처 저장 후 설정을 변경하세요."@)
    } else {
        None
    }
}

impl Session {
    /// Places the overlay again: drawing stops and a magnified view ends.
    pub fn place(&mut self)
        ensures
            *final(self) == placed(*old(self)),
    {
        self.drawing = false;
        self.zoom = None;
    }

    /// Selects monitor `id` among `displays`, the monitors connected now.
    /// Refused during a capture, and when `id` is not connected (the display
    /// list is updated either way). Returns the monitor selected before, so
    /// that a failed placement or save can be undone with `restore_monitor`.
    pub fn select_monitor(&mut self, id: &str, displays: Vec<Display>) -> (r: Result<Option<String>, String>)
        ensures
            old(self).capturing ==> (r matches Err(e) && e@ == "캡처 저장 후 모니터를 변경하세요."@),
            old(self).capturing ==> *final(self) == *old(self),
            !old(self).capturing && !listed(displays@, id@) ==> (r matches Err(e) && e@
                == "모니터 연결이 변경되었습니다. 다시 선택하세요."@),
            !old(self).capturing && !listed(displays@, id@) ==> *final(self) == (Session {
                displays,
                ..*old(self)
            }),
            !old(self).capturing && listed(displays@, id@) ==> (r matches Ok(previous) && previous
                == old(self).prefs.monitor),
            !old(self).capturing && listed(displays@, id@) ==> (final(self).prefs.monitor matches Some(
                m,
            ) && m@ == id@),
            !old(self).capturing && listed(displays@, id@) ==> *final(self) == placed(
                (Session {
                    displays,
                    prefs: (Preferences { monitor: final(self).prefs.monitor, ..old(self).prefs }),
                    ..*old(self)
                }),
            ),
    {
        if self.capturing {
            return Err(owned("캡처 저장 후 모니터를 변경하세요."));
        }
        self.displays = displays;
        let mut found = false;
        let mut i: usize = 0;
        while i < self.displays.len()
            invariant
                i <= self.displays@.len(),
                found == exists|j: int| 0 <= j < i && (#[trigger] self.displays@[j]).id@ == id@,
            decreases self.displays.len() - i,
        {
            if same_text(self.displays[i].id.as_str(), id) {
                found = true;
            }
            i += 1;
        }
        if !found {
            return Err(owned("모니터 연결이 변경되었습니다. 다시 선택하세요."));
        }
        let previous = self.prefs.monitor.take();
        self.prefs.monitor = Some(owned(id));
        self.place();
        Ok(previous)
    }

    /// Puts back the monitor selected before and places the overlay again.
    pub fn restore_monitor(&mut self, monitor: Option<String>)
        ensures
            *final(self) == placed(
                (Session { prefs: (Preferences { monitor, ..old(self).prefs }), ..*old(self) }),
            ),
    {
        self.prefs.monitor = monitor;
        self.place();
    }

    /// Chooses a drawing tool with its color and width (`width` is an `f64`
    /// bit pattern; `width_ok` whether it is finite and within 0.25..=80).
    /// Choosing zoom remembers the tool and width to return to and ends a
    /// magnified view.
    pub fn set_tool(&mut self, tool: String, color: String, width: u64, width_ok: bool) -> (r: Result<(), String>)
        ensures
            !tool_accepted(tool@, color@, width_ok) ==> (r matches Err(e) && e@ == "Invalid tool"@)
                && *final(self) == *old(self),
            tool_accepted(tool@, color@, width_ok) && old(self).capturing ==> (r matches Err(e) && e@
                == "내보내기 후 도구를 변경하세요."@) && *final(self) == *old(self),
            tool_accepted(tool@, color@, width_ok) && !old(self).capturing ==> r is Ok,
            r is Ok ==> final(self).tool == tool && final(self).color == color && final(self).width
                == width,
            r is Ok && tool@ == "zoom"@ && old(self).tool@ != "zoom"@ ==> final(self).zoom_return_width
                == old(self).width && final(self).zoom_return_tool@ == return_tool(old(self).tool@)
                && final(self).zoom is None,
            r is Ok && tool@ == "zoom"@ && old(self).tool@ == "zoom"@ ==> final(self).zoom_return_width
                == old(self).zoom_return_width && final(self).zoom_return_tool
                == old(self).zoom_return_tool && final(self).zoom is None,
            r is Ok && tool@ != "zoom"@ ==> final(self).zoom_return_width == old(self).zoom_return_width
                && final(self).zoom_return_tool == old(self).zoom_return_tool && final(self).zoom
                == old(self).zoom,
            r is Ok ==> *final(self) == (Session {
                tool: final(self).tool,
                color: final(self).color,
                width: final(self).width,
                zoom: final(self).zoom,
                zoom_return_tool: final(self).zoom_return_tool,
                zoom_return_width: final(self).zoom_return_width,
                ..*old(self)
            }),
    {
        let t = tool.as_str();
        let probe = if same_text(t, "select") || same_text(t, "zoom") || same_text(t, "text") {
            "pen"
        } else {
            t
        };
        proof {
            reveal_strlit("pen");
            reveal_strlit("text");
            assert("pen"@[0] != "text"@[0]);
        }
        let probe_ok = (same_text(probe, "pen") || same_text(probe, "marker") || same_text(probe, "fade")
            || same_text(probe, "eraser") || same_text(probe, "line") || same_text(probe, "rectangle")
            || same_text(probe, "ellipse")) && crate::model::valid_color(color.as_str()) && width_ok;
        assert(probe@ == probe_tool(tool@));
        if !probe_ok {
            return Err(owned("Invalid tool"));
        }
        if self.capturing {
            return Err(owned("내보내기 후 도구를 변경하세요."));
        }
        if same_text(t, "zoom") {
            if !same_text(self.tool.as_str(), "zoom") {
                self.zoom_return_width = self.width;
                self.zoom_return_tool = if same_text(self.tool.as_str(), "select") {
                    owned("pen")
                } else {
                    self.tool.clone()
                };
            }
            self.zoom = None;
        }
        self.tool = tool;
        self.color = color;
        self.width = width;
        Ok(())
    }

    /// Checks new settings before they replace the current ones; on success
    /// tells whether the global shortcut or its switch changed, in which case
    /// a new shortcut that is on must be registered first.
    pub fn check_configure(&self, prefs: &Preferences, numbers_ok: bool, accepted: bool) -> (r: Result<bool, String>)
        requires
            ids_unique(bindings_view(prefs.keybindings@)),
        ensures
            match configure_refusal(*self, *prefs, numbers_ok, accepted) {
                Some(e) => r matches Err(m) && m@ == e,
                None => r matches Ok(changed) && changed == (prefs.shortcut@ != self.prefs.shortcut@
                    || prefs.global_shortcut_enabled != self.prefs.global_shortcut_enabled),
            },
    {
        if !(numbers_ok && prefs.valid_discrete(accepted)) {
            return Err(
                owned(
                    "설정 값을 확인하세요. 켜진 단축키는 서로 중복될 수 없으며, 전역 단축키는 Ctrl/⌘·Alt 조합 또는 F1–F12여야 합니다.",
                ),
            );
        }
        if self.capturing {
            return Err(owned("캡처 저장 후 설정을 변경하세요."));
        }
        Ok(!same_text(prefs.shortcut.as_str(), self.prefs.shortcut.as_str())
            || prefs.global_shortcut_enabled != self.prefs.global_shortcut_enabled)
    }

    /// Replaces the settings, keeping the selected monitor, and returns the
    /// settings before.
    pub fn apply_configure(&mut self, prefs: Preferences) -> (r: Preferences)
        ensures
            r == old(self).prefs,
            final(self).prefs == (Preferences { monitor: old(self).prefs.monitor, ..prefs }),
            *final(self) == (Session { prefs: final(self).prefs, ..*old(self) }),
    {
        let mut prefs = prefs;
        prefs.monitor = self.prefs.monitor.clone();
        std::mem::swap(&mut self.prefs, &mut prefs);
        prefs
    }

    /// Puts back settings that could not be placed or saved.
    pub fn restore_preferences(&mut self, previous: Preferences)
        ensures
            *final(self) == (Session { prefs: previous, ..*old(self) }),
    {
        self.prefs = previous;
    }

    /// After settings were saved: when the configured width of the current
    /// tool changed, the current width follows it.
    pub fn finish_configure(&mut self, previous: &Preferences)
        ensures
            ({
                let now = crate::model::configured_width(final(self).prefs, final(self).tool@);
                let before = crate::model::configured_width(*previous, old(self).tool@);
                &&& now != before ==> final(self).width == now
                &&& now == before ==> final(self).width == old(self).width
            }),
            *final(self) == (Session { width: final(self).width, ..*old(self) }),
    {
        let configured = self.prefs.width_for(self.tool.as_str());
        if configured != previous.width_for(self.tool.as_str()) {
            self.width = configured;
        }
    }
}

// ---------------------------------------------------------------------------
// Strokes

/// Most strokes kept on one monitor.
pub const STROKE_LIMIT: usize = 5000;

/// Most fading strokes shown on one monitor at once.
pub const FADING_LIMIT: usize = 200;

/// A fading stroke is still shown at `now`.
pub open spec fn alive(f: FadingStroke, now: u64) -> bool {
    now < f.born + f.life
}

/// The fading strokes still shown at `now`, in order.
pub open spec fn alive_items(s: Seq<FadingStroke>, now: u64) -> Seq<FadingStroke>
    decreases s.len(),
{
    if s.len() == 0 {
        s
    } else if alive(s.last(), now) {
        alive_items(s.drop_last(), now).push(s.last())
    } else {
        alive_items(s.drop_last(), now)
    }
}

/// Drops the fading strokes that are no longer shown at `now`.
pub fn prune(items: &mut Vec<FadingStroke>, now: u64)
    ensures
        final(items)@ == alive_items(old(items)@, now),
{
    let ghost s0 = items@;
    let mut rest: Vec<FadingStroke> = Vec::new();
    std::mem::swap(&mut rest, items);
    let n = rest.len();
    let mut i: usize = 0;
    while i < n
        invariant
            i <= n,
            n == s0.len(),
            rest@ == s0.subrange(i as int, n as int),
            items@ == alive_items(s0.take(i as int), now),
        decreases n - i,
    {
        let f = rest.remove(0);
        assert(f == s0[i as int]);
        assert(s0.take(i + 1).drop_last() =~= s0.take(i as int));
        assert(s0.take(i + 1).last() == s0[i as int]);
        if (now as u128) < (f.born as u128) + (f.life as u128) {
            items.push(f);
        }
        i += 1;
        assert(rest@ =~= s0.subrange(i as int, n as int));
    }
    assert(s0.take(n as int) =~= s0);
}

/// The fading strokes of a monitor after one more: those still shown, less
/// the oldest when the limit is reached, then the new one.
pub open spec fn faded_in(items: Seq<FadingStroke>, now: u64) -> Seq<FadingStroke> {
    let a = alive_items(items, now);
    if a.len() >= FADING_LIMIT {
        a.drop_first()
    } else {
        a
    }
}

/// Why a finished stroke is refused, if it is: `numbers_ok` is whether its
/// width, opacity, coordinates and text box are in range.
pub open spec fn stroke_refusal(s: Session, monitor: Seq<char>, stroke: Stroke, numbers_ok: bool) -> Option<Seq<char>> {
    if !(numbers_ok && crate::model::stroke_shape_ok(stroke@)) {
        Some("Invalid stroke"@)
    } else if !(s.prefs.monitor matches Some(m) && m@ == monitor) || !s.drawing {
        None
    } else if !connected(s) {
        Some("모니터 연결이 해제되었습니다."@)
    } else {
        None
    }
}

/// The stroke lands on the monitor: it is valid, drawn on the selected and
/// connected monitor while drawing.
pub open spec fn stroke_lands(s: Session, monitor: Seq<char>, stroke: Stroke, numbers_ok: bool) -> bool {
    &&& numbers_ok && crate::model::stroke_shape_ok(stroke@)
    &&& s.prefs.monitor matches Some(m) && m@ == monitor
    &&& s.drawing
    &&& connected(s)
}

/// The annotations of `id` are unchanged, or an entry for `id` was added
/// or replaced.
pub open spec fn only_document(before: Seq<(String, History)>, after: Seq<(String, History)>, id: Seq<char>) -> bool {
    &&& table(after).dom().contains(id)
    &&& table(after) == table(before).insert(id, table(after)[id])
}

/// A move or resize on `monitor` may proceed: the select tool is in use
/// while drawing on that monitor, outside a capture.
pub open spec fn gesture_allowed(s: Session, monitor: Seq<char>) -> bool {
    &&& !s.capturing
    &&& s.drawing
    &&& s.tool@ == "select"@
    &&& s.prefs.monitor matches Some(m) && m@ == monitor
}

impl Session {
    /// Takes a finished stroke from the overlay of `monitor`. A fading
    /// stroke joins the monitor's fading strokes for `fade_seconds` and the
    /// replay; an eraser stroke erases the strokes flagged in `hits`; any
    /// other stroke is added, up to `STROKE_LIMIT` per monitor. A stroke for
    /// another monitor, or finished after drawing stopped, is dropped.
    pub fn add_stroke(&mut self, monitor: &str, stroke: Stroke, numbers_ok: bool, now: u64, hits: &[bool]) -> (r: Result<(), String>)
        requires
            old(self).prefs.fade_seconds * 1000 <= u64::MAX,
            stroke.tool@ == "eraser"@ ==> hits@.len() == timeline_of(
                old(self).documents@,
                monitor@,
            ).strokes.len(),
        ensures
            stroke_refusal(*old(self), monitor@, stroke, numbers_ok) matches Some(e) ==> (r matches Err(
                m,
            ) && m@ == e) && *final(self) == *old(self),
            stroke_refusal(*old(self), monitor@, stroke, numbers_ok) is None && !stroke_lands(
                *old(self),
                monitor@,
                stroke,
                numbers_ok,
            ) ==> r is Ok && *final(self) == *old(self),
            stroke_lands(*old(self), monitor@, stroke, numbers_ok) ==> *final(self) == (Session {
                documents: final(self).documents,
                fading: final(self).fading,
                ..*old(self)
            }),
            stroke_lands(*old(self), monitor@, stroke, numbers_ok) ==> only_document(
                old(self).documents@,
                final(self).documents@,
                monitor@,
            ),
            stroke_lands(*old(self), monitor@, stroke, numbers_ok) && stroke.tool@ == "fade"@ ==> ({
                let life = (old(self).prefs.fade_seconds * 1000) as u64;
                let before = if table(old(self).fading@).dom().contains(monitor@) {
                    table(old(self).fading@)[monitor@]@
                } else {
                    Seq::empty()
                };
                let after = table(final(self).fading@)[monitor@]@;
                let doc = table(final(self).documents@)[monitor@];
                &&& r is Ok
                &&& table(final(self).fading@) == table(old(self).fading@).insert(
                    monitor@,
                    table(final(self).fading@)[monitor@],
                )
                &&& after.drop_last() == faded_in(before, now)
                &&& after.last().stroke@ == stroke@ && after.last().born == now
                    && after.last().life == life
                &&& doc.timeline() == timeline_of(old(self).documents@, monitor@)
                &&& doc.recorded().last() matches crate::history::RecordedView::Fade {
                    stroke: s,
                    life: l,
                    ..
                } && s == stroke@ && l == life
            }),
            stroke_lands(*old(self), monitor@, stroke, numbers_ok) && stroke.tool@ != "fade"@
                ==> final(self).fading == old(self).fading,
            stroke_lands(*old(self), monitor@, stroke, numbers_ok) && stroke.tool@ == "eraser"@ ==> r is Ok
                && table(final(self).documents@)[monitor@].timeline() == crate::history::erase_step(
                timeline_of(old(self).documents@, monitor@),
                hits@,
            ),
            stroke_lands(*old(self), monitor@, stroke, numbers_ok) && stroke.tool@ != "fade"@
                && stroke.tool@ != "eraser"@ ==> ({
                let before = timeline_of(old(self).documents@, monitor@);
                let doc = table(final(self).documents@)[monitor@];
                &&& before.strokes.len() >= STROKE_LIMIT ==> (r matches Err(e) && e@
                    == "필기가 5,000개를 넘었습니다. 전체 지우기 후 계속하세요."@) && doc.timeline()
                    == before
                &&& before.strokes.len() < STROKE_LIMIT ==> r is Ok && doc.timeline()
                    == crate::history::push_step(before, stroke@)
            }),
    {
        if !(numbers_ok && stroke.valid_shape()) {
            return Err(owned("Invalid stroke"));
        }
        let same = match &self.prefs.monitor {
            Some(m) => same_text(m.as_str(), monitor),
            None => false,
        };
        if !same || !self.drawing {
            return Ok(());
        }
        if self.selected().is_none() {
            return Err(owned("모니터 연결이 해제되었습니다."));
        }
        proof {
            reveal_strlit("fade");
            reveal_strlit("eraser");
            assert("fade"@[0] != "eraser"@[0]);
        }
        let i = document_index(&mut self.documents, monitor);
        let ghost mid = self.documents@;
        let (k, mut h) = self.documents.remove(i);
        let mut result: Result<(), String> = Ok(());
        if same_text(stroke.tool.as_str(), "fade") {
            let life = self.prefs.fade_seconds * 1000;
            let ghost f0 = self.fading@;
            let mut items = match find_last(&self.fading, monitor) {
                Some(j) => {
                    let (_, items) = self.fading.remove(j);
                    self.fading.insert(j, (owned(monitor), Vec::new()));
                    proof {
                        lemma_table_update(f0, monitor@, j as int, self.fading@[j as int]);
                        assert(self.fading@ =~= f0.update(j as int, self.fading@[j as int]));
                    }
                    items
                },
                None => Vec::new(),
            };
            let ghost before = items@;
            prune(&mut items, now);
            if items.len() >= FADING_LIMIT {
                items.remove(0);
                assert(items@ =~= alive_items(before, now).drop_first());
            }
            items.push(FadingStroke { stroke: stroke.duplicate(), born: now, life });
            table_insert(&mut self.fading, monitor, items);
            assert(table(self.fading@) =~= table(f0).insert(monitor@, table(self.fading@)[monitor@]));
            h.record_fade(stroke, life);
        } else if same_text(stroke.tool.as_str(), "eraser") {
            h.erase(hits);
        } else if h.strokes.len() >= STROKE_LIMIT {
            result = Err(owned("필기가 5,000개를 넘었습니다. 전체 지우기 후 계속하세요."));
        } else {
            h.push(stroke);
        }
        self.documents.insert(i, (k, h));
        proof {
            lemma_table_update(mid, monitor@, i as int, self.documents@[i as int]);
            assert(self.documents@ =~= mid.update(i as int, self.documents@[i as int]));
            assert(table(self.documents@) =~= table(old(self).documents@).insert(
                monitor@,
                self.documents@[i as int].1,
            ));
            assert(table(self.documents@)[monitor@] == self.documents@[i as int].1);
        }
        result
    }

    /// Whether a move or resize on `monitor` may proceed: only with the
    /// select tool, while drawing on that monitor and outside a capture;
    /// otherwise `message` is the error.
    pub fn check_select_gesture(&self, monitor: &str, message: &str) -> (r: Result<(), String>)
        ensures
            r is Ok <==> gesture_allowed(*self, monitor@),
            r matches Err(e) ==> e@ == message@,
    {
        let same = match &self.prefs.monitor {
            Some(m) => same_text(m.as_str(), monitor),
            None => false,
        };
        if self.capturing || !self.drawing || !same_text(self.tool.as_str(), "select") || !same {
            return Err(owned(message));
        }
        Ok(())
    }

    /// Moves stroke `index` of `monitor` to `points` (computed from the
    /// drag by the caller, `None` when it moves nothing), when the select
    /// gesture is allowed and the monitor has annotations.
    pub fn move_stroke(&mut self, monitor: &str, index: usize, points: Option<Vec<Point>>, duration: u64) -> (r: Result<(), String>)
        ensures
            r is Ok <==> gesture_allowed(*old(self), monitor@),
            r matches Err(e) ==> e@ == "이동 상태가 변경되었습니다."@ && *final(self) == *old(self),
            *final(self) == (Session { documents: final(self).documents, ..*old(self) }),
            !table(old(self).documents@).dom().contains(monitor@) ==> final(self).documents
                == old(self).documents,
            r is Ok && table(old(self).documents@).dom().contains(monitor@) ==> only_document(
                old(self).documents@,
                final(self).documents@,
                monitor@,
            ),
            r is Ok && table(old(self).documents@).dom().contains(monitor@) ==> ({
                let before = timeline_of(old(self).documents@, monitor@);
                let moved = index < before.strokes.len() && duration <= crate::history::GESTURE_LIMIT
                    && points is Some && points->0@.len() == before.strokes[index as int].points.len();
                let old_doc = table(old(self).documents@)[monitor@];
                let doc = table(final(self).documents@)[monitor@];
                let after = reshape(before.strokes[index as int], points->0@, before.strokes[index as int].width);
                &&& moved ==> doc.timeline() == crate::history::move_step(before, index as int, after)
                &&& moved ==> doc.records_move(old_doc, index as int, duration, after)
                &&& moved && stroke_shape_ok(before.strokes[index as int]) ==> stroke_shape_ok(after)
                &&& !moved ==> doc == old_doc
            }),
    {
        if let Err(e) = self.check_select_gesture(monitor, "이동 상태가 변경되었습니다.") {
            return Err(e);
        }
        if let Some(i) = find_last(&self.documents, monitor) {
            let ghost mid = self.documents@;
            let (k, mut h) = self.documents.remove(i);
            h.move_stroke(index, points, duration);
            self.documents.insert(i, (k, h));
            proof {
                lemma_table_update(mid, monitor@, i as int, self.documents@[i as int]);
                assert(self.documents@ =~= mid.update(i as int, self.documents@[i as int]));
            }
        }
        Ok(())
    }

    /// Resizes stroke `index` of `monitor` by corner `handle` to `shape`,
    /// its new points and width (computed by the caller, `None` when nothing
    /// changes), when the select gesture is allowed, the monitor is connected
    /// and has annotations.
    pub fn resize_stroke(&mut self, monitor: &str, index: usize, handle: &str, shape: Option<(Vec<Point>, u64)>, duration: u64) -> (r: Result<(), String>)
        ensures
            !gesture_allowed(*old(self), monitor@) ==> (r matches Err(e)
                && e@ == "크기 조절 상태가 변경되었습니다."@) && *final(self) == *old(self),
            gesture_allowed(*old(self), monitor@) && !connected(*old(self))
                ==> (r matches Err(e) && e@ == "모니터 연결이 해제되었습니다."@) && *final(self)
                == *old(self),
            *final(self) == (Session { documents: final(self).documents, ..*old(self) }),
            !table(old(self).documents@).dom().contains(monitor@) ==> final(self).documents
                == old(self).documents,
            r is Ok && table(old(self).documents@).dom().contains(monitor@) ==> only_document(
                old(self).documents@,
                final(self).documents@,
                monitor@,
            ),
            r is Ok && table(old(self).documents@).dom().contains(monitor@) ==> ({
                let before = timeline_of(old(self).documents@, monitor@);
                let corner = handle@ == "nw"@ || handle@ == "ne"@ || handle@ == "sw"@ || handle@ == "se"@;
                let after = reshape(before.strokes[index as int], (shape->0).0@, (shape->0).1);
                let moved = corner && index < before.strokes.len() && duration
                    <= crate::history::GESTURE_LIMIT && shape is Some
                    && (shape->0).0@.len() == before.strokes[index as int].points.len()
                    && stroke_shape_ok(after);
                let old_doc = table(old(self).documents@)[monitor@];
                let doc = table(final(self).documents@)[monitor@];
                &&& moved ==> doc.timeline() == crate::history::move_step(before, index as int, after)
                &&& moved ==> doc.records_move(old_doc, index as int, duration, after)
                &&& !moved ==> doc == old_doc
            }),
            r is Ok <==> (gesture_allowed(*old(self), monitor@) && connected(*old(self))),
    {
        if let Err(e) = self.check_select_gesture(monitor, "크기 조절 상태가 변경되었습니다.") {
            return Err(e);
        }
        if self.selected().is_none() {
            return Err(owned("모니터 연결이 해제되었습니다."));
        }
        if let Some(i) = find_last(&self.documents, monitor) {
            let ghost mid = self.documents@;
            let (k, mut h) = self.documents.remove(i);
            h.resize_stroke(index, handle, shape, duration);
            self.documents.insert(i, (k, h));
            proof {
                lemma_table_update(mid, monitor@, i as int, self.documents@[i as int]);
                assert(self.documents@ =~= mid.update(i as int, self.documents@[i as int]));
            }
        }
        Ok(())
    }
}

// ---------------------------------------------------------------------------
// Captures, magnified views and exports

/// The session is on monitor `monitor`.
pub open spec fn on_monitor(s: Session, monitor: Seq<char>) -> bool {
    s.prefs.monitor matches Some(m) && m@ == monitor
}

/// What a GIF export starts from.
pub struct GifStart {
    /// Position of the selected monitor among the displays.
    pub display: usize,
    /// Position of the monitor's annotations among the documents.
    pub document: usize,
    /// The board that shows.
    pub board: String,
    /// The frozen magnified background, when the export uses the screen as
    /// background while a magnified view is up.
    pub zoom_background: Option<String>,
    /// Whether the export uses the screen (or its board) as background.
    pub screen_background: bool,
}

impl Session {
    /// Asks the overlay for a screenshot of the selected monitor: remembers
    /// the board that shows, starts the capture and stops drawing.
    pub fn request_capture(&mut self) -> (r: Result<(), String>)
        ensures
            old(self).capturing ==> (r matches Err(e) && e@ == "캡처를 저장하는 중입니다."@)
                && *final(self) == *old(self),
            !old(self).capturing && !connected(*old(self)) ==> (r matches Err(e) && e@
                == "캡처할 모니터를 선택하세요."@) && *final(self) == *old(self),
            !old(self).capturing && connected(*old(self)) ==> r is Ok && final(self).capture_board@
                == active_board_of(*old(self)) && *final(self) == after_drawing(
                (Session {
                    capturing: true,
                    capture_board: final(self).capture_board,
                    ..*old(self)
                }),
                false,
            ),
    {
        if self.capturing {
            return Err(owned("캡처를 저장하는 중입니다."));
        }
        if self.selected().is_none() {
            return Err(owned("캡처할 모니터를 선택하세요."));
        }
        self.capture_board = self.active_board();
        self.capturing = true;
        let _ = self.drawing(false);
        Ok(())
    }

    /// Ends a capture that could not start.
    pub fn abandon_capture(&mut self)
        ensures
            *final(self) == (Session { capturing: false, ..*old(self) }),
    {
        self.capturing = false;
    }

    /// Ends a capture, a magnified view's preparation or an export, and the
    /// magnified view with it.
    pub fn unlock(&mut self)
        ensures
            *final(self) == (Session { capturing: false, zoom: None, ..*old(self) }),
    {
        self.capturing = false;
        self.zoom = None;
    }

    /// The monitor a screenshot from the overlay of `monitor` is saved for:
    /// the capture must still run on that monitor, and it must be connected.
    pub fn capture_target(&self, monitor: &str) -> (r: Result<usize, String>)
        ensures
            !(self.capturing && on_monitor(*self, monitor@)) ==> (r matches Err(e) && e@
                == "캡처 도중 모니터가 변경되었습니다."@),
            (self.capturing && on_monitor(*self, monitor@)) && !connected(*self)
                ==> (r matches Err(e) && e@ == "모니터 연결이 해제되었습니다."@),
            r matches Ok(i) ==> (self.capturing && connected(*self) && on_monitor(*self, monitor@)
                && i < self.displays@.len() && self.displays@[i as int].id@ == monitor@),
            r is Ok <==> (self.capturing && on_monitor(*self, monitor@) && connected(*self)),
    {
        let same = match &self.prefs.monitor {
            Some(m) => same_text(m.as_str(), monitor),
            None => false,
        };
        if !self.capturing || !same {
            return Err(owned("캡처 도중 모니터가 변경되었습니다."));
        }
        match self.selected() {
            Some(i) => Ok(i),
            None => Err(owned("모니터 연결이 해제되었습니다.")),
        }
    }

    /// Starts preparing a magnified view of `monitor`: returns the display
    /// and the board to freeze, starts the capture and stops drawing.
    pub fn begin_zoom(&mut self, monitor: &str) -> (r: Result<(usize, String), String>)
        ensures
            !(!old(self).capturing && old(self).drawing && on_monitor(*old(self), monitor@)) ==> (r matches Err(e) && e@ == "확대할 모니터 상태가 변경되었습니다."@)
                && *final(self) == *old(self),
            (!old(self).capturing && old(self).drawing && on_monitor(*old(self), monitor@))
                && !connected(*old(self)) ==> (r matches Err(e) && e@
                == "모니터 연결이 해제되었습니다."@) && *final(self) == *old(self),
            r matches Ok((i, board)) ==> (i < old(self).displays@.len() && board@ == active_board_of(
                *old(self),
            ) && old(self).displays@[i as int].id@ == monitor@),
            r is Ok ==> *final(self) == after_drawing(
                (Session { capturing: true, ..*old(self) }),
                false,
            ),
            r is Ok <==> (!old(self).capturing && old(self).drawing && connected(*old(self))
                && on_monitor(*old(self), monitor@)),
    {
        let same = match &self.prefs.monitor {
            Some(m) => same_text(m.as_str(), monitor),
            None => false,
        };
        if self.capturing || !self.drawing || !same {
            return Err(owned("확대할 모니터 상태가 변경되었습니다."));
        }
        let i = match self.selected() {
            Some(i) => i,
            None => return Err(owned("모니터 연결이 해제되었습니다.")),
        };
        let board = self.active_board();
        self.capturing = true;
        let _ = self.drawing(false);
        Ok((i, board))
    }

    /// Ends the preparation of a magnified view of `monitor` with the frozen
    /// `image` (or the error that prevented it): the view opens at `scale`
    /// around `x`, `y` (`f64` bit patterns, already clamped) when the monitor
    /// is still selected and connected, returning to the tool and width used
    /// before zooming, with drawing on.
    pub fn finish_zoom(&mut self, monitor: &str, image: Result<String, String>, id: u64, scale: u64, x: u64, y: u64) -> (r: Result<(), String>)
        ensures
            image is Err ==> (r matches Err(e) && e@ == image->Err_0@) && *final(self) == (Session {
                capturing: false,
                zoom: None,
                ..*old(self)
            }),
            image is Ok && !(on_monitor(*old(self), monitor@) && connected(*old(self))) ==> (r matches Err(e) && e@ == "모니터가 변경되어 확대를 취소했습니다."@) && *final(self)
                == (Session { capturing: false, ..*old(self) }),
            image is Ok && (on_monitor(*old(self), monitor@) && connected(*old(self))) ==> r is Ok && *final(self) == after_drawing(
                (Session {
                    capturing: false,
                    zoom: Some(ZoomView { id, scale, x, y, image: image->Ok_0 }),
                    tool: final(self).tool,
                    width: old(self).zoom_return_width,
                    ..*old(self)
                }),
                true,
            ) && final(self).tool@ == old(self).zoom_return_tool@,
    {
        self.capturing = false;
        match image {
            Ok(image) => {
                let same = match &self.prefs.monitor {
                    Some(m) => same_text(m.as_str(), monitor),
                    None => false,
                };
                if !same || self.selected().is_none() {
                    return Err(owned("모니터가 변경되어 확대를 취소했습니다."));
                }
                self.zoom = Some(ZoomView { id, scale, x, y, image });
                self.tool = self.zoom_return_tool.clone();
                self.width = self.zoom_return_width;
                self.drawing(true)
            },
            Err(e) => {
                self.zoom = None;
                Err(e)
            },
        }
    }

    /// The frozen image of magnified view `id`, while that view is up.
    pub fn zoom_image(&self, id: u64) -> (r: Result<String, String>)
        ensures
            (self.zoom matches Some(z) && z.id == id) ==> (r matches Ok(image) && image@
                == self.zoom->0.image@),
            !(self.zoom matches Some(z) && z.id == id) ==> (r matches Err(e) && e@
                == "확대 화면이 변경되었습니다."@),
    {
        match &self.zoom {
            Some(z) => if z.id == id {
                Ok(z.image.clone())
            } else {
                Err(owned("확대 화면이 변경되었습니다."))
            },
            None => Err(owned("확대 화면이 변경되었습니다.")),
        }
    }

    /// Checks that a GIF export can start and gathers what it starts from:
    /// no export runs, the monitor is connected and its annotations have a
    /// recording.
    pub fn check_gif(&self) -> (r: Result<GifStart, String>)
        ensures
            self.capturing ==> (r matches Err(e) && e@ == "이미 내보내는 중입니다."@),
            !self.capturing && !connected(*self) ==> (r matches Err(e) && e@
                == "모니터 연결이 해제되었습니다."@),
            !self.capturing && connected(*self) && !(table(self.documents@).dom().contains(
                self.prefs.monitor->0@,
            ) && table(self.documents@)[self.prefs.monitor->0@].recording@.len() > 0) ==> (r matches Err(
                e,
            ) && e@ == "기록된 필기가 없습니다."@),
            !self.capturing && connected(*self) && table(self.documents@).dom().contains(
                self.prefs.monitor->0@,
            ) && table(self.documents@)[self.prefs.monitor->0@].recording@.len() > 0 ==> r is Ok,
            r matches Ok(g) ==> ({
                let id = self.prefs.monitor->0@;
                &&& !self.capturing && connected(*self)
                &&& g.display < self.displays@.len() && self.displays@[g.display as int].id@ == id
                &&& last_entry(self.documents@, id, g.document as int)
                &&& self.documents@[g.document as int].1.recording@.len() > 0
                &&& g.board@ == active_board_of(*self)
                &&& g.screen_background == (self.prefs.gif_background@ == "screen"@)
                &&& (g.screen_background && self.drawing && self.zoom is Some) ==> (
                    g.zoom_background matches Some(b) && b@ == self.zoom->0.image@)
                &&& !(g.screen_background && self.drawing && self.zoom is Some)
                    ==> g.zoom_background is None
            }),
    {
        if self.capturing {
            return Err(owned("이미 내보내는 중입니다."));
        }
        let board = self.active_board();
        let screen_background = same_text(self.prefs.gif_background.as_str(), "screen");
        let zoom_background = if screen_background && self.drawing {
            match &self.zoom {
                Some(z) => Some(z.image.clone()),
                None => None,
            }
        } else {
            None
        };
        let display = match self.selected() {
            Some(i) => i,
            None => return Err(owned("모니터 연결이 해제되었습니다.")),
        };
        let id = match &self.prefs.monitor {
            Some(id) => id,
            None => return Err(owned("모니터를 선택하세요.")),
        };
        let document = match find_last(&self.documents, id.as_str()) {
            Some(i) => i,
            None => return Err(owned("기록된 필기가 없습니다.")),
        };
        if self.documents[document].1.recording.len() == 0 {
            return Err(owned("기록된 필기가 없습니다."));
        }
        Ok(GifStart { display, document, board, zoom_background, screen_background })
    }

    /// Starts an export: the capture flag is raised and drawing stops.
    pub fn start_export(&mut self)
        ensures
            *final(self) == after_drawing((Session { capturing: true, ..*old(self) }), false),
    {
        self.capturing = true;
        let _ = self.drawing(false);
    }

    /// The fading strokes of the selected monitor still shown at `now`.
    pub fn shown_fading(&self, now: u64) -> (r: Option<Vec<FadingStroke>>)
        ensures
            match self.prefs.monitor {
                Some(m) => if table(self.fading@).dom().contains(m@) {
                    r matches Some(v) && fading_view(v@) == fading_view(
                        alive_items(table(self.fading@)[m@]@, now),
                    )
                } else {
                    r is None
                },
                None => r is None,
            },
    {
        let m = match &self.prefs.monitor {
            Some(m) => m,
            None => return None,
        };
        let i = match find_last(&self.fading, m.as_str()) {
            Some(i) => i,
            None => return None,
        };
        let items = &self.fading[i].1;
        let ghost s0 = items@;
        let mut shown: Vec<FadingStroke> = Vec::new();
        let mut k: usize = 0;
        while k < items.len()
            invariant
                k <= items@.len(),
                s0 == items@,
                fading_view(shown@) == fading_view(alive_items(s0.take(k as int), now)),
            decreases items.len() - k,
        {
            let f = &items[k];
            assert(s0.take(k + 1).drop_last() =~= s0.take(k as int));
            assert(s0.take(k + 1).last() == s0[k as int]);
            if (now as u128) < (f.born as u128) + (f.life as u128) {
                let ghost before = shown@;
                shown.push(FadingStroke { stroke: f.stroke.duplicate(), born: f.born, life: f.life });
                proof {
                    lemma_fading_view_push(before, shown@.last());
                    lemma_fading_view_push(alive_items(s0.take(k as int), now), s0[k as int]);
                    assert(shown@ =~= before.push(shown@.last()));
                }
            }
            k += 1;
        }
        assert(s0.take(items@.len() as int) =~= s0);
        Some(shown)
    }

    /// Position of the selected monitor's annotations among the documents.
    pub fn current_document(&self) -> (r: Option<usize>)
        ensures
            self.prefs.monitor is None ==> r is None,
            self.prefs.monitor matches Some(m) ==> (r is Some <==> table(self.documents@).dom().contains(
                m@,
            )),
            r matches Some(i) ==> (self.prefs.monitor matches Some(m) && last_entry(
                self.documents@,
                m@,
                i as int,
            )),
    {
        match &self.prefs.monitor {
            Some(m) => find_last(&self.documents, m.as_str()),
            None => None,
        }
    }
}

/// Fading strokes as values: the stroke's view, birth and life.
pub open spec fn fading_view(s: Seq<FadingStroke>) -> Seq<(crate::model::StrokeView, u64, u64)> {
    s.map_values(|f: FadingStroke| (f.stroke@, f.born, f.life))
}

proof fn lemma_fading_view_push(s: Seq<FadingStroke>, f: FadingStroke)
    ensures
        fading_view(s.push(f)) == fading_view(s).push((f.stroke@, f.born, f.life)),
{
    assert(fading_view(s.push(f)) =~= fading_view(s).push((f.stroke@, f.born, f.life)));
}

/// Three board actions lead from any board back to it: screen, white and
/// black follow each other in a cycle.
pub proof fn lemma_board_cycle(board: Seq<char>)
    requires
        board == "screen"@ || board == "white"@ || board == "black"@,
    ensures
        next_board("board"@, next_board("board"@, next_board("board"@, board))) == board,
        next_board("board"@, board) != board,
{
    reveal_strlit("board");
    reveal_strlit("board_white");
    reveal_strlit("board_black");
    reveal_strlit("board_screen");
    lemma_action_names();
    assert("board"@.len() != "board_white"@.len());
    assert("board"@.len() != "board_black"@.len());
    assert("board"@.len() != "board_screen"@.len());
}

/// Switching to a board never leaves ink of the board's own color: white
/// ink on the white board and black ink on the black board are replaced.
pub proof fn lemma_ink_stays_visible(board: Seq<char>, color: Seq<char>)
    ensures
        board == "white"@ ==> ink_for_board(board, color) != "#ffffff"@ && ink_for_board(board, color)
            != "#f8fafc"@,
        board == "black"@ ==> ink_for_board(board, color) != "#000000"@ && ink_for_board(board, color)
            != "#171717"@,
{
    reveal_strlit("#ffffff");
    reveal_strlit("#f8fafc");
    reveal_strlit("#000000");
    reveal_strlit("#171717");
    reveal_strlit("white");
    reveal_strlit("black");
    assert("#171717"@[1] != "#ffffff"@[1]);
    assert("#171717"@[2] != "#f8fafc"@[2]);
    assert("#f8fafc"@[1] != "#000000"@[1]);
    assert("#f8fafc"@[1] != "#171717"@[1]);
    assert("white"@[0] != "black"@[0]);
}

/// Undo after an action's edit and redo after it give back the monitor's
/// strokes: `undo` followed by `redo` on a session restores the timeline.
pub proof fn lemma_session_undo_redo(t: Timeline)
    requires
        crate::history::well_formed(t),
        t.undo.len() > 0,
    ensures
        undo_ok(t),
        redo_ok(crate::history::undo_step(t)),
        crate::history::redo_step(crate::history::undo_step(t)) == t,
{
    crate::history::lemma_undo_then_redo(t);
    crate::history::lemma_redo_then_undo(crate::history::undo_step(t));
}

/// The decimal text of a signed integer.
pub open spec fn signed_text(n: int) -> Seq<char> {
    if n < 0 {
        seq!['-'] + crate::sharing::decimal_text((-n) as nat)
    } else {
        crate::sharing::decimal_text(n as nat)
    }
}

/// The identifier of a monitor named `name` whose origin is (`x`, `y`):
/// the name, or when `count` monitors share the name, the name with the
/// origin, as `name@x,y`.
pub open spec fn display_id_of(name: Seq<char>, count: nat, x: i32, y: i32) -> Seq<char> {
    if count == 1 {
        name
    } else {
        name + seq!['@'] + signed_text(x as int) + seq![','] + signed_text(y as int)
    }
}

fn signed_string(n: i32) -> (r: String)
    ensures
        r@ == signed_text(n as int),
{
    if n < 0 {
        let magnitude = (0i64 - n as i64) as u64;
        assert(magnitude as int == -(n as int));
        let mut r = owned("-");
        let digits = crate::sharing::decimal_string(magnitude);
        crate::text::push_str(&mut r, digits.as_str());
        proof {
            reveal_strlit("-");
            assert(r@ =~= seq!['-'] + crate::sharing::decimal_text((-(n as int)) as nat));
        }
        r
    } else {
        crate::sharing::decimal_string(n as u64)
    }
}

/// Names a monitor: monitor names are the best portable identifier, and
/// monitors that share a name are told apart by their origin.
pub fn display_id(name: &str, count: usize, x: i32, y: i32) -> (r: String)
    ensures
        r@ == display_id_of(name@, count as nat, x, y),
{
    if count == 1 {
        return owned(name);
    }
    let mut r = owned(name);
    crate::text::push_str(&mut r, "@");
    let xs = signed_string(x);
    crate::text::push_str(&mut r, xs.as_str());
    crate::text::push_str(&mut r, ",");
    let ys = signed_string(y);
    crate::text::push_str(&mut r, ys.as_str());
    proof {
        reveal_strlit("@");
        reveal_strlit(",");
    }
    r
}

/// The named board actions go to their board whatever board shows now,
/// while `board` steps through screen, white and black in turn.
pub proof fn lemma_named_boards(current: Seq<char>)
    ensures
        next_board("board_screen"@, current) == "screen"@,
        next_board("board_white"@, current) == "white"@,
        next_board("board_black"@, current) == "black"@,
        current == "screen"@ ==> next_board("board"@, current) == "white"@,
        current == "white"@ ==> next_board("board"@, current) == "black"@,
        current == "black"@ ==> next_board("board"@, current) == "screen"@,
{
    reveal_strlit("board");
    reveal_strlit("board_screen");
    reveal_strlit("board_white");
    reveal_strlit("board_black");
    reveal_strlit("screen");
    reveal_strlit("white");
    reveal_strlit("black");
    assert("board"@.len() != "board_white"@.len());
    assert("board"@.len() != "board_black"@.len());
    assert("board"@.len() != "board_screen"@.len());
    assert("board_screen"@[6] != "board_white"@[6]);
    assert("board_screen"@[6] != "board_black"@[6]);
    assert("board_white"@[6] != "board_black"@[6]);
    assert("screen"@.len() != "white"@.len());
    assert("black"@[0] != "white"@[0]);
    assert("black"@.len() != "screen"@.len());
}

/// Every tool of the toolbar can be chosen with a `#rrggbb` colour and a
/// width in range: the drawing tools, text, select and zoom.
pub proof fn lemma_toolbar_tools_are_selectable(tool: Seq<char>, color: Seq<char>)
    requires
        tool == "pen"@ || tool == "marker"@ || tool == "fade"@ || tool == "eraser"@ || tool == "line"@
            || tool == "rectangle"@ || tool == "ellipse"@ || tool == "text"@ || tool == "select"@
            || tool == "zoom"@,
        crate::model::hex_color_ok(color),
    ensures
        tool_accepted(tool, color, true),
{
    reveal_strlit("pen");
    reveal_strlit("marker");
    reveal_strlit("fade");
    reveal_strlit("eraser");
    reveal_strlit("line");
    reveal_strlit("rectangle");
    reveal_strlit("ellipse");
    reveal_strlit("text");
    reveal_strlit("select");
    reveal_strlit("zoom");
    assert("pen"@[0] != "text"@[0]);
    assert("marker"@[0] != "text"@[0]);
    assert("fade"@[0] != "text"@[0]);
    assert("eraser"@[0] != "text"@[0]);
    assert("line"@[0] != "text"@[0]);
    assert("rectangle"@[0] != "text"@[0]);
    assert("ellipse"@[0] != "text"@[0]);
}

} // verus!
