//! The terminal todo-list user interface: its state, its input-handling
//! state machine, and its persistence entry points.
//!
//! The structure owns the item list, the scroll offset and the current mode.
//! Input handling is a pure transition: [`TUI::update`] takes one decoded key
//! and returns the [`Action`] the surrounding control loop must perform
//! (redraw, ring the bell, terminate, write a file, read a file).  The
//! transition relation itself is stated by the spec function [`step`], and
//! `update` is proved to implement it exactly.

use vstd::prelude::*;

use crate::codec::spec_decode;
use crate::codec::spec_encode;
use crate::text::is_blank;
use crate::text::check_blank;
use crate::text::chars_to_string;
use crate::text::parse_dec;
use crate::text::spec_parse_dec;

verus! {

/// A decoded key event, the input alphabet of the state machine.
#[derive(Clone, Copy, PartialEq, Eq, Debug)]
pub enum Key {
    Escape,
    Enter,
    Backspace,
    ArrowUp,
    ArrowDown,
    ArrowLeft,
    ArrowRight,
    Home,
    End,
    Char(char),
    Other,
}

/// Which text-entry prompt is active.
#[derive(Clone, Copy, PartialEq, Eq, Debug)]
pub enum EntryKind {
    Add,
    Remove,
    Move,
    Save,
    Load,
}

/// The current mode of the interface.
pub enum TUIState {
    /// Browsing the list; `info` is a one-shot status message.
    Home { info: Option<&'static str> },
    /// One reveal-cursor frame is drawn before the wrapped mode becomes
    /// interactive; consumed by [`TUI::after_draw`], never fed a key.
    BeforeTextbox(Box<TUIState>),
    NewItem { cursor_pos: usize, current: Vec<char> },
    RemoveItem { cursor_pos: usize, current: Vec<char> },
    MoveItem { cursor_pos: usize, current: Vec<char> },
    Save { cursor_pos: usize, current: Vec<char> },
    Load { cursor_pos: usize, current: Vec<char> },
}

/// What the control loop must do after a call to [`TUI::update`].
#[derive(PartialEq, Debug)]
pub enum Action {
    /// State changed (or did not); draw the next frame.
    Redraw,
    /// Invalid input: ring the terminal bell, then draw the next frame.
    Bell,
    /// Escape from browse mode: restore the cursor and end the process.
    Terminate,
    /// Save commit: write `data` to the file called `name`.
    WriteFile { name: String, data: Vec<u8> },
    /// Load commit: read the file called `name` and hand the outcome to
    /// [`TUI::load_result`].
    ReadFile { name: String },
}

/// The interface: item list, scroll offset, mode and footer legend.
pub struct TUI {
    pub title: &'static str,
    pub todo_list: Vec<String>,
    pub at_line: usize,
    pub state: TUIState,
    pub controls: Vec<(&'static str, &'static str)>,
}

/// The mathematical form of a mode: how many reveal-cursor frames are still
/// pending, and the browse or entry mode under them.
#[verifier::ext_equal]
pub ghost struct StateView {
    pub pending: nat,
    pub base: BaseView,
}

/// The mode under the pending wrappers.
#[verifier::ext_equal]
pub ghost enum BaseView {
    Browse { info: Option<Seq<char>> },
    Entry { kind: EntryKind, cursor: int, text: Seq<char> },
}

/// The mathematical form of the whole interface.
#[verifier::ext_equal]
pub ghost struct TuiView {
    pub title: Seq<char>,
    pub items: Seq<Seq<char>>,
    pub at_line: int,
    pub state: StateView,
    pub controls: Seq<(Seq<char>, Seq<char>)>,
}

/// The mathematical form of an [`Action`].
#[verifier::ext_equal]
pub ghost enum ActionView {
    Redraw,
    Bell,
    Terminate,
    Write { name: Seq<char>, data: Seq<u8> },
    Read { name: Seq<char> },
}

/// A browse state with the given status message.
pub open spec fn browse_state(info: Option<Seq<char>>) -> StateView {
    StateView { pending: 0, base: BaseView::Browse { info } }
}

/// An interactive entry state.
pub open spec fn entry_state(kind: EntryKind, cursor: int, text: Seq<char>) -> StateView {
    StateView { pending: 0, base: BaseView::Entry { kind, cursor, text } }
}

/// A fresh entry state behind one reveal-cursor frame.
pub open spec fn pending_entry(kind: EntryKind) -> StateView {
    StateView { pending: 1, base: BaseView::Entry { kind, cursor: 0, text: Seq::empty() } }
}

/// The mode a [`TUIState`] stands for.
pub open spec fn state_view(s: TUIState) -> StateView
    decreases s,
{
    match s {
        TUIState::Home { info } => browse_state(
            match info {
                Option::Some(t) => Option::Some(t@),
                Option::None => Option::None,
            },
        ),
        TUIState::BeforeTextbox(b) => {
            let inner = state_view(*b);
            StateView { pending: inner.pending + 1, base: inner.base }
        },
        TUIState::NewItem { cursor_pos, current } => entry_state(
            EntryKind::Add,
            cursor_pos as int,
            current@,
        ),
        TUIState::RemoveItem { cursor_pos, current } => entry_state(
            EntryKind::Remove,
            cursor_pos as int,
            current@,
        ),
        TUIState::MoveItem { cursor_pos, current } => entry_state(
            EntryKind::Move,
            cursor_pos as int,
            current@,
        ),
        TUIState::Save { cursor_pos, current } => entry_state(
            EntryKind::Save,
            cursor_pos as int,
            current@,
        ),
        TUIState::Load { cursor_pos, current } => entry_state(
            EntryKind::Load,
            cursor_pos as int,
            current@,
        ),
    }
}

impl View for TUIState {
    type V = StateView;

    open spec fn view(&self) -> StateView {
        state_view(*self)
    }
}

impl View for Action {
    type V = ActionView;

    open spec fn view(&self) -> ActionView {
        match self {
            Action::Redraw => ActionView::Redraw,
            Action::Bell => ActionView::Bell,
            Action::Terminate => ActionView::Terminate,
            Action::WriteFile { name, data } => ActionView::Write { name: name@, data: data@ },
            Action::ReadFile { name } => ActionView::Read { name: name@ },
        }
    }
}

/// The views of a legend's label pairs.
pub open spec fn controls_view(cs: Seq<(&'static str, &'static str)>) -> Seq<
    (Seq<char>, Seq<char>),
> {
    Seq::new(cs.len(), |i: int| (cs[i].0@, cs[i].1@))
}

impl View for TUI {
    type V = TuiView;

    open spec fn view(&self) -> TuiView {
        TuiView {
            title: self.title@,
            items: self.todo_list.deep_view(),
            at_line: self.at_line as int,
            state: state_view(self.state),
            controls: controls_view(self.controls@),
        }
    }
}

impl StateView {
    /// An entry cursor never leaves its buffer.
    pub open spec fn wf(self) -> bool {
        match self.base {
            BaseView::Entry { cursor, text, .. } => 0 <= cursor <= text.len(),
            BaseView::Browse { .. } => true,
        }
    }
}

impl TuiView {
    /// The scroll offset stays below the list length (or at zero for an
    /// empty list), and the mode is well formed.
    pub open spec fn wf(self) -> bool {
        &&& 0 <= self.at_line
        &&& if self.items.len() == 0 {
            self.at_line == 0
        } else {
            self.at_line < self.items.len()
        }
        &&& self.state.wf()
    }
}

impl TUI {
    /// The structure's invariant, stated on its mathematical form.
    pub open spec fn wf(&self) -> bool {
        self@.wf()
    }
}

/// The footer legend every fresh interface carries.
pub open spec fn default_controls() -> Seq<(Seq<char>, Seq<char>)> {
    seq![
        ("Esc"@, "Exit"@),
        ("A"@, "Add"@),
        ("D"@, "Remove"@),
        ("M"@, "Move"@),
        ("\u{f0e7a}"@, "Scroll"@),
        ("S"@, "Save"@),
        ("L"@, "Load"@),
    ]
}

/// A fresh interface around the given items: default title and legend,
/// scroll offset zero, browse mode without a message.
pub open spec fn fresh_view(items: Seq<Seq<char>>) -> TuiView {
    TuiView {
        title: "TODO-List"@,
        items,
        at_line: 0,
        state: browse_state(Option::None),
        controls: default_controls(),
    }
}

/// The entry mode opened by a character key in browse mode, if any;
/// the trigger letters are case-insensitive.
pub open spec fn entry_kind_of(c: char) -> Option<EntryKind> {
    if c == 'a' || c == 'A' {
        Option::Some(EntryKind::Add)
    } else if c == 'd' || c == 'D' {
        Option::Some(EntryKind::Remove)
    } else if c == 'm' || c == 'M' {
        Option::Some(EntryKind::Move)
    } else if c == 's' || c == 'S' {
        Option::Some(EntryKind::Save)
    } else if c == 'l' || c == 'L' {
        Option::Some(EntryKind::Load)
    } else {
        Option::None
    }
}

/// The index of the first `;` of `s`, or -1 when there is none.
pub open spec fn find_semi(s: Seq<char>) -> int
    decreases s.len(),
{
    if s.len() == 0 {
        -1
    } else if s[0] == ';' {
        0
    } else {
        let r = find_semi(s.drop_first());
        if r < 0 {
            -1
        } else {
            r + 1
        }
    }
}

/// The two halves of a move specification: defined exactly when the buffer
/// holds a single `;`.
pub open spec fn move_parts(s: Seq<char>) -> Option<(Seq<char>, Seq<char>)> {
    let i = find_semi(s);
    if i < 0 {
        Option::None
    } else {
        let rest = s.skip(i + 1);
        if find_semi(rest) >= 0 {
            Option::None
        } else {
            Option::Some((s.take(i), rest))
        }
    }
}

/// Removes item `a` and reinserts it at position `b`, both 1-based:
/// remove-then-insert, not a swap.
pub open spec fn move_items(items: Seq<Seq<char>>, a: nat, b: nat) -> Seq<Seq<char>>
    recommends
        1 <= a <= items.len(),
        1 <= b <= items.len(),
{
    items.remove(a as int - 1).insert(b as int - 1, items[a as int - 1])
}

/// The file name a save or load buffer designates.
pub open spec fn file_name_of(text: Seq<char>) -> Seq<char> {
    text + ".ftms"@
}

/// The commit applied when enter is pressed in an entry mode with a
/// non-blank buffer `text`; a blank buffer commits nothing.  Every commit
/// lands in browse mode without a message; a rejected index or move
/// specification additionally rings the bell and mutates nothing.  Removing
/// an item pulls the scroll offset back inside the shortened list, keeping
/// the offset invariant.
pub open spec fn step_commit(v: TuiView, kind: EntryKind, text: Seq<char>) -> (TuiView, ActionView) {
    let vb = TuiView { state: browse_state(Option::None), ..v };
    if is_blank(text) {
        (vb, ActionView::Redraw)
    } else {
        match kind {
            EntryKind::Add => (
                TuiView { items: v.items.push(text), state: browse_state(Option::None), ..v },
                ActionView::Redraw,
            ),
            EntryKind::Remove => match spec_parse_dec(text) {
                Option::Some(n) => if 1 <= n && n <= v.items.len() {
                    let items2 = v.items.remove(n as int - 1);
                    let at2 = if v.at_line < items2.len() {
                        v.at_line
                    } else if items2.len() == 0 {
                        0
                    } else {
                        items2.len() - 1
                    };
                    (
                        TuiView {
                            items: items2,
                            at_line: at2,
                            state: browse_state(Option::None),
                            ..v
                        },
                        ActionView::Redraw,
                    )
                } else {
                    (vb, ActionView::Bell)
                },
                Option::None => (vb, ActionView::Bell),
            },
            EntryKind::Move => match move_parts(text) {
                Option::Some(parts) => match (spec_parse_dec(parts.0), spec_parse_dec(parts.1)) {
                    (Option::Some(a), Option::Some(b)) => if 1 <= a && a <= v.items.len() && 1 <= b
                        && b <= v.items.len() {
                        (
                            TuiView {
                                items: move_items(v.items, a, b),
                                state: browse_state(Option::None),
                                ..v
                            },
                            ActionView::Redraw,
                        )
                    } else {
                        (vb, ActionView::Bell)
                    },
                    _ => (vb, ActionView::Bell),
                },
                Option::None => (vb, ActionView::Bell),
            },
            EntryKind::Save => (
                vb,
                ActionView::Write { name: file_name_of(text), data: spec_encode(v.items) },
            ),
            EntryKind::Load => (vb, ActionView::Read { name: file_name_of(text) }),
        }
    }
}

/// One transition from an interactive entry mode.
pub open spec fn step_entry(
    v: TuiView,
    kind: EntryKind,
    cursor: int,
    text: Seq<char>,
    key: Key,
) -> (TuiView, ActionView) {
    match key {
        Key::Escape => (
            TuiView { state: browse_state(Option::None), ..v },
            ActionView::Redraw,
        ),
        Key::Char(c) => (
            TuiView { state: entry_state(kind, cursor + 1, text.insert(cursor, c)), ..v },
            ActionView::Redraw,
        ),
        Key::Backspace => if cursor > 0 {
            (
                TuiView { state: entry_state(kind, cursor - 1, text.remove(cursor - 1)), ..v },
                ActionView::Redraw,
            )
        } else {
            (v, ActionView::Bell)
        },
        Key::ArrowLeft => if cursor > 0 {
            (TuiView { state: entry_state(kind, cursor - 1, text), ..v }, ActionView::Redraw)
        } else {
            (v, ActionView::Bell)
        },
        Key::ArrowRight => if cursor < text.len() {
            (TuiView { state: entry_state(kind, cursor + 1, text), ..v }, ActionView::Redraw)
        } else {
            (v, ActionView::Bell)
        },
        Key::Home => (TuiView { state: entry_state(kind, 0, text), ..v }, ActionView::Redraw),
        Key::End => (
            TuiView { state: entry_state(kind, text.len() as int, text), ..v },
            ActionView::Redraw,
        ),
        Key::Enter => step_commit(
            TuiView { state: browse_state(Option::None), ..v },
            kind,
            text,
        ),
        _ => (v, ActionView::Bell),
    }
}

/// One transition from browse mode.  The status message is cleared by every
/// key; invalid keys additionally ring the bell.
pub open spec fn step_browse(v: TuiView, key: Key) -> (TuiView, ActionView) {
    let cleared = TuiView { state: browse_state(Option::None), ..v };
    match key {
        Key::Escape => (cleared, ActionView::Terminate),
        Key::Char(c) => match entry_kind_of(c) {
            Option::Some(k) => (
                TuiView { state: pending_entry(k), ..v },
                ActionView::Redraw,
            ),
            Option::None => (cleared, ActionView::Bell),
        },
        Key::ArrowUp => if v.at_line > 0 {
            (TuiView { at_line: v.at_line - 1, state: browse_state(Option::None), ..v },
            ActionView::Redraw)
        } else {
            (cleared, ActionView::Bell)
        },
        Key::ArrowDown => if v.at_line + 1 < v.items.len() {
            (TuiView { at_line: v.at_line + 1, state: browse_state(Option::None), ..v },
            ActionView::Redraw)
        } else {
            (cleared, ActionView::Bell)
        },
        Key::ArrowLeft => (
            TuiView { at_line: 0, state: browse_state(Option::None), ..v },
            ActionView::Redraw,
        ),
        Key::ArrowRight => (
            TuiView {
                at_line: if v.items.len() == 0 {
                    0
                } else {
                    v.items.len() - 1
                },
                state: browse_state(Option::None),
                ..v
            },
            ActionView::Redraw,
        ),
        _ => (cleared, ActionView::Bell),
    }
}

/// The full transition relation of the state machine: the next interface
/// value and the action the control loop must perform.
pub open spec fn step(v: TuiView, key: Key) -> (TuiView, ActionView)
    recommends
        v.state.pending == 0,
{
    match v.state.base {
        BaseView::Browse { .. } => step_browse(v, key),
        BaseView::Entry { kind, cursor, text } => step_entry(v, kind, cursor, text, key),
    }
}

impl TUI {
    /// A fresh interface: empty list, browse mode, default title and legend.
    pub fn new() -> (t: TUI)
        ensures
            t@ == fresh_view(Seq::empty()),
            t.wf(),
    {
        let mut controls: Vec<(&'static str, &'static str)> = Vec::new();
        controls.push(("Esc", "Exit"));
        controls.push(("A", "Add"));
        controls.push(("D", "Remove"));
        controls.push(("M", "Move"));
        controls.push(("\u{f0e7a}", "Scroll"));
        controls.push(("S", "Save"));
        controls.push(("L", "Load"));
        let t = TUI {
            title: "TODO-List",
            todo_list: Vec::new(),
            at_line: 0,
            state: TUIState::Home { info: Option::None },
            controls,
        };
        proof {
            assert(t@ =~= fresh_view(Seq::empty()));
        }
        t
    }

    /// The serialized form of the current list.
    pub fn as_bytes(&self) -> (r: Vec<u8>)
        requires
            self@.items.len() <= u32::MAX,
        ensures
            r@ == spec_encode(self@.items),
    {
        crate::codec::encode_list(&self.todo_list)
    }

    /// Rebuilds an interface from a serialized buffer: the stored items in
    /// their stored order inside an otherwise fresh interface.  Fails exactly
    /// when decoding does.
    pub fn from_bytes(buf: &Vec<u8>) -> (r: Option<TUI>)
        ensures
            (match r {
                Option::Some(t) => {
                    &&& spec_decode(buf@) == Some(t@.items)
                    &&& t@ == fresh_view(t@.items)
                    &&& t.wf()
                },
                Option::None => spec_decode(buf@) is None,
            }),
    {
        match crate::codec::decode_list(buf) {
            Option::None => Option::None,
            Option::Some(items) => {
                let mut t = TUI::new();
                t.todo_list = items;
                proof {
                    assert(t@ =~= fresh_view(t@.items));
                }
                Option::Some(t)
            },
        }
    }

    /// Consumes one pending reveal-cursor wrapper after a frame was drawn;
    /// does nothing in any other mode.
    pub fn after_draw(&mut self)
        ensures
            old(self)@.state.pending > 0 ==> final(self)@ == (TuiView {
                state: StateView {
                    pending: (old(self)@.state.pending - 1) as nat,
                    base: old(self)@.state.base,
                },
                ..old(self)@
            }),
            old(self)@.state.pending == 0 ==> final(self)@ == old(self)@,
            old(self).wf() ==> final(self).wf(),
    {
        let mut st = TUIState::Home { info: Option::None };
        core::mem::swap(&mut st, &mut self.state);
        match st {
            TUIState::BeforeTextbox(b) => {
                self.state = *b;
            },
            other => {
                self.state = other;
            },
        }
    }

    /// Applies the outcome of the file read a [`Action::ReadFile`] asked for:
    /// a missing file or an undecodable buffer leaves the list untouched and
    /// lands in browse mode with a one-shot message; a decodable buffer
    /// replaces the whole interface with the stored one.
    pub fn load_result(&mut self, data: Option<Vec<u8>>)
        ensures
            (match data {
                Option::None => final(self)@ == (TuiView {
                    state: browse_state(Option::Some("\x1b[0;1;91mCan't find file\x1b[0m"@)),
                    ..old(self)@
                }),
                Option::Some(d) => match spec_decode(d@) {
                    Option::None => final(self)@ == (TuiView {
                        state: browse_state(Option::Some("\x1b[0;1;91mFile format error\x1b[0m"@)),
                        ..old(self)@
                    }),
                    Option::Some(items) => final(self)@ == fresh_view(items),
                },
            }),
            old(self).wf() ==> final(self).wf(),
    {
        match data {
            Option::None => {
                self.state = TUIState::Home {
                    info: Option::Some("\x1b[0;1;91mCan't find file\x1b[0m"),
                };
            },
            Option::Some(d) => {
                match TUI::from_bytes(&d) {
                    Option::None => {
                        self.state = TUIState::Home {
                            info: Option::Some("\x1b[0;1;91mFile format error\x1b[0m"),
                        };
                    },
                    Option::Some(t) => {
                        *self = t;
                    },
                }
            },
        }
    }

    /// Feeds one key to the state machine.  The new state and the returned
    /// action are exactly those of the transition relation [`step`].
    pub fn update(&mut self, key: Key) -> (r: Action)
        requires
            old(self).wf(),
            old(self)@.state.pending == 0,
            (key == Key::Enter && (old(self)@.state.base matches BaseView::Entry {
                kind: EntryKind::Save,
                ..
            })) ==> old(self)@.items.len() <= u32::MAX,
        ensures
            final(self)@ == step(old(self)@, key).0,
            r@ == step(old(self)@, key).1,
            final(self).wf(),
    {
        let ghost v0 = self@;
        let mut st = TUIState::Home { info: Option::None };
        core::mem::swap(&mut st, &mut self.state);
        match st {
            TUIState::Home { .. } => {
                proof {
                    assert(self@ =~= (TuiView {
                        state: browse_state(Option::None),
                        ..v0
                    }));
                }
                match key {
                    Key::Escape => Action::Terminate,
                    Key::Char(c) => {
                        let k_opt: Option<EntryKind> = if c == 'a' || c == 'A' {
                            Option::Some(EntryKind::Add)
                        } else if c == 'd' || c == 'D' {
                            Option::Some(EntryKind::Remove)
                        } else if c == 'm' || c == 'M' {
                            Option::Some(EntryKind::Move)
                        } else if c == 's' || c == 'S' {
                            Option::Some(EntryKind::Save)
                        } else if c == 'l' || c == 'L' {
                            Option::Some(EntryKind::Load)
                        } else {
                            Option::None
                        };
                        match k_opt {
                            Option::Some(kk) => {
                                self.state = TUIState::BeforeTextbox(
                                    Box::new(make_entry(kk, 0, Vec::new())),
                                );
                                proof {
                                    assert(self@.state =~= pending_entry(kk));
                                    assert(self@ =~= (TuiView { state: pending_entry(kk), ..v0 }));
                                }
                                Action::Redraw
                            },
                            Option::None => Action::Bell,
                        }
                    },
                    Key::ArrowUp => {
                        if self.at_line > 0 {
                            self.at_line = self.at_line - 1;
                            proof {
                                assert(self@ =~= (TuiView {
                                    at_line: v0.at_line - 1,
                                    state: browse_state(Option::None),
                                    ..v0
                                }));
                            }
                            Action::Redraw
                        } else {
                            Action::Bell
                        }
                    },
                    Key::ArrowDown => {
                        proof {
                            vstd::std_specs::vec::axiom_spec_len(&self.todo_list);
                        }
                        if self.at_line + 1 < self.todo_list.len() {
                            self.at_line = self.at_line + 1;
                            proof {
                                assert(self@ =~= (TuiView {
                                    at_line: v0.at_line + 1,
                                    state: browse_state(Option::None),
                                    ..v0
                                }));
                            }
                            Action::Redraw
                        } else {
                            Action::Bell
                        }
                    },
                    Key::ArrowLeft => {
                        self.at_line = 0;
                        proof {
                            assert(self@ =~= (TuiView {
                                at_line: 0,
                                state: browse_state(Option::None),
                                ..v0
                            }));
                        }
                        Action::Redraw
                    },
                    Key::ArrowRight => {
                        self.at_line = if self.todo_list.len() == 0 {
                            0
                        } else {
                            self.todo_list.len() - 1
                        };
                        proof {
                            assert(self@ =~= (TuiView {
                                at_line: if v0.items.len() == 0 {
                                    0int
                                } else {
                                    v0.items.len() - 1
                                },
                                state: browse_state(Option::None),
                                ..v0
                            }));
                        }
                        Action::Redraw
                    },
                    _ => Action::Bell,
                }
            },
            TUIState::BeforeTextbox(..) => vstd::pervasive::unreached(),
            TUIState::NewItem { cursor_pos, current } => {
                self.entry_step(Ghost(v0), EntryKind::Add, cursor_pos, current, key)
            },
            TUIState::RemoveItem { cursor_pos, current } => {
                self.entry_step(Ghost(v0), EntryKind::Remove, cursor_pos, current, key)
            },
            TUIState::MoveItem { cursor_pos, current } => {
                self.entry_step(Ghost(v0), EntryKind::Move, cursor_pos, current, key)
            },
            TUIState::Save { cursor_pos, current } => {
                self.entry_step(Ghost(v0), EntryKind::Save, cursor_pos, current, key)
            },
            TUIState::Load { cursor_pos, current } => {
                self.entry_step(Ghost(v0), EntryKind::Load, cursor_pos, current, key)
            },
        }
    }

    /// One transition from an interactive entry mode; `self.state` already
    /// holds the cleared browse state, `v0` the interface value before it was
    /// taken out.
    fn entry_step(
        &mut self,
        Ghost(v0): Ghost<TuiView>,
        k: EntryKind,
        cursor_pos: usize,
        current: Vec<char>,
        key: Key,
    ) -> (r: Action)
        requires
            v0 == (TuiView { state: entry_state(k, cursor_pos as int, current@), ..old(self)@ }),
            old(self)@.state == browse_state(Option::<Seq<char>>::None),
            old(self)@.wf(),
            cursor_pos <= current@.len(),
            (k == EntryKind::Save && key == Key::Enter) ==> old(self)@.items.len() <= u32::MAX,
        ensures
            final(self)@ == step_entry(v0, k, cursor_pos as int, current@, key).0,
            r@ == step_entry(v0, k, cursor_pos as int, current@, key).1,
            final(self).wf(),
    {
        match key {
            Key::Escape => Action::Redraw,
            Key::Char(c) => {
                let mut cur = current;
                cur.insert(cursor_pos, c);
                proof {
                    vstd::std_specs::vec::axiom_spec_len(&cur);
                }
                self.state = make_entry(k, cursor_pos + 1, cur);
                Action::Redraw
            },
            Key::Backspace => {
                if cursor_pos > 0 {
                    let mut cur = current;
                    cur.remove(cursor_pos - 1);
                    self.state = make_entry(k, cursor_pos - 1, cur);
                    Action::Redraw
                } else {
                    self.state = make_entry(k, cursor_pos, current);
                    proof {
                        assert(self@ =~= v0);
                    }
                    Action::Bell
                }
            },
            Key::ArrowLeft => {
                if cursor_pos > 0 {
                    self.state = make_entry(k, cursor_pos - 1, current);
                    Action::Redraw
                } else {
                    self.state = make_entry(k, cursor_pos, current);
                    proof {
                        assert(self@ =~= v0);
                    }
                    Action::Bell
                }
            },
            Key::ArrowRight => {
                if cursor_pos < current.len() {
                    self.state = make_entry(k, cursor_pos + 1, current);
                    Action::Redraw
                } else {
                    self.state = make_entry(k, cursor_pos, current);
                    proof {
                        assert(self@ =~= v0);
                    }
                    Action::Bell
                }
            },
            Key::Home => {
                self.state = make_entry(k, 0, current);
                Action::Redraw
            },
            Key::End => {
                let n = current.len();
                self.state = make_entry(k, n, current);
                Action::Redraw
            },
            Key::Enter => self.commit(k, current),
            _ => {
                self.state = make_entry(k, cursor_pos, current);
                proof {
                    assert(self@ =~= v0);
                }
                Action::Bell
            },
        }
    }

    /// Applies an enter commit; `self.state` already holds the cleared
    /// browse state the commit lands in.
    fn commit(&mut self, k: EntryKind, current: Vec<char>) -> (r: Action)
        requires
            old(self)@.state == browse_state(Option::<Seq<char>>::None),
            old(self)@.wf(),
            k == EntryKind::Save ==> old(self)@.items.len() <= u32::MAX,
        ensures
            final(self)@ == step_commit(old(self)@, k, current@).0,
            r@ == step_commit(old(self)@, k, current@).1,
            final(self).wf(),
    {
        let ghost v0 = self@;
        if check_blank(&current) {
            return Action::Redraw;
        }
        match k {
            EntryKind::Add => {
                let s = chars_to_string(&current);
                self.todo_list.push(s);
                proof {
                    assert(self@.items =~= v0.items.push(current@));
                    assert(self@ =~= step_commit(v0, k, current@).0);
                }
                Action::Redraw
            },
            EntryKind::Remove => {
                match parse_dec(&current) {
                    Option::Some(n) => {
                        if n == 0 || n > self.todo_list.len() {
                            Action::Bell
                        } else {
                            self.todo_list.remove(n - 1);
                            proof {
                                assert(self@.items =~= v0.items.remove(n as int - 1));
                            }
                            if self.at_line >= self.todo_list.len() {
                                self.at_line = if self.todo_list.len() == 0 {
                                    0
                                } else {
                                    self.todo_list.len() - 1
                                };
                            }
                            proof {
                                assert(self@ =~= step_commit(v0, k, current@).0);
                            }
                            Action::Redraw
                        }
                    },
                    Option::None => Action::Bell,
                }
            },
            EntryKind::Move => {
                match split_two(&current) {
                    Option::None => Action::Bell,
                    Option::Some((pa, pb)) => {
                        match (parse_dec(&pa), parse_dec(&pb)) {
                            (Option::Some(a), Option::Some(b)) => {
                                if a == 0 || a > self.todo_list.len() || b == 0 || b
                                    > self.todo_list.len() {
                                    Action::Bell
                                } else {
                                    let moved = self.todo_list.remove(a - 1);
                                    self.todo_list.insert(b - 1, moved);
                                    proof {
                                        assert(self@.items =~= move_items(
                                            v0.items,
                                            a as nat,
                                            b as nat,
                                        ));
                                        assert(self@ =~= step_commit(v0, k, current@).0);
                                    }
                                    Action::Redraw
                                }
                            },
                            _ => Action::Bell,
                        }
                    },
                }
            },
            EntryKind::Save => {
                let mut name = chars_to_string(&current);
                name.append(".ftms");
                let data = crate::codec::encode_list(&self.todo_list);
                Action::WriteFile { name, data }
            },
            EntryKind::Load => {
                let mut name = chars_to_string(&current);
                name.append(".ftms");
                Action::ReadFile { name }
            },
        }
    }
}

/// Every transition preserves the invariant: whatever keys arrive, the
/// scroll offset stays inside the list and an entry cursor stays inside its
/// buffer.
pub proof fn lemma_step_preserves_wf(v: TuiView, key: Key)
    requires
        v.wf(),
        v.state.pending == 0,
    ensures
        step(v, key).0.wf(),
{
}

/// Browse navigation never changes the list, and leaves the scroll offset
/// within `[0, L - 1]` (at zero for an empty list).
pub proof fn lemma_navigation_bounds(v: TuiView, key: Key)
    requires
        v.wf(),
        v.state.pending == 0,
        v.state.base matches BaseView::Browse { .. },
        key == Key::ArrowUp || key == Key::ArrowDown || key == Key::ArrowLeft || key
            == Key::ArrowRight,
    ensures
        step(v, key).0.items == v.items,
        0 <= step(v, key).0.at_line,
        step(v, key).0.at_line <= if v.items.len() == 0 {
            0int
        } else {
            v.items.len() - 1
        },
{
}

/// An entry-mode cursor move rings the bell exactly when it would leave the
/// buffer — left of position zero or right of the end — and then changes
/// nothing.
pub proof fn lemma_cursor_bell(v: TuiView, kind: EntryKind, cursor: int, text: Seq<char>, key: Key)
    requires
        v.wf(),
        v.state == entry_state(kind, cursor, text),
        key == Key::ArrowLeft || key == Key::ArrowRight,
    ensures
        step(v, key).1 == ActionView::Bell <==> ((key == Key::ArrowLeft && cursor == 0) || (key
            == Key::ArrowRight && cursor == text.len())),
        step(v, key).1 == ActionView::Bell ==> step(v, key).0 == v,
{
}

/// Enter on a buffer that trims to nothing commits nothing: the list is
/// unchanged and the mode returns to browse without a message.
pub proof fn lemma_blank_enter(v: TuiView, kind: EntryKind, cursor: int, text: Seq<char>)
    requires
        v.state == entry_state(kind, cursor, text),
        is_blank(text),
    ensures
        step(v, Key::Enter).0.items == v.items,
        step(v, Key::Enter).0.state == browse_state(Option::None),
        step(v, Key::Enter).1 == ActionView::Redraw,
{
}

/// The entry-mode value for a prompt kind, cursor and buffer.
fn make_entry(k: EntryKind, cursor_pos: usize, current: Vec<char>) -> (s: TUIState)
    ensures
        s@ == entry_state(k, cursor_pos as int, current@),
{
    match k {
        EntryKind::Add => TUIState::NewItem { cursor_pos, current },
        EntryKind::Remove => TUIState::RemoveItem { cursor_pos, current },
        EntryKind::Move => TUIState::MoveItem { cursor_pos, current },
        EntryKind::Save => TUIState::Save { cursor_pos, current },
        EntryKind::Load => TUIState::Load { cursor_pos, current },
    }
}

/// A `;` at `i` with none before it is the first `;`.
proof fn lemma_find_semi_at(s: Seq<char>, i: int)
    requires
        0 <= i < s.len(),
        s[i] == ';',
        forall|j: int| 0 <= j < i ==> s[j] != ';',
    ensures
        find_semi(s) == i,
    decreases i,
{
    if i > 0 {
        lemma_find_semi_at(s.drop_first(), i - 1);
    }
}

/// A buffer without a `;` has no first `;`.
proof fn lemma_find_semi_none(s: Seq<char>)
    requires
        forall|j: int| 0 <= j < s.len() ==> s[j] != ';',
    ensures
        find_semi(s) == -1,
    decreases s.len(),
{
    if s.len() > 0 {
        lemma_find_semi_none(s.drop_first());
    }
}

/// Splits a move buffer at its `;`, exactly when it holds a single one.
fn split_two(s: &Vec<char>) -> (r: Option<(Vec<char>, Vec<char>)>)
    ensures
        (match r {
            Option::Some(p) => move_parts(s@) == Some((p.0@, p.1@)),
            Option::None => move_parts(s@) is None,
        }),
{
    let mut i: usize = 0;
    while i < s.len() && s[i] != ';'
        invariant
            i <= s@.len(),
            forall|j: int| 0 <= j < i ==> s@[j] != ';',
        decreases s@.len() - i,
    {
        i = i + 1;
    }
    if i == s.len() {
        proof {
            lemma_find_semi_none(s@);
        }
        return Option::None;
    }
    proof {
        lemma_find_semi_at(s@, i as int);
    }
    let mut j: usize = i + 1;
    while j < s.len() && s[j] != ';'
        invariant
            i as int + 1 <= j as int <= s@.len(),
            forall|l: int| i + 1 <= l < j ==> s@[l] != ';',
        decreases s@.len() - j,
    {
        j = j + 1;
    }
    if j < s.len() {
        proof {
            assert(s@.skip(i as int + 1)[j - i - 1] == s@[j as int]);
            lemma_find_semi_at(s@.skip(i as int + 1), j - i - 1);
        }
        return Option::None;
    }
    proof {
        assert(forall|l: int|
            0 <= l < s@.skip(i as int + 1).len() ==> #[trigger] s@.skip(i as int + 1)[l] == s@[l
                + i + 1]);
        lemma_find_semi_none(s@.skip(i as int + 1));
    }
    let mut a: Vec<char> = Vec::new();
    let mut x: usize = 0;
    while x < i
        invariant
            x <= i <= s@.len(),
            a@ == s@.take(i as int).take(x as int),
        decreases i - x,
    {
        a.push(s[x]);
        assert(a@ =~= s@.take(i as int).take(x as int + 1));
        x = x + 1;
    }
    assert(a@ =~= s@.take(i as int));
    let mut b: Vec<char> = Vec::new();
    let mut y: usize = i + 1;
    while y < s.len()
        invariant
            i as int + 1 <= y as int <= s@.len(),
            b@ == s@.subrange(i as int + 1, y as int),
        decreases s@.len() - y,
    {
        b.push(s[y]);
        assert(b@ =~= s@.subrange(i as int + 1, y as int + 1));
        y = y + 1;
    }
    assert(b@ =~= s@.skip(i as int + 1));
    Option::Some((a, b))
}

} // verus!
