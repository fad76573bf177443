//! The renderer: one frame of ANSI-coded text for the current interface
//! state and terminal size.
//!
//! A browse (or pending reveal-cursor) frame is a centered title bar, the
//! window of items that fits the body, a cursor-positioning code that puts
//! the footer on the bottom row, and the footer itself: the controls legend
//! trimmed to the terminal width, a one-shot status message, or the underline
//! bar of the reveal-cursor frame.  An entry frame is the input line: the
//! buffer, underline padding to the terminal width, and a code placing the
//! terminal cursor on the editing cursor's column.
//!
//! [`TUI::draw`] is pure: the frame is returned, not printed, and the mode is
//! not touched (the control loop consumes pending wrappers with
//! [`TUI::after_draw`] after printing).

use vstd::prelude::*;
use vstd::utf8::encode_utf8;

use crate::text::dec_digits;
use crate::text::push_chars;
use crate::text::push_dec;
use crate::text::push_spaces;
use crate::text::spaces;
use crate::tui::BaseView;
use crate::tui::TUI;
use crate::tui::TUIState;
use crate::tui::TuiView;
use crate::tui::controls_view;

verus! {

/// What console::strip_ansi_codes leaves of a string: its characters with
/// every ANSI escape sequence removed.
pub uninterp spec fn ansi_stripped(s: Seq<char>) -> Seq<char>;

/// Relies on console::strip_ansi_codes: removes the ANSI escape sequences
/// from a string; the result is a function of the input characters alone.
/// The returned string lives in memory, so its byte length fits the machine
/// word.
#[verifier::external_body]
fn strip_ansi(s: &str) -> (r: String)
    ensures
        r@ == ansi_stripped(s@),
        encode_utf8(r@).len() <= usize::MAX,
{
    String::from(console::strip_ansi_codes(s))
}

/// The visible width of a styled fragment: the byte length of the fragment
/// with its ANSI codes stripped.
pub open spec fn visible_width(s: Seq<char>) -> int {
    encode_utf8(ansi_stripped(s)).len() as int
}

/// One styled legend fragment: the key label on a grey badge, then the
/// action label.
pub open spec fn control_segment(k: Seq<char>, v: Seq<char>) -> Seq<char> {
    "\x1b[0;1;48;5;239;97m "@ + k + " \x1b[0;97m "@ + v + " \x1b[0m"@
}

/// Adds a fragment width to the running total as the machine does: stuck at
/// the word's maximum rather than wrapping.
pub open spec fn sat_add(len: int, w: int) -> int {
    if len + w > usize::MAX {
        usize::MAX as int
    } else {
        len + w
    }
}

/// The legend fragments from `i` on that fit: fragments are appended left to
/// right and the first one that would push the running visible width more
/// than two columns past the terminal width stops the legend.
pub open spec fn legend_from(
    cs: Seq<(Seq<char>, Seq<char>)>,
    i: int,
    len: int,
    cols: int,
) -> Seq<char>
    decreases cs.len() - i,
{
    if i < 0 || i >= cs.len() {
        Seq::empty()
    } else {
        let seg = control_segment(cs[i].0, cs[i].1);
        let len2 = sat_add(len, visible_width(seg));
        if len2 - 2 > cols {
            Seq::empty()
        } else {
            seg + legend_from(cs, i + 1, len2, cols)
        }
    }
}

/// The whole controls legend for a terminal width.
pub open spec fn spec_legend(cs: Seq<(Seq<char>, Seq<char>)>, cols: int) -> Seq<char> {
    legend_from(cs, 0, 0, cols)
}

/// The title bar: clear screen, home, hide cursor, and the title centered
/// between cyan padding (the left side gets the shorter half).
pub open spec fn title_line(title: Seq<char>, cols: int) -> Seq<char> {
    let tl = encode_utf8(title).len() as int;
    let lp = (cols - tl) / 2;
    let rp = cols - tl - lp;
    "\x1b[2J\x1b[H\x1b[?25l\x1b[0;46m"@ + spaces(lp as nat) + "\x1b[0;1;97m"@ + title
        + "\x1b[46m"@ + spaces(rp as nat) + "\x1b[0m\n"@
}

/// The right-aligned, four-column 1-based index label of an item row.
pub open spec fn index_label(n: nat) -> Seq<char> {
    let d = dec_digits(n);
    if d.len() >= 4 {
        d
    } else {
        spaces((4 - d.len()) as nat) + d
    }
}

/// One item row: the yellow index label, a separator, the item text.
pub open spec fn item_line(n: nat, item: Seq<char>) -> Seq<char> {
    "\x1b[1;93m"@ + index_label(n) + " |\x1b[0m "@ + item + "\n"@
}

/// The rows for items `from` (inclusive) to `upto` (exclusive), with their
/// 1-based indices.
pub open spec fn item_lines(items: Seq<Seq<char>>, from: int, upto: int) -> Seq<char>
    decreases upto - from,
{
    if from < 0 || from >= upto || upto > items.len() {
        Seq::empty()
    } else {
        item_line((from + 1) as nat, items[from]) + item_lines(items, from + 1, upto)
    }
}

/// How many item rows fit: the list tail from the scroll offset, capped by
/// the body height (everything but the title row and two footer rows).
pub open spec fn visible_count(len: int, at: int, rows: int) -> int {
    let body = if rows >= 3 {
        rows - 3
    } else {
        0
    };
    if len - at < body {
        len - at
    } else {
        body
    }
}

/// The code moving the cursor down to the footer row.
pub open spec fn cursor_down_code(n: int) -> Seq<char> {
    "\x1b["@ + dec_digits(n as nat) + "B"@
}

/// Title bar, visible item window and footer positioning of a browse or
/// reveal-cursor frame.
pub open spec fn list_frame(v: TuiView, cols: int, rows: int) -> Seq<char> {
    let count = visible_count(v.items.len() as int, v.at_line, rows);
    title_line(v.title, cols) + item_lines(v.items, v.at_line, v.at_line + count)
        + cursor_down_code(rows - count - 2)
}

/// The footer of the one reveal-cursor frame: show the cursor and draw an
/// underlined blank input line.
pub open spec fn pending_footer(cols: int) -> Seq<char> {
    "\x1b[?25h\x1b[0;4m"@ + spaces(cols as nat) + "\x1b[0m\x1b[0G"@
}

/// The browse footer: the status message when one is set, the controls
/// legend otherwise.
pub open spec fn browse_footer(
    cs: Seq<(Seq<char>, Seq<char>)>,
    info: Option<Seq<char>>,
    cols: int,
) -> Seq<char> {
    match info {
        Option::Some(msg) => "\x1b[0;1;96m[i]\x1b[0m "@ + msg,
        Option::None => spec_legend(cs, cols),
    }
}

/// An entry frame: show the cursor, write the buffer on an underlined line
/// padded to the terminal width, and put the cursor on the editing column.
pub open spec fn entry_frame(cursor: int, text: Seq<char>, cols: int) -> Seq<char> {
    let pad = if cols > text.len() {
        cols - text.len()
    } else {
        0
    };
    "\x1b[?25h\x1b[0G\x1b[0;4m"@ + text + spaces(pad as nat) + "\x1b[0m\x1b["@ + dec_digits(
        (cursor + 1) as nat,
    ) + "G"@
}

/// The full frame for an interface state and terminal size.
pub open spec fn spec_frame(v: TuiView, cols: int, rows: int) -> Seq<char> {
    if v.state.pending > 0 {
        list_frame(v, cols, rows) + pending_footer(cols)
    } else {
        match v.state.base {
            BaseView::Browse { info } => list_frame(v, cols, rows) + browse_footer(
                v.controls,
                info,
                cols,
            ),
            BaseView::Entry { cursor, text, .. } => entry_frame(cursor, text, cols),
        }
    }
}

/// What a frame needs of the terminal and the state: the title fits the
/// width, a title row and two footer rows exist, and an entry cursor's
/// 1-based column fits the machine word.
pub open spec fn can_draw(v: TuiView, cols: int, rows: int) -> bool {
    &&& encode_utf8(v.title).len() <= cols
    &&& rows >= 2
    &&& (match v.state.base {
        BaseView::Entry { cursor, .. } => v.state.pending > 0 || cursor < usize::MAX,
        BaseView::Browse { .. } => true,
    })
}

/// The digit count of a decimal label grows with its value.
proof fn lemma_dec_digits_len(n: nat)
    ensures
        n < 10 ==> dec_digits(n).len() == 1,
        10 <= n < 100 ==> dec_digits(n).len() == 2,
        100 <= n < 1000 ==> dec_digits(n).len() == 3,
        n >= 1000 ==> dec_digits(n).len() >= 4,
    decreases n,
{
    if n >= 10 {
        lemma_dec_digits_len(n / 10);
    }
}

/// Appends the right-aligned index label of row `n`.
fn push_index_label(out: &mut String, n: usize)
    ensures
        final(out)@ == old(out)@ + index_label(n as nat),
{
    proof {
        lemma_dec_digits_len(n as nat);
    }
    let ghost base = out@;
    if n < 10 {
        push_spaces(out, 3);
    } else if n < 100 {
        push_spaces(out, 2);
    } else if n < 1000 {
        push_spaces(out, 1);
    }
    push_dec(out, n);
    proof {
        assert(out@ =~= base + index_label(n as nat));
    }
}

/// Builds one styled legend fragment.
fn control_segment_exec(k: &str, v: &str) -> (r: String)
    ensures
        r@ == control_segment(k@, v@),
{
    let mut r = String::new();
    r.append("\x1b[0;1;48;5;239;97m ");
    r.append(k);
    r.append(" \x1b[0;97m ");
    r.append(v);
    r.append(" \x1b[0m");
    proof {
        assert(r@ =~= control_segment(k@, v@));
    }
    r
}

/// Appends the legend fragments from `i` on that fit the width.
fn push_legend_from(
    out: &mut String,
    controls: &Vec<(&'static str, &'static str)>,
    i: usize,
    len: usize,
    cols: usize,
)
    requires
        i <= controls@.len(),
    ensures
        final(out)@ == old(out)@ + legend_from(
            controls_view(controls@),
            i as int,
            len as int,
            cols as int,
        ),
    decreases controls@.len() - i,
{
    let ghost base = out@;
    let ghost cv = controls_view(controls@);
    if i == controls.len() {
        assert(out@ =~= base + legend_from(cv, i as int, len as int, cols as int));
        return ;
    }
    let seg = control_segment_exec(controls[i].0, controls[i].1);
    let stripped = strip_ansi(seg.as_str());
    let w: usize = stripped.as_str().len();
    let len2: usize = match len.checked_add(w) {
        Option::Some(l) => l,
        Option::None => usize::MAX,
    };
    assert(len2 as int == sat_add(len as int, visible_width(seg@)));
    if len2 >= 2 && len2 - 2 > cols {
        assert(out@ =~= base + legend_from(cv, i as int, len as int, cols as int));
        return ;
    }
    out.append(seg.as_str());
    push_legend_from(out, controls, i + 1, len2, cols);
    proof {
        assert(cv[i as int] == (controls@[i as int].0@, controls@[i as int].1@));
        assert(out@ =~= base + legend_from(cv, i as int, len as int, cols as int));
    }
}

impl TUI {
    /// The title bar, the visible item window, and the cursor positioning
    /// that places the footer on the bottom row.
    fn render_list_frame(&self, cols: usize, rows: usize) -> (out: String)
        requires
            self.wf(),
            encode_utf8(self@.title).len() <= cols,
            rows >= 2,
        ensures
            out@ == list_frame(self@, cols as int, rows as int),
    {
        let mut out = String::new();
        out.append("\x1b[2J\x1b[H\x1b[?25l\x1b[0;46m");
        let tl = self.title.len();
        let lp = (cols - tl) / 2;
        push_spaces(&mut out, lp);
        out.append("\x1b[0;1;97m");
        out.append(self.title);
        out.append("\x1b[46m");
        push_spaces(&mut out, cols - tl - lp);
        out.append("\x1b[0m\n");
        proof {
            assert(out@ =~= title_line(self@.title, cols as int));
        }
        let ghost title = out@;
        let body: usize = if rows >= 3 {
            rows - 3
        } else {
            0
        };
        let len = self.todo_list.len();
        let at = self.at_line;
        let count: usize = if len - at < body {
            len - at
        } else {
            body
        };
        assert(count as int == visible_count(self@.items.len() as int, at as int, rows as int));
        let mut i: usize = 0;
        assert(out@ =~= title + item_lines(self@.items, at as int, at as int));
        while i < count
            invariant
                i <= count,
                at + count <= len,
                len == self@.items.len(),
                self.wf(),
                at == self.at_line,
                len == self.todo_list.len(),
                out@ == title + item_lines(self@.items, at as int, at as int + i),
            decreases count - i,
        {
            let ghost sofar = out@;
            out.append("\x1b[1;93m");
            push_index_label(&mut out, at + i + 1);
            out.append(" |\x1b[0m ");
            out.append(self.todo_list[at + i].as_str());
            out.append("\n");
            proof {
                assert(out@ =~= sofar + item_line((at + i + 1) as nat, self@.items[at as int
                    + i]));
                lemma_item_lines_snoc(self@.items, at as int, at as int + i);
                assert(out@ =~= title + item_lines(self@.items, at as int, at as int + i + 1));
            }
            i = i + 1;
        }
        let ghost upper = out@;
        out.append("\x1b[");
        push_dec(&mut out, rows - count - 2);
        out.append("B");
        proof {
            assert(out@ =~= upper + cursor_down_code(rows as int - count as int - 2));
            assert(out@ =~= list_frame(self@, cols as int, rows as int));
        }
        out
    }

    /// One frame of ANSI-coded text for this state and terminal size.
    pub fn draw(&self, size: (usize, usize)) -> (out: String)
        requires
            self.wf(),
            can_draw(self@, size.0 as int, size.1 as int),
        ensures
            out@ == spec_frame(self@, size.0 as int, size.1 as int),
    {
        let cols = size.0;
        let rows = size.1;
        match &self.state {
            TUIState::Home { info } => {
                let mut out = self.render_list_frame(cols, rows);
                let ghost upper = out@;
                match info {
                    Option::Some(msg) => {
                        out.append("\x1b[0;1;96m[i]\x1b[0m ");
                        out.append(msg);
                        proof {
                            assert(out@ =~= upper + browse_footer(
                                self@.controls,
                                Option::Some(msg@),
                                cols as int,
                            ));
                        }
                    },
                    Option::None => {
                        push_legend_from(&mut out, &self.controls, 0, 0, cols);
                    },
                }
                proof {
                    assert(out@ =~= spec_frame(self@, cols as int, rows as int));
                }
                out
            },
            TUIState::BeforeTextbox(..) => {
                let mut out = self.render_list_frame(cols, rows);
                let ghost upper = out@;
                out.append("\x1b[?25h\x1b[0;4m");
                push_spaces(&mut out, cols);
                out.append("\x1b[0m\x1b[0G");
                proof {
                    assert(out@ =~= upper + pending_footer(cols as int));
                    assert(out@ =~= spec_frame(self@, cols as int, rows as int));
                }
                out
            },
            TUIState::NewItem { cursor_pos, current } => render_entry(*cursor_pos, current, cols),
            TUIState::RemoveItem { cursor_pos, current } => render_entry(
                *cursor_pos,
                current,
                cols,
            ),
            TUIState::MoveItem { cursor_pos, current } => render_entry(*cursor_pos, current, cols),
            TUIState::Save { cursor_pos, current } => render_entry(*cursor_pos, current, cols),
            TUIState::Load { cursor_pos, current } => render_entry(*cursor_pos, current, cols),
        }
    }
}

/// The input-line frame of an entry mode.
fn render_entry(cursor_pos: usize, current: &Vec<char>, cols: usize) -> (out: String)
    requires
        cursor_pos < usize::MAX,
    ensures
        out@ == entry_frame(cursor_pos as int, current@, cols as int),
{
    let mut out = String::new();
    out.append("\x1b[?25h\x1b[0G\x1b[0;4m");
    push_chars(&mut out, current);
    let m = current.len();
    push_spaces(
        &mut out,
        if cols > m {
            cols - m
        } else {
            0
        },
    );
    out.append("\x1b[0m\x1b[");
    push_dec(&mut out, cursor_pos + 1);
    out.append("G");
    proof {
        assert(out@ =~= entry_frame(cursor_pos as int, current@, cols as int));
    }
    out
}

/// Extending the window by one row appends that row's line.
proof fn lemma_item_lines_snoc(items: Seq<Seq<char>>, from: int, upto: int)
    requires
        0 <= from <= upto < items.len(),
    ensures
        item_lines(items, from, upto + 1) == item_lines(items, from, upto) + item_line(
            (upto + 1) as nat,
            items[upto],
        ),
    decreases upto - from,
{
    if from == upto {
        assert(item_lines(items, from, from) =~= Seq::<char>::empty());
        assert(item_lines(items, from + 1, from + 1) =~= Seq::<char>::empty());
        assert(item_lines(items, from, from + 1) =~= item_line((from + 1) as nat, items[from]));
        assert(item_lines(items, from, from) + item_line((from + 1) as nat, items[from]) =~=
            item_line((from + 1) as nat, items[from]));
    } else {
        lemma_item_lines_snoc(items, from + 1, upto);
        assert(item_lines(items, from, upto + 1) =~= item_line((from + 1) as nat, items[from])
            + item_lines(items, from + 1, upto + 1));
        assert(item_lines(items, from, upto) =~= item_line((from + 1) as nat, items[from])
            + item_lines(items, from + 1, upto));
        assert(item_line((from + 1) as nat, items[from]) + (item_lines(items, from + 1, upto)
            + item_line((upto + 1) as nat, items[upto])) =~= (item_line(
            (from + 1) as nat,
            items[from],
        ) + item_lines(items, from + 1, upto)) + item_line((upto + 1) as nat, items[upto]));
    }
}

} // verus!
