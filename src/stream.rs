//! The editor's state: the boxes of the stream, the cursor along the
//! track, the optional add-menu popup, the key bindings that change them,
//! and the frame that draws them.
use vstd::prelude::*;
use vstd::string::*;
use crate::popup::{backward, forward, popup_frame, Popup, PopupItem, PopupView};
use crate::terminal::{clear_code, clear_seq, goto_code, goto_seq, push_repeat, repeat};

verus! {

/// Columns kept free on each side of the track.
pub const MARGIN: u16 = 5;

/// Widest label, in characters, that fits on one row of a box.
pub const MAX_WIDTH: u8 = 10;

/// The kind of data a box takes in or gives out.
#[derive(Clone, Copy, Debug, PartialEq, Eq, Structural)]
pub enum DataType {
    Audio,
    Video,
    Text,
    JSON,
}

/// What a box holds.
pub struct TextBoxView {
    pub label: Seq<char>,
    pub index: u8,
    pub input: Option<DataType>,
    pub output: Option<DataType>,
}

/// A placeholder element of the stream.
pub struct TextBox {
    label: String,
    index: u8,
    input: Option<DataType>,
    output: Option<DataType>,
}

impl View for TextBox {
    type V = TextBoxView;

    closed spec fn view(&self) -> TextBoxView {
        TextBoxView { label: self.label@, index: self.index, input: self.input, output: self.output }
    }
}

/// The number of rows a label of `len` characters would take beyond the
/// first: its length divided by the widest row, rounded down.
pub open spec fn box_height(len: nat) -> nat {
    len / (MAX_WIDTH as nat)
}

/// The greatest height among `boxes`, or 1 when there are none.
pub open spec fn max_height(boxes: Seq<TextBoxView>) -> nat
    decreases boxes.len(),
{
    if boxes.len() == 0 {
        1
    } else if boxes.len() == 1 {
        box_height(boxes[0].label.len())
    } else {
        let m = max_height(boxes.drop_last());
        let h = box_height(boxes.last().label.len());
        if h > m {
            h
        } else {
            m
        }
    }
}

/// Every box's height fits in a `u8`.
pub open spec fn heights_fit(boxes: Seq<TextBoxView>) -> bool {
    forall|i: int| 0 <= i < boxes.len() ==> box_height(#[trigger] boxes[i].label.len()) <= u8::MAX
}

impl TextBox {
    pub fn new(text: String, index: u8) -> (r: Self)
        ensures
            r@ == (TextBoxView { label: text@, index, input: None, output: None }),
    {
        Self { label: text, index, input: None, output: None }
    }

    pub fn get_height(&self) -> (r: u8)
        requires
            box_height(self@.label.len()) <= u8::MAX,
        ensures
            r as nat == box_height(self@.label.len()),
    {
        let len = self.label.as_str().unicode_len();
        (len / (MAX_WIDTH as usize)) as u8
    }
}

/// A key as the terminal delivers it.
#[derive(Clone, Copy, Debug, PartialEq, Eq, Structural)]
pub enum KeyEvent {
    Char(char),
    Ctrl(char),
    Left,
    Right,
    Up,
    Down,
    BackTab,
    Esc,
    Other,
}

/// What a key asks of the editor.
#[derive(Clone, Copy, Debug, PartialEq, Eq, Structural)]
pub enum Command {
    Quit,
    CursorRight,
    CursorLeft,
    OpenMenu,
    HighlightForward,
    HighlightBackward,
    Dismiss,
    Select,
    Ignore,
}

/// The key bindings.
pub open spec fn binding(k: KeyEvent) -> Command {
    match k {
        KeyEvent::Char(c) => if c == 'q' {
            Command::Quit
        } else if c == 'l' {
            Command::CursorRight
        } else if c == 'h' {
            Command::CursorLeft
        } else if c == 'a' {
            Command::OpenMenu
        } else if c == '\t' {
            Command::HighlightForward
        } else if c == '\n' {
            Command::Select
        } else {
            Command::Ignore
        },
        KeyEvent::Ctrl(c) => if c == 'c' {
            Command::Quit
        } else {
            Command::Ignore
        },
        KeyEvent::Right => Command::CursorRight,
        KeyEvent::Left => Command::CursorLeft,
        KeyEvent::Down => Command::HighlightForward,
        KeyEvent::Up => Command::HighlightBackward,
        KeyEvent::BackTab => Command::HighlightBackward,
        KeyEvent::Esc => Command::Dismiss,
        KeyEvent::Other => Command::Ignore,
    }
}

/// The command bound to `key`.
pub fn command_for(key: KeyEvent) -> (r: Command)
    ensures
        r == binding(key),
{
    match key {
        KeyEvent::Char(c) => {
            if c == 'q' {
                Command::Quit
            } else if c == 'l' {
                Command::CursorRight
            } else if c == 'h' {
                Command::CursorLeft
            } else if c == 'a' {
                Command::OpenMenu
            } else if c == '\t' {
                Command::HighlightForward
            } else if c == '\n' {
                Command::Select
            } else {
                Command::Ignore
            }
        },
        KeyEvent::Ctrl(c) => {
            if c == 'c' {
                Command::Quit
            } else {
                Command::Ignore
            }
        },
        KeyEvent::Right => Command::CursorRight,
        KeyEvent::Left => Command::CursorLeft,
        KeyEvent::Down => Command::HighlightForward,
        KeyEvent::Up => Command::HighlightBackward,
        KeyEvent::BackTab => Command::HighlightBackward,
        KeyEvent::Esc => Command::Dismiss,
        KeyEvent::Other => Command::Ignore,
    }
}

/// `pos` brought into `[0, length]`.
pub open spec fn clamp(pos: int, length: nat) -> nat {
    if pos < 0 {
        0
    } else if pos > length {
        length
    } else {
        pos as nat
    }
}

/// Brings a cursor position into `[0, length]`.
pub fn clamp_cursor(pos: i32, length: u16) -> (r: u16)
    ensures
        r as nat == clamp(pos as int, length as nat),
{
    if pos < 0 {
        0
    } else if pos > length as i32 {
        length
    } else {
        pos as u16
    }
}

/// What the editor holds: the boxes, the track's length, the row it is
/// drawn on, the cursor's offset along it, and the popup if one is open.
pub struct StreamView {
    pub boxes: Seq<TextBoxView>,
    pub length: nat,
    pub row: nat,
    pub cursor: nat,
    pub popup: Option<PopupView>,
}

/// The names of the add-menu's items, in order.
pub open spec fn add_menu_names() -> Seq<Seq<char>> {
    seq![seq!['B', 'o', 'x'], seq!['B', 'r', 'a', 'n', 'c', 'h'], seq!['O', 't', 'h', 'e', 'r']]
}

/// A freshly opened add-menu.
pub open spec fn add_menu() -> PopupView {
    PopupView { names: add_menu_names(), index: 0 }
}

/// The editor's invariant: the cursor lies on the track, the geometry
/// fits the terminal's coordinates, and an open popup is the add-menu
/// with its highlight on one of its items.
pub open spec fn stream_valid(s: StreamView) -> bool {
    &&& s.cursor <= s.length
    &&& s.length + 2 * MARGIN <= u16::MAX
    &&& s.row <= u16::MAX / 2
    &&& s.popup matches Some(p) ==> p.names == add_menu_names() && 0 <= p.index < 3
}

/// How far a command moves the cursor before it is clamped.
pub open spec fn cursor_delta(c: Command) -> int {
    match c {
        Command::CursorRight => 1,
        Command::CursorLeft => -1,
        _ => 0,
    }
}

/// The popup after a command.
pub open spec fn popup_after(p: Option<PopupView>, c: Command) -> Option<PopupView> {
    match c {
        Command::OpenMenu => Some(add_menu()),
        Command::Dismiss => None,
        Command::HighlightForward => match p {
            Some(q) => Some(PopupView { index: forward(q.index, q.names.len() as int), ..q }),
            None => None,
        },
        Command::HighlightBackward => match p {
            Some(q) => Some(PopupView { index: backward(q.index, q.names.len() as int), ..q }),
            None => None,
        },
        _ => p,
    }
}

/// The editor after one key: the command bound to it is applied and the
/// cursor is clamped to the track.
pub open spec fn step(s: StreamView, k: KeyEvent) -> StreamView {
    let c = binding(k);
    StreamView {
        cursor: clamp(s.cursor + cursor_delta(c), s.length),
        popup: popup_after(s.popup, c),
        ..s
    }
}

/// The editor after a sequence of keys, in order.
pub open spec fn run(s: StreamView, keys: Seq<KeyEvent>) -> StreamView
    decreases keys.len(),
{
    if keys.len() == 0 {
        s
    } else {
        step(run(s, keys.drop_last()), keys.last())
    }
}

/// What the selected add-menu item asks for.
#[derive(Clone, Copy, Debug, PartialEq, Eq, Structural)]
pub enum MenuAction {
    AddBox,
    AddBranch,
    AddOther,
}

/// The action of the add-menu item at `index`.
pub open spec fn action_at(index: int) -> MenuAction {
    if index == 0 {
        MenuAction::AddBox
    } else if index == 1 {
        MenuAction::AddBranch
    } else {
        MenuAction::AddOther
    }
}

/// The horizontal track: `length - 1` dashes and an arrowhead.
pub open spec fn track(length: nat) -> Seq<char> {
    repeat(seq!['-'], (length - 1) as nat) + seq!['>']
}

/// One whole frame: the screen cleared, the track drawn from the left
/// margin on the centre row, the terminal cursor put at the cursor's
/// column, and the popup, if open, drawn from there.
pub open spec fn frame(s: StreamView) -> Seq<char> {
    let col = (MARGIN + s.cursor) as nat;
    clear_seq() + goto_seq(MARGIN as nat, s.row) + track(s.length) + goto_seq(col, s.row) + match s.popup {
        Some(p) => popup_frame(p, col, s.row),
        None => Seq::empty(),
    }
}

/// The editor's state.
pub struct Stream {
    boxes: Vec<TextBox>,
    length: u16,
    y: u16,
    cursor: u16,
    popup: Option<Popup>,
}

impl View for Stream {
    type V = StreamView;

    closed spec fn view(&self) -> StreamView {
        StreamView {
            boxes: self.boxes@.map_values(|b: TextBox| b@),
            length: self.length as nat,
            row: self.y as nat,
            cursor: self.cursor as nat,
            popup: match self.popup {
                Some(p) => Some(p@),
                None => None,
            },
        }
    }
}

impl Stream {
    /// A new editor for a terminal of `t_size` (columns, rows): the track
    /// spans the width less both margins and runs along the middle row.
    pub fn new(t_size: (u16, u16)) -> (r: Self)
        requires
            t_size.0 >= 2 * MARGIN,
        ensures
            r@ == (StreamView {
                boxes: Seq::empty(),
                length: (t_size.0 - 2 * MARGIN) as nat,
                row: (t_size.1 / 2) as nat,
                cursor: 0,
                popup: None,
            }),
            stream_valid(r@),
    {
        let r = Self {
            boxes: Vec::new(),
            y: t_size.1 / 2,
            length: t_size.0 - 2 * MARGIN,
            cursor: 0,
            popup: None,
        };
        assert(r@.boxes =~= Seq::empty());
        r
    }

    pub fn add_box(&mut self, text_box: TextBox)
        ensures
            final(self)@ == (StreamView { boxes: old(self)@.boxes.push(text_box@), ..old(self)@ }),
    {
        let ghost b = text_box@;
        self.boxes.push(text_box);
        assert(final(self)@.boxes =~= old(self)@.boxes.push(b));
    }

    /// Opens the add-menu, replacing any popup that was open.
    pub fn toggle_add_popup(&mut self)
        ensures
            final(self)@ == (StreamView { popup: Some(add_menu()), ..old(self)@ }),
    {
        proof {
            reveal_strlit("Box");
            reveal_strlit("Branch");
            reveal_strlit("Other");
            assert("Box"@ =~= add_menu_names()[0]);
            assert("Branch"@ =~= add_menu_names()[1]);
            assert("Other"@ =~= add_menu_names()[2]);
        }
        let items = vec![
            PopupItem::new(String::from_str("Box")),
            PopupItem::new(String::from_str("Branch")),
            PopupItem::new(String::from_str("Other")),
        ];
        let p = Popup::new(items);
        assert(p@.names =~= add_menu_names());
        self.popup = Some(p);
        assert(final(self)@.boxes =~= old(self)@.boxes);
    }

    /// Closes the popup, whether one was open or not.
    pub fn dismiss_popup(&mut self)
        ensures
            final(self)@ == (StreamView { popup: None, ..old(self)@ }),
    {
        self.popup = None;
        assert(final(self)@.boxes =~= old(self)@.boxes);
    }

    /// The action of the highlighted add-menu item.
    pub fn select_popup_value(&self) -> (r: MenuAction)
        requires
            stream_valid(self@),
            self@.popup is Some,
        ensures
            r == action_at(self@.popup.unwrap().index),
    {
        let popup = self.popup.as_ref().unwrap();
        if popup.index == 0 {
            MenuAction::AddBox
        } else if popup.index == 1 {
            MenuAction::AddBranch
        } else {
            MenuAction::AddOther
        }
    }

    pub fn cursor(&self) -> (r: u16)
        ensures
            r as nat == self@.cursor,
    {
        self.cursor
    }

    pub fn length(&self) -> (r: u16)
        ensures
            r as nat == self@.length,
    {
        self.length
    }

    pub fn row(&self) -> (r: u16)
        ensures
            r as nat == self@.row,
    {
        self.y
    }

    pub fn boxes_len(&self) -> (r: usize)
        ensures
            r == self@.boxes.len(),
    {
        self.boxes.len()
    }

    pub fn popup(&self) -> (r: Option<&Popup>)
        ensures
            match r {
                Some(p) => self@.popup == Some(p@),
                None => self@.popup is None,
            },
    {
        self.popup.as_ref()
    }

    /// Applies one key: runs the command bound to it, then clamps the
    /// cursor to the track. Returns false when the key asks to quit.
    pub fn handle_key(&mut self, key: KeyEvent) -> (r: bool)
        requires
            stream_valid(old(self)@),
        ensures
            final(self)@ == step(old(self)@, key),
            stream_valid(final(self)@),
            r == (binding(key) != Command::Quit),
    {
        let cmd = command_for(key);
        match cmd {
            Command::OpenMenu => self.toggle_add_popup(),
            Command::Dismiss => self.dismiss_popup(),
            Command::HighlightForward => {
                match self.popup.take() {
                    Some(mut p) => {
                        p.up();
                        self.popup = Some(p);
                    },
                    None => {},
                }
            },
            Command::HighlightBackward => {
                match self.popup.take() {
                    Some(mut p) => {
                        p.down();
                        self.popup = Some(p);
                    },
                    None => {},
                }
            },
            Command::Select => {
                if self.popup.is_some() {
                    let _action = self.select_popup_value();
                }
            },
            _ => {},
        }
        let delta: i32 = match cmd {
            Command::CursorRight => 1,
            Command::CursorLeft => -1,
            _ => 0,
        };
        self.cursor = clamp_cursor(self.cursor as i32 + delta, self.length);
        assert(final(self)@.boxes =~= old(self)@.boxes);
        assert(final(self)@ =~= step(old(self)@, key));
        cmd != Command::Quit
    }

    /// The greatest height among the boxes, or 1 when there are none.
    pub fn max_box_height(&self) -> (r: u8)
        requires
            heights_fit(self@.boxes),
        ensures
            r as nat == max_height(self@.boxes),
    {
        let n = self.boxes.len();
        if n == 0 {
            return 1;
        }
        let ghost boxes = self@.boxes;
        assert(boxes[0] == self.boxes@[0]@);
        let mut m: u8 = self.boxes[0].get_height();
        assert(boxes.take(1) =~= seq![boxes[0]]);
        let mut i: usize = 1;
        while i < n
            invariant
                n == self.boxes@.len(),
                boxes == self@.boxes,
                heights_fit(boxes),
                1 <= i <= n,
                m as nat == max_height(boxes.take(i as int)),
            decreases n - i,
        {
            assert(boxes[i as int] == self.boxes@[i as int]@);
            let h = self.boxes[i].get_height();
            assert(boxes.take(i + 1).drop_last() =~= boxes.take(i as int));
            if h > m {
                m = h;
            }
            i = i + 1;
        }
        assert(boxes.take(n as int) =~= boxes);
        m
    }

    /// The text of one whole frame: see `frame`.
    pub fn render(&self) -> (r: String)
        requires
            stream_valid(self@),
            self@.length >= 1,
        ensures
            r@ == frame(self@),
    {
        proof {
            reveal_strlit("-");
            reveal_strlit(">");
            assert("-"@ =~= seq!['-']);
            assert(">"@ =~= seq!['>']);
        }
        let mut out = clear_code();
        let g = goto_code(MARGIN, self.y);
        out.append(g.as_str());
        push_repeat(&mut out, "-", self.length - 1);
        out.append(">");
        let col = MARGIN + self.cursor;
        let g = goto_code(col, self.y);
        out.append(g.as_str());
        let ghost head = out@;
        match &self.popup {
            Some(p) => {
                assert(p@.names[0].len() == 3 && p@.names[1].len() == 6 && p@.names[2].len() == 5);
                let drawn = p.render((col, self.y));
                out.append(drawn.as_str());
            },
            None => {},
        }
        assert(out@ =~= frame(self@));
        out
    }
}

/// One key keeps the editor's invariant.
proof fn lemma_step_valid(s: StreamView, k: KeyEvent)
    requires
        stream_valid(s),
    ensures
        stream_valid(step(s, k)),
        step(s, k).length == s.length,
{
}

/// Whatever keys are pressed, in whatever order, the cursor stays on the
/// track, from 0 to its length inclusive, and the track keeps its length.
pub proof fn lemma_cursor_stays_on_track(s: StreamView, keys: Seq<KeyEvent>)
    requires
        stream_valid(s),
    ensures
        run(s, keys).cursor <= run(s, keys).length,
        run(s, keys).length == s.length,
        stream_valid(run(s, keys)),
    decreases keys.len(),
{
    if keys.len() > 0 {
        lemma_cursor_stays_on_track(s, keys.drop_last());
        lemma_step_valid(run(s, keys.drop_last()), keys.last());
    }
}

/// Whatever keys are pressed, an open popup keeps its highlight among its
/// items.
pub proof fn lemma_popup_highlight_in_range(s: StreamView, keys: Seq<KeyEvent>)
    requires
        stream_valid(s),
    ensures
        run(s, keys).popup matches Some(p) ==> 0 <= p.index < p.names.len(),
{
    lemma_cursor_stays_on_track(s, keys);
}

/// Opening the add-menu gives its three items in order with the first
/// highlighted, whatever popup was open before.
pub proof fn lemma_open_menu_is_fresh(s: StreamView)
    ensures
        step(s, KeyEvent::Char('a')).popup == Some(add_menu()),
        add_menu().names.len() == 3,
{
}

/// Esc leaves no popup open, whether one was open or not.
pub proof fn lemma_esc_dismisses(s: StreamView)
    ensures
        step(s, KeyEvent::Esc).popup is None,
{
}

/// The frame is a function of the editor's state alone: two editors in
/// the same state, or one editor drawn twice with no change between,
/// give the same text.
pub proof fn lemma_render_depends_on_state(a: &Stream, b: &Stream)
    requires
        a@ == b@,
    ensures
        frame(a@) == frame(b@),
{
}

} // verus!
