//! The modal popup menu: an ordered list of named items, one of them
//! highlighted, drawn as a bordered box.
use vstd::prelude::*;
use vstd::string::*;
use crate::terminal::{goto_code, goto_seq, push_repeat, repeat};

verus! {

/// One selectable entry of a popup, known by its name.
pub struct PopupItem {
    name: String,
}

impl View for PopupItem {
    type V = Seq<char>;

    closed spec fn view(&self) -> Seq<char> {
        self.name@
    }
}

impl PopupItem {
    pub fn new(name: String) -> (r: Self)
        ensures
            r@ == name@,
    {
        Self { name }
    }

    pub fn name(&self) -> (r: &str)
        ensures
            r@ == self@,
    {
        self.name.as_str()
    }
}

/// What a popup shows: the names of its items, in order, and the
/// highlighted position.
pub struct PopupView {
    pub names: Seq<Seq<char>>,
    pub index: int,
}

/// An ordered list of items with one highlighted position.
pub struct Popup {
    pub index: usize,
    pub items: Vec<PopupItem>,
}

impl View for Popup {
    type V = PopupView;

    open spec fn view(&self) -> PopupView {
        PopupView { names: self.items@.map_values(|it: PopupItem| it@), index: self.index as int }
    }
}

/// The highlighted position lies among the items (or is 0 when there are none).
pub open spec fn popup_valid(p: PopupView) -> bool {
    p.index == 0 || (0 <= p.index < p.names.len())
}

/// The longest length among `names`, 0 for none.
pub open spec fn max_len(names: Seq<Seq<char>>) -> nat
    decreases names.len(),
{
    if names.len() == 0 {
        0
    } else {
        let m = max_len(names.drop_last());
        if names.last().len() > m {
            names.last().len()
        } else {
            m
        }
    }
}

/// The drawn width of a popup: the longest name plus one space on each
/// side, or 1 plus 2 when there are no items.
pub open spec fn layout_width(names: Seq<Seq<char>>) -> nat {
    if names.len() == 0 {
        3
    } else {
        max_len(names) + 2
    }
}

/// Names short enough that the drawn width fits in a `u16`.
pub open spec fn names_fit(names: Seq<Seq<char>>) -> bool {
    forall|i: int| 0 <= i < names.len() ==> #[trigger] names[i].len() + 2 <= u16::MAX
}

/// The highlight moved one step forward, wrapping to the first item.
pub open spec fn forward(index: int, n: int) -> int {
    (index + 1) % n
}

/// The highlight moved one step backward, wrapping to the last item.
pub open spec fn backward(index: int, n: int) -> int {
    (index + n - 1) % n
}

pub open spec fn horizontal() -> char {
    '\u{2500}'
}

pub open spec fn vertical() -> char {
    '\u{2502}'
}

/// The top border: a corner, `width` horizontal strokes, a corner.
pub open spec fn top_border(width: nat) -> Seq<char> {
    seq!['\u{256d}'] + repeat(seq![horizontal()], width) + seq!['\u{256e}']
}

/// The bottom border: a corner, `width` horizontal strokes, a corner.
pub open spec fn bottom_border(width: nat) -> Seq<char> {
    seq!['\u{2570}'] + repeat(seq![horizontal()], width) + seq!['\u{256f}']
}

/// One content row: `name` centred in `width` columns between two
/// vertical strokes, the smaller half of the padding before it.
pub open spec fn item_row(name: Seq<char>, width: nat) -> Seq<char> {
    let pad = (width - name.len()) as nat;
    seq![vertical()] + repeat(seq![' '], pad / 2) + name + repeat(seq![' '], (pad - pad / 2) as nat)
        + seq![vertical()]
}

/// The first `k` content rows, each placed on its own line below `row`.
pub open spec fn item_rows(names: Seq<Seq<char>>, width: nat, col: nat, row: nat, k: nat) -> Seq<char>
    decreases k,
{
    if k == 0 {
        Seq::empty()
    } else {
        item_rows(names, width, col, row, (k - 1) as nat) + goto_seq(col, row + k) + item_row(
            names[k - 1],
            width,
        )
    }
}

/// Everything drawn for popup `p` anchored at (`col`, `row`): the top
/// border on the anchor row, one row per item, the bottom border, and
/// the terminal cursor left on the highlighted item's row.
pub open spec fn popup_frame(p: PopupView, col: nat, row: nat) -> Seq<char> {
    let w = layout_width(p.names);
    let n = p.names.len();
    goto_seq(col, row) + top_border(w) + item_rows(p.names, w, col, row, n) + goto_seq(col, row + n + 1)
        + bottom_border(w) + goto_seq(col, (row + p.index + 1) as nat)
}

/// Every name is at most the longest one.
pub proof fn lemma_max_len_bound(names: Seq<Seq<char>>, i: int)
    requires
        0 <= i < names.len(),
    ensures
        names[i].len() <= max_len(names),
    decreases names.len(),
{
    if i < names.len() - 1 {
        assert(names.drop_last()[i] == names[i]);
        lemma_max_len_bound(names.drop_last(), i);
    }
}

/// What the border and padding literals hold.
proof fn lemma_glyphs()
    ensures
        "\u{256d}"@ == seq!['\u{256d}'],
        "\u{256e}"@ == seq!['\u{256e}'],
        "\u{2500}"@ == seq![horizontal()],
        "\u{2502}"@ == seq![vertical()],
        "\u{2570}"@ == seq!['\u{2570}'],
        "\u{256f}"@ == seq!['\u{256f}'],
        " "@ == seq![' '],
{
    reveal_strlit("\u{256d}");
    reveal_strlit("\u{256e}");
    reveal_strlit("\u{2500}");
    reveal_strlit("\u{2502}");
    reveal_strlit("\u{2570}");
    reveal_strlit("\u{256f}");
    reveal_strlit(" ");
    assert("\u{256d}"@ =~= seq!['\u{256d}']);
    assert("\u{256e}"@ =~= seq!['\u{256e}']);
    assert("\u{2500}"@ =~= seq![horizontal()]);
    assert("\u{2502}"@ =~= seq![vertical()]);
    assert("\u{2570}"@ =~= seq!['\u{2570}']);
    assert("\u{256f}"@ =~= seq!['\u{256f}']);
    assert(" "@ =~= seq![' ']);
}

impl Popup {
    pub fn new(items: Vec<PopupItem>) -> (r: Self)
        ensures
            r@.names == items@.map_values(|it: PopupItem| it@),
            r@.index == 0,
            popup_valid(r@),
    {
        Self { index: 0, items }
    }

    /// The drawn width: the longest item name (in characters) plus 2.
    pub fn get_max_width(&self) -> (r: u16)
        requires
            names_fit(self@.names),
        ensures
            r as nat == layout_width(self@.names),
    {
        let n = self.items.len();
        if n == 0 {
            return 3;
        }
        let mut m: usize = 0;
        let mut i: usize = 0;
        while i < n
            invariant
                n == self.items@.len(),
                names_fit(self@.names),
                i <= n,
                m as nat == max_len(self@.names.take(i as int)),
                m + 2 <= u16::MAX,
            decreases n - i,
        {
            let len = self.items[i].name.as_str().unicode_len();
            assert(self@.names[i as int] == self.items@[i as int]@);
            assert(self@.names.take(i + 1).drop_last() =~= self@.names.take(i as int));
            if len > m {
                m = len;
            }
            i = i + 1;
        }
        assert(self@.names.take(n as int) =~= self@.names);
        (m + 2) as u16
    }

    /// Moves the highlight one item back, from the first to the last.
    pub fn down(&mut self)
        requires
            old(self).items@.len() > 0,
            popup_valid(old(self)@),
        ensures
            final(self)@.names == old(self)@.names,
            final(self)@.index == backward(old(self)@.index, old(self)@.names.len() as int),
            0 <= final(self)@.index < final(self)@.names.len(),
    {
        let n = self.items.len();
        let ghost i = self.index as int;
        if self.index == 0 {
            self.index = n - 1;
        } else {
            self.index = self.index - 1;
        }
        let ghost j = self.index as int;
        let ghost m = n as int;
        assert(j == backward(i, m)) by (nonlinear_arith)
            requires
                j == if i == 0 { m - 1 } else { i - 1 },
                0 <= i < m,
        ;
    }

    /// Moves the highlight one item forward, from the last to the first.
    pub fn up(&mut self)
        requires
            old(self).items@.len() > 0,
            popup_valid(old(self)@),
        ensures
            final(self)@.names == old(self)@.names,
            final(self)@.index == forward(old(self)@.index, old(self)@.names.len() as int),
            0 <= final(self)@.index < final(self)@.names.len(),
    {
        let n = self.items.len();
        self.index = (self.index + 1) % n;
    }

    /// The text that draws this popup with its top left corner at `pos`
    /// (column, row), leaving the terminal cursor on the highlighted row.
    pub fn render(&self, pos: (u16, u16)) -> (r: String)
        requires
            names_fit(self@.names),
            popup_valid(self@),
            pos.1 + self@.names.len() + 1 <= u16::MAX,
        ensures
            r@ == popup_frame(self@, pos.0 as nat, pos.1 as nat),
    {
        let ghost names = self@.names;
        let ghost col = pos.0 as nat;
        let ghost row = pos.1 as nat;
        let width = self.get_max_width();
        let ghost w = width as nat;
        let n = self.items.len();
        let mut out = String::new();
        let g = goto_code(pos.0, pos.1);
        out.append(g.as_str());
        proof {
            lemma_glyphs();
        }
        out.append("\u{256d}");
        push_repeat(&mut out, "\u{2500}", width);
        out.append("\u{256e}");
        let ghost head = out@;
        assert(head =~= goto_seq(col, row) + top_border(w));
        let mut i: usize = 0;
        while i < n
            invariant
                n == self.items@.len(),
                names == self@.names,
                names_fit(names),
                w == layout_width(names),
                w == width as nat,
                col == pos.0 as nat,
                row == pos.1 as nat,
                pos.1 + n + 1 <= u16::MAX,
                i <= n,
                out@ == head + item_rows(names, w, col, row, i as nat),
            decreases n - i,
        {
            let ghost before = out@;
            let g = goto_code(pos.0, pos.1 + i as u16 + 1);
            out.append(g.as_str());
            let name = self.items[i].name.as_str();
            assert(names[i as int] == name@);
            let len = name.unicode_len();
            proof {
                lemma_max_len_bound(names, i as int);
                assert(w == max_len(names) + 2);
                assert(len as nat == names[i as int].len());
            }
            let len16 = len as u16;
            assert(len16 as nat == names[i as int].len());
            let pad = width - len16;
            out.append("\u{2502}");
            push_repeat(&mut out, " ", pad / 2);
            out.append(name);
            push_repeat(&mut out, " ", pad - pad / 2);
            out.append("\u{2502}");
            proof {
                lemma_glyphs();
            }
            let ghost r = item_row(names[i as int], w);
            assert(out@ =~= before + goto_seq(col, (row + i + 1) as nat) + r);
            i = i + 1;
            assert(out@ =~= head + item_rows(names, w, col, row, i as nat));
        }
        let g = goto_code(pos.0, pos.1 + n as u16 + 1);
        out.append(g.as_str());
        out.append("\u{2570}");
        push_repeat(&mut out, "\u{2500}", width);
        out.append("\u{256f}");
        let g = goto_code(pos.0, pos.1 + self.index as u16 + 1);
        out.append(g.as_str());
        assert(out@ =~= popup_frame(self@, col, row));
        out
    }
}

/// The highlight after a sequence of moves made in order from `index`
/// among `n` items, `true` standing for a forward move.
pub open spec fn highlight_after(index: int, n: int, moves: Seq<bool>) -> int
    decreases moves.len(),
{
    if moves.len() == 0 {
        index
    } else {
        let i = highlight_after(index, n, moves.drop_last());
        if moves.last() {
            forward(i, n)
        } else {
            backward(i, n)
        }
    }
}

/// For every item count of at least 1 and every sequence of forward and
/// backward moves, the highlight stays among the items after each move.
pub proof fn lemma_highlight_stays_in_range(index: int, n: int, moves: Seq<bool>)
    requires
        n >= 1,
        0 <= index < n,
    ensures
        0 <= highlight_after(index, n, moves) < n,
    decreases moves.len(),
{
    if moves.len() > 0 {
        lemma_highlight_stays_in_range(index, n, moves.drop_last());
    }
}

/// A popup's drawing is a function of its items and highlight alone: two
/// popups that show the same, or one popup drawn twice at one anchor with
/// no change between, give the same text.
pub proof fn lemma_popup_render_depends_on_state(a: &Popup, b: &Popup, col: nat, row: nat)
    requires
        a@ == b@,
    ensures
        popup_frame(a@, col, row) == popup_frame(b@, col, row),
{
}

} // verus!
