//! A terminal widget that draws one or more labelled progress bars.

use vstd::prelude::*;

verus! {

/// One labelled bar: `completed` of `total` units are done.
pub struct Bar<'a> {
    label: &'a str,
    completed: usize,
    total: usize,
}

/// What a bar shows.
pub struct BarView {
    pub label: Seq<char>,
    pub completed: nat,
    pub total: nat,
}

/// A terminal widget to display one or more progress bars.
pub struct ProgressBars<'a> {
    use_ascii: bool,
    terminal_width: usize,
    bars: Vec<Bar<'a>>,
}

/// What a widget shows: its style, the width it fills and its bars in order.
pub struct ProgressBarsView {
    pub use_ascii: bool,
    pub terminal_width: nat,
    pub bars: Seq<BarView>,
}

impl<'a> View for Bar<'a> {
    type V = BarView;

    closed spec fn view(&self) -> BarView {
        BarView { label: self.label@, completed: self.completed as nat, total: self.total as nat }
    }
}

impl<'a> View for ProgressBars<'a> {
    type V = ProgressBarsView;

    closed spec fn view(&self) -> ProgressBarsView {
        ProgressBarsView {
            use_ascii: self.use_ascii,
            terminal_width: self.terminal_width as nat,
            bars: self.bars@.map_values(|b: Bar<'a>| b@),
        }
    }
}

impl ProgressBarsView {
    /// No bar has more units done than it has in all.
    pub open spec fn wf(self) -> bool {
        forall|i: int| 0 <= i < self.bars.len() ==> #[trigger] self.bars[i].completed <= self.bars[i].total
    }
}

/// The decimal digit character for `d < 10`.
pub open spec fn digit_char(d: nat) -> char {
    if d == 0 { '0' } else if d == 1 { '1' } else if d == 2 { '2' } else if d == 3 { '3' }
    else if d == 4 { '4' } else if d == 5 { '5' } else if d == 6 { '6' } else if d == 7 { '7' }
    else if d == 8 { '8' } else { '9' }
}

/// The decimal notation of `n`, without leading zeros.
pub open spec fn decimal(n: nat) -> Seq<char>
    decreases n,
{
    if n < 10 {
        seq![digit_char(n)]
    } else {
        decimal(n / 10).push(digit_char(n % 10))
    }
}

/// The integer base-10 logarithm of `n`, taken as 0 for 0.
pub open spec fn log10(n: nat) -> nat
    decreases n,
{
    if n < 10 { 0 } else { 1 + log10(n / 10) }
}

/// `n` spaces.
pub open spec fn spaces(n: nat) -> Seq<char> {
    Seq::new(n, |i: int| ' ')
}

/// `s` followed by spaces up to `width` characters.
pub open spec fn pad_right(s: Seq<char>, width: nat) -> Seq<char> {
    if s.len() < width { s + spaces((width - s.len()) as nat) } else { s }
}

/// Spaces up to `width` characters followed by `s`.
pub open spec fn pad_left(s: Seq<char>, width: nat) -> Seq<char> {
    if s.len() < width { spaces((width - s.len()) as nat) + s } else { s }
}

/// The character a bar is drawn with.
pub open spec fn bar_char(use_ascii: bool) -> char {
    if use_ascii { '-' } else { '\u{2501}' }
}

/// The widest label among the first `n` bars, in characters.
pub open spec fn label_width(bars: Seq<BarView>, n: int) -> nat
    decreases n,
{
    if n <= 0 {
        0
    } else {
        let w = label_width(bars, n - 1);
        let l = bars[n - 1].label.len();
        if l > w { l } else { w }
    }
}

/// The largest base-10 logarithm of the completed counts of the first `n` bars.
pub open spec fn completed_width(bars: Seq<BarView>, n: int) -> nat
    decreases n,
{
    if n <= 0 {
        0
    } else {
        let w = completed_width(bars, n - 1);
        let l = log10(bars[n - 1].completed);
        if l > w { l } else { w }
    }
}

/// The count shown at the right of a bar: `completed / total`, the completed
/// count right-aligned to `cw` columns.
pub open spec fn bar_message(completed: nat, total: nat, cw: nat) -> Seq<char> {
    pad_left(decimal(completed), cw) + seq![' ', '/', ' '] + decimal(total)
}

/// The columns left for the bar itself beside its message.
pub open spec fn bar_room(b: BarView, tw: nat, cw: nat) -> nat {
    let used = (bar_message(b.completed, b.total, cw).len() - 1) as nat;
    if tw > used { (tw - used) as nat } else { 0 }
}

/// How many bar characters a bar draws: the completed share of its room,
/// rounded down.
pub open spec fn bar_fill(b: BarView, room: nat) -> nat {
    if b.total == 0 { 0 } else { (b.completed * room / b.total) as nat }
}

/// One drawn line: label, bar, message, then a move one line down.
pub open spec fn bar_line(v: ProgressBarsView, b: BarView, lw: nat, cw: nat) -> Seq<char> {
    let room = bar_room(b, v.terminal_width, cw);
    let bar = Seq::new(bar_fill(b, room), |i: int| bar_char(v.use_ascii));
    seq!['\r'] + pad_right(b.label, lw) + seq![' '] + pad_right(bar, room) + seq![' ']
        + bar_message(b.completed, b.total, cw) + seq!['\x1b', '[', '1', 'B']
}

/// The lines of the first `n` bars.
pub open spec fn bar_lines(v: ProgressBarsView, n: int) -> Seq<char>
    decreases n,
{
    if n <= 0 {
        Seq::empty()
    } else {
        bar_lines(v, n - 1) + bar_line(
            v,
            v.bars[n - 1],
            label_width(v.bars, v.bars.len() as int),
            completed_width(v.bars, v.bars.len() as int),
        )
    }
}

/// The escape sequence that clears `n` fresh lines below the cursor.
pub open spec fn reserve_lines(n: nat) -> Seq<char>
    decreases n,
{
    if n == 0 {
        Seq::empty()
    } else {
        reserve_lines((n - 1) as nat) + seq!['\r', '\n', '\x1b', '[', 'K']
    }
}

/// The escape sequence that moves the cursor `n` lines up.
pub open spec fn move_up(n: nat) -> Seq<char> {
    seq!['\r', '\x1b', '['] + decimal(n) + seq!['A']
}

/// The whole frame the widget draws.
pub open spec fn frame(v: ProgressBarsView) -> Seq<char> {
    let n = v.bars.len();
    reserve_lines(n) + move_up(n) + bar_lines(v, n as int) + move_up(n)
}

fn digit_str(d: usize) -> (r: &'static str)
    requires
        d < 10,
    ensures
        r@ == seq![digit_char(d as nat)],
{
    proof {
        reveal_strlit("0");
        reveal_strlit("1");
        reveal_strlit("2");
        reveal_strlit("3");
        reveal_strlit("4");
        reveal_strlit("5");
        reveal_strlit("6");
        reveal_strlit("7");
        reveal_strlit("8");
        reveal_strlit("9");
    }
    if d == 0 { "0" } else if d == 1 { "1" } else if d == 2 { "2" } else if d == 3 { "3" }
    else if d == 4 { "4" } else if d == 5 { "5" } else if d == 6 { "6" } else if d == 7 { "7" }
    else if d == 8 { "8" } else { "9" }
}

fn push_decimal(out: &mut String, n: usize)
    ensures
        final(out)@ == old(out)@ + decimal(n as nat),
    decreases n,
{
    if n >= 10 {
        push_decimal(out, n / 10);
        out.append(digit_str(n % 10));
        assert(old(out)@ + decimal(n as nat) =~= old(out)@ + decimal((n / 10) as nat) + seq![digit_char((n % 10) as nat)]);
    } else {
        out.append(digit_str(n));
    }
}

fn push_repeated(out: &mut String, s: &str, count: usize)
    requires
        s@.len() == 1,
    ensures
        final(out)@ == old(out)@ + Seq::new(count as nat, |i: int| s@[0]),
{
    let mut k: usize = 0;
    while k < count
        invariant
            s@.len() == 1,
            k <= count,
            out@ == old(out)@ + Seq::new(k as nat, |i: int| s@[0]),
        decreases count - k,
    {
        out.append(s);
        k = k + 1;
        assert(out@ =~= old(out)@ + Seq::new(k as nat, |i: int| s@[0]));
    }
}

fn push_spaces(out: &mut String, count: usize)
    ensures
        final(out)@ == old(out)@ + spaces(count as nat),
{
    proof {
        reveal_strlit(" ");
    }
    push_repeated(out, " ", count);
    assert(Seq::new(count as nat, |i: int| " "@[0]) =~= spaces(count as nat));
}

fn ilog10(n: usize) -> (r: usize)
    ensures
        r as nat == log10(n as nat),
    decreases n,
{
    if n < 10 {
        0
    } else {
        let r = ilog10(n / 10);
        proof { lemma_log10_le((n / 10) as nat); }
        r + 1
    }
}

proof fn lemma_log10_le(n: nat)
    ensures
        log10(n) <= n,
    decreases n,
{
    if n >= 10 {
        lemma_log10_le(n / 10);
    }
}

impl<'a> ProgressBars<'a> {
    /// An empty widget drawn with box characters, 80 columns wide.
    pub fn new() -> (r: Self)
        ensures
            r@.use_ascii == false,
            r@.terminal_width == 80,
            r@.bars == Seq::<BarView>::empty(),
            r@.wf(),
    {
        let r = ProgressBars { use_ascii: false, terminal_width: 80, bars: Vec::new() };
        assert(r@.bars =~= Seq::<BarView>::empty());
        r
    }

    /// Chooses plain ASCII bars (`true`) or box-drawing bars (`false`).
    pub fn ascii(self, ascii: bool) -> (r: Self)
        ensures
            r@.use_ascii == ascii,
            r@.terminal_width == self@.terminal_width,
            r@.bars == self@.bars,
    {
        let mut s = self;
        s.use_ascii = ascii;
        s
    }

    /// Appends a bar with `completed` of `total` units done.
    pub fn add(self, label: &'a str, completed: usize, total: usize) -> (r: Self)
        requires
            completed <= total,
            self@.wf(),
        ensures
            r@.use_ascii == self@.use_ascii,
            r@.terminal_width == self@.terminal_width,
            r@.bars == self@.bars.push(BarView { label: label@, completed: completed as nat, total: total as nat }),
            r@.wf(),
    {
        let mut s = self;
        s.bars.push(Bar { label, completed, total });
        assert(s@.bars =~= self@.bars.push(BarView { label: label@, completed: completed as nat, total: total as nat }));
        s
    }

    /// Sets the width, in columns, that each line fills.
    pub fn terminal_width(self, width: usize) -> (r: Self)
        ensures
            r@.use_ascii == self@.use_ascii,
            r@.terminal_width == width,
            r@.bars == self@.bars,
    {
        let mut s = self;
        s.terminal_width = width;
        s
    }
}

fn bar_message_string(completed: usize, total: usize, completed_w: usize) -> (r: String)
    ensures
        r@ == bar_message(completed as nat, total as nat, completed_w as nat),
{
    proof {
        reveal_strlit(" / ");
    }
    let mut digits = String::new();
    push_decimal(&mut digits, completed);
    let dl = digits.as_str().unicode_len();
    let mut message = String::new();
    if dl < completed_w {
        push_spaces(&mut message, completed_w - dl);
    }
    message.append(digits.as_str());
    message.append(" / ");
    push_decimal(&mut message, total);
    assert(message@ =~= bar_message(completed as nat, total as nat, completed_w as nat));
    message
}

fn room_beside(terminal_width: usize, message: &String) -> (r: usize)
    requires
        message@.len() >= 1,
    ensures
        r as nat == (if terminal_width > (message@.len() - 1) as nat {
            (terminal_width - (message@.len() - 1)) as nat
        } else {
            0nat
        }),
{
    let ml = message.as_str().unicode_len();
    terminal_width.saturating_sub(ml - 1)
}

fn fill_of(completed: usize, total: usize, room: usize) -> (r: usize)
    requires
        completed <= total,
    ensures
        r <= room,
        r as nat == (if total == 0 { 0nat } else { (completed as nat * room as nat / total as nat) as nat }),
{
    if total == 0 {
        0
    } else {
        let c = completed as u128;
        let rm = room as u128;
        let t = total as u128;
        assert(c * rm <= 0xffff_ffff_ffff_ffffu128 * 0xffff_ffff_ffff_ffffu128) by (nonlinear_arith)
            requires c <= 0xffff_ffff_ffff_ffffu128, rm <= 0xffff_ffff_ffff_ffffu128;
        assert((c * rm) as int / (t as int) <= rm as int) by (nonlinear_arith)
            requires c <= t, t > 0;
        ((c * rm) / t) as usize
    }
}

fn push_padded(out: &mut String, s: &str, width: usize)
    ensures
        final(out)@ == old(out)@ + pad_right(s@, width as nat),
{
    let l = s.unicode_len();
    out.append(s);
    if l < width {
        push_spaces(out, width - l);
    }
    assert(out@ =~= old(out)@ + pad_right(s@, width as nat));
}

impl<'a> ProgressBars<'a> {
    /// Draws every bar on its own line, then moves the cursor back to the
    /// first line; the frame is appended to `writer`.
    pub fn render(self, writer: &mut String)
        requires
            self@.wf(),
        ensures
            final(writer)@ == old(writer)@ + frame(self@),
    {
        let ghost v = self@;
        let n = self.bars.len();
        let bar_character: &str = if self.use_ascii { "-" } else { "\u{2501}" };
        proof {
            reveal_strlit("-");
            reveal_strlit("\u{2501}");
            reveal_strlit("\r\n\x1b[K");
            reveal_strlit("\r\x1b[");
            reveal_strlit("A");
            reveal_strlit("\r");
            reveal_strlit(" ");
            reveal_strlit(" / ");
            reveal_strlit("\x1b[1B");
        }
        assert(bar_character@ == seq![bar_char(v.use_ascii)]);

        let mut label_w: usize = 0;
        let mut completed_w: usize = 0;
        let mut i: usize = 0;
        while i < n
            invariant
                v == self@,
                n == v.bars.len(),
                i <= n,
                label_w as nat == label_width(v.bars, i as int),
                completed_w as nat == completed_width(v.bars, i as int),
            decreases n - i,
        {
            let bar = &self.bars[i];
            assert(v.bars[i as int] == bar@);
            let l = bar.label.unicode_len();
            if l > label_w {
                label_w = l;
            }
            let c = ilog10(bar.completed);
            if c > completed_w {
                completed_w = c;
            }
            i = i + 1;
        }

        let ghost start = writer@;
        let mut k: usize = 0;
        while k < n
            invariant
                k <= n,
                writer@ == start + reserve_lines(k as nat),
            decreases n - k,
        {
            proof {
                reveal_strlit("\r\n\x1b[K");
            }
            writer.append("\r\n\x1b[K");
            k = k + 1;
            assert(writer@ =~= start + reserve_lines(k as nat));
        }
        self.push_move_up(writer);
        assert(writer@ =~= start + reserve_lines(n as nat) + move_up(n as nat));

        let ghost head = writer@;
        let mut i: usize = 0;
        while i < n
            invariant
                v == self@,
                v.wf(),
                n == v.bars.len(),
                i <= n,
                label_w as nat == label_width(v.bars, n as int),
                completed_w as nat == completed_width(v.bars, n as int),
                bar_character@ == seq![bar_char(v.use_ascii)],
                writer@ == head + bar_lines(v, i as int),
            decreases n - i,
        {
            let bar = &self.bars[i];
            assert(v.bars[i as int] == bar@);
            self.push_line(writer, bar, bar_character, label_w, completed_w);
            i = i + 1;
            assert(writer@ =~= head + bar_lines(v, i as int));
        }
        self.push_move_up(writer);
        assert(writer@ =~= start + frame(v));
    }

    fn push_move_up(&self, writer: &mut String)
        ensures
            final(writer)@ == old(writer)@ + move_up(self.bars@.len() as nat),
    {
        proof {
            reveal_strlit("\r\x1b[");
            reveal_strlit("A");
        }
        writer.append("\r\x1b[");
        push_decimal(writer, self.bars.len());
        writer.append("A");
        assert(writer@ =~= old(writer)@ + move_up(self.bars@.len() as nat));
    }

    fn push_line(&self, writer: &mut String, bar: &Bar<'a>, bar_character: &str, label_w: usize, completed_w: usize)
        requires
            bar@.completed <= bar@.total,
            bar_character@ == seq![bar_char(self@.use_ascii)],
        ensures
            final(writer)@ == old(writer)@ + bar_line(self@, bar@, label_w as nat, completed_w as nat),
    {
        proof {
            reveal_strlit("\r");
            reveal_strlit(" ");
            reveal_strlit("\x1b[1B");
        }
        let ghost b = bar@;
        let message = bar_message_string(bar.completed, bar.total, completed_w);
        let room = room_beside(self.terminal_width, &message);
        let fill = fill_of(bar.completed, bar.total, room);

        let ghost before = writer@;
        writer.append("\r");
        push_padded(writer, bar.label, label_w);
        writer.append(" ");
        let ghost mid = writer@;
        push_repeated(writer, bar_character, fill);
        push_spaces(writer, room - fill);
        let ghost bar_seq = Seq::new(fill as nat, |j: int| bar_char(self@.use_ascii));
        assert(writer@ =~= mid + pad_right(bar_seq, room as nat));
        writer.append(" ");
        writer.append(message.as_str());
        writer.append("\x1b[1B");
        assert(writer@ =~= before + bar_line(self@, b, label_w as nat, completed_w as nat));
    }
}

} // verus!
