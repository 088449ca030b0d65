//! Polls: the `/vote` directives of operator comments, and the overlay that
//! shows a poll's question, options and results when it closes.
use vstd::prelude::*;
use vstd::string::*;
use crate::events::{band_event, band_line, dialogue, dialogue_head, lines, push_line, push_small_font, small_font};
use crate::text::{all_digits, chars_of, dec, digits_value, is_digit, parse_digits, push_chars, push_dec, push_int, replace_all, replace_seq, sdec};

verus! {

/// Why a conversion failed.
#[derive(Clone, Copy, PartialEq, Eq, Structural, Debug)]
pub enum ConvertError {
    /// A `/vote` directive that cannot be split into words, or lacks the
    /// words that its kind needs.
    VoteSyntax,
    /// A poll result that is not a decimal number, or an option without one.
    BadResult,
}

/// An open poll.
pub struct Poll {
    pub start: u64,
    pub question: Vec<char>,
    pub options: Vec<Vec<char>>,
    pub results: Vec<Vec<char>>,
    pub result_start: u64,
}

/// Mathematical model of an open poll.
pub struct PollModel {
    pub start: nat,
    pub question: Seq<char>,
    pub options: Seq<Seq<char>>,
    pub results: Seq<Seq<char>>,
    pub result_start: nat,
}

pub open spec fn views(v: Seq<Vec<char>>) -> Seq<Seq<char>> {
    v.map_values(|t: Vec<char>| t@)
}

impl Poll {
    pub open spec fn view(&self) -> PollModel {
        PollModel {
            start: self.start as nat,
            question: self.question@,
            options: views(self.options@),
            results: views(self.results@),
            result_start: self.result_start as nat,
        }
    }
}

/// Where the option cards go: their centres, in order, their size, and
/// whether the compact style for three options or fewer is used.
pub struct Layout {
    pub cells: Seq<(int, int)>,
    pub width: int,
    pub height: int,
    pub compact: bool,
}

/// Cells of a grid, row by row, at most `n` of them.
pub open spec fn grid(xs: Seq<int>, ys: Seq<int>, n: int) -> Seq<(int, int)> {
    let total = xs.len() * ys.len();
    let count = if n < total {
        n
    } else {
        total as int
    };
    Seq::new(count as nat, |k: int| (xs[k % (xs.len() as int)], ys[k / (xs.len() as int)]))
}

/// The layout of a poll with `n` options.
pub open spec fn layout(n: int) -> Layout {
    if n <= 1 {
        Layout { cells: seq![(640, 360)], width: 320, height: 240, compact: true }
    } else if n == 2 {
        Layout { cells: seq![(386, 360), (894, 360)], width: 320, height: 240, compact: true }
    } else if n == 3 {
        Layout {
            cells: seq![(280, 360), (640, 360), (1000, 360)],
            width: 320,
            height: 240,
            compact: true,
        }
    } else if n == 4 {
        Layout { cells: grid(seq![386, 894], seq![240, 480], n), width: 320, height: 180, compact: false }
    } else if n <= 6 {
        Layout {
            cells: grid(seq![344, 640, 936], seq![240, 480], n),
            width: 256,
            height: 180,
            compact: false,
        }
    } else if n == 8 {
        Layout {
            cells: grid(seq![160, 480, 800, 1120], seq![240, 480], n),
            width: 256,
            height: 180,
            compact: false,
        }
    } else {
        Layout {
            cells: grid(seq![344, 640, 936], seq![160, 380, 600], n),
            width: 256,
            height: 3240,
            compact: false,
        }
    }
}

/// Cells of a grid, row by row, at most `n` of them.
fn grid_cells(xs: &Vec<i64>, ys: &Vec<i64>, n: usize) -> (r: Vec<(i64, i64)>)
    requires
        0 < xs@.len() <= 4,
        ys@.len() <= 3,
    ensures
        r@.len() == grid(xs@.map_values(|x: i64| x as int), ys@.map_values(|y: i64| y as int), n as int).len(),
        forall|k: int| 0 <= k < r@.len() ==> ({
            let c = #[trigger] r@[k];
            (c.0 as int, c.1 as int) == grid(xs@.map_values(|x: i64| x as int), ys@.map_values(|y: i64| y as int), n as int)[k]
        }),
{
    let ghost xi = xs@.map_values(|x: i64| x as int);
    let ghost yi = ys@.map_values(|y: i64| y as int);
    let ghost g = grid(xi, yi, n as int);
    proof {
        assert(xs@.len() * ys@.len() <= 12) by (nonlinear_arith)
            requires 0 < xs@.len() <= 4, ys@.len() <= 3;
    }
    let total: usize = xs.len() * ys.len();
    let count: usize = if n < total {
        n
    } else {
        total
    };
    let mut r: Vec<(i64, i64)> = Vec::new();
    let mut k: usize = 0;
    while k < count
        invariant
            count == g.len(),
            count <= xs@.len() * ys@.len(),
            xs@.len() > 0,
            xi == xs@.map_values(|x: i64| x as int),
            yi == ys@.map_values(|y: i64| y as int),
            g == grid(xi, yi, n as int),
            k <= count,
            r@.len() == k,
            forall|j: int| 0 <= j < k ==> ({
                let c = #[trigger] r@[j];
                (c.0 as int, c.1 as int) == g[j]
            }),
        decreases count - k,
    {
        proof {
            assert((k as int) / (xs@.len() as int) < ys@.len()) by (nonlinear_arith)
                requires k < xs@.len() * ys@.len(), xs@.len() > 0;
        }
        r.push((xs[k % xs.len()], ys[k / xs.len()]));
        assert(g[k as int] == (xi[(k % xs.len()) as int], yi[(k / xs.len()) as int]));
        k = k + 1;
    }
    r
}

/// The layout of a poll with `n` options.
pub fn layout_of(n: usize) -> (r: (Vec<(i64, i64)>, i64, i64, bool))
    ensures
        r.0@.len() == layout(n as int).cells.len(),
        forall|k: int| 0 <= k < r.0@.len() ==> ({
            let c = #[trigger] r.0@[k];
            (c.0 as int, c.1 as int) == layout(n as int).cells[k]
        }),
        r.1 as int == layout(n as int).width,
        r.2 as int == layout(n as int).height,
        r.3 == layout(n as int).compact,
{
    if n <= 1 {
        (vec![(640, 360)], 320, 240, true)
    } else if n == 2 {
        (vec![(386, 360), (894, 360)], 320, 240, true)
    } else if n == 3 {
        (vec![(280, 360), (640, 360), (1000, 360)], 320, 240, true)
    } else if n == 4 {
        let xs: Vec<i64> = vec![386, 894];
        let ys: Vec<i64> = vec![240, 480];
        proof {
            assert(xs@.map_values(|x: i64| x as int) =~= seq![386int, 894]);
            assert(ys@.map_values(|y: i64| y as int) =~= seq![240int, 480]);
        }
        (grid_cells(&xs, &ys, n), 320, 180, false)
    } else if n <= 6 {
        let xs: Vec<i64> = vec![344, 640, 936];
        let ys: Vec<i64> = vec![240, 480];
        proof {
            assert(xs@.map_values(|x: i64| x as int) =~= seq![344int, 640, 936]);
            assert(ys@.map_values(|y: i64| y as int) =~= seq![240int, 480]);
        }
        (grid_cells(&xs, &ys, n), 256, 180, false)
    } else if n == 8 {
        let xs: Vec<i64> = vec![160, 480, 800, 1120];
        let ys: Vec<i64> = vec![240, 480];
        proof {
            assert(xs@.map_values(|x: i64| x as int) =~= seq![160int, 480, 800, 1120]);
            assert(ys@.map_values(|y: i64| y as int) =~= seq![240int, 480]);
        }
        (grid_cells(&xs, &ys, n), 256, 180, false)
    } else {
        let xs: Vec<i64> = vec![344, 640, 936];
        let ys: Vec<i64> = vec![160, 380, 600];
        proof {
            assert(xs@.map_values(|x: i64| x as int) =~= seq![344int, 640, 936]);
            assert(ys@.map_values(|y: i64| y as int) =~= seq![160int, 380, 600]);
        }
        (grid_cells(&xs, &ys, n), 256, 3240, false)
    }
}

/// An option's text cut into lines of seven characters, at most three
/// lines, the last taking what is left; in the compact style every line
/// starts with a break, otherwise breaks stand between lines.
pub open spec fn wrapped(o: Seq<char>, compact: bool) -> Seq<char> {
    let brk = "\\N"@;
    let lead = if compact {
        brk
    } else {
        Seq::<char>::empty()
    };
    if o.len() <= 7 {
        lead + o
    } else if o.len() <= 14 {
        lead + o.subrange(0, 7) + brk + o.subrange(7, o.len() as int)
    } else {
        lead + o.subrange(0, 7) + brk + o.subrange(7, 14) + brk + o.subrange(14, o.len() as int)
    }
}

fn push_range(out: &mut String, o: &Vec<char>, a: usize, b: usize)
    requires
        a <= b <= o@.len(),
    ensures
        final(out)@ == old(out)@ + o@.subrange(a as int, b as int),
{
    let mut v: Vec<char> = Vec::new();
    let mut i: usize = a;
    while i < b
        invariant
            a <= i <= b <= o@.len(),
            v@ == o@.subrange(a as int, i as int),
        decreases b - i,
    {
        v.push(o[i]);
        i = i + 1;
        assert(v@ =~= o@.subrange(a as int, i as int));
    }
    push_chars(out, &v);
}

fn push_wrapped(out: &mut String, o: &Vec<char>, compact: bool)
    ensures
        final(out)@ == old(out)@ + wrapped(o@, compact),
{
    let ghost start = out@;
    if compact {
        out.append("\\N");
    } else {
        assert(out@ =~= out@ + Seq::<char>::empty());
    }
    let ghost lead = if compact {
        "\\N"@
    } else {
        Seq::<char>::empty()
    };
    assert(out@ =~= start + lead);
    let n: usize = o.len();
    if n <= 7 {
        push_chars(out, o);
        assert(out@ =~= start + wrapped(o@, compact));
    } else if n <= 14 {
        push_range(out, o, 0, 7);
        out.append("\\N");
        push_range(out, o, 7, n);
        assert(out@ =~= start + wrapped(o@, compact));
    } else {
        push_range(out, o, 0, 7);
        out.append("\\N");
        push_range(out, o, 7, 14);
        out.append("\\N");
        push_range(out, o, 14, n);
        assert(out@ =~= start + wrapped(o@, compact));
    }
}

/// Position tag text `x,y`.
pub open spec fn at(x: int, y: int) -> Seq<char> {
    sdec(x) + ","@ + sdec(y)
}

fn push_at(out: &mut String, x: i64, y: i64)
    requires
        x > i64::MIN,
        y > i64::MIN,
    ensures
        final(out)@ == old(out)@ + at(x as int, y as int),
{
    let ghost start = out@;
    push_int(out, x);
    out.append(",");
    push_int(out, y);
    assert(out@ =~= start + at(x as int, y as int));
}

/// The numbered badge box of an option.
pub open spec fn badge_box(start: nat, end: nat, lay: Layout, x: int, y: int) -> Seq<char> {
    let s: nat = if lay.compact {
        96
    } else {
        60
    };
    let off: int = if lay.compact {
        40
    } else {
        30
    };
    dialogue("5"@, start, end, "Anketo"@) + "{\\an5\\p1\\bord0\\1c&HFFFFC8&\\pos("@ + at(
        x - lay.width / 2 + off,
        y - lay.height / 2 + off,
    ) + ")}m 0 0 l "@ + dec(s) + " 0 l "@ + dec(s) + " 0 l 0 "@ + dec(s)
}

/// The number on an option's badge.
pub open spec fn badge_number(start: nat, end: nat, lay: Layout, x: int, y: int, label: nat) -> Seq<char> {
    let off: int = if lay.compact {
        32
    } else {
        16
    };
    let tags = if lay.compact {
        "{\\an5\\bord0\\1c&HD5A07B&\\pos("@
    } else {
        "{\\fs48\\an5\\bord0\\1c&HD5A07B&\\pos("@
    };
    dialogue("5"@, start, end, "Anketo"@) + tags + at(
        x - lay.width / 2 + off,
        y - lay.height / 2 + off,
    ) + ")}"@ + dec(label)
}

/// The outlined card of an option.
pub open spec fn card(start: nat, end: nat, lay: Layout, x: int, y: int) -> Seq<char> {
    dialogue("5"@, start, end, "Anketo"@) + "{\\an5\\p1\\3c&HFFFFC8&\\bord6\\1c&HD5A07B&\\1a&H78&\\pos("@
        + at(x, y) + ")}m 0 0 l "@ + dec(lay.width as nat) + " 0 l "@ + dec(lay.width as nat)
        + " "@ + dec(lay.height as nat) + " l 0 "@ + dec(lay.height as nat)
}

/// The text of an option on its card.
pub open spec fn option_text(start: nat, end: nat, lay: Layout, x: int, y: int, o: Seq<char>) -> Seq<char> {
    let tags = if lay.compact {
        "{\\an5\\bord0\\1c&HFFFFFF\\pos("@
    } else {
        "{\\fs48\\an5\\bord0\\1c&HFFFFFF&\\pos("@
    };
    dialogue("5"@, start, end, "Anketo"@) + tags + at(x, y) + ")}"@ + wrapped(o, lay.compact)
}

/// The bar under an option's card that holds its result.
pub open spec fn result_bar(start: nat, end: nat, lay: Layout, x: int, y: int) -> Seq<char> {
    dialogue("5"@, start, end, "Anketo"@) + "{\\an5\\p1\\bord0\\1c&H3E2E2A&\\pos("@ + at(
        x,
        y + lay.height / 2,
    ) + ")}m 0 0 s 150 0 150 60 0 60 c"@
}

/// The percentage on a result bar: the result in tenths of a percent,
/// written with one decimal.
pub open spec fn result_text(start: nat, end: nat, lay: Layout, x: int, y: int, v: nat) -> Seq<char> {
    dialogue("5"@, start, end, "Anketo"@) + "{\\fs48\\an5\\bord0\\1c&H76FAF8&\\pos("@ + at(
        x,
        y + lay.height / 2,
    ) + ")}"@ + dec(v / 10) + "."@ + dec(v % 10) + "%"@
}

/// Where the first `.` of `r` at or after `i` stands, or the length when
/// there is none.
pub open spec fn point_from(r: Seq<char>, i: int) -> int
    decreases r.len() - i,
{
    if i < 0 || i >= r.len() {
        r.len() as int
    } else if r[i] == '.' {
        i
    } else {
        point_from(r, i + 1)
    }
}

/// The digits before the decimal point of a result.
pub open spec fn whole_part(r: Seq<char>) -> Seq<char> {
    r.subrange(0, point_from(r, 0))
}

/// A result is a decimal number: digits, optionally a point and more
/// digits, with at least one digit in all, whose whole part fits in 64 bits.
pub open spec fn result_ok(r: Seq<char>) -> bool {
    let k = point_from(r, 0);
    &&& all_digits(r.subrange(0, k))
    &&& (k < r.len() ==> all_digits(r.subrange(k + 1, r.len() as int)))
    &&& (if k < r.len() { r.len() - 1 } else { r.len() as int }) >= 1
    &&& digits_value(whole_part(r)) <= u64::MAX
}

/// The results line up with the options: one per option.
pub open spec fn aligned(p: PollModel) -> bool {
    p.results.len() == p.options.len()
}

/// The lines of option `k` of a poll closed at `end`: badge box and number,
/// card, text, and, when one result per option was shown, the result bar
/// and percentage. The percentage is the result's whole part in tenths of a
/// percent, shown to one decimal (any further decimals of the result are
/// dropped). `None` when that result is no number.
pub open spec fn option_lines(p: PollModel, lay: Layout, end: nat, k: int) -> Option<Seq<Seq<char>>> {
    let (x, y) = lay.cells[k];
    let base = seq![
        badge_box(p.start, end, lay, x, y),
        badge_number(p.start, end, lay, x, y, (k + 1) as nat),
        card(p.start, end, lay, x, y),
        option_text(p.start, end, lay, x, y, p.options[k]),
    ];
    if !aligned(p) {
        Some(base)
    } else if result_ok(p.results[k]) {
        Some(
            base + seq![
                result_bar(p.result_start, end, lay, x, y),
                result_text(p.result_start, end, lay, x, y, digits_value(whole_part(p.results[k]))),
            ],
        )
    } else {
        None
    }
}

/// The lines of the first `k` options.
pub open spec fn options_lines(p: PollModel, lay: Layout, end: nat, k: int) -> Option<Seq<Seq<char>>>
    decreases k,
{
    if k <= 0 {
        Some(Seq::<Seq<char>>::empty())
    } else {
        match (options_lines(p, lay, end, k - 1), option_lines(p, lay, end, k - 1)) {
            (Some(a), Some(b)) => Some(a + b),
            _ => None,
        }
    }
}

/// The question lines: band, question text, and the dimming mask.
pub open spec fn question_lines(p: PollModel, end: nat) -> Seq<Seq<char>> {
    seq![
        band_event(p.start, end),
        dialogue("5"@, p.start, end, "Office"@) + "{\\an5\\pos(640,36)\\1c&HFF8000&\\bord0\\fsp0"@
            + small_font(p.question.len() > 50) + "}Q.{\\1c&HFFFFFF&}"@ + replace_all(
            p.question,
            "<br>"@,
            "\\N"@,
        ),
        dialogue("3"@, p.start, end, "Office"@)
            + "{\\an5\\p1\\bord0\\1c&H000000&\\pos(640,360)\\1a&HC8&}m 0 0 l 1300 0 l 1300 740 l 0 740"@,
    ]
}

/// Every line of a poll closed at `end`, or `None` when a result is bad.
pub open spec fn poll_lines(p: PollModel, end: nat) -> Option<Seq<Seq<char>>> {
    let lay = layout(p.options.len() as int);
    match options_lines(p, lay, end, lay.cells.len() as int) {
        Some(o) => Some(question_lines(p, end) + o),
        None => None,
    }
}

fn question_text_line(p: &Poll, end: u64) -> (r: String)
    ensures
        r@ == question_lines(p.view(), end as nat)[1],
{
    let mut out = dialogue_head("5", p.start, end, "Office");
    out.append("{\\an5\\pos(640,36)\\1c&HFF8000&\\bord0\\fsp0");
    push_small_font(&mut out, p.question.len() > 50);
    out.append("}Q.{\\1c&HFFFFFF&}");
    let br = chars_of("<br>");
    proof {
        reveal_strlit("<br>");
    }
    let q = replace_seq(&p.question, &br, &chars_of("\\N"));
    push_chars(&mut out, &q);
    out
}

pub open spec fn cells_match(cells: Seq<(i64, i64)>, lay: Layout) -> bool {
    &&& cells.len() == lay.cells.len()
    &&& forall|k: int| 0 <= k < cells.len() ==> ({
        let c = #[trigger] cells[k];
        (c.0 as int, c.1 as int) == lay.cells[k]
    })
}

fn badge_box_line(start: u64, end: u64, lay: Ghost<Layout>, x: i64, y: i64, width: i64, height: i64, compact: bool) -> (r: String)
    requires
        lay@.width == width,
        lay@.height == height,
        lay@.compact == compact,
        0 <= x <= 2000,
        0 <= y <= 2000,
        0 <= width <= 4000,
        0 <= height <= 4000,
    ensures
        r@ == badge_box(start as nat, end as nat, lay@, x as int, y as int),
{
    let s: u64 = if compact {
        96
    } else {
        60
    };
    let off: i64 = if compact {
        40
    } else {
        30
    };
    let mut out = dialogue_head("5", start, end, "Anketo");
    out.append("{\\an5\\p1\\bord0\\1c&HFFFFC8&\\pos(");
    push_at(&mut out, x - width / 2 + off, y - height / 2 + off);
    out.append(")}m 0 0 l ");
    push_dec(&mut out, s);
    out.append(" 0 l ");
    push_dec(&mut out, s);
    out.append(" 0 l 0 ");
    push_dec(&mut out, s);
    out
}

fn badge_number_line(start: u64, end: u64, lay: Ghost<Layout>, x: i64, y: i64, width: i64, height: i64, compact: bool, label: u64) -> (r: String)
    requires
        lay@.width == width,
        lay@.height == height,
        lay@.compact == compact,
        0 <= x <= 2000,
        0 <= y <= 2000,
        0 <= width <= 4000,
        0 <= height <= 4000,
    ensures
        r@ == badge_number(start as nat, end as nat, lay@, x as int, y as int, label as nat),
{
    let off: i64 = if compact {
        32
    } else {
        16
    };
    let mut out = dialogue_head("5", start, end, "Anketo");
    if compact {
        out.append("{\\an5\\bord0\\1c&HD5A07B&\\pos(");
    } else {
        out.append("{\\fs48\\an5\\bord0\\1c&HD5A07B&\\pos(");
    }
    push_at(&mut out, x - width / 2 + off, y - height / 2 + off);
    out.append(")}");
    push_dec(&mut out, label);
    out
}

fn card_line(start: u64, end: u64, lay: Ghost<Layout>, x: i64, y: i64, width: i64, height: i64) -> (r: String)
    requires
        lay@.width == width,
        lay@.height == height,
        0 <= x <= 2000,
        0 <= y <= 2000,
        0 <= width <= 4000,
        0 <= height <= 4000,
    ensures
        r@ == card(start as nat, end as nat, lay@, x as int, y as int),
{
    let mut out = dialogue_head("5", start, end, "Anketo");
    out.append("{\\an5\\p1\\3c&HFFFFC8&\\bord6\\1c&HD5A07B&\\1a&H78&\\pos(");
    push_at(&mut out, x, y);
    out.append(")}m 0 0 l ");
    push_dec(&mut out, width as u64);
    out.append(" 0 l ");
    push_dec(&mut out, width as u64);
    out.append(" ");
    push_dec(&mut out, height as u64);
    out.append(" l 0 ");
    push_dec(&mut out, height as u64);
    out
}

fn option_text_line(start: u64, end: u64, lay: Ghost<Layout>, x: i64, y: i64, compact: bool, o: &Vec<char>) -> (r: String)
    requires
        lay@.compact == compact,
        0 <= x <= 2000,
        0 <= y <= 2000,
    ensures
        r@ == option_text(start as nat, end as nat, lay@, x as int, y as int, o@),
{
    let mut out = dialogue_head("5", start, end, "Anketo");
    if compact {
        out.append("{\\an5\\bord0\\1c&HFFFFFF\\pos(");
    } else {
        out.append("{\\fs48\\an5\\bord0\\1c&HFFFFFF&\\pos(");
    }
    push_at(&mut out, x, y);
    out.append(")}");
    push_wrapped(&mut out, o, compact);
    out
}

fn result_bar_line(start: u64, end: u64, lay: Ghost<Layout>, x: i64, y: i64, height: i64) -> (r: String)
    requires
        lay@.height == height,
        0 <= x <= 2000,
        0 <= y <= 2000,
        0 <= height <= 4000,
    ensures
        r@ == result_bar(start as nat, end as nat, lay@, x as int, y as int),
{
    let mut out = dialogue_head("5", start, end, "Anketo");
    out.append("{\\an5\\p1\\bord0\\1c&H3E2E2A&\\pos(");
    push_at(&mut out, x, y + height / 2);
    out.append(")}m 0 0 s 150 0 150 60 0 60 c");
    out
}

fn result_text_line(start: u64, end: u64, lay: Ghost<Layout>, x: i64, y: i64, height: i64, v: u64) -> (r: String)
    requires
        lay@.height == height,
        0 <= x <= 2000,
        0 <= y <= 2000,
        0 <= height <= 4000,
    ensures
        r@ == result_text(start as nat, end as nat, lay@, x as int, y as int, v as nat),
{
    let mut out = dialogue_head("5", start, end, "Anketo");
    out.append("{\\fs48\\an5\\bord0\\1c&H76FAF8&\\pos(");
    push_at(&mut out, x, y + height / 2);
    out.append(")}");
    push_dec(&mut out, v / 10);
    out.append(".");
    push_dec(&mut out, v % 10);
    out.append("%");
    out
}

proof fn lemma_layout_bounds(n: int)
    ensures
        forall|k: int| 0 <= k < layout(n).cells.len() ==> 0 <= (#[trigger] layout(n).cells[k]).0 <= 2000
            && 0 <= layout(n).cells[k].1 <= 2000,
        0 <= layout(n).width <= 4000,
        0 <= layout(n).height <= 4000,
        n >= 1 ==> layout(n).cells.len() <= n,
        layout(n).cells.len() <= 9,
{
    if n == 4 {
        assert(seq![386int, 894].len() * seq![240int, 480].len() == 4);
        assert forall|k: int| 0 <= k < layout(n).cells.len() implies 0 <= (#[trigger] layout(n).cells[k]).0 <= 2000
            && 0 <= layout(n).cells[k].1 <= 2000 by {
            assert(0 <= k % 2 < 2);
            assert(0 <= k / 2 < 2);
        }
    } else if 5 <= n <= 6 {
        assert(seq![344int, 640, 936].len() == 3);
        assert(seq![240int, 480].len() == 2);
        assert(3 * 2 == 6);
        assert(seq![344int, 640, 936].len() * seq![240int, 480].len() == 6);
        assert forall|k: int| 0 <= k < layout(n).cells.len() implies 0 <= (#[trigger] layout(n).cells[k]).0 <= 2000
            && 0 <= layout(n).cells[k].1 <= 2000 by {
            assert(0 <= k % 3 < 3);
            assert(0 <= k / 3 < 2);
        }
    } else if n == 8 {
        assert(seq![160int, 480, 800, 1120].len() * seq![240int, 480].len() == 8);
        assert forall|k: int| 0 <= k < layout(n).cells.len() implies 0 <= (#[trigger] layout(n).cells[k]).0 <= 2000
            && 0 <= layout(n).cells[k].1 <= 2000 by {
            assert(0 <= k % 4 < 4);
            assert(0 <= k / 4 < 2);
        }
    } else if n >= 7 {
        assert(seq![344int, 640, 936].len() * seq![160int, 380, 600].len() == 9);
        assert forall|k: int| 0 <= k < layout(n).cells.len() implies 0 <= (#[trigger] layout(n).cells[k]).0 <= 2000
            && 0 <= layout(n).cells[k].1 <= 2000 by {
            assert(0 <= k % 3 < 3);
            assert(0 <= k / 3 < 3);
        }
    }
}

/// The whole part of a result, when it is a decimal number.
pub fn parse_result(r: &Vec<char>) -> (v: Option<u64>)
    ensures
        v is Some <==> result_ok(r@),
        v is Some ==> v->0 == digits_value(whole_part(r@)),
{
    let n: usize = r.len();
    let mut k: usize = 0;
    while k < n && r[k] != '.'
        invariant
            n == r@.len(),
            k <= n,
            point_from(r@, 0) == point_from(r@, k as int),
        decreases n - k,
    {
        k = k + 1;
    }
    let mut whole: Vec<char> = Vec::new();
    let mut i: usize = 0;
    while i < k
        invariant
            k <= n == r@.len(),
            i <= k,
            whole@ == r@.subrange(0, i as int),
        decreases k - i,
    {
        whole.push(r[i]);
        i = i + 1;
        assert(whole@ =~= r@.subrange(0, i as int));
    }
    let mut frac: Vec<char> = Vec::new();
    if k < n {
        let mut j: usize = k + 1;
        while j < n
            invariant
                k < n == r@.len(),
                k + 1 <= j <= n,
                frac@ == r@.subrange(k + 1, j as int),
            decreases n - j,
        {
            frac.push(r[j]);
            j = j + 1;
            assert(frac@ =~= r@.subrange(k + 1, j as int));
        }
    }
    let digits_seen: bool = whole.len() + frac.len() >= 1;
    let frac_digits = all_digit_chars(&frac);
    if !frac_digits || !digits_seen {
        proof {
            if k < n {
                assert(frac@ =~= r@.subrange(k + 1, n as int));
            } else {
                assert(frac@.len() == 0);
            }
        }
        return None;
    }
    proof {
        if k < n {
            assert(frac@ =~= r@.subrange(k + 1, n as int));
        }
    }
    if whole.len() == 0 {
        assert(digits_value(whole@) == 0);
        assert(all_digits(whole@));
        return Some(0);
    }
    parse_digits(&whole)
}

/// Whether every character is a decimal digit.
fn all_digit_chars(v: &Vec<char>) -> (r: bool)
    ensures
        r == all_digits(v@),
{
    let mut i: usize = 0;
    while i < v.len()
        invariant
            i <= v@.len(),
            forall|j: int| 0 <= j < i ==> '0' <= #[trigger] v@[j] <= '9',
        decreases v@.len() - i,
    {
        if !('0' <= v[i] && v[i] <= '9') {
            return false;
        }
        i = i + 1;
    }
    true
}

/// Appends the lines of option `k`; `Err` when its result is needed and bad.
fn push_option(
    p: &Poll,
    end: u64,
    cells: &Vec<(i64, i64)>,
    width: i64,
    height: i64,
    compact: bool,
    k: usize,
    office: &mut Vec<String>,
) -> (r: Result<(), ConvertError>)
    requires
        p.options@.len() >= 1,
        cells_match(cells@, layout(p.options@.len() as int)),
        width == layout(p.options@.len() as int).width,
        height == layout(p.options@.len() as int).height,
        compact == layout(p.options@.len() as int).compact,
        k < cells@.len(),
    ensures
        match option_lines(p.view(), layout(p.options@.len() as int), end as nat, k as int) {
            Some(ls) => r is Ok && lines(final(office)@) == lines(old(office)@) + ls,
            None => r == Err::<(), ConvertError>(ConvertError::BadResult),
        },
{
    let ghost lay = layout(p.options@.len() as int);
    proof {
        lemma_layout_bounds(p.options@.len() as int);
        assert(0 <= lay.cells[k as int].0 <= 2000 && 0 <= lay.cells[k as int].1 <= 2000);
    }
    let (x, y) = cells[k];
    let ghost before = lines(office@);
    let l1 = badge_box_line(p.start, end, Ghost(lay), x, y, width, height, compact);
    let l2 = badge_number_line(p.start, end, Ghost(lay), x, y, width, height, compact, k as u64 + 1);
    let l3 = card_line(p.start, end, Ghost(lay), x, y, width, height);
    let l4 = option_text_line(p.start, end, Ghost(lay), x, y, compact, &p.options[k]);
    let ghost base = seq![l1@, l2@, l3@, l4@];
    if p.results.len() != p.options.len() {
        push_line(office, l1);
        push_line(office, l2);
        push_line(office, l3);
        push_line(office, l4);
        assert(lines(office@) =~= before + base);
        return Ok(());
    }
    match parse_result(&p.results[k]) {
        None => Err(ConvertError::BadResult),
        Some(v) => {
            let l5 = result_bar_line(p.result_start, end, Ghost(lay), x, y, height);
            let l6 = result_text_line(p.result_start, end, Ghost(lay), x, y, height, v);
            push_line(office, l1);
            push_line(office, l2);
            push_line(office, l3);
            push_line(office, l4);
            push_line(office, l5);
            push_line(office, l6);
            assert(lines(office@) =~= before + (base + seq![l5@, l6@]));
            Ok(())
        },
    }
}

/// Appends every line of the poll `p`, closed at `end`: the question, then
/// for each option its badge, card, text and, when results were shown, its
/// result. `Err` when a shown result is missing or is no number.
#[verifier::rlimit(50)]
pub fn render_poll(p: &Poll, end: u64, office: &mut Vec<String>) -> (r: Result<(), ConvertError>)
    requires
        p.options@.len() >= 1,
    ensures
        match poll_lines(p.view(), end as nat) {
            Some(ls) => r is Ok && lines(final(office)@) == lines(old(office)@) + ls,
            None => r == Err::<(), ConvertError>(ConvertError::BadResult),
        },
{
    let ghost before = lines(office@);
    let ghost q = question_lines(p.view(), end as nat);
    let ghost lay = layout(p.options@.len() as int);
    push_line(office, band_line(p.start, end));
    push_line(office, question_text_line(p, end));
    let mut mask = dialogue_head("3", p.start, end, "Office");
    mask.append("{\\an5\\p1\\bord0\\1c&H000000&\\pos(640,360)\\1a&HC8&}m 0 0 l 1300 0 l 1300 740 l 0 740");
    push_line(office, mask);
    assert(lines(office@) =~= before + q);
    let (cells, width, height, compact) = layout_of(p.options.len());
    let mut k: usize = 0;
    while k < cells.len()
        invariant
            p.options@.len() >= 1,
            lay == layout(p.options@.len() as int),
            cells_match(cells@, lay),
            width == lay.width,
            height == lay.height,
            compact == lay.compact,
            k <= cells@.len(),
            options_lines(p.view(), lay, end as nat, k as int) is Some,
            lines(office@) == before + q + options_lines(p.view(), lay, end as nat, k as int)->0,
        decreases cells@.len() - k,
    {
        let res = push_option(p, end, &cells, width, height, compact, k, office);
        if res.is_err() {
            assert(options_lines(p.view(), lay, end as nat, k + 1) is None);
            proof {
                lemma_none_stays(p.view(), lay, end as nat, k as int + 1, cells@.len() as int);
            }
            return Err(ConvertError::BadResult);
        }
        k = k + 1;
        assert(lines(office@) =~= before + q + options_lines(p.view(), lay, end as nat, k as int)->0);
    }
    Ok(())
}

proof fn lemma_none_stays(p: PollModel, lay: Layout, end: nat, k: int, m: int)
    requires
        options_lines(p, lay, end, k) is None,
        k <= m,
    ensures
        options_lines(p, lay, end, m) is None,
    decreases m - k,
{
    if k < m {
        lemma_none_stays(p, lay, end, k, m - 1);
    }
}

/// A poll with two options is drawn with the two-option preset: after the
/// three question lines come four lines for each option (badge box, badge
/// number, card, text) and no result bar unless there are exactly two
/// results; with a valid result for each of
/// the two options, each option also gets its result bar and percentage.
pub proof fn lemma_two_option_poll(p: PollModel, end: nat)
    requires
        p.options.len() == 2,
    ensures
        layout(2) == (Layout { cells: seq![(386int, 360int), (894int, 360int)], width: 320, height: 240, compact: true }),
        p.results.len() != 2 ==> (poll_lines(p, end) matches Some(ls) && ls.len() == 3 + 2 * 4),
        p.results.len() == 2 && result_ok(p.results[0]) && result_ok(p.results[1]) ==> (
        poll_lines(p, end) matches Some(ls) && ls.len() == 3 + 2 * 6),
{
    let lay = layout(2);
    assert(lay.cells.len() == 2);
    assert(options_lines(p, lay, end, 0) == Some(Seq::<Seq<char>>::empty()));
    if p.results.len() != 2 {
        assert(option_lines(p, lay, end, 0) matches Some(o) && o.len() == 4);
        assert(option_lines(p, lay, end, 1) matches Some(o) && o.len() == 4);
        assert(options_lines(p, lay, end, 1) matches Some(o) && o.len() == 4);
        assert(options_lines(p, lay, end, 2) matches Some(o) && o.len() == 8);
    }
    if p.results.len() == 2 && result_ok(p.results[0]) && result_ok(p.results[1]) {
        assert(option_lines(p, lay, end, 0) matches Some(o) && o.len() == 6);
        assert(option_lines(p, lay, end, 1) matches Some(o) && o.len() == 6);
        assert(options_lines(p, lay, end, 1) matches Some(o) && o.len() == 6);
        assert(options_lines(p, lay, end, 2) matches Some(o) && o.len() == 12);
    }
}

} // verus!
