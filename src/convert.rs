//! The conversion of a chat comment stream into a subtitle document: each
//! comment is classified, then drives the lane allocator, the operator band
//! and the poll overlay in turn; a second pass stacks the ASCII-art comments.
use vstd::prelude::*;
use vstd::string::*;
use crate::events::{dialogue, dialogue_head, lines, push_line};
use crate::lanes::{allot, LaneModel, Lanes, LANE_COUNT, MAX_VPOS, SCROLL_CS};
use crate::office::{office_lines, push_office};
use crate::poll::{poll_lines, render_poll, ConvertError, Poll, PollModel};
use crate::style::{color_of_tokens, color_tags, placement, placement_of, token_views, Placement};
use crate::text::{chars_of, contains, contains_seq, dec, push_chars, push_dec, push_dec_wide, push_int, replace_all, replace_seq, sdec, split_on, split_seq};
use crate::vote::{apply_vote, is_vote_directive, is_vote_stop, poll_view, shell_words, unescaped, vote_comment};

verus! {

/// Operator text waits this long for a comment that shows it, in hundredths
/// of a second.
pub const OPERATOR_GAP_CS: u64 = 1400;

/// Premium tier whose comments are not shown.
pub const SUPPRESSED_TIER: u64 = 2;

/// One chat comment.
pub struct Comment {
    pub content: String,
    pub user_id: String,
    /// Written by the broadcast's operator account.
    pub is_operator: bool,
    /// Space-separated style tokens.
    pub mail: Option<String>,
    /// Time since the program started, in hundredths of a second.
    pub vpos: u64,
    pub premium: Option<u64>,
}

pub open spec fn mail_of(c: Comment) -> Seq<char> {
    match c.mail {
        Some(m) => m@,
        None => Seq::<char>::empty(),
    }
}

/// The style tokens of a comment.
pub open spec fn tokens_of(c: Comment) -> Seq<Seq<char>> {
    split_on(mail_of(c), ' ')
}

/// Moderation notices and stream-control directives that are never shown.
pub open spec fn blocklist() -> Seq<Seq<char>> {
    seq![
        "※ NGコメント"@,
        "/clear"@,
        "/trialpanel"@,
        "/spi"@,
        "/disconnect"@,
        "/gift"@,
        "/commentlock"@,
        "/nicoad"@,
        "/info"@,
        "/jump"@,
        "/play"@,
        "/redirect"@,
        "ニコニ広告しました"@,
        "Display Forbidden"@,
        "Hidden Restricted"@,
        "30分延長しました"@,
        "Ended"@,
        "Display Restricted"@,
        "Hide Marquee"@,
        "【ギフト貢献"@,
        "/ichiba"@,
    ]
}

/// The text holds a blocked substring.
pub open spec fn blocked(s: Seq<char>) -> bool {
    exists|i: int| 0 <= i < blocklist().len() && contains(s, #[trigger] blocklist()[i])
}

/// A comment that leaves no trace: blocked text or the suppressed tier.
pub open spec fn dropped(c: Comment) -> bool {
    blocked(c.content@) || c.premium == Some(SUPPRESSED_TIER)
}

/// What a comment is.
#[derive(Clone, Copy, PartialEq, Eq, Structural, Debug)]
pub enum Class {
    Dropped,
    VoteControl,
    Operator,
    AsciiArt,
    Top,
    Bottom,
    Scroll,
}

pub open spec fn class_of(c: Comment) -> Class {
    if dropped(c) {
        Class::Dropped
    } else if c.is_operator {
        if is_vote_directive(c.content@) {
            Class::VoteControl
        } else {
            Class::Operator
        }
    } else {
        match placement(tokens_of(c)) {
            Placement::AsciiArt => Class::AsciiArt,
            Placement::Top => Class::Top,
            Placement::Bottom => Class::Bottom,
            Placement::Scroll => Class::Scroll,
        }
    }
}

/// The text of an audience comment as shown: line breaks as `\N`.
pub open spec fn shown_text(c: Comment) -> Seq<char> {
    replace_all(c.content@, seq!['\n'], "\\N"@)
}

/// The translucency tag of ordinary members' scrolling comments.
pub open spec fn alpha(premium: Option<u64>) -> Seq<char> {
    if premium == Some(0u64) || premium == Some(24u64) || premium == Some(25u64) {
        "\\alpha80"@
    } else {
        Seq::<char>::empty()
    }
}

/// The line of a comment fixed at the top (`8`) or bottom (`2`).
pub open spec fn fixed_line(c: Comment, pos: nat) -> Seq<char> {
    dialogue("2"@, c.vpos as nat, (c.vpos + SCROLL_CS) as nat, "Danmaku"@) + "{\\an"@ + dec(pos) + color_tags(
        tokens_of(c),
    ) + "}"@ + shown_text(c)
}

/// The line of a scrolling comment on `row`: it moves from the right edge
/// until its last character has left on the left.
pub open spec fn scroll_line(c: Comment, row: int) -> Seq<char> {
    dialogue("2"@, c.vpos as nat, (c.vpos + SCROLL_CS) as nat, "Danmaku"@) + "{\\an7"@ + alpha(c.premium)
        + "\\move(1280,"@ + sdec(64 * row) + ","@ + sdec(-(70 * shown_text(c).len())) + ","@ + sdec(
        64 * row,
    ) + ")"@ + color_tags(tokens_of(c)) + "}"@ + shown_text(c)
}

/// The state of a conversion.
pub struct Model {
    pub lanes: LaneModel,
    pub office: Seq<Seq<char>>,
    pub danmaku: Seq<Seq<char>>,
    /// Operator text waiting to be shown: its time and text.
    pub pending: Option<(nat, Seq<char>)>,
    pub poll: Option<PollModel>,
}

pub open spec fn office_head() -> Seq<char> {
    "Comment: 0,0:00:00.00,0:00:00.00,Office,,0,0,0,,运营弹幕"@
}

pub open spec fn danmaku_head() -> Seq<char> {
    "Comment: 0,0:00:00.00,0:00:00.00,Danmaku,,0,0,0,,普通弹幕"@
}

pub open spec fn aa_head() -> Seq<char> {
    "Comment: 0,0:00:00.00,0:00:00.00,AA,,0,0,0,,AA弹幕"@
}

pub open spec fn initial() -> Model {
    Model {
        lanes: LaneModel { until: Seq::new(LANE_COUNT as nat, |_j: int| 0), vpos_now: 0, count: 0 },
        office: seq![office_head()],
        danmaku: seq![danmaku_head()],
        pending: None,
        poll: None,
    }
}

/// The state once waiting operator text is shown, if `c` shows it: `c` is
/// an operator's, or comes more than the gap later. The text stays until
/// `c` when `c` is an operator's, else for the scroll time.
pub open spec fn flushed(m: Model, c: Comment) -> Model {
    match m.pending {
        Some((pv, raw)) => if c.vpos > pv + OPERATOR_GAP_CS || c.is_operator {
            let end = if c.is_operator {
                c.vpos as nat
            } else {
                (pv + SCROLL_CS) as nat
            };
            Model { office: m.office + office_lines(pv, end, raw), pending: None, ..m }
        } else {
            m
        },
        None => m,
    }
}

/// The state after one comment, or the error that ends the conversion.
#[verifier::opaque]
pub open spec fn step(m: Model, c: Comment) -> Result<Model, ConvertError> {
    if dropped(c) {
        Ok(m)
    } else {
        let m1 = flushed(m, c);
        if c.is_operator {
            if is_vote_directive(c.content@) && !is_vote_stop(c.content@) {
                match shell_words(c.content@) {
                    None => Err(ConvertError::VoteSyntax),
                    Some(ws) => match apply_vote(m1.poll, unescaped(ws), c.vpos as nat) {
                        Ok(p) => Ok(Model { poll: p, ..m1 }),
                        Err(e) => Err(e),
                    },
                }
            } else if m1.poll is Some {
                match poll_lines(m1.poll->0, c.vpos as nat) {
                    Some(ls) => Ok(Model { office: m1.office + ls, poll: None, ..m1 }),
                    None => Err(ConvertError::BadResult),
                }
            } else if is_vote_stop(c.content@) {
                Ok(m1)
            } else {
                Ok(Model { pending: Some((c.vpos as nat, c.content@)), ..m1 })
            }
        } else {
            match placement(tokens_of(c)) {
                Placement::AsciiArt => Ok(m1),
                Placement::Top => Ok(Model { danmaku: m1.danmaku.push(fixed_line(c, 8)), ..m1 }),
                Placement::Bottom => Ok(Model { danmaku: m1.danmaku.push(fixed_line(c, 2)), ..m1 }),
                Placement::Scroll => {
                    let (l2, row) = allot(m1.lanes, c.vpos as int, shown_text(c).len() as int);
                    Ok(Model { lanes: l2, danmaku: m1.danmaku.push(scroll_line(c, row)), ..m1 })
                },
            }
        }
    }
}

/// The state after all the comments, in order.
pub open spec fn run(cs: Seq<Comment>) -> Result<Model, ConvertError>
    decreases cs.len(),
{
    if cs.len() == 0 {
        Ok(initial())
    } else {
        match run(cs.drop_last()) {
            Ok(m) => step(m, cs.last()),
            Err(e) => Err(e),
        }
    }
}

/// One line of an ASCII-art comment: line `a` of the block, `piece`.
pub open spec fn aa_line(c: Comment, a: int, piece: Seq<char>) -> Seq<char> {
    dialogue("1"@, c.vpos as nat, (c.vpos + SCROLL_CS) as nat, "AA"@) + "{\\an4\\fsp-1\\move(1280,"@ + dec(
        (17 * a) as nat,
    ) + ",-640,"@ + dec((17 * a) as nat) + ")"@ + color_tags(tokens_of(c)) + "}"@ + piece
}

/// The lines of a comment in the ASCII-art pass.
pub open spec fn aa_lines(c: Comment) -> Seq<Seq<char>> {
    if class_of(c) == Class::AsciiArt {
        let ps = split_on(c.content@, '\n');
        Seq::new(ps.len(), |a: int| aa_line(c, a, ps[a]))
    } else {
        Seq::<Seq<char>>::empty()
    }
}

pub open spec fn aa_all(cs: Seq<Comment>) -> Seq<Seq<char>>
    decreases cs.len(),
{
    if cs.len() == 0 {
        Seq::<Seq<char>>::empty()
    } else {
        aa_all(cs.drop_last()) + aa_lines(cs.last())
    }
}

/// Lines, each ended by a line break.
pub open spec fn joined(ls: Seq<Seq<char>>) -> Seq<char>
    decreases ls.len(),
{
    if ls.len() == 0 {
        Seq::<char>::empty()
    } else {
        joined(ls.drop_last()) + ls.last() + "\n"@
    }
}

/// The script info and style sections.
pub open spec fn header() -> Seq<char> {
    "[Script Info]\n; Script generated by Aegisub 3.2.2\n; http://www.aegisub.org/\nScriptType: v4.00+\nPlayResX: 1280\nPlayResY: 720\n\n[V4+ Styles]\nFormat: Name, Fontname, Fontsize, PrimaryColour, SecondaryColour, OutlineColour, BackColour, Bold, Italic, Underline, StrikeOut, ScaleX, ScaleY, Spacing, Angle, BorderStyle, Outline, Shadow, Alignment, MarginL, MarginR, MarginV, Encoding\nStyle: Default,微软雅黑,54,&H00FFFFFF,&H00FFFFFF,&H00000000,&H00000000,0,0,0,0,100,100,0,0,1,2,0,2,0,0,0,0\nStyle: AA,黑体,18,&H00FFFFFF,&H00FFFFFF,&H00000000,&H00000000,-1,0,0,0,100,100,0,0,1,0,0,2,0,0,0,0\nStyle: Office,Source Han Sans JP,40,&H00FFFFFF,&H00FFFFFF,&H00000000,&H00000000,-1,0,0,0,100,100,2,0,1,1.5,0,2,0,0,10,0\nStyle: Anketo,Source Han Sans JP,64,&H00FFFFFF,&H00FFFFFF,&H00000000,&H00000000,-1,0,0,0,100,100,2,0,1,1.5,0,2,0,0,10,0\nStyle: Danmaku,Source Han Sans JP,64,&H00FFFFFF,&H00FFFFFF,&H00000000,&H00000000,-1,0,0,0,100,100,2,0,1,1.5,0,2,0,0,10,0\n\n[Events]\nFormat: Layer, Start, End, Style, Name, MarginL, MarginR, MarginV, Effect, Text\n"@
}

/// The whole document: header, then the operator, audience and ASCII-art
/// lines.
pub open spec fn document(m: Model, aa: Seq<Seq<char>>) -> Seq<char> {
    header() + joined(m.office) + joined(m.danmaku) + joined(seq![aa_head()] + aa)
}

/// The document for a comment stream, or the error that stops it.
pub open spec fn converted(cs: Seq<Comment>) -> Result<Seq<char>, ConvertError> {
    match run(cs) {
        Ok(m) => Ok(document(m, aa_all(cs))),
        Err(e) => Err(e),
    }
}

fn blocklist_chars() -> (r: Vec<Vec<char>>)
    ensures
        r@.len() == blocklist().len(),
        forall|i: int| 0 <= i < r@.len() ==> (#[trigger] r@[i])@ == blocklist()[i],
{
    let r: Vec<Vec<char>> = vec![
        chars_of("※ NGコメント"),
        chars_of("/clear"),
        chars_of("/trialpanel"),
        chars_of("/spi"),
        chars_of("/disconnect"),
        chars_of("/gift"),
        chars_of("/commentlock"),
        chars_of("/nicoad"),
        chars_of("/info"),
        chars_of("/jump"),
        chars_of("/play"),
        chars_of("/redirect"),
        chars_of("ニコニ広告しました"),
        chars_of("Display Forbidden"),
        chars_of("Hidden Restricted"),
        chars_of("30分延長しました"),
        chars_of("Ended"),
        chars_of("Display Restricted"),
        chars_of("Hide Marquee"),
        chars_of("【ギフト貢献"),
        chars_of("/ichiba"),
    ];
    r
}

/// Whether the text holds a blocked substring.
pub fn is_blocked(s: &Vec<char>) -> (r: bool)
    ensures
        r == blocked(s@),
{
    let list = blocklist_chars();
    let mut i: usize = 0;
    while i < list.len()
        invariant
            list@.len() == blocklist().len(),
            forall|j: int| 0 <= j < list@.len() ==> (#[trigger] list@[j])@ == blocklist()[j],
            i <= list@.len(),
            forall|j: int| 0 <= j < i ==> !contains(s@, #[trigger] blocklist()[j]),
        decreases list@.len() - i,
    {
        if contains_seq(s, &list[i]) {
            return true;
        }
        i = i + 1;
    }
    false
}

/// The style tokens of a comment.
fn comment_tokens(c: &Comment) -> (r: Vec<Vec<char>>)
    ensures
        token_views(r@) == tokens_of(*c),
{
    let mail = match &c.mail {
        Some(m) => chars_of(m.as_str()),
        None => Vec::new(),
    };
    let r = split_seq(&mail, ' ');
    assert(token_views(r@) =~= tokens_of(*c));
    r
}

/// What a comment is: dropped when it holds blocked text or has the
/// suppressed tier; else an operator's vote directive or other text; else
/// by its style tokens ASCII art, fixed at the top or bottom, or scrolling.
pub fn classify(c: &Comment) -> (r: Class)
    ensures
        r == class_of(*c),
{
    let text = chars_of(c.content.as_str());
    if is_blocked(&text) || c.premium == Some(SUPPRESSED_TIER) {
        return Class::Dropped;
    }
    if c.is_operator {
        if is_vote_text(&text) {
            Class::VoteControl
        } else {
            Class::Operator
        }
    } else {
        let toks = comment_tokens(c);
        match placement_of(&toks) {
            Placement::AsciiArt => Class::AsciiArt,
            Placement::Top => Class::Top,
            Placement::Bottom => Class::Bottom,
            Placement::Scroll => Class::Scroll,
        }
    }
}

fn is_vote_text(text: &Vec<char>) -> (r: bool)
    ensures
        r == is_vote_directive(text@),
{
    let v = chars_of("/vote");
    proof {
        reveal_strlit("/vote");
    }
    crate::text::matches_at(text, 0, &v)
}

fn is_stop_text(text: &Vec<char>) -> (r: bool)
    ensures
        r == is_vote_stop(text@),
{
    let stop = chars_of("/vote stop");
    proof {
        reveal_strlit("/vote stop");
    }
    crate::text::matches_at(text, 0, &stop)
}

/// The text of an audience comment as shown.
fn shown_chars(c: &Comment) -> (r: Vec<char>)
    ensures
        r@ == shown_text(*c),
{
    let mut nl: Vec<char> = Vec::new();
    nl.push('\n');
    assert(nl@ =~= seq!['\n']);
    replace_seq(&chars_of(c.content.as_str()), &nl, &chars_of("\\N"))
}

/// The line of a comment fixed at `pos`.
fn fixed_danmaku(c: &Comment, pos: u64) -> (r: String)
    requires
        c.vpos <= MAX_VPOS,
    ensures
        r@ == fixed_line(*c, pos as nat),
{
    let mut out = dialogue_head("2", c.vpos, c.vpos + SCROLL_CS, "Danmaku");
    out.append("{\\an");
    push_dec(&mut out, pos);
    let color = color_of_tokens(&comment_tokens(c));
    out.append(color.as_str());
    out.append("}");
    push_chars(&mut out, &shown_chars(c));
    out
}

/// The line of a scrolling comment drawn on `row`.
fn scroll_danmaku(c: &Comment, row: usize, text: &Vec<char>) -> (r: String)
    requires
        c.vpos <= MAX_VPOS,
        row < LANE_COUNT,
        text@ == shown_text(*c),
    ensures
        r@ == scroll_line(*c, row as int),
{
    let mut out = dialogue_head("2", c.vpos, c.vpos + SCROLL_CS, "Danmaku");
    out.append("{\\an7");
    if c.premium == Some(0u64) || c.premium == Some(24u64) || c.premium == Some(25u64) {
        out.append("\\alpha80");
    } else {
        assert(out@ =~= out@ + Seq::<char>::empty());
    }
    out.append("\\move(1280,");
    let y = (row as i64) * 64;
    push_int(&mut out, y);
    out.append(",");
    let ghost before = out@;
    let n: u128 = text.len() as u128;
    if n == 0 {
        push_dec_wide(&mut out, 0);
    } else {
        out.append("-");
        proof {
            reveal_strlit("-");
        }
        push_dec_wide(&mut out, n * 70);
    }
    assert(out@ =~= before + sdec(-(70 * shown_text(*c).len())));
    out.append(",");
    push_int(&mut out, y);
    out.append(")");
    let color = color_of_tokens(&comment_tokens(c));
    out.append(color.as_str());
    out.append("}");
    push_chars(&mut out, text);
    out
}

/// The state of one conversion.
pub struct Converter {
    lanes: Lanes,
    office: Vec<String>,
    danmaku: Vec<String>,
    pending: Option<(u64, Vec<char>)>,
    poll: Option<Poll>,
}

impl Converter {
    pub closed spec fn view(&self) -> Model {
        Model {
            lanes: self.lanes.view(),
            office: lines(self.office@),
            danmaku: lines(self.danmaku@),
            pending: match self.pending {
                Some((v, t)) => Some((v as nat, t@)),
                None => None,
            },
            poll: poll_view(self.poll),
        }
    }

    pub closed spec fn wf(&self) -> bool {
        &&& self.lanes.wf()
        &&& (self.poll matches Some(p) ==> p.options@.len() >= 1)
        &&& (self.pending matches Some((v, _t)) ==> v <= MAX_VPOS)
    }

    /// How many comments the lane allocator has counted.
    pub closed spec fn seen(&self) -> int {
        self.lanes.count()
    }

    /// A conversion that has seen no comment.
    pub fn new() -> (r: Self)
        ensures
            r.wf(),
            r.view() == initial(),
            r.seen() == 0,
    {
        let mut office: Vec<String> = Vec::new();
        let mut s = String::new();
        s.append("Comment: 0,0:00:00.00,0:00:00.00,Office,,0,0,0,,运营弹幕");
        assert(s@ =~= office_head());
        push_line(&mut office, s);
        let mut danmaku: Vec<String> = Vec::new();
        let mut d = String::new();
        d.append("Comment: 0,0:00:00.00,0:00:00.00,Danmaku,,0,0,0,,普通弹幕");
        assert(d@ =~= danmaku_head());
        push_line(&mut danmaku, d);
        let r = Converter { lanes: Lanes::new(), office, danmaku, pending: None, poll: None };
        assert(lines(r.office@) =~= seq![office_head()]);
        assert(lines(r.danmaku@) =~= seq![danmaku_head()]);
        r
    }

    /// Shows waiting operator text if `c` shows it.
    fn flush(&mut self, c: &Comment)
        requires
            old(self).wf(),
        ensures
            final(self).wf(),
            final(self).view() == flushed(old(self).view(), *c),
            final(self).seen() == old(self).seen(),
    {
        let pending = self.pending.take();
        match pending {
            Some((pv, raw)) => {
                if c.vpos > pv + OPERATOR_GAP_CS || c.is_operator {
                    let end: u64 = if c.is_operator {
                        c.vpos
                    } else {
                        pv + SCROLL_CS
                    };
                    push_office(&mut self.office, pv, end, &raw);
                } else {
                    self.pending = Some((pv, raw));
                }
            },
            None => {},
        }
    }

    /// Takes in one comment.
    pub fn step(&mut self, c: &Comment) -> (r: Result<(), ConvertError>)
        requires
            old(self).wf(),
            c.vpos <= MAX_VPOS,
            old(self).seen() < u64::MAX,
        ensures
            final(self).wf(),
            final(self).seen() <= old(self).seen() + 1,
            match step(old(self).view(), *c) {
                Ok(m) => r is Ok && final(self).view() == m,
                Err(e) => r == Err::<(), ConvertError>(e),
            },
    {
        reveal(step);
        let class = classify(c);
        if class == Class::Dropped {
            return Ok(());
        }
        self.flush(c);
        if c.is_operator {
            let stop = is_stop_text(&chars_of(c.content.as_str()));
            if class == Class::VoteControl && !stop {
                return vote_comment(&mut self.poll, &c.content, c.vpos);
            }
            let poll = self.poll.take();
            match poll {
                Some(p) => {
                    let res = render_poll(&p, c.vpos, &mut self.office);
                    match res {
                        Ok(()) => Ok(()),
                        Err(e) => Err(e),
                    }
                },
                None => {
                    if !stop {
                        self.pending = Some((c.vpos, chars_of(c.content.as_str())));
                    }
                    Ok(())
                },
            }
        } else {
            if class == Class::AsciiArt {
                Ok(())
            } else if class == Class::Top {
                push_line(&mut self.danmaku, fixed_danmaku(c, 8));
                Ok(())
            } else if class == Class::Bottom {
                push_line(&mut self.danmaku, fixed_danmaku(c, 2));
                Ok(())
            } else {
                let text = shown_chars(c);
                let row = self.lanes.allot(c.vpos, text.len());
                push_line(&mut self.danmaku, scroll_danmaku(c, row, &text));
                Ok(())
            }
        }
    }
}

/// Appends the lines of `v`, each ended by a line break.
fn push_joined(out: &mut String, v: &Vec<String>)
    ensures
        final(out)@ == old(out)@ + joined(lines(v@)),
{
    let ghost start = out@;
    let mut i: usize = 0;
    while i < v.len()
        invariant
            i <= v@.len(),
            out@ == start + joined(lines(v@).subrange(0, i as int)),
        decreases v@.len() - i,
    {
        let ghost pre = lines(v@).subrange(0, i as int);
        let ghost nxt = lines(v@).subrange(0, i + 1);
        assert(nxt.drop_last() =~= pre);
        out.append(v[i].as_str());
        out.append("\n");
        i = i + 1;
        assert(out@ =~= start + joined(nxt));
    }
    assert(lines(v@).subrange(0, i as int) =~= lines(v@));
}

/// Appends the lines of an ASCII-art comment.
fn push_aa(aa: &mut Vec<String>, c: &Comment)
    requires
        c.vpos <= MAX_VPOS,
    ensures
        lines(final(aa)@) == lines(old(aa)@) + aa_lines(*c),
{
    let ghost before = lines(aa@);
    if classify(c) != Class::AsciiArt {
        assert(lines(aa@) =~= before + aa_lines(*c));
        return;
    }
    let pieces = split_seq(&chars_of(c.content.as_str()), '\n');
    let color = color_of_tokens(&comment_tokens(c));
    let ghost ps = split_on(c.content@, '\n');
    assert(aa_lines(*c) == Seq::new(ps.len(), |a: int| aa_line(*c, a, ps[a])));
    let mut a: usize = 0;
    while a < pieces.len()
        invariant
            c.vpos <= MAX_VPOS,
            class_of(*c) == Class::AsciiArt,
            pieces@.len() == ps.len(),
            forall|k: int| 0 <= k < pieces@.len() ==> (#[trigger] pieces@[k])@ == ps[k],
            color@ == color_tags(tokens_of(*c)),
            a <= pieces@.len(),
            aa_lines(*c) == Seq::new(ps.len(), |a: int| aa_line(*c, a, ps[a])),
            lines(aa@) == before + aa_lines(*c).subrange(0, a as int),
        decreases pieces@.len() - a,
    {
        let mut out = dialogue_head("1", c.vpos, c.vpos + SCROLL_CS, "AA");
        out.append("{\\an4\\fsp-1\\move(1280,");
        let y: u128 = 17 * (a as u128);
        push_dec_wide(&mut out, y);
        out.append(",-640,");
        push_dec_wide(&mut out, y);
        out.append(")");
        out.append(color.as_str());
        out.append("}");
        push_chars(&mut out, &pieces[a]);
        assert(out@ == aa_line(*c, a as int, ps[a as int]));
        push_line(aa, out);
        a = a + 1;
        assert(lines(aa@) =~= before + aa_lines(*c).subrange(0, a as int));
    }
    assert(aa_lines(*c).subrange(0, a as int) =~= aa_lines(*c));
}

proof fn lemma_err_stays(cs: Seq<Comment>, k: int, e: ConvertError)
    requires
        0 <= k <= cs.len(),
        run(cs.subrange(0, k)) == Err::<Model, ConvertError>(e),
    ensures
        run(cs) == Err::<Model, ConvertError>(e),
    decreases cs.len() - k,
{
    if k < cs.len() {
        assert(cs.subrange(0, k + 1).drop_last() =~= cs.subrange(0, k));
        lemma_err_stays(cs, k + 1, e);
    } else {
        assert(cs.subrange(0, k) =~= cs);
    }
}

/// The subtitle document for a comment stream: a fixed header, then the
/// operator and poll lines, the lines of audience comments, and the
/// ASCII-art blocks. `Err` when a `/vote` directive lacks words or cannot be
/// split, or a shown poll result is missing or is no number.
pub fn xml2ass(chats: &Vec<Comment>) -> (r: Result<String, ConvertError>)
    requires
        forall|i: int| 0 <= i < chats@.len() ==> (#[trigger] chats@[i]).vpos <= MAX_VPOS,
    ensures
        match converted(chats@) {
            Ok(d) => r matches Ok(s) && s@ == d,
            Err(e) => r == Err::<String, ConvertError>(e),
        },
{
    let mut conv = Converter::new();
    let mut aa: Vec<String> = Vec::new();
    let mut h = String::new();
    h.append("Comment: 0,0:00:00.00,0:00:00.00,AA,,0,0,0,,AA弹幕");
    assert(h@ =~= aa_head());
    push_line(&mut aa, h);
    assert(lines(aa@) =~= seq![aa_head()]);
    let mut i: usize = 0;
    assert(chats@.subrange(0, 0) =~= Seq::<Comment>::empty());
    while i < chats.len()
        invariant
            forall|k: int| 0 <= k < chats@.len() ==> (#[trigger] chats@[k]).vpos <= MAX_VPOS,
            i <= chats@.len(),
            conv.wf(),
            conv.seen() <= i,
            run(chats@.subrange(0, i as int)) == Ok::<Model, ConvertError>(conv.view()),
            lines(aa@) == seq![aa_head()] + aa_all(chats@.subrange(0, i as int)),
        decreases chats@.len() - i,
    {
        let ghost nxt = chats@.subrange(0, i + 1);
        assert(nxt.drop_last() =~= chats@.subrange(0, i as int));
        assert(nxt.last() == chats@[i as int]);
        let c = &chats[i];
        match conv.step(c) {
            Err(e) => {
                proof {
                    lemma_err_stays(chats@, i + 1, e);
                }
                return Err(e);
            },
            Ok(()) => {},
        }
        push_aa(&mut aa, c);
        i = i + 1;
        assert(lines(aa@) =~= seq![aa_head()] + aa_all(chats@.subrange(0, i as int)));
    }
    assert(chats@.subrange(0, i as int) =~= chats@);
    let mut out = String::new();
    out.append(
        "[Script Info]\n; Script generated by Aegisub 3.2.2\n; http://www.aegisub.org/\nScriptType: v4.00+\nPlayResX: 1280\nPlayResY: 720\n\n[V4+ Styles]\nFormat: Name, Fontname, Fontsize, PrimaryColour, SecondaryColour, OutlineColour, BackColour, Bold, Italic, Underline, StrikeOut, ScaleX, ScaleY, Spacing, Angle, BorderStyle, Outline, Shadow, Alignment, MarginL, MarginR, MarginV, Encoding\nStyle: Default,微软雅黑,54,&H00FFFFFF,&H00FFFFFF,&H00000000,&H00000000,0,0,0,0,100,100,0,0,1,2,0,2,0,0,0,0\nStyle: AA,黑体,18,&H00FFFFFF,&H00FFFFFF,&H00000000,&H00000000,-1,0,0,0,100,100,0,0,1,0,0,2,0,0,0,0\nStyle: Office,Source Han Sans JP,40,&H00FFFFFF,&H00FFFFFF,&H00000000,&H00000000,-1,0,0,0,100,100,2,0,1,1.5,0,2,0,0,10,0\nStyle: Anketo,Source Han Sans JP,64,&H00FFFFFF,&H00FFFFFF,&H00000000,&H00000000,-1,0,0,0,100,100,2,0,1,1.5,0,2,0,0,10,0\nStyle: Danmaku,Source Han Sans JP,64,&H00FFFFFF,&H00FFFFFF,&H00000000,&H00000000,-1,0,0,0,100,100,2,0,1,1.5,0,2,0,0,10,0\n\n[Events]\nFormat: Layer, Start, End, Style, Name, MarginL, MarginR, MarginV, Effect, Text\n",
    );
    assert(out@ =~= header());
    push_joined(&mut out, &conv.office);
    push_joined(&mut out, &conv.danmaku);
    push_joined(&mut out, &aa);
    Ok(out)
}

/// A comment with blocked text or of the suppressed tier leaves no trace:
/// the conversion state is the same after it, and the ASCII-art pass gives
/// it no line.
pub proof fn lemma_dropped_comment_is_silent(m: Model, c: Comment)
    requires
        dropped(c),
    ensures
        step(m, c) == Ok::<Model, ConvertError>(m),
        aa_lines(c) == Seq::<Seq<char>>::empty(),
{
    reveal(step);
}

/// Operator text waits for a trigger: an audience comment no later than
/// the gap after it leaves it waiting and the operator lines unchanged; one
/// that comes later shows it, for the scroll time, as exactly its band and
/// text lines.
pub proof fn lemma_pending_waits_for_trigger(m: Model, c: Comment)
    requires
        m.pending is Some,
        !c.is_operator,
        !dropped(c),
    ensures
        ({
            let (pv, raw) = m.pending->0;
            step(m, c) matches Ok(m2) && if c.vpos <= pv + OPERATOR_GAP_CS {
                m2.pending == m.pending && m2.office == m.office
            } else {
                m2.pending is None && m2.office == m.office + office_lines(
                    pv,
                    (pv + SCROLL_CS) as nat,
                    raw,
                )
            }
        }),
{
    reveal(step);
}

proof fn lemma_without_dropped_prefix(cs: Seq<Comment>, j: int, k: int)
    requires
        0 <= j < cs.len(),
        dropped(cs[j]),
        j < k <= cs.len(),
    ensures
        ({
            let rest = cs.subrange(0, j) + cs.subrange(j + 1, cs.len() as int);
            &&& run(cs.subrange(0, k)) == run(rest.subrange(0, k - 1))
            &&& aa_all(cs.subrange(0, k)) == aa_all(rest.subrange(0, k - 1))
        }),
    decreases k,
{
    let rest = cs.subrange(0, j) + cs.subrange(j + 1, cs.len() as int);
    let a = cs.subrange(0, k);
    let b = rest.subrange(0, k - 1);
    if k == j + 1 {
        assert(a.drop_last() =~= cs.subrange(0, j));
        assert(b =~= cs.subrange(0, j));
        assert(a.last() == cs[j]);
        match run(cs.subrange(0, j)) {
            Ok(m) => {
                lemma_dropped_comment_is_silent(m, cs[j]);
            },
            Err(_e) => {},
        }
        lemma_dropped_comment_is_silent(initial(), cs[j]);
    } else {
        lemma_without_dropped_prefix(cs, j, k - 1);
        assert(a.drop_last() =~= cs.subrange(0, k - 1));
        assert(b.drop_last() =~= rest.subrange(0, k - 2));
        assert(a.last() == cs[k - 1]);
        assert(b.last() == rest[k - 2]);
        assert(rest[k - 2] == cs[k - 1]);
    }
}

/// A comment with blocked text or of the suppressed tier can be left out of
/// the stream: the conversion gives the same document, or the same error,
/// without it.
pub proof fn lemma_dropped_comment_changes_nothing(cs: Seq<Comment>, j: int)
    requires
        0 <= j < cs.len(),
        dropped(cs[j]),
    ensures
        converted(cs) == converted(cs.subrange(0, j) + cs.subrange(j + 1, cs.len() as int)),
{
    let rest = cs.subrange(0, j) + cs.subrange(j + 1, cs.len() as int);
    lemma_without_dropped_prefix(cs, j, cs.len() as int);
    assert(cs.subrange(0, cs.len() as int) =~= cs);
    assert(rest.subrange(0, cs.len() - 1) =~= rest);
}

} // verus!
