//! Operator comments: the text shown in the band at the top of the screen,
//! with link markup taken out.
use vstd::prelude::*;
use vstd::string::*;
use crate::events::{band_event, band_line, dialogue, dialogue_head, lines, push_line, push_small_font, small_font};
use crate::text::{chars_of, contains, contains_seq, matches_at, push_chars, replace_all, replace_seq, starts_at};

verus! {

/// Where the `><u>` that closes an anchor opened before `k` stands: the first
/// one at or after `k` with no line break before it.
pub open spec fn anchor_close(s: Seq<char>, k: int) -> Option<int>
    decreases s.len() - k,
{
    if k < 0 || k >= s.len() {
        None
    } else if starts_at(s, k, "><u>"@) {
        Some(k)
    } else if s[k] == '\n' {
        None
    } else {
        anchor_close(s, k + 1)
    }
}

/// `s` from `i` on with every `<a href=...><u>` opening taken out, leftmost
/// first, the link target being the shortest run on one line.
pub open spec fn strip_from(s: Seq<char>, i: int) -> Seq<char>
    decreases s.len() - i,
{
    if i < 0 || i >= s.len() {
        Seq::<char>::empty()
    } else if starts_at(s, i, "<a href="@) && anchor_close(s, i + 8) is Some {
        let k = anchor_close(s, i + 8)->0;
        if i < k + 4 <= s.len() {
            strip_from(s, k + 4)
        } else {
            Seq::<char>::empty()
        }
    } else {
        seq![s[i]] + strip_from(s, i + 1)
    }
}

proof fn lemma_anchor_close(s: Seq<char>, k: int)
    ensures
        anchor_close(s, k) matches Some(j) ==> k <= j && starts_at(s, j, "><u>"@),
    decreases s.len() - k,
{
    if 0 <= k < s.len() && !starts_at(s, k, "><u>"@) && s[k] != '\n' {
        lemma_anchor_close(s, k + 1);
    }
}

/// `s` with every `<a href=...><u>` opening taken out.
pub open spec fn strip_anchors(s: Seq<char>) -> Seq<char> {
    strip_from(s, 0)
}

/// The text of an operator comment with `/perm` taken out.
pub open spec fn unpermed(raw: Seq<char>) -> Seq<char> {
    replace_all(raw, "/perm"@, Seq::<char>::empty())
}

/// The comment holds a link.
pub open spec fn has_link(raw: Seq<char>) -> bool {
    contains(unpermed(raw), "href"@) || contains(unpermed(raw), "http"@)
}

/// The shown text of an operator comment: `/perm` taken out, link markup
/// and `http` taken out when it holds a link, ideographic spaces made two
/// plain ones.
pub open spec fn office_text(raw: Seq<char>) -> Seq<char> {
    let t1 = unpermed(raw);
    let close = "</u></a>"@;
    let t2 = if has_link(raw) {
        replace_all(
            replace_all(replace_all(strip_anchors(t1), close, Seq::<char>::empty()), "http"@, Seq::<char>::empty()),
            close,
            Seq::<char>::empty(),
        )
    } else {
        t1
    };
    replace_all(t2, "\u{3000}"@, "  "@)
}

/// The line with an operator comment's text: highlighted and underlined when
/// it holds a link, white otherwise; smaller when the comment is long.
pub open spec fn office_event(start: nat, end: nat, raw: Seq<char>) -> Seq<char> {
    let color = if has_link(raw) {
        "\\1c&HFF8000&\\u1"@
    } else {
        "\\1c&HFFFFFF&"@
    };
    dialogue("5"@, start, end, "Office"@) + "{\\an5\\pos(640,36)\\bord0"@ + color + "\\fsp0"@
        + small_font(raw.len() > 50) + "}"@ + office_text(raw)
}

/// The lines that a shown operator comment leaves: the band, then its text.
pub open spec fn office_lines(start: nat, end: nat, raw: Seq<char>) -> Seq<Seq<char>> {
    seq![band_event(start, end), office_event(start, end, raw)]
}

/// Where the anchor opened before `k` closes.
fn find_close(s: &Vec<char>, k: usize, close: &Vec<char>) -> (r: Option<usize>)
    requires
        close@ == "><u>"@,
    ensures
        match r {
            Some(j) => anchor_close(s@, k as int) == Some(j as int) && j >= k,
            None => anchor_close(s@, k as int) is None,
        },
{
    let mut j: usize = k;
    while j < s.len()
        invariant
            close@ == "><u>"@,
            k <= j,
            anchor_close(s@, k as int) == anchor_close(s@, j as int),
        decreases s@.len() - j,
    {
        if matches_at(s, j, close) {
            return Some(j);
        }
        if s[j] == '\n' {
            return None;
        }
        j = j + 1;
    }
    None
}

/// `s` with every `<a href=...><u>` opening taken out.
pub fn strip_anchor_tags(s: &Vec<char>) -> (r: Vec<char>)
    ensures
        r@ == strip_anchors(s@),
{
    let open = chars_of("<a href=");
    let close = chars_of("><u>");
    proof {
        reveal_strlit("<a href=");
        reveal_strlit("><u>");
    }
    let mut r: Vec<char> = Vec::new();
    let mut i: usize = 0;
    while i < s.len()
        invariant
            open@ == "<a href="@,
            close@ == "><u>"@,
            "<a href="@.len() == 8,
            "><u>"@.len() == 4,
            i <= s@.len(),
            r@ + strip_from(s@, i as int) == strip_anchors(s@),
        decreases s@.len() - i,
    {
        let ghost before = r@;
        if matches_at(s, i, &open) {
            match find_close(s, i + 8, &close) {
                Some(k) => {
                    proof {
                        lemma_anchor_close(s@, i + 8);
                        assert(starts_at(s@, k as int, "><u>"@));
                    }
                    i = k + 4;
                    continue;
                },
                None => {},
            }
        }
        r.push(s[i]);
        assert(before + (seq![s@[i as int]] + strip_from(s@, i + 1)) =~= r@ + strip_from(s@, i + 1));
        i = i + 1;
    }
    assert(r@ =~= r@ + strip_from(s@, i as int));
    r
}

/// The shown text of an operator comment, and whether it holds a link.
pub fn clean_office_text(raw: &Vec<char>) -> (r: (Vec<char>, bool))
    ensures
        r.0@ == office_text(raw@),
        r.1 == has_link(raw@),
{
    proof {
        reveal_strlit("/perm");
        reveal_strlit("</u></a>");
        reveal_strlit("http");
        reveal_strlit("\u{3000}");
    }
    let empty: Vec<char> = Vec::new();
    let t1 = replace_seq(raw, &chars_of("/perm"), &empty);
    let link = contains_seq(&t1, &chars_of("href")) || contains_seq(&t1, &chars_of("http"));
    let close = chars_of("</u></a>");
    let t2 = if link {
        let a = strip_anchor_tags(&t1);
        let b = replace_seq(&a, &close, &empty);
        let c = replace_seq(&b, &chars_of("http"), &empty);
        replace_seq(&c, &close, &empty)
    } else {
        t1
    };
    let t3 = replace_seq(&t2, &chars_of("\u{3000}"), &chars_of("  "));
    (t3, link)
}

/// Appends the lines of an operator comment shown from `start` to `end`.
pub fn push_office(office: &mut Vec<String>, start: u64, end: u64, raw: &Vec<char>)
    ensures
        lines(final(office)@) == lines(old(office)@) + office_lines(start as nat, end as nat, raw@),
{
    let ghost before = lines(office@);
    push_line(office, band_line(start, end));
    let (text, link) = clean_office_text(raw);
    let mut out = dialogue_head("5", start, end, "Office");
    out.append("{\\an5\\pos(640,36)\\bord0");
    if link {
        out.append("\\1c&HFF8000&\\u1");
    } else {
        out.append("\\1c&HFFFFFF&");
    }
    out.append("\\fsp0");
    push_small_font(&mut out, raw.len() > 50);
    out.append("}");
    push_chars(&mut out, &text);
    push_line(office, out);
    assert(lines(office@) =~= before + office_lines(start as nat, end as nat, raw@));
}

} // verus!
