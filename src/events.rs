//! Dialogue lines of the subtitle document and the lists that hold them.
use vstd::prelude::*;
use vstd::string::*;
use crate::style::{hms, push_hms};

verus! {

/// The text of each line of a list.
pub open spec fn lines(v: Seq<String>) -> Seq<Seq<char>> {
    v.map_values(|s: String| s@)
}

/// Appends a line to a list.
pub fn push_line(v: &mut Vec<String>, s: String)
    ensures
        lines(final(v)@) == lines(old(v)@).push(s@),
{
    v.push(s);
    assert(lines(v@) =~= lines(old(v)@).push(s@));
}

/// The fields of a dialogue line up to its text: layer, start, end and style.
pub open spec fn dialogue(layer: Seq<char>, start: nat, end: nat, style: Seq<char>) -> Seq<char> {
    "Dialogue: "@ + layer + ","@ + hms(start) + ","@ + hms(end) + ","@ + style + ",,0,0,0,,"@
}

/// The fields of a dialogue line up to its text.
pub fn dialogue_head(layer: &str, start: u64, end: u64, style: &str) -> (r: String)
    ensures
        r@ == dialogue(layer@, start as nat, end as nat, style@),
{
    let mut out = String::new();
    out.append("Dialogue: ");
    assert(out@ =~= "Dialogue: "@);
    out.append(layer);
    out.append(",");
    push_hms(&mut out, start);
    out.append(",");
    push_hms(&mut out, end);
    out.append(",");
    out.append(style);
    out.append(",,0,0,0,,");
    out
}

/// Tags and drawing of the dark band behind operator text.
pub open spec fn band() -> Seq<char> {
    "{\\an5\\p1\\pos(640,36)\\bord0\\1c&H000000&\\1a&H78&}m 0 0 l 1280 0 l 1280 72 l 0 72"@
}

/// The dark band behind operator text, from `start` to `end`.
pub open spec fn band_event(start: nat, end: nat) -> Seq<char> {
    dialogue("4"@, start, end, "Office"@) + band()
}

pub fn band_line(start: u64, end: u64) -> (r: String)
    ensures
        r@ == band_event(start as nat, end as nat),
{
    let mut out = dialogue_head("4", start, end, "Office");
    out.append("{\\an5\\p1\\pos(640,36)\\bord0\\1c&H000000&\\1a&H78&}m 0 0 l 1280 0 l 1280 72 l 0 72");
    out
}

/// The optional smaller-font tag for long operator text.
pub open spec fn small_font(long: bool) -> Seq<char> {
    if long {
        "\\fs30"@
    } else {
        Seq::<char>::empty()
    }
}

pub fn push_small_font(out: &mut String, long: bool)
    ensures
        final(out)@ == old(out)@ + small_font(long),
{
    if long {
        out.append("\\fs30");
    } else {
        assert(out@ =~= out@ + Seq::<char>::empty());
    }
}

} // verus!
