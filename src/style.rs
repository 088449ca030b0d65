//! Comment styles: time stamps, colours and placement classes.
use vstd::prelude::*;
use vstd::string::*;
use crate::text::{eq_chars, chars_of, dec, digit, pad2, push_char, push_dec, push_pad2};

verus! {

/// The fraction of a second after the point: one digit when the second
/// digit is zero, else two.
pub open spec fn fraction(f: nat) -> Seq<char> {
    if f % 10 == 0 {
        dec(f / 10)
    } else {
        seq![digit((f / 10) as int), digit((f % 10) as int)]
    }
}

/// `H:MM:SS.f` text of a time given in hundredths of a second; hours,
/// minutes and seconds take at least two digits, the fraction one or two.
pub open spec fn hms(cs: nat) -> Seq<char> {
    pad2(cs / 360000) + seq![':'] + pad2(cs % 360000 / 6000) + seq![':'] + pad2(cs % 6000 / 100)
        + seq!['.'] + fraction(cs % 100)
}

/// The time stamp of `centis` hundredths of a second.
pub fn sec2hms(centis: u64) -> (r: String)
    ensures
        r@ == hms(centis as nat),
{
    let mut out = String::new();
    push_hms(&mut out, centis);
    assert(out@ =~= hms(centis as nat));
    out
}

/// Every time stamp carries a fraction: it ends in a point followed by one
/// or two digits.
pub proof fn lemma_time_has_fraction(cs: nat)
    ensures
        ({
            let t = hms(cs);
            let f = fraction(cs % 100);
            &&& 1 <= f.len() <= 2
            &&& t.len() > f.len()
            &&& t[t.len() - f.len() - 1] == '.'
            &&& t.subrange(t.len() - f.len(), t.len() as int) == f
        }),
{
    let f = fraction(cs % 100);
    let head = pad2(cs / 360000) + seq![':'] + pad2(cs % 360000 / 6000) + seq![':'] + pad2(
        cs % 6000 / 100,
    ) + seq!['.'];
    assert(hms(cs) == head + f);
    assert(head.last() == '.');
    let t = hms(cs);
    assert(t.subrange(t.len() - f.len(), t.len() as int) =~= f);
    assert(t[t.len() - f.len() - 1] == head[head.len() - 1]);
}

/// Appends the time stamp of `centis` hundredths of a second.
pub fn push_hms(out: &mut String, centis: u64)
    ensures
        final(out)@ == old(out)@ + hms(centis as nat),
{
    let ghost start = out@;
    push_pad2(out, centis / 360000);
    push_char(out, ':');
    push_pad2(out, centis % 360000 / 6000);
    push_char(out, ':');
    push_pad2(out, centis % 6000 / 100);
    push_char(out, '.');
    let f = centis % 100;
    if f % 10 == 0 {
        push_dec(out, f / 10);
    } else {
        push_dec(out, f / 10);
        push_dec(out, f % 10);
    }
    assert(out@ =~= start + hms(centis as nat));
}

pub open spec fn is_hex(c: char) -> bool {
    ('0' <= c && c <= '9') || ('a' <= c && c <= 'f') || ('A' <= c && c <= 'F')
}

/// A `#` followed by six hexadecimal digits stands at position `i` of `t`.
pub open spec fn hex_at(t: Seq<char>, i: int) -> bool {
    0 <= i && i + 7 <= t.len() && t[i] == '#' && forall|k: int| 1 <= k < 7 ==> is_hex(#[trigger] t[i + k])
}

/// The six digits of the leftmost `#RRGGBB` in `t` at or after `i`.
pub open spec fn find_hex(t: Seq<char>, i: int) -> Option<Seq<char>>
    decreases t.len() - i,
{
    if i < 0 || i >= t.len() {
        None
    } else if hex_at(t, i) {
        Some(t.subrange(i + 1, i + 7))
    } else {
        find_hex(t, i + 1)
    }
}

/// The colour that a named style token stands for.
pub open spec fn named_color(t: Seq<char>) -> Option<Seq<char>> {
    if t == "black"@ {
        Some("000000"@)
    } else if t == "white"@ {
        Some("FFFFFF"@)
    } else if t == "red"@ {
        Some("FF0000"@)
    } else if t == "green"@ {
        Some("00ff00"@)
    } else if t == "yellow"@ {
        Some("FFFF00"@)
    } else if t == "blue"@ {
        Some("0000FF"@)
    } else if t == "orange"@ {
        Some("ffcc00"@)
    } else if t == "pink"@ {
        Some("FF8080"@)
    } else if t == "cyan"@ {
        Some("00FFFF"@)
    } else if t == "purple"@ {
        Some("C000FF"@)
    } else if t == "niconicowhite"@ || t == "white2"@ {
        Some("cccc99"@)
    } else if t == "truered"@ || t == "red2"@ {
        Some("cc0033"@)
    } else if t == "passionorange"@ || t == "orange2"@ {
        Some("ff6600"@)
    } else if t == "madyellow"@ || t == "yellow2"@ {
        Some("999900"@)
    } else if t == "elementalgreen"@ || t == "green2"@ {
        Some("00cc66"@)
    } else if t == "marineblue"@ || t == "blue2"@ {
        Some("33ffcc"@)
    } else if t == "nobleviolet"@ || t == "purple2"@ {
        Some("6633cc"@)
    } else {
        None
    }
}

/// After the tokens: the last named colour (white when none) and the last
/// explicit `#RRGGBB` colour, if any.
pub open spec fn color_scan(tokens: Seq<Seq<char>>) -> (Seq<char>, Option<Seq<char>>)
    decreases tokens.len(),
{
    if tokens.len() == 0 {
        ("FFFFFF"@, None)
    } else {
        let prev = color_scan(tokens.drop_last());
        let t = tokens.last();
        match find_hex(t, 0) {
            Some(h) => (prev.0, Some(h)),
            None => match named_color(t) {
                Some(c) => (c, prev.1),
                None => prev,
            },
        }
    }
}

/// The colour of a comment with these style tokens, as `RRGGBB`: an
/// explicit `#RRGGBB` token wins over any named one.
pub open spec fn resolved_color(tokens: Seq<Seq<char>>) -> Seq<char> {
    let s = color_scan(tokens);
    match s.1 {
        Some(h) => h,
        None => s.0,
    }
}

/// The override tags that set the fill colour `c` (`RRGGBB`, written in the
/// subtitle's `BBGGRR` order), with a white outline for pure black.
pub open spec fn ass_color(c: Seq<char>) -> Seq<char> {
    "\\1c&H"@ + c.subrange(4, 6) + c.subrange(2, 4) + c.subrange(0, 2) + "&"@ + if c == "000000"@ {
        "\\3c&HFFFFFF&"@
    } else {
        Seq::<char>::empty()
    }
}

/// The colour tags of a comment with these style tokens.
pub open spec fn color_tags(tokens: Seq<Seq<char>>) -> Seq<char> {
    ass_color(resolved_color(tokens))
}

proof fn lemma_hex_len(t: Seq<char>, i: int)
    ensures
        find_hex(t, i) matches Some(h) ==> h.len() == 6,
    decreases t.len() - i,
{
    if 0 <= i < t.len() && !hex_at(t, i) {
        lemma_hex_len(t, i + 1);
    }
}

proof fn lemma_named_len(t: Seq<char>)
    ensures
        named_color(t) matches Some(c) ==> c.len() == 6,
{
    reveal_strlit("000000");
    reveal_strlit("FFFFFF");
    reveal_strlit("FF0000");
    reveal_strlit("00ff00");
    reveal_strlit("FFFF00");
    reveal_strlit("0000FF");
    reveal_strlit("ffcc00");
    reveal_strlit("FF8080");
    reveal_strlit("00FFFF");
    reveal_strlit("C000FF");
    reveal_strlit("cccc99");
    reveal_strlit("cc0033");
    reveal_strlit("ff6600");
    reveal_strlit("999900");
    reveal_strlit("00cc66");
    reveal_strlit("33ffcc");
    reveal_strlit("6633cc");
}

proof fn lemma_scan_len(tokens: Seq<Seq<char>>)
    ensures
        color_scan(tokens).0.len() == 6,
        color_scan(tokens).1 matches Some(h) ==> h.len() == 6,
    decreases tokens.len(),
{
    reveal_strlit("FFFFFF");
    if tokens.len() > 0 {
        lemma_scan_len(tokens.drop_last());
        lemma_hex_len(tokens.last(), 0);
        lemma_named_len(tokens.last());
    }
}

/// An explicit colour wins: when token `j` holds a `#RRGGBB` and no later
/// token does, the comment has that colour, whatever named colours stand
/// before or after it.
pub proof fn lemma_explicit_color_wins(tokens: Seq<Seq<char>>, j: int)
    requires
        0 <= j < tokens.len(),
        find_hex(tokens[j], 0) is Some,
        forall|k: int| j < k < tokens.len() ==> find_hex(#[trigger] tokens[k], 0) is None,
    ensures
        resolved_color(tokens) == find_hex(tokens[j], 0)->0,
        color_scan(tokens).1 == find_hex(tokens[j], 0),
    decreases tokens.len(),
{
    assert(tokens.last() == tokens[tokens.len() - 1]);
    if j < tokens.len() - 1 {
        let rest = tokens.drop_last();
        assert forall|k: int| j < k < rest.len() implies find_hex(#[trigger] rest[k], 0) is None by {
            assert(rest[k] == tokens[k]);
        }
        lemma_explicit_color_wins(rest, j);
        assert(find_hex(tokens[tokens.len() - 1], 0) is None);
    }
}

/// A comment whose colour comes out pure black is also given a white
/// outline.
pub proof fn lemma_black_outlined(tokens: Seq<Seq<char>>)
    requires
        resolved_color(tokens) == "000000"@,
    ensures
        color_tags(tokens) == "\\1c&H000000&"@ + "\\3c&HFFFFFF&"@,
{
    reveal_strlit("000000");
    reveal_strlit("\\1c&H000000&");
    reveal_strlit("\\1c&H");
    reveal_strlit("&");
    let c = resolved_color(tokens);
    assert("\\1c&H"@ + c.subrange(4, 6) + c.subrange(2, 4) + c.subrange(0, 2) + "&"@ =~= "\\1c&H000000&"@);
}

/// The six digits of the leftmost `#RRGGBB` in `t`.
fn hex_in(t: &Vec<char>) -> (r: Option<Vec<char>>)
    ensures
        match r {
            Some(h) => find_hex(t@, 0) == Some(h@),
            None => find_hex(t@, 0) is None,
        },
{
    let n: usize = t.len();
    let mut i: usize = 0;
    while i < n
        invariant
            n == t@.len(),
            i <= n,
            find_hex(t@, 0) == find_hex(t@, i as int),
        decreases n - i,
    {
        if n - i >= 7 && t[i] == '#' {
            let mut k: usize = 1;
            let mut ok = true;
            while k < 7
                invariant
                    i + 7 <= n == t@.len(),
                    1 <= k <= 7,
                    ok == forall|j: int| 1 <= j < k ==> is_hex(#[trigger] t@[i + j]),
                decreases 7 - k,
            {
                let c = t[i + k];
                let h = ('0' <= c && c <= '9') || ('a' <= c && c <= 'f') || ('A' <= c && c <= 'F');
                ok = ok && h;
                k = k + 1;
            }
            if ok {
                let mut h: Vec<char> = Vec::new();
                let mut k2: usize = i + 1;
                while k2 < i + 7
                    invariant
                        i + 7 <= n == t@.len(),
                        i + 1 <= k2 <= i + 7,
                        h@ == t@.subrange(i + 1, k2 as int),
                    decreases i + 7 - k2,
                {
                    h.push(t[k2]);
                    k2 = k2 + 1;
                    assert(h@ =~= t@.subrange(i + 1, k2 as int));
                }
                return Some(h);
            }
        }
        i = i + 1;
    }
    None
}

/// The colour that a named style token stands for.
fn named_in(t: &Vec<char>) -> (r: Option<Vec<char>>)
    ensures
        match r {
            Some(c) => named_color(t@) == Some(c@),
            None => named_color(t@) is None,
        },
{
    if eq_chars(t, &chars_of("black")) {
        Some(chars_of("000000"))
    } else if eq_chars(t, &chars_of("white")) {
        Some(chars_of("FFFFFF"))
    } else if eq_chars(t, &chars_of("red")) {
        Some(chars_of("FF0000"))
    } else if eq_chars(t, &chars_of("green")) {
        Some(chars_of("00ff00"))
    } else if eq_chars(t, &chars_of("yellow")) {
        Some(chars_of("FFFF00"))
    } else if eq_chars(t, &chars_of("blue")) {
        Some(chars_of("0000FF"))
    } else if eq_chars(t, &chars_of("orange")) {
        Some(chars_of("ffcc00"))
    } else if eq_chars(t, &chars_of("pink")) {
        Some(chars_of("FF8080"))
    } else if eq_chars(t, &chars_of("cyan")) {
        Some(chars_of("00FFFF"))
    } else if eq_chars(t, &chars_of("purple")) {
        Some(chars_of("C000FF"))
    } else if eq_chars(t, &chars_of("niconicowhite")) || eq_chars(t, &chars_of("white2")) {
        Some(chars_of("cccc99"))
    } else if eq_chars(t, &chars_of("truered")) || eq_chars(t, &chars_of("red2")) {
        Some(chars_of("cc0033"))
    } else if eq_chars(t, &chars_of("passionorange")) || eq_chars(t, &chars_of("orange2")) {
        Some(chars_of("ff6600"))
    } else if eq_chars(t, &chars_of("madyellow")) || eq_chars(t, &chars_of("yellow2")) {
        Some(chars_of("999900"))
    } else if eq_chars(t, &chars_of("elementalgreen")) || eq_chars(t, &chars_of("green2")) {
        Some(chars_of("00cc66"))
    } else if eq_chars(t, &chars_of("marineblue")) || eq_chars(t, &chars_of("blue2")) {
        Some(chars_of("33ffcc"))
    } else if eq_chars(t, &chars_of("nobleviolet")) || eq_chars(t, &chars_of("purple2")) {
        Some(chars_of("6633cc"))
    } else {
        None
    }
}

pub open spec fn token_views(tokens: Seq<Vec<char>>) -> Seq<Seq<char>> {
    tokens.map_values(|t: Vec<char>| t@)
}

/// The colour tags of a comment with these style tokens.
pub fn color_of_tokens(tokens: &Vec<Vec<char>>) -> (r: String)
    ensures
        r@ == color_tags(token_views(tokens@)),
{
    let mut color = chars_of("FFFFFF");
    let mut important: Option<Vec<char>> = None;
    let mut i: usize = 0;
    while i < tokens.len()
        invariant
            i <= tokens@.len(),
            (color@, match important {
                Some(h) => Some(h@),
                None => None,
            }) == color_scan(token_views(tokens@).subrange(0, i as int)),
        decreases tokens@.len() - i,
    {
        let ghost pre = token_views(tokens@).subrange(0, i as int);
        let ghost nxt = token_views(tokens@).subrange(0, i + 1);
        assert(nxt.drop_last() =~= pre);
        assert(nxt.last() == tokens@[i as int]@);
        match hex_in(&tokens[i]) {
            Some(h) => {
                important = Some(h);
            },
            None => {
                match named_in(&tokens[i]) {
                    Some(c) => {
                        color = c;
                    },
                    None => {},
                }
            },
        }
        i = i + 1;
    }
    assert(token_views(tokens@).subrange(0, i as int) =~= token_views(tokens@));
    let c = match important {
        Some(h) => h,
        None => color,
    };
    proof {
        lemma_scan_len(token_views(tokens@));
    }
    let mut out = String::new();
    out.append("\\1c&H");
    push_char(&mut out, c[4]);
    push_char(&mut out, c[5]);
    push_char(&mut out, c[2]);
    push_char(&mut out, c[3]);
    push_char(&mut out, c[0]);
    push_char(&mut out, c[1]);
    out.append("&");
    assert(out@ =~= "\\1c&H"@ + c@.subrange(4, 6) + c@.subrange(2, 4) + c@.subrange(0, 2) + "&"@);
    if eq_chars(&c, &chars_of("000000")) {
        out.append("\\3c&HFFFFFF&");
    } else {
        assert(out@ =~= out@ + Seq::<char>::empty());
    }
    out
}

/// The colour tags for the given style tokens: the last `#RRGGBB` token
/// when there is one, else the last named colour, else white, written as
/// `\1c&HBBGGRR&`; pure black also gets a white outline.
pub fn get_color(styles: &Vec<String>) -> (r: String)
    ensures
        r@ == color_tags(styles@.map_values(|s: String| s@)),
{
    let mut tokens: Vec<Vec<char>> = Vec::new();
    let mut i: usize = 0;
    while i < styles.len()
        invariant
            i <= styles@.len(),
            tokens@.len() == i,
            forall|j: int| 0 <= j < i ==> (#[trigger] tokens@[j])@ == styles@[j]@,
        decreases styles@.len() - i,
    {
        tokens.push(chars_of(styles[i].as_str()));
        i = i + 1;
    }
    assert(token_views(tokens@) =~= styles@.map_values(|s: String| s@));
    color_of_tokens(&tokens)
}

/// Where a non-operator comment is shown.
#[derive(Clone, Copy, PartialEq, Eq, Structural, Debug)]
pub enum Placement {
    Scroll,
    Top,
    Bottom,
    AsciiArt,
}

/// The placement that the `ue` and `shita` tokens give, the last one winning.
pub open spec fn fixed_scan(tokens: Seq<Seq<char>>) -> Placement
    decreases tokens.len(),
{
    if tokens.len() == 0 {
        Placement::Scroll
    } else if tokens.last() == "ue"@ {
        Placement::Top
    } else if tokens.last() == "shita"@ {
        Placement::Bottom
    } else {
        fixed_scan(tokens.drop_last())
    }
}

/// A token asks for the ASCII-art font.
pub open spec fn is_aa_token(t: Seq<char>) -> bool {
    t == "gothic"@ || t == "mincho"@
}

/// The placement of a non-operator comment with these style tokens: any
/// ASCII-art token wins, else the last of `ue` and `shita`, else scrolling.
pub open spec fn placement(tokens: Seq<Seq<char>>) -> Placement {
    if exists|i: int| 0 <= i < tokens.len() && is_aa_token(#[trigger] tokens[i]) {
        Placement::AsciiArt
    } else {
        fixed_scan(tokens)
    }
}

/// The placement of a comment with these style tokens.
pub fn placement_of(tokens: &Vec<Vec<char>>) -> (r: Placement)
    ensures
        r == placement(token_views(tokens@)),
{
    let ue = chars_of("ue");
    let shita = chars_of("shita");
    let gothic = chars_of("gothic");
    let mincho = chars_of("mincho");
    let mut p = Placement::Scroll;
    let mut aa = false;
    let mut i: usize = 0;
    while i < tokens.len()
        invariant
            i <= tokens@.len(),
            ue@ == "ue"@,
            shita@ == "shita"@,
            gothic@ == "gothic"@,
            mincho@ == "mincho"@,
            p == fixed_scan(token_views(tokens@).subrange(0, i as int)),
            aa == exists|j: int| 0 <= j < i && is_aa_token(#[trigger] token_views(tokens@)[j]),
        decreases tokens@.len() - i,
    {
        let ghost pre = token_views(tokens@).subrange(0, i as int);
        let ghost nxt = token_views(tokens@).subrange(0, i + 1);
        assert(nxt.drop_last() =~= pre);
        assert(nxt.last() == tokens@[i as int]@);
        let t = &tokens[i];
        if eq_chars(t, &ue) {
            p = Placement::Top;
        } else if eq_chars(t, &shita) {
            p = Placement::Bottom;
        }
        if eq_chars(t, &gothic) || eq_chars(t, &mincho) {
            aa = true;
        }
        i = i + 1;
    }
    assert(token_views(tokens@).subrange(0, i as int) =~= token_views(tokens@));
    if aa {
        Placement::AsciiArt
    } else {
        assert forall|j: int| 0 <= j < token_views(tokens@).len() implies !is_aa_token(
            #[trigger] token_views(tokens@)[j],
        ) by {}
        p
    }
}

} // verus!
