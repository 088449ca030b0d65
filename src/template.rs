//! Segment URL templates: `$Name$` and `$Name%0Wd$` placeholders replaced by
//! the values given for them.
use vstd::prelude::*;
use vstd::string::*;
use crate::text::{chars_of, eq_chars, push_char, starts_at, is_digit, digit_value};

verus! {

/// The placeholder for `name` at position `i` of `t`, if there is one: its
/// zero-padding width, if given, and its length in characters.
pub open spec fn token_for(t: Seq<char>, i: int, name: Seq<char>) -> Option<(Option<nat>, int)> {
    let j = i + 1 + name.len();
    if 0 <= i < t.len() && t[i] == '$' && starts_at(t, i + 1, name) {
        if j + 4 < t.len() && t[j] == '%' && t[j + 1] == '0' && is_digit(t[j + 2]) && t[j + 3]
            == 'd' && t[j + 4] == '$' {
            Some((Some(digit_value(t[j + 2])), name.len() + 6int))
        } else if j < t.len() && t[j] == '$' {
            Some((None, name.len() + 2int))
        } else {
            None
        }
    } else {
        None
    }
}

/// The placeholder at position `i` of `t`: its name, width and length.
pub open spec fn token_at(t: Seq<char>, i: int) -> Option<(Seq<char>, Option<nat>, int)> {
    if let Some((w, l)) = token_for(t, i, "RepresentationID"@) {
        Some(("RepresentationID"@, w, l))
    } else if let Some((w, l)) = token_for(t, i, "Number"@) {
        Some(("Number"@, w, l))
    } else if let Some((w, l)) = token_for(t, i, "Bandwidth"@) {
        Some(("Bandwidth"@, w, l))
    } else if let Some((w, l)) = token_for(t, i, "Time"@) {
        Some(("Time"@, w, l))
    } else if let Some((w, l)) = token_for(t, i, "SubNumber"@) {
        Some(("SubNumber"@, w, l))
    } else {
        None
    }
}

/// `v` padded on the left with zeros to `w` characters.
pub open spec fn zero_pad(v: Seq<char>, w: nat) -> Seq<char> {
    if v.len() < w {
        Seq::new((w - v.len()) as nat, |_k: int| '0') + v
    } else {
        v
    }
}

/// What a placeholder becomes: the padded value when its name has one,
/// otherwise the placeholder itself.
pub open spec fn substitution(
    args: Map<Seq<char>, Seq<char>>,
    t: Seq<char>,
    i: int,
    tok: (Seq<char>, Option<nat>, int),
) -> Seq<char> {
    if args.contains_key(tok.0) {
        match tok.1 {
            Some(w) => zero_pad(args[tok.0], w),
            None => args[tok.0],
        }
    } else {
        t.subrange(i, i + tok.2)
    }
}

/// The template from position `i` on, with each placeholder substituted,
/// leftmost first.
pub open spec fn resolve_from(args: Map<Seq<char>, Seq<char>>, t: Seq<char>, i: int) -> Seq<char>
    decreases t.len() - i,
{
    if i < 0 || i >= t.len() {
        Seq::<char>::empty()
    } else {
        match token_at(t, i) {
            Some(tok) => substitution(args, t, i, tok) + resolve_from(args, t, i + tok.2),
            None => seq![t[i]] + resolve_from(args, t, i + 1),
        }
    }
}

/// The whole template with its placeholders substituted.
pub open spec fn resolved(args: Map<Seq<char>, Seq<char>>, t: Seq<char>) -> Seq<char> {
    resolve_from(args, t, 0)
}

/// The value that the entries give to `k`: the one inserted last.
pub open spec fn value_of(entries: Seq<(Seq<char>, Seq<char>)>, k: Seq<char>) -> Option<Seq<char>>
    decreases entries.len(),
{
    if entries.len() == 0 {
        None
    } else if entries.last().0 == k {
        Some(entries.last().1)
    } else {
        value_of(entries.drop_last(), k)
    }
}

/// Values for the placeholders of segment URL templates.
pub struct Template {
    entries: Vec<(Vec<char>, String)>,
}

pub open spec fn entry_view(e: (Vec<char>, String)) -> (Seq<char>, Seq<char>) {
    (e.0@, e.1@)
}

impl Template {
    /// This identifier is substituted with the id of the containing Representation.
    pub const REPRESENTATION_ID: &'static str = "RepresentationID";

    /// This identifier is substituted with the number of the Segment.
    pub const NUMBER: &'static str = "Number";

    /// This identifier is substituted with the bandwidth of the Representation.
    pub const BANDWIDTH: &'static str = "Bandwidth";

    /// This identifier is substituted with the start time of the Segment.
    pub const TIME: &'static str = "Time";

    /// This identifier is substituted with the number of the Segment in a
    /// Segment Sequence.
    pub const SUB_NUMBER: &'static str = "SubNumber";

    pub closed spec fn entries_view(&self) -> Seq<(Seq<char>, Seq<char>)> {
        self.entries@.map_values(|e: (Vec<char>, String)| entry_view(e))
    }

    /// The values given so far, by placeholder name.
    pub open spec fn args(&self) -> Map<Seq<char>, Seq<char>> {
        Map::new(
            |k: Seq<char>| value_of(self.entries_view(), k) is Some,
            |k: Seq<char>| value_of(self.entries_view(), k)->0,
        )
    }

    pub fn new() -> (r: Self)
        ensures
            r.args() == Map::<Seq<char>, Seq<char>>::empty(),
    {
        let r = Template { entries: Vec::new() };
        assert(r.args() =~= Map::<Seq<char>, Seq<char>>::empty());
        r
    }

    fn put(&mut self, key: &str, value: String)
        ensures
            final(self).args() == old(self).args().insert(key@, value@),
    {
        let k = chars_of(key);
        let ghost before = self.entries_view();
        self.entries.push((k, value));
        let ghost after = self.entries_view();
        assert(after.drop_last() =~= before);
        assert(after.last() == (key@, value@));
        assert(self.args() =~= old(self).args().insert(key@, value@));
    }

    /// Gives `key` the value `value`, replacing any earlier one.
    pub fn insert(&mut self, key: &'static str, value: String) -> (r: &mut Self)
        ensures
            r.args() == old(self).args().insert(key@, value@),
            *final(self) == *final(r),
    {
        self.put(key, value);
        self
    }

    /// Gives `key` the value `value` when there is one; otherwise changes nothing.
    pub fn insert_optional(&mut self, key: &'static str, value: Option<String>) -> (r: &mut Self)
        ensures
            r.args() == match value {
                Some(v) => old(self).args().insert(key@, v@),
                None => old(self).args(),
            },
            *final(self) == *final(r),
    {
        if let Some(value) = value {
            self.put(key, value);
        }
        self
    }

    fn lookup(&self, key: &Vec<char>) -> (r: Option<&String>)
        ensures
            r is Some <==> self.args().contains_key(key@),
            r is Some ==> r->0@ == self.args()[key@],
    {
        let ghost ev = self.entries_view();
        let mut i: usize = self.entries.len();
        assert(ev.subrange(0, i as int) =~= ev);
        while i > 0
            invariant
                i <= self.entries@.len(),
                ev == self.entries_view(),
                value_of(ev, key@) == value_of(ev.subrange(0, i as int), key@),
            decreases i,
        {
            let ghost pre = ev.subrange(0, i as int);
            assert(pre.drop_last() =~= ev.subrange(0, i - 1));
            assert(pre.last() == entry_view(self.entries@[i - 1]));
            if eq_chars(&self.entries[i - 1].0, key) {
                return Some(&self.entries[i - 1].1);
            }
            i = i - 1;
        }
        None
    }

    /// The characters that the placeholder `tok` at position `i` of `t`
    /// stands for.
    fn emit_token(
        &self,
        t: &Vec<char>,
        i: usize,
        name: &Vec<char>,
        w: Option<u32>,
        l: usize,
        out: &mut String,
    )
        requires
            i + l <= t@.len(),
        ensures
            final(out)@ == old(out)@ + substitution(
                self.args(),
                t@,
                i as int,
                (name@, width_of(w), l as int),
            ),
    {
        let ghost before = out@;
        match self.lookup(name) {
            Some(v) => {
                match w {
                    Some(d) => {
                        let mut p: usize = v.unicode_len();
                        while p < d as usize
                            invariant
                                v@.len() <= p <= d || p == v@.len(),
                                out@ == before + Seq::new((p - v@.len()) as nat, |_k: int| '0'),
                            decreases d - p,
                        {
                            push_char(out, '0');
                            p = p + 1;
                            assert(out@ =~= before + Seq::new(
                                (p - v@.len()) as nat,
                                |_k: int| '0',
                            ));
                        }
                        out.append(v.as_str());
                        assert(out@ =~= before + zero_pad(v@, d as nat));
                    },
                    None => {
                        out.append(v.as_str());
                    },
                }
            },
            None => {
                let mut q: usize = i;
                let len: usize = t.len();
                let end: usize = i + l;
                while q < end
                    invariant
                        end == i + l,
                        i <= q <= end <= t@.len(),
                        out@ == before + t@.subrange(i as int, q as int),
                    decreases end - q,
                {
                    push_char(out, t[q]);
                    q = q + 1;
                    assert(out@ =~= before + t@.subrange(i as int, q as int));
                }
            },
        }
    }

    /// The template with every placeholder whose name has a value replaced by
    /// that value, zero-padded to the width that the placeholder gives;
    /// everything else is kept as it is.
    pub fn resolve(&self, template: &str) -> (r: String)
        ensures
            r@ == resolved(self.args(), template@),
    {
        let t = chars_of(template);
        let mut out = String::new();
        let mut i: usize = 0;
        while i < t.len()
            invariant
                i <= t@.len(),
                out@ + resolve_from(self.args(), t@, i as int) == resolved(self.args(), template@),
                t@ == template@,
            decreases t@.len() - i,
        {
            let ghost before = out@;
            match find_token(&t, i) {
                Some((name, w, l)) => {
                    let ghost tok = token_at(t@, i as int)->0;
                    self.emit_token(&t, i, &name, w, l, &mut out);
                    assert(before + (substitution(self.args(), t@, i as int, tok) + resolve_from(
                        self.args(),
                        t@,
                        i + l,
                    )) =~= out@ + resolve_from(self.args(), t@, i + l));
                    i = i + l;
                },
                None => {
                    push_char(&mut out, t[i]);
                    assert(before + (seq![t@[i as int]] + resolve_from(self.args(), t@, i + 1))
                        =~= out@ + resolve_from(self.args(), t@, i + 1));
                    i = i + 1;
                },
            }
        }
        assert(out@ =~= out@ + resolve_from(self.args(), t@, i as int));
        out
    }
}

pub open spec fn width_of(w: Option<u32>) -> Option<nat> {
    match w {
        Some(d) => Some(d as nat),
        None => None,
    }
}

/// The placeholder at position `i` of `t`, as `token_at` gives it.
fn find_token(t: &Vec<char>, i: usize) -> (r: Option<(Vec<char>, Option<u32>, usize)>)
    requires
        i < t@.len(),
    ensures
        match r {
            Some((n, w, l)) => token_at(t@, i as int) == Some((n@, width_of(w), l as int)) && l
                >= 2 && i + l <= t@.len(),
            None => token_at(t@, i as int) is None,
        },
{
    let n0 = chars_of("RepresentationID");
    if let Some((w, l)) = token_here(t, i, &n0) {
        return Some((n0, w, l));
    }
    let n1 = chars_of("Number");
    if let Some((w, l)) = token_here(t, i, &n1) {
        return Some((n1, w, l));
    }
    let n2 = chars_of("Bandwidth");
    if let Some((w, l)) = token_here(t, i, &n2) {
        return Some((n2, w, l));
    }
    let n3 = chars_of("Time");
    if let Some((w, l)) = token_here(t, i, &n3) {
        return Some((n3, w, l));
    }
    let n4 = chars_of("SubNumber");
    if let Some((w, l)) = token_here(t, i, &n4) {
        return Some((n4, w, l));
    }
    None
}


/// The placeholder for `name` at position `i` of `t`, as `token_for` gives it.
fn token_here(t: &Vec<char>, i: usize, name: &Vec<char>) -> (r: Option<(Option<u32>, usize)>)
    requires
        i < t@.len(),
    ensures
        match r {
            Some((w, l)) => token_for(t@, i as int, name@) == Some((width_of(w), l as int)) && l
                >= 2 && i + l <= t@.len(),
            None => token_for(t@, i as int, name@) is None,
        },
{
    let len: usize = t.len();
    if t[i] != '$' || !crate::text::matches_at(t, i + 1, name) {
        return None;
    }
    let j: usize = i + 1 + name.len();
    if j < t.len() && t.len() - j > 4 && t[j] == '%' && t[j + 1] == '0' && '0' <= t[j + 2]
        && t[j + 2] <= '9' && t[j + 3] == 'd' && t[j + 4] == '$' {
        let d: u32 = t[j + 2] as u32 - '0' as u32;
        Some((Some(d), name.len() + 6))
    } else if j < t.len() && t[j] == '$' {
        Some((None, name.len() + 2))
    } else {
        None
    }
}

impl Default for Template {
    fn default() -> (r: Self)
        ensures
            r.args() == Map::<Seq<char>, Seq<char>>::empty(),
    {
        Self::new()
    }
}

/// A segment URL template.
pub struct TemplateUrl(pub String);

impl TemplateUrl {
    /// The URL with the values of `template` put in.
    pub fn resolve(&self, template: &Template) -> (r: String)
        ensures
            r@ == resolved(template.args(), self.0@),
    {
        template.resolve(self.0.as_str())
    }
}

} // verus!
