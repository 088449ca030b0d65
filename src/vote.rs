//! The `/vote` directives of operator comments.
use vstd::prelude::*;
use vstd::string::*;
use crate::poll::{ConvertError, Poll, PollModel, views};
use crate::text::{eq_chars, chars_of, replace_all, replace_seq};

verus! {

/// The words of `s` as a POSIX shell splits them, `None` when its quoting is
/// unbalanced or it ends in an escape.
pub uninterp spec fn shell_words(s: Seq<char>) -> Option<Seq<Seq<char>>>;

/// Relies on `shlex::split`: splits a command line into words by shell
/// rules; the result depends on the text alone.
#[verifier::external_body]
fn split_words(s: &str) -> (r: Option<Vec<String>>)
    ensures
        match r {
            Some(v) => shell_words(s@) == Some(v@.map_values(|w: String| w@)),
            None => shell_words(s@) is None,
        },
{
    shlex::split(s)
}

/// The words of a directive with every backslash taken out.
pub open spec fn unescaped(words: Seq<Seq<char>>) -> Seq<Seq<char>> {
    words.map_values(|w: Seq<char>| replace_all(w, seq!['\\'], Seq::<char>::empty()))
}

/// An operator comment that is a `/vote` directive.
pub open spec fn is_vote_directive(s: Seq<char>) -> bool {
    s.len() >= 5 && s.subrange(0, 5) == "/vote"@
}

/// A `/vote stop` directive: it closes the open poll, as any other operator
/// comment does, and is otherwise consumed.
pub open spec fn is_vote_stop(s: Seq<char>) -> bool {
    s.len() >= 10 && s.subrange(0, 10) == "/vote stop"@
}

/// The open poll after a directive made of `words`, given at `vpos`:
/// `start` opens a poll with a question and at least one option,
/// `showresult` records the results of the open poll, anything else is
/// ignored. `Err` when the words that the kind needs are missing.
pub open spec fn apply_vote(poll: Option<PollModel>, w: Seq<Seq<char>>, vpos: nat) -> Result<
    Option<PollModel>,
    ConvertError,
> {
    if w.len() < 2 {
        Err(ConvertError::VoteSyntax)
    } else if w[1] == "start"@ {
        if w.len() < 4 {
            Err(ConvertError::VoteSyntax)
        } else {
            Ok(
                Some(
                    PollModel {
                        start: vpos,
                        question: w[2],
                        options: w.subrange(3, w.len() as int),
                        results: Seq::<Seq<char>>::empty(),
                        result_start: 0,
                    },
                ),
            )
        }
    } else if w[1] == "showresult"@ {
        if w.len() < 3 {
            Err(ConvertError::VoteSyntax)
        } else {
            Ok(
                match poll {
                    Some(p) => Some(
                        PollModel { results: w.subrange(3, w.len() as int), result_start: vpos, ..p },
                    ),
                    None => None,
                },
            )
        }
    } else {
        Ok(poll)
    }
}

pub open spec fn poll_view(p: Option<Poll>) -> Option<PollModel> {
    match p {
        Some(q) => Some(q.view()),
        None => None,
    }
}

/// Applies a directive whose words `words` (as the shell splits them) were
/// given at `vpos` to the open poll.
pub fn vote_directive(poll: &mut Option<Poll>, words: &Vec<String>, vpos: u64) -> (r: Result<(), ConvertError>)
    requires
        *old(poll) matches Some(p) ==> p.options@.len() >= 1,
    ensures
        match apply_vote(poll_view(*old(poll)), unescaped(words@.map_values(|w: String| w@)), vpos as nat) {
            Ok(p) => r is Ok && poll_view(*final(poll)) == p,
            Err(e) => r == Err::<(), ConvertError>(e),
        },
        *final(poll) matches Some(p) ==> p.options@.len() >= 1,
{
    let ghost ws = unescaped(words@.map_values(|w: String| w@));
    let bs: Vec<char> = vec!['\\'];
    let empty: Vec<char> = Vec::new();
    let mut w: Vec<Vec<char>> = Vec::new();
    let mut i: usize = 0;
    while i < words.len()
        invariant
            bs@ == seq!['\\'],
            empty@ == Seq::<char>::empty(),
            ws == unescaped(words@.map_values(|w: String| w@)),
            i <= words@.len(),
            w@.len() == i,
            forall|j: int| 0 <= j < i ==> (#[trigger] w@[j])@ == ws[j],
        decreases words@.len() - i,
    {
        w.push(replace_seq(&chars_of(words[i].as_str()), &bs, &empty));
        i = i + 1;
    }
    assert(views(w@) =~= ws);
    if w.len() < 2 {
        return Err(ConvertError::VoteSyntax);
    }
    if eq_chars(&w[1], &chars_of("start")) {
        if w.len() < 4 {
            return Err(ConvertError::VoteSyntax);
        }
        let mut options: Vec<Vec<char>> = Vec::new();
        let mut k: usize = 3;
        while k < w.len()
            invariant
                3 <= k <= w@.len(),
                views(w@) == ws,
                options@.len() == k - 3,
                forall|j: int| 0 <= j < k - 3 ==> (#[trigger] options@[j])@ == ws[j + 3],
            decreases w@.len() - k,
        {
            options.push(w[k].clone());
            k = k + 1;
        }
        assert(views(options@) =~= ws.subrange(3, ws.len() as int));
        let no_results: Vec<Vec<char>> = Vec::new();
        assert(views(no_results@) =~= Seq::<Seq<char>>::empty());
        *poll = Some(
            Poll {
                start: vpos,
                question: w[2].clone(),
                options,
                results: no_results,
                result_start: 0,
            },
        );
        return Ok(());
    }
    if eq_chars(&w[1], &chars_of("showresult")) {
        if w.len() < 3 {
            return Err(ConvertError::VoteSyntax);
        }
        let mut results: Vec<Vec<char>> = Vec::new();
        let mut k: usize = 3;
        while k < w.len()
            invariant
                3 <= k <= w@.len(),
                views(w@) == ws,
                results@.len() == k - 3,
                forall|j: int| 0 <= j < k - 3 ==> (#[trigger] results@[j])@ == ws[j + 3],
            decreases w@.len() - k,
        {
            results.push(w[k].clone());
            k = k + 1;
        }
        assert(views(results@) =~= ws.subrange(3, ws.len() as int));
        match poll {
            Some(p) => {
                p.results = results;
                p.result_start = vpos;
            },
            None => {},
        }
        return Ok(());
    }
    Ok(())
}

/// Splits an operator's `/vote` directive into words and applies it to the
/// open poll; `Err` when it cannot be split or lacks words.
pub fn vote_comment(poll: &mut Option<Poll>, content: &String, vpos: u64) -> (r: Result<(), ConvertError>)
    requires
        *old(poll) matches Some(p) ==> p.options@.len() >= 1,
    ensures
        match shell_words(content@) {
            None => r == Err::<(), ConvertError>(ConvertError::VoteSyntax),
            Some(ws) => match apply_vote(poll_view(*old(poll)), unescaped(ws), vpos as nat) {
                Ok(p) => r is Ok && poll_view(*final(poll)) == p,
                Err(e) => r == Err::<(), ConvertError>(e),
            },
        },
        *final(poll) matches Some(p) ==> p.options@.len() >= 1,
{
    match split_words(content.as_str()) {
        None => Err(ConvertError::VoteSyntax),
        Some(words) => vote_directive(poll, &words, vpos),
    }
}

} // verus!
