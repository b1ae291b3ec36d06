use vstd::prelude::*;

verus! {

broadcast use vstd::string::axiom_spec_iter;

/// Where the token open after the first `n` characters of `s` began, if one is
/// open. Outside a token a `<` opens one; inside a token every character but
/// `>` belongs to it, and `>` closes it.
pub open spec fn open_at(s: Seq<char>, n: int) -> Option<int>
    decreases n,
{
    if n <= 0 {
        None
    } else {
        match open_at(s, n - 1) {
            None => if s[n - 1] == '<' {
                Some(n - 1)
            } else {
                None
            },
            Some(a) => if s[n - 1] == '>' {
                None
            } else {
                Some(a)
            },
        }
    }
}

/// The tokens closed within the first `n` characters of `s`, in order: each `>`
/// that meets an open token closes the text strictly between it and the `<`
/// that opened the token.
pub open spec fn tokens_upto(s: Seq<char>, n: int) -> Seq<Seq<char>>
    decreases n,
{
    if n <= 0 {
        seq![]
    } else {
        let before = tokens_upto(s, n - 1);
        if s[n - 1] == '>' {
            match open_at(s, n - 1) {
                Some(a) => before.push(s.subrange(a + 1, n - 1)),
                None => before,
            }
        } else {
            before
        }
    }
}

/// All tokens of `s`, scanned left to right: each runs from a `<` to the first
/// `>` after it; a `>` outside a token is plain text.
pub open spec fn tokens(s: Seq<char>) -> Seq<Seq<char>> {
    tokens_upto(s, s.len() as int)
}

/// Relies on `String::push`: appends one character at the end.
#[verifier::external_body]
fn push_char(s: &mut String, c: char)
    ensures
        final(s)@ == old(s)@.push(c),
{
    s.push(c);
}

/// The tag tokens of `text`, in order of appearance. `<>` yields an empty token.
pub fn extract(text: &str) -> (r: Vec<String>)
    ensures
        r@.map_values(|t: String| t@) == tokens(text@),
{
    let ghost s = text@;
    let mut out: Vec<String> = Vec::new();
    let mut open: bool = false;
    let mut current = String::new();
    let ghost mut start: int = 0;
    for c in it: text.chars()
        invariant
            it.seq() == s,
            0 <= it.index() <= s.len(),
            out@.map_values(|t: String| t@) == tokens_upto(s, it.index() as int),
            open <==> open_at(s, it.index() as int) is Some,
            open ==> open_at(s, it.index() as int) == Some(start),
            open ==> 0 <= start < it.index() && current@ == s.subrange(start + 1, it.index() as int),
    {
        let ghost i: int = it.index() as int;
        assert(c == s[i]);
        if open {
            if c == '>' {
                let token = current;
                current = String::new();
                proof {
                    assert(out@.push(token).map_values(|t: String| t@) =~= out@.map_values(
                        |t: String| t@,
                    ).push(token@));
                }
                out.push(token);
                open = false;
            } else {
                push_char(&mut current, c);
                proof {
                    assert(s.subrange(start + 1, i + 1) =~= s.subrange(start + 1, i).push(c));
                }
            }
        } else if c == '<' {
            open = true;
            current = String::new();
            proof {
                start = i;
                assert(s.subrange(start + 1, i + 1) =~= Seq::<char>::empty());
            }
        }
    }
    out
}

} // verus!
