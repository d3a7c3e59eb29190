//! Source-text normalisation: the document file arrives with platform
//! line endings, and the layout wants one long space-separated text, so
//! every line ending becomes a single space.

use vstd::prelude::*;

verus! {

/// `text` with every line ending replaced by one space: `\r\n` counts as
/// one ending, and a lone `\r` or `\n` as one each.
pub open spec fn strip_newlines(text: Seq<char>) -> Seq<char>
    decreases text.len(),
{
    if text.len() == 0 {
        Seq::empty()
    } else if text[0] == '\r' && text.len() >= 2 && text[1] == '\n' {
        seq![' '] + strip_newlines(text.skip(2))
    } else if text[0] == '\r' || text[0] == '\n' {
        seq![' '] + strip_newlines(text.skip(1))
    } else {
        seq![text[0]] + strip_newlines(text.skip(1))
    }
}

/// Relies on String::push: appends one character to the string.
#[verifier::external_body]
fn push_char(s: &mut String, c: char)
    ensures
        final(s)@ == old(s)@.push(c),
{
    s.push(c);
}

/// The characters of `s`, as a vector.
pub fn chars_of_str(s: &str) -> (v: Vec<char>)
    ensures
        v@ == s@,
{
    let n = s.unicode_len();
    let mut v: Vec<char> = Vec::new();
    let mut i: usize = 0;
    proof {
        assert(v@ =~= s@.take(0));
    }
    while i < n
        invariant
            i <= n,
            n == s@.len(),
            v@ == s@.take(i as int),
        decreases n - i,
    {
        let c = s.get_char(i);
        v.push(c);
        proof {
            assert(v@ =~= s@.take(i + 1));
        }
        i = i + 1;
    }
    proof {
        assert(s@.take(n as int) =~= s@);
    }
    v
}

/// Replaces every line ending of `text` — `\r\n`, lone `\r`, lone `\n` —
/// with a single space, so that the text reads as one line.
pub fn remove_all_newlines(text: &str) -> (r: String)
    ensures
        r@ == strip_newlines(text@),
{
    let chars = chars_of_str(text);
    let n = chars.len();
    let mut out = String::new();
    let mut i: usize = 0;
    proof {
        assert(text@.skip(0) =~= text@);
        assert(out@ + strip_newlines(text@) =~= strip_newlines(text@));
    }
    while i < n
        invariant
            i <= n,
            n == chars@.len(),
            chars@ == text@,
            strip_newlines(text@) == out@ + strip_newlines(text@.skip(i as int)),
        decreases n - i,
    {
        let c = chars[i];
        let ghost rem = text@.skip(i as int);
        proof {
            assert(rem[0] == c);
            assert(rem.skip(1) =~= text@.skip(i + 1));
        }
        if c == '\r' {
            if i + 1 < n && chars[i + 1] == '\n' {
                proof {
                    assert(rem[1] == text@[i + 1]);
                    assert(rem.skip(2) =~= text@.skip(i + 2));
                }
                push_char(&mut out, ' ');
                proof {
                    assert(out@ + strip_newlines(text@.skip(i + 2)) =~= (out@.drop_last()
                        + (seq![' '] + strip_newlines(rem.skip(2)))));
                }
                i = i + 2;
            } else {
                proof {
                    if rem.len() >= 2 {
                        assert(rem[1] == text@[i + 1]);
                    }
                }
                push_char(&mut out, ' ');
                proof {
                    assert(out@ + strip_newlines(text@.skip(i + 1)) =~= (out@.drop_last()
                        + (seq![' '] + strip_newlines(rem.skip(1)))));
                }
                i = i + 1;
            }
        } else if c == '\n' {
            push_char(&mut out, ' ');
            proof {
                assert(out@ + strip_newlines(text@.skip(i + 1)) =~= (out@.drop_last() + (seq![' ']
                    + strip_newlines(rem.skip(1)))));
            }
            i = i + 1;
        } else {
            push_char(&mut out, c);
            proof {
                assert(out@ + strip_newlines(text@.skip(i + 1)) =~= (out@.drop_last() + (seq![c]
                    + strip_newlines(rem.skip(1)))));
            }
            i = i + 1;
        }
    }
    proof {
        assert(text@.skip(n as int) =~= Seq::<char>::empty());
        assert(out@ + strip_newlines(text@.skip(n as int)) =~= out@);
    }
    out
}

} // verus!
