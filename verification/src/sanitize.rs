//! File-name sanitization: strips the characters that capture targets may
//! not carry in a file name.

use vstd::prelude::*;
use vstd::string::*;

verus! {

/// The character survives sanitization: it is none of `|`, `\`, `:`, `/`.
pub open spec fn is_kept_char(c: char) -> bool {
    c != '|' && c != '\\' && c != ':' && c != '/'
}

/// `s` with every `|`, `\`, `:` and `/` removed, in order.
pub open spec fn kept_chars(s: Seq<char>) -> Seq<char> {
    s.filter(|c: char| is_kept_char(c))
}

/// Relies on `String: FromIterator<char>`: collecting characters yields the
/// string of exactly those characters, in order.
#[verifier::external_body]
fn string_from_chars(chars: &Vec<char>) -> (r: String)
    ensures
        r@ == chars@,
{
    chars.iter().collect()
}

/// Removes `|`, `\`, `:` and `/` from a file name.
pub fn normalized(filename: &str) -> (r: String)
    ensures
        r@ == kept_chars(filename@),
{
    let n = filename.unicode_len();
    let mut kept: Vec<char> = Vec::new();
    let mut i: usize = 0;
    while i < n
        invariant
            n == filename@.len(),
            i <= n,
            kept@ == kept_chars(filename@.take(i as int)),
        decreases n - i,
    {
        let c = filename.get_char(i);
        proof {
            reveal(Seq::filter);
            assert(filename@.take(i + 1).drop_last() =~= filename@.take(i as int));
            assert(filename@.take(i + 1).last() == filename@[i as int]);
        }
        if c != '|' && c != '\\' && c != ':' && c != '/' {
            kept.push(c);
        }
        i += 1;
    }
    proof {
        assert(filename@.take(n as int) =~= filename@);
    }
    string_from_chars(&kept)
}

} // verus!
