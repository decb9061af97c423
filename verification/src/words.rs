//! Word counting for the timing simulator.
//!
//! A "word count" here is a fast approximation: the number of delimiter
//! characters in the text plus one. The exact delimiter set matters, because
//! the pacing delays derived from these counts are meant to stay stable.

use vstd::prelude::*;

verus! {

/// The characters that separate "words" for pacing purposes.
pub open spec fn is_word_delimiter(c: char) -> bool {
    ||| c == ' '
    ||| c == '\n'
    ||| c == '\t'
    ||| c == '\r'
    ||| c == ','
    ||| c == '.'
    ||| c == '!'
    ||| c == '?'
    ||| c == ':'
    ||| c == ';'
    ||| c == '('
    ||| c == ')'
    ||| c == '"'
    ||| c == '\''
}

/// Number of delimiter characters occurring in `s`.
pub open spec fn delimiter_count(s: Seq<char>) -> nat
    decreases s.len(),
{
    if s.len() == 0 {
        0
    } else {
        delimiter_count(s.drop_last()) + if is_word_delimiter(s.last()) {
            1nat
        } else {
            0nat
        }
    }
}

/// The word count of a text: one more than the number of delimiters,
/// so that the empty text still counts as one word.
pub open spec fn spec_word_count(s: Seq<char>) -> nat {
    delimiter_count(s) + 1
}

fn is_delimiter_char(c: char) -> (r: bool)
    ensures
        r == is_word_delimiter(c),
{
    c == ' ' || c == '\n' || c == '\t' || c == '\r' || c == ',' || c == '.' || c == '!' || c == '?'
        || c == ':' || c == ';' || c == '(' || c == ')' || c == '"' || c == '\''
}

/// Word count of a text, exactly `spec_word_count`.
pub fn word_count(text: &str) -> (n: usize)
    requires
        text@.len() < usize::MAX,
    ensures
        n == spec_word_count(text@),
{
    let len = text.unicode_len();
    let mut count: usize = 0;
    let mut i: usize = 0;
    while i < len
        invariant
            i <= len,
            len == text@.len(),
            len < usize::MAX,
            count == delimiter_count(text@.subrange(0, i as int)),
            count <= i,
        decreases len - i,
    {
        let c = text.get_char(i);
        if is_delimiter_char(c) {
            count = count + 1;
        }
        i = i + 1;
        proof {
            let prefix = text@.subrange(0, i as int);
            assert(prefix.drop_last() =~= text@.subrange(0, i - 1));
            assert(prefix.last() == text@[i - 1]);
        }
    }
    proof {
        assert(text@.subrange(0, len as int) =~= text@);
    }
    count + 1
}

} // verus!
