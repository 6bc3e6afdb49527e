//! The WordPiece decoder: joins pieces with spaces, removes the
//! continuation prefix so word-internal pieces attach to their word, and
//! optionally fixes the spacing that surrounds punctuation and common
//! English contractions.

use vstd::prelude::*;
use crate::chars::{chars_to_string, replace_all, replace_from, str_to_chars};
use crate::decoders::{join_spaces, join_with_spaces};

verus! {

/// Strips the continuation prefix and joins pieces.
#[derive(Debug)]
pub struct WordPiece {
    pub prefix: String,
    pub cleanup: bool,
}

/// The fixed spacing rules applied by `cleanup`, in order: each rule
/// replaces every occurrence of its first sequence by its second.
pub open spec fn cleanup_chain(s: Seq<char>) -> Seq<char> {
    let s1 = replace_from(s, seq![' ', '.'], seq!['.'], 0);
    let s2 = replace_from(s1, seq![' ', '?'], seq!['?'], 0);
    let s3 = replace_from(s2, seq![' ', '!'], seq!['!'], 0);
    let s4 = replace_from(s3, seq![' ', ','], seq![','], 0);
    let s5 = replace_from(s4, seq![' ', '\'', ' '], seq!['\''], 0);
    let s6 = replace_from(s5, seq![' ', 'n', '\'', 't'], seq!['n', '\'', 't'], 0);
    let s7 = replace_from(s6, seq![' ', '\'', 'm'], seq!['\'', 'm'], 0);
    let s8 = replace_from(s7, seq![' ', '\'', 's'], seq!['\'', 's'], 0);
    let s9 = replace_from(s8, seq![' ', '\'', 'v', 'e'], seq!['\'', 'v', 'e'], 0);
    replace_from(s9, seq![' ', '\'', 'r', 'e'], seq!['\'', 'r', 'e'], 0)
}

/// What decoding yields: the pieces joined with spaces, every space
/// followed by the continuation prefix removed, and, under `cleanup`, the
/// fixed spacing rules applied.
pub open spec fn wordpiece_decode_spec(ts: Seq<Seq<char>>, prefix: Seq<char>, cleanup: bool) -> Seq<
    char,
> {
    let joined = join_spaces(ts);
    let stripped = replace_from(joined, seq![' '] + prefix, Seq::empty(), 0);
    if cleanup {
        cleanup_chain(stripped)
    } else {
        stripped
    }
}

impl WordPiece {
    /// A decoder with the given continuation prefix.
    pub fn new(prefix: String, cleanup: bool) -> (r: WordPiece)
        ensures
            r.prefix == prefix,
            r.cleanup == cleanup,
    {
        WordPiece { prefix, cleanup }
    }

    /// Joins the pieces with spaces, removes every space-plus-prefix so
    /// continuing pieces attach to their word, and, when configured,
    /// cleans the spacing around punctuation.
    pub fn decode(&self, tokens: Vec<String>) -> (r: String)
        ensures
            r@ == wordpiece_decode_spec(tokens.deep_view(), self.prefix@, self.cleanup),
    {
        let mut chars: Vec<Vec<char>> = Vec::new();
        let mut k: usize = 0;
        while k < tokens.len()
            invariant
                k <= tokens@.len(),
                chars@.len() == k,
                forall|j: int| 0 <= j < k ==> #[trigger] chars@[j]@ == tokens@[j]@,
            decreases tokens@.len() - k,
        {
            chars.push(str_to_chars(tokens[k].as_str()));
            k += 1;
        }
        proof {
            assert(chars.deep_view() =~~= tokens.deep_view());
        }
        let joined = join_with_spaces(&chars);
        let mut pat: Vec<char> = Vec::new();
        pat.push(' ');
        let mut prefix_chars = str_to_chars(self.prefix.as_str());
        pat.append(&mut prefix_chars);
        proof {
            assert(pat@ =~= seq![' '] + self.prefix@);
        }
        let rep: Vec<char> = Vec::new();
        let stripped = replace_all(&joined, &pat, &rep);
        if !self.cleanup {
            return chars_to_string(&stripped);
        }
        let pat_dot: Vec<char> = vec![' ', '.'];
        let rep_dot: Vec<char> = vec!['.'];
        proof {
            assert(pat_dot@ =~= seq![' ', '.']);
            assert(rep_dot@ =~= seq!['.']);
        }
        let s1 = replace_all(&stripped, &pat_dot, &rep_dot);
        let pat_qm: Vec<char> = vec![' ', '?'];
        let rep_qm: Vec<char> = vec!['?'];
        proof {
            assert(pat_qm@ =~= seq![' ', '?']);
            assert(rep_qm@ =~= seq!['?']);
        }
        let s2 = replace_all(&s1, &pat_qm, &rep_qm);
        let pat_em: Vec<char> = vec![' ', '!'];
        let rep_em: Vec<char> = vec!['!'];
        proof {
            assert(pat_em@ =~= seq![' ', '!']);
            assert(rep_em@ =~= seq!['!']);
        }
        let s3 = replace_all(&s2, &pat_em, &rep_em);
        let pat_comma: Vec<char> = vec![' ', ','];
        let rep_comma: Vec<char> = vec![','];
        proof {
            assert(pat_comma@ =~= seq![' ', ',']);
            assert(rep_comma@ =~= seq![',']);
        }
        let s4 = replace_all(&s3, &pat_comma, &rep_comma);
        let pat_quote: Vec<char> = vec![' ', '\'', ' '];
        let rep_quote: Vec<char> = vec!['\''];
        proof {
            assert(pat_quote@ =~= seq![' ', '\'', ' ']);
            assert(rep_quote@ =~= seq!['\'']);
        }
        let s5 = replace_all(&s4, &pat_quote, &rep_quote);
        let pat_nt: Vec<char> = vec![' ', 'n', '\'', 't'];
        let rep_nt: Vec<char> = vec!['n', '\'', 't'];
        proof {
            assert(pat_nt@ =~= seq![' ', 'n', '\'', 't']);
            assert(rep_nt@ =~= seq!['n', '\'', 't']);
        }
        let s6 = replace_all(&s5, &pat_nt, &rep_nt);
        let pat_m: Vec<char> = vec![' ', '\'', 'm'];
        let rep_m: Vec<char> = vec!['\'', 'm'];
        proof {
            assert(pat_m@ =~= seq![' ', '\'', 'm']);
            assert(rep_m@ =~= seq!['\'', 'm']);
        }
        let s7 = replace_all(&s6, &pat_m, &rep_m);
        let pat_s: Vec<char> = vec![' ', '\'', 's'];
        let rep_s: Vec<char> = vec!['\'', 's'];
        proof {
            assert(pat_s@ =~= seq![' ', '\'', 's']);
            assert(rep_s@ =~= seq!['\'', 's']);
        }
        let s8 = replace_all(&s7, &pat_s, &rep_s);
        let pat_ve: Vec<char> = vec![' ', '\'', 'v', 'e'];
        let rep_ve: Vec<char> = vec!['\'', 'v', 'e'];
        proof {
            assert(pat_ve@ =~= seq![' ', '\'', 'v', 'e']);
            assert(rep_ve@ =~= seq!['\'', 'v', 'e']);
        }
        let s9 = replace_all(&s8, &pat_ve, &rep_ve);
        let pat_re: Vec<char> = vec![' ', '\'', 'r', 'e'];
        let rep_re: Vec<char> = vec!['\'', 'r', 'e'];
        proof {
            assert(pat_re@ =~= seq![' ', '\'', 'r', 'e']);
            assert(rep_re@ =~= seq!['\'', 'r', 'e']);
        }
        let s10 = replace_all(&s9, &pat_re, &rep_re);
        chars_to_string(&s10)
    }
}

impl Default for WordPiece {
    /// The conventional configuration: the double-hash prefix, with
    /// cleanup on.
    fn default() -> (r: WordPiece)
        ensures
            r.prefix@ == "##"@,
            r.cleanup == true,
    {
        WordPiece { prefix: <String as vstd::string::StringExecFns>::from_str("##"), cleanup: true }
    }
}

} // verus!
