//! The byte-pair decoder: strips a configured end-of-word suffix marker
//! from each token and joins the results with spaces.

use vstd::prelude::*;
use crate::chars::{chars_to_string, match_at, str_to_chars};
use crate::decoders::{join_spaces, join_with_spaces};

verus! {

/// Strips an end-of-word suffix and joins with spaces.
#[derive(Debug)]
pub struct BPEDecoder {
    pub suffix: String,
}

/// The token with a trailing `sfx` removed, if one is there.
pub open spec fn strip_suffix(t: Seq<char>, sfx: Seq<char>) -> Seq<char> {
    if sfx.len() <= t.len() && t.subrange(t.len() - sfx.len(), t.len() as int) == sfx {
        t.take(t.len() - sfx.len())
    } else {
        t
    }
}

/// What decoding yields: each token with the suffix stripped, joined with
/// spaces.
pub open spec fn bpe_decode_spec(ts: Seq<Seq<char>>, sfx: Seq<char>) -> Seq<char> {
    join_spaces(Seq::new(ts.len(), |k: int| strip_suffix(ts[k], sfx)))
}

impl BPEDecoder {
    /// A decoder with the given end-of-word suffix.
    pub fn new(suffix: String) -> (r: BPEDecoder)
        ensures
            r.suffix == suffix,
    {
        BPEDecoder { suffix }
    }

    /// Strips the end-of-word suffix from each token and joins the tokens
    /// with spaces.
    pub fn decode(&self, tokens: Vec<String>) -> (r: String)
        ensures
            r@ == bpe_decode_spec(tokens.deep_view(), self.suffix@),
    {
        let sfx = str_to_chars(self.suffix.as_str());
        let mut stripped: Vec<Vec<char>> = Vec::new();
        let mut k: usize = 0;
        while k < tokens.len()
            invariant
                k <= tokens@.len(),
                sfx@ == self.suffix@,
                stripped@.len() == k,
                forall|j: int|
                    0 <= j < k ==> #[trigger] stripped@[j]@ == strip_suffix(
                        tokens@[j]@,
                        self.suffix@,
                    ),
            decreases tokens@.len() - k,
        {
            let mut t = str_to_chars(tokens[k].as_str());
            let tl = t.len();
            let sl = sfx.len();
            if sl <= tl && match_at(&t, &sfx, tl - sl) {
                t.truncate(tl - sl);
            }
            stripped.push(t);
            k += 1;
        }
        proof {
            assert(stripped.deep_view() =~~= Seq::new(
                tokens.deep_view().len(),
                |k: int| strip_suffix(tokens.deep_view()[k], self.suffix@),
            ));
        }
        let joined = join_with_spaces(&stripped);
        chars_to_string(&joined)
    }
}

impl Default for BPEDecoder {
    /// The conventional end-of-word marker.
    fn default() -> (r: BPEDecoder)
        ensures
            r.suffix@ == "</w>"@,
    {
        BPEDecoder { suffix: <String as vstd::string::StringExecFns>::from_str("</w>") }
    }
}

} // verus!
