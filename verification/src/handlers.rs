use vstd::prelude::*;

use vstd::string::StringSliceAdditionalSpecFns;

use crate::text::{
    count_words, is_printable_word, lemma_graphic_bytes_one_word, lemma_graphic_bytes_text,
    lemma_two_words, lemma_visible_text_of_bytes, lemma_words_of_bytes_printable, scan_words,
    split_words, visible_text, word_count,
};
use crate::types::{ExecutionOutput, ExecutionState, Tensor, TensorDType, Tier, UsageInfo, UsageStats};

verus! {

/// Two bytes packed into one token as `low | high << 8` on eight bits, where
/// the shift by the token's whole width wraps around to a shift by zero: the
/// token is `low | high`.
pub open spec fn pack_pair(low: u8, high: u8) -> u8 {
    low | high
}

/// The tokens of a byte string: each pair of bytes packed into one token,
/// and a last odd byte taken as it is.
pub open spec fn token_bytes(bytes: Seq<u8>) -> Seq<u8> {
    Seq::new(
        ((bytes.len() + 1) / 2) as nat,
        |i: int|
            if 2 * i + 1 < bytes.len() {
                pack_pair(bytes[2 * i], bytes[2 * i + 1])
            } else {
                bytes[2 * i]
            },
    )
}

fn pack_pair_exec(low: u8, high: u8) -> (r: u8)
    ensures
        r == pack_pair(low, high),
{
    let lo: u8 = low & 0xff;
    let hi: u8 = (high & 0xff).wrapping_shl(8);
    assert((low & 0xff) == low && ((high & 0xff) << (8u32 % 8u32)) == high) by (bit_vector);
    lo | hi
}

/// Turns a prompt into an `INT8` tensor of shape `[1, n]` holding the tokens
/// of its UTF-8 bytes.
pub fn tokenize(text: &str) -> (t: Tensor)
    ensures
        t.data@ == token_bytes(text.spec_bytes()),
        t.shape@ == seq![1u32, #[verifier::truncate] (t.data@.len() as u32)],
        t.dtype == TensorDType::INT8,
{
    let bytes = text.as_bytes();
    let n = bytes.len();
    let ghost src = text.spec_bytes();
    let mut data: Vec<u8> = Vec::new();
    let mut i: usize = 0;
    while i < n && n - i >= 2
        invariant
            bytes@ == src,
            n == src.len(),
            i == 2 * data@.len(),
            i <= n,
            forall|k: int| 0 <= k < data@.len() ==> data@[k] == token_bytes(src)[k],
        decreases n - i,
    {
        data.push(pack_pair_exec(bytes[i], bytes[i + 1]));
        i = i + 2;
    }
    if i < n {
        data.push(bytes[i]);
    }
    assert(data@ =~= token_bytes(src));
    let len = data.len();
    Tensor { data, shape: vec![1, #[verifier::truncate] (len as u32)], dtype: TensorDType::INT8 }
}


/// The words a generated tensor shows: the words of its printable text, or
/// the single placeholder `[generated]` when it shows none.
pub open spec fn detokenized(data: Seq<u8>) -> Seq<Seq<char>> {
    let words = split_words(visible_text(data));
    if words.len() == 0 {
        seq!["[generated]"@]
    } else {
        words
    }
}

/// The words a tensor of generated tokens shows: each byte read as 7-bit
/// ASCII, non-printable ones dropped, and the text split at spaces; the
/// placeholder `[generated]` stands for a tensor that shows no word.
pub fn detokenize(tensor: &Tensor) -> (words: Vec<String>)
    ensures
        words@.map_values(|w: String| w@) == detokenized(tensor.data@),
{
    let data = &tensor.data;
    let n = data.len();
    let mut done: Vec<String> = Vec::new();
    let mut cur = String::new();
    let mut i: usize = 0;
    while i < n
        invariant
            n == data@.len(),
            i <= n,
            (done@.map_values(|w: String| w@), cur@) == scan_words(visible_text(data@.take(i as int))),
        decreases n - i,
    {
        let ghost prefix = data@.take(i as int);
        let ghost text = visible_text(prefix);
        assert(data@.take(i + 1).drop_last() =~= prefix);
        let c: u8 = data[i] & 0x7f;
        if (0x21 <= c && c <= 0x7e) || c == 0x20 {
            let ch = c as char;
            assert(text.push(ch).drop_last() =~= text);
            if c == 0x20 {
                if !cur.as_str().is_empty() {
                    let word = cur;
                    cur = String::new();
                    let ghost before = done@;
                    done.push(word);
                    assert(done@.map_values(|w: String| w@) =~= before.map_values(|w: String| w@).push(word@));
                }
            } else {
                cur.push(ch);
            }
        }
        i = i + 1;
    }
    assert(data@.take(n as int) =~= data@);
    if !cur.as_str().is_empty() {
        let ghost before = done@;
        let word = cur;
        done.push(word);
        assert(done@.map_values(|w: String| w@) =~= before.map_values(|w: String| w@).push(word@));
    }
    if done.len() == 0 {
        let placeholder = String::from_str("[generated]");
        let mut single: Vec<String> = Vec::new();
        single.push(placeholder);
        proof {
            reveal_strlit("[generated]");
        }
        assert(single@.map_values(|w: String| w@) =~= seq!["[generated]"@]);
        single
    } else {
        done
    }
}


impl UsageInfo {
    /// The usage reported for a request: the prompt's white-space separated
    /// words, kept to 32 bits, the tokens generated, and their sum.
    pub fn for_request(prompt: &str, completion_tokens: u32) -> (u: UsageInfo)
        requires
            (word_count(prompt@) as u32) + completion_tokens <= u32::MAX,
        ensures
            u.prompt_tokens == word_count(prompt@) as u32,
            u.completion_tokens == completion_tokens,
            u.total_tokens == u.prompt_tokens + completion_tokens,
    {
        let prompt_tokens = #[verifier::truncate] (count_words(prompt) as u32);
        UsageInfo {
            prompt_tokens,
            completion_tokens,
            total_tokens: prompt_tokens + completion_tokens,
        }
    }
}

/// The tiers a node serves requests for.
pub fn supported_tiers() -> (tiers: [Tier; 4])
    ensures
        tiers@ == seq![Tier::Nano, Tier::Standard, Tier::Pro, Tier::Max],
{
    let tiers = [Tier::Nano, Tier::Standard, Tier::Pro, Tier::Max];
    assert(tiers@ =~= seq![Tier::Nano, Tier::Standard, Tier::Pro, Tier::Max]);
    tiers
}

/// An inference run in progress: how many steps it runs, the generation
/// state handed to each step, and the tokens the steps produced so far.
pub struct InferenceRun {
    pub max_tokens: u32,
    pub exec_state: ExecutionState,
    pub tokens: Vec<String>,
}

impl InferenceRun {
    /// A run of `max_tokens` steps that has not started.
    pub fn new(max_tokens: u32) -> (run: Self)
        ensures
            run.max_tokens == max_tokens,
            run.exec_state.position == 0,
            run.tokens@ == Seq::<String>::empty(),
    {
        InferenceRun { max_tokens, exec_state: ExecutionState { position: 0 }, tokens: Vec::new() }
    }

    /// The index of the next step to run, or `None` once every step ran.
    pub fn next_step(&self) -> (step: Option<u32>)
        ensures
            step == if self.exec_state.position < self.max_tokens {
                Some(self.exec_state.position)
            } else {
                None::<u32>
            },
    {
        if self.exec_state.position < self.max_tokens {
            Some(self.exec_state.position)
        } else {
            None
        }
    }

    /// Takes in the tokens one step produced: they follow the tokens gathered
    /// so far, and the run moves on to its next position.
    pub fn absorb_step(&mut self, step_tokens: Vec<String>)
        requires
            old(self).exec_state.position < old(self).max_tokens,
        ensures
            final(self).tokens@ == old(self).tokens@ + step_tokens@,
            final(self).exec_state.position == old(self).exec_state.position + 1,
            final(self).max_tokens == old(self).max_tokens,
    {
        let mut step_tokens = step_tokens;
        self.tokens.append(&mut step_tokens);
        self.exec_state.position = self.exec_state.position + 1;
    }

    /// What the run produced: every gathered token, and a usage of as many
    /// generated tokens as the run has steps.
    pub fn finish(self) -> (out: ExecutionOutput)
        ensures
            out.tokens@ == self.tokens@,
            out.usage.tokens_generated == self.max_tokens,
    {
        ExecutionOutput { tokens: self.tokens, usage: UsageStats { tokens_generated: self.max_tokens } }
    }
}


/// A byte string has half as many tokens as bytes, rounded up. The token of
/// a pair is the bitwise or of its two bytes: it keeps every bit set in either
/// byte and sets no other bit. A last odd byte is its own token, and every
/// token stands at the position of its pair in the string.
pub proof fn lemma_tokens_combine_pairs(bytes: Seq<u8>)
    ensures
        token_bytes(bytes).len() == (bytes.len() + 1) / 2,
        forall|i: int|
            0 <= i < token_bytes(bytes).len() && 2 * i + 1 < bytes.len() ==> {
                &&& #[trigger] token_bytes(bytes)[i] & bytes[2 * i] == bytes[2 * i]
                &&& token_bytes(bytes)[i] & bytes[2 * i + 1] == bytes[2 * i + 1]
                &&& token_bytes(bytes)[i] & !(bytes[2 * i] | bytes[2 * i + 1]) == 0
                &&& token_bytes(bytes)[i] == bytes[2 * i] | bytes[2 * i + 1]
            },
        forall|i: int|
            0 <= i < token_bytes(bytes).len() && 2 * i + 1 == bytes.len() ==> #[trigger] token_bytes(
                bytes,
            )[i] == bytes[2 * i],
        bytes.len() % 2 == 1 ==> token_bytes(bytes).last() == bytes.last(),
{
    assert forall|i: int|
        0 <= i < token_bytes(bytes).len() && 2 * i + 1 < bytes.len() implies {
            &&& #[trigger] token_bytes(bytes)[i] & bytes[2 * i] == bytes[2 * i]
            &&& token_bytes(bytes)[i] & bytes[2 * i + 1] == bytes[2 * i + 1]
            &&& token_bytes(bytes)[i] & !(bytes[2 * i] | bytes[2 * i + 1]) == 0
            &&& token_bytes(bytes)[i] == bytes[2 * i] | bytes[2 * i + 1]
        } by {
        let lo = bytes[2 * i];
        let hi = bytes[2 * i + 1];
        let t = token_bytes(bytes)[i];
        assert(t == lo | hi);
        assert(t == lo | hi ==> (t & lo == lo && t & hi == hi && t & !(lo | hi) == 0))
            by (bit_vector);
    }
}

/// Reading generated tokens always gives at least one word, and every word
/// is non-empty printable 7-bit ASCII without spaces.
pub proof fn lemma_detokenized_words_printable(data: Seq<u8>)
    ensures
        detokenized(data).len() > 0,
        forall|i: int| 0 <= i < detokenized(data).len() ==> is_printable_word(#[trigger] detokenized(data)[i]),
{
    lemma_words_of_bytes_printable(data);
    if split_words(visible_text(data)).len() == 0 {
        reveal_strlit("[generated]");
        let w = "[generated]"@;
        assert(is_printable_word(w));
        assert(detokenized(data) =~= seq![w]);
    }
}

/// A generated tensor whose bytes all show graphic ASCII characters (their
/// low seven bits from `!` to `~`) reads back as the one word they spell.
pub proof fn lemma_detokenize_graphic_bytes(data: Seq<u8>)
    requires
        data.len() > 0,
        forall|i: int| 0 <= i < data.len() ==> 0x21 <= (#[trigger] data[i] & 0x7f) <= 0x7e,
    ensures
        detokenized(data) == seq![Seq::new(data.len(), |i: int| (data[i] & 0x7f) as char)],
{
    lemma_graphic_bytes_one_word(data);
}

/// Two runs of graphic bytes joined by a space byte read back as two words,
/// each spelled by its run.
pub proof fn lemma_detokenize_two_words(first: Seq<u8>, second: Seq<u8>)
    requires
        first.len() > 0,
        second.len() > 0,
        forall|i: int| 0 <= i < first.len() ==> 0x21 <= (#[trigger] first[i] & 0x7f) <= 0x7e,
        forall|i: int| 0 <= i < second.len() ==> 0x21 <= (#[trigger] second[i] & 0x7f) <= 0x7e,
    ensures
        detokenized(first.push(0x20) + second) == seq![
            Seq::new(first.len(), |i: int| (first[i] & 0x7f) as char),
            Seq::new(second.len(), |i: int| (second[i] & 0x7f) as char),
        ],
{
    let w1 = Seq::new(first.len(), |i: int| (first[i] & 0x7f) as char);
    let w2 = Seq::new(second.len(), |i: int| (second[i] & 0x7f) as char);
    lemma_graphic_bytes_one_word(first);
    lemma_graphic_bytes_one_word(second);
    lemma_graphic_bytes_text(first);
    lemma_graphic_bytes_text(second);
    lemma_visible_text_of_bytes(first, seq![0x20u8], 0x20u8);
    lemma_visible_text_of_bytes(first.push(0x20), second, 0x20u8);
    assert(first + seq![0x20u8] =~= first.push(0x20));
    assert(0x20u8 & 0x7f == 0x20) by (bit_vector);
    assert(visible_text(first.push(0x20) + second) =~= w1.push(' ') + w2);
    assert forall|i: int| 0 <= i < w1.len() implies #[trigger] w1[i] != ' ' by {
        assert(0x21 <= (first[i] & 0x7f) <= 0x7e);
    }
    assert forall|i: int| 0 <= i < w2.len() implies #[trigger] w2[i] != ' ' by {
        assert(0x21 <= (second[i] & 0x7f) <= 0x7e);
    }
    lemma_two_words(w1, w2);
}

} // verus!
