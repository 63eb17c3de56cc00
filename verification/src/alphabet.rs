//! The identifier alphabet and unbiased sampling from it.

use vstd::prelude::*;

verus! {

/// Number of symbols in the alphabet.
pub const RANGE: u32 = 58;

/// The alphabet: upper-case letters without `I` and `O`, lower-case letters without `l`, and the
/// digits without `0`.
pub const CHARSET: [u8; 58] = [
    65, 66, 67, 68, 69, 70, 71, 72, 74, 75, 76, 77, 78, 80, 81, 82, 83, 84, 85, 86, 87, 88, 89, 90,
    97, 98, 99, 100, 101, 102, 103, 104, 105, 106, 107, 109, 110, 111, 112, 113, 114, 115, 116,
    117, 118, 119, 120, 121, 122, 49, 50, 51, 52, 53, 54, 55, 56, 57,
];

/// Whether `b` is a symbol of the alphabet.
pub open spec fn readable(b: u8) -> bool {
    ||| 65 <= b <= 90 && b != 73 && b != 79
    ||| 97 <= b <= 122 && b != 108
    ||| 49 <= b <= 57
}

/// The top six bits of a random word.
pub open spec fn top_bits(draw: u32) -> int {
    draw as int / 0x400_0000
}

/// The symbol that a random word selects: its top six bits index the alphabet, and a word whose
/// top six bits reach past the alphabet selects nothing.
pub open spec fn symbol_of(draw: u32) -> Option<u8> {
    if top_bits(draw) < 58 {
        Some(CHARSET@[top_bits(draw)])
    } else {
        None
    }
}

/// Sampling one symbol from a supply of random words: the first word that selects a symbol
/// gives it, and the words after it are left.
pub open spec fn sampled(draws: Seq<u32>) -> (Option<u8>, Seq<u32>)
    decreases draws.len(),
{
    if draws.len() == 0 {
        (None, draws)
    } else if symbol_of(draws[0]) is Some {
        (symbol_of(draws[0]), draws.drop_first())
    } else {
        sampled(draws.drop_first())
    }
}

/// Sampling `len` symbols in a row; `None` where the supply runs out first.
pub open spec fn sampled_string(draws: Seq<u32>, len: nat) -> (Option<Seq<u8>>, Seq<u32>)
    decreases len,
{
    if len == 0 {
        (Some(Seq::empty()), draws)
    } else {
        match sampled(draws) {
            (Some(b), rest) => match sampled_string(rest, (len - 1) as nat) {
                (Some(tail), left) => (Some(seq![b] + tail), left),
                (None, left) => (None, left),
            },
            (None, rest) => (None, rest),
        }
    }
}

/// The characters that a string of symbols spells.
pub open spec fn spelled(symbols: Seq<u8>) -> Seq<char> {
    Seq::new(symbols.len(), |i: int| symbols[i] as char)
}

/// Sampling never adds words to the supply, and a sampled symbol costs at least one word.
pub proof fn lemma_sampled_shrinks(draws: Seq<u32>)
    ensures
        sampled(draws).1.len() <= draws.len(),
        sampled(draws).0 is Some ==> sampled(draws).1.len() < draws.len(),
        sampled(draws).0 is None ==> sampled(draws).1.len() == 0,
    decreases draws.len(),
{
    if draws.len() > 0 && symbol_of(draws[0]) is None {
        lemma_sampled_shrinks(draws.drop_first());
    }
}

/// A sampled string costs at least one word for each of its symbols.
pub proof fn lemma_sampled_string_shrinks(draws: Seq<u32>, len: nat)
    ensures
        sampled_string(draws, len).1.len() <= draws.len(),
        sampled_string(draws, len).0 is Some ==> sampled_string(draws, len).1.len() + len
            <= draws.len(),
    decreases len,
{
    if len > 0 {
        lemma_sampled_shrinks(draws);
        lemma_sampled_string_shrinks(sampled(draws).1, (len - 1) as nat);
    }
}

/// A finite supply of 32-bit random words, used up front to back.
///
/// Its view is the words not yet used.
pub struct Draws {
    words: Vec<u32>,
    next: usize,
}

impl View for Draws {
    type V = Seq<u32>;

    closed spec fn view(&self) -> Seq<u32> {
        self.words@.subrange(self.next as int, self.words@.len() as int)
    }
}

/// One word from `rand::thread_rng()`, by `RngCore::next_u32`. Nothing is claimed of the word.
#[verifier::external_body]
fn thread_rng_next_u32() -> (word: u32) {
    rand::RngCore::next_u32(&mut rand::thread_rng())
}

impl Draws {
    #[verifier::type_invariant]
    spec fn inv(self) -> bool {
        self.next <= self.words@.len()
    }

    /// A supply that yields `words` in order.
    pub fn from_words(words: Vec<u32>) -> (draws: Draws)
        ensures
            draws@ == words@,
    {
        let draws = Draws { words, next: 0 };
        assert(draws@ =~= words@);
        draws
    }

    /// A supply of `count` words from the thread-local random number generator.
    pub fn random(count: usize) -> (draws: Draws)
        ensures
            draws@.len() == count,
    {
        let mut words: Vec<u32> = Vec::new();
        while words.len() < count
            invariant
                words@.len() <= count,
            decreases count - words@.len(),
        {
            words.push(thread_rng_next_u32());
        }
        Draws::from_words(words)
    }

    /// Number of words left.
    pub fn len(&self) -> (left: usize)
        ensures
            left == self@.len(),
    {
        proof {
            use_type_invariant(self);
        }
        self.words.len() - self.next
    }

    /// Takes the next word, if any is left.
    pub fn next_u32(&mut self) -> (word: Option<u32>)
        ensures
            match word {
                Some(w) => old(self)@.len() > 0 && w == old(self)@[0] && final(self)@ == old(
                    self,
                )@.drop_first(),
                None => old(self)@.len() == 0 && final(self)@ == old(self)@,
            },
    {
        proof {
            use_type_invariant(&*self);
        }
        if self.next < self.words.len() {
            let w = self.words[self.next];
            self.next = self.next + 1;
            assert(self@ =~= old(self)@.drop_first());
            Some(w)
        } else {
            None
        }
    }
}

/// Sampling of identifier symbols: upper- and lower-case letters and digits, without the ones
/// that are easily taken for another.
#[derive(Clone, Copy, Debug)]
pub struct ReadableAlphanumeric;

impl ReadableAlphanumeric {
    /// The symbol that one random word selects, if it selects one.
    ///
    /// The alphabet has 58 symbols, close to 64, so the word's top six bits are taken and a
    /// value past the alphabet is rejected; no value is folded back onto a symbol.
    pub fn symbol(draw: u32) -> (symbol: Option<u8>)
        ensures
            symbol == symbol_of(draw),
    {
        let var: u32 = draw >> (32 - 6);
        assert(draw >> 26 == draw / 0x400_0000) by (bit_vector);
        if var < RANGE {
            Some(CHARSET[var as usize])
        } else {
            None
        }
    }

    /// Samples one symbol: words are taken from `rng` until one selects a symbol.
    ///
    /// Returns `None` where no word that is left selects one; `rng` is then used up.
    pub fn sample(&self, rng: &mut Draws) -> (symbol: Option<u8>)
        ensures
            symbol == sampled(old(rng)@).0,
            final(rng)@ == sampled(old(rng)@).1,
    {
        loop
            invariant
                sampled(rng@) == sampled(old(rng)@),
            decreases rng@.len(),
        {
            match rng.next_u32() {
                Some(draw) => {
                    let symbol = Self::symbol(draw);
                    if symbol.is_some() {
                        return symbol;
                    }
                },
                None => {
                    return None;
                },
            }
        }
    }

    /// Samples `len` symbols and appends the characters they spell to `string`.
    ///
    /// Returns `false`, with `string` as it was, where `rng` runs out before `len` symbols
    /// are sampled.
    pub fn append_string(&self, rng: &mut Draws, string: &mut String, len: usize) -> (done: bool)
        ensures
            done == sampled_string(old(rng)@, len as nat).0.is_some(),
            final(rng)@ == sampled_string(old(rng)@, len as nat).1,
            final(string)@ == match sampled_string(old(rng)@, len as nat).0 {
                Some(symbols) => old(string)@ + spelled(symbols),
                None => old(string)@,
            },
    {
        let mut symbols: Vec<u8> = Vec::new();
        while symbols.len() < len
            invariant
                symbols@.len() <= len,
                match sampled_string(rng@, (len - symbols@.len()) as nat) {
                    (Some(tail), left) => sampled_string(old(rng)@, len as nat) == (
                        Some(symbols@ + tail),
                        left,
                    ),
                    (None, left) => sampled_string(old(rng)@, len as nat) == (
                        None::<Seq<u8>>,
                        left,
                    ),
                },
            decreases len - symbols@.len(),
        {
            let ghost taken = symbols@;
            match self.sample(rng) {
                Some(b) => {
                    symbols.push(b);
                    proof {
                        match sampled_string(rng@, (len - symbols@.len()) as nat) {
                            (Some(tail), left) => {
                                assert(taken + (seq![b] + tail) =~= symbols@ + tail);
                            },
                            (None, left) => {},
                        }
                    }
                },
                None => {
                    return false;
                },
            }
        }
        assert(symbols@ + Seq::<u8>::empty() =~= symbols@);
        let mut i: usize = 0;
        while i < len
            invariant
                i <= len,
                symbols@.len() == len,
                string@ == old(string)@ + spelled(symbols@.subrange(0, i as int)),
            decreases len - i,
        {
            string.push(symbols[i] as char);
            i = i + 1;
            assert(string@ =~= old(string)@ + spelled(symbols@.subrange(0, i as int)));
        }
        assert(symbols@.subrange(0, len as int) =~= symbols@);
        true
    }

    /// Samples a string of `len` symbols, or `None` where `rng` runs out first.
    pub fn sample_string(&self, rng: &mut Draws, len: usize) -> (string: Option<String>)
        ensures
            final(rng)@ == sampled_string(old(rng)@, len as nat).1,
            match sampled_string(old(rng)@, len as nat).0 {
                Some(symbols) => string matches Some(s) && s@ == spelled(symbols),
                None => string is None,
            },
    {
        let mut string = String::new();
        if self.append_string(rng, &mut string, len) {
            Some(string)
        } else {
            None
        }
    }
}

} // verus!
