use vstd::prelude::*;

verus! {

/// A source of practice words. `wf` is the supplier's own usability
/// condition (for the dictionary-backed variant: at least one word survived
/// filtering); a usable supplier never hands out an empty word and stays
/// usable.
pub trait WordSupplier: Sized {
    spec fn wf(&self) -> bool;

    fn get_word(&mut self) -> (word: Vec<char>)
        requires
            old(self).wf(),
        ensures
            final(self).wf(),
            word@.len() > 0,
    ;
}

/// What `str::to_lowercase` returns for a given character sequence: a
/// function of the characters alone.
pub uninterp spec fn lower_of(s: Seq<char>) -> Seq<char>;

/// Relies on `str::to_lowercase`: lower-cases per Unicode, depending only on
/// the characters; every character maps to at least one character, so a
/// non-empty string stays non-empty.
#[verifier::external_body]
fn lowercase(s: &str) -> (r: String)
    ensures
        r@ == lower_of(s@),
        s@.len() > 0 ==> r@.len() > 0,
{
    s.to_lowercase()
}

/// Relies on `str::chars`: iterating a string yields exactly its characters,
/// in order.
#[verifier::external_body]
fn str_to_chars(s: &str) -> (r: Vec<char>)
    ensures
        r@ == s@,
{
    s.chars().collect()
}

/// Relies on `rand::random`: some machine-word value; nothing is assumed
/// about which one.
#[verifier::external_body]
fn random_usize() -> usize {
    rand::random::<u64>() as usize
}

/// The dictionary entries that survive loading: entries of length at most
/// one are dropped, the rest are lower-cased, order kept.
pub open spec fn filtered_words(raw: Seq<Seq<char>>) -> Seq<Seq<char>>
    decreases raw.len(),
{
    if raw.len() == 0 {
        Seq::empty()
    } else {
        filtered_words(raw.drop_last()) + if raw.last().len() > 1 {
            seq![lower_of(raw.last())]
        } else {
            Seq::empty()
        }
    }
}

/// A dictionary-backed supplier: each call picks a uniformly random entry of
/// the filtered word list.
pub struct WordSupplierRandomized {
    pub words: Vec<Vec<char>>,
}

impl WordSupplierRandomized {
    /// Build the dictionary from raw whitespace-split entries (the file read
    /// and the split are the caller's business): entries of length at most
    /// one are dropped, the rest lower-cased. The result may be unusable
    /// (`!wf()`) when nothing survives; the caller must guard that
    /// degenerate configuration before starting a session.
    pub fn new(raw: Vec<String>) -> (r: WordSupplierRandomized)
        ensures
            r.words.deep_view() == filtered_words(raw.deep_view()),
            forall|i: int| 0 <= i < r.words@.len() ==> r.words@[i]@.len() > 0,
            r.words@.len() > 0 ==> r.wf(),
    {
        let mut words: Vec<Vec<char>> = Vec::new();
        let ghost raw_seq: Seq<Seq<char>> = raw.deep_view();
        for i in 0..raw.len()
            invariant
                raw.deep_view() == raw_seq,
                words.deep_view() == filtered_words(raw_seq.take(i as int)),
                forall|k: int| 0 <= k < words@.len() ==> words@[k]@.len() > 0,
        {
            let entry: &String = &raw[i];
            if entry.unicode_len() > 1 {
                let lowered = lowercase(entry.as_str());
                let word = str_to_chars(lowered.as_str());
                words.push(word);
            }
            proof {
                assert(entry@ == raw_seq[i as int]);
                assert(raw_seq.take(i + 1).drop_last() =~= raw_seq.take(i as int));
                assert(raw_seq.take(i + 1).last() == raw_seq[i as int]);
                assert(words.deep_view() =~~= filtered_words(raw_seq.take(i + 1)));
            }
        }
        proof {
            assert(raw_seq.take(raw_seq.len() as int) =~= raw_seq);
        }
        WordSupplierRandomized { words }
    }

    /// Whether the filtered word list is usable: runtime check matching
    /// `wf()`, for callers that must guard the degenerate empty dictionary.
    pub fn usable(&self) -> (r: bool)
        ensures
            r == self.wf(),
    {
        if self.words.len() == 0 {
            return false;
        }
        for i in 0..self.words.len()
            invariant
                forall|k: int| 0 <= k < i ==> self.words@[k]@.len() > 0,
        {
            if self.words[i].len() == 0 {
                return false;
            }
        }
        true
    }
}

impl WordSupplier for WordSupplierRandomized {
    open spec fn wf(&self) -> bool {
        &&& self.words@.len() > 0
        &&& forall|i: int| 0 <= i < self.words@.len() ==> self.words@[i]@.len() > 0
    }

    fn get_word(&mut self) -> (word: Vec<char>)
        ensures
            *final(self) == *old(self),
            exists|i: int|
                0 <= i < old(self).words@.len() && word@ == old(self).words@[i]@,
    {
        let pick = random_usize();
        let index = pick % self.words.len();
        let chosen: &Vec<char> = &self.words[index];
        let word = chosen.clone();
        proof {
            assert(word@ =~= self.words@[index as int]@);
        }
        word
    }
}

/// A fixed-text supplier: always hands out the same stored word.
pub struct WordSupplierBasic {
    pub text: Vec<char>,
}

impl WordSupplierBasic {
    pub fn new(text: Vec<char>) -> (r: WordSupplierBasic)
        requires
            text@.len() > 0,
        ensures
            r.text == text,
            r.wf(),
    {
        WordSupplierBasic { text }
    }
}

impl WordSupplier for WordSupplierBasic {
    open spec fn wf(&self) -> bool {
        self.text@.len() > 0
    }

    fn get_word(&mut self) -> (word: Vec<char>)
        ensures
            *final(self) == *old(self),
            word@ == old(self).text@,
    {
        let word = self.text.clone();
        proof {
            assert(word@ =~= self.text@);
        }
        word
    }
}

} // verus!
