//! The dictionary matcher: a fixed vocabulary of normalized words, loaded
//! once and queried for exact membership.

use crate::text::{word_eq, word_views};
use vstd::prelude::*;

verus! {

/// The newline-separated segments of a character sequence.  A text with `n`
/// newline characters has `n + 1` segments; empty segments are kept, so an
/// empty text has one empty segment.
pub open spec fn lines_of(s: Seq<char>) -> Seq<Seq<char>>
    decreases s.len(),
{
    if s.len() == 0 {
        seq![Seq::<char>::empty()]
    } else if s.last() == '\n' {
        lines_of(s.drop_last()).push(Seq::<char>::empty())
    } else {
        let l = lines_of(s.drop_last());
        l.update(l.len() - 1, l.last().push(s.last()))
    }
}

/// The set of words a newline-separated text defines.
pub open spec fn lines_set(s: Seq<char>) -> Set<Seq<char>> {
    Set::new(|w: Seq<char>| lines_of(s).contains(w))
}

/// A vocabulary: a set of words owned by the matcher, used only for
/// membership queries.
pub struct Vocabulary {
    words: Vec<Vec<char>>,
}

impl View for Vocabulary {
    type V = Set<Seq<char>>;

    closed spec fn view(&self) -> Set<Seq<char>> {
        Set::new(|w: Seq<char>| word_views(self.words@).contains(w))
    }
}

impl Vocabulary {
    /// An empty vocabulary.
    pub fn new() -> (r: Vocabulary)
        ensures
            r@ == Set::<Seq<char>>::empty(),
    {
        let r = Vocabulary { words: Vec::new() };
        proof {
            assert forall|w: Seq<char>| !r@.contains(w) by {
                if word_views(r.words@).contains(w) {
                    let k = choose|k: int|
                        0 <= k < word_views(r.words@).len() && word_views(r.words@)[k] == w;
                    assert(false);
                }
            }
            assert(r@ =~= Set::<Seq<char>>::empty());
        }
        r
    }

    /// Adds one word.
    pub fn insert(&mut self, word: Vec<char>)
        ensures
            final(self)@ == old(self)@.insert(word@),
    {
        let ghost old_words = self.words@;
        self.words.push(word);
        proof {
            let vs = word_views(self.words@);
            let old_vs = word_views(old_words);
            assert forall|w: Seq<char>| self@.contains(w) == old(self)@.insert(word@).contains(
                w,
            ) by {
                if vs.contains(w) {
                    let k = choose|k: int| 0 <= k < vs.len() && vs[k] == w;
                    if k < old_vs.len() {
                        assert(old_vs[k] == w);
                        assert(old_vs.contains(w));
                    } else {
                        assert(w == word@);
                    }
                }
                if old_vs.contains(w) {
                    let k = choose|k: int| 0 <= k < old_vs.len() && old_vs[k] == w;
                    assert(vs[k] == w);
                    assert(vs.contains(w));
                }
                if w == word@ {
                    assert(vs[vs.len() - 1] == w);
                    assert(vs.contains(w));
                }
            }
            assert(self@ =~= old(self)@.insert(word@));
        }
    }

    /// Exact, case-sensitive membership; the caller normalizes the word
    /// beforehand.
    pub fn is_known(&self, word: &Vec<char>) -> (r: bool)
        ensures
            r == self@.contains(word@),
    {
        let mut i: usize = 0;
        while i < self.words.len()
            invariant
                i <= self.words@.len(),
                forall|j: int| 0 <= j < i ==> word_views(self.words@)[j] != word@,
            decreases self.words@.len() - i,
        {
            if word_eq(&self.words[i], word) {
                proof {
                    assert(word_views(self.words@).contains(word@)) by {
                        assert(word_views(self.words@)[i as int] == word@);
                    }
                }
                return true;
            }
            i += 1;
        }
        proof {
            if word_views(self.words@).contains(word@) {
                let k = choose|k: int|
                    0 <= k < word_views(self.words@).len() && word_views(self.words@)[k] == word@;
                assert(false);
            }
        }
        false
    }

    /// Builds the vocabulary a newline-separated word list defines, segment
    /// for segment, empty segments included.
    pub fn from_newline_list(contents: &Vec<char>) -> (r: Vocabulary)
        ensures
            r@ == lines_set(contents@),
    {
        let mut words: Vec<Vec<char>> = Vec::new();
        let mut cur: Vec<char> = Vec::new();
        let mut i: usize = 0;
        while i < contents.len()
            invariant
                i <= contents@.len(),
                lines_of(contents@.take(i as int)) =~= word_views(words@).push(cur@),
            decreases contents@.len() - i,
        {
            proof {
                assert(contents@.take(i + 1).drop_last() =~= contents@.take(i as int));
                assert(contents@.take(i + 1).last() == contents@[i as int]);
            }
            if contents[i] == '\n' {
                let ghost old_words = words@;
                let ghost old_cur = cur@;
                words.push(cur);
                cur = Vec::new();
                proof {
                    assert(word_views(words@) =~= word_views(old_words).push(old_cur));
                    assert(lines_of(contents@.take(i + 1)) =~= word_views(words@).push(cur@));
                }
            } else {
                let c = contents[i];
                cur.push(c);
                proof {
                    let prev = lines_of(contents@.take(i as int));
                    let next = lines_of(contents@.take(i + 1));
                    assert(next =~= prev.update(prev.len() - 1, prev.last().push(c)));
                    assert(prev.last() == cur@.drop_last());
                    assert(prev.last().push(c) =~= cur@);
                    assert(next =~= word_views(words@).push(cur@));
                }
            }
            i += 1;
        }
        proof {
            assert(contents@.take(contents@.len() as int) =~= contents@);
        }
        words.push(cur);
        let r = Vocabulary { words };
        proof {
            let vs = word_views(r.words@);
            let ls = lines_of(contents@);
            assert(vs =~= ls);
            assert forall|w: Seq<char>| r@.contains(w) == lines_set(contents@).contains(w) by {}
            assert(r@ =~= lines_set(contents@));
        }
        r
    }
}

} // verus!
