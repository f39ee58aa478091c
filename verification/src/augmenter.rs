//! Explicit-concatenation augmentation: a concatenation marker `·` is
//! inserted between any two adjacent tokens of the raw pattern that would
//! otherwise be concatenated implicitly. An eager, whole-buffer producer and
//! a lazy, pull-based one emit identical output for every input.

use vstd::prelude::*;

verus! {

/// Whether a concatenation marker belongs between a previous token `p` and a
/// current token `c`: it does unless `p` opens a group or starts an
/// alternative, or `c` continues one or closes a group or is a star.
pub open spec fn needs_dot(p: char, c: char) -> bool {
    !(p == '(' || p == '|' || c == '|' || c == ')' || c == '*')
}

/// The augmented form of the first `i` tokens of `s`: each token after the
/// first carries a `·` before it wherever `needs_dot` asks for one.
pub open spec fn aug_upto(s: Seq<char>, i: int) -> Seq<char>
    decreases i,
{
    if i <= 0 {
        Seq::<char>::empty()
    } else if i == 1 {
        seq![s[0]]
    } else {
        aug_upto(s, i - 1) + (if needs_dot(s[i - 2], s[i - 1]) {
            seq!['·', s[i - 1]]
        } else {
            seq![s[i - 1]]
        })
    }
}

/// The augmented form of a whole pattern; an empty pattern becomes the
/// single nullability marker `ε`.
pub open spec fn spec_augment(s: Seq<char>) -> Seq<char> {
    if s.len() == 0 {
        seq!['ε']
    } else {
        aug_upto(s, s.len() as int)
    }
}

/// The augmented prefixes agree: a shorter one is a prefix of a longer one.
proof fn lemma_aug_upto_prefix(s: Seq<char>, i: int, j: int)
    requires
        0 <= i <= j,
    ensures
        aug_upto(s, i).len() <= aug_upto(s, j).len(),
        forall|k: int| 0 <= k < aug_upto(s, i).len() ==> aug_upto(s, j)[k] == aug_upto(s, i)[k],
    decreases j - i,
{
    if i < j {
        lemma_aug_upto_prefix(s, i, j - 1);
    }
}

/// Extend the pattern with the explicit concatenation operator `·`, eagerly,
/// over the whole buffer at once.
pub fn augment_imperative(src: &[char]) -> (r: Vec<char>)
    ensures
        r@ == spec_augment(src@),
{
    let n = src.len();
    if n == 0 {
        let mut dest: Vec<char> = Vec::new();
        dest.push('ε');
        proof {
            assert(dest@ =~= spec_augment(src@));
        }
        return dest;
    }
    let mut dest: Vec<char> = Vec::new();
    let mut i: usize = 0;
    while i < n
        invariant
            n == src@.len(),
            0 < n,
            i <= n,
            dest@ == aug_upto(src@, i as int),
        decreases n - i,
    {
        let c = src[i];
        if i > 0 {
            let p = src[i - 1];
            if !(p == '(' || p == '|' || c == '|' || c == ')' || c == '*') {
                dest.push('·');
            }
        }
        dest.push(c);
        proof {
            assert(dest@ =~= aug_upto(src@, i as int + 1));
        }
        i = i + 1;
    }
    dest
}

/// The lazy producer of the augmented token stream: a one-token lookback
/// cursor over the source, pulled one emitted symbol at a time. It is pure
/// and single-pass; restarting requires a fresh instance over the source.
#[derive(Debug)]
pub struct Augment {
    src: Vec<char>,
    pos: usize,
    prev: Option<char>,
    curr: Option<char>,
    index: Option<usize>,
    check_prev_curr: bool,
    complete: bool,
    yield_curr: bool,
}

impl Augment {
    /// The source this cursor was built over.
    pub closed spec fn source(self) -> Seq<char> {
        self.src@
    }

    /// How many symbols of the augmented stream have been emitted so far.
    pub closed spec fn emitted(self) -> int {
        if self.src@.len() == 0 {
            if self.complete {
                1
            } else {
                0
            }
        } else if self.yield_curr {
            aug_upto(self.src@, self.pos as int).len() - 1
        } else {
            aug_upto(self.src@, self.pos as int).len() as int
        }
    }

    /// The cursor fields agree with how far the source has been consumed.
    pub closed spec fn wf(self) -> bool {
        &&& self.pos <= self.src@.len()
        &&& self.index == (if self.pos == 0 {
            Option::<usize>::None
        } else {
            Some(self.pos)
        })
        &&& self.curr == (if self.pos == 0 {
            Option::<char>::None
        } else {
            Some(self.src@[self.pos as int - 1])
        })
        &&& (self.pos >= 2 ==> self.prev == Some(self.src@[self.pos as int - 2]))
        &&& (self.pos < 2 ==> self.prev is None)
        &&& self.check_prev_curr == (self.pos >= 2)
        &&& (self.complete ==> self.src@.len() == 0)
        &&& (self.yield_curr ==> self.pos >= 2 && needs_dot(
            self.src@[self.pos as int - 2],
            self.src@[self.pos as int - 1],
        ))
    }

    /// Construct a new cursor over the characters of a pattern.
    pub fn new(src: Vec<char>) -> (a: Augment)
        ensures
            a.wf(),
            a.source() == src@,
            a.emitted() == 0,
    {
        Augment {
            src,
            pos: 0,
            prev: None,
            curr: None,
            index: None,
            check_prev_curr: false,
            complete: false,
            yield_curr: false,
        }
    }

    /// One pull: the next symbol of the augmented stream, or `None` once the
    /// stream has ended. Each pull either advances the emission count by one
    /// or signals the end; it cannot fail.
    pub fn next(&mut self) -> (r: Option<char>)
        requires
            old(self).wf(),
        ensures
            final(self).wf(),
            final(self).source() == old(self).source(),
            ({
                let out = spec_augment(old(self).source());
                if old(self).emitted() < out.len() {
                    r == Some(out[old(self).emitted()]) && final(self).emitted() == old(
                        self,
                    ).emitted() + 1
                } else {
                    r is None && final(self).emitted() == old(self).emitted()
                }
            }),
    {
        proof {
            lemma_aug_upto_prefix(self.src@, self.pos as int, self.src@.len() as int);
        }
        if self.complete {
            return None;
        }
        if self.yield_curr {
            self.yield_curr = false;
            return self.curr;
        }
        if self.pos >= self.src.len() {
            // End of source: an empty pattern emits the single marker
            // `ε` before completing.
            if self.index.is_none() {
                self.complete = true;
                return Some('ε');
            }
            return None;
        }
        let ch = self.src[self.pos];
        let mut index: usize = match self.index {
            Some(ix) => ix,
            None => 0,
        };
        if index > 0 {
            self.prev = self.curr;
        }
        self.curr = Some(ch);
        index = index + 1;
        self.index = Some(index);
        self.pos = self.pos + 1;
        if index > 1 {
            // From the second token on, the lookback window is checked.
            self.check_prev_curr = true;
        }
        proof {
            lemma_aug_upto_prefix(self.src@, self.pos as int, self.src@.len() as int);
        }
        let suppress_prev = match self.prev {
            Some(p) => p == '(' || p == '|',
            None => false,
        };
        let suppress_curr = ch == '|' || ch == ')' || ch == '*';
        if self.check_prev_curr && !(suppress_prev || suppress_curr) {
            self.yield_curr = true;
            Some('·')
        } else {
            self.curr
        }
    }
}

/// Extend the pattern with the explicit concatenation operator `·`, lazily:
/// the returned cursor emits one symbol per pull.
pub fn augment(src: Vec<char>) -> (a: Augment)
    ensures
        a.wf(),
        a.source() == src@,
        a.emitted() == 0,
{
    Augment::new(src)
}

} // verus!
