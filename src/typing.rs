//! Words to type: the targets that turn typed letters into commands, and
//! the shuffled list that new words come from.

use crate::game::Action;
use crate::random::shuffle_in_place;
use rand::rngs::StdRng;
use vstd::prelude::*;

verus! {

/// A word on screen and the commands it gives: `letter_actions` for every
/// letter typed, `word_actions` when the word is done. `index` counts the
/// letters typed so far.
pub struct TypingTarget {
    pub letter_actions: Vec<Action>,
    pub word_actions: Vec<Action>,
    pub index: usize,
    pub word: Vec<char>,
}

/// The letter to type next, if the word is not done.
pub open spec fn char_at(word: Seq<char>, index: int) -> Option<char> {
    if 0 <= index < word.len() {
        Some(word[index])
    } else {
        None
    }
}

fn copy_word(w: &Vec<char>) -> (r: Vec<char>)
    ensures
        r@ == w@,
{
    let mut r: Vec<char> = Vec::new();
    let mut i: usize = 0;
    while i < w.len()
        invariant
            i <= w@.len(),
            r@ == w@.take(i as int),
        decreases w@.len() - i,
    {
        r.push(w[i]);
        i = i + 1;
        assert(r@ =~= w@.take(i as int));
    }
    assert(w@.take(w@.len() as int) =~= w@);
    r
}

fn copy_actions(a: &Vec<Action>) -> (r: Vec<Action>)
    ensures
        r@ == a@,
{
    let mut r: Vec<Action> = Vec::new();
    let mut i: usize = 0;
    while i < a.len()
        invariant
            i <= a@.len(),
            r@ == a@.take(i as int),
        decreases a@.len() - i,
    {
        r.push(a[i]);
        i = i + 1;
        assert(r@ =~= a@.take(i as int));
    }
    assert(a@.take(a@.len() as int) =~= a@);
    r
}

impl TypingTarget {
    /// A target whose every typed letter gives `actions`.
    pub fn new(word: Vec<char>, actions: Vec<Action>) -> (r: TypingTarget)
        ensures
            r.letter_actions@ == actions@,
            r.word_actions@.len() == 0,
            r.index == 0,
            r.word@ == word@,
    {
        TypingTarget { letter_actions: actions, word_actions: Vec::new(), index: 0, word }
    }

    /// A target that gives `actions` once the whole word is typed.
    pub fn new_whole(word: Vec<char>, actions: Vec<Action>) -> (r: TypingTarget)
        ensures
            r.word_actions@ == actions@,
            r.letter_actions@.len() == 0,
            r.index == 0,
            r.word@ == word@,
    {
        TypingTarget { word_actions: actions, letter_actions: Vec::new(), index: 0, word }
    }

    /// The letter to type next, or `None` once the word is done.
    pub fn current_char(&self) -> (r: Option<char>)
        ensures
            r == char_at(self.word@, self.index as int),
    {
        if self.index < self.word.len() {
            Some(self.word[self.index])
        } else {
            None
        }
    }

    /// Moves past the current letter and returns the next one.
    pub fn advance_char(&mut self) -> (r: Option<char>)
        requires
            old(self).index < usize::MAX,
        ensures
            final(self).index == old(self).index + 1,
            final(self).word == old(self).word,
            final(self).letter_actions == old(self).letter_actions,
            final(self).word_actions == old(self).word_actions,
            r == char_at(old(self).word@, old(self).index + 1),
    {
        self.index = self.index + 1;
        self.current_char()
    }

    /// Shows a new word, none of it typed yet.
    pub fn replace(&mut self, new: Vec<char>)
        ensures
            final(self).word@ == new@,
            final(self).index == 0,
            final(self).letter_actions == old(self).letter_actions,
            final(self).word_actions == old(self).word_actions,
    {
        self.word = new;
        self.index = 0;
    }
}

/// What one target does with the typed letter `c`: whether it matched,
/// the target after it, and the commands it gives. On a match the letter's
/// commands come first; when that finishes the word, a request for a new
/// word for target `id` and the word's commands follow.
pub open spec fn react(t: TypingTarget, id: u64, c: char) -> (bool, TypingTarget, Seq<Action>) {
    if char_at(t.word@, t.index as int) == Some(c) {
        let next = TypingTarget { index: (t.index + 1) as usize, ..t };
        let done = char_at(t.word@, t.index + 1) is None;
        let actions = t.letter_actions@ + if done {
            seq![Action::NewWord(id)] + t.word_actions@
        } else {
            Seq::empty()
        };
        (true, next, actions)
    } else {
        (false, t, Seq::empty())
    }
}

/// The commands that the first `n` targets give for `c`, in order.
pub open spec fn reactions(ts: Seq<TypingTarget>, c: char, n: int) -> Seq<Action>
    decreases n,
{
    if n <= 0 {
        Seq::empty()
    } else {
        reactions(ts, c, n - 1) + react(ts[n - 1], (n - 1) as u64, c).2
    }
}

/// Whether any of the first `n` targets matches `c`.
pub open spec fn any_matches(ts: Seq<TypingTarget>, c: char, n: int) -> bool {
    exists|i: int| 0 <= i < n && (#[trigger] react(ts[i], i as u64, c)).0
}

/// Hands the typed letter `c` to every target, target `i` having id `i`.
/// Each target whose next letter it is moves on and gives its commands; a
/// letter that no target wanted gives `BadFlap`.
pub fn keyboard(targets: &mut Vec<TypingTarget>, c: char) -> (actions: Vec<Action>)
    requires
        forall|i: int| 0 <= i < old(targets)@.len() ==> (#[trigger] old(targets)@[i]).index < usize::MAX,
        old(targets)@.len() <= u64::MAX,
    ensures
        final(targets)@.len() == old(targets)@.len(),
        forall|i: int|
            0 <= i < old(targets)@.len() ==> #[trigger] final(targets)@[i] == react(
                old(targets)@[i],
                i as u64,
                c,
            ).1,
        actions@ == reactions(old(targets)@, c, old(targets)@.len() as int) + if any_matches(
            old(targets)@,
            c,
            old(targets)@.len() as int,
        ) {
            Seq::empty()
        } else {
            seq![Action::BadFlap]
        },
{
    let ghost before = targets@;
    let mut actions: Vec<Action> = Vec::new();
    let mut ok = false;
    let mut i: usize = 0;
    while i < targets.len()
        invariant
            targets@.len() == before.len(),
            before.len() <= u64::MAX,
            i <= before.len(),
            forall|j: int| 0 <= j < before.len() ==> (#[trigger] before[j]).index < usize::MAX,
            forall|j: int| i <= j < before.len() ==> #[trigger] targets@[j] == before[j],
            forall|j: int|
                0 <= j < i ==> #[trigger] targets@[j] == react(before[j], j as u64, c).1,
            actions@ == reactions(before, c, i as int),
            ok == any_matches(before, c, i as int),
        decreases before.len() - i,
    {
        let mut t = targets.remove(i);
        let ghost t0 = t;
        assert(t0 == before[i as int]);
        let matched = match t.current_char() {
            Some(next) => next == c,
            None => false,
        };
        if matched {
            let mut letters = copy_actions(&t.letter_actions);
            actions.append(&mut letters);
            if t.advance_char().is_none() {
                actions.push(Action::NewWord(i as u64));
                let mut words = copy_actions(&t.word_actions);
                actions.append(&mut words);
            }
            ok = true;
        }
        targets.insert(i, t);
        proof {
            assert(react(before[i as int], i as u64, c).0 == matched);
            assert(reactions(before, c, i + 1) == reactions(before, c, i as int) + react(
                before[i as int],
                i as u64,
                c,
            ).2);
            if matched {
                assert(react(before[i as int], i as u64, c).1 == t);
            }
            assert(any_matches(before, c, i + 1) == (any_matches(before, c, i as int) || matched))
                by {
                if matched {
                    assert(react(before[i as int], i as u64, c).0);
                }
            }
        }
        i = i + 1;
    }
    if !ok {
        actions.push(Action::BadFlap);
    }
    actions
}

/// No letter of `w` is among `not`.
pub open spec fn avoids(w: Seq<char>, not: Seq<char>) -> bool {
    forall|k: int| 0 <= k < w.len() ==> !not.contains(#[trigger] w[k])
}

fn word_avoids(w: &Vec<char>, not: &Vec<char>) -> (r: bool)
    ensures
        r == avoids(w@, not@),
{
    let mut k: usize = 0;
    while k < w.len()
        invariant
            k <= w@.len(),
            forall|j: int| 0 <= j < k ==> !not@.contains(#[trigger] w@[j]),
        decreases w@.len() - k,
    {
        let c = w[k];
        let mut m: usize = 0;
        while m < not.len()
            invariant
                m <= not@.len(),
                k < w@.len(),
                c == w@[k as int],
                forall|j: int| 0 <= j < m ==> not@[j] != c,
            decreases not@.len() - m,
        {
            if not[m] == c {
                assert(not@[m as int] == w@[k as int]);
                assert(not@.contains(w@[k as int]));
                return false;
            }
            m = m + 1;
        }
        k = k + 1;
    }
    true
}

/// The words to draw from, walked in a shuffled order that is shuffled
/// again each time it runs out.
pub struct WordList {
    words: Vec<Vec<char>>,
    index: usize,
    rng: StdRng,
}

/// What a caller can know of a word list.
pub struct WordListView {
    pub words: Seq<Vec<char>>,
    pub index: nat,
}

impl View for WordList {
    type V = WordListView;

    closed spec fn view(&self) -> WordListView {
        WordListView { words: self.words@, index: self.index as nat }
    }
}

impl WordList {
    pub open spec fn wf(&self) -> bool {
        self@.words.len() > 0 && self@.index < self@.words.len()
    }

    /// A list of `words`, shuffled with `rng`.
    pub fn new(words: Vec<Vec<char>>, rng: StdRng) -> (r: WordList)
        requires
            words@.len() > 0,
        ensures
            r.wf(),
            r@.index == 0,
            r@.words.to_multiset() == words@.to_multiset(),
    {
        let mut words = words;
        let mut rng = rng;
        shuffle_in_place(&mut words, &mut rng);
        WordList { words, index: 0, rng }
    }

    /// The next word not to use any letter of `not`: the walk goes on from
    /// the current word, and when the list runs out it is shuffled and
    /// walked again from its start. There is such a word exactly when some
    /// word of the list avoids those letters.
    pub fn find_next_word(&mut self, not: &Vec<char>) -> (r: Option<Vec<char>>)
        requires
            old(self).wf(),
        ensures
            final(self).wf(),
            final(self)@.words.to_multiset() == old(self)@.words.to_multiset(),
            r is Some <==> exists|i: int|
                0 <= i < old(self)@.words.len() && avoids(#[trigger] old(self)@.words[i]@, not@),
            r matches Some(w) ==> {
                &&& avoids(w@, not@)
                &&& w@ == final(self)@.words[final(self)@.index as int]@
            },
    {
        let ghost start = self.words@;
        let n = self.words.len();
        let mut i = self.index + 1;
        while i < n
            invariant
                self.words@ == start,
                start == old(self)@.words,
                n == start.len(),
                self.index < n,
                self.index + 1 <= i <= n,
            decreases n - i,
        {
            if word_avoids(&self.words[i], not) {
                assert(avoids(start[i as int]@, not@));
                self.index = i;
                return Some(copy_word(&self.words[i]));
            }
            i = i + 1;
        }
        self.index = 0;
        shuffle_in_place(&mut self.words, &mut self.rng);
        let mut j: usize = 0;
        while j < n
            invariant
                self.words@.len() == n,
                self.words@.to_multiset() == start.to_multiset(),
                start == old(self)@.words,
                self.index == 0,
                n > 0,
                j <= n,
                forall|k: int| 0 <= k < j ==> !avoids(#[trigger] self.words@[k]@, not@),
            decreases n - j,
        {
            if word_avoids(&self.words[j], not) {
                proof {
                    let w = self.words@[j as int];
                    assert(self.words@.contains(w));
                    vstd::seq_lib::to_multiset_contains(start, w);
                    vstd::seq_lib::to_multiset_contains(self.words@, w);
                    let k = choose|k: int| 0 <= k < start.len() && start[k] == w;
                    assert(avoids(start[k]@, not@));
                }
                self.index = j;
                return Some(copy_word(&self.words[j]));
            }
            j = j + 1;
        }
        proof {
            assert forall|i: int| 0 <= i < start.len() implies !avoids(
                #[trigger] start[i]@,
                not@,
            ) by {
                let w = start[i];
                vstd::seq_lib::to_multiset_contains(start, w);
                vstd::seq_lib::to_multiset_contains(self.words@, w);
                assert(start.contains(w));
                let k = choose|k: int| 0 <= k < self.words@.len() && self.words@[k] == w;
                assert(!avoids(self.words@[k]@, not@));
            }
        }
        None
    }
}

/// `c` is a letter of the word of one of the first `n` targets other than
/// target `id`.
pub open spec fn letter_of_others(ts: Seq<TypingTarget>, id: int, n: int, c: char) -> bool {
    exists|j: int, k: int|
        0 <= j < n && j != id && 0 <= k < ts[j].word@.len() && #[trigger] ts[j].word@[k] == c
}

/// No letter of `w` is on any target other than `id`.
pub open spec fn avoids_others(w: Seq<char>, ts: Seq<TypingTarget>, id: int) -> bool {
    forall|k: int| 0 <= k < w.len() ==> !letter_of_others(ts, id, ts.len() as int, #[trigger] w[k])
}

proof fn lemma_push_contains(s: Seq<char>, x: char, c: char)
    ensures
        s.push(x).contains(c) <==> (s.contains(c) || c == x),
{
    if s.contains(c) {
        let i = choose|i: int| 0 <= i < s.len() && s[i] == c;
        assert(s.push(x)[i] == c);
    }
    if c == x {
        assert(s.push(x)[s.len() as int] == x);
    }
    if s.push(x).contains(c) {
        let i = choose|i: int| 0 <= i < s.push(x).len() && s.push(x)[i] == c;
        if i < s.len() {
            assert(s[i] == c);
        }
    }
}

/// Gives target `id` a new word from `words`, one that shares no letter
/// with the words of the other targets, and starts it afresh. There is
/// such a word exactly when the list holds one; otherwise the target keeps
/// its word.
pub fn new_word_for(targets: &mut Vec<TypingTarget>, id: usize, words: &mut WordList) -> (found: bool)
    requires
        old(words).wf(),
        id < old(targets)@.len(),
    ensures
        final(words).wf(),
        final(words)@.words.to_multiset() == old(words)@.words.to_multiset(),
        final(targets)@.len() == old(targets)@.len(),
        forall|i: int|
            0 <= i < old(targets)@.len() && i != id ==> #[trigger] final(targets)@[i] == old(
                targets,
            )@[i],
        found <==> exists|i: int|
            0 <= i < old(words)@.words.len() && avoids_others(
                #[trigger] old(words)@.words[i]@,
                old(targets)@,
                id as int,
            ),
        found ==> {
            &&& final(targets)@[id as int].index == 0
            &&& final(targets)@[id as int].word@ == final(words)@.words[final(words)@.index as int]@
            &&& avoids_others(final(targets)@[id as int].word@, old(targets)@, id as int)
        },
        !found ==> final(targets)@[id as int] == old(targets)@[id as int],
{
    let ghost ts = targets@;
    let mut not: Vec<char> = Vec::new();
    let mut i: usize = 0;
    while i < targets.len()
        invariant
            targets@ == ts,
            i <= ts.len(),
            forall|c: char| not@.contains(c) <==> letter_of_others(ts, id as int, i as int, c),
        decreases ts.len() - i,
    {
        if i != id {
            let w = &targets[i].word;
            let mut k: usize = 0;
            while k < w.len()
                invariant
                    targets@ == ts,
                    i < ts.len(),
                    i != id,
                    *w == ts[i as int].word,
                    k <= w@.len(),
                    forall|c: char|
                        not@.contains(c) <==> (letter_of_others(ts, id as int, i as int, c) || exists|
                            m: int,
                        | 0 <= m < k && w@[m] == c),
                decreases w@.len() - k,
            {
                let ghost before = not@;
                not.push(w[k]);
                proof {
                    assert forall|c: char|
                        not@.contains(c) <==> (letter_of_others(ts, id as int, i as int, c) || exists|
                            m: int,
                        | 0 <= m < k + 1 && w@[m] == c) by {
                        lemma_push_contains(before, w@[k as int], c);
                        if c == w@[k as int] {
                            assert(0 <= k < k + 1 && w@[k as int] == c);
                        }
                        if exists|m: int| 0 <= m < k + 1 && w@[m] == c {
                            let m = choose|m: int| 0 <= m < k + 1 && w@[m] == c;
                            if m < k {
                                assert(0 <= m < k && w@[m] == c);
                            }
                        }
                    }
                }
                k = k + 1;
            }
            proof {
                assert forall|c: char|
                    not@.contains(c) <==> letter_of_others(ts, id as int, i + 1, c) by {
                    if letter_of_others(ts, id as int, i + 1, c) {
                        let (j, k2) = choose|j: int, k2: int|
                            0 <= j < i + 1 && j != id && 0 <= k2 < ts[j].word@.len()
                                && #[trigger] ts[j].word@[k2] == c;
                        if j < i {
                            assert(letter_of_others(ts, id as int, i as int, c));
                        } else {
                            assert(0 <= k2 < w@.len() && w@[k2] == c);
                        }
                    }
                    if exists|m: int| 0 <= m < w@.len() && w@[m] == c {
                        let m = choose|m: int| 0 <= m < w@.len() && w@[m] == c;
                        assert(ts[i as int].word@[m] == c);
                    }
                    if letter_of_others(ts, id as int, i as int, c) {
                        let (j, k2) = choose|j: int, k2: int|
                            0 <= j < i && j != id && 0 <= k2 < ts[j].word@.len()
                                && #[trigger] ts[j].word@[k2] == c;
                        assert(ts[j].word@[k2] == c);
                    }
                }
            }
        } else {
            proof {
                assert forall|c: char|
                    not@.contains(c) <==> letter_of_others(ts, id as int, i + 1, c) by {
                    if letter_of_others(ts, id as int, i + 1, c) {
                        let (j, k2) = choose|j: int, k2: int|
                            0 <= j < i + 1 && j != id && 0 <= k2 < ts[j].word@.len()
                                && #[trigger] ts[j].word@[k2] == c;
                        assert(letter_of_others(ts, id as int, i as int, c));
                    }
                    if letter_of_others(ts, id as int, i as int, c) {
                        let (j, k2) = choose|j: int, k2: int|
                            0 <= j < i && j != id && 0 <= k2 < ts[j].word@.len()
                                && #[trigger] ts[j].word@[k2] == c;
                        assert(ts[j].word@[k2] == c);
                    }
                }
            }
        }
        i = i + 1;
    }
    proof {
        assert forall|w: Seq<char>| avoids(w, not@) <==> avoids_others(w, ts, id as int) by {
            if avoids(w, not@) {
                assert forall|k: int| 0 <= k < w.len() implies !letter_of_others(
                    ts,
                    id as int,
                    ts.len() as int,
                    #[trigger] w[k],
                ) by {
                    assert(!not@.contains(w[k]));
                }
            }
            if avoids_others(w, ts, id as int) {
                assert forall|k: int| 0 <= k < w.len() implies !not@.contains(#[trigger] w[k]) by {
                    assert(!letter_of_others(ts, id as int, ts.len() as int, w[k]));
                }
            }
        }
    }
    match words.find_next_word(&not) {
        Some(w) => {
            let mut t = targets.remove(id);
            t.replace(w);
            targets.insert(id, t);
            true
        },
        None => false,
    }
}

} // verus!
