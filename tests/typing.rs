use typey_birb::game::Action;
use rand::rngs::StdRng;
use rand::SeedableRng;
use typey_birb::typing::{keyboard, new_word_for, TypingTarget, WordList};

fn seeded_rng(seed: u64) -> StdRng {
    StdRng::seed_from_u64(seed)
}

fn chars(s: &str) -> Vec<char> {
    s.chars().collect()
}

#[test]
fn target_walks_through_its_word() {
    let mut t = TypingTarget::new(chars("ab"), vec![Action::BirbUp]);
    assert_eq!(t.current_char(), Some('a'));
    assert_eq!(t.advance_char(), Some('b'));
    assert_eq!(t.advance_char(), None);
    t.replace(chars("xyz"));
    assert_eq!(t.index, 0);
    assert_eq!(t.current_char(), Some('x'));
    assert_eq!(t.letter_actions, vec![Action::BirbUp]);
    assert!(t.word_actions.is_empty());
}

#[test]
fn whole_word_target_acts_at_the_end() {
    let t = TypingTarget::new_whole(chars("go"), vec![Action::Start]);
    assert!(t.letter_actions.is_empty());
    assert_eq!(t.word_actions, vec![Action::Start]);
    let mut targets = vec![t];
    assert!(keyboard(&mut targets, 'g').is_empty());
    assert_eq!(keyboard(&mut targets, 'o'), vec![Action::NewWord(0), Action::Start]);
}

#[test]
fn letters_go_to_every_matching_target() {
    let mut targets = vec![
        TypingTarget::new(chars("cat"), vec![Action::BirbUp, Action::IncScore(1)]),
        TypingTarget::new(chars("cow"), vec![Action::BirbDown, Action::IncScore(1)]),
    ];
    assert_eq!(
        keyboard(&mut targets, 'c'),
        vec![Action::BirbUp, Action::IncScore(1), Action::BirbDown, Action::IncScore(1)]
    );
    assert_eq!(keyboard(&mut targets, 'o'), vec![Action::BirbDown, Action::IncScore(1)]);
    assert_eq!(targets[0].index, 1);
    assert_eq!(targets[1].index, 2);
    assert_eq!(keyboard(&mut targets, 'q'), vec![Action::BadFlap]);
    assert_eq!(
        keyboard(&mut targets, 'w'),
        vec![Action::BirbDown, Action::IncScore(1), Action::NewWord(1)]
    );
}

#[test]
fn new_word_avoids_letters_on_screen() {
    let list = vec![chars("apple"), chars("kiwi"), chars("plum"), chars("fig")];
    let mut words = WordList::new(list, seeded_rng(1));
    let mut targets = vec![
        TypingTarget::new(chars("lemon"), vec![]),
        TypingTarget::new(chars("done"), vec![]),
    ];
    for _ in 0..20 {
        assert!(new_word_for(&mut targets, 1, &mut words));
        let w = &targets[1].word;
        assert!(w.iter().all(|c| !"lemon".contains(*c)));
        assert!(*w == chars("kiwi") || *w == chars("fig"));
        assert_eq!(targets[1].index, 0);
        assert_eq!(targets[0].word, chars("lemon"));
    }
}

#[test]
fn no_word_fits_leaves_target_alone() {
    let mut words = WordList::new(vec![chars("aa"), chars("ab")], seeded_rng(2));
    let mut targets = vec![TypingTarget::new(chars("a"), vec![]), TypingTarget::new(chars("zz"), vec![])];
    assert!(!new_word_for(&mut targets, 1, &mut words));
    assert_eq!(targets[1].word, chars("zz"));
    assert_eq!(words.find_next_word(&chars("a")), None);
    assert_eq!(words.find_next_word(&chars("b")), Some(chars("aa")));
}
