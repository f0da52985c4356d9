use jeopardytool::{JeopardyAnswer, JeopardyCategory, JeopardyGame};
use std::path::PathBuf;

fn text(i: usize, flag: bool) -> JeopardyAnswer {
    JeopardyAnswer::Text {
        answer: format!("a{}", i),
        question: format!("q{}", i),
        double_jeopardy: flag,
    }
}

/// An answer of a kind, a payload and a flag that all depend on `seed`.
fn answer_of(seed: usize) -> JeopardyAnswer {
    let flag = seed % 3 == 0;
    let question = format!("question {}", seed);
    let path = PathBuf::from(format!("assets/{}.bin", seed));
    match seed % 4 {
        0 => JeopardyAnswer::Text { answer: format!("answer {}", seed), question, double_jeopardy: flag },
        1 => JeopardyAnswer::Image { question, image: path, double_jeopardy: flag },
        2 => JeopardyAnswer::Audio { question, audio: path, double_jeopardy: flag },
        _ => JeopardyAnswer::Video { question, video: path, double_jeopardy: flag },
    }
}

fn category_of(seed: usize, answers: usize) -> JeopardyCategory {
    JeopardyCategory {
        name: format!("category {}", seed),
        answers: (0..answers).map(|i| answer_of(seed * 7 + i)).collect(),
    }
}

fn game_of(seed: usize, categories: usize, answers: usize) -> JeopardyGame {
    JeopardyGame { categories: (0..categories).map(|c| category_of(seed * 11 + c, answers)).collect() }
}

#[test]
fn jeopardy_answer_is_valid() {
    for seed in 0..64 {
        assert!(answer_of(seed).is_valid());
    }
    assert!(JeopardyAnswer::Text {
        answer: String::new(),
        question: String::new(),
        double_jeopardy: false
    }
    .is_valid());
    assert!(JeopardyAnswer::Image {
        question: String::new(),
        image: PathBuf::new(),
        double_jeopardy: true
    }
    .is_valid());
}

#[test]
fn jeopardy_category_is_valid() {
    for seed in 0..64 {
        assert!(category_of(seed, 5).is_valid());
    }
}

#[test]
fn jeopardy_game_is_valid() {
    for seed in 0..64 {
        assert!(game_of(seed, 5, 5).is_valid());
    }
}

#[test]
fn new_game_is_empty_and_invalid() {
    let game = JeopardyGame::new();
    assert!(game.categories.is_empty());
    assert!(!game.is_valid());
}

#[test]
fn category_with_other_than_five_answers_is_invalid() {
    for answers in 0..12 {
        assert_eq!(category_of(answers, answers).is_valid(), answers == 5);
    }
}

#[test]
fn game_with_other_than_five_categories_is_invalid() {
    for categories in 0..12 {
        assert_eq!(game_of(categories, categories, 5).is_valid(), categories == 5);
    }
}

#[test]
fn game_with_one_short_category_is_invalid() {
    for at in 0..5 {
        for answers in [0usize, 1, 4, 6] {
            let mut game = game_of(3, 5, 5);
            game.categories[at] = category_of(at, answers);
            assert!(!game.is_valid());
        }
    }
}

#[test]
fn validity_does_not_depend_on_flags() {
    let game = JeopardyGame {
        categories: (0..5)
            .map(|c| JeopardyCategory { name: format!("{}", c), answers: (0..5).map(|i| text(i, true)).collect() })
            .collect(),
    };
    assert!(game.is_valid());
}

#[test]
fn is_double_jeopardy_reads_the_flag_of_each_kind() {
    for seed in 0..64 {
        assert_eq!(answer_of(seed).is_double_jeopardy(), seed % 3 == 0);
    }
}

#[test]
fn mark_sets_the_flag_and_keeps_the_rest() {
    let mut a = JeopardyAnswer::Text { answer: "a".into(), question: "q".into(), double_jeopardy: false };
    a.mark();
    match &a {
        JeopardyAnswer::Text { answer, question, double_jeopardy } => {
            assert_eq!(answer, "a");
            assert_eq!(question, "q");
            assert!(*double_jeopardy);
        }
        _ => panic!("the kind changed"),
    }
    let mut a = JeopardyAnswer::Image { question: "q".into(), image: PathBuf::from("i.png"), double_jeopardy: false };
    a.mark();
    match &a {
        JeopardyAnswer::Image { question, image, double_jeopardy } => {
            assert_eq!(question, "q");
            assert_eq!(image, &PathBuf::from("i.png"));
            assert!(*double_jeopardy);
        }
        _ => panic!("the kind changed"),
    }
    let mut a = JeopardyAnswer::Audio { question: "q".into(), audio: PathBuf::from("a.ogg"), double_jeopardy: false };
    a.mark();
    match &a {
        JeopardyAnswer::Audio { question, audio, double_jeopardy } => {
            assert_eq!(question, "q");
            assert_eq!(audio, &PathBuf::from("a.ogg"));
            assert!(*double_jeopardy);
        }
        _ => panic!("the kind changed"),
    }
    let mut a = JeopardyAnswer::Video { question: "q".into(), video: PathBuf::from("v.mp4"), double_jeopardy: true };
    a.mark();
    match &a {
        JeopardyAnswer::Video { question, video, double_jeopardy } => {
            assert_eq!(question, "q");
            assert_eq!(video, &PathBuf::from("v.mp4"));
            assert!(*double_jeopardy);
        }
        _ => panic!("the kind changed"),
    }
}

#[test]
fn clone_copies_a_category_with_its_paths() {
    let category = category_of(9, 5);
    let copy = category.clone();
    assert_eq!(format!("{:?}", copy), format!("{:?}", category));
    match (&category.answers[0], &copy.answers[0]) {
        (JeopardyAnswer::Video { video: a, .. }, JeopardyAnswer::Video { video: b, .. }) => {
            assert_eq!(a, b);
            assert_eq!(b, &PathBuf::from("assets/63.bin"));
        }
        other => panic!("unexpected kinds: {:?}", other),
    }
}
