use autocorrect::cells::parse_text;
use autocorrect::charset::classify;
use autocorrect::engine::format_with;
use autocorrect::strategery::strategies;
use autocorrect::text::to_chars;
use autocorrect::unicode::Classes;

const ALPHABET: [char; 40] = [
    '中', '文', 'a', 'Z', '1', '9', ' ', ' ', '-', ',', '.', '!', '?', ':', ';', '(', ')', '[', ']',
    '‘', '’', '“', '”', '（', '）', '【', '】', '「', '」', '《', '》', '，', '。', '！', '@', '|',
    '%', '\n', 'Ａ', '１',
];

fn next(seed: &mut u64) -> usize {
    *seed = seed
        .wrapping_mul(6364136223846793005)
        .wrapping_add(1442695040888963407);
    ((*seed >> 33) % 40) as usize
}

#[test]
fn formatting_twice_changes_nothing() {
    let classes = Classes::new().unwrap();
    let mut seed: u64 = 7;
    let mut failures: Vec<(String, String, String)> = Vec::new();
    for round in 0..100000 {
        let len = 1 + round % 11;
        let mut s = String::new();
        for _ in 0..len {
            s.push(ALPHABET[next(&mut seed)]);
        }
        let once = format_with(&classes, &s);
        let twice = format_with(&classes, &once);
        if once != twice && failures.len() < 25 {
            failures.push((s, once, twice));
        }
    }
    for (s, once, twice) in failures.iter() {
        println!("{:?} -> {:?} -> {:?}", s, once, twice);
    }
    assert!(failures.is_empty());
}

#[test]
fn formatted_examples_stay_as_they_are() {
    for s in [
        "中-中-中",
        "中） -中",
        "中  （ 文 ） a",
        "测试英文,逗号Comma转换.",
        "中,Ａ１",
        "“腾讯”-发布-‘新版’",
        "中a ，b（ c",
    ]
    .iter()
    {
        let once = autocorrect::format(s);
        assert_ne!(*s, once);
        assert_eq!(once, autocorrect::format(&once));
    }
}

#[test]
fn rules_at_rest_on_their_own_result() {
    let classes = Classes::new().unwrap();
    let chars = to_chars("中a1|中@中(中)中“ 中 ”中%中 ，中（ a");
    let t = parse_text(&chars, &classify(&classes, &chars));
    for rule in strategies().iter() {
        let once = rule.format(&t.cells);
        let twice = rule.format(&once);
        assert_eq!(once, twice);
    }
}
