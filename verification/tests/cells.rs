use autocorrect::cells::{parse_text, render_text, Cell, Cells};
use autocorrect::charset::{classify, Kind};
use autocorrect::engine::{
    format_chars, format_classified, space_dash_with_hans, space_dashes, tighten_left,
    tighten_right,
};
use autocorrect::fullwidth::fullwidth;
use autocorrect::halfwidth::halfwidth;
use autocorrect::strategery::{apply, strategies, CharClass, Strategery};
use autocorrect::text::{to_chars, to_string};
use autocorrect::unicode::Classes;

fn cells_of(text: &str) -> Cells {
    let classes = Classes::new().unwrap();
    let chars = to_chars(text);
    let kinds = classify(&classes, &chars);
    parse_text(&chars, &kinds)
}

fn no_kind() -> Kind {
    Kind {
        script: false,
        word: false,
    }
}

fn text_of(lead: usize, cells: Vec<Cell>) -> String {
    to_string(&render_text(&Cells { lead, cells }))
}

#[test]
fn layout_counts_the_spaces() {
    let t = cells_of("  a  中 \n");
    assert_eq!(2, t.lead);
    assert_eq!(
        vec![
            Cell {
                c: 'a',
                gap: 2,
                kind: no_kind()
            },
            Cell {
                c: '中',
                gap: 1,
                kind: Kind {
                    script: true,
                    word: true
                }
            },
            Cell {
                c: '\n',
                gap: 0,
                kind: no_kind()
            }
        ],
        t.cells
    );
    let empty = cells_of("   ");
    assert_eq!(3, empty.lead);
    assert!(empty.cells.is_empty());
}

#[test]
fn layout_round_trips() {
    for s in ["", " ", "a", " a", "a ", "  中 文  a   b ", "\n \t x"].iter() {
        let t = cells_of(s);
        assert_eq!(*s, to_string(&render_text(&t)));
    }
}

#[test]
fn rules_add_and_remove_spaces() {
    let both = Strategery::new(CharClass::Cjk, CharClass::Letter, true, true);
    let t = cells_of("中a中  b中");
    assert_eq!("中 a 中  b 中", text_of(t.lead, both.format(&t.cells)));
    let one_way = Strategery::new(CharClass::Cjk, CharClass::At, true, false);
    let t = cells_of("中@中");
    assert_eq!("中 @中", text_of(t.lead, one_way.format(&t.cells)));
    let tight = Strategery::new(CharClass::Word, CharClass::FullwidthClosing, false, false);
    let t = cells_of("a  ，b ， 中 。 -  。");
    assert_eq!("a，b， 中。 -  。", text_of(t.lead, tight.format(&t.cells)));
    let mirrored = Strategery::new(CharClass::Word, CharClass::FullwidthClosing, false, true);
    let t = cells_of("a  ，  b");
    assert_eq!("a，b", text_of(t.lead, mirrored.format(&t.cells)));
}

#[test]
fn the_rules_in_their_order() {
    let rules = strategies();
    assert_eq!(8, rules.len());
    let t = cells_of("中a1|中@中(中)中“ 中 ”中%中 ，中（ a");
    assert_eq!(
        "中 a1| 中 @中 (中) 中 “中” 中% 中，中（a",
        text_of(t.lead, apply(&rules, t.cells))
    );
}

#[test]
fn sentence_marks_behind_cjk() {
    let wide = |s: &str| {
        let t = cells_of(s);
        text_of(t.lead, fullwidth(&t.cells))
    };
    assert_eq!("中，中。中！中？中：中；", wide("中,中.中!中?中:中;"));
    assert_eq!("中，a 中.a 中.1 中：1", wide("中,a 中.a 中.1 中:1"));
    assert_eq!("中。\n中，\r\n中。", wide("中.  \n中, \r\n中. "));
    assert_eq!("a,中 中 ,中 中,(中) 中,,中", wide("a,中 中 ,中 中,(中) 中,,中"));
    assert_eq!("中，Ａ", wide("中,  Ａ"));
    assert_eq!(",中", wide(",中"));
}

#[test]
fn halfwidth_letters_and_digits() {
    let narrow = |s: &str| {
        let t = cells_of(s);
        text_of(t.lead, halfwidth(&t.cells))
    };
    assert_eq!("09AZaz", narrow("０９ＡＺａｚ"));
    assert_eq!("中！，＿ a", narrow("中！，＿ a"));
}

#[test]
fn dashes_between_cjk() {
    let dashed = |s: &str| {
        let t = cells_of(s);
        text_of(t.lead, space_dashes(&t.cells))
    };
    assert_eq!("中 - 中 -- 中", dashed("中-中--中"));
    assert_eq!("中 - 中", dashed("中  -   中"));
    assert_eq!("中 - 中", dashed("中 -中"));
    assert_eq!("） - “ ’ - （", dashed("）-“ ’-（"));
    assert_eq!("中-a a-中 - 中 中-", dashed("中-a a-中 -中 中-"));
    assert_eq!("中-a a-中 中-", dashed("中-a a-中 中-"));
    assert_eq!("中- -中", dashed("中- -中"));
}

#[test]
fn brackets_lose_their_spaces() {
    let left = |s: &str| {
        let t = tighten_left(&cells_of(s));
        text_of(t.lead, t.cells)
    };
    let right = |s: &str| {
        let t = cells_of(s);
        text_of(t.lead, tighten_right(&t.cells))
    };
    assert_eq!("（a【b「c《d ( e", left("  （a 【b   「c 《d ( e"));
    assert_eq!("a ）b】c」d》e )  f", right("a ）  b】 c」 d》 e )  f"));
    assert_eq!("》", right("》   "));
}

#[test]
fn last_stage_of_the_engine() {
    let classes = Classes::new().unwrap();
    let stage = |s: &str| to_string(&space_dash_with_hans(&classes, &to_chars(s)));
    assert_eq!("中）- 中 -（中", stage("中）-中-（中"));
    assert_eq!("自由 - 开放", stage("自由-开放"));
    assert_eq!("a-b", stage("a-b"));
}

#[test]
fn cjk_characters_are_kept() {
    let classes = Classes::new().unwrap();
    let cjk = |s: &str| -> Vec<char> {
        to_chars(s)
            .into_iter()
            .filter(|c| autocorrect::charset::cjk(&classes, *c))
            .collect()
    };
    for s in [
        "部署到heroku有问题,网页不能显示.",
        "既に、世界中の数百という企業がRustを採用し.",
        "전 세계 수백 개의 회사가Rust를 사용하여",
        "ㄅㄆㄇ注音a ᜠᜡ b ｱｲｳ半角c",
        "（中）-【文】 - 「a」",
    ]
    .iter()
    {
        let out = to_string(&format_chars(&classes, &to_chars(s)));
        assert_ne!(*s, out);
        assert_eq!(cjk(s), cjk(&out));
        assert!(!cjk(s).is_empty());
    }
}

#[test]
fn character_classes() {
    let classes = Classes::new().unwrap();
    for c in ['中', '々', 'あ', 'ア', '한', 'ㄅ', 'ᜠ', 'ｱ', '豈'].iter() {
        assert!(autocorrect::charset::cjk(&classes, *c), "{}", c);
        assert!(autocorrect::charset::word_or_cjk(&classes, *c), "{}", c);
    }
    for c in ['a', ' ', '-', '，', '。', '（', '“', '、', 'Ａ', '１', 'é', 'я', '\n'].iter() {
        assert!(!autocorrect::charset::cjk(&classes, *c), "{}", c);
    }
    for c in ['a', 'Z', '0', '_', 'é', 'я'].iter() {
        assert!(autocorrect::charset::word_or_cjk(&classes, *c), "{}", c);
    }
    for c in [' ', '-', '，', '（', '!', '\n', '、'].iter() {
        assert!(!autocorrect::charset::word_or_cjk(&classes, *c), "{}", c);
    }
}

#[test]
fn kinds_decide_what_is_cjk() {
    let text = to_chars("é,aé-é.");
    let as_cjk = |c: &char| Kind {
        script: *c == 'é',
        word: false,
    };
    let kinds: Vec<Kind> = text.iter().map(as_cjk).collect();
    assert_eq!("é，a é - é。", to_string(&format_classified(&text, &kinds)));
    let plain: Vec<Kind> = text.iter().map(|_| no_kind()).collect();
    assert_eq!("é,aé-é.", to_string(&format_classified(&text, &plain)));
    let reserved = to_chars("a,a-a.");
    let all: Vec<Kind> = reserved
        .iter()
        .map(|_| Kind {
            script: true,
            word: true,
        })
        .collect();
    assert_eq!("a,a-a.", to_string(&format_classified(&reserved, &all)));
}

#[test]
fn reserved_characters_keep_no_kind() {
    let text = to_chars("a é，");
    let all: Vec<Kind> = text
        .iter()
        .map(|_| Kind {
            script: true,
            word: true,
        })
        .collect();
    let t = parse_text(&text, &all);
    assert_eq!(no_kind(), t.cells[0].kind);
    assert_eq!(
        Kind {
            script: true,
            word: true
        },
        t.cells[1].kind
    );
    assert_eq!(no_kind(), t.cells[2].kind);
}
