use autocorrect::date::remove_full_date_spacing;
use autocorrect::output::{diff_report, exit_code, json_report, Output};
use autocorrect::text::{to_chars, to_string};
use autocorrect::{format_and_output, lint_and_output};

#[test]
fn lint_and_output_appends_findings() {
    let mut results: Vec<String> = vec![String::from("before")];
    lint_and_output("a.txt", "txt", "没有问题", "diff", &mut results);
    assert_eq!(1, results.len());
    lint_and_output("a.txt", "txt", "第1行", "diff", &mut results);
    assert_eq!(2, results.len());
    assert_eq!("a.txt:1:1\n- 第1行\n+ 第 1 行\n", results[1]);
    lint_and_output("b.md", "md", "第2行", "json", &mut results);
    assert_eq!(3, results.len());
    assert_eq!(
        "{\"filepath\":\"b.md\",\"raw\":\"第2行\",\"error\":\"\",\"lines\":[{\"line\":1,\"col\":1,\"old\":\"第2行\",\"new\":\"第 2 行\",\"severity\":1}]}",
        results[2]
    );
    lint_and_output("c.txt", "txt", "autocorrect: false 第3行", "diff", &mut results);
    lint_and_output("c.bin", "bin", "第3行", "diff", &mut results);
    lint_and_output("c.rs", "rs", "let a = \"第3行", "diff", &mut results);
    assert_eq!(3, results.len());
}

#[test]
fn format_and_output_says_what_to_do() {
    match format_and_output("a.txt", "txt", "第1行", false) {
        Output::Print(text) => assert_eq!("第 1 行", text),
        other => panic!("{:?}", other),
    }
    match format_and_output("a.txt", "txt", "第1行", true) {
        Output::Write { content, changed } => {
            assert_eq!("第 1 行", content);
            assert!(changed);
        }
        other => panic!("{:?}", other),
    }
    match format_and_output("a.txt", "txt", "第 1 行", true) {
        Output::Write { content, changed } => {
            assert_eq!("第 1 行", content);
            assert!(!changed);
        }
        other => panic!("{:?}", other),
    }
    assert!(matches!(
        format_and_output("", "txt", "第1行", true),
        Output::Skip
    ));
    assert!(matches!(
        format_and_output("a.rs", "rs", "/* 第1行", true),
        Output::Skip
    ));
    match format_and_output("a.rs", "rs", "/* 第1行", false) {
        Output::Report(text) => assert_eq!("/* 第1行", text),
        other => panic!("{:?}", other),
    }
}

#[test]
fn reports_and_exit_codes() {
    let none: Vec<String> = Vec::new();
    let two = vec![String::from("{\"a\":1}"), String::from("{\"b\":2}")];
    assert_eq!("{\"count\": 0,\"messages\": []}", json_report(&none));
    assert_eq!(
        "{\"count\": 2,\"messages\": [{\"a\":1},{\"b\":2}]}",
        json_report(&two)
    );
    assert_eq!("", diff_report(&none));
    assert_eq!("{\"a\":1}\n{\"b\":2}", diff_report(&two));
    assert_eq!(0, exit_code("diff", 0));
    assert_eq!(1, exit_code("diff", 12));
    assert_eq!(0, exit_code("json", 12));
}

#[test]
fn full_dates_are_set_tight() {
    let tight = |s: &str| to_string(&remove_full_date_spacing(&to_chars(s)));
    assert_eq!("发布2013年3月10号公布", tight("发布 2013 年 3 月 10 号 公布"));
    assert_eq!("发布2013年3月10日", tight("发布2013 年 3 月 10日"));
    assert_eq!("发布2013 年 3 月10日", tight("发布2013 年 3 月10日"));
    assert_eq!("于 3 月 10 日开始", tight("于 3 月 10 日开始"));
    assert_eq!("2013年3月10日", tight("2013年 3月 10日"));
    assert_eq!("2013年3月10日", tight("2013年3月10日"));
    assert_eq!("a 2013 年 3 月开始", tight("a 2013 年 3 月开始"));
}
