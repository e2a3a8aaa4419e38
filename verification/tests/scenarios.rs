use autocorrect::{format_for, format_html, lint_for, Severity};

#[test]
fn plain_text_is_spaced() {
    assert_eq!(
        "长桥 LongBridge App 下载",
        autocorrect::format("长桥LongBridge App下载")
    );
    assert_eq!(
        "Ruby 2.7 版本第 1 次发布",
        autocorrect::format("Ruby 2.7版本第1次发布")
    );
    assert_eq!(
        "Ruby2.7 版本第 1 次发布",
        autocorrect::format("Ruby2.7版本第1次发布")
    );
    assert_eq!(
        "包装日期为 2013 年 3 月 10 日",
        autocorrect::format("包装日期为2013年3月10日")
    );
}

#[test]
fn punctuation_becomes_fullwidth() {
    assert_eq!(
        "测试英文，Comma 逗号转换。",
        autocorrect::format("测试英文,Comma 逗号转换.")
    );
    assert_eq!(
        "第 3 季度 - 财报发布看涨看跌？",
        autocorrect::format("第3季度-财报发布看涨看跌?")
    );
}

#[test]
fn dash_between_ascii_is_kept() {
    assert_eq!("腾讯-ADR-已发行", autocorrect::format("腾讯-ADR-已发行"));
}

#[test]
fn hash_tag_gets_no_space() {
    assert_eq!(
        "HashTag 的演示 #标签",
        autocorrect::format("HashTag 的演示 #标签")
    );
}

#[test]
fn text_without_cjk_is_untouched() {
    let s = "Hello  ,world ( a-b ) ＡＢＣ１２３!";
    assert_eq!(s, autocorrect::format(s));
}

#[test]
fn fullwidth_letters_become_halfwidth() {
    assert_eq!("中文 ABC123", autocorrect::format("中文ＡＢＣ１２３"));
}

#[test]
fn html_text_nodes_are_rewritten() {
    assert_eq!("<p>你好 world</p>", format_html("<p>你好world</p>"));
    let r = format_for("<p class=\"标题a\">你好world</p><!-- 注释abc -->", "html");
    assert_eq!(
        "<p class=\"标题a\">你好 world</p><!-- 注释 abc -->",
        r.out
    );
    assert_eq!("", r.error);
}

#[test]
fn html_script_is_code() {
    let src = "<script>var a = \"中文abc\";</script><b>中文abc</b>";
    assert_eq!(
        "<script>var a = \"中文abc\";</script><b>中文 abc</b>",
        format_html(src)
    );
}

#[test]
fn markdown_fenced_block_is_untouched() {
    let src = "# 标题abc\n\n```rust\nlet a = \"中文abc\";\n```\n\n后面的text和`代码code`以及[链接link](http://a.b/中文abc)\n";
    let expected = "# 标题 abc\n\n```rust\nlet a = \"中文abc\";\n```\n\n后面的 text 和`代码code`以及 [链接 link](http://a.b/中文abc)\n";
    assert_eq!(expected, format_for(src, "md").out);
}

#[test]
fn json_values_are_rewritten_and_keys_kept() {
    assert_eq!(
        "{\"title\":\"你好 world\",\"id\":1}",
        format_for("{\"title\":\"你好world\",\"id\":1}", "json").out
    );
    assert_eq!(
        "{\"标题a\": \"你好 world\"}",
        format_for("{\"标题a\": \"你好world\"}", "json").out
    );
}

#[test]
fn source_comments_and_strings_are_rewritten() {
    let src = "// 第1行注释\nlet a = \"中文abc\"; /* 块注释abc */ let b = \"abc\";\n";
    let expected = "// 第 1 行注释\nlet a = \"中文 abc\"; /* 块注释 abc */ let b = \"abc\";\n";
    assert_eq!(expected, format_for(src, "rs").out);
}

#[test]
fn python_and_sql_comments() {
    assert_eq!(
        "# 注释 abc\nx = '''文档 doc'''\n",
        format_for("# 注释abc\nx = '''文档doc'''\n", "py").out
    );
    assert_eq!(
        "SELECT 1 -- 注释 abc\n",
        format_for("SELECT 1 -- 注释abc\n", "sql").out
    );
}

#[test]
fn yaml_values_are_rewritten() {
    let src = "标题a: 你好world # 注释abc\nlist:\n  - 项目item\n\"键a\": \"值b\"\n";
    let expected = "标题a: 你好 world # 注释 abc\nlist:\n  - 项目 item\n\"键a\": \"值 b\"\n";
    assert_eq!(expected, format_for(src, "yml").out);
}

#[test]
fn strings_values_are_rewritten() {
    assert_eq!(
        "\"键key\" = \"值 value\";\n",
        format_for("\"键key\" = \"值value\";\n", "strings").out
    );
}

#[test]
fn pure_code_round_trips() {
    let src = "fn main() { let a = \"abc\"; } // comment\n";
    assert_eq!(src, format_for(src, "rust").out);
}

#[test]
fn ignore_directive_leaves_document_alone() {
    let src = "# autocorrect: false\nHello 世界abc";
    assert_eq!(src, format_for(src, "rb").out);
    assert_eq!(src, format_for(src, "txt").out);
    let r = lint_for(src, "txt");
    assert!(r.lines.is_empty());
    assert_eq!("", r.error);
    let src2 = "// autocorrect: false\nlet a = \"中文abc\";";
    assert_eq!(src2, format_for(src2, "js").out);
    assert!(lint_for(src2, "js").lines.is_empty());
}

#[test]
fn unknown_type_is_skipped() {
    let src = "中文abc";
    let r = format_for(src, "exe");
    assert_eq!(src, r.out);
    assert_eq!("", r.error);
    assert!(lint_for(src, "exe").lines.is_empty());
    assert!(!autocorrect::is_support_type("exe"));
    assert!(autocorrect::is_support_type("objective-c"));
    assert!(autocorrect::is_support_type("tsx"));
}

#[test]
fn unterminated_literal_is_an_error() {
    let src = "let a = \"中文abc;\n";
    let r = format_for(src, "rs");
    assert_eq!(src, r.out);
    assert_eq!("unterminated comment or literal at character 8", r.error);
    assert!(r.has_error());
    let l = lint_for(src, "rs");
    assert!(l.lines.is_empty());
    assert_eq!("unterminated comment or literal at character 8", l.error);
    assert!(l.has_error());
    let c = format_for("a /* 中文abc", "go");
    assert_eq!("unterminated comment or literal at character 2", c.error);
    let h = format_for("<p>中文abc</p><!-- 中文abc", "html");
    assert_eq!("unterminated comment or literal at character 12", h.error);
    assert_eq!("<p>中文abc</p><!-- 中文abc", h.out);
}

#[test]
fn lint_reports_changed_lines() {
    let r = lint_for("在Ubuntu 11.10系统", "txt");
    assert_eq!(1, r.lines.len());
    assert_eq!("在Ubuntu 11.10系统", r.lines[0].old);
    assert_eq!("在 Ubuntu 11.10 系统", r.lines[0].new);
    assert_eq!(1, r.lines[0].line);
    assert_eq!(1, r.lines[0].col);
    assert_eq!(Severity::Warn, r.lines[0].severity);
    assert_eq!(1, r.lines[0].severity.code());
    assert_eq!("在Ubuntu 11.10系统", r.raw);
}

#[test]
fn lint_counts_lines_and_columns() {
    let src = "ok line\r\n<p>第1段</p>\n<p>fine</p>\n<div>\n  第2段\n</div>";
    let r = lint_for(src, "html");
    assert_eq!(2, r.lines.len());
    assert_eq!((2, 1), (r.lines[0].line, r.lines[0].col));
    assert_eq!("<p>第1段</p>", r.lines[0].old);
    assert_eq!("<p>第 1 段</p>", r.lines[0].new);
    assert_eq!((5, 1), (r.lines[1].line, r.lines[1].col));
    assert_eq!("  第2段", r.lines[1].old);
    assert_eq!("  第 2 段", r.lines[1].new);
}

#[test]
fn lint_result_renders_diff_and_json() {
    let mut r = lint_for("第1行\n好的\n\"第2行\"\t\\", "txt");
    r.filepath = String::from("a/b.txt");
    assert_eq!(
        "a/b.txt:1:1\n- 第1行\n+ 第 1 行\n\na/b.txt:3:1\n- \"第2行\"\t\\\n+ \"第 2 行\"\t\\\n",
        r.to_diff()
    );
    assert_eq!(
        "{\"filepath\":\"a/b.txt\",\"raw\":\"第1行\\n好的\\n\\\"第2行\\\"\\t\\\\\",\"error\":\"\",\"lines\":[{\"line\":1,\"col\":1,\"old\":\"第1行\",\"new\":\"第 1 行\",\"severity\":1},{\"line\":3,\"col\":1,\"old\":\"\\\"第2行\\\"\\t\\\\\",\"new\":\"\\\"第 2 行\\\"\\t\\\\\",\"severity\":1}]}",
        r.to_json()
    );
    let empty = lint_for("fine\u{1}", "txt");
    assert_eq!("", empty.to_diff());
    assert_eq!(
        "{\"filepath\":\"\",\"raw\":\"fine\\u0001\",\"error\":\"\",\"lines\":[]}",
        empty.to_json()
    );
}

#[test]
fn lint_and_format_agree() {
    let docs = [
        ("txt", "中\nＡ"),
        ("txt", "中文\nHello （world）"),
        ("html", "中a<b>中a"),
        ("html", "<p>fine</p>\n<p>好 的</p>"),
        ("md", "# 标题a\n\n```\n代码b\n```\n正文c\n"),
        ("rs", "/* 第1行\n   line two ，three\n   第3行 */ let a = \"b\";\n"),
        ("yml", "a: 值b\nb: c\n"),
        ("txt", "没有问题\n"),
        ("txt", ""),
        ("txt", "\n\n"),
    ];
    for (filetype, doc) in docs.iter() {
        let out = format_for(doc, filetype).out;
        let lines = lint_for(doc, filetype).lines;
        assert_eq!(lines.is_empty(), out == *doc, "{:?}", doc);
        let old: Vec<&str> = doc.split('\n').collect();
        let new: Vec<&str> = out.split('\n').collect();
        assert_eq!(old.len(), new.len());
        let mut at = 0;
        for (k, (a, b)) in old.iter().zip(new.iter()).enumerate() {
            if a != b {
                assert_eq!(k + 1, lines[at].line);
                assert_eq!(1, lines[at].col);
                assert_eq!(*a, lines[at].old);
                assert_eq!(*b, lines[at].new);
                at += 1;
            }
        }
        assert_eq!(at, lines.len());
    }
}

#[test]
fn a_line_without_cjk_in_a_span_with_cjk_is_found() {
    let r = lint_for("中\nＡ", "txt");
    assert_eq!("中\nA", format_for("中\nＡ", "txt").out);
    assert_eq!(1, r.lines.len());
    assert_eq!((2, 1), (r.lines[0].line, r.lines[0].col));
    assert_eq!("Ａ", r.lines[0].old);
    assert_eq!("A", r.lines[0].new);
    let r = lint_for("中文\nHello （world）", "txt");
    assert_eq!(1, r.lines.len());
    assert_eq!(2, r.lines[0].line);
    assert_eq!("Hello （world）", r.lines[0].old);
    assert_eq!("Hello（world）", r.lines[0].new);
}

#[test]
fn one_finding_for_a_line_with_two_spans() {
    let r = lint_for("中a<b>中a\n<i>好</i>\n中b<b>中b", "html");
    assert_eq!(2, r.lines.len());
    assert_eq!((1, 1), (r.lines[0].line, r.lines[0].col));
    assert_eq!("中a<b>中a", r.lines[0].old);
    assert_eq!("中 a<b>中 a", r.lines[0].new);
    assert_eq!((3, 1), (r.lines[1].line, r.lines[1].col));
    assert_eq!("中b<b>中b", r.lines[1].old);
    assert_eq!("中 b<b>中 b", r.lines[1].new);
}

#[test]
fn carriage_return_belongs_to_the_line_end() {
    let r = lint_for("第1行\r\n好的\r\n第3行\r", "txt");
    assert_eq!(2, r.lines.len());
    assert_eq!((1, 1), (r.lines[0].line, r.lines[0].col));
    assert_eq!("第1行", r.lines[0].old);
    assert_eq!("第 1 行", r.lines[0].new);
    assert_eq!(3, r.lines[1].line);
    assert_eq!("第3行", r.lines[1].old);
    assert_eq!("第 3 行", r.lines[1].new);
}

#[test]
fn text_documents_are_formatted_as_plain_text() {
    for s in ["中a\n第2行,b.\nＡ", "", "plain", "中  -  文（ a ）"].iter() {
        assert_eq!(autocorrect::format(s), format_for(s, "txt").out);
        assert_eq!(autocorrect::format(s), format_for(s, "text").out);
    }
}

#[test]
fn fenced_blocks_come_out_as_they_are_and_in_order() {
    let first = "```js\nlet 变量a = \"中文b\"; // 注释c\n~~~\n```\n";
    let second = "  ~~~\n第2块d\n```\n还在块里e\n  ~~~\n";
    let third = "```\n没有结束的块f";
    let src = format!("开头a\n{}中间b `行内c`\n{}结尾d\n{}", first, second, third);
    let out = format_for(&src, "md").out;
    assert_eq!(
        format!("开头 a\n{}中间 b `行内c`\n{}结尾 d\n{}", first, second, third),
        out
    );
    let at_first = out.find(first).unwrap();
    let at_second = out.find(second).unwrap();
    let at_third = out.find(third).unwrap();
    assert!(at_first < at_second && at_second < at_third);
    assert!(lint_for(&src, "md")
        .lines
        .iter()
        .all(|l| l.line == 1 || l.line == 6 || l.line == 12));
    assert_eq!(3, lint_for(&src, "md").lines.len());
}
