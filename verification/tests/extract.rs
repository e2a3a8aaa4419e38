use autocorrect::charset::{classify, Kind};
use autocorrect::filetype::syntax_of;
use autocorrect::format_for;
use autocorrect::span::{Span, SpanKind};
use autocorrect::text::{to_chars, to_string};
use autocorrect::token::{extract, Syntax};
use autocorrect::unicode::Classes;

fn spans_of(syntax: Syntax, raw: &str) -> Vec<(SpanKind, String)> {
    let classes = Classes::new().unwrap();
    let chars = to_chars(raw);
    let kinds = classify(&classes, &chars);
    let spans: Vec<Span> = extract(syntax, &chars, &kinds).unwrap();
    let mut at = 0;
    let mut whole = String::new();
    let mut out = Vec::new();
    for span in spans.iter() {
        assert_eq!(at, span.start);
        assert!(span.start < span.end);
        let text = to_string(&span.text(&chars));
        whole.push_str(&text);
        out.push((span.kind, text));
        at = span.end;
    }
    assert_eq!(chars.len(), at);
    assert_eq!(raw, whole);
    out
}

fn pair(kind: SpanKind, text: &str) -> (SpanKind, String) {
    (kind, String::from(text))
}

#[test]
fn spans_cover_the_document() {
    let docs = [
        "",
        "plain 文本text",
        "<p>你好world</p><!-- 注释 --><script>x<y</script>",
        "# 标题\n\n```\ncode 代码\n```\n正文text `code` [a](b)\n",
        "key: 值value # 注释\n- \"引号\"\n",
        "let a = \"中文\"; // 注释\n/* 块 */ 'x'",
    ];
    let kinds = [
        Syntax::Text,
        Syntax::Html,
        Syntax::Markdown,
        Syntax::Yaml,
        Syntax::Rust,
        Syntax::JavaScript,
        Syntax::Python,
        Syntax::Sql,
        Syntax::Json,
        Syntax::Strings,
    ];
    for doc in docs.iter() {
        for kind in kinds.iter() {
            let classes = Classes::new().unwrap();
            let chars = to_chars(doc);
            let kinds = classify(&classes, &chars);
            if let Ok(spans) = extract(*kind, &chars, &kinds) {
                let mut whole = String::new();
                for span in spans.iter() {
                    whole.push_str(&to_string(&span.text(&chars)));
                }
                assert_eq!(*doc, whole);
            }
        }
    }
}

#[test]
fn text_is_one_span() {
    assert_eq!(
        vec![pair(SpanKind::Text, "第1行\n第2行")],
        spans_of(Syntax::Text, "第1行\n第2行")
    );
    assert!(spans_of(Syntax::Text, "").is_empty());
}

#[test]
fn html_spans() {
    assert_eq!(
        vec![
            pair(SpanKind::Code, "<p class=\"a\">"),
            pair(SpanKind::Text, "你好 a "),
            pair(SpanKind::Text, "< b"),
            pair(SpanKind::Text, "< b"),
            pair(SpanKind::Code, "</p>"),
            pair(SpanKind::Code, "<!--"),
            pair(SpanKind::Comment, " 注释 "),
            pair(SpanKind::Code, "-->"),
            pair(SpanKind::Code, "<STYLE>p{}</style >"),
            pair(SpanKind::Text, "尾"),
        ],
        spans_of(
            Syntax::Html,
            "<p class=\"a\">你好 a < b< b</p><!-- 注释 --><STYLE>p{}</style >尾"
        )
    );
}

#[test]
fn source_spans() {
    assert_eq!(
        vec![
            pair(SpanKind::Code, "let a = "),
            pair(SpanKind::Code, "\""),
            pair(SpanKind::InlineString, "中\\\"文"),
            pair(SpanKind::Code, "\""),
            pair(SpanKind::Code, "; "),
            pair(SpanKind::Code, "//"),
            pair(SpanKind::Comment, " 注释"),
            pair(SpanKind::Code, "\nb = "),
            pair(SpanKind::Code, "\""),
            pair(SpanKind::Code, "abc"),
            pair(SpanKind::Code, "\""),
            pair(SpanKind::Code, " "),
            pair(SpanKind::Code, "/*"),
            pair(SpanKind::Comment, " 块\n注释 "),
            pair(SpanKind::Code, "*/"),
        ],
        spans_of(
            Syntax::Rust,
            "let a = \"中\\\"文\"; // 注释\nb = \"abc\" /* 块\n注释 */"
        )
    );
}

#[test]
fn json_keys_are_code() {
    assert_eq!(
        vec![
            pair(SpanKind::Code, "{"),
            pair(SpanKind::Code, "\""),
            pair(SpanKind::Code, "键"),
            pair(SpanKind::Code, "\""),
            pair(SpanKind::Code, " : "),
            pair(SpanKind::Code, "\""),
            pair(SpanKind::InlineString, "值"),
            pair(SpanKind::Code, "\""),
            pair(SpanKind::Code, "}"),
        ],
        spans_of(Syntax::Json, "{\"键\" : \"值\"}")
    );
}

#[test]
fn dialects_tell_their_literals() {
    let cases = [
        ("go", "a := `原始raw` // 注释abc", "a := `原始 raw` // 注释 abc"),
        ("go", "r := '中'", "r := '中'"),
        ("js", "let s = '单引号a' + `模板b`; /* 块c */", "let s = '单引号 a' + `模板 b`; /* 块 c */"),
        ("ts", "const s = \"双引号a\" // 注释b", "const s = \"双引号 a\" // 注释 b"),
        ("rb", "s = '单引号a' # 注释b\n// 不是注释c", "s = '单引号 a' # 注释 b\n// 不是注释c"),
        ("py", "s = \"\"\"文档a\n第2行\"\"\" # 注释b", "s = \"\"\"文档 a\n第 2 行\"\"\" # 注释 b"),
        ("php", "$s = '字符串a'; # 注释b\n// 注释c", "$s = '字符串 a'; # 注释 b\n// 注释 c"),
        ("css", "a { content: '内容a'; } /* 注释b */", "a { content: '内容 a'; } /* 注释 b */"),
        ("java", "String s = \"字符串a\"; char c = '中'; // 注释b", "String s = \"字符串 a\"; char c = '中'; // 注释 b"),
        ("kotlin", "val s = \"\"\"多行a\"\"\" // 注释b", "val s = \"\"\"多行 a\"\"\" // 注释 b"),
        ("swift", "let s = \"字符串a\" /* 注释b */", "let s = \"字符串 a\" /* 注释 b */"),
        ("dart", "var s = '字符串a'; // 注释b", "var s = '字符串 a'; // 注释 b"),
        ("cs", "var s = \"字符串a\"; // 注释b", "var s = \"字符串 a\"; // 注释 b"),
        ("m", "NSString *s = @\"字符串a\"; // 注释b", "NSString *s = @\"字符串 a\"; // 注释 b"),
        ("sql", "SELECT '字符串a' -- 注释b\n/* 块c */ # 不是注释d", "SELECT '字符串 a' -- 注释 b\n/* 块 c */ # 不是注释d"),
        ("json", "{\"a\": \"值b\" /* 注释c */}", "{\"a\": \"值 b\" /* 注释 c */}"),
    ];
    for (filetype, source, expected) in cases.iter() {
        let r = format_for(source, filetype);
        assert_eq!("", r.error, "{}", filetype);
        assert_eq!(*expected, r.out, "{}", filetype);
    }
}

#[test]
fn markdown_spans() {
    let src = "正文a\n    缩进b\n\t制表c\n~~~\n围栏d\n~~~\n<b>粗体e</b> 和 `行内f` 和 ![图g](h.png) 没有闭合`的i\n";
    let expected = "正文 a\n    缩进b\n\t制表c\n~~~\n围栏d\n~~~\n<b>粗体 e</b> 和 `行内f` 和 ![图 g](h.png) 没有闭合`的 i\n";
    assert_eq!(expected, format_for(src, "markdown").out);
    let open = "```\n没有结束的围栏a\n";
    assert_eq!(open, format_for(open, "md").out);
}

#[test]
fn yaml_spans() {
    assert_eq!(
        vec![
            pair(SpanKind::Code, "name: "),
            pair(SpanKind::InlineString, "值a "),
            pair(SpanKind::Code, "#"),
            pair(SpanKind::Comment, " 注释b"),
            pair(SpanKind::Code, "\n"),
            pair(SpanKind::Code, "url: "),
            pair(SpanKind::Code, "http://a.b/c#d"),
            pair(SpanKind::Code, "\n"),
            pair(SpanKind::Code, "'"),
            pair(SpanKind::Code, "键c"),
            pair(SpanKind::Code, "'"),
            pair(SpanKind::Code, ": "),
            pair(SpanKind::Code, "'"),
            pair(SpanKind::InlineString, "值d"),
            pair(SpanKind::Code, "'"),
        ],
        spans_of(Syntax::Yaml, "name: 值a # 注释b\nurl: http://a.b/c#d\n'键c': '值d'")
    );
}

#[test]
fn every_file_type_has_its_kind() {
    let table = [
        ("html", Syntax::Html),
        ("htm", Syntax::Html),
        ("yaml", Syntax::Yaml),
        ("yml", Syntax::Yaml),
        ("rs", Syntax::Rust),
        ("rust", Syntax::Rust),
        ("sql", Syntax::Sql),
        ("rb", Syntax::Ruby),
        ("cr", Syntax::Ruby),
        ("crystal", Syntax::Ruby),
        ("ruby", Syntax::Ruby),
        ("js", Syntax::JavaScript),
        ("jsx", Syntax::JavaScript),
        ("ts", Syntax::JavaScript),
        ("tsx", Syntax::JavaScript),
        ("javascript", Syntax::JavaScript),
        ("typescript", Syntax::JavaScript),
        ("css", Syntax::Css),
        ("scss", Syntax::Css),
        ("sass", Syntax::Css),
        ("less", Syntax::Css),
        ("json", Syntax::Json),
        ("go", Syntax::Go),
        ("py", Syntax::Python),
        ("python", Syntax::Python),
        ("m", Syntax::ObjectiveC),
        ("h", Syntax::ObjectiveC),
        ("objective-c", Syntax::ObjectiveC),
        ("objective_c", Syntax::ObjectiveC),
        ("strings", Syntax::Strings),
        ("cs", Syntax::CSharp),
        ("csharp", Syntax::CSharp),
        ("java", Syntax::Java),
        ("swift", Syntax::Swift),
        ("kotlin", Syntax::Kotlin),
        ("php", Syntax::Php),
        ("dart", Syntax::Dart),
        ("md", Syntax::Markdown),
        ("markdown", Syntax::Markdown),
        ("txt", Syntax::Text),
        ("text", Syntax::Text),
        ("plain", Syntax::Text),
    ];
    for (name, kind) in table.iter() {
        assert_eq!(Some(*kind), syntax_of(name), "{}", name);
    }
    for name in ["", "HTML", "kt", "exe", "rs ", ".rs"].iter() {
        assert_eq!(None, syntax_of(name), "{}", name);
    }
}

#[test]
fn literals_are_prose_by_their_kinds() {
    let chars = to_chars("a = \"xy\"");
    let kinds_with = |marked: char| -> Vec<Kind> {
        chars
            .iter()
            .map(|c| Kind {
                script: *c == marked,
                word: false,
            })
            .collect()
    };
    let kind_of_literal = |kinds: &Vec<Kind>| -> SpanKind {
        let spans = extract(Syntax::Rust, &chars, kinds).unwrap();
        spans
            .iter()
            .find(|span| span.start == 5)
            .map(|span| span.kind)
            .unwrap()
    };
    assert_eq!(SpanKind::Code, kind_of_literal(&kinds_with('x')));
    assert_eq!(SpanKind::Code, kind_of_literal(&kinds_with('a')));
    let chars = to_chars("a = \"éy\"");
    let spans = extract(
        Syntax::Rust,
        &chars,
        &chars
            .iter()
            .map(|c| Kind {
                script: *c == 'é',
                word: false,
            })
            .collect(),
    )
    .unwrap();
    assert_eq!(
        Some(SpanKind::InlineString),
        spans.iter().find(|span| span.start == 5).map(|span| span.kind)
    );
}

#[test]
fn spans_in_bytes() {
    let raw = to_chars("a中é😀b");
    let range = |start: usize, end: usize| {
        Span {
            kind: SpanKind::Code,
            start,
            end,
        }
        .byte_range(&raw)
    };
    assert_eq!(Some((0, 0)), range(0, 0));
    assert_eq!(Some((0, 1)), range(0, 1));
    assert_eq!(Some((1, 4)), range(1, 2));
    assert_eq!(Some((4, 6)), range(2, 3));
    assert_eq!(Some((6, 10)), range(3, 4));
    assert_eq!(Some((10, 11)), range(4, 5));
    assert_eq!(Some((11, 11)), range(5, 5));
    assert_eq!(Some((1, 11)), range(1, 5));
    assert_eq!("a中é😀b".len(), range(0, 5).unwrap().1);
}
