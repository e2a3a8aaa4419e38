fn assert_cases(cases: &[(&str, &str)]) {
    for (source, expected) in cases.iter() {
        let actual = autocorrect::format(source);
        assert_eq!(*expected, actual);
    }
}

#[test]
fn it_format() {
    let cases = [
        (
            "!sm",
            "!sm",
        ),
        (
            "Hello world!",
            "Hello world!",
        ),
        (
            "部署到 heroku 有问题网页不能显示",
            "部署到 heroku 有问题网页不能显示",
        ),
        (
            "[北京] 美企聘 site/web 大型应用开发高手-Ruby",
            "[北京] 美企聘 site/web 大型应用开发高手-Ruby",
        ),
        (
            "[成都](团 800) 招聘 Rails 工程师",
            "[成都](团 800) 招聘 Rails 工程师",
        ),
        (
            "Teahour.fm 第 18 期发布",
            "Teahour.fm 第 18 期发布",
        ),
        (
            "Yes！升级到了 Rails 4",
            "Yes！升级到了 Rails 4",
        ),
        (
            "WWDC 上讲到的 Objective C/LLVM 改进",
            "WWDC 上讲到的 Objective C/LLVM 改进",
        ),
        (
            "在 Ubuntu11.10 64 位系统安装 newrelic 出错",
            "在 Ubuntu11.10 64 位系统安装 newrelic 出错",
        ),
        (
            "升级了 macOS 10.9 附遇到的 Bug 概率有 0.1% 或更少",
            "升级了 macOS 10.9 附遇到的 Bug 概率有 0.1% 或更少",
        ),
        (
            "在做 Rails 3.2 Tutorial 第 Chapter 9.4.2 遇到一个问题求助！",
            "在做 Rails 3.2 Tutorial 第 Chapter 9.4.2 遇到一个问题求助！",
        ),
        (
            "发现 macOS 安装软件新方法：Homebrew",
            "发现 macOS 安装软件新方法：Homebrew",
        ),
        (
            "without looking like it’s been marked up with tags or formatting instructions.",
            "without looking like it’s been marked up with tags or formatting instructions.",
        ),
        (
            "隔夜 SHIBOR 报 1.5530%，上涨 33.80 个基点。7 天 SHIBOR 报 2.3200%，上涨 6.10 个基点。3 个月 SHIBOR 报 2.8810%，下降 1.80 个",
            "隔夜 SHIBOR 报 1.5530%，上涨 33.80 个基点。7 天 SHIBOR 报 2.3200%，上涨 6.10 个基点。3 个月 SHIBOR 报 2.8810%，下降 1.80 个",
        ),
        (
            "野村：重申吉利汽车 (00175)“买入” 评级 上调目标价至 17.9 港元",
            "野村：重申吉利汽车 (00175)“买入” 评级 上调目标价至 17.9 港元",
        ),
        (
            "小米集团-W 调整目标价为 13.5 港币",
            "小米集团-W 调整目标价为 13.5 港币",
        ),
        (
            "（路透社）- 预计全年净亏损约 1.3 亿港元 * 预期因出售汽车",
            "（路透社）- 预计全年净亏损约 1.3 亿港元 * 预期因出售汽车",
        ),
        (
            "（路透社）- 预计全年净亏损约 1.3 亿\n\n 港元 * 预期因出售汽车",
            "（路透社）- 预计全年净亏损约 1.3 亿\n\n 港元 * 预期因出售汽车",
        ),
    ];
    assert_cases(&cases);
}

#[test]
fn it_format_for_specials() {
    let cases = [
        (
            "记事本，记事本显示阅读次数#149",
            "记事本，记事本显示阅读次数#149",
        ),
        (
            "HashTag 的演示 #标签",
            "HashTag 的演示 #标签",
        ),
        (
            "HashTag 的演示 #标签# 演示",
            "HashTag 的演示 #标签# 演示",
        ),
        (
            "Mention 里面有关于中文的 @某某人",
            "Mention 里面有关于中文的 @某某人",
        ),
        (
            "里面用 @foo 符号的话后面的变量名会被替换成 userN",
            "里面用 @foo 符号的话后面的变量名会被替换成 userN",
        ),
        (
            "Dollar 的演示 $阿里巴巴.US$ 股票标签",
            "Dollar 的演示 $阿里巴巴.US$ 股票标签",
        ),
        (
            "测试英文,逗号Comma转换.",
            "测试英文，逗号 Comma 转换。",
        ),
        (
            "测试英文,Comma 逗号转换.",
            "测试英文，Comma 逗号转换。",
        ),
        (
            "英文, 逗号后面. 阿里巴巴.US有空格? 的情况! 测试",
            "英文，逗号后面。阿里巴巴.US 有空格？的情况！测试",
        ),
    ];
    assert_cases(&cases);
}

#[test]
fn it_format_for_date() {
    let cases = [
        (
            "于 3 月 10 日开始",
            "于 3 月 10 日开始",
        ),
        (
            "于 3 月开始",
            "于 3 月开始",
        ),
        (
            "于 2009 年开始",
            "于 2009 年开始",
        ),
        (
            "正式发布2013年3月10日-Ruby Saturday 活动召集",
            "正式发布 2013 年 3 月 10 日-Ruby Saturday 活动召集",
        ),
        (
            "正式发布2013年3月10号发布",
            "正式发布 2013 年 3 月 10 号发布",
        ),
        (
            "2013年12月22号开始出发",
            "2013 年 12 月 22 号开始出发",
        ),
        (
            "12 月 22 号开始出发",
            "12 月 22 号开始出发",
        ),
        (
            "22 号开始出发",
            "22 号开始出发",
        ),
    ];
    assert_cases(&cases);
}

#[test]
fn it_format_for_english_letter() {
    let cases = [
        (
            "长桥 LongBridge App 下载",
            "长桥 LongBridge App 下载",
        ),
    ];
    assert_cases(&cases);
}

#[test]
fn it_format_for_number() {
    let cases = [
        (
            "在 Ubuntu 11.10 64 位系统安装 Go 出错",
            "在 Ubuntu 11.10 64 位系统安装 Go 出错",
        ),
        (
            "喜欢暗黑 2 却对 D3 不满意的可以看看这个。",
            "喜欢暗黑 2 却对 D3 不满意的可以看看这个。",
        ),
        (
            "Ruby 2.7 版本第 3 次发布",
            "Ruby 2.7 版本第 3 次发布",
        ),
    ];
    assert_cases(&cases);
}

#[test]
fn it_format_for_special_symbols() {
    let cases = [
        (
            "公告:(美股) 阿里巴巴 [BABA.US] 发布 2019 下半年财报！",
            "公告:(美股) 阿里巴巴 [BABA.US] 发布 2019 下半年财报！",
        ),
        (
            "消息 http://github.com 解禁了",
            "消息 http://github.com 解禁了",
        ),
        (
            "美股异动 | 阿帕奇石油 (APA.US) 盘前涨超 15% 在苏里南近海发现大量石油",
            "美股异动 | 阿帕奇石油 (APA.US) 盘前涨超 15% 在苏里南近海发现大量石油",
        ),
        (
            "美国统计局：美国 11 月原油出口下降至 302.3 万桶/日，10 月为 338.3 万桶/日。",
            "美国统计局：美国 11 月原油出口下降至 302.3 万桶/日，10 月为 338.3 万桶/日。",
        ),
        (
            "[b]Foo bar dar[/b]",
            "[b]Foo bar dar[/b]",
        ),
    ];
    assert_cases(&cases);
}

#[test]
fn it_format_for_fullwidth_symbols() {
    let cases = [
        (
            "（美股）市场：发布「最新」100 消息【BABA.US】“大涨”50%；同比上涨 20%！",
            "（美股）市场：发布「最新」100 消息【BABA.US】“大涨”50%；同比上涨 20%！",
        ),
        (
            "第 3 季度财报发布看涨看跌？敬请期待。",
            "第 3 季度财报发布看涨看跌？敬请期待。",
        ),
    ];
    assert_cases(&cases);
}

#[test]
fn it_format_for_space_dash_with_hans() {
    let cases = [
        (
            "第 3 季度 - 财报发布看涨看跌？敬请期待。",
            "第 3 季度 - 财报发布看涨看跌？敬请期待。",
        ),
        (
            "腾讯-ADR-已发行",
            "腾讯-ADR-已发行",
        ),
        (
            "（腾讯）- 发布 -（新版）本微信",
            "（腾讯）- 发布 -（新版）本微信",
        ),
        (
            "【腾讯】- 发布 -【新版】本微信",
            "【腾讯】- 发布 -【新版】本微信",
        ),
        (
            "「腾讯」- 发布 -「新版」本微信",
            "「腾讯」- 发布 -「新版」本微信",
        ),
        (
            "《腾讯》- 发布 -《新版》本微信",
            "《腾讯》- 发布 -《新版》本微信",
        ),
        (
            "“腾讯” - 发布 - “新版” 本微信",
            "“腾讯” - 发布 - “新版” 本微信",
        ),
        (
            "‘腾讯’ - 发布 - ‘新版’ 本微信",
            "‘腾讯’ - 发布 - ‘新版’ 本微信",
        ),
    ];
    assert_cases(&cases);
}

#[test]
fn it_format_for_cjk() {
    let cases = [
        (
            "全世界已有数百家公司在生产环境中使用 Rust，以达到快速、跨平台、低资源占用的目的。很多著名且受欢迎的软件，例如 Firefox、 Dropbox 和 Cloudflare 都在使用 Rust。",
            "全世界已有数百家公司在生产环境中使用 Rust，以达到快速、跨平台、低资源占用的目的。很多著名且受欢迎的软件，例如 Firefox、 Dropbox 和 Cloudflare 都在使用 Rust。",
        ),
        (
            "現今全世界上百家公司企業為了尋求快速、節約資源而且能跨平台的解決辦法，都已在正式環境中使用 Rust。許多耳熟能詳且受歡迎的軟體，諸如 Firefox、Dropbox 以及 Cloudflare 都在使用 Rust。",
            "現今全世界上百家公司企業為了尋求快速、節約資源而且能跨平台的解決辦法，都已在正式環境中使用 Rust。許多耳熟能詳且受歡迎的軟體，諸如 Firefox、Dropbox 以及 Cloudflare 都在使用 Rust。",
        ),
        (
            "既に、世界中の数百という企業が Rust を採用し、高速で低リソースのクロスプラットフォームソリューションを実現しています。皆さんがご存じで愛用しているソフトウェア、例えば Firefox、Dropbox や Cloudflare も、Rust を採用しています。",
            "既に、世界中の数百という企業が Rust を採用し、高速で低リソースのクロスプラットフォームソリューションを実現しています。皆さんがご存じで愛用しているソフトウェア、例えば Firefox、Dropbox や Cloudflare も、Rust を採用しています。",
        ),
        (
            "전 세계 수백 개의 회사가 프로덕션 환경에서 Rust 를 사용하여 빠르고， 크로스 플랫폼 및 낮은 리소스 사용량을 달성했습니다. Firefox, Dropbox 및 Cloudflare 와 같이 잘 알려져 있고 널리 사용되는 많은 소프트웨어가 Rust 를 사용하고 있습니다.",
            "전 세계 수백 개의 회사가 프로덕션 환경에서 Rust 를 사용하여 빠르고， 크로스 플랫폼 및 낮은 리소스 사용량을 달성했습니다. Firefox, Dropbox 및 Cloudflare 와 같이 잘 알려져 있고 널리 사용되는 많은 소프트웨어가 Rust 를 사용하고 있습니다。",
        ),
    ];
    assert_cases(&cases);
}
