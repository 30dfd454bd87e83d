use codeg::chat::tg_html::{collect_fence, escape, inline_plain, line_html, pre_block, render_chunk};

fn r(md: &str) -> String {
    render_chunk(md, &mut None)
}

#[test]
fn inline_styles_and_escaping() {
    assert_eq!(r("**运行环境**:a < b & c"), "<b>运行环境</b>:a &lt; b &amp; c");
    assert_eq!(r("用 `rm -rf <dir>` 删"), "用 <code>rm -rf &lt;dir&gt;</code> 删");
    assert_eq!(r("~~旧~~ 新"), "<s>旧</s> 新");
    assert_eq!(r("这是 *重点* 内容"), "这是 <i>重点</i> 内容");
    assert_eq!(
        r("见 [文档](https://a.com/x?y=1&z=2)"),
        r#"见 <a href="https://a.com/x?y=1&amp;z=2">文档</a>"#
    );
}

#[test]
fn snake_case_and_math_are_left_alone() {
    assert_eq!(r("my_var_name 和 2 * 3 * 4"), "my_var_name 和 2 * 3 * 4");
}

#[test]
fn blocks() {
    assert_eq!(r("# 服务器状态总结"), "<b>服务器状态总结</b>");
    assert_eq!(r("- 根分区 `/` 充裕\n  - 子项"), "• 根分区 <code>/</code> 充裕\n  • 子项");
    assert_eq!(r("> 引用一\n> 引用二"), "<blockquote>引用一\n引用二</blockquote>");
    assert_eq!(r("---"), "──────────");
    assert_eq!(r("|a|b|\n|-|-|\n|1|2|"), "<pre>|a|b|\n|-|-|\n|1|2|</pre>");
}

#[test]
fn half_written_markdown_stays_valid_for_drafts() {
    assert_eq!(r("## 服务器 **内存状态"), "<b>服务器 **内存状态</b>");
    assert_eq!(r("看 `df -h"), "看 `df -h");
    assert_eq!(r("```bash\ndf -h"), "<pre><code class=\"language-bash\">df -h</code></pre>");
}

#[test]
fn fenced_code_keeps_content_verbatim() {
    let md = "看:\n```bash\necho \"**x**\" <in\n```\n完";
    assert_eq!(
        r(md),
        "看:\n<pre><code class=\"language-bash\">echo \"**x**\" &lt;in</code></pre>\n完"
    );
}

#[test]
fn fence_split_across_chunks_stays_code_on_both_sides() {
    let mut open = None;
    let a = render_chunk("前\n```rust\nfn a() {}", &mut open);
    assert_eq!(a, "前\n<pre><code class=\"language-rust\">fn a() {}</code></pre>");
    assert_eq!(open.as_deref(), Some("rust"));
    let b = render_chunk("fn b() {}\n```\n后", &mut open);
    assert_eq!(b, "<pre><code class=\"language-rust\">fn b() {}</code></pre>\n后");
    assert_eq!(open, None);
}

#[test]
fn a_chunk_inside_code_without_a_fence_leaves_it_open() {
    let mut open = Some("py".to_string());
    assert_eq!(
        render_chunk("a\n\nb", &mut open),
        "<pre><code class=\"language-py\">a\n\nb</code></pre>"
    );
    assert_eq!(open.as_deref(), Some("py"));
}

#[test]
fn languages_are_cleaned() {
    assert_eq!(
        pre_block("c++\" onload=\"x", "1 < 2"),
        "<pre><code class=\"language-c++onloadx\">1 &lt; 2</code></pre>"
    );
    assert_eq!(pre_block("", "a & b"), "<pre>a &amp; b</pre>");
}

#[test]
fn ticks_need_a_partner_and_content() {
    assert_eq!(codeg::chat::tg_html::inline("a `b` c `d"), "a <code>b</code> c `d");
    assert_eq!(codeg::chat::tg_html::inline("a `` b"), "a `` b");
    assert_eq!(codeg::chat::tg_html::inline("`x``y`"), "<code>x</code><code>y</code>");
    assert_eq!(codeg::chat::tg_html::inline(""), "");
}

#[test]
fn escaping_replaces_each_special_character() {
    assert_eq!(escape("<a href='x'>&amp;</a>"), "&lt;a href='x'&gt;&amp;amp;&lt;/a&gt;");
}

#[test]
fn fences_are_collected_up_to_their_end() {
    let lines: Vec<String> = ["a", "b", " ```", "c"].iter().map(|s| s.to_string()).collect();
    assert_eq!(collect_fence(&lines, 0), ("a\nb".to_string(), 3, true));
    assert_eq!(collect_fence(&lines, 3), ("c".to_string(), 4, false));
}

#[test]
fn a_line_is_what_its_patterns_found() {
    assert_eq!(line_html("# t ##", Some("t ##".to_string()), false, None), "<b>t</b>");
    assert_eq!(line_html("***", None, true, None), "──────────");
    assert_eq!(line_html("  * x", None, false, Some("x".to_string())), "  • x");
    assert_eq!(line_html("plain", None, false, None), "plain");
}

#[test]
fn headings_lists_and_rules_are_told_apart() {
    assert_eq!(r("####### seven"), "####### seven");
    assert_eq!(r("#nospace"), "#nospace");
    assert_eq!(r("* * *"), "• * *");
    assert_eq!(r("+ plus\n- minus"), "• plus\n• minus");
    assert_eq!(r("__init__ and __b__"), "<b>init</b> and <b>b</b>");
}

#[test]
fn half_a_mark_stays_as_it_is() {
    assert_eq!(inline_plain("a **b & ~~c"), "a **b &amp; ~~c");
    assert_eq!(inline_plain("a **b** & ~~c~~"), "a <b>b</b> &amp; <s>c</s>");
}

/// Whether every tag is closed, the last that is open first.
fn is_nested(html: &str) -> bool {
    let mut open: Vec<String> = Vec::new();
    let mut rest = html;
    while let Some(start) = rest.find('<') {
        let Some(end) = rest[start..].find('>') else {
            return false;
        };
        let tag = &rest[start + 1..start + end];
        match tag.strip_prefix('/') {
            Some(name) => {
                if open.pop().as_deref() != Some(name) {
                    return false;
                }
            }
            None => open.push(tag.split(' ').next().unwrap_or("").to_string()),
        }
        rest = &rest[start + end + 1..];
    }
    open.is_empty()
}

#[test]
fn every_chunk_is_nested_half_a_reply_too() {
    let mut fence = None;
    for md in [
        "# **T** `x<y`\n> a **b**\n> `c`\n|a|b|\n- *i* <t>\n```rust\nlet a = 1 < 2;",
        "b\n```\n[l](https://e.org) **half",
        "```c++\nx",
    ] {
        let html = render_chunk(md, &mut fence);
        assert!(is_nested(&html), "{html}");
    }
    assert_eq!(fence.as_deref(), Some("c++"));
    assert!(!is_nested(&render_chunk("**a ~~b** c~~", &mut None)));
}
