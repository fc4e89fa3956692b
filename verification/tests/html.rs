use iced::widget::markdown::Item;
use iced_longbridge::html::{decode_entities, parse, parse_attrs, parse_tag, to_markdown, Token, Tokenizer};

fn chars(s: &str) -> Vec<char> {
    s.chars().collect()
}

#[test]
fn headings_and_paragraphs() {
    assert_eq!(to_markdown("<h1>Title</h1>"), "\n\n# Title\n");
    assert_eq!(to_markdown("<h3>T</h3><p>Body</p>"), "\n\n### T\n\n\nBody\n");
}

#[test]
fn inline_markup() {
    assert_eq!(to_markdown("<b>x</b> <em>y</em> <code>z</code>"), "**x** *y* `z`");
    assert_eq!(to_markdown("<STRONG>loud</STRONG>"), "**loud**");
}

#[test]
fn lists_are_numbered_per_list() {
    assert_eq!(
        to_markdown("<ol><li>a</li><li>b</li></ol><ul><li>c</li></ul>"),
        "\n\n1. a\n2. b\n\n\n- c\n"
    );
    assert_eq!(to_markdown("<li>loose</li>"), "\n- loose");
}

#[test]
fn links_use_href() {
    assert_eq!(to_markdown("<a href=\"https://x.y/?a=1&amp;b=2\">go</a>"), "[go](https://x.y/?a=1&b=2)");
    assert_eq!(to_markdown("<a>bare</a>"), "[bare]()");
}

#[test]
fn void_tags_and_unknown_tags() {
    assert_eq!(to_markdown("a<br>b<hr/>c"), "a  \nb\n\n---\n\nc");
    assert_eq!(to_markdown("<span class=x>kept</span>"), "kept");
    assert_eq!(to_markdown("<pre>code</pre>"), "\n\n```\ncode\n```\n");
    assert_eq!(to_markdown("<blockquote>q</blockquote>"), "\n\n> q\n");
}

#[test]
fn stray_angle_bracket_is_text() {
    assert_eq!(to_markdown("1 < 2"), "1 < 2");
    assert_eq!(to_markdown("a <3 b"), "a <3 b");
    assert_eq!(to_markdown("x <> y"), "x <> y");
}

#[test]
fn entities_are_decoded_in_order() {
    assert_eq!(decode_entities("&lt;b&gt; &amp; &quot;q&quot; &#39;s&#39;&nbsp;!"), "<b> & \"q\" 's' !");
    assert_eq!(decode_entities("&amp;lt;"), "<");
    assert_eq!(decode_entities("plain"), "plain");
}

#[test]
fn attributes() {
    let a = parse_attrs(&chars(" HREF='a b' disabled x=1 y = 2"));
    let want: Vec<(String, String)> = vec![
        ("href".into(), "a b".into()),
        ("disabled".into(), "".into()),
        ("x".into(), "1".into()),
        ("y".into(), "".into()),
    ];
    assert_eq!(a, want);
    assert!(parse_attrs(&chars("   ")).is_empty());
}

#[test]
fn tags() {
    let src = chars("<A Href=u>");
    match parse_tag(&src, 0) {
        Some((Token::Open(name, attrs), end)) => {
            assert_eq!(name, "a");
            assert_eq!(attrs, vec![("href".to_string(), "u".to_string())]);
            assert_eq!(end, 10);
        }
        other => panic!("unexpected {:?}", other),
    }
    assert!(matches!(parse_tag(&chars("</p>"), 0), Some((Token::Close(n), 4)) if n == "p"));
    assert!(matches!(parse_tag(&chars("<img src=x>"), 0), Some((Token::SelfClose(n), _)) if n == "img"));
    assert!(matches!(parse_tag(&chars("<x  />"), 0), Some((Token::SelfClose(n), _)) if n == "x"));
    assert!(parse_tag(&chars("<1>"), 0).is_none());
    assert!(parse_tag(&chars("<>"), 0).is_none());
    assert!(parse_tag(&chars("< b>"), 0).is_none());
    assert!(parse_tag(&chars("<b"), 0).is_none());
}

#[test]
fn tokenizer_walks_the_source() {
    let mut t = Tokenizer::new("a<b>c</b>");
    assert!(matches!(t.next(), Some(Token::Text(s)) if s == "a"));
    assert!(matches!(t.next(), Some(Token::Open(s, _)) if s == "b"));
    assert!(matches!(t.next(), Some(Token::Text(s)) if s == "c"));
    assert!(matches!(t.next(), Some(Token::Close(s)) if s == "b"));
    assert!(t.next().is_none());
    assert!(t.next().is_none());
}

#[test]
fn text_without_tags_is_only_decoded() {
    assert_eq!(to_markdown("fish &amp; chips"), "fish & chips");
    assert_eq!(to_markdown(""), "");
}

#[test]
fn parse_gives_markdown_items() {
    let items = parse("<h2>Title</h2><p>Body</p><ul><li>a</li><li>b</li></ul>");
    assert_eq!(items.len(), 3);
    assert!(matches!(items[0], Item::Heading(..)));
    assert!(matches!(items[1], Item::Paragraph(..)));
    assert!(matches!(items[2], Item::List { .. }));
    assert!(parse("").is_empty());
}
