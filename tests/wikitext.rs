use wiki_data::wikitext::{unescape, MarkupNode, WikiText};

#[test]
fn break_tag_becomes_newline() {
    assert_eq!(WikiText::new("Line1&lt;br&gt;Line2").text, "Line1\nLine2");
    assert_eq!(WikiText::new("Line1<br>Line2").text, "Line1\nLine2");
}

#[test]
fn nested_tags_keep_only_their_text() {
    assert_eq!(WikiText::new("<b>bold <i>deep</i></b> end").text, "bold deep end");
    assert_eq!(WikiText::new("&lt;span class=&quot;x&quot;&gt;Hi&lt;/span&gt;").text, "Hi");
}

#[test]
fn entities_are_replaced() {
    assert_eq!(unescape("a &lt; b &gt; c &amp; &quot;d&quot; &#39;e&#39;"), "a < b > c & \"d\" 'e'");
    assert_eq!(unescape("&amp;lt;"), "&lt;");
    assert_eq!(unescape("&amp;quot;"), "&quot;");
    assert_eq!(unescape("&amp;#39;"), "&#39;");
    assert_eq!(unescape("&amp;amp;"), "&amp;");
    assert_eq!(unescape("plain"), "plain");
}

#[test]
fn text_of_nodes() {
    let nodes = vec![
        MarkupNode::Other,
        MarkupNode::Text("a".to_string()),
        MarkupNode::Element("br".to_string()),
        MarkupNode::Element("span".to_string()),
        MarkupNode::Text("b".to_string()),
    ];
    assert_eq!(WikiText::from_nodes(&nodes).text, "a\nb");
    assert_eq!(WikiText::from_nodes(&vec![]).text, "");
}

#[test]
fn escaped_entity_is_decoded_once() {
    // decoded once here, the text `&lt;b&gt;` reaches the markup parser as
    // text, not as a tag
    assert_eq!(WikiText::new("x &amp;lt;b&amp;gt; y").text, "x <b> y");
}
