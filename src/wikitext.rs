//! Reduction of wiki markup to the text that a reader sees.
use vstd::prelude::*;
use crate::text::{push_char, replace_all, replace_spec};
use vstd::string::StringExecFns;

verus! {

/// One node of a parsed markup fragment.
#[derive(Debug, PartialEq, Eq)]
pub enum MarkupNode {
    /// A text node.
    Text(String),
    /// An element, by its local name.
    Element(String),
    /// Any other node: the document or fragment root, a comment, a doctype.
    Other,
}

/// What a `MarkupNode` holds, as values.
pub enum MarkupNodeView {
    Text(Seq<char>),
    Element(Seq<char>),
    Other,
}

impl DeepView for MarkupNode {
    type V = MarkupNodeView;

    open spec fn deep_view(&self) -> MarkupNodeView {
        match self {
            MarkupNode::Text(t) => MarkupNodeView::Text(t@),
            MarkupNode::Element(n) => MarkupNodeView::Element(n@),
            MarkupNode::Other => MarkupNodeView::Other,
        }
    }
}

/// The nodes of `s` parsed as an HTML fragment: those under the root
/// element, the root included, in depth-first document order.
pub uninterp spec fn fragment_nodes(s: Seq<char>) -> Seq<MarkupNodeView>;

/// Relies on scraper's `Html::parse_fragment` and the depth-first
/// `descendants` walk of its root element; the nodes depend on the text alone.
#[verifier::external_body]
fn parse_fragment_nodes(s: &str) -> (r: Vec<MarkupNode>)
    ensures
        r.deep_view() == fragment_nodes(s@),
{
    let html = scraper::Html::parse_fragment(s);
    html.root_element().descendants().map(|node| match node.value() {
        scraper::Node::Text(t) => MarkupNode::Text((**t).to_owned()),
        scraper::Node::Element(e) => MarkupNode::Element(e.name().to_owned()),
        scraper::Node::Document => MarkupNode::Other,
        scraper::Node::Fragment => MarkupNode::Other,
        scraper::Node::Doctype(_) => MarkupNode::Other,
        scraper::Node::Comment(_) => MarkupNode::Other,
        scraper::Node::ProcessingInstruction(_) => MarkupNode::Other,
    }).collect()
}

/// The text a node contributes: a text node its text, a `br` element one
/// line break, anything else nothing.
pub open spec fn node_text(n: MarkupNodeView) -> Seq<char> {
    match n {
        MarkupNodeView::Text(t) => t,
        MarkupNodeView::Element(name) => if name == "br"@ {
            seq!['\n']
        } else {
            Seq::empty()
        },
        MarkupNodeView::Other => Seq::empty(),
    }
}

/// The concatenated text of a node sequence, in order.
pub open spec fn nodes_text(ns: Seq<MarkupNodeView>) -> Seq<char>
    decreases ns.len(),
{
    if ns.len() == 0 {
        Seq::empty()
    } else {
        nodes_text(ns.drop_last()) + node_text(ns.last())
    }
}

/// The five character entities, replaced in this order. `&amp;` comes
/// last, so that the text it produces is never decoded again.
pub open spec fn unescape_spec(s: Seq<char>) -> Seq<char> {
    let a = replace_spec(s, "&lt;"@, "<"@);
    let b = replace_spec(a, "&gt;"@, ">"@);
    let c = replace_spec(b, "&quot;"@, "\""@);
    let d = replace_spec(c, "&#39;"@, "'"@);
    replace_spec(d, "&amp;"@, "&"@)
}

/// The display text of wiki markup `s`.
pub open spec fn wikitext_spec(s: Seq<char>) -> Seq<char> {
    nodes_text(fragment_nodes(unescape_spec(s)))
}

/// Replaces the entities `&lt;`, `&gt;`, `&quot;`, `&#39;` and, last,
/// `&amp;` by the characters they stand for; an escaped entity such as
/// `&amp;quot;` is decoded once, to `&quot;`.
pub fn unescape(text: &str) -> (r: String)
    ensures
        r@ == unescape_spec(text@),
{
    proof {
        reveal_strlit("&lt;");
        reveal_strlit("&gt;");
        reveal_strlit("&amp;");
        reveal_strlit("&quot;");
        reveal_strlit("&#39;");
    }
    let a = replace_all(text, "&lt;", "<");
    let b = replace_all(a.as_str(), "&gt;", ">");
    let c = replace_all(b.as_str(), "&quot;", "\"");
    let d = replace_all(c.as_str(), "&#39;", "'");
    replace_all(d.as_str(), "&amp;", "&")
}

/// Plain text taken from wiki markup: text nodes and line breaks only.
#[derive(Debug, PartialEq, Eq)]
pub struct WikiText {
    pub text: String,
}

impl WikiText {
    /// The text of `text` once its entities are replaced and it is parsed as
    /// markup.
    pub fn new(text: &str) -> (r: WikiText)
        ensures
            r.text@ == wikitext_spec(text@),
    {
        let unescaped = unescape(text);
        let nodes = parse_fragment_nodes(unescaped.as_str());
        WikiText::from_nodes(&nodes)
    }

    /// Joins the text of parsed nodes: each text node's text, a line break
    /// for each `br` element, nothing for the rest.
    pub fn from_nodes(nodes: &Vec<MarkupNode>) -> (r: WikiText)
        ensures
            r.text@ == nodes_text(nodes.deep_view()),
    {
        let mut out = String::new();
        let mut i: usize = 0;
        while i < nodes.len()
            invariant
                i <= nodes.len(),
                out@ == nodes_text(nodes.deep_view().take(i as int)),
            decreases nodes.len() - i,
        {
            proof {
                assert(nodes.deep_view().take(i + 1).drop_last() =~= nodes.deep_view().take(
                    i as int,
                ));
            }
            match &nodes[i] {
                MarkupNode::Text(t) => {
                    out.append(t.as_str());
                },
                MarkupNode::Element(name) => {
                    proof {
                        reveal_strlit("br");
                    }
                    if crate::text::equals(name.as_str(), "br") {
                        push_char(&mut out, '\n');
                    } else {
                        proof {
                            assert(out@ + Seq::<char>::empty() =~= out@);
                        }
                    }
                },
                MarkupNode::Other => {
                    proof {
                        assert(out@ + Seq::<char>::empty() =~= out@);
                    }
                },
            }
            proof {
                assert(out@ =~= nodes_text(nodes.deep_view().take(i + 1)));
            }
            i = i + 1;
        }
        proof {
            assert(nodes.deep_view().take(nodes.len() as int) =~= nodes.deep_view());
        }
        WikiText { text: out }
    }
}

} // verus!
