//! The mathematical model of the parser: what each scanning routine consumes
//! and what tree it builds, stated over sequences of characters.
//!
//! Every function here is specification-only. The executable scanner in
//! `parser` promises, in its `ensures`, to agree with `spec_parse_node` and
//! its companions; the laws in `props` are proved of these functions alone.

use vstd::prelude::*;

use crate::dom::Node;
use crate::errors::ParseError;

verus! {

// ---------------------------------------------------------------------------
// Character classes, taken on trust from the standard library.
// ---------------------------------------------------------------------------

/// Whether `char::is_alphanumeric` accepts `c`. The full Unicode tables are
/// not restated here; only the facts below are assumed of them.
pub uninterp spec fn alphanumeric(c: char) -> bool;

/// Whether `char::is_whitespace` accepts `c`. The full Unicode tables are
/// not restated here; only the facts below are assumed of them.
pub uninterp spec fn whitespace(c: char) -> bool;

/// Relies on char::is_alphanumeric: true exactly for characters in the
/// Unicode Alphabetic class or one of the Number classes. Within ASCII those
/// are the letters and the decimal digits, and nothing else.
pub assume_specification[ char::is_alphanumeric ](c: char) -> (r: bool)
    ensures
        r == alphanumeric(c),
        (c as u32) < 0x80 ==> r == (('a' as u32 <= c as u32 && c as u32 <= 'z' as u32) || ('A'
            as u32 <= c as u32 && c as u32 <= 'Z' as u32) || ('0' as u32 <= c as u32 && c as u32
            <= '9' as u32)),
;

/// Relies on char::is_whitespace: true exactly for characters with the
/// Unicode White_Space property. Within ASCII those are the space character
/// and the controls U+0009 through U+000D, and nothing else.
pub assume_specification[ char::is_whitespace ](c: char) -> (r: bool)
    ensures
        r == whitespace(c),
        (c as u32) < 0x80 ==> r == (c == ' ' || (0x9 <= c as u32 && c as u32 <= 0xD)),
;

// ---------------------------------------------------------------------------
// Scanning primitives over a sequence of characters.
// ---------------------------------------------------------------------------

/// Whether `s`, read from position `p`, begins with the literal `lit`.
pub open spec fn starts_with_at(s: Seq<char>, p: int, lit: Seq<char>) -> bool {
    &&& 0 <= p
    &&& p + lit.len() <= s.len()
    &&& forall|i: int| 0 <= i < lit.len() ==> s[p + i] == #[trigger] lit[i]
}

/// The length of the whitespace run starting at `p`.
pub open spec fn ws_run(s: Seq<char>, p: int) -> nat
    decreases s.len() - p,
{
    if 0 <= p < s.len() && whitespace(s[p]) {
        1 + ws_run(s, p + 1)
    } else {
        0
    }
}

/// The length of the alphanumeric run starting at `p`: how far a tag or
/// attribute name extends.
pub open spec fn name_run(s: Seq<char>, p: int) -> nat
    decreases s.len() - p,
{
    if 0 <= p < s.len() && alphanumeric(s[p]) {
        1 + name_run(s, p + 1)
    } else {
        0
    }
}

/// The number of characters before the next occurrence of `stop` (or before
/// the end of the input), counted from `p`.
pub open spec fn until_run(s: Seq<char>, p: int, stop: char) -> nat
    decreases s.len() - p,
{
    if 0 <= p < s.len() && s[p] != stop {
        1 + until_run(s, p + 1, stop)
    } else {
        0
    }
}

/// The literal that opens a comment.
pub open spec fn comment_open() -> Seq<char> {
    seq!['<', '!', '-', '-']
}

/// The literal that closes a comment.
pub open spec fn comment_close() -> Seq<char> {
    seq!['-', '-', '>']
}

/// The literal that introduces a closing tag.
pub open spec fn closing_mark() -> Seq<char> {
    seq!['<', '/']
}

/// The literal that ends a self-closing tag.
pub open spec fn self_close_mark() -> Seq<char> {
    seq!['/', '>']
}

/// The number of characters of comment content starting at `p`: the run of
/// characters up to (not through) the close marker, or to the end of the
/// input if no close marker follows.
pub open spec fn comment_run(s: Seq<char>, p: int) -> nat
    decreases s.len() - p,
{
    if 0 <= p < s.len() && !starts_with_at(s, p, comment_close()) {
        1 + comment_run(s, p + 1)
    } else {
        0
    }
}

// ---------------------------------------------------------------------------
// The abstract tree, and how the executable tree maps onto it.
// ---------------------------------------------------------------------------

/// An attribute as the model sees it: name and value.
pub type AttrModel = (Seq<char>, Seq<char>);

/// A parsed node as the model sees it: the same three shapes as `Node`, over
/// sequences of characters.
pub enum NodeModel {
    Element { tag: Seq<char>, attrs: Seq<AttrModel>, children: Seq<NodeModel> },
    Text(Seq<char>),
    Comment(Seq<char>),
}

/// The attribute list of an `Element`, as the model sees it.
pub open spec fn rep_attrs(attrs: Seq<(String, String)>) -> Seq<AttrModel> {
    attrs.map_values(|a: (String, String)| (a.0@, a.1@))
}

/// The tree a `Node` holds, as the model sees it.
pub open spec fn rep_node(n: Node) -> NodeModel
    decreases n,
{
    match n {
        Node::Text(t) => NodeModel::Text(t@),
        Node::Comment(c) => NodeModel::Comment(c@),
        Node::Element(e) => NodeModel::Element {
            tag: e.tag_name@,
            attrs: rep_attrs(e.attributes@),
            children: rep_nodes(e.children@),
        },
    }
}

/// The trees a sequence of `Node`s holds, in order.
pub open spec fn rep_nodes(ns: Seq<Node>) -> Seq<NodeModel>
    decreases ns,
{
    if ns.len() == 0 {
        Seq::empty()
    } else {
        seq![rep_node(ns[0])] + rep_nodes(ns.drop_first())
    }
}

// ---------------------------------------------------------------------------
// The parser itself, as a mathematical function.
//
// Each function takes the whole input and a cursor position, and returns
// either the parsed value together with the number of characters consumed,
// or the error the scanner reports there.
// ---------------------------------------------------------------------------

/// Parse a run of attributes: pairs of name and quoted value, up to (not
/// through) the `>` or `/` that ends the tag. Mirrors the scanner: after a
/// name one character (the expected `=`) is consumed unvalidated, a value
/// must open with a quote character, and an input that ends inside the run
/// is reported as `UnexpectedEOF`.
pub open spec fn spec_parse_attributes(s: Seq<char>, p: int) -> Result<
    (Seq<AttrModel>, nat),
    ParseError,
>
    decreases s.len() - p,
{
    let w = ws_run(s, p);
    let p1 = p + w;
    if p1 >= s.len() {
        Err(ParseError::UnexpectedEOF)
    } else if s[p1] == '>' || s[p1] == '/' {
        Ok((Seq::empty(), w))
    } else {
        let n = name_run(s, p1);
        let name = s.subrange(p1, p1 + n);
        if p1 + n + 1 >= s.len() {
            // the `=` or the quote would lie past the end of the input
            Err(ParseError::UnexpectedEOF)
        } else {
            let q = s[p1 + n + 1];
            if q != '"' && q != '\'' {
                Err(ParseError::InvalidAttributeValue)
            } else {
                let v = until_run(s, p1 + n + 2, q);
                if p1 + n + 2 + v >= s.len() {
                    // the closing quote is missing
                    Err(ParseError::UnexpectedEOF)
                } else {
                    let value = s.subrange(p1 + n + 2, p1 + n + 2 + v);
                    match spec_parse_attributes(s, p1 + n + 2 + v + 1) {
                        Ok(r) => Ok((seq![(name, value)] + r.0, (w + n + 3 + v + r.1) as nat)),
                        Err(e) => Err(e),
                    }
                }
            }
        }
    }
}

/// Parse a comment at `p`: the exact open marker, then content up to the
/// close marker, then the close marker. A missing open marker is
/// `InvalidTag`; content that runs to the end of the input without a close
/// marker is `UnexpectedEOF`.
pub open spec fn spec_parse_comment(s: Seq<char>, p: int) -> Result<(NodeModel, nat), ParseError> {
    if !starts_with_at(s, p, comment_open()) {
        Err(ParseError::InvalidTag)
    } else {
        let c = comment_run(s, p + 4);
        if starts_with_at(s, p + 4 + c, comment_close()) {
            Ok((NodeModel::Comment(s.subrange(p + 4, p + 4 + c)), (4 + c + 3) as nat))
        } else {
            // the content ran to the end of the input
            Err(ParseError::UnexpectedEOF)
        }
    }
}

/// Parse one node at `p`: skip whitespace, then fail at the end of input,
/// or dispatch on what follows — a comment, an element, or a text run.
pub open spec fn spec_parse_node(s: Seq<char>, p: int) -> Result<(NodeModel, nat), ParseError>
    decreases s.len() - p, 1int,
{
    let w = ws_run(s, p);
    let pw = p + w;
    if pw >= s.len() {
        Err(ParseError::UnexpectedEOF)
    } else if starts_with_at(s, pw, comment_open()) {
        match spec_parse_comment(s, pw) {
            Ok(r) => Ok((r.0, (w + r.1) as nat)),
            Err(e) => Err(e),
        }
    } else if s[pw] == '<' {
        match spec_parse_element(s, pw) {
            Ok(r) => Ok((r.0, (w + r.1) as nat)),
            Err(e) => Err(e),
        }
    } else {
        let t = until_run(s, pw, '<');
        Ok((NodeModel::Text(s.subrange(pw, pw + t)), (w + t) as nat))
    }
}

/// Parse an element whose `<` stands at `p`: tag name, attributes, then
/// either the self-closing ending `/>` (no children, no closing tag), or one
/// consumed character (the expected `>`), the children, the closing marker,
/// a closing name that must equal the opening name, and one final consumed
/// character (the expected `>`).
pub open spec fn spec_parse_element(s: Seq<char>, p: int) -> Result<(NodeModel, nat), ParseError>
    decreases s.len() - p, 0int,
{
    let n = name_run(s, p + 1);
    let tag = s.subrange(p + 1, p + 1 + n);
    match spec_parse_attributes(s, p + 1 + n) {
        Err(e) => Err(e),
        Ok(ar) => {
            let ap = p + 1 + n + ar.1;
            if starts_with_at(s, ap, self_close_mark()) {
                Ok(
                    (
                        NodeModel::Element { tag, attrs: ar.0, children: Seq::empty() },
                        (1 + n + ar.1 + 2) as nat,
                    ),
                )
            } else {
                let cp = ap + 1;
                if cp > s.len() {
                    // never reached: an attribute run ends inside the input
                    Err(ParseError::UnexpectedEOF)
                } else {
                    match spec_parse_children(s, cp) {
                        Err(e) => Err(e),
                        Ok(cr) => {
                            let q = cp + cr.1;
                            let m = name_run(s, q + 2);
                            let closing = s.subrange(q + 2, q + 2 + m);
                            if closing != tag {
                                Err(ParseError::MismatchedClosingTag)
                            } else if q + 2 + m >= s.len() {
                                Err(ParseError::UnexpectedEOF)
                            } else {
                                Ok(
                                    (
                                        NodeModel::Element { tag, attrs: ar.0, children: cr.0 },
                                        (1 + n + ar.1 + 1 + cr.1 + 2 + m + 1) as nat,
                                    ),
                                )
                            }
                        }
                    }
                }
            }
        }
    }
}

/// Parse a run of children: skip whitespace, stop before a closing marker,
/// fail at the end of input, and otherwise parse one node and continue after
/// it.
pub open spec fn spec_parse_children(s: Seq<char>, p: int) -> Result<
    (Seq<NodeModel>, nat),
    ParseError,
>
    decreases s.len() - p, 2int,
{
    let w = ws_run(s, p);
    let p1 = p + w;
    if starts_with_at(s, p1, closing_mark()) {
        Ok((Seq::empty(), w))
    } else if p1 >= s.len() {
        Err(ParseError::UnexpectedEOF)
    } else {
        match spec_parse_node(s, p1) {
            Err(e) => Err(e),
            Ok(nr) => {
                if nr.1 < 1 || p1 + nr.1 > s.len() {
                    // never reached: a parsed node consumes input and stays inside it
                    Err(ParseError::UnexpectedEOF)
                } else {
                    match spec_parse_children(s, p1 + nr.1) {
                        Err(e) => Err(e),
                        Ok(cr) => Ok((seq![nr.0] + cr.0, (w + nr.1 + cr.1) as nat)),
                    }
                }
            }
        }
    }
}

// ---------------------------------------------------------------------------
// How the representation functions act on a freshly prepended element.
// ---------------------------------------------------------------------------

/// Prepending an attribute prepends its model.
pub proof fn lemma_rep_attrs_cons(s: Seq<(String, String)>, x: (String, String))
    ensures
        rep_attrs(s.insert(0, x)) == seq![(x.0@, x.1@)] + rep_attrs(s),
{
    assert(rep_attrs(s.insert(0, x)) =~= seq![(x.0@, x.1@)] + rep_attrs(s));
}

/// Prepending a node prepends its model.
pub proof fn lemma_rep_nodes_cons(s: Seq<Node>, x: Node)
    ensures
        rep_nodes(s.insert(0, x)) == seq![rep_node(x)] + rep_nodes(s),
{
    let s2 = s.insert(0, x);
    assert(s2[0] == x);
    assert(s2.drop_first() =~= s);
}

/// Two node sequences whose entries hold the same trees hold the same
/// trees.
pub proof fn lemma_rep_nodes_congruence(a: Seq<Node>, b: Seq<Node>)
    requires
        a.len() == b.len(),
        forall|i: int| 0 <= i < a.len() ==> rep_node(#[trigger] a[i]) == rep_node(b[i]),
    ensures
        rep_nodes(a) == rep_nodes(b),
    decreases a.len(),
{
    if a.len() > 0 {
        lemma_rep_nodes_congruence(a.drop_first(), b.drop_first());
    }
}

// ---------------------------------------------------------------------------
// Bounds: every parse stays inside the input, and a parsed node consumes at
// least one character. These facts justify the scanner's cursor arithmetic.
// ---------------------------------------------------------------------------

/// A name run stays inside the input, is alphanumeric throughout, and is
/// maximal.
pub proof fn lemma_name_run_bounds(s: Seq<char>, p: int)
    requires
        0 <= p <= s.len(),
    ensures
        p + name_run(s, p) <= s.len(),
        forall|i: int| p <= i < p + name_run(s, p) ==> alphanumeric(#[trigger] s[i]),
        p + name_run(s, p) < s.len() ==> !alphanumeric(s[p + name_run(s, p)]),
    decreases s.len() - p,
{
    if p < s.len() && alphanumeric(s[p]) {
        lemma_name_run_bounds(s, p + 1);
    }
}

/// A run up to `stop` stays inside the input, avoids `stop` throughout, and
/// either reaches the end of the input or ends on `stop`.
pub proof fn lemma_until_run_bounds(s: Seq<char>, p: int, stop: char)
    requires
        0 <= p <= s.len(),
    ensures
        p + until_run(s, p, stop) <= s.len(),
        forall|i: int| p <= i < p + until_run(s, p, stop) ==> #[trigger] s[i] != stop,
        p + until_run(s, p, stop) < s.len() ==> s[p + until_run(s, p, stop)] == stop,
    decreases s.len() - p,
{
    if p < s.len() && s[p] != stop {
        lemma_until_run_bounds(s, p + 1, stop);
    }
}

/// When `stop` does not occur from `p` on, the run reaches the end of the
/// input.
pub proof fn lemma_until_run_full(s: Seq<char>, p: int, stop: char)
    requires
        0 <= p <= s.len(),
        forall|i: int| p <= i < s.len() ==> #[trigger] s[i] != stop,
    ensures
        until_run(s, p, stop) == s.len() - p,
    decreases s.len() - p,
{
    if p < s.len() {
        lemma_until_run_full(s, p + 1, stop);
    }
}

/// A successful attribute run ends inside the input, on the `>` or `/` that
/// ends the tag.
pub proof fn lemma_spec_attributes_bounds(s: Seq<char>, p: int)
    requires
        0 <= p,
    ensures
        spec_parse_attributes(s, p) matches Ok(ar) ==> p + ar.1 < s.len() && (s[p + ar.1] == '>'
            || s[p + ar.1] == '/'),
    decreases s.len() - p,
{
    let w = ws_run(s, p);
    let p1 = p + w;
    if p1 >= s.len() {
    } else if s[p1] == '>' || s[p1] == '/' {
    } else {
        let n = name_run(s, p1);
        if p1 + n + 1 >= s.len() {
        } else {
            let q = s[p1 + n + 1];
            if q != '"' && q != '\'' {
                let v = until_run(s, p1 + n + 2, q);
                if p1 + n + 2 + v < s.len() {
                    lemma_spec_attributes_bounds(s, p1 + n + 2 + v + 1);
                }
            } else {
                let v = until_run(s, p1 + n + 2, q);
                if p1 + n + 2 + v < s.len() {
                    lemma_spec_attributes_bounds(s, p1 + n + 2 + v + 1);
                }
            }
        }
    }
}

/// A successfully parsed node consumes at least one character and stays
/// inside the input.
pub proof fn lemma_spec_node_bounds(s: Seq<char>, p: int)
    requires
        0 <= p,
    ensures
        spec_parse_node(s, p) matches Ok(nr) ==> 1 <= nr.1 && p + nr.1 <= s.len(),
    decreases s.len() - p, 1int,
{
    let w = ws_run(s, p);
    let pw = p + w;
    if pw >= s.len() {
    } else if starts_with_at(s, pw, comment_open()) {
    } else if s[pw] == '<' {
        lemma_spec_element_bounds(s, pw);
    } else {
        lemma_until_run_bounds(s, pw, '<');
    }
}

/// A successfully parsed element consumes at least one character and stays
/// inside the input.
pub proof fn lemma_spec_element_bounds(s: Seq<char>, p: int)
    requires
        0 <= p,
    ensures
        spec_parse_element(s, p) matches Ok(er) ==> 1 <= er.1 && p + er.1 <= s.len(),
    decreases s.len() - p, 0int,
{
    let n = name_run(s, p + 1);
    lemma_spec_attributes_bounds(s, p + 1 + n);
    match spec_parse_attributes(s, p + 1 + n) {
        Err(_) => {},
        Ok(ar) => {
            let ap = p + 1 + n + ar.1;
            if !starts_with_at(s, ap, self_close_mark()) {
                let cp = ap + 1;
                lemma_spec_children_bounds(s, cp);
                match spec_parse_children(s, cp) {
                    Err(_) => {},
                    Ok(cr) => {
                        let q = cp + cr.1;
                        lemma_name_run_bounds(s, q + 2);
                    },
                }
            }
        },
    }
}

/// A successful children run ends inside the input, right before its
/// closing marker.
pub proof fn lemma_spec_children_bounds(s: Seq<char>, p: int)
    requires
        0 <= p,
    ensures
        spec_parse_children(s, p) matches Ok(cr) ==> p + cr.1 + 2 <= s.len() && starts_with_at(
            s,
            p + cr.1,
            closing_mark(),
        ),
    decreases s.len() - p, 2int,
{
    let w = ws_run(s, p);
    let p1 = p + w;
    if starts_with_at(s, p1, closing_mark()) {
    } else if p1 >= s.len() {
    } else {
        lemma_spec_node_bounds(s, p1);
        match spec_parse_node(s, p1) {
            Err(_) => {},
            Ok(nr) => {
                if 1 <= nr.1 && p1 + nr.1 <= s.len() {
                    lemma_spec_children_bounds(s, p1 + nr.1);
                }
            },
        }
    }
}

} // verus!
