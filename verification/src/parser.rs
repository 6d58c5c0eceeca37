//! The scanner/builder: owns the input text and a cursor, and builds the
//! tree in one left-to-right pass.
//!
//! Every method promises, in its `ensures`, to agree with the corresponding
//! specification function of `model`; `Parser::parse` is the entry point.

use vstd::prelude::*;
use vstd::string::StrSliceExecFns;
use vstd::string::StringExecFns;

use crate::dom::{Element, Node};
use crate::errors::ParseError;
use crate::model::{
    closing_mark, comment_close, comment_open, comment_run, lemma_rep_attrs_cons,
    lemma_rep_nodes_cons, lemma_spec_attributes_bounds, lemma_spec_children_bounds,
    lemma_spec_node_bounds, name_run, rep_attrs, rep_node, rep_nodes, self_close_mark,
    spec_parse_attributes, spec_parse_children, spec_parse_comment, spec_parse_element,
    spec_parse_node, starts_with_at, until_run, ws_run, NodeModel,
};

verus! {

/// A single-pass scanner over one input text. The cursor counts whole
/// characters, never bytes, so it always stands on a character boundary.
pub struct Parser {
    input: String,
    length: usize,
    position: usize,
}

impl Parser {
    /// The input text, as the contracts see it.
    pub closed spec fn text(&self) -> Seq<char> {
        self.input@
    }

    /// The cursor position, in characters from the start of the input.
    pub closed spec fn pos(&self) -> int {
        self.position as int
    }

    #[verifier::type_invariant]
    spec fn cursor_in_bounds(&self) -> bool {
        self.position <= self.length && self.length == self.input@.len()
    }

    /// A scanner over `input`, with the cursor at the start.
    pub fn new(input: String) -> (p: Parser)
        ensures
            p.text() == input@,
            p.pos() == 0,
    {
        let length = input.as_str().unicode_len();
        Parser { input, length, position: 0 }
    }

    /// Whether the cursor has reached the end of the input.
    fn eof(&self) -> (r: bool)
        ensures
            r == (self.pos() >= self.text().len()),
    {
        proof {
            use_type_invariant(&*self);
        }
        self.position >= self.length
    }

    /// The character under the cursor, left unconsumed.
    fn next_char(&self) -> (c: char)
        requires
            self.pos() < self.text().len(),
        ensures
            c == self.text()[self.pos()],
    {
        self.input.as_str().get_char(self.position)
    }

    /// Consume and return the character under the cursor.
    fn consume_char(&mut self) -> (c: char)
        requires
            old(self).pos() < old(self).text().len(),
        ensures
            final(self).text() == old(self).text(),
            final(self).pos() == old(self).pos() + 1,
            c == old(self).text()[old(self).pos()],
    {
        proof {
            use_type_invariant(&*self);
        }
        let c = self.input.as_str().get_char(self.position);
        self.position = self.position + 1;
        c
    }

    /// Whether the unconsumed input begins with the literal `s`. Consumes
    /// nothing.
    pub fn starts_with(&self, s: &str) -> (r: bool)
        ensures
            r == starts_with_at(self.text(), self.pos(), s@),
    {
        proof {
            use_type_invariant(&*self);
        }
        let n = s.unicode_len();
        if n > self.length - self.position {
            return false;
        }
        let mut i: usize = 0;
        while i < n
            invariant
                0 <= i <= n,
                n == s@.len(),
                self.position + n <= self.length,
                self.cursor_in_bounds(),
                forall|j: int| 0 <= j < i ==> self.text()[self.pos() + j] == #[trigger] s@[j],
            decreases n - i,
        {
            if self.input.as_str().get_char(self.position + i) != s.get_char(i) {
                return false;
            }
            i = i + 1;
        }
        true
    }

    /// Consume the literal `s` if the unconsumed input begins with it;
    /// otherwise consume nothing and report `InvalidTag`.
    fn consume_string(&mut self, s: &str) -> (r: Result<(), ParseError>)
        ensures
            final(self).text() == old(self).text(),
            starts_with_at(old(self).text(), old(self).pos(), s@) ==> r is Ok && final(self).pos()
                == old(self).pos() + s@.len(),
            !starts_with_at(old(self).text(), old(self).pos(), s@) ==> (r matches Err(e) && e
                == ParseError::InvalidTag && final(self).pos() == old(self).pos()),
    {
        proof {
            use_type_invariant(&*self);
        }
        let n = s.unicode_len();
        if self.starts_with(s) {
            self.position = self.position + n;
            Ok(())
        } else {
            Err(ParseError::InvalidTag)
        }
    }

    /// Consume the whitespace run under the cursor, possibly empty.
    fn consume_whitespace(&mut self)
        ensures
            final(self).text() == old(self).text(),
            final(self).pos() == old(self).pos() + ws_run(old(self).text(), old(self).pos()),
    {
        proof {
            use_type_invariant(&*self);
        }
        let ghost t = self.text();
        let ghost p0 = self.pos();
        while !self.eof() && self.next_char().is_whitespace()
            invariant
                self.text() == t,
                p0 <= self.pos() <= t.len(),
                ws_run(t, p0) == (self.pos() - p0) + ws_run(t, self.pos()),
            decreases t.len() - self.pos(),
        {
            self.consume_char();
        }
    }

    /// Consume the alphanumeric run under the cursor, possibly empty, and
    /// return it: how a tag name or an attribute name is read.
    fn parse_tag_name(&mut self) -> (r: String)
        ensures
            final(self).text() == old(self).text(),
            final(self).pos() == old(self).pos() + name_run(old(self).text(), old(self).pos()),
            r@ == old(self).text().subrange(old(self).pos(), final(self).pos()),
    {
        proof {
            use_type_invariant(&*self);
        }
        let ghost t = self.text();
        let ghost p0 = self.pos();
        let start = self.position;
        while !self.eof() && self.next_char().is_alphanumeric()
            invariant
                self.text() == t,
                p0 <= self.pos() <= t.len(),
                name_run(t, p0) == (self.pos() - p0) + name_run(t, self.pos()),
            decreases t.len() - self.pos(),
        {
            self.consume_char();
        }
        proof {
            use_type_invariant(&*self);
        }
        let sub = self.input.as_str().substring_char(start, self.position);
        String::from_str(sub)
    }

    /// Consume the run of characters other than `stop` under the cursor,
    /// possibly empty, and return it. The cursor is left on `stop` itself,
    /// or at the end of the input if `stop` does not occur.
    fn consume_until(&mut self, stop: char) -> (r: String)
        ensures
            final(self).text() == old(self).text(),
            final(self).pos() == old(self).pos() + until_run(old(self).text(), old(self).pos(), stop),
            r@ == old(self).text().subrange(old(self).pos(), final(self).pos()),
    {
        proof {
            use_type_invariant(&*self);
        }
        let ghost t = self.text();
        let ghost p0 = self.pos();
        let start = self.position;
        while !self.eof() && self.next_char() != stop
            invariant
                self.text() == t,
                p0 <= self.pos() <= t.len(),
                until_run(t, p0, stop) == (self.pos() - p0) + until_run(t, self.pos(), stop),
            decreases t.len() - self.pos(),
        {
            self.consume_char();
        }
        proof {
            use_type_invariant(&*self);
        }
        let sub = self.input.as_str().substring_char(start, self.position);
        String::from_str(sub)
    }

    /// Consume a text run: everything up to the next `<` or the end of the
    /// input, whitespace kept. Never fails.
    fn parse_text(&mut self) -> (r: Result<Node, ParseError>)
        ensures
            final(self).text() == old(self).text(),
            final(self).pos() == old(self).pos() + until_run(
                old(self).text(),
                old(self).pos(),
                '<',
            ),
            (r matches Ok(node) && rep_node(node) == NodeModel::Text(
                old(self).text().subrange(old(self).pos(), final(self).pos()),
            )),
    {
        let text = self.consume_until('<');
        Ok(Node::Text(text))
    }

    /// Consume a quoted attribute value: the opening quote (either kind),
    /// the verbatim text up to the matching quote, and the closing quote.
    fn parse_attribute_value(&mut self) -> (r: Result<String, ParseError>)
        ensures
            final(self).text() == old(self).text(),
            ({
                let s = old(self).text();
                let p = old(self).pos();
                if p >= s.len() {
                    r matches Err(e) && e == ParseError::UnexpectedEOF
                } else if s[p] != '"' && s[p] != '\'' {
                    r matches Err(e) && e == ParseError::InvalidAttributeValue
                } else if p + 1 + until_run(s, p + 1, s[p]) >= s.len() {
                    r matches Err(e) && e == ParseError::UnexpectedEOF
                } else {
                    r matches Ok(v) && v@ == s.subrange(p + 1, p + 1 + until_run(s, p + 1, s[p]))
                        && final(self).pos() == p + 1 + until_run(s, p + 1, s[p]) + 1
                }
            }),
    {
        if self.eof() {
            return Err(ParseError::UnexpectedEOF);
        }
        let quote = self.consume_char();
        if quote != '"' && quote != '\'' {
            return Err(ParseError::InvalidAttributeValue);
        }
        let value = self.consume_until(quote);
        if self.eof() {
            // the closing quote is missing
            return Err(ParseError::UnexpectedEOF);
        }
        self.consume_char();
        Ok(value)
    }

    /// Consume a comment: the exact open marker, the content up to the
    /// close marker, and the close marker itself. The cursor is left
    /// directly after the close marker.
    pub fn parse_comment(&mut self) -> (r: Result<Node, ParseError>)
        ensures
            final(self).text() == old(self).text(),
            ({
                match spec_parse_comment(old(self).text(), old(self).pos()) {
                    Ok(cr) => r matches Ok(node) && rep_node(node) == cr.0 && final(self).pos()
                        == old(self).pos() + cr.1,
                    Err(e) => r matches Err(e2) && e2 == e,
                }
            }),
    {
        proof {
            use_type_invariant(&*self);
            reveal_strlit("<!--");
            reveal_strlit("-->");
            assert("<!--"@ =~= comment_open());
            assert("-->"@ =~= comment_close());
        }
        match self.consume_string("<!--") {
            Ok(_) => {},
            Err(e) => {
                return Err(e);
            },
        }
        let ghost t = self.text();
        let ghost cstart = self.pos();
        let start = self.position;
        while !self.eof() && !self.starts_with("-->")
            invariant
                self.text() == t,
                cstart <= self.pos() <= t.len(),
                start as int == cstart,
                "-->"@ == comment_close(),
                comment_run(t, cstart) == (self.pos() - cstart) + comment_run(t, self.pos()),
            decreases t.len() - self.pos(),
        {
            self.consume_char();
        }
        if !self.starts_with("-->") {
            // the content ran to the end of the input
            return Err(ParseError::UnexpectedEOF);
        }
        proof {
            use_type_invariant(&*self);
        }
        let sub = self.input.as_str().substring_char(start, self.position);
        let content = String::from_str(sub);
        match self.consume_string("-->") {
            Ok(_) => {},
            Err(_) => {
                // not reached: the close marker was just seen at the cursor
                return Err(ParseError::UnexpectedEOF);
            },
        }
        Ok(Node::Comment(content))
    }

    /// Consume a run of attributes, stopping before the `>` or `/` that
    /// ends the tag. After each name one character (the expected `=`) is
    /// consumed without validation, as a maximally simple scanner would.
    fn parse_attributes(&mut self) -> (r: Result<Vec<(String, String)>, ParseError>)
        ensures
            final(self).text() == old(self).text(),
            ({
                match spec_parse_attributes(old(self).text(), old(self).pos()) {
                    Ok(ar) => r matches Ok(v) && rep_attrs(v@) == ar.0 && final(self).pos()
                        == old(self).pos() + ar.1,
                    Err(e) => r matches Err(e2) && e2 == e,
                }
            }),
        decreases old(self).text().len() - old(self).pos(),
    {
        proof {
            use_type_invariant(&*self);
        }
        let ghost t = self.text();
        let ghost p = self.pos();
        self.consume_whitespace();
        if self.eof() {
            return Err(ParseError::UnexpectedEOF);
        }
        let c = self.next_char();
        if c == '>' || c == '/' {
            return Ok(Vec::new());
        }
        let name = self.parse_tag_name();
        if self.eof() {
            return Err(ParseError::UnexpectedEOF);
        }
        self.consume_char();  // the expected `=`, not validated
        let value = match self.parse_attribute_value() {
            Ok(v) => v,
            Err(e) => {
                return Err(e);
            },
        };
        let rest = match self.parse_attributes() {
            Ok(v) => v,
            Err(e) => {
                return Err(e);
            },
        };
        let ghost rs = rest@;
        let ghost first = (name, value);
        let mut attrs = rest;
        attrs.insert(0, (name, value));
        proof {
            lemma_rep_attrs_cons(rs, first);
        }
        Ok(attrs)
    }

    /// Consume the children of an element: whitespace-separated nodes up to
    /// (not through) the closing marker `</`.
    fn parse_children(&mut self) -> (r: Result<Vec<Node>, ParseError>)
        ensures
            final(self).text() == old(self).text(),
            ({
                match spec_parse_children(old(self).text(), old(self).pos()) {
                    Ok(cr) => r matches Ok(v) && rep_nodes(v@) == cr.0 && final(self).pos()
                        == old(self).pos() + cr.1,
                    Err(e) => r matches Err(e2) && e2 == e,
                }
            }),
        decreases old(self).text().len() - old(self).pos(), 2int,
    {
        proof {
            use_type_invariant(&*self);
            reveal_strlit("</");
            assert("</"@ =~= closing_mark());
        }
        let ghost t = self.text();
        self.consume_whitespace();
        if self.starts_with("</") {
            return Ok(Vec::new());
        }
        if self.eof() {
            return Err(ParseError::UnexpectedEOF);
        }
        let ghost p1 = self.pos();
        let node = match self.parse_node() {
            Ok(n) => n,
            Err(e) => {
                return Err(e);
            },
        };
        proof {
            lemma_spec_node_bounds(t, p1);
        }
        let rest = match self.parse_children() {
            Ok(v) => v,
            Err(e) => {
                return Err(e);
            },
        };
        let ghost rs = rest@;
        let ghost n0 = node;
        let mut children = rest;
        children.insert(0, node);
        proof {
            lemma_rep_nodes_cons(rs, n0);
        }
        Ok(children)
    }

    /// Consume one node: skip leading whitespace, fail at the end of the
    /// input, and otherwise read a comment, an element, or a text run.
    fn parse_node(&mut self) -> (r: Result<Node, ParseError>)
        ensures
            final(self).text() == old(self).text(),
            ({
                match spec_parse_node(old(self).text(), old(self).pos()) {
                    Ok(nr) => r matches Ok(node) && rep_node(node) == nr.0 && final(self).pos()
                        == old(self).pos() + nr.1,
                    Err(e) => r matches Err(e2) && e2 == e,
                }
            }),
        decreases old(self).text().len() - old(self).pos(), 1int,
    {
        proof {
            use_type_invariant(&*self);
            reveal_strlit("<!--");
            reveal_strlit("<");
            assert("<!--"@ =~= comment_open());
            assert("<"@ =~= seq!['<']);
        }
        let ghost t = self.text();
        self.consume_whitespace();
        if self.eof() {
            return Err(ParseError::UnexpectedEOF);
        }
        let ghost pw = self.pos();
        if self.starts_with("<!--") {
            self.parse_comment()
        } else if self.starts_with("<") {
            proof {
                assert(t[pw] == ("<"@)[0]);
            }
            self.parse_element()
        } else {
            proof {
                assert(("<"@)[0] == '<');
                if t[pw] == '<' {
                    assert(starts_with_at(t, pw, "<"@));
                }
            }
            self.parse_text()
        }
    }

    /// Consume an element: `<`, tag name, attributes, then either `/>` (a
    /// self-closing element with no children) or `>`, the children, `</`,
    /// a closing name equal to the opening name, and `>`.
    fn parse_element(&mut self) -> (r: Result<Node, ParseError>)
        requires
            old(self).pos() < old(self).text().len(),
            old(self).text()[old(self).pos()] == '<',
        ensures
            final(self).text() == old(self).text(),
            ({
                match spec_parse_element(old(self).text(), old(self).pos()) {
                    Ok(er) => r matches Ok(node) && rep_node(node) == er.0 && final(self).pos()
                        == old(self).pos() + er.1,
                    Err(e) => r matches Err(e2) && e2 == e,
                }
            }),
        decreases old(self).text().len() - old(self).pos(), 0int,
    {
        proof {
            use_type_invariant(&*self);
            reveal_strlit("/>");
            assert("/>"@ =~= self_close_mark());
        }
        let ghost t = self.text();
        let ghost p = self.pos();
        self.consume_char();  // the `<`
        let tag_name = self.parse_tag_name();
        let ghost n = name_run(t, p + 1);
        let attributes = match self.parse_attributes() {
            Ok(a) => a,
            Err(e) => {
                return Err(e);
            },
        };
        proof {
            lemma_spec_attributes_bounds(t, p + 1 + n);
        }
        if self.starts_with("/>") {
            self.consume_char();
            self.consume_char();
            return Ok(Node::Element(Element::with_attributes(tag_name, attributes)));
        }
        self.consume_char();  // the expected `>` of the opening tag
        let ghost cp = self.pos();
        let children = match self.parse_children() {
            Ok(c) => c,
            Err(e) => {
                return Err(e);
            },
        };
        proof {
            lemma_spec_children_bounds(t, cp);
        }
        self.consume_char();  // the `<` of the closing marker
        self.consume_char();  // the `/` of the closing marker
        let closing = self.parse_tag_name();
        if !(closing == tag_name) {
            return Err(ParseError::MismatchedClosingTag);
        }
        if self.eof() {
            return Err(ParseError::UnexpectedEOF);
        }
        self.consume_char();  // the expected final `>`, not validated
        Ok(Node::Element(Element { tag_name, attributes, children }))
    }

    /// Parse one complete node from the cursor position, skipping leading
    /// whitespace, and return it — or the first error met. The tree agrees
    /// with `spec_parse_node` on the input text, and on success the cursor
    /// stands directly after the consumed characters.
    pub fn parse(&mut self) -> (r: Result<Node, ParseError>)
        ensures
            final(self).text() == old(self).text(),
            ({
                match spec_parse_node(old(self).text(), old(self).pos()) {
                    Ok(nr) => r matches Ok(node) && rep_node(node) == nr.0 && final(self).pos()
                        == old(self).pos() + nr.1,
                    Err(e) => r matches Err(e2) && e2 == e,
                }
            }),
    {
        self.parse_node()
    }
}

} // verus!
