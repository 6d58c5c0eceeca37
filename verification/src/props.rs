//! Laws of the parser, proved of the model in `model`. Through the
//! contracts of `Parser::parse` and its companions, each law carries over
//! to the executable scanner.

use vstd::prelude::*;

use crate::errors::ParseError;
use crate::model::{
    comment_close, comment_open, comment_run, lemma_spec_attributes_bounds, lemma_until_run_full,
    name_run, self_close_mark, spec_parse_attributes, spec_parse_children, spec_parse_comment,
    spec_parse_element, spec_parse_node, starts_with_at, until_run, whitespace, ws_run, AttrModel,
    NodeModel,
};

verus! {

/// Round-trip shape: when the input, after leading whitespace, opens an
/// element (not a comment) and the parse succeeds, the result is an element
/// whose tag is the opening tag's literal text and whose children are
/// exactly the top-level nodes parsed between the tags — none at all when
/// the element is self-closing.
pub proof fn lemma_round_trip_shape(s: Seq<char>, p: int)
    requires
        0 <= p,
        p + ws_run(s, p) < s.len(),
        s[p + ws_run(s, p)] == '<',
        !starts_with_at(s, p + ws_run(s, p), comment_open()),
        spec_parse_node(s, p) is Ok,
    ensures
        ({
            let pw = p + ws_run(s, p);
            let n = name_run(s, pw + 1);
            match spec_parse_node(s, p)->Ok_0.0 {
                NodeModel::Element { tag, attrs: _, children } => {
                    &&& tag == s.subrange(pw + 1, pw + 1 + n)
                    &&& (match spec_parse_attributes(s, pw + 1 + n) {
                        Ok(ar) => if starts_with_at(s, pw + 1 + n + ar.1, self_close_mark()) {
                            children.len() == 0
                        } else {
                            match spec_parse_children(s, pw + 1 + n + ar.1 + 1) {
                                Ok(cr) => children == cr.0,
                                Err(_) => false,
                            }
                        },
                        Err(_) => false,
                    })
                },
                _ => false,
            }
        }),
{
    let pw = p + ws_run(s, p);
    let n = name_run(s, pw + 1);
    lemma_spec_attributes_bounds(s, pw + 1 + n);
}

/// Self-closing short-circuit: an element whose attribute run is followed
/// by the self-closing ending parses to an element with no children, and
/// consumes exactly through that ending — no closing tag is looked for or
/// consumed.
pub proof fn lemma_self_closing_short_circuit(s: Seq<char>, p: int)
    requires
        0 <= p < s.len(),
        s[p] == '<',
        spec_parse_attributes(s, p + 1 + name_run(s, p + 1)) is Ok,
        starts_with_at(
            s,
            p + 1 + name_run(s, p + 1) + spec_parse_attributes(
                s,
                p + 1 + name_run(s, p + 1),
            )->Ok_0.1,
            self_close_mark(),
        ),
    ensures
        ({
            let n = name_run(s, p + 1);
            let ar = spec_parse_attributes(s, p + 1 + n)->Ok_0;
            spec_parse_element(s, p) == Ok::<(NodeModel, nat), ParseError>(
                (
                    NodeModel::Element {
                        tag: s.subrange(p + 1, p + 1 + n),
                        attrs: ar.0,
                        children: Seq::empty(),
                    },
                    (1 + n + ar.1 + 2) as nat,
                ),
            )
        }),
{
}

/// Quote symmetry: either quote character delimits an attribute value, and
/// the attribute contributed is the same pair — the name and the verbatim
/// text strictly between the pair of matching quotes — whichever of the two
/// quote characters encloses the value.
pub proof fn lemma_quote_symmetry(s: Seq<char>, p: int)
    requires
        0 <= p < s.len(),
        ws_run(s, p) == 0,
        s[p] != '>' && s[p] != '/',
        ({
            let n = name_run(s, p);
            &&& p + n + 1 < s.len()
            &&& (s[p + n + 1] == '"' || s[p + n + 1] == '\'')
            &&& p + n + 2 + until_run(s, p + n + 2, s[p + n + 1]) < s.len()
        }),
    ensures
        ({
            let n = name_run(s, p);
            let q = s[p + n + 1];
            let v = until_run(s, p + n + 2, q);
            match spec_parse_attributes(s, p + n + 3 + v) {
                Ok(ar) => spec_parse_attributes(s, p) == Ok::<(Seq<AttrModel>, nat), ParseError>(
                    (
                        seq![(s.subrange(p, p + n), s.subrange(p + n + 2, p + n + 2 + v))] + ar.0,
                        (n + 3 + v + ar.1) as nat,
                    ),
                ),
                Err(e) => spec_parse_attributes(s, p) == Err::<(Seq<AttrModel>, nat), ParseError>(
                    e,
                ),
            }
        }),
{
}

/// An attribute value not introduced by a quote character — of either kind
/// — is rejected with `InvalidAttributeValue`.
pub proof fn lemma_unquoted_value_rejected(s: Seq<char>, p: int)
    requires
        0 <= p < s.len(),
        ws_run(s, p) == 0,
        s[p] != '>' && s[p] != '/',
        p + name_run(s, p) + 1 < s.len(),
        s[p + name_run(s, p) + 1] != '"',
        s[p + name_run(s, p) + 1] != '\'',
    ensures
        spec_parse_attributes(s, p) == Err::<(Seq<AttrModel>, nat), ParseError>(
            ParseError::InvalidAttributeValue,
        ),
{
}

/// Mismatch detection: when an element's children have been parsed and the
/// closing tag's name differs from the opening tag's name, the element
/// parse fails with `MismatchedClosingTag`.
pub proof fn lemma_mismatch_detection(s: Seq<char>, p: int)
    requires
        0 <= p < s.len(),
        s[p] == '<',
        spec_parse_attributes(s, p + 1 + name_run(s, p + 1)) is Ok,
        ({
            let n = name_run(s, p + 1);
            let ar = spec_parse_attributes(s, p + 1 + n)->Ok_0;
            let ap = p + 1 + n + ar.1;
            &&& !starts_with_at(s, ap, self_close_mark())
            &&& spec_parse_children(s, ap + 1) is Ok
            &&& ({
                let cr = spec_parse_children(s, ap + 1)->Ok_0;
                let q = ap + 1 + cr.1;
                s.subrange(q + 2, q + 2 + name_run(s, q + 2)) != s.subrange(p + 1, p + 1 + n)
            })
        }),
    ensures
        spec_parse_element(s, p) == Err::<(NodeModel, nat), ParseError>(
            ParseError::MismatchedClosingTag,
        ),
{
    let n = name_run(s, p + 1);
    lemma_spec_attributes_bounds(s, p + 1 + n);
}

/// Empty-input rejection: when nothing but whitespace (possibly none at
/// all) remains, parsing a node fails with `UnexpectedEOF`. In particular
/// the empty input is rejected with `UnexpectedEOF`.
pub proof fn lemma_input_exhausted(s: Seq<char>, p: int)
    requires
        0 <= p,
        p + ws_run(s, p) >= s.len(),
    ensures
        spec_parse_node(s, p) == Err::<(NodeModel, nat), ParseError>(ParseError::UnexpectedEOF),
{
}

/// Comment isolation: a well-terminated comment parses to exactly the
/// content between its markers, and consumes exactly through the close
/// marker — whatever follows is left unconsumed for the caller.
pub proof fn lemma_comment_isolation(s: Seq<char>, p: int)
    requires
        0 <= p,
        starts_with_at(s, p, comment_open()),
        starts_with_at(s, p + 4 + comment_run(s, p + 4), comment_close()),
    ensures
        spec_parse_comment(s, p) == Ok::<(NodeModel, nat), ParseError>(
            (
                NodeModel::Comment(s.subrange(p + 4, p + 4 + comment_run(s, p + 4))),
                (7 + comment_run(s, p + 4)) as nat,
            ),
        ),
{
}

/// Text passthrough: an input that contains no `<` and does not open with
/// whitespace parses to a single text node holding the input unchanged,
/// inner and trailing whitespace kept. (An input that opens with whitespace
/// has exactly that leading run skipped by the dispatcher first.)
pub proof fn lemma_text_passthrough(s: Seq<char>)
    requires
        s.len() > 0,
        !whitespace(s[0]),
        forall|i: int| 0 <= i < s.len() ==> #[trigger] s[i] != '<',
    ensures
        spec_parse_node(s, 0) == Ok::<(NodeModel, nat), ParseError>(
            (NodeModel::Text(s), s.len() as nat),
        ),
{
    lemma_until_run_full(s, 0, '<');
    assert(s[0] != '<');
    assert(comment_open()[0] == '<');
    if starts_with_at(s, 0, comment_open()) {
        assert(s[0int + 0int] == comment_open()[0]);
    }
    assert(s.subrange(0, s.len() as int) =~= s);
}

/// The companion of text passthrough for an input that does open with
/// whitespace: the dispatcher skips exactly the leading whitespace run, and
/// the text node holds everything after it, unchanged.
pub proof fn lemma_leading_whitespace_before_text(s: Seq<char>)
    requires
        ws_run(s, 0) < s.len(),
        forall|i: int| 0 <= i < s.len() ==> #[trigger] s[i] != '<',
    ensures
        spec_parse_node(s, 0) == Ok::<(NodeModel, nat), ParseError>(
            (NodeModel::Text(s.subrange(ws_run(s, 0) as int, s.len() as int)), s.len() as nat),
        ),
{
    let pw = ws_run(s, 0) as int;
    lemma_until_run_full(s, pw, '<');
    assert(s[pw] != '<');
    assert(comment_open()[0] == '<');
    if starts_with_at(s, pw, comment_open()) {
        assert(s[pw + 0int] == comment_open()[0]);
    }
}

} // verus!
