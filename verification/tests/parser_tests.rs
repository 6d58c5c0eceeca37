use markup_dom::dom::Element;
use markup_dom::dom::Node;
use markup_dom::errors::ParseError;
use markup_dom::parser::Parser;

#[test]
fn test_parse_valid_single_element() {
    let input = "<div></div>".to_string();
    let mut parser = Parser::new(input);

    match parser.parse() {
        Ok(Node::Element(element)) => {
            assert_eq!(element.tag_name, "div");
            assert!(element.children.is_empty());
        }
        _ => panic!("Expected a valid div element"),
    }
}

#[test]
fn test_parse_valid_nested_elements() {
    let input = "<div><p></p></div>".to_string();
    let mut parser = Parser::new(input);

    match parser.parse() {
        Ok(Node::Element(element)) => {
            assert_eq!(element.tag_name, "div");
            assert_eq!(element.children.len(), 1);
            if let Node::Element(child) = &element.children[0] {
                assert_eq!(child.tag_name, "p");
                assert!(child.children.is_empty());
            } else {
                panic!("Expected a p element inside div");
            }
        }
        _ => panic!("Expected a valid nested element structure"),
    }
}

#[test]
fn test_parse_text_node() {
    let input = "Hello, world!".to_string();
    let mut parser = Parser::new(input);

    match parser.parse() {
        Ok(Node::Text(text)) => {
            assert_eq!(text, "Hello, world!");
        }
        _ => panic!("Expected a text node"),
    }
}

#[test]
fn test_mismatched_closing_tag() {
    let input = "<div><p></div></p>".to_string();
    let mut parser = Parser::new(input);

    match parser.parse() {
        Err(ParseError::MismatchedClosingTag) => (),
        _ => panic!("Expected MismatchedClosingTag error"),
    }
}

#[test]
fn test_empty_input() {
    let input = "".to_string();
    let mut parser = Parser::new(input);

    match parser.parse() {
        Err(ParseError::UnexpectedEOF) => (),
        _ => panic!("Expected UnexpectedEOF error"),
    }
}

#[test]
fn test_parse_element_with_attributes() {
    let input = r#"<div class="container" id='main'></div>"#.to_string();
    let mut parser = Parser::new(input);

    match parser.parse() {
        Ok(Node::Element(element)) => {
            assert_eq!(element.tag_name, "div");
            assert_eq!(element.attributes.len(), 2);
            assert_eq!(
                element.attributes[0],
                ("class".to_string(), "container".to_string())
            );
            assert_eq!(
                element.attributes[1],
                ("id".to_string(), "main".to_string())
            );
        }
        _ => panic!("Expected a div element with attributes"),
    }
}

#[test]
fn test_parse_self_closing_element() {
    let input = "<img src='image.jpg' />".to_string();
    let mut parser = Parser::new(input);

    match parser.parse() {
        Ok(Node::Element(element)) => {
            assert_eq!(element.tag_name, "img");
            assert_eq!(element.attributes.len(), 1);
            assert_eq!(
                element.attributes[0],
                ("src".to_string(), "image.jpg".to_string())
            );
            assert!(element.children.is_empty());
        }
        _ => panic!("Expected a self-closing img element"),
    }
}

#[test]
fn test_parse_comment_simple() {
    let input = "<!-- This is a comment -->".to_string();
    let mut parser = Parser::new(input);

    match parser.parse_comment() {
        Ok(Node::Comment(content)) => {
            assert_eq!(content, " This is a comment ");
        }
        _ => panic!("Expected a comment node"),
    }
}

#[test]
fn test_parse_comment_with_extra_text() {
    let input = "<!-- This is a comment --> Extra text".to_string();
    let mut parser = Parser::new(input);

    match parser.parse_comment() {
        Ok(Node::Comment(content)) => {
            assert_eq!(content, " This is a comment ");
        }
        _ => panic!("Expected a comment node followed by extra text"),
    }

    assert!(parser.starts_with(" Extra text"));
}

#[test]
fn test_invalid_attribute_value() {
    let input = "<div class=container></div>".to_string();
    let mut parser = Parser::new(input);

    match parser.parse() {
        Err(ParseError::InvalidAttributeValue) => (),
        _ => panic!("Expected InvalidAttributeValue error"),
    }
}

#[test]
fn test_parse_comment_at_top_level() {
    let input = "<!-- x --> rest".to_string();
    let mut parser = Parser::new(input);

    match parser.parse() {
        Ok(Node::Comment(content)) => {
            assert_eq!(content, " x ");
        }
        _ => panic!("Expected a comment node"),
    }
    assert!(parser.starts_with(" rest"));
}

#[test]
fn test_unterminated_comment() {
    let input = "<!-- never closed".to_string();
    let mut parser = Parser::new(input);

    match parser.parse() {
        Err(ParseError::UnexpectedEOF) => (),
        _ => panic!("Expected UnexpectedEOF error for an unterminated comment"),
    }
}

#[test]
fn test_parse_comment_missing_open_marker() {
    let input = "plain".to_string();
    let mut parser = Parser::new(input);

    match parser.parse_comment() {
        Err(ParseError::InvalidTag) => (),
        _ => panic!("Expected InvalidTag error without the open marker"),
    }
}

#[test]
fn test_whitespace_only_input() {
    let input = "   \t\n ".to_string();
    let mut parser = Parser::new(input);

    match parser.parse() {
        Err(ParseError::UnexpectedEOF) => (),
        _ => panic!("Expected UnexpectedEOF error for whitespace-only input"),
    }
}

#[test]
fn test_leading_whitespace_before_text_is_skipped() {
    let input = "  hi".to_string();
    let mut parser = Parser::new(input);

    match parser.parse() {
        Ok(Node::Text(text)) => assert_eq!(text, "hi"),
        _ => panic!("Expected a text node"),
    }
}

#[test]
fn test_text_keeps_inner_and_trailing_whitespace() {
    let input = "hi there  ".to_string();
    let mut parser = Parser::new(input);

    match parser.parse() {
        Ok(Node::Text(text)) => assert_eq!(text, "hi there  "),
        _ => panic!("Expected a text node"),
    }
}

#[test]
fn test_self_closing_without_attributes() {
    let input = "<br/>".to_string();
    let mut parser = Parser::new(input);

    match parser.parse() {
        Ok(Node::Element(element)) => {
            assert_eq!(element.tag_name, "br");
            assert!(element.attributes.is_empty());
            assert!(element.children.is_empty());
        }
        _ => panic!("Expected a self-closing br element"),
    }
}

#[test]
fn test_quote_kinds_give_the_same_attribute() {
    let mut single = Parser::new("<a x='v'></a>".to_string());
    let mut double = Parser::new("<a x=\"v\"></a>".to_string());

    let from_single = match single.parse() {
        Ok(Node::Element(element)) => element.attributes,
        _ => panic!("Expected an element with a single-quoted attribute"),
    };
    let from_double = match double.parse() {
        Ok(Node::Element(element)) => element.attributes,
        _ => panic!("Expected an element with a double-quoted attribute"),
    };
    assert_eq!(from_single, from_double);
    assert_eq!(from_single, vec![("x".to_string(), "v".to_string())]);
}

#[test]
fn test_attribute_value_may_hold_the_other_quote() {
    let input = "<a t=\"it's fine\"></a>".to_string();
    let mut parser = Parser::new(input);

    match parser.parse() {
        Ok(Node::Element(element)) => {
            assert_eq!(
                element.attributes[0],
                ("t".to_string(), "it's fine".to_string())
            );
        }
        _ => panic!("Expected an element with a quoted attribute"),
    }
}

#[test]
fn test_missing_closing_quote() {
    let input = "<div class=\"oops></div>".to_string();
    let mut parser = Parser::new(input);

    match parser.parse() {
        Err(ParseError::UnexpectedEOF) => (),
        _ => panic!("Expected UnexpectedEOF error for a missing closing quote"),
    }
}

#[test]
fn test_attribute_without_equals_sign() {
    let input = "<a b></a>".to_string();
    let mut parser = Parser::new(input);

    match parser.parse() {
        Err(ParseError::InvalidAttributeValue) => (),
        _ => panic!("Expected InvalidAttributeValue error"),
    }
}

#[test]
fn test_truncated_opening_tag() {
    let input = "<div".to_string();
    let mut parser = Parser::new(input);

    match parser.parse() {
        Err(ParseError::UnexpectedEOF) => (),
        _ => panic!("Expected UnexpectedEOF error for a truncated opening tag"),
    }
}

#[test]
fn test_truncated_after_closing_name() {
    let input = "<a></a".to_string();
    let mut parser = Parser::new(input);

    match parser.parse() {
        Err(ParseError::UnexpectedEOF) => (),
        _ => panic!("Expected UnexpectedEOF error for a truncated closing tag"),
    }
}

#[test]
fn test_simple_mismatch() {
    let input = "<a></b>".to_string();
    let mut parser = Parser::new(input);

    match parser.parse() {
        Err(ParseError::MismatchedClosingTag) => (),
        _ => panic!("Expected MismatchedClosingTag error"),
    }
}

#[test]
fn test_empty_tag_name_is_tolerated() {
    let input = "<></>".to_string();
    let mut parser = Parser::new(input);

    match parser.parse() {
        Ok(Node::Element(element)) => {
            assert_eq!(element.tag_name, "");
            assert!(element.children.is_empty());
        }
        _ => panic!("Expected an element with an empty tag name"),
    }
}

#[test]
fn test_text_child_inside_element() {
    let input = "<p>hello</p>".to_string();
    let mut parser = Parser::new(input);

    match parser.parse() {
        Ok(Node::Element(element)) => {
            assert_eq!(element.tag_name, "p");
            assert_eq!(element.children.len(), 1);
            match &element.children[0] {
                Node::Text(text) => assert_eq!(text, "hello"),
                _ => panic!("Expected a text child"),
            }
        }
        _ => panic!("Expected a p element"),
    }
}

#[test]
fn test_whitespace_between_children_is_skipped() {
    let input = "<a> <b></b> </a>".to_string();
    let mut parser = Parser::new(input);

    match parser.parse() {
        Ok(Node::Element(element)) => {
            assert_eq!(element.children.len(), 1);
            match &element.children[0] {
                Node::Element(child) => assert_eq!(child.tag_name, "b"),
                _ => panic!("Expected an element child"),
            }
        }
        _ => panic!("Expected an a element"),
    }
}

#[test]
fn test_mixed_children_in_document_order() {
    let input = "<a><b></b><!-- note -->tail</a>".to_string();
    let mut parser = Parser::new(input);

    match parser.parse() {
        Ok(Node::Element(element)) => {
            assert_eq!(element.children.len(), 3);
            match &element.children[0] {
                Node::Element(child) => assert_eq!(child.tag_name, "b"),
                _ => panic!("Expected an element child first"),
            }
            match &element.children[1] {
                Node::Comment(content) => assert_eq!(content, " note "),
                _ => panic!("Expected a comment child second"),
            }
            match &element.children[2] {
                Node::Text(text) => assert_eq!(text, "tail"),
                _ => panic!("Expected a text child third"),
            }
        }
        _ => panic!("Expected an a element"),
    }
}

#[test]
fn test_duplicate_attributes_are_kept() {
    let input = "<a x='1' x='2'></a>".to_string();
    let mut parser = Parser::new(input);

    match parser.parse() {
        Ok(Node::Element(element)) => {
            assert_eq!(element.attributes.len(), 2);
            assert_eq!(element.attributes[0], ("x".to_string(), "1".to_string()));
            assert_eq!(element.attributes[1], ("x".to_string(), "2".to_string()));
        }
        _ => panic!("Expected an element with duplicate attributes"),
    }
}

#[test]
fn test_unicode_text_survives() {
    let input = "héllo wörld — ßpaß".to_string();
    let mut parser = Parser::new(input);

    match parser.parse() {
        Ok(Node::Text(text)) => assert_eq!(text, "héllo wörld — ßpaß"),
        _ => panic!("Expected a text node"),
    }
}

#[test]
fn test_unicode_tag_name() {
    let input = "<дом></дом>".to_string();
    let mut parser = Parser::new(input);

    match parser.parse() {
        Ok(Node::Element(element)) => {
            assert_eq!(element.tag_name, "дом");
            assert!(element.children.is_empty());
        }
        _ => panic!("Expected an element with a non-ASCII tag name"),
    }
}

#[test]
fn test_error_messages() {
    assert_eq!(ParseError::InvalidTag.message(), "Invalid HTML tag");
    assert_eq!(ParseError::UnexpectedEOF.message(), "Unexpected end of file");
    assert_eq!(
        ParseError::MismatchedClosingTag.message(),
        "Mismatched closing tag"
    );
    assert_eq!(
        ParseError::InvalidAttributeValue.message(),
        "Invalid attribute value"
    );
}

#[test]
fn test_clone_is_a_deep_copy() {
    let input = "<div class='c'><p>hi</p><!-- n --></div>".to_string();
    let mut parser = Parser::new(input);

    let node = parser.parse().expect("Expected a parsed tree");
    let copy = node.clone();
    assert_eq!(copy, node);
}

#[test]
fn test_element_constructors() {
    let bare = Element::new("div".to_string());
    assert_eq!(bare.tag_name, "div");
    assert!(bare.attributes.is_empty());
    assert!(bare.children.is_empty());

    let with = Element::with_attributes(
        "img".to_string(),
        vec![("src".to_string(), "a.png".to_string())],
    );
    assert_eq!(with.tag_name, "img");
    assert_eq!(with.attributes.len(), 1);
    assert!(with.children.is_empty());
}
