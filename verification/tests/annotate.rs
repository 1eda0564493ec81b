use reshaper_loc::source::Origin;
use reshaper_loc::source::SourceBuffer;
use reshaper_loc::tree::Attr;
use reshaper_loc::tree::Element;
use reshaper_loc::tree::Node;
use reshaper_loc::tree::Program;
use reshaper_loc::tree::Span;
use reshaper_loc::walker::transform;
use reshaper_loc::walker::TransformError;

const LOC_NAME: &str = "data-reshaper-loc";

fn buffer(text: &str, origin: Origin) -> SourceBuffer {
    SourceBuffer { text: text.as_bytes().to_vec(), origin }
}

fn element(name: &str, lo: u32, hi: u32, attrs: Vec<Attr>, children: Vec<Node>) -> Element {
    Element { name: String::from(name), attrs, span: Span { lo, hi }, children }
}

fn count_elements(n: &Node) -> usize {
    match n {
        Node::Element(e) => 1 + e.children.iter().map(count_elements).sum::<usize>(),
        Node::Expr(v) => v.iter().map(count_elements).sum(),
        Node::Fragment(v) => v.iter().map(count_elements).sum(),
        Node::Text(_) => 0,
    }
}

fn as_element(n: &Node) -> &Element {
    match n {
        Node::Element(e) => e,
        _ => panic!("expected an element"),
    }
}

fn attr_value(a: &Attr) -> &str {
    a.value.as_deref().unwrap()
}

#[test]
fn example_scenario() {
    // const x = <div>
    //   <h1>Hello</h1>
    // </div>;
    let src = "const x = <div>\n  <h1>Hello</h1>\n</div>;";
    let buf = buffer(src, Origin::File(String::from("file")));
    let h1 = element(
        "h1",
        18,
        22,
        Vec::new(),
        vec![Node::Text(String::from("Hello"))],
    );
    let div = element(
        "div",
        10,
        15,
        Vec::new(),
        vec![
            Node::Text(String::from("\n  ")),
            Node::Element(h1),
            Node::Text(String::from("\n")),
        ],
    );
    let program = Program { body: vec![Node::Expr(vec![Node::Element(div)])] };
    let out = transform(&program, &buf).unwrap();

    let expr = match &out.body[0] {
        Node::Expr(v) => v,
        _ => panic!("expected an expression node"),
    };
    let div_out = as_element(&expr[0]);
    assert_eq!(div_out.name, "div");
    assert_eq!(div_out.attrs.len(), 1);
    assert_eq!(div_out.attrs[0].name, LOC_NAME);
    assert_eq!(attr_value(&div_out.attrs[0]), "file:1:10");
    assert_eq!(div_out.children.len(), 3);
    match &div_out.children[0] {
        Node::Text(t) => assert_eq!(t, "\n  "),
        _ => panic!("expected text"),
    }
    let h1_out = as_element(&div_out.children[1]);
    assert_eq!(h1_out.name, "h1");
    assert_eq!(h1_out.attrs.len(), 1);
    assert_eq!(h1_out.attrs[0].name, LOC_NAME);
    assert_eq!(attr_value(&h1_out.attrs[0]), "file:2:2");
    match &h1_out.children[0] {
        Node::Text(t) => assert_eq!(t, "Hello"),
        _ => panic!("expected text"),
    }
}

#[test]
fn coverage_counts_are_preserved() {
    let buf = buffer("<a><b/><c/></a>", Origin::File(String::from("f")));
    let tree = Node::Element(element(
        "a",
        0,
        3,
        Vec::new(),
        vec![
            Node::Element(element("b", 3, 7, Vec::new(), Vec::new())),
            Node::Fragment(vec![Node::Element(element("c", 7, 11, Vec::new(), Vec::new()))]),
        ],
    ));
    let program = Program { body: vec![tree] };
    let before: usize = program.body.iter().map(count_elements).sum();
    let out = transform(&program, &buf).unwrap();
    let after: usize = out.body.iter().map(count_elements).sum();
    assert_eq!(before, 3);
    assert_eq!(after, 3);
}

#[test]
fn append_only_keeps_existing_attributes() {
    let buf = buffer("<p id=\"x\" class=\"y\">", Origin::File(String::from("f")));
    let attrs = vec![
        Attr { name: String::from("id"), value: Some(String::from("x")) },
        Attr { name: String::from("class"), value: Some(String::from("y")) },
        Attr { name: String::from("hidden"), value: None },
    ];
    let program = Program {
        body: vec![Node::Element(element("p", 0, 20, attrs, Vec::new()))],
    };
    let out = transform(&program, &buf).unwrap();
    let p = as_element(&out.body[0]);
    assert_eq!(p.attrs.len(), 4);
    assert_eq!(p.attrs[0].name, "id");
    assert_eq!(attr_value(&p.attrs[0]), "x");
    assert_eq!(p.attrs[1].name, "class");
    assert_eq!(attr_value(&p.attrs[1]), "y");
    assert_eq!(p.attrs[2].name, "hidden");
    assert!(p.attrs[2].value.is_none());
    assert_eq!(p.attrs[3].name, LOC_NAME);
}

#[test]
fn unknown_origin_degrades_to_leading_colon() {
    let buf = buffer("<x/>", Origin::Synthetic);
    let program = Program {
        body: vec![Node::Element(element("x", 0, 4, Vec::new(), Vec::new()))],
    };
    let out = transform(&program, &buf).unwrap();
    let x = as_element(&out.body[0]);
    let value = attr_value(&x.attrs[0]);
    assert!(value.starts_with(':'));
    assert_eq!(value, ":1:0");
}

#[test]
fn nested_element_in_expression_gets_its_own_location() {
    // line 1: <a>       (lo 0)
    // line 2:   {<b/>}  (lo of b: 7)
    let buf = buffer("<a>\n  {<b/>}\n</a>", Origin::File(String::from("f")));
    let b = element("b", 7, 11, Vec::new(), Vec::new());
    let a = element(
        "a",
        0,
        3,
        Vec::new(),
        vec![Node::Expr(vec![Node::Element(b)])],
    );
    let program = Program { body: vec![Node::Element(a)] };
    let out = transform(&program, &buf).unwrap();
    let a_out = as_element(&out.body[0]);
    assert_eq!(attr_value(&a_out.attrs[0]), "f:1:0");
    let b_out = match &a_out.children[0] {
        Node::Expr(v) => as_element(&v[0]),
        _ => panic!("expected an expression node"),
    };
    assert_eq!(b_out.attrs.len(), 1);
    assert_eq!(b_out.attrs[0].name, LOC_NAME);
    assert_eq!(attr_value(&b_out.attrs[0]), "f:2:3");
}

#[test]
fn double_transform_accumulates_attributes() {
    let buf = buffer("<x/>", Origin::File(String::from("f")));
    let attrs = vec![Attr { name: String::from("id"), value: Some(String::from("k")) }];
    let program = Program {
        body: vec![Node::Element(element("x", 0, 4, attrs, Vec::new()))],
    };
    let once = transform(&program, &buf).unwrap();
    let twice = transform(&once, &buf).unwrap();
    let x = as_element(&twice.body[0]);
    assert_eq!(x.attrs.len(), 3);
    assert_eq!(x.attrs[0].name, "id");
    assert_eq!(x.attrs[1].name, LOC_NAME);
    assert_eq!(x.attrs[2].name, LOC_NAME);
    assert_eq!(attr_value(&x.attrs[1]), attr_value(&x.attrs[2]));
    assert_eq!(attr_value(&x.attrs[2]), "f:1:0");
}

#[test]
fn transform_fails_on_out_of_range_span() {
    let buf = buffer("ab", Origin::File(String::from("f")));
    let program = Program {
        body: vec![Node::Element(element("x", 9, 12, Vec::new(), Vec::new()))],
    };
    let r = transform(&program, &buf);
    assert_eq!(r.err(), Some(TransformError::ResolutionFault));
}

#[test]
fn transform_fails_on_malformed_span() {
    let buf = buffer("abcdef", Origin::File(String::from("f")));
    let program = Program {
        body: vec![Node::Element(element("x", 3, 1, Vec::new(), Vec::new()))],
    };
    let r = transform(&program, &buf);
    assert_eq!(r.err(), Some(TransformError::ResolutionFault));
}

#[test]
fn transform_fails_on_nested_bad_span() {
    let buf = buffer("<a><b/></a>", Origin::File(String::from("f")));
    let bad = element("b", 99, 100, Vec::new(), Vec::new());
    let a = element("a", 0, 3, Vec::new(), vec![Node::Element(bad)]);
    let program = Program { body: vec![Node::Element(a)] };
    let r = transform(&program, &buf);
    assert_eq!(r.err(), Some(TransformError::ResolutionFault));
}

#[test]
fn tree_without_markup_is_unchanged() {
    let buf = buffer("let y = 1;", Origin::File(String::from("f")));
    let program = Program {
        body: vec![Node::Text(String::from("let y = 1;")), Node::Expr(Vec::new())],
    };
    let out = transform(&program, &buf).unwrap();
    assert_eq!(out.body.len(), 2);
    match &out.body[0] {
        Node::Text(t) => assert_eq!(t, "let y = 1;"),
        _ => panic!("expected text"),
    }
    match &out.body[1] {
        Node::Expr(v) => assert!(v.is_empty()),
        _ => panic!("expected an expression node"),
    }
}
