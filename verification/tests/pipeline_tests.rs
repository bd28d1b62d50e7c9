use code_structure::simplify::to_code_node;
use code_structure::tree::{CodeNode, SyntaxNode};

fn to_syntax_node(node: tree_sitter::Node) -> SyntaxNode {
    let mut children = Vec::new();
    for i in 0..node.child_count() {
        if let Some(child) = node.child(i) {
            children.push(to_syntax_node(child));
        }
    }
    SyntaxNode {
        kind: node.kind().to_string(),
        start_byte: node.start_byte(),
        end_byte: node.end_byte(),
        children,
    }
}

fn parse_cpp(source: &str) -> SyntaxNode {
    let mut parser = tree_sitter::Parser::new();
    parser.set_language(&tree_sitter_cpp::LANGUAGE.into()).expect("Error loading C++ grammar");
    let tree = parser.parse(source, None).unwrap();
    to_syntax_node(tree.root_node())
}

fn has_kind(n: &SyntaxNode, kind: &str) -> bool {
    n.kind == kind || n.children.iter().any(|c| has_kind(c, kind))
}

fn has_comment_below(n: &CodeNode) -> bool {
    n.children.iter().any(|c| c.kind == "comment" || has_comment_below(c))
}

fn find_name(n: &CodeNode, kind: &str) -> Option<String> {
    if n.kind == kind {
        return n.name.clone();
    }
    n.children.iter().find_map(|c| find_name(c, kind))
}

fn collect_names(n: &CodeNode, acc: &mut Vec<String>) {
    if let Some(name) = &n.name {
        acc.push(name.clone());
    }
    for c in &n.children {
        collect_names(c, acc);
    }
}

fn to_value(n: &CodeNode) -> serde_json::Value {
    let mut fields = serde_json::Map::new();
    fields.insert("kind".to_string(), serde_json::Value::String(n.kind.clone()));
    let name = match &n.name {
        Some(s) => serde_json::Value::String(s.clone()),
        None => serde_json::Value::Null,
    };
    fields.insert("name".to_string(), name);
    let children = n.children.iter().map(to_value).collect();
    fields.insert("children".to_string(), serde_json::Value::Array(children));
    serde_json::Value::Object(fields)
}

#[test]
fn parsed_comment_nodes_are_elided() {
    let source = "// hi\nint x;";
    let syntax = parse_cpp(source);
    assert!(has_kind(&syntax, "comment"));
    let out = to_code_node(&syntax, &source.as_bytes().to_vec());
    assert!(!has_comment_below(&out));
    assert!(out.children.iter().all(|c| c.kind != "comment"));
}

#[test]
fn parsed_identifier_is_named_from_source() {
    let source = "int value;";
    let syntax = parse_cpp(source);
    let out = to_code_node(&syntax, &source.as_bytes().to_vec());
    assert_eq!(find_name(&out, "identifier"), Some("value".to_string()));
    assert_eq!(find_name(&out, "primitive_type"), Some("int".to_string()));
}

#[test]
fn malformed_source_still_yields_a_tree() {
    for source in ["", "@@@ ~~ !!", "int ) { ;"] {
        let syntax = parse_cpp(source);
        let out = to_code_node(&syntax, &source.as_bytes().to_vec());
        assert!(!out.kind.is_empty());
        assert!(!has_comment_below(&out));
    }
}

#[test]
fn serialized_output_is_deterministic() {
    let source = "// hi\nstruct Number { int value; };";
    let syntax_a = parse_cpp(source);
    let syntax_b = parse_cpp(source);
    let out_a = to_code_node(&syntax_a, &source.as_bytes().to_vec());
    let out_b = to_code_node(&syntax_b, &source.as_bytes().to_vec());
    assert_eq!(out_a, out_b);
    let json_a = serde_json::to_string_pretty(&to_value(&out_a)).unwrap();
    let json_b = serde_json::to_string_pretty(&to_value(&out_b)).unwrap();
    assert_eq!(json_a, json_b);
}

#[test]
fn default_sample_produces_a_named_structure() {
    let source = code_structure::source::get_default_cpp_code();
    let syntax = parse_cpp(&source);
    let out = to_code_node(&syntax, &source.as_bytes().to_vec());
    assert!(has_kind(&syntax, "comment"));
    assert!(!has_comment_below(&out));
    let mut all_names = Vec::new();
    collect_names(&out, &mut all_names);
    assert!(all_names.contains(&"Number".to_string()));
    assert!(all_names.contains(&"x".to_string()));
}
