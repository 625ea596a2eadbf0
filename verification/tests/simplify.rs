use hemtt::error::ArmaConfigError;
use hemtt::parser::{Node, Statement, AST};
use hemtt::simplify::{get_array, get_entries, get_entry, get_value};
use hemtt::simplify::{Array, ArrayElement, Class, Config, Entry};

fn node(statement: Statement) -> Node {
    Node { file: String::from("config.cpp"), start: 0, end: 0, statement }
}

fn number(value: i32) -> Node {
    node(Statement::Integer(value))
}

fn string(value: &str) -> Node {
    node(Statement::Str(value.to_string()))
}

fn property(ident: &str, value: Node) -> Node {
    node(Statement::Property { ident: ident.to_string(), value: Box::new(value), expand: false })
}

fn append(ident: &str, value: Node) -> Node {
    node(Statement::Property { ident: ident.to_string(), value: Box::new(value), expand: true })
}

fn class(ident: &str, extends: Option<&str>, props: Vec<Node>) -> Node {
    node(Statement::Class {
        ident: ident.to_string(),
        extends: extends.map(|parent| parent.to_string()),
        props,
    })
}

fn file(children: Vec<Node>) -> AST {
    AST { config: node(Statement::Config(children)), processed: true }
}

fn names(entries: &[(String, Entry)]) -> Vec<&str> {
    entries.iter().map(|(name, _)| name.as_str()).collect()
}

fn has_invisible(entries: &[(String, Entry)]) -> bool {
    entries.iter().any(|(_, entry)| match entry {
        Entry::Invisible(_) => true,
        Entry::Class(class) => has_invisible(&class.entries),
        _ => false,
    })
}

#[test]
fn unprocessed_tree_is_refused() {
    let ast = AST { config: node(Statement::Config(vec![number(1)])), processed: false };
    assert_eq!(Config::from_ast(ast), Err(ArmaConfigError::NotProcessed));
}

#[test]
fn unprocessed_tree_is_refused_before_its_root_is_read() {
    let ast = AST { config: number(1), processed: false };
    assert_eq!(Config::from_ast(ast), Err(ArmaConfigError::NotProcessed));
}

#[test]
fn root_must_be_a_config() {
    let ast = AST { config: class("Veh", None, vec![]), processed: true };
    assert_eq!(Config::from_ast(ast), Err(ArmaConfigError::NotRoot));
    let ast = AST { config: number(3), processed: true };
    assert_eq!(Config::from_ast(ast), Err(ArmaConfigError::NotRoot));
}

#[test]
fn empty_file_gives_empty_root() {
    let config = Config::from_ast(file(vec![])).unwrap();
    assert_eq!(
        config.root,
        Class { parent: String::new(), external: false, deletion: false, entries: vec![] }
    );
}

#[test]
fn class_with_scalar_and_array() {
    let tree = file(vec![class(
        "Veh",
        Some("Base"),
        vec![
            property("scope", number(2)),
            property("magazines", node(Statement::Array(vec![string("a"), string("b")]))),
        ],
    )]);
    let config = Config::from_ast(tree).unwrap();
    assert_eq!(
        config.root.entries,
        vec![(
            "Veh".to_string(),
            Entry::Class(Class {
                parent: "Base".to_string(),
                external: false,
                deletion: false,
                entries: vec![
                    ("scope".to_string(), Entry::Int(2)),
                    (
                        "magazines".to_string(),
                        Entry::Array(Array {
                            expand: false,
                            elements: vec![
                                ArrayElement::Str("a".to_string()),
                                ArrayElement::Str("b".to_string()),
                            ],
                        }),
                    ),
                ],
            }),
        )]
    );
    assert!(!config.root.external);
    assert!(!config.root.deletion);
    assert_eq!(config.root.parent, "");
}

#[test]
fn forward_declaration() {
    let found = get_entry(node(Statement::ClassDef("Fwd".to_string()))).unwrap();
    assert_eq!(
        found,
        Some((
            "Fwd".to_string(),
            Entry::Class(Class {
                parent: String::new(),
                external: true,
                deletion: false,
                entries: vec![],
            }),
        ))
    );
}

#[test]
fn append_array_keeps_its_flag() {
    let found =
        get_entry(append("magazines", node(Statement::Array(vec![string("c")])))).unwrap();
    assert_eq!(
        found,
        Some((
            "magazines".to_string(),
            Entry::Array(Array {
                expand: true,
                elements: vec![ArrayElement::Str("c".to_string())],
            }),
        ))
    );
}

#[test]
fn class_without_parent_has_empty_parent() {
    let found = get_entry(class("Veh", None, vec![])).unwrap().unwrap();
    assert_eq!(
        found.1,
        Entry::Class(Class {
            parent: String::new(),
            external: false,
            deletion: false,
            entries: vec![],
        })
    );
}

#[test]
fn fragment_is_spliced_in_order() {
    let body = vec![
        property("a", number(1)),
        node(Statement::Config(vec![property("b", number(2)), property("c", number(3))])),
        property("d", number(4)),
    ];
    let config = Config::from_ast(file(vec![class("Veh", None, body)])).unwrap();
    match &config.root.entries[0].1 {
        Entry::Class(class) => {
            assert_eq!(names(&class.entries), vec!["a", "b", "c", "d"]);
            assert_eq!(class.entries[1].1, Entry::Int(2));
            assert_eq!(class.entries[2].1, Entry::Int(3));
        }
        other => panic!("not a class: {:?}", other),
    }
}

#[test]
fn fragment_at_top_level_is_spliced() {
    let tree = file(vec![
        property("a", number(1)),
        node(Statement::Config(vec![property("b", number(2))])),
    ]);
    let config = Config::from_ast(tree).unwrap();
    assert_eq!(
        config.root.entries,
        vec![("a".to_string(), Entry::Int(1)), ("b".to_string(), Entry::Int(2))]
    );
}

#[test]
fn nested_fragments_leave_no_invisible_entry() {
    let inner = node(Statement::Config(vec![
        property("x", number(1)),
        node(Statement::Config(vec![property("y", number(2)), class("Deep", None, vec![
            node(Statement::Config(vec![property("z", number(3))])),
        ])])),
    ]));
    let tree = file(vec![class("Outer", None, vec![inner, property("w", number(4))])]);
    let config = Config::from_ast(tree).unwrap();
    assert!(!has_invisible(&config.root.entries));
    match &config.root.entries[0].1 {
        Entry::Class(outer) => {
            assert_eq!(names(&outer.entries), vec!["x", "y", "Deep", "w"]);
            match &outer.entries[2].1 {
                Entry::Class(deep) => assert_eq!(names(&deep.entries), vec!["z"]),
                other => panic!("not a class: {:?}", other),
            }
        }
        other => panic!("not a class: {:?}", other),
    }
}

#[test]
fn fragment_alone_converts_to_invisible() {
    let found = get_entry(node(Statement::Config(vec![property("b", number(2))]))).unwrap();
    assert_eq!(
        found,
        Some((String::new(), Entry::Invisible(vec![("b".to_string(), Entry::Int(2))])))
    );
}

#[test]
fn empty_fragment_contributes_nothing() {
    let entries = get_entries(vec![
        property("a", number(1)),
        node(Statement::Config(vec![])),
        property("b", number(2)),
    ])
    .unwrap();
    assert_eq!(names(&entries), vec!["a", "b"]);
}

#[test]
fn later_entry_of_same_name_is_kept_after_earlier() {
    let entries =
        get_entries(vec![property("a", number(1)), property("a", number(2))]).unwrap();
    assert_eq!(
        entries,
        vec![("a".to_string(), Entry::Int(1)), ("a".to_string(), Entry::Int(2))]
    );
}

#[test]
fn scalar_values() {
    assert_eq!(get_value(Statement::Integer(-7), false), Ok(Entry::Int(-7)));
    assert_eq!(
        get_value(Statement::Float(1.5f32.to_bits()), false),
        Ok(Entry::Float(1.5f32.to_bits()))
    );
    assert_eq!(
        get_value(Statement::Str("hello".to_string()), true),
        Ok(Entry::Str("hello".to_string()))
    );
}

#[test]
fn float_bits_round_trip() {
    match get_value(Statement::Float(0.25f32.to_bits()), false) {
        Ok(Entry::Float(bits)) => assert_eq!(f32::from_bits(bits), 0.25f32),
        other => panic!("not a float: {:?}", other),
    }
}

#[test]
fn value_of_other_shape_is_invalid() {
    assert_eq!(
        get_value(Statement::ClassDef("X".to_string()), false),
        Err(ArmaConfigError::InvalidProperty("ClassDef".to_string()))
    );
    assert_eq!(
        get_value(Statement::Config(vec![]), false),
        Err(ArmaConfigError::InvalidProperty("Config".to_string()))
    );
    let found = get_entry(property("p", class("C", None, vec![])));
    assert_eq!(found, Err(ArmaConfigError::InvalidProperty("Class".to_string())));
}

#[test]
fn literal_in_class_body_is_a_defect() {
    assert_eq!(
        get_entry(number(1)),
        Err(ArmaConfigError::InternalStructuralDefect("Integer".to_string()))
    );
    assert_eq!(
        get_entry(node(Statement::Array(vec![]))),
        Err(ArmaConfigError::InternalStructuralDefect("Array".to_string()))
    );
    let tree = file(vec![property("a", number(1)), string("stray")]);
    assert_eq!(
        Config::from_ast(tree),
        Err(ArmaConfigError::InternalStructuralDefect("Str".to_string()))
    );
}

#[test]
fn first_error_in_order_is_reported() {
    let found = get_entries(vec![
        property("a", number(1)),
        property("bad", node(Statement::ClassDef("X".to_string()))),
        number(3),
    ]);
    assert_eq!(found, Err(ArmaConfigError::InvalidProperty("ClassDef".to_string())));
    let found = get_entries(vec![
        class("C", None, vec![node(Statement::Float(0))]),
        property("bad", node(Statement::ClassDef("X".to_string()))),
    ]);
    assert_eq!(found, Err(ArmaConfigError::InternalStructuralDefect("Float".to_string())));
}

#[test]
fn nested_arrays() {
    let found = get_array(vec![
        number(1),
        node(Statement::Array(vec![string("x"), node(Statement::Array(vec![]))])),
        node(Statement::Float(2.0f32.to_bits())),
    ]);
    assert_eq!(
        found,
        Ok(vec![
            ArrayElement::Int(1),
            ArrayElement::Array(Array {
                expand: false,
                elements: vec![
                    ArrayElement::Str("x".to_string()),
                    ArrayElement::Array(Array { expand: false, elements: vec![] }),
                ],
            }),
            ArrayElement::Float(2.0f32.to_bits()),
        ])
    );
}

#[test]
fn nested_array_does_not_take_the_flag_of_the_outer() {
    let found = get_value(Statement::Array(vec![node(Statement::Array(vec![]))]), true);
    assert_eq!(
        found,
        Ok(Entry::Array(Array {
            expand: true,
            elements: vec![ArrayElement::Array(Array { expand: false, elements: vec![] })],
        }))
    );
}

#[test]
fn statement_in_array_is_invalid() {
    assert_eq!(
        get_array(vec![number(1), node(Statement::ClassDef("X".to_string()))]),
        Err(ArmaConfigError::InvalidProperty("ClassDef".to_string()))
    );
    assert_eq!(
        get_array(vec![class("C", None, vec![])]),
        Err(ArmaConfigError::InvalidProperty("Class".to_string()))
    );
}

#[test]
fn property_in_array_stands_for_its_value() {
    assert_eq!(
        get_array(vec![number(1), property("p", number(2))]),
        Ok(vec![ArrayElement::Int(1), ArrayElement::Int(2)])
    );
    assert_eq!(
        get_array(vec![property("s", string("x")), property("f", node(Statement::Float(9)))]),
        Ok(vec![ArrayElement::Str("x".to_string()), ArrayElement::Float(9)])
    );
}

#[test]
fn property_in_array_keeps_its_own_flag() {
    let element = append("e", node(Statement::Array(vec![string("c")])));
    assert_eq!(
        get_array(vec![element]),
        Ok(vec![ArrayElement::Array(Array {
            expand: true,
            elements: vec![ArrayElement::Str("c".to_string())],
        })])
    );
    let element = property("e", node(Statement::Array(vec![string("c")])));
    assert_eq!(
        get_array(vec![element]),
        Ok(vec![ArrayElement::Array(Array {
            expand: false,
            elements: vec![ArrayElement::Str("c".to_string())],
        })])
    );
    let outer = get_value(
        Statement::Array(vec![
            node(Statement::Array(vec![])),
            append("e", node(Statement::Array(vec![number(1)]))),
        ]),
        false,
    );
    assert_eq!(
        outer,
        Ok(Entry::Array(Array {
            expand: false,
            elements: vec![
                ArrayElement::Array(Array { expand: false, elements: vec![] }),
                ArrayElement::Array(Array { expand: true, elements: vec![ArrayElement::Int(1)] }),
            ],
        }))
    );
}

#[test]
fn property_in_array_with_a_value_of_other_shape_is_invalid() {
    assert_eq!(
        get_array(vec![property("p", class("C", None, vec![]))]),
        Err(ArmaConfigError::InvalidProperty("Class".to_string()))
    );
    assert_eq!(
        get_array(vec![property("p", property("q", number(1)))]),
        Err(ArmaConfigError::InvalidProperty("Property".to_string()))
    );
    assert_eq!(
        get_array(vec![number(1), property("p", node(Statement::Config(vec![]))), number(2)]),
        Err(ArmaConfigError::InvalidProperty("Config".to_string()))
    );
}

#[test]
fn narrowing_keeps_scalars_and_arrays() {
    assert_eq!(Entry::Int(4).into_element(), Ok(ArrayElement::Int(4)));
    assert_eq!(Entry::Float(7).into_element(), Ok(ArrayElement::Float(7)));
    assert_eq!(
        Entry::Str("s".to_string()).into_element(),
        Ok(ArrayElement::Str("s".to_string()))
    );
    let array = Array { expand: true, elements: vec![ArrayElement::Int(1)] };
    assert_eq!(
        Entry::Array(Array { expand: true, elements: vec![ArrayElement::Int(1)] }).into_element(),
        Ok(ArrayElement::Array(array))
    );
}

#[test]
fn narrowing_refuses_classes_and_fragments() {
    let class = Class { parent: String::new(), external: true, deletion: false, entries: vec![] };
    assert_eq!(
        Entry::Class(class).into_element(),
        Err(ArmaConfigError::InternalStructuralDefect("Class".to_string()))
    );
    assert_eq!(
        Entry::Invisible(vec![]).into_element(),
        Err(ArmaConfigError::InternalStructuralDefect("Invisible".to_string()))
    );
}

#[test]
fn shape_names() {
    assert_eq!(Statement::Config(vec![]).shape(), "Config");
    assert_eq!(Statement::Integer(0).shape(), "Integer");
    assert_eq!(Statement::Str(String::new()).shape(), "Str");
    assert_eq!(Statement::Array(vec![]).shape(), "Array");
    assert_eq!(Statement::Float(0).shape(), "Float");
    assert_eq!(Statement::ClassDef(String::new()).shape(), "ClassDef");
}

#[test]
fn copies_are_equal_and_independent() {
    let tree = file(vec![class(
        "Veh",
        Some("Base"),
        vec![
            property("scope", number(2)),
            append("magazines", node(Statement::Array(vec![string("a"), number(1)]))),
            class("Inner", None, vec![property("x", node(Statement::Float(7)))]),
        ],
    )]);
    let config = Config::from_ast(tree).unwrap();
    let mut copy = config.clone();
    assert_eq!(copy, config);
    copy.root.entries.push(("extra".to_string(), Entry::Int(0)));
    assert_eq!(config.root.entries.len(), 1);
    assert_eq!(copy.root.entries.len(), 2);
    let entry = config.root.entries[0].1.clone();
    assert_eq!(entry, config.root.entries[0].1);
    let fragment = Entry::Invisible(vec![("a".to_string(), Entry::Str("s".to_string()))]);
    assert_eq!(fragment.clone(), fragment);
    let element = ArrayElement::Array(Array {
        expand: true,
        elements: vec![ArrayElement::Str("s".to_string()), ArrayElement::Float(3)],
    });
    assert_eq!(element.clone(), element);
}

#[test]
fn collecting_is_done_statement_by_statement() {
    let first = || vec![property("a", number(1)), node(Statement::Config(vec![property("b", number(2))]))];
    let second = || vec![class("C", None, vec![]), property("d", number(4))];
    let mut whole = first();
    whole.extend(second());
    let mut expected = get_entries(first()).unwrap();
    expected.extend(get_entries(second()).unwrap());
    assert_eq!(get_entries(whole).unwrap(), expected);
}
