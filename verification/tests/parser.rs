use com_scrape_types::parse::{
    Argument, ArgumentNode, CursorDecl, CursorNode, DeclKind, Field, Method, Namespace, ParseError,
    Parser, Record, RecordChild, RecordKind, RecordNode, Type, TypeNode,
};

fn parser() -> Parser {
    Parser::new(Vec::new())
}

fn s(text: &str) -> String {
    String::from(text)
}

#[test]
fn primitive_types_map_to_fixed_descriptors() {
    let p = parser();
    assert_eq!(p.parse_type(&TypeNode::Void), Ok(Type::Void));
    assert_eq!(p.parse_type(&TypeNode::Bool), Ok(Type::Bool));
    assert_eq!(p.parse_type(&TypeNode::CharU), Ok(Type::Char));
    assert_eq!(p.parse_type(&TypeNode::CharS), Ok(Type::Char));
    assert_eq!(p.parse_type(&TypeNode::UChar), Ok(Type::UChar));
    assert_eq!(p.parse_type(&TypeNode::UShort), Ok(Type::UShort));
    assert_eq!(p.parse_type(&TypeNode::UInt), Ok(Type::UInt));
    assert_eq!(p.parse_type(&TypeNode::SChar), Ok(Type::SChar));
    assert_eq!(p.parse_type(&TypeNode::Char16), Ok(Type::Short));
    assert_eq!(p.parse_type(&TypeNode::WChar { size: 4 }), Ok(Type::Unsigned(4)));
    assert_eq!(p.parse_type(&TypeNode::ULong), Ok(Type::ULong));
    assert_eq!(p.parse_type(&TypeNode::ULongLong), Ok(Type::ULongLong));
    assert_eq!(p.parse_type(&TypeNode::Short), Ok(Type::Short));
    assert_eq!(p.parse_type(&TypeNode::Int), Ok(Type::Int));
    assert_eq!(p.parse_type(&TypeNode::Long), Ok(Type::Long));
    assert_eq!(p.parse_type(&TypeNode::LongLong), Ok(Type::LongLong));
    assert_eq!(p.parse_type(&TypeNode::Float), Ok(Type::Float));
    assert_eq!(p.parse_type(&TypeNode::Double), Ok(Type::Double));
}

#[test]
fn pointers_and_references_keep_constness() {
    let p = parser();
    let t = TypeNode::Pointer { pointee_const: true, pointee: Box::new(TypeNode::Int) };
    assert_eq!(
        p.parse_type(&t),
        Ok(Type::Pointer { is_const: true, pointee: Box::new(Type::Int) })
    );
    let t = TypeNode::LValueReference { pointee_const: false, pointee: Box::new(TypeNode::Bool) };
    assert_eq!(
        p.parse_type(&t),
        Ok(Type::Reference { is_const: false, pointee: Box::new(Type::Bool) })
    );
}

#[test]
fn enums_read_as_their_underlying_integer() {
    let p = parser();
    let t = TypeNode::Enum { underlying: Box::new(TypeNode::UInt) };
    assert_eq!(p.parse_type(&t), Ok(Type::UInt));
}

#[test]
fn typedefs_keep_their_name_unless_from_a_system_header() {
    let p = parser();
    let named = TypeNode::Typedef {
        name: s("TSize"),
        in_system_header: false,
        underlying: Box::new(TypeNode::ULong),
    };
    assert_eq!(p.parse_type(&named), Ok(Type::Typedef(s("TSize"))));
    let system = TypeNode::Typedef {
        name: s("size_t"),
        in_system_header: true,
        underlying: Box::new(TypeNode::ULong),
    };
    assert_eq!(p.parse_type(&system), Ok(Type::ULong));
}

#[test]
fn arrays_and_elaborated_types() {
    let p = parser();
    let t = TypeNode::ConstantArray { size: 16, element: Box::new(TypeNode::CharS) };
    assert_eq!(p.parse_type(&t), Ok(Type::Array(16, Box::new(Type::Char))));
    let t = TypeNode::Elaborated { named: Box::new(TypeNode::Short) };
    assert_eq!(p.parse_type(&t), Ok(Type::Short));
}

#[test]
fn named_records_map_by_name() {
    let p = parser();
    let t = TypeNode::Record {
        name: s("FUnknown"),
        decl: Box::new(RecordNode { name: s("FUnknown"), kind: DeclKind::Class, children: vec![] }),
    };
    assert_eq!(p.parse_type(&t), Ok(Type::Record(s("FUnknown"))));
}

#[test]
fn unnamed_records_surface_inline() {
    let p = parser();
    let t = TypeNode::Record {
        name: s(""),
        decl: Box::new(RecordNode {
            name: s(""),
            kind: DeclKind::Union,
            children: vec![RecordChild::Field { name: s("raw"), ty: TypeNode::UInt }],
        }),
    };
    assert_eq!(
        p.parse_type(&t),
        Ok(Type::UnnamedRecord(Record {
            name: s(""),
            kind: RecordKind::Union,
            fields: vec![Field { name: s("raw"), type_: Type::UInt }],
            bases: vec![],
            virtual_methods: vec![],
        }))
    );
}

#[test]
fn unhandled_type_kind_reports_its_location() {
    let p = parser();
    let t = TypeNode::Other { location: s("iface.h:12:3"), kind: s("BlockPointer") };
    assert_eq!(
        p.parse_type(&t),
        Err(ParseError { location: s("iface.h:12:3"), kind: s("BlockPointer") })
    );
    // The first offending construct in evaluation order wins.
    let nested = TypeNode::Pointer {
        pointee_const: false,
        pointee: Box::new(TypeNode::Other { location: s("a.h:1:1"), kind: s("Vector") }),
    };
    assert_eq!(
        p.parse_type(&nested),
        Err(ParseError { location: s("a.h:1:1"), kind: s("Vector") })
    );
}

#[test]
fn records_collect_fields_bases_and_virtual_methods() {
    let p = parser();
    let rn = RecordNode {
        name: s("IPlugin"),
        kind: DeclKind::Class,
        children: vec![
            RecordChild::Base { name: s("FUnknown") },
            RecordChild::Field { name: s("refcount"), ty: TypeNode::UInt },
            RecordChild::Method {
                is_virtual: true,
                name: s("initialize"),
                arguments: vec![ArgumentNode {
                    name: s("context"),
                    ty: TypeNode::Pointer {
                        pointee_const: false,
                        pointee: Box::new(TypeNode::Void),
                    },
                }],
                result: TypeNode::Int,
            },
            RecordChild::Method {
                is_virtual: false,
                name: s("helper"),
                arguments: vec![],
                result: TypeNode::Void,
            },
            RecordChild::Other,
        ],
    };
    let rec = p.parse_record(&rn).unwrap();
    assert_eq!(rec.name, s("IPlugin"));
    assert_eq!(rec.kind, RecordKind::Struct);
    assert_eq!(rec.bases, vec![s("FUnknown")]);
    assert_eq!(rec.fields, vec![Field { name: s("refcount"), type_: Type::UInt }]);
    assert_eq!(
        rec.virtual_methods,
        vec![Method {
            name: s("initialize"),
            arguments: vec![Argument {
                name: s("context"),
                type_: Type::Pointer { is_const: false, pointee: Box::new(Type::Void) },
            }],
            result_type: Type::Int,
        }]
    );
}

#[test]
fn method_arguments_keep_their_order() {
    let p = parser();
    let rn = RecordNode {
        name: s("ICall"),
        kind: DeclKind::Struct,
        children: vec![RecordChild::Method {
            is_virtual: true,
            name: s("call"),
            arguments: vec![
                ArgumentNode { name: s("first"), ty: TypeNode::Int },
                ArgumentNode { name: s("second"), ty: TypeNode::Bool },
                ArgumentNode { name: s("third"), ty: TypeNode::Double },
            ],
            result: TypeNode::Void,
        }],
    };
    let rec = p.parse_record(&rn).unwrap();
    let args = &rec.virtual_methods[0].arguments;
    assert_eq!(args.len(), 3);
    assert_eq!(args[0], Argument { name: s("first"), type_: Type::Int });
    assert_eq!(args[1], Argument { name: s("second"), type_: Type::Bool });
    assert_eq!(args[2], Argument { name: s("third"), type_: Type::Double });
}

#[test]
fn first_error_among_record_children_wins() {
    let p = parser();
    let rn = RecordNode {
        name: s("IBad"),
        kind: DeclKind::Struct,
        children: vec![
            RecordChild::Field { name: s("ok_field"), ty: TypeNode::Int },
            RecordChild::Method {
                is_virtual: true,
                name: s("m"),
                arguments: vec![ArgumentNode {
                    name: s("a"),
                    ty: TypeNode::Other { location: s("b.h:2:2"), kind: s("ObjCId") },
                }],
                result: TypeNode::Other { location: s("b.h:3:3"), kind: s("Later") },
            },
            RecordChild::Field {
                name: s("also_bad"),
                ty: TypeNode::Other { location: s("b.h:4:4"), kind: s("Last") },
            },
        ],
    };
    assert_eq!(
        p.parse_record(&rn),
        Err(ParseError { location: s("b.h:2:2"), kind: s("ObjCId") })
    );
}

#[test]
fn namespace_new_is_empty() {
    let ns = Namespace::new();
    assert!(ns.children.is_empty());
    assert!(ns.typedefs.is_empty());
    assert!(ns.records.is_empty());
}

fn leaf(kind: CursorDecl, name: &str) -> CursorNode {
    CursorNode { name: s(name), in_system_header: false, kind, children: vec![] }
}

fn record_node(name: &str, children: Vec<RecordChild>) -> CursorNode {
    CursorNode {
        name: s(name),
        in_system_header: false,
        kind: CursorDecl::RecordDecl {
            decl: RecordNode { name: s(name), kind: DeclKind::Struct, children },
            is_definition: true,
        },
        children: vec![],
    }
}

#[test]
fn parse_folds_declarations_into_namespaces() {
    let root = CursorNode {
        name: s(""),
        in_system_header: false,
        kind: CursorDecl::Other,
        children: vec![
            CursorNode {
                name: s("Steinberg"),
                in_system_header: false,
                kind: CursorDecl::Namespace,
                children: vec![
                    leaf(
                        CursorDecl::TypedefDecl { name: s("tresult"), underlying: TypeNode::Int },
                        "tresult",
                    ),
                    record_node(
                        "FUnknown",
                        vec![RecordChild::Method {
                            is_virtual: true,
                            name: s("addRef"),
                            arguments: vec![],
                            result: TypeNode::UInt,
                        }],
                    ),
                ],
            },
            // A second node for the same namespace merges into the same entry.
            CursorNode {
                name: s("Steinberg"),
                in_system_header: false,
                kind: CursorDecl::Namespace,
                children: vec![record_node("IPlugin", vec![])],
            },
            // System-header declarations are ignored.
            CursorNode {
                name: s("std"),
                in_system_header: true,
                kind: CursorDecl::Namespace,
                children: vec![record_node("ignored", vec![])],
            },
        ],
    };
    let ns = Namespace::parse(&root, Vec::new()).unwrap();
    assert_eq!(ns.children.len(), 1);
    assert_eq!(ns.children[0].name, s("Steinberg"));
    let inner = &ns.children[0].namespace;
    assert_eq!(inner.typedefs.len(), 1);
    assert_eq!(inner.typedefs[0].name, s("tresult"));
    assert_eq!(inner.typedefs[0].type_, Type::Int);
    assert_eq!(inner.records.len(), 2);
    assert_eq!(inner.records[0].name, s("FUnknown"));
    assert_eq!(inner.records[0].virtual_methods.len(), 1);
    assert_eq!(inner.records[1].name, s("IPlugin"));
    assert!(ns.typedefs.is_empty());
    assert!(ns.records.is_empty());
}

#[test]
fn child_namespaces_iterate_sorted_by_name() {
    let ns_node = |name: &str, children: Vec<CursorNode>| CursorNode {
        name: s(name),
        in_system_header: false,
        kind: CursorDecl::Namespace,
        children,
    };
    let root = CursorNode {
        name: s(""),
        in_system_header: false,
        kind: CursorDecl::Other,
        children: vec![
            ns_node("zz", vec![]),
            ns_node("aa", vec![record_node("InAa", vec![])]),
            ns_node("mm", vec![]),
            // A repeat of an existing name merges, never duplicates.
            ns_node("zz", vec![record_node("InZz", vec![])]),
        ],
    };
    let ns = Namespace::parse(&root, Vec::new()).unwrap();
    let names: Vec<&str> = ns.children.iter().map(|e| e.name.as_str()).collect();
    assert_eq!(names, vec!["aa", "mm", "zz"]);
    assert_eq!(ns.children[0].namespace.records[0].name, s("InAa"));
    assert_eq!(ns.children[2].namespace.records[0].name, s("InZz"));
}

#[test]
fn skip_list_and_unnamed_namespaces_are_left_out() {
    let root = CursorNode {
        name: s(""),
        in_system_header: false,
        kind: CursorDecl::Other,
        children: vec![
            record_node("Skipped", vec![]),
            CursorNode {
                name: s(""),
                in_system_header: false,
                kind: CursorDecl::Namespace,
                children: vec![record_node("inside_unnamed", vec![])],
            },
            record_node("Kept", vec![]),
        ],
    };
    let ns = Namespace::parse(&root, vec![s("Skipped")]).unwrap();
    assert_eq!(ns.records.len(), 1);
    assert_eq!(ns.records[0].name, s("Kept"));
    assert!(ns.children.is_empty());
}

#[test]
fn nested_record_definitions_join_the_same_namespace() {
    let mut outer = record_node("Outer", vec![]);
    outer.children.push(record_node("Inner", vec![]));
    let root = CursorNode {
        name: s(""),
        in_system_header: false,
        kind: CursorDecl::Other,
        children: vec![outer],
    };
    let ns = Namespace::parse(&root, Vec::new()).unwrap();
    assert_eq!(ns.records.len(), 2);
    assert_eq!(ns.records[0].name, s("Outer"));
    assert_eq!(ns.records[1].name, s("Inner"));
}

#[test]
fn visit_error_propagates_from_a_typedef() {
    let root = CursorNode {
        name: s(""),
        in_system_header: false,
        kind: CursorDecl::Other,
        children: vec![leaf(
            CursorDecl::TypedefDecl {
                name: s("bad"),
                underlying: TypeNode::Other { location: s("x.h:9:1"), kind: s("Atomic") },
            },
            "bad",
        )],
    };
    let err = Namespace::parse(&root, Vec::new()).unwrap_err();
    assert_eq!(err, ParseError { location: s("x.h:9:1"), kind: s("Atomic") });
}

#[test]
fn non_definition_records_are_ignored() {
    let forward = CursorNode {
        name: s("Fwd"),
        in_system_header: false,
        kind: CursorDecl::RecordDecl {
            decl: RecordNode { name: s("Fwd"), kind: DeclKind::Struct, children: vec![] },
            is_definition: false,
        },
        children: vec![],
    };
    let root = CursorNode {
        name: s(""),
        in_system_header: false,
        kind: CursorDecl::Other,
        children: vec![forward],
    };
    let ns = Namespace::parse(&root, Vec::new()).unwrap();
    assert!(ns.records.is_empty());
}

#[test]
fn unnamed_records_are_not_listed_at_namespace_level() {
    let root = CursorNode {
        name: s(""),
        in_system_header: false,
        kind: CursorDecl::Other,
        children: vec![record_node("", vec![])],
    };
    let ns = Namespace::parse(&root, Vec::new()).unwrap();
    assert!(ns.records.is_empty());
}
