use scilla_parser::text::decimal_string;
use scilla_parser::{Error, Type};

#[test]
fn test_prim_type() {
    let prim = Type::from_str("(PrimType String)").unwrap();
    assert_eq!(prim, Type::String);
}

#[test]
fn test_map_type() {
    let map_type = Type::from_str("(MapType (PrimType ByStr20) (PrimType Uint128))").unwrap();

    assert_eq!(
        map_type,
        Type::Mapping(Box::new(Type::ByStr(20)), Box::new(Type::Uint128))
    );
}

#[test]
fn test_complex_map_type() {
    let map_type = Type::from_str(
        "(MapType (PrimType ByStr20) (MapType (PrimType ByStr20) (PrimType Uint128)))",
    )
    .unwrap();

    assert_eq!(
        map_type,
        Type::Mapping(
            Box::new(Type::ByStr(20)),
            Box::new(Type::Mapping(
                Box::new(Type::ByStr(20)),
                Box::new(Type::Uint128)
            ))
        )
    );
}

#[test]
fn test_bool_type() {
    let bool_type =
        Type::from_str("(ADT (Ident (SimpleLocal Bool) ((fname \"\") (lnum 0) (cnum 0))) ())")
            .unwrap();

    assert_eq!(bool_type, Type::Bool);
}

#[test]
fn test_option_bool_type() {
    let option_bool_type = Type::from_str(r#"(ADT (Ident (SimpleLocal Option) ((fname "") (lnum 0) (cnum 0))) ((ADT (Ident (SimpleLocal Bool) ((fname "") (lnum 0) (cnum 0))) ())))"#)
        .unwrap();

    assert_eq!(option_bool_type, Type::Option(Box::new(Type::Bool)));
}

#[test]
fn test_type_to_string() {
    //(List (Pair ByStr20 (List (Pair ByStr20 Uint32))))
    let list_type = Type::List(Box::new(Type::Pair(
        Box::new(Type::ByStr(20)),
        Box::new(Type::List(Box::new(Type::Pair(
            Box::new(Type::ByStr(20)),
            Box::new(Type::Uint32),
        )))),
    )));

    assert_eq!(
        "(List (Pair ByStr20 (List (Pair ByStr20 Uint32))))",
        list_type.to_string()
    );

    // (List (Pair ByStr20 (List (Pair ByStr20 (List (Pair Uint32 Uint128))))))
    let list_type = Type::List(Box::new(Type::Pair(
        Box::new(Type::ByStr(20)),
        Box::new(Type::List(Box::new(Type::Pair(
            Box::new(Type::ByStr(20)),
            Box::new(Type::List(Box::new(Type::Pair(
                Box::new(Type::Uint32),
                Box::new(Type::Uint128),
            )))),
        )))),
    )));

    assert_eq!(
        "(List (Pair ByStr20 (List (Pair ByStr20 (List (Pair Uint32 Uint128))))))",
        list_type.to_string()
    );
}

#[test]
fn every_primitive_name_is_known() {
    let cases = vec![
        ("Int32", Type::Int32),
        ("Int64", Type::Int64),
        ("Int128", Type::Int128),
        ("Int256", Type::Int256),
        ("Uint32", Type::Uint32),
        ("Uint64", Type::Uint64),
        ("Uint128", Type::Uint128),
        ("Uint256", Type::Uint256),
        ("String", Type::String),
        ("ByStr20", Type::ByStr(20)),
        ("BNum", Type::BNum),
    ];
    for (name, expected) in cases {
        let text = format!("(PrimType {})", name);
        assert_eq!(Type::from_str(&text).unwrap(), expected);
    }
}

#[test]
fn unknown_primitive_keeps_the_text_as_given() {
    let ty = Type::from_str("(PrimType   ByStr32)").unwrap();
    assert_eq!(ty, Type::Other("(PrimType   ByStr32)".to_string()));
}

#[test]
fn unknown_tag_keeps_the_text() {
    assert_eq!(
        Type::from_str("(FunType (PrimType Int32) (PrimType Int32))").unwrap(),
        Type::Other("(FunType (PrimType Int32) (PrimType Int32))".to_string())
    );
    assert_eq!(Type::from_str("Int32").unwrap(), Type::Other("Int32".to_string()));
    assert_eq!(Type::from_str("()").unwrap(), Type::Other("()".to_string()));
    assert_eq!(Type::from_str("42").unwrap(), Type::Other("42".to_string()));
}

#[test]
fn unknown_constructor_gives_its_name() {
    let ty = Type::from_str(
        r#"(ADT (Ident (SimpleLocal Withdrawal) ((fname "") (lnum 0) (cnum 0))) ())"#,
    )
    .unwrap();
    assert_eq!(ty, Type::Other("Withdrawal".to_string()));
}

#[test]
fn nested_unknown_type_is_written_as_the_reader_prints_it() {
    let ty = Type::from_str("(MapType (PrimType ByStr20)   (TypeVar   'A))").unwrap();
    match ty {
        Type::Mapping(key, value) => {
            assert_eq!(*key, Type::ByStr(20));
            assert!(matches!(*value, Type::Other(_)));
        }
        other => panic!("not a map: {:?}", other),
    }
    let ty = Type::from_str("(MapType (PrimType ByStr20)   (PolyFun   A))").unwrap();
    assert_eq!(
        ty,
        Type::Mapping(
            Box::new(Type::ByStr(20)),
            Box::new(Type::Other("(PolyFun A)".to_string()))
        )
    );
}

#[test]
fn incomplete_forms_are_unknown_types() {
    assert_eq!(
        Type::from_str("(MapType (PrimType ByStr20))").unwrap(),
        Type::Other("(MapType (PrimType ByStr20))".to_string())
    );
    assert_eq!(
        Type::from_str("(PrimType)").unwrap(),
        Type::Other("(PrimType)".to_string())
    );
    assert_eq!(
        Type::from_str("(PrimType 7)").unwrap(),
        Type::Other("(PrimType 7)".to_string())
    );
    assert_eq!(
        Type::from_str("(ADT (Ident (SimpleLocal Option) ()) ())").unwrap(),
        Type::Other("(ADT (Ident (SimpleLocal Option) ()) ())".to_string())
    );
    assert_eq!(
        Type::from_str("(ADT (Ident (SimpleLocal Pair) ()) ((PrimType Int32)))").unwrap(),
        Type::Other("(ADT (Ident (SimpleLocal Pair) ()) ((PrimType Int32)))".to_string())
    );
    assert_eq!(Type::from_str("(ADT)").unwrap(), Type::Other("(ADT)".to_string()));
}

#[test]
fn list_of_pairs_resolves_and_renders() {
    let text = r#"(ADT (Ident (SimpleLocal List) ((fname "") (lnum 0) (cnum 0))) ((ADT (Ident (SimpleLocal Pair) ((fname "") (lnum 0) (cnum 0))) ((PrimType ByStr20) (PrimType Uint128)))))"#;
    let ty = Type::from_str(text).unwrap();
    assert_eq!(
        ty,
        Type::List(Box::new(Type::Pair(
            Box::new(Type::ByStr(20)),
            Box::new(Type::Uint128)
        )))
    );
    assert_eq!(ty.to_string(), "(List (Pair ByStr20 Uint128))");
}

#[test]
fn renderings_of_every_variant() {
    assert_eq!(Type::Int32.to_string(), "Int32");
    assert_eq!(Type::Int64.to_string(), "Int64");
    assert_eq!(Type::Int128.to_string(), "Int128");
    assert_eq!(Type::Int256.to_string(), "Int256");
    assert_eq!(Type::Uint32.to_string(), "Uint32");
    assert_eq!(Type::Uint64.to_string(), "Uint64");
    assert_eq!(Type::Uint128.to_string(), "Uint128");
    assert_eq!(Type::Uint256.to_string(), "Uint256");
    assert_eq!(Type::String.to_string(), "String");
    assert_eq!(Type::BNum.to_string(), "BNum");
    assert_eq!(Type::Bool.to_string(), "Bool");
    assert_eq!(Type::ByStr(0).to_string(), "ByStr0");
    assert_eq!(Type::ByStr(7).to_string(), "ByStr7");
    assert_eq!(Type::ByStr(20).to_string(), "ByStr20");
    assert_eq!(Type::ByStr(1234567890).to_string(), "ByStr1234567890");
    assert_eq!(
        Type::Mapping(Box::new(Type::ByStr(20)), Box::new(Type::Uint128)).to_string(),
        "(Map ByStr20, Uint128)"
    );
    assert_eq!(
        Type::Option(Box::new(Type::Bool)).to_string(),
        "(Option Bool)"
    );
    assert_eq!(
        Type::Other("(FunType a b)".to_string()).to_string(),
        "(FunType a b)"
    );
}

#[test]
fn text_that_is_no_tree_is_refused() {
    assert!(matches!(
        Type::from_str("(PrimType String"),
        Err(Error::LexprParseError(_))
    ));
    assert!(matches!(
        Type::from_str(""),
        Err(Error::LexprParseError(_))
    ));
}

#[test]
fn reading_twice_gives_equal_types() {
    let text = "(MapType (PrimType ByStr20) (MapType (PrimType ByStr20) (Unknown 1 2)))";
    assert_eq!(Type::from_str(text).unwrap(), Type::from_str(text).unwrap());
}

#[test]
fn numbers_are_written_in_decimal() {
    assert_eq!(decimal_string(0), "0");
    assert_eq!(decimal_string(9), "9");
    assert_eq!(decimal_string(10), "10");
    assert_eq!(decimal_string(20), "20");
    assert_eq!(decimal_string(405), "405");
    assert_eq!(decimal_string(usize::MAX), usize::MAX.to_string());
}

#[test]
fn known_types_are_told_apart_by_what_is_written() {
    let types = vec![
        Type::Int32,
        Type::Int64,
        Type::Int128,
        Type::Int256,
        Type::Uint32,
        Type::Uint64,
        Type::Uint128,
        Type::Uint256,
        Type::String,
        Type::BNum,
        Type::Bool,
        Type::ByStr(2),
        Type::ByStr(20),
        Type::ByStr(32),
        Type::Option(Box::new(Type::Bool)),
        Type::List(Box::new(Type::Bool)),
        Type::List(Box::new(Type::List(Box::new(Type::Bool)))),
        Type::Pair(Box::new(Type::ByStr(2)), Box::new(Type::ByStr(20))),
        Type::Pair(Box::new(Type::ByStr(20)), Box::new(Type::ByStr(2))),
        Type::Mapping(Box::new(Type::ByStr(2)), Box::new(Type::ByStr(20))),
        Type::Mapping(Box::new(Type::ByStr(20)), Box::new(Type::ByStr(2))),
    ];
    for (i, a) in types.iter().enumerate() {
        for (j, b) in types.iter().enumerate() {
            assert_eq!(a.to_string() == b.to_string(), i == j);
        }
    }
}

#[test]
fn unknown_type_is_written_as_a_known_one_may_be() {
    assert_eq!(Type::Other("Int32".to_string()).to_string(), Type::Int32.to_string());
}

#[test]
fn unknown_type_reads_back_from_what_is_written() {
    let ty = Type::from_str("(TypeVar 'A)").unwrap();
    assert_eq!(ty, Type::Other("(TypeVar 'A)".to_string()));
    assert_eq!(Type::from_str(&ty.to_string()).unwrap(), ty);
}
