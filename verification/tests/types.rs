use ir_item::scan::Unrecognized;
use ir_item::ty::{parse, FnSig, Type};

fn s(text: &str) -> &[u8] {
    text.as_bytes()
}

#[test]
fn base_types() {
    assert_eq!(parse(s("i64")), Ok((s(""), Type::Integer(64))));
    assert_eq!(parse(s("i1 @f")), Ok((s(" @f"), Type::Integer(1))));
    assert_eq!(parse(s("float")), Ok((s(""), Type::Float)));
    assert_eq!(parse(s("double, i8")), Ok((s(", i8"), Type::Double)));
    assert_eq!(parse(s("%T")), Ok((s(""), Type::Named(s("T")))));
    assert_eq!(
        parse(s("%\"core::fmt::Void\"*")),
        Ok((s(""), Type::Pointer(Box::new(Type::Named(s("core::fmt::Void"))))))
    );
    assert_eq!(
        parse(s("[0 x i8]")),
        Ok((s(""), Type::Array(0, Box::new(Type::Integer(8)))))
    );
}

#[test]
fn structs() {
    assert_eq!(parse(s("{}")), Ok((s(""), Type::Struct(vec![]))));
    assert_eq!(
        parse(s("{ i8, i16 }")),
        Ok((s(""), Type::Struct(vec![Type::Integer(8), Type::Integer(16)])))
    );
    assert_eq!(
        parse(s("<{ [0 x i8], { i32 }* }> zeroinitializer")),
        Ok((
            s(" zeroinitializer"),
            Type::PackedStruct(vec![
                Type::Array(0, Box::new(Type::Integer(8))),
                Type::Pointer(Box::new(Type::Struct(vec![Type::Integer(32)]))),
            ])
        ))
    );
}

#[test]
fn pointers_and_functions() {
    assert_eq!(
        parse(s("i8**")),
        Ok((
            s(""),
            Type::Pointer(Box::new(Type::Pointer(Box::new(Type::Integer(8)))))
        ))
    );
    assert_eq!(
        parse(s("void ()")),
        Ok((s(""), Type::Fn(FnSig { inputs: vec![], output: None })))
    );
    assert_eq!(
        parse(s("i32 (i8*, i64)* %f")),
        Ok((
            s(" %f"),
            Type::Pointer(Box::new(Type::Fn(FnSig {
                inputs: vec![Type::Pointer(Box::new(Type::Integer(8))), Type::Integer(64)],
                output: Some(Box::new(Type::Integer(32)))
            })))
        ))
    );
}

#[test]
fn a_type_stops_before_what_is_not_part_of_it() {
    assert_eq!(parse(s("i8 nocapture")), Ok((s(" nocapture"), Type::Integer(8))));
    assert_eq!(parse(s("i8 (")), Ok((s(" ("), Type::Integer(8))));
    assert_eq!(parse(s("i8, ")), Ok((s(", "), Type::Integer(8))));
    assert_eq!(
        parse(s("{ i8, }")),
        Err(Unrecognized { input: s("{ i8, }") })
    );
}

#[test]
fn what_is_not_a_type() {
    for text in ["", "void", "void @f", "i", "ix", "[4 i8]", "[4 x i8", "{ i8", "<{ i8 }", "%", "flo", "@f"] {
        assert_eq!(
            parse(text.as_bytes()),
            Err(Unrecognized { input: text.as_bytes() }),
            "{}",
            text
        );
    }
}

#[test]
fn widths_that_do_not_fit_are_refused() {
    assert_eq!(
        parse(s("i18446744073709551615")),
        Ok((s(""), Type::Integer(18446744073709551615)))
    );
    assert_eq!(
        parse(s("i18446744073709551616")),
        Err(Unrecognized { input: s("i18446744073709551616") })
    );
    assert_eq!(parse(s("i007")), Ok((s(""), Type::Integer(7))));
}
