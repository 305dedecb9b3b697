use ir_item::define::parse;
use ir_item::item::{item, Declare, Item};
use ir_item::scan::Unrecognized;
use ir_item::ty::{clone_types, FnSig, Type};

fn s(text: &str) -> &[u8] {
    text.as_bytes()
}

fn declared(text: &str) -> Option<Vec<Type<'_>>> {
    match ir_item::item::declare(text.as_bytes()) {
        Ok((_, Item::Declare(Declare { sig: Some(sig), .. }))) => Some(sig.inputs),
        _ => None,
    }
}

#[test]
fn blanks_are_spaces_and_tabs() {
    assert_eq!(
        ir_item::item::alias(s("@a \t=\t alias\ti32 \t , \t i32*  @b")),
        Ok((s(""), Item::Alias(s("a"), s("b"))))
    );
    assert_eq!(
        ir_item::item::alias(s("@a = alias i32,  i32* @b tail")),
        Ok((s(" tail"), Item::Alias(s("a"), s("b"))))
    );
    let no_blank = s("@a = alias i32,i32* @b");
    assert_eq!(ir_item::item::alias(no_blank), Err(Unrecognized { input: no_blank }));
    let newline = s("@a =\nalias i32, i32* @b");
    assert_eq!(ir_item::item::alias(newline), Err(Unrecognized { input: newline }));
    assert_eq!(
        ir_item::item::source_filename(s("source_filename \t \t= \"a\"\nnext")),
        Ok((s("\nnext"), Item::SourceFilename))
    );
}

#[test]
fn names_are_quoted_or_bare() {
    assert_eq!(
        ir_item::item::alias(s("@\"a b\" = alias i32, i32* @_ZN4core3fmt5Write9write_fmt17h$x.y-z")),
        Ok((
            s(""),
            Item::Alias(s("a b"), s("_ZN4core3fmt5Write9write_fmt17h$x.y-z"))
        ))
    );
    assert_eq!(
        ir_item::item::alias(s("@\"\" = alias i32, i32* @0")),
        Ok((s(""), Item::Alias(s(""), s("0"))))
    );
    assert!(ir_item::item::alias(s("@\"a = alias i32, i32* @b")).is_err());
    assert!(ir_item::item::alias(s("@ = alias i32, i32* @b")).is_err());
    assert!(ir_item::item::alias(s("a = alias i32, i32* @b")).is_err());
    assert!(ir_item::item::alias(s("@a = alias i32, i32* b")).is_err());
}

#[test]
fn attributes_before_the_result_type() {
    for attrs in [
        "",
        "noalias ",
        "dso_local local_unnamed_addr ",
        "align 8 ",
        "dereferenceable(16) ",
        "dereferenceable_or_null(4) noalias ",
        "\"key\" ",
        "\"key\"=\"value\" hidden ",
    ] {
        let text = format!("declare {}i8* @f()", attrs);
        assert_eq!(declared(&text), Some(vec![]), "{}", text);
    }
    for attrs in ["noaliasx ", "no_such_word ", "align ", "align x ", "dereferenceable ", "dereferenceable(4 ", "\"key\"= "] {
        let text = format!("declare {}i8* @f()", attrs);
        assert_eq!(declared(&text), None, "{}", text);
    }
}

#[test]
fn attributes_after_a_parameter() {
    assert_eq!(
        declared("declare void @f(i8* noalias nocapture align 1 dereferenceable(4), i32 zeroext)"),
        Some(vec![Type::Pointer(Box::new(Type::Integer(8))), Type::Integer(32)])
    );
    assert_eq!(
        declared("declare void @f(i8* , i32)"),
        None
    );
    assert_eq!(declared("declare void @f(i8 unknown)"), None);
    assert_eq!(declared("declare void @f(i8 %x)"), None);
}

#[test]
fn parameter_count_and_order() {
    for n in 0..6usize {
        let params: Vec<String> = (0..n).map(|k| format!("i{}", k + 1)).collect();
        let text = format!("declare void @f({})", params.join(", "));
        let expected: Vec<Type> = (0..n).map(|k| Type::Integer(k as u64 + 1)).collect();
        assert_eq!(declared(&text), Some(expected), "{}", text);
    }
}

#[test]
fn definitions() {
    assert_eq!(
        parse(s("define i32 @f() {\r\n  ret i32 0\r\n}")),
        Ok((
            s(""),
            ir_item::define::Define {
                name: s("f"),
                sig: FnSig { inputs: vec![], output: Some(Box::new(Type::Integer(32))) },
                body: s("  ret i32 0\r\n"),
            }
        ))
    );
    assert_eq!(
        parse(s("define void @g(i32) {\n}")),
        Ok((
            s(""),
            ir_item::define::Define {
                name: s("g"),
                sig: FnSig { inputs: vec![Type::Integer(32)], output: None },
                body: s(""),
            }
        ))
    );
    for text in [
        "define void @g()",
        "define void @g() {\n  ret void",
        "define void @g() {\n  ret void\r}",
        "define void @g( {\n}",
        "declare void @g()\n}",
    ] {
        assert_eq!(
            parse(text.as_bytes()),
            Err(Unrecognized { input: text.as_bytes() }),
            "{}",
            text
        );
    }
}

#[test]
fn copies_are_equal() {
    let text = s("declare { i8, [2 x %T]* } @f(void (i32)*, <{ double, float }>)");
    let (_, found) = item(text).unwrap();
    assert_eq!(found.clone(), found);
    let types = vec![
        Type::Named(s("T")),
        Type::Fn(FnSig::new(vec![Type::Float], Some(Type::Double))),
    ];
    assert_eq!(clone_types(&types), types);
    assert_eq!(
        FnSig::new(vec![], None),
        FnSig { inputs: vec![], output: None }
    );
    assert_eq!(
        FnSig::new(vec![Type::Integer(1)], Some(Type::Integer(2))),
        FnSig { inputs: vec![Type::Integer(1)], output: Some(Box::new(Type::Integer(2))) }
    );
}
