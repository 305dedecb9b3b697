use ir_item::define::Define;
use ir_item::item::{
    attributes, comment, define, intrinsic, item, metadata, source_filename, target, Declare,
    Item,
};
use ir_item::scan::Unrecognized;
use ir_item::ty::{FnSig, Type};

fn s(text: &str) -> &[u8] {
    text.as_bytes()
}

#[test]
fn alias() {
    assert_eq!(
        ir_item::item::alias(s(
            r#"@__pre_init = unnamed_addr alias void (), void ()* @DefaultPreInit"#
        )),
        Ok((s(""), Item::Alias(s("__pre_init"), s("DefaultPreInit"))))
    );
}

#[test]
fn declare() {
    assert_eq!(
        ir_item::item::declare(s(r#"declare noalias i8* @malloc(i64) unnamed_addr #3"#)),
        Ok((
            s(""),
            Item::Declare(Declare {
                name: s("malloc"),
                sig: Some(FnSig {
                    inputs: vec![Type::Integer(64)],
                    output: Some(Box::new(Type::Pointer(Box::new(Type::Integer(8)))))
                })
            })
        ))
    );
}

#[test]
fn global() {
    assert_eq!(
        ir_item::item::global(s(
            "@0 = private constant <{ [0 x i8] }> zeroinitializer, align 4, !dbg !0"
        )),
        Ok((s(""), Item::Global))
    );

    assert_eq!(
        ir_item::item::global(s(
            "@DEVICE_PERIPHERALS = local_unnamed_addr global <{ [1 x i8] }> zeroinitializer, align 1, !dbg !175"
        )),
        Ok((s(""), Item::Global))
    );
}

#[test]
fn type_() {
    assert_eq!(
        ir_item::item::type_(s("%\"blue_pill::ItmLogger\" = type {}")),
        Ok((s(""), Item::Type))
    );
}

#[test]
fn item_routes_each_construct() {
    assert_eq!(item(s("; ModuleID = 'app'")), Ok((s(""), Item::Comment)));
    assert_eq!(
        item(s("source_filename = \"app.cgu.0\"\nnext")),
        Ok((s("\nnext"), Item::SourceFilename))
    );
    assert_eq!(
        item(s("target datalayout = \"e-m:e-p:32:32\"")),
        Ok((s(""), Item::Target))
    );
    assert_eq!(
        item(s("target triple = \"thumbv7m-none-eabi\"\r\n")),
        Ok((s("\r\n"), Item::Target))
    );
    assert_eq!(item(s("%Struct = type { i8, i16 }")), Ok((s(""), Item::Type)));
    assert_eq!(item(s("@__sbss = external global i32")), Ok((s(""), Item::Global)));
    assert_eq!(
        item(s("@a = alias i32, i32* @b\n")),
        Ok((s("\n"), Item::Alias(s("a"), s("b"))))
    );
    assert_eq!(
        item(s("declare void @llvm.dbg.declare(metadata, metadata, metadata) #4")),
        Ok((
            s(""),
            Item::Declare(Declare { name: s("llvm.dbg.declare"), sig: None })
        ))
    );
    assert_eq!(
        item(s("attributes #0 = { norecurse nounwind readnone \"target-cpu\"=\"generic\" }")),
        Ok((s(""), Item::Attributes))
    );
    assert_eq!(
        item(s("!0 = !DIGlobalVariableExpression(var: !1, expr: !DIExpression())")),
        Ok((s(""), Item::Metadata))
    );
}

#[test]
fn item_rejects_what_it_does_not_know() {
    let text = s("module asm \"nop\"");
    assert_eq!(item(text), Err(Unrecognized { input: text }));
    assert_eq!(item(s("")), Err(Unrecognized { input: s("") }));
    assert_eq!(item(s("  ; indented")), Err(Unrecognized { input: s("  ; indented") }));
}

#[test]
fn same_input_same_outcome() {
    let text = s("declare i32 @f(i32, i8* nocapture) #1");
    assert_eq!(item(text), item(text));
    let copy = text.to_vec();
    assert_eq!(item(text).is_ok(), item(&copy).is_ok());
    let bad = s("declare i32 f(i32)");
    assert_eq!(item(bad), item(bad));
    assert!(item(bad).is_err());
}

#[test]
fn global_and_alias_are_told_apart() {
    assert_eq!(
        item(s("@x = internal unnamed_addr constant i32 1")),
        Ok((s(""), Item::Global))
    );
    assert_eq!(
        item(s("@x = internal unnamed_addr global i32 1")),
        Ok((s(""), Item::Global))
    );
    assert_eq!(
        item(s("@x = internal unnamed_addr alias i32, i32* @y")),
        Ok((s(""), Item::Alias(s("x"), s("y"))))
    );
    let neither = s("@x = internal unnamed_addr ifunc i32, i32* @y");
    assert_eq!(item(neither), Err(Unrecognized { input: neither }));
    let text = s("@x = global i32 0");
    assert!(ir_item::item::alias(text).is_err());
    let text = s("@x = alias i32, i32* @y");
    assert!(ir_item::item::global(text).is_err());
}

#[test]
fn intrinsic_has_no_signature_whatever_follows() {
    for tail in ["", "metadata, metadata)", "i8* nocapture, ...) #2", "(((", "i32"] {
        let text = format!("declare void @llvm.memcpy.p0i8({}", tail);
        assert_eq!(
            ir_item::item::declare(text.as_bytes()),
            Ok((
                s(""),
                Item::Declare(Declare { name: s("llvm.memcpy.p0i8"), sig: None })
            ))
        );
    }
    assert!(intrinsic(s("llvm.dbg.value")));
    assert!(intrinsic(s("llvm.")));
    assert!(!intrinsic(s("llvm")));
    assert!(!intrinsic(s("_llvm.x")));
    assert!(!intrinsic(s("")));
}

#[test]
fn declare_keeps_parameters_in_order() {
    assert_eq!(
        ir_item::item::declare(s("declare void @f()")),
        Ok((
            s(""),
            Item::Declare(Declare {
                name: s("f"),
                sig: Some(FnSig { inputs: vec![], output: None })
            })
        ))
    );
    assert_eq!(
        ir_item::item::declare(s(
            "declare dso_local zeroext i1 @g(i8, i16* noalias nocapture readonly align 2, [4 x i32], %T) #0\nrest"
        )),
        Ok((
            s("\nrest"),
            Item::Declare(Declare {
                name: s("g"),
                sig: Some(FnSig {
                    inputs: vec![
                        Type::Integer(8),
                        Type::Pointer(Box::new(Type::Integer(16))),
                        Type::Array(4, Box::new(Type::Integer(32))),
                        Type::Named(s("T")),
                    ],
                    output: Some(Box::new(Type::Integer(1)))
                })
            })
        ))
    );
}

#[test]
fn declare_reads_void_and_function_pointers() {
    assert_eq!(
        ir_item::item::declare(s("declare void ()* @h(void (i32)*)")),
        Ok((
            s(""),
            Item::Declare(Declare {
                name: s("h"),
                sig: Some(FnSig {
                    inputs: vec![Type::Pointer(Box::new(Type::Fn(FnSig {
                        inputs: vec![Type::Integer(32)],
                        output: None
                    })))],
                    output: Some(Box::new(Type::Pointer(Box::new(Type::Fn(FnSig {
                        inputs: vec![],
                        output: None
                    })))))
                })
            })
        ))
    );
}

#[test]
fn declare_fails_without_consuming() {
    for text in [
        "declare",
        "declare i32",
        "declare i32 @f",
        "declare i32 @f(i32",
        "declare i32 @f(i32,i32)",
        "declare i32 @f(i32, )",
        "declarei32 @f()",
        "declare void @f()\rx",
        "define i32 @f()",
    ] {
        assert_eq!(
            ir_item::item::declare(text.as_bytes()),
            Err(Unrecognized { input: text.as_bytes() }),
            "{}",
            text
        );
    }
}

#[test]
fn shortcuts_check_their_prefix() {
    assert!(comment(s("; x")).is_ok());
    assert!(comment(s("x ;")).is_err());
    assert!(source_filename(s("source_filename = \"a\"")).is_ok());
    assert!(source_filename(s("source_filename= \"a\"")).is_err());
    assert!(source_filename(s("source_filename \"a\"")).is_err());
    assert!(target(s("target triple = \"a\"")).is_ok());
    assert!(target(s("target cpu = \"a\"")).is_err());
    assert!(target(s("target triple \"a\"")).is_err());
    assert!(ir_item::item::type_(s("%T = type opaque")).is_ok());
    assert!(ir_item::item::type_(s("%T = call i32 @f()")).is_err());
    assert!(ir_item::item::type_(s("T = type opaque")).is_err());
    assert!(attributes(s("attributes #1 = { nounwind }")).is_ok());
    assert!(attributes(s("attributes 1 = { nounwind }")).is_err());
    assert!(metadata(s("!llvm.module.flags = !{!0}")).is_ok());
    assert!(metadata(s("llvm.module.flags = !{!0}")).is_err());
    assert!(ir_item::item::global(s("@x = global\ti32 0")).is_ok());
    assert!(ir_item::item::global(s("@x = global")).is_err());
    assert!(ir_item::item::global(s("@x =global i32 0")).is_err());
}

#[test]
fn a_line_ends_at_its_line_ending() {
    assert_eq!(comment(s("; a\n; b")), Ok((s("\n; b"), Item::Comment)));
    assert_eq!(comment(s("; a\r\n; b")), Ok((s("\r\n; b"), Item::Comment)));
    assert_eq!(comment(s(";")), Ok((s(""), Item::Comment)));
    let lone = s("; a\rb");
    assert_eq!(comment(lone), Err(Unrecognized { input: lone }));
    let last = s("; a\r");
    assert_eq!(comment(last), Err(Unrecognized { input: last }));
}

#[test]
fn define_takes_the_whole_body() {
    let text = s("define internal void @main(i32 %x, i8* nocapture readonly %p) unnamed_addr #3 !dbg !4 {\nstart:\n  ret void\n}\n\ndeclare void @f()");
    assert_eq!(
        define(text),
        Ok((
            s("\n\ndeclare void @f()"),
            Item::Define(Define {
                name: s("main"),
                sig: FnSig {
                    inputs: vec![Type::Integer(32), Type::Pointer(Box::new(Type::Integer(8)))],
                    output: None
                },
                body: s("start:\n  ret void\n"),
            })
        ))
    );
    assert_eq!(item(text), define(text));
    let open = s("define void @main() {\n  ret void\n");
    assert_eq!(define(open), Err(Unrecognized { input: open }));
    let one_line = s("define void @main() {");
    assert_eq!(item(one_line), Err(Unrecognized { input: one_line }));
}
