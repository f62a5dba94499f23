use mini_alive::arena::{Id, short_type_name};

struct Inst;

#[test]
fn fmt_type_name() {
    assert_eq!(short_type_name("mini_alive::syntax::inst::Inst"), "Inst");
    assert_eq!(short_type_name("alloc::string::String"), "String");
    assert_eq!(
        short_type_name("core::option::Option<alloc::string::String>"),
        "Option"
    );
    assert_eq!(
        Id::<Inst>::from_index(0).debug_string("mini_alive::syntax::inst::Inst"),
        "Id<Inst>(0)"
    );
    assert_eq!(
        Id::<String>::from_index(0).debug_string("alloc::string::String"),
        "Id<String>(0)",
    );
    assert_eq!(
        Id::<Option<String>>::from_index(0)
            .debug_string("core::option::Option<alloc::string::String>"),
        "Id<Option>(0)",
    );
}
