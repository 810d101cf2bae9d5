use rhubarb::loader::{crate_names_in_symbol, SectionKind};

fn check(symbol: &str, names: Vec<&str>) {
    assert_eq!(crate_names_in_symbol(symbol), names);
}

#[test]
fn crate_names_from_symbol_names() {
    check("foo::Bar", vec!["foo"]);
    check("foo::bar::Thing", vec!["foo"]);
    check("<foo::Foo as bar::Bar>::run", vec!["foo", "bar"]);
    check("<usize as bar::Foo>::do_something", vec!["bar"]);
    check("std::ops::Range::<u32>::from", vec!["std"]);
    check("<alloc::boxed::Box<T>>::into_inner", vec!["alloc"]);
    check("u64", vec![]);
}

#[test]
fn crate_names_repeated_in_separate_places() {
    check("<a::X as a::Y>::f", vec!["a", "a"]);
    check("<a::X as b::Y as a::Z>::f", vec!["a", "b", "a"]);
}

#[test]
fn crate_names_with_non_ascii_letters() {
    check("<é_x::T as y::U>::f", vec!["é_x", "y"]);
}

#[test]
fn section_kind_names() {
    assert_eq!(SectionKind::Text.name(), ".text");
    assert_eq!(SectionKind::TlsBss.name(), ".tbss");
    assert_eq!(SectionKind::GccExceptTable.name(), ".gcc_except_table");
    assert_eq!(SectionKind::EhFrame.name(), ".eh_frame");
}
