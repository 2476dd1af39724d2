use mlua_typegen::union::union_of_present;
use mlua_typegen::{make_union, LuaType};

#[test]
fn make_union_prefers_specific_userdata_ref_alias() {
    assert_eq!(
        make_union(vec![
            LuaType::Class("UserDataRef".to_string()),
            LuaType::Class("FileRef".to_string()),
            LuaType::Integer,
        ]),
        LuaType::Union(vec![LuaType::Class("File".to_string()), LuaType::Integer])
    );
}

#[test]
fn display_embedded_class_union_normalizes_userdata_refs() {
    assert_eq!(
        LuaType::Class("UserDataRef | FileRef | integer".to_string()).to_string(),
        "File | integer"
    );
}

#[test]
fn display_embedded_class_map_normalizes_userdata_refs() {
    assert_eq!(
        LuaType::Class("table<string, UserDataRef | FileRef | integer>".to_string())
            .to_string(),
        "table<string, File | integer>"
    );
}

#[test]
fn branches_that_give_no_type_are_dropped() {
    assert_eq!(union_of_present(vec![None, None]), None);
    assert_eq!(union_of_present(Vec::new()), None);
    assert_eq!(
        union_of_present(vec![None, Some(LuaType::Integer), None]),
        Some(LuaType::Integer)
    );
    assert_eq!(
        union_of_present(vec![None, Some(LuaType::Union(Vec::new()))]),
        Some(LuaType::Union(Vec::new()))
    );
    assert_eq!(
        union_of_present(vec![Some(LuaType::Optional(Box::new(LuaType::Nil)))]),
        Some(LuaType::Optional(Box::new(LuaType::Nil)))
    );
    assert_eq!(
        union_of_present(vec![Some(LuaType::String), None, Some(LuaType::Nil)]),
        Some(LuaType::Optional(Box::new(LuaType::String)))
    );
    assert_eq!(
        union_of_present(vec![Some(LuaType::String), Some(LuaType::Integer)]),
        Some(LuaType::Union(vec![LuaType::String, LuaType::Integer]))
    );
}

#[test]
fn making_a_union_of_a_union_changes_nothing() {
    let cases = vec![
        vec![LuaType::String, LuaType::Integer, LuaType::Nil],
        vec![LuaType::Optional(Box::new(LuaType::String)), LuaType::Integer],
        vec![LuaType::Any, LuaType::Nil],
        vec![LuaType::Class("FileRef".to_string()), LuaType::Class("UserDataRef".to_string())],
        vec![LuaType::Union(vec![LuaType::String, LuaType::Boolean]), LuaType::String],
        vec![LuaType::Optional(Box::new(LuaType::Optional(Box::new(LuaType::Nil))))],
    ];
    for ts in cases {
        let once = make_union(ts.clone());
        assert_eq!(make_union(vec![once.clone()]), once);
    }
}

#[test]
fn making_a_union_of_an_optional_union_changes_nothing() {
    let ts = vec![
        LuaType::Optional(Box::new(LuaType::Union(vec![LuaType::String, LuaType::Integer]))),
        LuaType::Boolean,
    ];
    let once = make_union(ts);
    assert_eq!(make_union(vec![once.clone()]), once);
    let ts = vec![LuaType::Optional(Box::new(LuaType::Union(vec![LuaType::String, LuaType::Integer])))];
    let once = make_union(ts);
    assert_eq!(make_union(vec![once.clone()]), once);
}
