use oveo::options::OptimizerError;
use oveo::property_names::{base54, LocalPropertyMap, PropertyMap};

fn text(v: &[u8]) -> String {
    String::from_utf8(v.to_vec()).unwrap()
}

fn parse_error(e: OptimizerError) -> String {
    match e {
        OptimizerError::PropertyMapParseError(m) => m,
        _ => panic!("not a parse error"),
    }
}

#[test]
fn base54_names() {
    assert_eq!(base54(0), "a");
    assert_eq!(base54(1), "b");
    assert_eq!(base54(25), "z");
    assert_eq!(base54(26), "A");
    assert_eq!(base54(51), "Z");
    assert_eq!(base54(52), "$");
    assert_eq!(base54(53), "_");
    assert_eq!(base54(54), "aa");
    assert_eq!(base54(55), "ba");
    assert_eq!(base54(54 + 54 * 63), "a9");
    assert_eq!(base54(54 * 65), "aaa");
}

#[test]
fn readme_renaming_example() {
    let mut map = PropertyMap::new(Some("^[^_].+[^_]_$".to_string()));
    let mut local = LocalPropertyMap::new();
    assert_eq!(local.get(&mut map, "left_"), Some("a".to_string()));
    assert_eq!(local.get(&mut map, "right_"), Some("b".to_string()));
    assert_eq!(local.get(&mut map, "status_"), Some("c".to_string()));
    assert_eq!(local.get(&mut map, "left_"), Some("a".to_string()));
    assert_eq!(local.get(&mut map, "plain"), None);
    assert_eq!(local.get(&mut map, "_private_"), None);
    assert_eq!(text(&map.export()), "left_=a\nright_=b\nstatus_=c\n");
}

#[test]
fn names_are_shared_between_chunks() {
    let mut map = PropertyMap::new(Some("_$".to_string()));
    let mut first = LocalPropertyMap::new();
    let mut second = LocalPropertyMap::new();
    assert_eq!(first.get(&mut map, "x_"), Some("a".to_string()));
    assert_eq!(second.get(&mut map, "y_"), Some("b".to_string()));
    assert_eq!(second.get(&mut map, "x_"), Some("a".to_string()));
}

#[test]
fn no_pattern_renames_only_known_names() {
    let mut map = PropertyMap::new(None);
    assert!(!map.matches("left_"));
    map.import(b"left_=q\n").unwrap();
    let mut local = LocalPropertyMap::new();
    assert_eq!(local.get(&mut map, "left_"), Some("q".to_string()));
    assert_eq!(local.get(&mut map, "right_"), None);
}

#[test]
fn imported_names_are_taken() {
    let mut map = PropertyMap::new(Some("_$".to_string()));
    map.import(b"old_=a\n").unwrap();
    let mut local = LocalPropertyMap::new();
    assert_eq!(local.get(&mut map, "new_"), Some("b".to_string()));
}

#[test]
fn reserved_words_are_never_names() {
    let mut map = PropertyMap::new(Some("_$".to_string()));
    let mut names = Vec::new();
    let mut local = LocalPropertyMap::new();
    for i in 0..1100 {
        let key = format!("k{}_", i);
        names.push(local.get(&mut map, &key).unwrap());
    }
    for reserved in ["as", "do", "if", "in", "is", "of"] {
        assert!(!names.iter().any(|n| n == reserved));
    }
    let mut sorted = names.clone();
    sorted.sort();
    sorted.dedup();
    assert_eq!(sorted.len(), names.len());
}

#[test]
fn import_trims_skips_blank_lines_and_reads_to_the_next_equals() {
    let mut map = PropertyMap::new(None);
    map.import(b"\n  b_=x=ignored  \r\n\n\ta_=y\n").unwrap();
    assert_eq!(text(&map.export()), "a_=y\nb_=x\n");
}

#[test]
fn import_reports_a_line_without_value() {
    let mut map = PropertyMap::new(None);
    let e = map.import(b"a_=x\nnovalue\nc_=z\n").unwrap_err();
    assert_eq!(parse_error(e), "invalid value at line '2'");
    assert_eq!(text(&map.export()), "a_=x\n");
}

#[test]
fn import_reports_invalid_utf8() {
    let mut map = PropertyMap::new(None);
    let e = map.import(b"a_=x\n\nb_=\xff\n").unwrap_err();
    assert_eq!(parse_error(e), "invalid utf8 at line '3'");
}

#[test]
fn parse_error_message() {
    let e = OptimizerError::PropertyMapParseError("invalid value at line '2'".to_string());
    assert_eq!(e.message(), "Unable to parse property map: invalid value at line '2'");
}

#[test]
fn export_then_import_gives_the_same_map() {
    let mut map = PropertyMap::new(Some("_$".to_string()));
    let mut local = LocalPropertyMap::new();
    for key in ["zeta_", "alpha_", "\u{e9}t\u{e9}_", "mid_"] {
        local.get(&mut map, key).unwrap();
    }
    let exported = map.export();
    let mut other = PropertyMap::new(None);
    other.import(&exported).unwrap();
    assert_eq!(other.export(), exported);
    assert_eq!(text(&exported), "alpha_=b\nmid_=d\nzeta_=a\n\u{e9}t\u{e9}_=c\n");
}

#[test]
fn distinct_properties_get_distinct_names() {
    let mut map = PropertyMap::new(Some("_$".to_string()));
    map.import(b"p_=b\nq_=d\n").unwrap();
    let mut local = LocalPropertyMap::new();
    let mut names = Vec::new();
    for key in ["a_", "b_", "c_", "d_", "e_", "p_", "q_"] {
        names.push(local.get(&mut map, key).unwrap());
    }
    for i in 0..names.len() {
        for j in 0..i {
            assert_ne!(names[i], names[j]);
        }
    }
    assert_eq!(local.get(&mut map, "c_"), Some(names[2].clone()));
}
