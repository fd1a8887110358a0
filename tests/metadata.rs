use visualize::bulk::{drop_bytes, join_names, to_indices, window_bound, JsBytes, Session};
use visualize::error::{HeadScratcherErrorDef, HeadScratcherErrorDef as D, ParserError};
use visualize::wasm_file::WasmFile;
use visualize::wrapper::{
    new_wrapper, AttrValue, Attribute, Dimension, Header, NcType, NetCDFHandle, Variable,
};

fn dim(name: &str, length: usize) -> Dimension {
    Dimension { name: name.to_string(), length }
}

fn text_attr(name: &str, value: &str) -> Attribute {
    Attribute { name: name.to_string(), value: AttrValue::Text(value.to_string()) }
}

fn temp_header() -> Header {
    Header {
        dims: Some(vec![dim("x", 4), dim("y", 3)]),
        vars: Some(vec![Variable {
            name: "temp".to_string(),
            nc_type: NcType::Float,
            dims: vec![0, 1],
            attributes: Some(vec![
                text_attr("units", "C"),
                Attribute { name: "scale".to_string(), value: AttrValue::Numeric },
            ]),
        }]),
        attrs: Some(vec![
            text_attr("title", "Sea surface"),
            Attribute { name: "version".to_string(), value: AttrValue::Numeric },
        ]),
    }
}

fn handle(header: Header) -> NetCDFHandle {
    new_wrapper(header, WasmFile::new(vec![0u8; 16]))
}

#[test]
fn variables_are_described() {
    let h = handle(temp_header());
    let vars = match h.get_variables() {
        Ok(v) => v,
        Err(_) => panic!("expected variables"),
    };
    assert_eq!(vars.len(), 1);
    let v = &vars[0];
    assert_eq!(v.name, "temp");
    assert_eq!(v.kind, 5);
    assert_eq!(v.size, 4);
    assert_eq!(v.dimensions, vec!["x".to_string(), "y".to_string()]);
    assert_eq!(v.length, 12);
    assert_eq!(v.attributes, vec![("units".to_string(), "C".to_string())]);
}

#[test]
fn no_variables_is_an_error_but_dimensions_are_listed() {
    for vars in [None, Some(Vec::new())] {
        let h = handle(Header { dims: Some(vec![dim("time", 7)]), vars, attrs: None });
        assert!(matches!(h.get_variables(), Err(HeadScratcherErrorDef::NoVariablesInFile)));
        let dims = h.get_dimensions();
        assert_eq!(dims.len(), 1);
        assert_eq!(dims[0].name, "time");
        assert_eq!(dims[0].length, 7);
        assert_eq!(h.get_variable_size("time".to_string()), 0);
    }
}

#[test]
fn missing_dimensions_list_is_empty() {
    let h = handle(Header { dims: None, vars: None, attrs: None });
    assert!(h.get_dimensions().is_empty());
    assert_eq!(h.get_attribute("title".to_string()), None);
}

#[test]
fn unknown_dimension_index_is_invalid_file() {
    let mut header = temp_header();
    header.vars.as_mut().unwrap()[0].dims = vec![0, 5];
    let h = handle(header);
    assert!(matches!(h.get_variables(), Err(HeadScratcherErrorDef::InvalidFile)));
}

#[test]
fn overflowing_element_count_is_invalid_file() {
    let mut header = temp_header();
    header.dims = Some(vec![dim("a", usize::MAX), dim("b", 2)]);
    let h = handle(header);
    assert!(matches!(h.get_variables(), Err(HeadScratcherErrorDef::InvalidFile)));
}

#[test]
fn type_tags_and_sizes() {
    let all = [
        (NcType::Byte, 1, 1),
        (NcType::Char, 2, 1),
        (NcType::Short, 3, 2),
        (NcType::Int, 4, 4),
        (NcType::Float, 5, 4),
        (NcType::Double, 6, 8),
    ];
    for (t, tag, size) in all {
        assert_eq!(t.tag(), tag);
        assert_eq!(t.extsize(), size);
    }
}

#[test]
fn variable_size_by_name() {
    let h = handle(temp_header());
    assert_eq!(h.get_variable_size("temp".to_string()), 4);
    assert_eq!(h.get_variable_size("salt".to_string()), 0);
}

#[test]
fn global_attribute_lookup() {
    let h = handle(temp_header());
    assert_eq!(h.get_attribute("title".to_string()), Some("Sea surface".to_string()));
    assert_eq!(h.get_attribute("version".to_string()), None);
    assert_eq!(h.get_attribute("missing".to_string()), None);
}

#[test]
fn open_keeps_header_or_normalizes_error() {
    let ok = NetCDFHandle::open(Ok(temp_header()), WasmFile::new(vec![1, 2, 3]));
    match ok {
        Ok(h) => assert_eq!(h.file().file_size(), 3),
        Err(_) => panic!("expected a handle"),
    }
    let err = NetCDFHandle::open(Err(ParserError::InvalidFile), WasmFile::new(vec![]));
    assert!(matches!(err, Err(HeadScratcherErrorDef::InvalidFile)));
}

#[test]
fn every_parser_error_normalizes() {
    let cases: Vec<(ParserError, fn(&D) -> bool)> = vec![
        (ParserError::EmptyError, |d| matches!(d, D::EmptyError)),
        (ParserError::InvalidFile, |d| matches!(d, D::InvalidFile)),
        (ParserError::UnsupportedNetCDFVersion, |d| matches!(d, D::UnsupportedNetCDFVersion)),
        (ParserError::UnsupportedListType(9), |d| matches!(d, D::UnsupportedListType(9))),
        (ParserError::NonZeroValue(3), |d| matches!(d, D::NonZeroValue(3))),
        (ParserError::UnsupportedZeroListType, |d| matches!(d, D::UnsupportedZeroListType)),
        (ParserError::UTF8error, |d| matches!(d, D::UTF8error)),
        (ParserError::UnknownNetCDFType(17), |d| matches!(d, D::UnknownNetCDFType(17))),
        (ParserError::ParseFailure, |d| matches!(d, D::ParsingError)),
        (ParserError::IOError("disk gone".to_string()), |d| matches!(d, D::IOError(m) if m == "disk gone")),
        (ParserError::NoVariablesInFile, |d| matches!(d, D::NoVariablesInFile)),
        (ParserError::NoDimensionsInFile, |d| matches!(d, D::NoDimensionsInFile)),
        (ParserError::VariableNotFound("v".to_string()), |d| matches!(d, D::VariableNotFound(m) if m == "v")),
        (ParserError::CouldNotFindDimension("d".to_string()), |d| matches!(d, D::CouldNotFindDimension(m) if m == "d")),
    ];
    for (e, check) in cases {
        let d = D::from(e);
        assert!(check(&d), "{:?}", d);
    }
}

#[test]
fn transfer_then_release_round_trip() {
    let values = vec![1.5f32, -2.0, 3.25];
    let packed = JsBytes::new(values.clone());
    assert_eq!(packed.len(), 3);
    assert_eq!(*packed.get(1), -2.0);
    let back = drop_bytes(packed);
    assert_eq!(back, values);
}

#[test]
fn indices_from_caller_values() {
    assert_eq!(to_indices(&vec![0, 3, 2]), Some(vec![0usize, 3, 2]));
    assert_eq!(to_indices(&vec![1, -1]), None);
    assert_eq!(to_indices(&vec![]), Some(vec![]));
    assert_eq!(window_bound(vec![]), None);
    assert_eq!(window_bound(vec![2, 4]), Some(vec![2, 4]));
}

#[test]
fn names_are_comma_joined() {
    assert_eq!(join_names(&vec![]), "");
    assert_eq!(join_names(&vec!["x".to_string()]), "x");
    assert_eq!(join_names(&vec!["x".to_string(), "y".to_string(), "time".to_string()]), "x,y,time");
}

#[test]
fn session_holds_at_most_one_file() {
    let mut s: Session<u32> = Session::new();
    assert!(!s.is_open());
    assert!(s.open_file(Some(7)));
    assert_eq!(s.file(), Some(&7));
    assert!(!s.open_file(None));
    assert!(!s.is_open());
    assert!(s.open_file(Some(9)));
    s.close_file();
    assert!(!s.is_open());
    s.close_file();
    assert_eq!(s.file(), None);
}
