use wavefield::model_parsers::wavefront_obj::{lex_whitespace, WavefrontObjInterpreter};
use wavefield::render_gl::loader::{Error as LoaderError, ObjLoader};
use wavefield::render_gl::uniform::Error as UniformError;
use wavefield::render_gl::viewport::Error as ViewportError;
use wavefield::Error;

#[test]
fn lex_whitespace_strips_spaces_and_tabs() {
    assert_eq!(lex_whitespace("  \t v 1.0"), "v 1.0");
    assert_eq!(lex_whitespace("\tf 1 2 3"), "f 1 2 3");
}

#[test]
fn lex_whitespace_leaves_other_text_alone() {
    assert_eq!(lex_whitespace("abc  "), "abc  ");
    assert_eq!(lex_whitespace("v 1.0"), "v 1.0");
}

#[test]
fn lex_whitespace_consumes_an_all_whitespace_input() {
    assert_eq!(lex_whitespace(" \t\t "), "");
    assert_eq!(lex_whitespace(""), "");
}

#[test]
fn lex_whitespace_stops_at_newline() {
    assert_eq!(lex_whitespace("  \ng"), "\ng");
    assert_eq!(lex_whitespace("\n  "), "\n  ");
}

#[test]
fn error_values_carry_their_fields() {
    let e = Error::NoneObject(String::from("estimator"));
    match e {
        Error::NoneObject(name) => assert_eq!(name, "estimator"),
    }

    let l = LoaderError::ResourceLoad {
        name: String::from("shaders/grid"),
    };
    match l {
        LoaderError::ResourceLoad { name } => assert_eq!(name, "shaders/grid"),
        LoaderError::InvalidObjLine { .. } => panic!("wrong variant"),
    }

    let l2 = LoaderError::InvalidObjLine {
        line: String::from("vv 1 2"),
    };
    match l2 {
        LoaderError::InvalidObjLine { line } => assert_eq!(line, "vv 1 2"),
        LoaderError::ResourceLoad { .. } => panic!("wrong variant"),
    }

    let u = UniformError::UniformNotFound {
        name: String::from("projection"),
    };
    let v = ViewportError::ResourceLoad { inner: u };
    match v {
        ViewportError::ResourceLoad { inner: UniformError::UniformNotFound { name } } => {
            assert_eq!(name, "projection")
        }
    }
}

#[test]
fn unit_structs_construct() {
    let _loader = ObjLoader {};
    let _interpreter = WavefrontObjInterpreter {};
}
