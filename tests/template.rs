use std::collections::VecDeque;
use video_batch::json::Json;
use video_batch::template::{
    search_json, replace_json, AdvancedInput, FileRefs, BATCH_PAIR_MISSING, SINGLE_PAIR_MISSING,
    NO_KEYWORDS, NOT_A_CONTAINER, KEY_NOT_FOUND, INDEX_MISSING, INDEX_OUT_OF_RANGE,
    PATH_ENDS_AT_OBJECT, NOT_A_SLOT,
};

fn s(text: &str) -> Json {
    Json::Str(text.to_string())
}

fn obj(members: Vec<(&str, Json)>) -> Json {
    Json::Object(members.into_iter().map(|(k, v)| (k.to_string(), v)).collect())
}

fn names(list: &[&str]) -> Vec<String> {
    list.iter().map(|x| x.to_string()).collect()
}

fn array_of(list: &[&str]) -> Json {
    Json::Array(list.iter().map(|x| s(x)).collect())
}

fn same(a: &Json, b: &Json) -> bool {
    match (a, b) {
        (Json::Null, Json::Null) => true,
        (Json::Bool(x), Json::Bool(y)) => x == y,
        (Json::Number(x), Json::Number(y)) => x == y,
        (Json::Str(x), Json::Str(y)) => x == y,
        (Json::Array(x), Json::Array(y)) => x.len() == y.len() && x.iter().zip(y.iter()).all(|(p, q)| same(p, q)),
        (Json::Object(x), Json::Object(y)) => {
            x.len() == y.len() && x.iter().zip(y.iter()).all(|(p, q)| p.0 == q.0 && same(&p.1, &q.1))
        }
        _ => false,
    }
}

fn err_text<T>(r: Result<T, video_batch::error::VideoError>) -> String {
    match r {
        Ok(_) => panic!("expected an error"),
        Err(e) => e.message(),
    }
}

#[test]
fn batch_template_round_trip_replaces_only_the_slots() {
    let doc = obj(vec![
        ("images", s("$BATCH_INPUT")),
        ("output_loc", s("$BATCH_OUTPUT")),
        ("fill_color", s("blur")),
        ("depth", Json::Number("3".to_string())),
    ]);
    let t = AdvancedInput::create_transform(&doc).ok().unwrap();
    assert_eq!(t.option(), "batch");
    let ins = names(&["a", "b", "c"]);
    let outs = names(&["x", "y", "z"]);
    let r = t.replace_variables_transform(FileRefs::Batch(&ins), FileRefs::Batch(&outs)).ok().unwrap();
    let expected = obj(vec![
        ("images", array_of(&["a", "b", "c"])),
        ("output_loc", array_of(&["x", "y", "z"])),
        ("fill_color", s("blur")),
        ("depth", Json::Number("3".to_string())),
    ]);
    assert!(same(&r, &expected));
    assert!(same(t.source(), &doc));
}

#[test]
fn batch_template_in_array_slots() {
    let doc = obj(vec![
        ("args", Json::Array(vec![s("keep"), s("$BATCH_INPUT"), s("$BATCH_OUTPUT")])),
        ("opts", obj(vec![("level", Json::Bool(true))])),
    ]);
    let t = AdvancedInput::create_transform(&doc).ok().unwrap();
    assert_eq!(t.in_array_iter(), Some(1));
    assert_eq!(t.out_array_iter(), Some(2));
    let ins = names(&["i1", "i2"]);
    let outs = names(&["o1", "o2"]);
    let r = t.replace_variables_transform(FileRefs::Batch(&ins), FileRefs::Batch(&outs)).ok().unwrap();
    let expected = obj(vec![
        ("args", Json::Array(vec![s("keep"), array_of(&["i1", "i2"]), array_of(&["o1", "o2"])])),
        ("opts", obj(vec![("level", Json::Bool(true))])),
    ]);
    assert!(same(&r, &expected));
}

#[test]
fn single_template_in_nested_object() {
    let doc = obj(vec![
        ("image", s("$SINGLE_INPUT")),
        ("settings", obj(vec![("location", s("$SINGLE_OUTPUT")), ("mode", s("fast"))])),
    ]);
    let t = AdvancedInput::create_transform(&doc).ok().unwrap();
    assert_eq!(t.option(), "single");
    let out_path: Vec<String> = t.out_path().iter().cloned().collect();
    assert_eq!(out_path, names(&["settings", "location"]));
    assert_eq!(t.out_array_iter(), None);
    let r = t.replace_variables_transform(FileRefs::Single("in.png"), FileRefs::Single("out.png")).ok().unwrap();
    let expected = obj(vec![
        ("image", s("in.png")),
        ("settings", obj(vec![("location", s("out.png")), ("mode", s("fast"))])),
    ]);
    assert!(same(&r, &expected));
}

#[test]
fn batch_pair_takes_precedence_over_single_pair() {
    let doc = obj(vec![
        ("a", s("$SINGLE_INPUT")),
        ("b", s("$SINGLE_OUTPUT")),
        ("c", s("$BATCH_INPUT")),
        ("d", s("$BATCH_OUTPUT")),
    ]);
    let t = AdvancedInput::create_transform(&doc).ok().unwrap();
    assert_eq!(t.option(), "batch");
    let in_path: Vec<String> = t.in_path().iter().cloned().collect();
    assert_eq!(in_path, names(&["c"]));
}

#[test]
fn batch_input_without_output_is_refused() {
    let doc = obj(vec![("images", s("$BATCH_INPUT")), ("fill_color", s("blur"))]);
    assert_eq!(err_text(AdvancedInput::create_transform(&doc)), BATCH_PAIR_MISSING);
    let doc = obj(vec![("out", s("$BATCH_OUTPUT")), ("x", s("$SINGLE_INPUT")), ("y", s("$SINGLE_OUTPUT"))]);
    assert_eq!(err_text(AdvancedInput::create_transform(&doc)), BATCH_PAIR_MISSING);
}

#[test]
fn single_half_pair_and_no_token_are_refused() {
    let doc = obj(vec![("image", s("$SINGLE_INPUT"))]);
    assert_eq!(err_text(AdvancedInput::create_transform(&doc)), SINGLE_PAIR_MISSING);
    let doc = obj(vec![("image", s("plain"))]);
    assert_eq!(err_text(AdvancedInput::create_transform(&doc)), NO_KEYWORDS);
    assert_eq!(err_text(AdvancedInput::create_transform(&Json::Null)), NOT_A_CONTAINER);
    assert_eq!(err_text(AdvancedInput::create_extract(&Json::Bool(false))), NOT_A_CONTAINER);
}

#[test]
fn extract_template_modes() {
    let doc = obj(vec![("image", s("$SINGLE_INPUT")), ("list", s("$BATCH_INPUT"))]);
    let t = AdvancedInput::create_extract(&doc).ok().unwrap();
    assert_eq!(t.option(), "batch");
    let files = names(&["f1"]);
    let r = t.replace_variables_extract(FileRefs::Batch(&files)).ok().unwrap();
    let expected = obj(vec![("image", s("$SINGLE_INPUT")), ("list", array_of(&["f1"]))]);
    assert!(same(&r, &expected));
    let doc = obj(vec![("image", s("$SINGLE_INPUT"))]);
    let t = AdvancedInput::create_extract(&doc).ok().unwrap();
    assert_eq!(t.option(), "single");
    let r = t.replace_variables_extract(FileRefs::Single("one.png")).ok().unwrap();
    assert!(same(&r, &obj(vec![("image", s("one.png"))])));
    assert_eq!(err_text(AdvancedInput::create_extract(&obj(vec![]))), NO_KEYWORDS);
}

#[test]
fn search_does_not_enter_objects_inside_arrays() {
    let doc = obj(vec![("list", Json::Array(vec![obj(vec![("x", s("$BATCH_INPUT"))])]))]);
    let mut path = VecDeque::new();
    let r = search_json(&doc, &mut path, "$BATCH_INPUT").ok().unwrap();
    assert_eq!(r, (false, None));
    assert!(path.is_empty());
}

#[test]
fn search_top_level_array_and_string() {
    let doc = Json::Array(vec![s("a"), s("$SINGLE_INPUT")]);
    let mut path = VecDeque::new();
    assert_eq!(search_json(&doc, &mut path, "$SINGLE_INPUT").ok().unwrap(), (true, Some(1)));
    assert!(path.is_empty());
    let mut path = VecDeque::new();
    assert_eq!(search_json(&s("$SINGLE_INPUT"), &mut path, "$SINGLE_INPUT").ok().unwrap(), (true, None));
    assert_eq!(search_json(&s("other"), &mut path, "$SINGLE_INPUT").ok().unwrap(), (false, None));
}

#[test]
fn replace_errors() {
    let refs = names(&["a"]);
    let mut doc = obj(vec![("k", s("v"))]);
    let path: VecDeque<String> = VecDeque::from(vec!["missing".to_string()]);
    assert_eq!(err_text(replace_json(&mut doc, &path, None, FileRefs::Single("z"))), KEY_NOT_FOUND);
    let empty: VecDeque<String> = VecDeque::new();
    assert_eq!(err_text(replace_json(&mut doc, &empty, None, FileRefs::Single("z"))), PATH_ENDS_AT_OBJECT);
    let mut arr = Json::Array(vec![s("a")]);
    assert_eq!(err_text(replace_json(&mut arr, &empty, None, FileRefs::Batch(&refs))), INDEX_MISSING);
    assert_eq!(err_text(replace_json(&mut arr, &empty, Some(3), FileRefs::Batch(&refs))), INDEX_OUT_OF_RANGE);
    let mut num = Json::Number("1".to_string());
    assert_eq!(err_text(replace_json(&mut num, &empty, None, FileRefs::Single("z"))), NOT_A_SLOT);
    assert!(same(&doc, &obj(vec![("k", s("v"))])));
}

#[test]
fn replace_json_writes_the_value() {
    let mut doc = obj(vec![("k", s("v")), ("m", s("w"))]);
    let path: VecDeque<String> = VecDeque::from(vec!["m".to_string()]);
    let list = names(&["p", "q"]);
    assert!(replace_json(&mut doc, &path, None, FileRefs::Batch(&list)).is_ok());
    assert!(same(&doc, &obj(vec![("k", s("v")), ("m", array_of(&["p", "q"]))])));
}
