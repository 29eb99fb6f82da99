//! Tests of the generic parse, transform and format pipeline.

use causal_relation_graphs::processor::{Parser, ParserProcessor, Processor, P2};

#[test]
fn lib_it_works() {
    let result = 2 + 2;
    assert_eq!(result, 4);
}

#[test]
fn test_parse() {
    let actual = Processor::<i32, i32>::new()
        .parser(|_text: &str| Ok(1))
        .parse("test");
    assert_eq!(Ok(1), actual);

    let actual = Processor::<String, String>::new()
        .parser(|text: &str| Ok(text.to_string()))
        .parse("test");
    assert_eq!(Ok("test".to_string()), actual);

    let actual = Processor::<Vec<i32>, Vec<i32>>::new()
        .parser(|_: &str| Ok(vec![1]))
        .parse("test");
    assert_eq!(Ok(vec![1]), actual);

    let actual = Processor::<String, String>::new()
        .parser(|_: &str| Err("error".to_string()))
        .parse("test");
    assert_eq!(Err("error".to_string()), actual);
}

#[test]
fn test_process() {
    let actual = Processor::<i32, i32>::new()
        .parser(|_text: &str| Ok(1))
        .transformer(|_text: &i32| Ok(1))
        .formatter(|_text: &i32| Ok(1))
        .process("test");
    assert_eq!(Ok(1), actual);

    let actual = Processor::<String, String>::new()
        .parser(|text: &str| Ok(text.to_string()))
        .transformer(|text: &String| Ok(text.clone()))
        .formatter(|text: &String| Ok(text.clone()))
        .process("test");
    assert_eq!(Ok("test".to_string()), actual);

    let actual = Processor::<Vec<i32>, Vec<i32>>::new()
        .parser(|_: &str| Ok(vec![1]))
        .transformer(|_text: &Vec<i32>| Ok(vec![1]))
        .formatter(|_text: &Vec<i32>| Ok(vec![1]))
        .parse("test");
    assert_eq!(Ok(vec![1]), actual);

    let actual = Processor::<String, String>::new()
        .parser(|_: &str| Err("error".to_string()))
        .transformer(|_text: &String| Err("error".to_string()))
        .formatter(|_text: &String| Err("error".to_string()))
        .parse("test");
    assert_eq!(Err("error".to_string()), actual);
}

#[test]
fn parser_it_works() {
    let actual = ParserProcessor::new(Box::new(P2 {
        f: |a: String| Err::<Box<String>, String>(a.to_string()),
    }));
    let actual = actual.parser.parse("".to_string());

    assert_eq!(Err("".to_string()), actual);
}

#[test]
fn pipeline_without_parser_answers_an_empty_error() {
    let actual = Processor::<i32, i32, fn(&str) -> Result<i32, String>>::new().parse("test");
    assert_eq!(Err(String::new()), actual);
}

#[test]
fn transform_without_transformer_copies_the_value() {
    let p = Processor::<
        i32,
        i32,
        fn(&str) -> Result<i32, String>,
        fn(&i32) -> Result<i32, String>,
        fn(&i32) -> Result<i32, String>,
    >::new();
    assert_eq!(Ok(5), p.transform(&5));
}
