use parenv::binding::{
    aggregate, bind, env_names, load, Diagnostic, Failure, FailureKind, FieldSchema, LoadResult,
    Outcome, Reading,
};
use parenv::naming::{derive_name, NamingConvention};
use parenv::parse::{parse_integer, parse_value, TypeTag, Value};
use parenv::usage::render_usage;

fn animals(all_required: bool) -> Vec<FieldSchema> {
    vec![
        FieldSchema::new("cat", TypeTag::U8, !all_required, "The cat"),
        FieldSchema::new("dog", TypeTag::External("SocketAddr".to_string()), false, "The dog"),
        FieldSchema::new("file", TypeTag::Path, false, "The file"),
    ]
}

fn env_prefix() -> NamingConvention {
    NamingConvention::new("ENV_", "")
}

fn failure_indices(r: &LoadResult) -> Vec<usize> {
    match r {
        LoadResult::Rejected(fs) => fs.iter().map(|f| f.index).collect(),
        LoadResult::Loaded(_) => Vec::new(),
    }
}

#[test]
fn name_of_file_field() {
    assert_eq!(derive_name("file", &env_prefix()), "ENV_FILE");
}

#[test]
fn name_with_prefix_and_suffix() {
    let c = NamingConvention::new("APP_", "_V2");
    assert_eq!(derive_name("port", &c), "APP_PORT_V2");
    assert_eq!(derive_name("port", &NamingConvention::plain()), "PORT");
}

#[test]
fn names_of_schema() {
    let names = env_names(&animals(false), &env_prefix());
    assert_eq!(names, vec!["ENV_CAT", "ENV_DOG", "ENV_FILE"]);
}

#[test]
fn empty_schema_loads() {
    let r = load(&Vec::new(), &env_prefix(), &Vec::new());
    assert_eq!(r, LoadResult::Loaded(Vec::new()));
}

#[test]
fn optional_absent_and_required_present_loads() {
    let readings = vec![
        Reading::absent(),
        Reading::present("127.0.0.1:8080", true),
        Reading::present("/tmp/x", true),
    ];
    let r = load(&animals(false), &env_prefix(), &readings);
    assert_eq!(
        r,
        LoadResult::Loaded(vec![
            None,
            Some(Value::External("127.0.0.1:8080".to_string())),
            Some(Value::Path("/tmp/x".to_string())),
        ])
    );
}

#[test]
fn bad_cat_and_missing_dog_both_reported() {
    let readings = vec![
        Reading::present("notanumber", false),
        Reading::absent(),
        Reading::present("/tmp/x", true),
    ];
    let r = load(&animals(false), &env_prefix(), &readings);
    assert_eq!(
        r,
        LoadResult::Rejected(vec![
            Failure {
                index: 0,
                diagnostic: Diagnostic {
                    kind: FailureKind::ParseFailure,
                    env_name: "ENV_CAT".to_string(),
                    raw: "notanumber".to_string(),
                    target: "u8".to_string(),
                },
            },
            Failure {
                index: 1,
                diagnostic: Diagnostic {
                    kind: FailureKind::VariableNotFound,
                    env_name: "ENV_DOG".to_string(),
                    raw: String::new(),
                    target: "SocketAddr".to_string(),
                },
            },
        ])
    );
}

#[test]
fn empty_environment_all_required() {
    let readings = vec![Reading::absent(), Reading::absent(), Reading::absent()];
    let r = load(&animals(true), &env_prefix(), &readings);
    match r {
        LoadResult::Rejected(fs) => {
            assert_eq!(fs.len(), 3);
            for (k, f) in fs.iter().enumerate() {
                assert_eq!(f.index, k);
                assert_eq!(f.diagnostic.kind, FailureKind::VariableNotFound);
            }
        }
        LoadResult::Loaded(_) => panic!("expected a rejection"),
    }
}

#[test]
fn optional_absence_is_not_a_failure() {
    let readings = vec![Reading::absent(), Reading::absent(), Reading::present("/tmp/x", true)];
    let r = load(&animals(false), &env_prefix(), &readings);
    assert_eq!(failure_indices(&r), vec![1]);
}

#[test]
fn optional_unparsable_value_is_a_failure() {
    let readings = vec![
        Reading::present("256", true),
        Reading::present("127.0.0.1:8080", true),
        Reading::present("/tmp/x", true),
    ];
    let r = load(&animals(false), &env_prefix(), &readings);
    match r {
        LoadResult::Rejected(fs) => {
            assert_eq!(fs.len(), 1);
            assert_eq!(fs[0].index, 0);
            assert_eq!(fs[0].diagnostic.kind, FailureKind::ParseFailure);
            assert_eq!(fs[0].diagnostic.raw, "256");
        }
        LoadResult::Loaded(_) => panic!("expected a rejection"),
    }
}

#[test]
fn failure_count_matches_invalid_fields() {
    let schema = vec![
        FieldSchema::new("a", TypeTag::U16, false, ""),
        FieldSchema::new("b", TypeTag::I32, false, ""),
        FieldSchema::new("c", TypeTag::Text, false, ""),
        FieldSchema::new("d", TypeTag::U64, true, ""),
        FieldSchema::new("e", TypeTag::I8, false, ""),
    ];
    let readings = vec![
        Reading::present("x", false),
        Reading::present("-5", false),
        Reading::absent(),
        Reading::absent(),
        Reading::present("-129", false),
    ];
    let names = env_names(&schema, &NamingConvention::plain());
    let r = aggregate(&schema, &names, &readings);
    assert_eq!(failure_indices(&r), vec![0, 2, 4]);
}

#[test]
fn bind_outcomes() {
    let f = FieldSchema::new("n", TypeTag::I64, true, "");
    assert_eq!(bind(&f, "N", &Reading::absent()), Outcome::Missing);
    assert_eq!(
        bind(&f, "N", &Reading::present("-42", false)),
        Outcome::Bound(Value::Integer(-42))
    );
    let g = FieldSchema::new("n", TypeTag::I64, false, "");
    match bind(&g, "N", &Reading::absent()) {
        Outcome::Failed(d) => {
            assert_eq!(d.kind, FailureKind::VariableNotFound);
            assert_eq!(d.env_name, "N");
        }
        other => panic!("unexpected {:?}", other),
    }
}

#[test]
fn integer_parsing_follows_std() {
    assert_eq!(parse_integer(&TypeTag::U8, "255"), Some(255));
    assert_eq!(parse_integer(&TypeTag::U8, "+7"), Some(7));
    assert_eq!(parse_integer(&TypeTag::U8, "256"), None);
    assert_eq!(parse_integer(&TypeTag::U8, "-1"), None);
    assert_eq!(parse_integer(&TypeTag::U8, "-0"), None);
    assert_eq!(parse_integer(&TypeTag::U8, ""), None);
    assert_eq!(parse_integer(&TypeTag::U8, "+"), None);
    assert_eq!(parse_integer(&TypeTag::U8, " 1"), None);
    assert_eq!(parse_integer(&TypeTag::I8, "-128"), Some(-128));
    assert_eq!(parse_integer(&TypeTag::I8, "-129"), None);
    assert_eq!(parse_integer(&TypeTag::I8, "-"), None);
    assert_eq!(parse_integer(&TypeTag::U64, "18446744073709551615"), Some(18446744073709551615));
    assert_eq!(parse_integer(&TypeTag::U64, "18446744073709551616"), None);
    assert_eq!(parse_integer(&TypeTag::I64, "-9223372036854775808"), Some(-9223372036854775808));
    assert_eq!(parse_integer(&TypeTag::I64, "9223372036854775808"), None);
    assert_eq!(parse_integer(&TypeTag::U16, "0065535"), Some(65535));
}

#[test]
fn value_parsing_by_type() {
    assert_eq!(parse_value(&TypeTag::Text, "hi there", false), Some(Value::Text("hi there".to_string())));
    assert_eq!(parse_value(&TypeTag::Path, "", false), Some(Value::Path(String::new())));
    let ext = TypeTag::External("SocketAddr".to_string());
    assert_eq!(parse_value(&ext, "nope", false), None);
    assert_eq!(parse_value(&ext, "1.2.3.4:5", true), Some(Value::External("1.2.3.4:5".to_string())));
    assert_eq!(parse_value(&TypeTag::U32, "4294967295", false), Some(Value::Integer(4294967295)));
    assert_eq!(TypeTag::U32.display_name(), "u32");
    assert_eq!(ext.display_name(), "SocketAddr");
}

#[test]
fn usage_text_for_bad_cat_and_missing_dog() {
    let schema = animals(false);
    let readings = vec![
        Reading::present("notanumber", false),
        Reading::absent(),
        Reading::present("/tmp/x", true),
    ];
    let failures = match load(&schema, &env_prefix(), &readings) {
        LoadResult::Rejected(fs) => fs,
        LoadResult::Loaded(_) => panic!("expected a rejection"),
    };
    let text = render_usage("demo", &schema, &env_prefix(), &failures);
    let expected = "I, demo, expect the following environment variables.\n\n    ENV_CAT     The cat     [optional]    \n    ENV_DOG     The dog                   \n    ENV_FILE    The file                  \n\nI faced an error parsing the following environment variables.\n\nI couldn't parse the value 'notanumber' provided by the environment variable ENV_CAT.\nI couldn't find the environment variable ENV_DOG.\n";
    assert_eq!(text, expected);
    assert_eq!(render_usage("demo", &schema, &env_prefix(), &failures), text);
}

#[test]
fn usage_columns_widen_to_longest_cell() {
    let schema = vec![
        FieldSchema::new("a", TypeTag::Text, false, "short"),
        FieldSchema::new("longer_name", TypeTag::Text, true, "x"),
    ];
    let text = render_usage("p", &schema, &NamingConvention::plain(), &Vec::new());
    let lines: Vec<&str> = text.lines().collect();
    assert_eq!(lines[2], "    A              short                  ");
    assert_eq!(lines[3], "    LONGER_NAME    x        [optional]    ");
    assert_eq!(lines[2].len(), lines[3].len());
}

#[test]
fn only_one_item() {
    let one = [7u8];
    assert_eq!(parenv::binding::only_one(&one), Some(&7));
    let two = [1u8, 2];
    assert_eq!(parenv::binding::only_one(&two), None);
    let none: [u8; 0] = [];
    assert_eq!(parenv::binding::only_one(&none), None);
}

#[test]
fn colliding_names_are_found() {
    let c = NamingConvention::plain();
    let schema = vec![
        FieldSchema::new("a", TypeTag::Text, false, ""),
        FieldSchema::new("b", TypeTag::Text, false, ""),
        FieldSchema::new("A", TypeTag::Text, false, ""),
    ];
    let names = env_names(&schema, &c);
    assert_eq!(parenv::binding::find_name_collision(&names), Some((0, 2)));
    let distinct = env_names(&animals(false), &c);
    assert_eq!(parenv::binding::find_name_collision(&distinct), None);
}
