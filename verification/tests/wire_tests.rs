use scoreboard_panel::challenge::{Challenges, Languages};
use scoreboard_panel::fetch::{refresh_url, scores_response, scores_url, text_response, FetchOutcome};
use scoreboard_panel::json::{find_member, number_of, text_of, Json, Member};
use scoreboard_panel::score::Score;
use scoreboard_panel::submission::{FormValue, Submission, SubmissionResult};
use scoreboard_panel::sync::OutcomeKind;
use scoreboard_panel::wire::{
    decode_scores, encode_score, encode_scores, refresh_from_parsed, refresh_from_text, renewed,
    scores_from_parsed, scores_from_text, RefreshResponse, ScoreField, ShapeError,
};

fn to_value(document: &Json) -> serde_json::Value {
    match document {
        Json::Null => serde_json::Value::Null,
        Json::Bool(flag) => serde_json::Value::Bool(*flag),
        Json::Number(Some(number)) => serde_json::Value::from(*number),
        Json::Number(None) => serde_json::Value::from(-1),
        Json::Text(text) => serde_json::Value::String(text.clone()),
        Json::Array(items) => serde_json::Value::Array(items.iter().map(to_value).collect()),
        Json::Object(members) => serde_json::Value::Object(
            members.iter().map(|m| (m.key.clone(), to_value(&m.value))).collect(),
        ),
    }
}

fn sample() -> Vec<Score> {
    vec![
        Score::new("ann", "rust", 1_500, "./fast"),
        Score::new("b\"ob\\", "c++", u64::MAX, "a.out --x"),
        Score::new("", "", 0, ""),
    ]
}

fn same(a: &[Score], b: &[Score]) -> bool {
    a.len() == b.len()
        && a.iter().zip(b).all(|(x, y)| {
            x.name == y.name && x.language == y.language && x.time_ns == y.time_ns && x.command == y.command
        })
}

#[test]
fn scores_are_read_from_text() {
    let text = r#"[{"name":"ann","language":"rust","time_ns":1500,"command":"./fast"},
                   {"command":"a.out","time_ns":7,"language":"c","name":"bob","extra":[1,2]}]"#;
    let scores = scores_from_text(text).unwrap();
    assert_eq!(scores.len(), 2);
    assert_eq!(scores[0].name, "ann");
    assert_eq!(scores[0].language, "rust");
    assert_eq!(scores[0].time_ns, 1500);
    assert_eq!(scores[0].command, "./fast");
    assert_eq!(scores[1].name, "bob");
    assert_eq!(scores[1].time_ns, 7);
}

#[test]
fn empty_array_is_an_empty_collection() {
    assert!(scores_from_text("[]").unwrap().is_empty());
}

#[test]
fn text_that_is_not_json_is_rejected_with_the_parser_message() {
    let message = scores_from_text("[{\"name\":").unwrap_err();
    let expected = serde_json::from_str::<serde_json::Value>("[{\"name\":").unwrap_err().to_string();
    assert_eq!(message, expected);
    assert!(scores_from_text("").is_err());
}

#[test]
fn document_that_is_no_array_is_rejected() {
    assert_eq!(scores_from_text("{\"name\":\"a\"}").unwrap_err(), "scores: expected an array");
    assert_eq!(decode_scores(&Json::Null).unwrap_err(), ShapeError::NotAnArray);
    assert_eq!(decode_scores(&Json::Text("x".to_string())).unwrap_err(), ShapeError::NotAnArray);
}

#[test]
fn entry_that_is_no_object_is_rejected_with_its_place() {
    let text = r#"[{"name":"a","language":"l","time_ns":1,"command":"c"}, 5]"#;
    assert_eq!(scores_from_text(text).unwrap_err(), "scores: expected an object");
    let document = Json::Array(vec![encode_score(&Score::new("a", "l", 1, "c")), Json::Bool(true)]);
    assert_eq!(decode_scores(&document).unwrap_err(), ShapeError::NotAnObject(1));
}

#[test]
fn missing_or_mistyped_members_are_named() {
    let cases = [
        (r#"[{"language":"l","time_ns":1,"command":"c"}]"#, "scores: missing or invalid `name`"),
        (r#"[{"name":"a","language":7,"time_ns":1,"command":"c"}]"#, "scores: missing or invalid `language`"),
        (r#"[{"name":"a","language":"l","time_ns":-1,"command":"c"}]"#, "scores: missing or invalid `time_ns`"),
        (r#"[{"name":"a","language":"l","time_ns":1.5,"command":"c"}]"#, "scores: missing or invalid `time_ns`"),
        (r#"[{"name":"a","language":"l","time_ns":"1","command":"c"}]"#, "scores: missing or invalid `time_ns`"),
        (r#"[{"name":"a","language":"l","time_ns":1,"command":null}]"#, "scores: missing or invalid `command`"),
    ];
    for (text, message) in cases {
        assert_eq!(scores_from_text(text).unwrap_err(), message);
    }
}

#[test]
fn first_bad_entry_and_first_bad_member_win() {
    let good = encode_score(&Score::new("a", "l", 1, "c"));
    let no_name_no_command = Json::Object(vec![
        Member { key: "language".to_string(), value: Json::Text("l".to_string()) },
        Member { key: "time_ns".to_string(), value: Json::Number(Some(3)) },
    ]);
    let document = Json::Array(vec![good, no_name_no_command, Json::Null]);
    assert_eq!(decode_scores(&document).unwrap_err(), ShapeError::BadField(1, ScoreField::Name));
    let no_time = Json::Array(vec![Json::Object(vec![
        Member { key: "name".to_string(), value: Json::Text("a".to_string()) },
        Member { key: "language".to_string(), value: Json::Text("l".to_string()) },
        Member { key: "time_ns".to_string(), value: Json::Number(None) },
    ])]);
    assert_eq!(decode_scores(&no_time).unwrap_err(), ShapeError::BadField(0, ScoreField::TimeNs));
    let no_command = Json::Array(vec![Json::Object(vec![
        Member { key: "name".to_string(), value: Json::Text("a".to_string()) },
        Member { key: "language".to_string(), value: Json::Text("l".to_string()) },
        Member { key: "time_ns".to_string(), value: Json::Number(Some(1)) },
    ])]);
    assert_eq!(decode_scores(&no_command).unwrap_err(), ShapeError::BadField(0, ScoreField::Command));
    let no_language = Json::Array(vec![Json::Object(vec![Member {
        key: "name".to_string(),
        value: Json::Text("a".to_string()),
    }])]);
    assert_eq!(decode_scores(&no_language).unwrap_err(), ShapeError::BadField(0, ScoreField::Language));
}

#[test]
fn shape_errors_have_messages() {
    assert_eq!(ShapeError::NotAnArray.message(), "scores: expected an array");
    assert_eq!(ShapeError::NotAnObject(3).message(), "scores: expected an object");
    assert_eq!(ShapeError::BadField(0, ScoreField::Name).message(), "scores: missing or invalid `name`");
    assert_eq!(ShapeError::BadField(0, ScoreField::Language).message(), "scores: missing or invalid `language`");
    assert_eq!(ShapeError::BadField(0, ScoreField::TimeNs).message(), "scores: missing or invalid `time_ns`");
    assert_eq!(ShapeError::BadField(0, ScoreField::Command).message(), "scores: missing or invalid `command`");
}

#[test]
fn encoding_then_decoding_gives_the_collection_back() {
    let scores = sample();
    let document = encode_scores(&scores);
    let back = decode_scores(&document).unwrap();
    assert!(same(&scores, &back));
}

#[test]
fn round_trip_through_text() {
    let scores = sample();
    let text = serde_json::to_string(&to_value(&encode_scores(&scores))).unwrap();
    let back = scores_from_text(&text).unwrap();
    assert!(same(&scores, &back));
    assert_eq!(back[1].time_ns, u64::MAX);
    assert_eq!(back[1].name, "b\"ob\\");
}

#[test]
fn a_record_has_the_four_members_in_order() {
    match encode_score(&Score::new("ann", "rust", 12, "./fast")) {
        Json::Object(members) => {
            let keys: Vec<&str> = members.iter().map(|m| m.key.as_str()).collect();
            assert_eq!(keys, vec!["name", "language", "time_ns", "command"]);
            assert_eq!(text_of(&members, "name"), Some("ann".to_string()));
            assert_eq!(text_of(&members, "language"), Some("rust".to_string()));
            assert_eq!(number_of(&members, "time_ns"), Some(12));
            assert_eq!(text_of(&members, "command"), Some("./fast".to_string()));
            assert_eq!(text_of(&members, "time_ns"), None);
            assert_eq!(number_of(&members, "name"), None);
            assert!(find_member(&members, "hash").is_none());
        }
        _ => panic!("a record is an object"),
    }
}

#[test]
fn find_member_takes_the_first_of_a_key() {
    let members = vec![
        Member { key: "k".to_string(), value: Json::Number(Some(1)) },
        Member { key: "k".to_string(), value: Json::Number(Some(2)) },
    ];
    assert_eq!(number_of(&members, "k"), Some(1));
}

#[test]
fn parsed_result_is_passed_through() {
    assert_eq!(scores_from_parsed(Err("boom".to_string())).unwrap_err(), "boom");
    assert!(scores_from_parsed(Ok(Json::Array(Vec::new()))).unwrap().is_empty());
    assert_eq!(scores_from_parsed(Ok(Json::Bool(false))).unwrap_err(), "scores: expected an array");
    assert_eq!(refresh_from_parsed(Err("boom".to_string())).unwrap_err(), "boom");
}

#[test]
fn refresh_answer_is_read() {
    let answer = refresh_from_text(r#"{"status":"success","token":"t"}"#);
    assert_eq!(answer.as_ref().unwrap().status, "success");
    assert!(renewed(&answer));
    let denied = refresh_from_text(r#"{"status":"denied"}"#);
    assert_eq!(denied.as_ref().unwrap().status, "denied");
    assert!(!renewed(&denied));
    assert_eq!(refresh_from_text("[]").unwrap_err(), "refresh: missing or invalid `status`");
    assert_eq!(refresh_from_text(r#"{"status":1}"#).unwrap_err(), "refresh: missing or invalid `status`");
    assert!(refresh_from_text("{").is_err());
    assert!(!renewed(&Err("success".to_string())));
    assert!(!renewed(&Ok(RefreshResponse { status: "Success".to_string() })));
}

#[test]
fn status_200_decodes_the_body() {
    let body = r#"[{"name":"a","language":"l","time_ns":4,"command":"c"}]"#.to_string();
    match scores_response(200, Ok(body)) {
        FetchOutcome::Success(scores) => {
            assert_eq!(scores.len(), 1);
            assert_eq!(scores[0].time_ns, 4);
        }
        _ => panic!("a 200 response with a good body is a success"),
    }
}

#[test]
fn status_200_with_a_bad_body_is_a_failure() {
    match scores_response(200, Ok("{}".to_string())) {
        FetchOutcome::Failure(message) => assert_eq!(message, "scores: expected an array"),
        _ => panic!("a body that does not decode is a failure"),
    }
    match scores_response(200, Ok("not json".to_string())) {
        FetchOutcome::Failure(message) => {
            let expected = serde_json::from_str::<serde_json::Value>("not json").unwrap_err().to_string();
            assert_eq!(message, expected);
        }
        _ => panic!("a body that does not parse is a failure"),
    }
    match scores_response(200, Err("connection reset".to_string())) {
        FetchOutcome::Failure(message) => assert_eq!(message, "connection reset"),
        _ => panic!("a body that could not be read is a failure"),
    }
}

#[test]
fn status_401_is_a_refusal_whatever_the_body() {
    assert!(matches!(scores_response(401, Ok("[]".to_string())), FetchOutcome::AuthRequired));
    assert!(matches!(scores_response(401, Err("x".to_string())), FetchOutcome::AuthRequired));
    assert!(matches!(text_response(401, Ok("hello".to_string())), FetchOutcome::AuthRequired));
    assert_eq!(scores_response(401, Ok(String::new())).kind(), OutcomeKind::AuthRequired);
}

#[test]
fn other_statuses_are_failures_with_the_body() {
    match scores_response(500, Ok("[]".to_string())) {
        FetchOutcome::Failure(message) => assert_eq!(message, "[]"),
        _ => panic!("a 500 response is a failure"),
    }
    match scores_response(404, Err("no body".to_string())) {
        FetchOutcome::Failure(message) => assert_eq!(message, "no body"),
        _ => panic!("a 404 response is a failure"),
    }
    match text_response(503, Ok("down".to_string())) {
        FetchOutcome::Failure(message) => assert_eq!(message, "down"),
        _ => panic!("a 503 response is a failure"),
    }
    assert_eq!(scores_response(201, Ok("[]".to_string())).kind(), OutcomeKind::Failure);
}

#[test]
fn text_response_hands_the_body_on() {
    match text_response(200, Ok("# Title".to_string())) {
        FetchOutcome::Success(text) => assert_eq!(text, "# Title"),
        _ => panic!("a 200 response is a success"),
    }
    match text_response(200, Err("cut".to_string())) {
        FetchOutcome::Failure(message) => assert_eq!(message, "cut"),
        _ => panic!("a body that could not be read is a failure"),
    }
    assert_eq!(text_response(200, Ok(String::new())).kind(), OutcomeKind::Success);
}

#[test]
fn addresses_are_built_from_the_base() {
    assert_eq!(scores_url("http://h/", Challenges::C2331), "http://h/api/game/scores/2331");
    assert_eq!(scores_url("http://h/", Challenges::C2332), "http://h/api/game/scores/2332");
    assert_eq!(scores_url("", Challenges::C2333), "api/game/scores/2333");
    assert_eq!(scores_url("x/", Challenges::Unselected), "x/api/game/scores/None");
    assert_eq!(refresh_url("http://h/"), "http://h/api/auth/refresh");
}

#[test]
fn challenges_and_languages_have_labels() {
    let all = Challenges::iter();
    assert_eq!(all, vec![Challenges::C2331, Challenges::C2332, Challenges::C2333, Challenges::Unselected]);
    let labels: Vec<String> = all.iter().map(|c| c.label()).collect();
    assert_eq!(labels, vec!["2331", "2332", "2333", "None"]);
    assert_eq!(Challenges::default(), Challenges::C2331);
    assert_eq!(Languages::default(), Languages::Python);
    assert_eq!(Languages::Python.label(), "Python");
    assert_eq!(Languages::Rust.label(), "Rust");
    assert_eq!(Languages::Go.label(), "Go");
    assert_eq!(Languages::C.label(), "C");
    assert_eq!(Languages::Cpp.label(), "C++");
}

fn text_of_field(value: &FormValue) -> Option<&str> {
    match value {
        FormValue::Text(text) => Some(text.as_str()),
        FormValue::Blob(_) => None,
    }
}

#[test]
fn submission_becomes_a_form() {
    let submission = Submission {
        challenge: Challenges::C2332,
        filename: "main.rs".to_string(),
        language: Languages::Rust,
        test: true,
        code: Some("fn main() {}".to_string()),
        binary: Some(vec![0, 159, 255]),
    };
    let form = submission.to_formdata();
    let names: Vec<&str> = form.iter().map(|f| f.name.as_str()).collect();
    assert_eq!(names, vec!["challenge", "filename", "language", "test", "code", "binary"]);
    assert_eq!(text_of_field(&form[0].value), Some("2332"));
    assert_eq!(text_of_field(&form[1].value), Some("main.rs"));
    assert_eq!(text_of_field(&form[2].value), Some("Rust"));
    assert_eq!(text_of_field(&form[3].value), Some("true"));
    assert_eq!(text_of_field(&form[4].value), Some("fn main() {}"));
    match &form[5].value {
        FormValue::Blob(bytes) => assert_eq!(bytes, &vec![0, 159, 255]),
        FormValue::Text(_) => panic!("the binary is a blob"),
    }
}

#[test]
fn default_submission_has_the_four_fixed_fields() {
    let submission = Submission::default();
    assert_eq!(submission.filename, "");
    assert!(submission.code.is_none() && submission.binary.is_none());
    let form = submission.to_formdata();
    assert_eq!(form.len(), 4);
    assert_eq!(text_of_field(&form[0].value), Some("2331"));
    assert_eq!(text_of_field(&form[2].value), Some("Python"));
    assert_eq!(text_of_field(&form[3].value), Some("false"));
    let only_binary = Submission { binary: Some(Vec::new()), ..Submission::default() };
    let form = only_binary.to_formdata();
    assert_eq!(form.len(), 5);
    assert_eq!(form[4].name, "binary");
}

#[test]
fn submission_results_hold_their_fields() {
    let verdicts = vec![
        SubmissionResult::Success { score: 7, message: "ok".to_string() },
        SubmissionResult::Failure { message: "no".to_string() },
        SubmissionResult::NotAuthorized,
    ];
    match &verdicts[0] {
        SubmissionResult::Success { score, message } => {
            assert_eq!(*score, 7);
            assert_eq!(message, "ok");
        }
        _ => panic!("the first verdict is a success"),
    }
    assert!(matches!(&verdicts[1], SubmissionResult::Failure { message } if message == "no"));
    assert!(matches!(verdicts[2], SubmissionResult::NotAuthorized));
}
