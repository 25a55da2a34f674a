//! The wire format: a collection of scores is a JSON array of objects with
//! the members `name`, `language`, `time_ns` and `command`; the answer to a
//! session renewal is a JSON object with a member `status`.

use crate::json::{
    item_views, json_parsed, lemma_view_of_parts, member_value, member_views, number_member,
    number_of, parse_json, parsed_view, text_member, text_of, Json, JsonView, Member, MemberView,
};
use crate::score::{score_views, Score, ScoreView};
use vstd::prelude::*;
use vstd::string::StringExecFns;

verus! {

/// The members of a score on the wire.
#[derive(Clone, Copy, PartialEq, Eq, Structural, Debug)]
pub enum ScoreField {
    Name,
    Language,
    TimeNs,
    Command,
}

/// Why a document is not a collection of scores.
#[derive(Clone, Copy, PartialEq, Eq, Structural, Debug)]
pub enum ShapeError {
    /// The document is not an array.
    NotAnArray,
    /// The entry at this place is not an object.
    NotAnObject(usize),
    /// The entry at this place lacks the member, or holds it with a value of
    /// another type.
    BadField(usize, ScoreField),
}

impl ShapeError {
    /// The words shown for the error.
    pub open spec fn message_spec(self) -> Seq<char> {
        match self {
            ShapeError::NotAnArray => "scores: expected an array"@,
            ShapeError::NotAnObject(_) => "scores: expected an object"@,
            ShapeError::BadField(_, ScoreField::Name) => "scores: missing or invalid `name`"@,
            ShapeError::BadField(_, ScoreField::Language) => "scores: missing or invalid `language`"@,
            ShapeError::BadField(_, ScoreField::TimeNs) => "scores: missing or invalid `time_ns`"@,
            ShapeError::BadField(_, ScoreField::Command) => "scores: missing or invalid `command`"@,
        }
    }

    pub fn message(self) -> (text: String)
        ensures
            text@ == self.message_spec(),
    {
        match self {
            ShapeError::NotAnArray => String::from_str("scores: expected an array"),
            ShapeError::NotAnObject(_) => String::from_str("scores: expected an object"),
            ShapeError::BadField(_, ScoreField::Name) => String::from_str(
                "scores: missing or invalid `name`",
            ),
            ShapeError::BadField(_, ScoreField::Language) => String::from_str(
                "scores: missing or invalid `language`",
            ),
            ShapeError::BadField(_, ScoreField::TimeNs) => String::from_str(
                "scores: missing or invalid `time_ns`",
            ),
            ShapeError::BadField(_, ScoreField::Command) => String::from_str(
                "scores: missing or invalid `command`",
            ),
        }
    }
}

/// The score that an entry holds, or the first member that it lacks; `None`
/// as the error where the entry is not an object.
pub open spec fn decode_entry(entry: JsonView) -> Result<ScoreView, Option<ScoreField>> {
    match entry {
        JsonView::Object(members) => {
            let name = text_member(members, "name"@);
            let language = text_member(members, "language"@);
            let time_ns = number_member(members, "time_ns"@);
            let command = text_member(members, "command"@);
            if name is None {
                Err(Some(ScoreField::Name))
            } else if language is None {
                Err(Some(ScoreField::Language))
            } else if time_ns is None {
                Err(Some(ScoreField::TimeNs))
            } else if command is None {
                Err(Some(ScoreField::Command))
            } else {
                Ok(
                    ScoreView {
                        name: name.unwrap(),
                        language: language.unwrap(),
                        time_ns: time_ns.unwrap(),
                        command: command.unwrap(),
                    },
                )
            }
        },
        _ => Err(None),
    }
}

/// The error for an entry at a given place.
pub open spec fn entry_error(at: int, why: Option<ScoreField>) -> ShapeError {
    match why {
        Some(field) => ShapeError::BadField(at as usize, field),
        None => ShapeError::NotAnObject(at as usize),
    }
}

/// The scores that the entries hold, or the error of the first entry that
/// holds none.
pub open spec fn decode_entries(items: Seq<JsonView>) -> Result<Seq<ScoreView>, ShapeError>
    decreases items.len(),
{
    if items.len() == 0 {
        Ok(Seq::empty())
    } else {
        match decode_entries(items.drop_last()) {
            Err(error) => Err(error),
            Ok(scores) => match decode_entry(items.last()) {
                Ok(score) => Ok(scores.push(score)),
                Err(why) => Err(entry_error(items.len() - 1, why)),
            },
        }
    }
}

/// The collection that a document holds.
pub open spec fn decode_scores_spec(document: JsonView) -> Result<Seq<ScoreView>, ShapeError> {
    match document {
        JsonView::Array(items) => decode_entries(items),
        _ => Err(ShapeError::NotAnArray),
    }
}

/// A decoding with its scores as plain values.
pub open spec fn scores_view(decoded: Result<Vec<Score>, ShapeError>) -> Result<
    Seq<ScoreView>,
    ShapeError,
> {
    match decoded {
        Ok(scores) => Ok(score_views(scores@)),
        Err(error) => Err(error),
    }
}

/// Reads one entry of the array.
fn decode_one(entry: &Json) -> (decoded: Result<Score, Option<ScoreField>>)
    ensures
        match decoded {
            Ok(score) => decode_entry(entry@) == Ok::<ScoreView, Option<ScoreField>>(score@),
            Err(why) => decode_entry(entry@) == Err::<ScoreView, Option<ScoreField>>(why),
        },
{
    proof {
        lemma_view_of_parts(*entry);
    }
    match entry {
        Json::Object(members) => {
            let name = match text_of(members, "name") {
                Some(text) => text,
                None => { return Err(Some(ScoreField::Name)); },
            };
            let language = match text_of(members, "language") {
                Some(text) => text,
                None => { return Err(Some(ScoreField::Language)); },
            };
            let time_ns = match number_of(members, "time_ns") {
                Some(number) => number,
                None => { return Err(Some(ScoreField::TimeNs)); },
            };
            let command = match text_of(members, "command") {
                Some(text) => text,
                None => { return Err(Some(ScoreField::Command)); },
            };
            Ok(Score { name, language, time_ns, command })
        },
        _ => Err(None),
    }
}

/// Reads a collection of scores out of a document.
pub fn decode_scores(document: &Json) -> (decoded: Result<Vec<Score>, ShapeError>)
    ensures
        scores_view(decoded) == decode_scores_spec(document@),
{
    proof {
        lemma_view_of_parts(*document);
    }
    match document {
        Json::Array(items) => {
            let ghost views = item_views(items@);
            let mut scores: Vec<Score> = Vec::new();
            let mut i: usize = 0;
            assert(score_views(scores@) =~= Seq::empty());
            while i < items.len()
                invariant
                    i <= items.len(),
                    views == item_views(items@),
                    decode_scores_spec(document@) == decode_entries(views),
                    decode_entries(views.take(i as int)) == Ok::<Seq<ScoreView>, ShapeError>(
                        score_views(scores@),
                    ),
                decreases items.len() - i,
            {
                proof {
                    assert(views.take(i + 1).drop_last() =~= views.take(i as int));
                    assert(views.take(i + 1).last() == items@[i as int]@);
                }
                match decode_one(&items[i]) {
                    Ok(score) => {
                        proof {
                            assert(score_views(scores@.push(score)) =~= score_views(scores@).push(
                                score@,
                            ));
                        }
                        scores.push(score);
                    },
                    Err(why) => {
                        let error = match why {
                            Some(field) => ShapeError::BadField(i, field),
                            None => ShapeError::NotAnObject(i),
                        };
                        proof {
                            lemma_error_stays(views, i + 1, error);
                        }
                        return Err(error);
                    },
                }
                i += 1;
            }
            assert(views.take(i as int) =~= views);
            Ok(scores)
        },
        _ => Err(ShapeError::NotAnArray),
    }
}

/// An error found in the first entries is the error of the whole array.
proof fn lemma_error_stays(items: Seq<JsonView>, upto: int, error: ShapeError)
    requires
        0 <= upto <= items.len(),
        decode_entries(items.take(upto)) == Err::<Seq<ScoreView>, ShapeError>(error),
    ensures
        decode_entries(items) == Err::<Seq<ScoreView>, ShapeError>(error),
    decreases items.len() - upto,
{
    if upto < items.len() {
        assert(items.take(upto + 1).drop_last() =~= items.take(upto));
        lemma_error_stays(items, upto + 1, error);
    } else {
        assert(items.take(upto) =~= items);
    }
}

/// A member that holds a text.
pub open spec fn text_entry(key: Seq<char>, text: Seq<char>) -> MemberView {
    MemberView { key, value: JsonView::Text(text) }
}

/// A score as it is written on the wire: an object of the four members, in
/// this order.
pub open spec fn record_of(score: ScoreView) -> JsonView {
    JsonView::Object(
        seq![
            text_entry("name"@, score.name),
            text_entry("language"@, score.language),
            MemberView { key: "time_ns"@, value: JsonView::Number(Some(score.time_ns)) },
            text_entry("command"@, score.command),
        ],
    )
}

/// A collection as it is written on the wire: an array with one record for
/// each score, in order.
pub open spec fn wire_form_of(scores: Seq<ScoreView>) -> JsonView {
    JsonView::Array(scores.map_values(|s: ScoreView| record_of(s)))
}

/// Writes one score as an object.
pub fn encode_score(score: &Score) -> (entry: Json)
    ensures
        entry@ == record_of(score@),
{
    let mut members: Vec<Member> = Vec::new();
    members.push(Member { key: String::from_str("name"), value: Json::Text(score.name.clone()) });
    members.push(
        Member { key: String::from_str("language"), value: Json::Text(score.language.clone()) },
    );
    members.push(
        Member { key: String::from_str("time_ns"), value: Json::Number(Some(score.time_ns)) },
    );
    members.push(
        Member { key: String::from_str("command"), value: Json::Text(score.command.clone()) },
    );
    let entry = Json::Object(members);
    proof {
        lemma_view_of_parts(entry);
        assert(member_views(members@) =~= record_of(score@)->Object_0);
    }
    entry
}

/// Writes a collection of scores as a document.
pub fn encode_scores(scores: &Vec<Score>) -> (document: Json)
    ensures
        document@ == wire_form_of(score_views(scores@)),
{
    let mut items: Vec<Json> = Vec::new();
    let mut i: usize = 0;
    while i < scores.len()
        invariant
            i <= scores.len(),
            items.len() == i,
            forall|k: int| 0 <= k < i ==> (#[trigger] items@[k])@ == record_of(scores@[k]@),
        decreases scores.len() - i,
    {
        items.push(encode_score(&scores[i]));
        i += 1;
    }
    let document = Json::Array(items);
    proof {
        lemma_view_of_parts(document);
        assert(item_views(items@) =~= wire_form_of(score_views(scores@))->Array_0);
    }
    document
}

/// A record decodes to the score that it was written from.
pub proof fn lemma_record_round_trip(score: ScoreView)
    ensures
        decode_entry(record_of(score)) == Ok::<ScoreView, Option<ScoreField>>(score),
{
    reveal_strlit("name");
    reveal_strlit("language");
    reveal_strlit("time_ns");
    reveal_strlit("command");
    let members = record_of(score)->Object_0;
    assert("name"@ != "language"@ && "name"@ != "time_ns"@ && "name"@ != "command"@) by {
        assert("name"@.len() == 4);
        assert("command"@[0] == 'c');
    }
    assert("language"@ != "time_ns"@ && "language"@ != "command"@) by {
        assert("language"@.len() == 8);
    }
    assert("time_ns"@ != "command"@) by {
        assert("time_ns"@[0] == 't' && "command"@[0] == 'c');
    }
    reveal_with_fuel(member_value, 5);
    assert(members.skip(1)[0] == members[1]);
    assert(members.skip(1).skip(1)[0] == members[2]);
    assert(members.skip(1).skip(1).skip(1)[0] == members[3]);
}

/// Writing a collection and reading it back yields the collection, field for
/// field.
pub proof fn lemma_wire_round_trip(scores: Seq<ScoreView>)
    ensures
        decode_scores_spec(wire_form_of(scores)) == Ok::<Seq<ScoreView>, ShapeError>(scores),
    decreases scores.len(),
{
    let records = scores.map_values(|s: ScoreView| record_of(s));
    if scores.len() == 0 {
        assert(scores =~= Seq::empty());
    } else {
        let fewer = scores.drop_last();
        lemma_wire_round_trip(fewer);
        lemma_record_round_trip(scores.last());
        assert(records.drop_last() =~= fewer.map_values(|s: ScoreView| record_of(s)));
        assert(scores =~= fewer.push(scores.last()));
    }
}

/// A decoding with its payload as plain values.
pub open spec fn decoded_view(decoded: Result<Vec<Score>, String>) -> Result<
    Seq<ScoreView>,
    Seq<char>,
> {
    match decoded {
        Ok(scores) => Ok(score_views(scores@)),
        Err(message) => Err(message@),
    }
}

/// What a parsed text yields: the parser's message where it rejected the
/// text, the shape error's message where the document is no collection of
/// scores, else the scores.
pub open spec fn scores_of_parsed(parsed: Result<JsonView, Seq<char>>) -> Result<
    Seq<ScoreView>,
    Seq<char>,
> {
    match parsed {
        Err(message) => Err(message),
        Ok(document) => match decode_scores_spec(document) {
            Ok(scores) => Ok(scores),
            Err(error) => Err(error.message_spec()),
        },
    }
}

/// Reads the scores out of what the parser returned.
pub fn scores_from_parsed(parsed: Result<Json, String>) -> (decoded: Result<Vec<Score>, String>)
    ensures
        decoded_view(decoded) == scores_of_parsed(parsed_view(parsed)),
{
    match parsed {
        Err(message) => Err(message),
        Ok(document) => match decode_scores(&document) {
            Ok(scores) => Ok(scores),
            Err(error) => Err(error.message()),
        },
    }
}

/// Reads the scores out of the body of a response.
pub fn scores_from_text(text: &str) -> (decoded: Result<Vec<Score>, String>)
    ensures
        decoded_view(decoded) == scores_of_parsed(json_parsed(text@)),
{
    scores_from_parsed(parse_json(text))
}

/// The answer of the server to a session renewal.
#[derive(Debug)]
pub struct RefreshResponse {
    pub status: String,
}

/// The status that a document reports, where it is an object with a text
/// under `status`.
pub open spec fn refresh_status_spec(document: JsonView) -> Option<Seq<char>> {
    match document {
        JsonView::Object(members) => text_member(members, "status"@),
        _ => None,
    }
}

/// What a parsed text yields as the answer to a renewal.
pub open spec fn refresh_of_parsed(parsed: Result<JsonView, Seq<char>>) -> Result<
    Seq<char>,
    Seq<char>,
> {
    match parsed {
        Err(message) => Err(message),
        Ok(document) => match refresh_status_spec(document) {
            Some(status) => Ok(status),
            None => Err("refresh: missing or invalid `status`"@),
        },
    }
}

/// An answer to a renewal, or the failure in its place, as plain values.
pub open spec fn refresh_view(answer: Result<RefreshResponse, String>) -> Result<
    Seq<char>,
    Seq<char>,
> {
    match answer {
        Ok(response) => Ok(response.status@),
        Err(message) => Err(message@),
    }
}

/// Reads the answer to a renewal out of what the parser returned.
pub fn refresh_from_parsed(parsed: Result<Json, String>) -> (answer: Result<
    RefreshResponse,
    String,
>)
    ensures
        refresh_view(answer) == refresh_of_parsed(parsed_view(parsed)),
{
    proof {
        if parsed is Ok {
            lemma_view_of_parts(parsed->Ok_0);
        }
    }
    match parsed {
        Err(message) => Err(message),
        Ok(Json::Object(members)) => match text_of(&members, "status") {
            Some(status) => Ok(RefreshResponse { status }),
            None => Err(String::from_str("refresh: missing or invalid `status`")),
        },
        Ok(_) => Err(String::from_str("refresh: missing or invalid `status`")),
    }
}

/// Reads the answer to a renewal out of the body of a response.
pub fn refresh_from_text(text: &str) -> (answer: Result<RefreshResponse, String>)
    ensures
        refresh_view(answer) == refresh_of_parsed(json_parsed(text@)),
{
    refresh_from_parsed(parse_json(text))
}

/// The renewal went through: the answer came and its status is `success`.
pub open spec fn renewed_spec(answer: Result<Seq<char>, Seq<char>>) -> bool {
    answer == Ok::<Seq<char>, Seq<char>>("success"@)
}

/// Tells whether the renewal went through.
pub fn renewed(answer: &Result<RefreshResponse, String>) -> (yes: bool)
    ensures
        yes == renewed_spec(refresh_view(*answer)),
{
    match answer {
        Ok(response) => response.status == String::from_str("success"),
        Err(_) => false,
    }
}

} // verus!
