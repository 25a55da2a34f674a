//! A player's submission and the form that carries it to the server.

use crate::challenge::{Challenges, Languages};
use vstd::prelude::*;
use vstd::string::StringExecFns;

verus! {

/// What a player hands in.
#[derive(Debug)]
pub struct Submission {
    pub challenge: Challenges,
    pub filename: String,
    pub language: Languages,
    pub test: bool,
    pub code: Option<String>,
    pub binary: Option<Vec<u8>>,
}

/// The server's verdict on a submission.
#[derive(Debug)]
pub enum SubmissionResult {
    Success { score: u32, message: String },
    Failure { message: String },
    NotAuthorized,
}

/// The value of one field of a form.
#[derive(Debug)]
pub enum FormValue {
    Text(String),
    Blob(Vec<u8>),
}

/// One field of a form.
#[derive(Debug)]
pub struct FormField {
    pub name: String,
    pub value: FormValue,
}

/// The value of a field, as plain values.
pub enum FormValueView {
    Text(Seq<char>),
    Blob(Seq<u8>),
}

/// A field, as plain values.
pub struct FormFieldView {
    pub name: Seq<char>,
    pub value: FormValueView,
}

impl View for FormField {
    type V = FormFieldView;

    open spec fn view(&self) -> FormFieldView {
        FormFieldView {
            name: self.name@,
            value: match self.value {
                FormValue::Text(text) => FormValueView::Text(text@),
                FormValue::Blob(bytes) => FormValueView::Blob(bytes@),
            },
        }
    }
}

/// The fields of a form, as plain values.
pub open spec fn field_views(fields: Seq<FormField>) -> Seq<FormFieldView> {
    fields.map_values(|f: FormField| f@)
}

/// A field that holds a text.
pub open spec fn text_field(name: Seq<char>, text: Seq<char>) -> FormFieldView {
    FormFieldView { name, value: FormValueView::Text(text) }
}

/// The word for a flag.
pub open spec fn flag_text(flag: bool) -> Seq<char> {
    if flag {
        "true"@
    } else {
        "false"@
    }
}

impl Submission {
    /// The fields of the form, in order: `challenge`, `filename`, `language`
    /// and `test`, then `code` and `binary` where the submission has them.
    pub open spec fn form_spec(self) -> Seq<FormFieldView> {
        let fixed = seq![
            text_field("challenge"@, self.challenge.label_spec()),
            text_field("filename"@, self.filename@),
            text_field("language"@, self.language.label_spec()),
            text_field("test"@, flag_text(self.test)),
        ];
        let code = match self.code {
            Some(code) => seq![text_field("code"@, code@)],
            None => Seq::empty(),
        };
        let binary = match self.binary {
            Some(bytes) => seq![
                FormFieldView { name: "binary"@, value: FormValueView::Blob(bytes@) },
            ],
            None => Seq::empty(),
        };
        fixed + code + binary
    }

    /// Lays the submission out as the fields of a form.
    pub fn to_formdata(&self) -> (fields: Vec<FormField>)
        ensures
            field_views(fields@) == self.form_spec(),
    {
        let mut fields: Vec<FormField> = Vec::new();
        fields.push(
            FormField {
                name: String::from_str("challenge"),
                value: FormValue::Text(self.challenge.label()),
            },
        );
        fields.push(
            FormField {
                name: String::from_str("filename"),
                value: FormValue::Text(self.filename.clone()),
            },
        );
        fields.push(
            FormField {
                name: String::from_str("language"),
                value: FormValue::Text(self.language.label()),
            },
        );
        let flag = if self.test {
            String::from_str("true")
        } else {
            String::from_str("false")
        };
        fields.push(FormField { name: String::from_str("test"), value: FormValue::Text(flag) });
        if let Some(code) = &self.code {
            fields.push(
                FormField { name: String::from_str("code"), value: FormValue::Text(code.clone()) },
            );
        }
        if let Some(bytes) = &self.binary {
            fields.push(
                FormField { name: String::from_str("binary"), value: FormValue::Blob(bytes.clone()) },
            );
        }
        assert(field_views(fields@) =~= self.form_spec());
        fields
    }
}

impl Default for Submission {
    fn default() -> (submission: Self)
        ensures
            submission.challenge == Challenges::C2331,
            submission.filename@ == Seq::<char>::empty(),
            submission.language == Languages::Python,
            !submission.test,
            submission.code is None,
            submission.binary is None,
    {
        Submission {
            challenge: Challenges::C2331,
            filename: String::new(),
            language: Languages::Python,
            test: false,
            code: None,
            binary: None,
        }
    }
}

} // verus!
