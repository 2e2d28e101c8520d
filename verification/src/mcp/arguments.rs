//! The arguments of a tool call, checked against the tool's schema.

use vstd::prelude::*;

use crate::json::{array_holds_items, array_view, lookup, lookup_put, put, Fields, JsonView};
use crate::json::{Json, JsonNumber, JsonObject};
use crate::mcp::schema::ToolKind;
use crate::mcp::schema::{field_order, names_view};
use crate::strings::{char_vec, decimal_text, same_text};
use crate::strings::{decimal, trimmed};

verus! {

/// What kind of refusal a tool call met.
#[derive(Clone, Copy, Debug, PartialEq, Eq, Structural)]
pub enum CatalogErrorKind {
    UnknownTool,
    InvalidArguments,
    LimitExceeded,
}

/// Why a tool call was refused.
#[derive(Debug)]
pub struct CatalogError {
    kind: CatalogErrorKind,
    message: String,
}

/// The content of a [`CatalogError`].
pub struct CatalogErrorView {
    pub kind: CatalogErrorKind,
    pub message: Seq<char>,
}

impl View for CatalogError {
    type V = CatalogErrorView;

    closed spec fn view(&self) -> CatalogErrorView {
        CatalogErrorView { kind: self.kind, message: self.message@ }
    }
}

/// The general message of a kind of refusal.
pub open spec fn general_message(kind: CatalogErrorKind) -> Seq<char> {
    match kind {
        CatalogErrorKind::UnknownTool => "unknown tool"@,
        CatalogErrorKind::InvalidArguments => "tool arguments are invalid"@,
        CatalogErrorKind::LimitExceeded => "tool arguments exceed a configured limit"@,
    }
}

/// Arguments that are refused with this message.
pub open spec fn invalid(message: Seq<char>) -> CatalogErrorView {
    CatalogErrorView { kind: CatalogErrorKind::InvalidArguments, message }
}

impl CatalogError {
    /// A refusal with the general message of its kind.
    pub fn new(kind: CatalogErrorKind) -> (res: Self)
        ensures
            res@ == (CatalogErrorView { kind, message: general_message(kind) }),
    {
        let message: &'static str = match kind {
            CatalogErrorKind::UnknownTool => "unknown tool",
            CatalogErrorKind::InvalidArguments => "tool arguments are invalid",
            CatalogErrorKind::LimitExceeded => "tool arguments exceed a configured limit",
        };
        Self { kind, message: message.to_owned() }
    }

    /// A refusal with a message of its own.
    pub fn with_message(kind: CatalogErrorKind, message: String) -> (res: Self)
        ensures
            res@ == (CatalogErrorView { kind, message: message@ }),
    {
        Self { kind, message }
    }

    pub fn kind(&self) -> (res: CatalogErrorKind)
        ensures
            res == self@.kind,
    {
        self.kind
    }

    /// The text that the refusal is shown as.
    pub fn message(&self) -> (res: &str)
        ensures
            res@ == self@.message,
    {
        self.message.as_str()
    }
}

/// The text of a field, if it holds one.
pub open spec fn text_in(fields: Fields, name: Seq<char>) -> Option<Seq<char>> {
    match lookup(fields, name) {
        Some(JsonView::Text(text)) => Some(text),
        _ => None,
    }
}

/// The whole number in a field, if it holds one of at least zero.
pub open spec fn whole_in(fields: Fields, name: Seq<char>) -> Option<u64> {
    match lookup(fields, name) {
        Some(JsonView::Number(JsonNumber::Unsigned(n))) => Some(n),
        _ => None,
    }
}

/// The value that a field has where a call does not give it.
pub open spec fn default_of(schema: Fields) -> JsonView {
    match lookup(schema, "default"@) {
        Some(value) => value,
        None => if text_in(schema, "type"@) == Some("string"@) {
            JsonView::Text(Seq::empty())
        } else {
            JsonView::Bool(false)
        },
    }
}

/// The message for a required field that is missing or blank.
pub open spec fn empty_required_message(kind: ToolKind, field: Seq<char>) -> Seq<char> {
    if kind == ToolKind::Ask && field == "question"@ {
        "Ошибка: Вопрос не может быть пустым"@
    } else if kind == ToolKind::Explain && field == "syntax_element"@ {
        "Ошибка: Элемент синтаксиса не может быть пустым"@
    } else if kind == ToolKind::Check && field == "code"@ {
        "Ошибка: Код для проверки не может быть пустым"@
    } else if kind == ToolKind::Modify && field == "instruction"@ {
        "Ошибка: instruction не может быть пустым"@
    } else if (kind == ToolKind::SearchDocumentation || kind == ToolKind::SearchIts) && field
        == "query"@ {
        "Ошибка: query не может быть пустым"@
    } else if kind == ToolKind::DiffDocumentation && (field == "version_a"@ || field
        == "version_b"@) {
        "Ошибка: version_a и version_b обязательны"@
    } else {
        "Ошибка: "@ + field + " не может быть пустым"@
    }
}

/// The message for a field that holds a value of another type.
pub open spec fn type_message(field: Seq<char>, schema: Fields) -> Seq<char> {
    if text_in(schema, "type"@) == Some("boolean"@) {
        "Ошибка: "@ + field + " должно быть логическим значением (true или false)"@
    } else {
        "Ошибка: "@ + field + " должно быть строкой"@
    }
}

/// The texts among the choices, each in quotes, with commas between them.
pub open spec fn quoted_choices(choices: Seq<JsonView>) -> Seq<char>
    decreases choices.len(),
{
    if choices.len() == 0 {
        Seq::empty()
    } else {
        let earlier = quoted_choices(choices.drop_last());
        match choices.last() {
            JsonView::Text(text) => if earlier.len() == 0 {
                "'"@ + text + "'"@
            } else {
                earlier + ", "@ + "'"@ + text + "'"@
            },
            _ => earlier,
        }
    }
}

/// The text is among the choices.
pub open spec fn is_choice(choices: Seq<JsonView>, text: Seq<char>) -> bool {
    exists|i: int| 0 <= i < choices.len() && #[trigger] choices[i] == JsonView::Text(text)
}

/// A length as far as a machine integer can hold it.
pub open spec fn machine_length(n: u64) -> nat {
    if n <= usize::MAX {
        n as nat
    } else {
        usize::MAX as nat
    }
}

/// A text that a field is to take, checked against the field's schema.
pub open spec fn checked_text(field: Seq<char>, schema: Fields, text: Seq<char>) -> Result<
    JsonView,
    CatalogErrorView,
> {
    let min = whole_in(schema, "minLength"@);
    let max = whole_in(schema, "maxLength"@);
    match lookup(schema, "enum"@) {
        Some(JsonView::Array(choices)) if !is_choice(choices, text) => Err(
            invalid(
                "Ошибка: "@ + field + " должно быть одним из: "@ + quoted_choices(choices),
            ),
        ),
        _ => if text.len() > 0 && min is Some && text.len() < machine_length(min->0) {
            Err(
                invalid(
                    "Ошибка: "@ + field + " короче минимальной длины "@ + decimal(min->0 as nat),
                ),
            )
        } else if text.len() > 0 && max is Some && text.len() > machine_length(max->0) {
            Err(
                CatalogErrorView {
                    kind: CatalogErrorKind::LimitExceeded,
                    message: "Ошибка: "@ + field + " длиннее максимальной длины "@ + decimal(
                        max->0 as nat,
                    ),
                },
            )
        } else {
            Ok(JsonView::Text(text))
        },
    }
}

/// The value that a field takes when a call gives it `raw`.
pub open spec fn field_value(
    kind: ToolKind,
    field: Seq<char>,
    schema: Fields,
    required: bool,
    raw: Option<JsonView>,
) -> Result<JsonView, CatalogErrorView> {
    match raw {
        None => if required {
            Err(invalid(empty_required_message(kind, field)))
        } else {
            Ok(default_of(schema))
        },
        Some(JsonView::Null) => if required {
            Err(invalid(empty_required_message(kind, field)))
        } else {
            Err(invalid(type_message(field, schema)))
        },
        Some(value) => if text_in(schema, "type"@) == Some("boolean"@) {
            match value {
                JsonView::Bool(_) => Ok(value),
                _ => Err(invalid(type_message(field, schema))),
            }
        } else {
            match value {
                JsonView::Text(text) => if trimmed(text).len() > 0 {
                    checked_text(field, schema, trimmed(text))
                } else if required {
                    Err(invalid(empty_required_message(kind, field)))
                } else {
                    checked_text(
                        field,
                        schema,
                        match default_of(schema) {
                            JsonView::Text(default) => default,
                            _ => Seq::empty(),
                        },
                    )
                },
                _ => Err(invalid(type_message(field, schema))),
            }
        },
    }
}

/// The field is named in a list of required fields.
pub open spec fn is_required(required: Seq<JsonView>, field: Seq<char>) -> bool {
    is_choice(required, field)
}

/// The first fields of a call's arguments, each with the value that it takes.
pub open spec fn taken_fields(
    kind: ToolKind,
    names: Seq<Seq<char>>,
    properties: Fields,
    required: Seq<JsonView>,
    arguments: Fields,
) -> Result<Fields, CatalogErrorView>
    decreases names.len(),
{
    if names.len() == 0 {
        Ok(Fields::empty())
    } else {
        match taken_fields(kind, names.drop_last(), properties, required, arguments) {
            Err(error) => Err(error),
            Ok(earlier) => match lookup(properties, names.last()) {
                Some(JsonView::Object(schema)) => match field_value(
                    kind,
                    names.last(),
                    schema,
                    is_required(required, names.last()),
                    lookup(arguments, names.last()),
                ) {
                    Err(error) => Err(error),
                    Ok(value) => Ok(put(earlier, names.last(), value)),
                },
                _ => Err(invalid(general_message(CatalogErrorKind::InvalidArguments))),
            },
        }
    }
}

/// The arguments of a call as the tool takes them: every field of the tool and no other.
pub open spec fn taken_arguments(kind: ToolKind, input_schema: Fields, arguments: Fields) -> Result<
    Fields,
    CatalogErrorView,
> {
    match (lookup(input_schema, "properties"@), lookup(input_schema, "required"@)) {
        (Some(JsonView::Object(properties)), Some(JsonView::Array(required))) => taken_fields(
            kind,
            field_order(kind),
            properties,
            required,
            arguments,
        ),
        _ => Err(invalid(general_message(CatalogErrorKind::InvalidArguments))),
    }
}

/// Every field of the tool has a value.
pub open spec fn has_fields(names: Seq<Seq<char>>, arguments: Fields) -> bool {
    forall|i: int|
        0 <= i < names.len() ==> lookup(arguments, #[trigger] names[i]) is Some
}

/// Arguments that a tool takes hold every one of its fields.
pub proof fn taken_fields_are_complete(
    kind: ToolKind,
    names: Seq<Seq<char>>,
    properties: Fields,
    required: Seq<JsonView>,
    arguments: Fields,
)
    ensures
        taken_fields(kind, names, properties, required, arguments) matches Ok(taken)
            ==> has_fields(names, taken),
    decreases names.len(),
{
    if names.len() > 0 {
        let init = names.drop_last();
        taken_fields_are_complete(kind, init, properties, required, arguments);
        if let Ok(taken) = taken_fields(kind, names, properties, required, arguments) {
            let earlier = taken_fields(kind, init, properties, required, arguments)->Ok_0;
            assert forall|i: int| 0 <= i < names.len() implies lookup(
                taken,
                #[trigger] names[i],
            ) is Some by {
                let schema = lookup(properties, names.last())->0->Object_0;
                let put_value = field_value(
                    kind,
                    names.last(),
                    schema,
                    is_required(required, names.last()),
                    lookup(arguments, names.last()),
                )->Ok_0;
                lookup_put(earlier, names.last(), put_value, names[i]);
                if i < init.len() {
                    assert(init[i] == names[i]);
                }
            }
        }
    }
}

/// A field that the tool does not know leaves no trace.
pub proof fn unknown_fields_are_ignored(
    kind: ToolKind,
    names: Seq<Seq<char>>,
    properties: Fields,
    required: Seq<JsonView>,
    arguments: Fields,
    other: Fields,
)
    requires
        forall|i: int|
            0 <= i < names.len() ==> lookup(arguments, #[trigger] names[i]) == lookup(
                other,
                names[i],
            ),
    ensures
        taken_fields(kind, names, properties, required, arguments) == taken_fields(
            kind,
            names,
            properties,
            required,
            other,
        ),
    decreases names.len(),
{
    if names.len() > 0 {
        assert forall|i: int| 0 <= i < names.drop_last().len() implies lookup(
            arguments,
            #[trigger] names.drop_last()[i],
        ) == lookup(other, names.drop_last()[i]) by {
            assert(names.drop_last()[i] == names[i]);
        }
        assert(names.last() == names[names.len() - 1]);
        unknown_fields_are_ignored(
            kind,
            names.drop_last(),
            properties,
            required,
            arguments,
            other,
        );
    }
}

/// The value is of the type that a schema asks for, among its choices and, unless it is
/// empty, of a length that it allows.
pub open spec fn obeys_schema(schema: Fields, value: JsonView) -> bool {
    if text_in(schema, "type"@) == Some("boolean"@) {
        value is Bool
    } else {
        value matches JsonView::Text(text) && {
            &&& lookup(schema, "enum"@) matches Some(JsonView::Array(choices)) ==> is_choice(
                choices,
                text,
            )
            &&& text.len() > 0 ==> (whole_in(schema, "minLength"@) matches Some(min)
                ==> machine_length(min) <= text.len())
            &&& text.len() > 0 ==> (whole_in(schema, "maxLength"@) matches Some(max)
                ==> text.len() <= machine_length(max))
        }
    }
}

/// The value is a text that is not blank, or of the type that a boolean field takes.
pub open spec fn is_substantial(schema: Fields, value: JsonView) -> bool {
    if text_in(schema, "type"@) == Some("boolean"@) {
        value is Bool
    } else {
        value matches JsonView::Text(text) && trimmed(text).len() > 0
    }
}

/// Each field of the arguments that a tool takes has the value that its schema gives it.
/// A value that the call gives obeys the schema, and a required field is never missing
/// or blank.
pub proof fn taken_values_obey_their_schemas(
    kind: ToolKind,
    names: Seq<Seq<char>>,
    properties: Fields,
    required: Seq<JsonView>,
    arguments: Fields,
    at: int,
)
    requires
        names.no_duplicates(),
        0 <= at < names.len(),
        taken_fields(kind, names, properties, required, arguments) is Ok,
    ensures
        lookup(properties, names[at]) matches Some(JsonView::Object(schema)) && {
            let given = lookup(arguments, names[at]);
            let needed = is_required(required, names[at]);
            let taken = taken_fields(kind, names, properties, required, arguments)->Ok_0;
            &&& lookup(taken, names[at]) is Some
            &&& field_value(kind, names[at], schema, needed, given) == Ok::<_, CatalogErrorView>(
                lookup(taken, names[at])->0,
            )
            &&& given is Some ==> obeys_schema(schema, lookup(taken, names[at])->0)
            &&& needed ==> given is Some && is_substantial(schema, given->0)
        },
    decreases names.len(),
{
    let init = names.drop_last();
    let last = names.last();
    let earlier = taken_fields(kind, init, properties, required, arguments)->Ok_0;
    let schema = lookup(properties, last)->0->Object_0;
    let value = field_value(
        kind,
        last,
        schema,
        is_required(required, last),
        lookup(arguments, last),
    )->Ok_0;
    lookup_put(earlier, last, value, names[at]);
    if at < names.len() - 1 {
        assert(init[at] == names[at]);
        assert(names[at] != names[names.len() - 1]);
        assert forall|i: int, j: int|
            0 <= i < init.len() && 0 <= j < init.len() && i != j implies init[i] != init[j] by {
            assert(names[i] != names[j]);
        }
        taken_values_obey_their_schemas(kind, init, properties, required, arguments, at);
    }
}

fn invalid_with(message: String) -> (res: CatalogError)
    ensures
        res@ == invalid(message@),
{
    CatalogError::with_message(CatalogErrorKind::InvalidArguments, message)
}

fn field_message(field: &str, tail: &str) -> (res: String)
    ensures
        res@ == "Ошибка: "@ + field@ + tail@,
{
    let mut text: String = "Ошибка: ".to_owned();
    text.append(field);
    text.append(tail);
    text
}

fn empty_required_error(kind: ToolKind, field: &str) -> (res: CatalogError)
    ensures
        res@ == invalid(empty_required_message(kind, field@)),
{
    let message: String = if kind == ToolKind::Ask && same_text(field, "question") {
        "Ошибка: Вопрос не может быть пустым".to_owned()
    } else if kind == ToolKind::Explain && same_text(field, "syntax_element") {
        "Ошибка: Элемент синтаксиса не может быть пустым".to_owned()
    } else if kind == ToolKind::Check && same_text(field, "code") {
        "Ошибка: Код для проверки не может быть пустым".to_owned()
    } else if kind == ToolKind::Modify && same_text(field, "instruction") {
        "Ошибка: instruction не может быть пустым".to_owned()
    } else if (kind == ToolKind::SearchDocumentation || kind == ToolKind::SearchIts) && same_text(
        field,
        "query",
    ) {
        "Ошибка: query не может быть пустым".to_owned()
    } else if kind == ToolKind::DiffDocumentation && (same_text(field, "version_a") || same_text(
        field,
        "version_b",
    )) {
        "Ошибка: version_a и version_b обязательны".to_owned()
    } else {
        field_message(field, " не может быть пустым")
    };
    invalid_with(message)
}

fn is_boolean(schema: &JsonObject) -> (res: bool)
    ensures
        res == (text_in(schema@, "type"@) == Some("boolean"@)),
{
    match schema.get("type") {
        Some(Json::Text(text)) => same_text(text.as_str(), "boolean"),
        _ => false,
    }
}

fn type_error(field: &str, schema: &JsonObject) -> (res: CatalogError)
    ensures
        res@ == invalid(type_message(field@, schema@)),
{
    if is_boolean(schema) {
        invalid_with(field_message(field, " должно быть логическим значением (true или false)"))
    } else {
        invalid_with(field_message(field, " должно быть строкой"))
    }
}

fn default_for(schema: &JsonObject) -> (res: Json)
    ensures
        res@ == default_of(schema@),
{
    match schema.get("default") {
        Some(value) => value.duplicate(),
        None => match schema.get("type") {
            Some(Json::Text(text)) => if same_text(text.as_str(), "string") {
                Json::Text(String::new())
            } else {
                Json::Bool(false)
            },
            _ => Json::Bool(false),
        },
    }
}

/// The text is among the choices.
fn choice_among(choices: &Vec<Json>, text: &str) -> (res: bool)
    ensures
        res == is_choice(array_view(choices@), text@),
{
    let ghost views: Seq<JsonView> = array_view(choices@);
    let mut i: usize = 0;
    while i < choices.len()
        invariant
            i <= choices@.len(),
            views == array_view(choices@),
            forall|k: int| 0 <= k < i ==> #[trigger] views[k] != JsonView::Text(text@),
        decreases choices@.len() - i,
    {
        assert(views[i as int] == choices@[i as int]@);
        match &choices[i] {
            Json::Text(choice) => {
                if same_text(choice.as_str(), text) {
                    return true;
                }
            },
            _ => {},
        }
        i += 1;
    }
    false
}

fn quote_choices(choices: &Vec<Json>) -> (res: String)
    ensures
        res@ == quoted_choices(array_view(choices@)),
{
    let ghost views: Seq<JsonView> = array_view(choices@);
    let mut out: String = String::new();
    let mut i: usize = 0;
    while i < choices.len()
        invariant
            i <= choices@.len(),
            views == array_view(choices@),
            out@ == quoted_choices(views.take(i as int)),
        decreases choices@.len() - i,
    {
        assert(views.take(i + 1).drop_last() =~= views.take(i as int));
        match &choices[i] {
            Json::Text(choice) => {
                if out.as_str().is_empty() {
                    out = "'".to_owned();
                } else {
                    out.append(", ");
                    out.append("'");
                }
                out.append(choice.as_str());
                out.append("'");
            },
            _ => {},
        }
        i += 1;
    }
    assert(views.take(views.len() as int) =~= views);
    out
}

fn whole_field(schema: &JsonObject, name: &'static str) -> (res: Option<u64>)
    ensures
        res == whole_in(schema@, name@),
{
    match schema.get(name) {
        Some(Json::Number(JsonNumber::Unsigned(n))) => Some(*n),
        _ => None,
    }
}

fn as_machine_length(n: u64) -> (res: usize)
    ensures
        res == machine_length(n),
{
    if n <= usize::MAX as u64 {
        n as usize
    } else {
        usize::MAX
    }
}

fn check_text(field: &str, schema: &JsonObject, text: String) -> (res: Result<Json, CatalogError>)
    ensures
        match res {
            Ok(value) => checked_text(field@, schema@, text@) == Ok::<_, CatalogErrorView>(value@),
            Err(error) => checked_text(field@, schema@, text@) == Err::<JsonView, _>(error@),
        },
{
    match schema.get("enum") {
        Some(Json::Array(choices)) => {
            proof {
                array_holds_items(*choices);
            }
            if !choice_among(choices, text.as_str()) {
                let mut message: String = field_message(field, " должно быть одним из: ");
                message.append(quote_choices(choices).as_str());
                return Err(invalid_with(message));
            }
        },
        _ => {},
    }
    let length: usize = char_vec(text.as_str()).len();
    if length > 0 {
        match whole_field(schema, "minLength") {
            Some(min_length) => {
                if length < as_machine_length(min_length) {
                    let mut message: String = field_message(field, " короче минимальной длины ");
                    message.append(decimal_text(min_length).as_str());
                    return Err(invalid_with(message));
                }
            },
            None => {},
        }
        match whole_field(schema, "maxLength") {
            Some(max_length) => {
                if length > as_machine_length(max_length) {
                    let mut message: String = field_message(field, " длиннее максимальной длины ");
                    message.append(decimal_text(max_length).as_str());
                    return Err(
                        CatalogError::with_message(CatalogErrorKind::LimitExceeded, message),
                    );
                }
            },
            None => {},
        }
    }
    Ok(Json::Text(text))
}

fn take_field(
    kind: ToolKind,
    field: &str,
    schema: &JsonObject,
    required: bool,
    raw: Option<&Json>,
) -> (res: Result<Json, CatalogError>)
    ensures
        ({
            let given = match raw {
                Some(json) => Some(json@),
                None => None,
            };
            let owed = field_value(kind, field@, schema@, required, given);
            match res {
                Ok(value) => owed == Ok::<_, CatalogErrorView>(value@),
                Err(error) => owed == Err::<JsonView, _>(error@),
            }
        }),
{
    match raw {
        None => if required {
            Err(empty_required_error(kind, field))
        } else {
            Ok(default_for(schema))
        },
        Some(Json::Null) => if required {
            Err(empty_required_error(kind, field))
        } else {
            Err(type_error(field, schema))
        },
        Some(value) => {
            if is_boolean(schema) {
                return match value {
                    Json::Bool(flag) => Ok(Json::Bool(*flag)),
                    _ => Err(type_error(field, schema)),
                };
            }
            match value {
                Json::Text(text) => {
                    let stripped: &str = text.as_str().trim();
                    if !stripped.is_empty() {
                        check_text(field, schema, stripped.to_owned())
                    } else if required {
                        Err(empty_required_error(kind, field))
                    } else {
                        let default: String = match default_for(schema) {
                            Json::Text(default) => default,
                            _ => String::new(),
                        };
                        check_text(field, schema, default)
                    }
                },
                _ => Err(type_error(field, schema)),
            }
        },
    }
}

/// An error among the first fields is an error of the whole call.
proof fn first_field_error_stands(
    kind: ToolKind,
    names: Seq<Seq<char>>,
    properties: Fields,
    required: Seq<JsonView>,
    arguments: Fields,
    count: int,
)
    requires
        0 <= count <= names.len(),
        taken_fields(kind, names.take(count), properties, required, arguments) is Err,
    ensures
        taken_fields(kind, names, properties, required, arguments) == taken_fields(
            kind,
            names.take(count),
            properties,
            required,
            arguments,
        ),
    decreases names.len(),
{
    if count == names.len() {
        assert(names.take(count) =~= names);
    } else {
        assert(names.drop_last().take(count) =~= names.take(count));
        first_field_error_stands(kind, names.drop_last(), properties, required, arguments, count);
    }
}

/// Checks the arguments of a call against a schema and completes them by its defaults.
pub fn normalize_arguments(kind: ToolKind, input_schema: &JsonObject, arguments: &JsonObject) -> (res:
    Result<JsonObject, CatalogError>)
    ensures
        match res {
            Ok(taken) => taken_arguments(kind, input_schema@, arguments@) == Ok::<
                _,
                CatalogErrorView,
            >(taken@) && has_fields(field_order(kind), taken@),
            Err(error) => taken_arguments(kind, input_schema@, arguments@) == Err::<Fields, _>(
                error@,
            ),
        },
{
    let properties: &JsonObject = match input_schema.get("properties") {
        Some(Json::Object(properties)) => properties,
        _ => {
            return Err(CatalogError::new(CatalogErrorKind::InvalidArguments));
        },
    };
    let required: &Vec<Json> = match input_schema.get("required") {
        Some(Json::Array(required)) => required,
        _ => {
            return Err(CatalogError::new(CatalogErrorKind::InvalidArguments));
        },
    };
    let ghost needed: Seq<JsonView> = array_view(required@);
    let names: Vec<&'static str> = kind.field_order();
    let ghost order: Seq<Seq<char>> = field_order(kind);
    let mut normalized: JsonObject = JsonObject::new();
    let mut i: usize = 0;
    proof {
        array_holds_items(*required);
        assert(order.take(0) =~= Seq::empty());
    }
    while i < names.len()
        invariant
            i <= names@.len(),
            names_view(names@) == order,
            needed == array_view(required@),
            taken_arguments(kind, input_schema@, arguments@) == taken_fields(
                kind,
                order,
                properties@,
                needed,
                arguments@,
            ),
            taken_fields(kind, order.take(i as int), properties@, needed, arguments@) == Ok::<
                _,
                CatalogErrorView,
            >(normalized@),
        decreases names@.len() - i,
    {
        let field: &'static str = names[i];
        proof {
            assert(order[i as int] == field@);
            assert(order.take(i + 1).drop_last() =~= order.take(i as int));
        }
        let schema: &JsonObject = match properties.get(field) {
            Some(Json::Object(schema)) => schema,
            _ => {
                proof {
                    first_field_error_stands(kind, order, properties@, needed, arguments@, i + 1);
                }
                return Err(CatalogError::new(CatalogErrorKind::InvalidArguments));
            },
        };
        let required_here: bool = choice_among(required, field);
        match take_field(kind, field, schema, required_here, arguments.get(field)) {
            Ok(value) => {
                normalized.insert(field.to_owned(), value);
            },
            Err(error) => {
                proof {
                    first_field_error_stands(kind, order, properties@, needed, arguments@, i + 1);
                }
                return Err(error);
            },
        }
        i += 1;
    }
    proof {
        assert(order.take(order.len() as int) =~= order);
        taken_fields_are_complete(kind, order, properties@, needed, arguments@);
    }
    Ok(normalized)
}

/// What a call gives is taken as it is given: a flag with its value, a text that is not
/// blank without the white space around it. Where a call gives nothing, or a blank text, a
/// field that has a default takes that.
pub proof fn given_values_are_taken(
    kind: ToolKind,
    names: Seq<Seq<char>>,
    properties: Fields,
    required: Seq<JsonView>,
    arguments: Fields,
    at: int,
)
    requires
        names.no_duplicates(),
        0 <= at < names.len(),
        taken_fields(kind, names, properties, required, arguments) is Ok,
    ensures
        lookup(properties, names[at]) matches Some(JsonView::Object(schema)) && {
            let given = lookup(arguments, names[at]);
            let taken = lookup(
                taken_fields(kind, names, properties, required, arguments)->Ok_0,
                names[at],
            );
            &&& given matches Some(JsonView::Bool(flag)) ==> taken == Some(JsonView::Bool(flag))
            &&& given matches Some(JsonView::Text(text)) ==> trimmed(text).len() > 0 ==> taken
                == Some(JsonView::Text(trimmed(text)))
            &&& given is None ==> (lookup(schema, "default"@) matches Some(default) ==> taken == Some(
                default,
            ))
            &&& given matches Some(JsonView::Text(text)) ==> trimmed(text).len() == 0 ==> (lookup(
                schema,
                "default"@,
            ) matches Some(JsonView::Text(default)) ==> taken == Some(JsonView::Text(default)))
            &&& given is None || given->0 is Bool || given->0 is Text
            &&& given is Some ==> (given->0 is Bool <==> lookup(schema, "type"@) == Some(
                JsonView::Text("boolean"@),
            ))
        },
{
    taken_values_obey_their_schemas(kind, names, properties, required, arguments, at);
}

/// No field but the tool's own is taken.
pub proof fn no_other_field_is_taken(
    kind: ToolKind,
    names: Seq<Seq<char>>,
    properties: Fields,
    required: Seq<JsonView>,
    arguments: Fields,
    other: Seq<char>,
)
    requires
        !names.contains(other),
        taken_fields(kind, names, properties, required, arguments) is Ok,
    ensures
        lookup(taken_fields(kind, names, properties, required, arguments)->Ok_0, other) is None,
    decreases names.len(),
{
    if names.len() > 0 {
        let init = names.drop_last();
        let last = names.last();
        assert(names[names.len() - 1] != other);
        assert(!init.contains(other)) by {
            if init.contains(other) {
                let i = choose|i: int| 0 <= i < init.len() && init[i] == other;
                assert(names[i] == other);
            }
        }
        no_other_field_is_taken(kind, init, properties, required, arguments, other);
        let earlier = taken_fields(kind, init, properties, required, arguments)->Ok_0;
        let schema = lookup(properties, last)->0->Object_0;
        let value = field_value(
            kind,
            last,
            schema,
            is_required(required, last),
            lookup(arguments, last),
        )->Ok_0;
        lookup_put(earlier, last, value, other);
    }
}

/// What a call gives for a field fits the field: a flag where one is asked for; elsewhere a
/// text that, without the white space around it, is not empty, is among the choices and
/// keeps the bounds; and nothing only where nothing need be given.
pub open spec fn fits(schema: Fields, needed: bool, given: Option<JsonView>) -> bool {
    let flag = lookup(schema, "type"@) == Some(JsonView::Text("boolean"@));
    match given {
        None => !needed,
        Some(JsonView::Bool(_)) => flag,
        Some(JsonView::Text(text)) => {
            let length = trimmed(text).len();
            &&& !flag
            &&& 0 < length <= usize::MAX
            &&& lookup(schema, "enum"@) matches Some(JsonView::Array(choices)) ==> choices.contains(
                JsonView::Text(trimmed(text)),
            )
            &&& lookup(schema, "minLength"@) matches Some(JsonView::Number(JsonNumber::Unsigned(n)))
                ==> n <= length
            &&& lookup(schema, "maxLength"@) matches Some(JsonView::Number(JsonNumber::Unsigned(n)))
                ==> length <= n
        },
        _ => false,
    }
}

/// Arguments that fit are taken.
pub proof fn fitting_arguments_are_taken(
    kind: ToolKind,
    names: Seq<Seq<char>>,
    properties: Fields,
    required: Seq<JsonView>,
    arguments: Fields,
)
    requires
        forall|i: int|
            0 <= i < names.len() ==> (lookup(properties, #[trigger] names[i]) matches Some(
                JsonView::Object(schema),
            ) && fits(
                schema,
                required.contains(JsonView::Text(names[i])),
                lookup(arguments, names[i]),
            )),
    ensures
        taken_fields(kind, names, properties, required, arguments) is Ok,
    decreases names.len(),
{
    if names.len() > 0 {
        let init = names.drop_last();
        let last = names.last();
        assert forall|i: int| 0 <= i < init.len() implies (lookup(
            properties,
            #[trigger] init[i],
        ) matches Some(JsonView::Object(schema)) && fits(
            schema,
            required.contains(JsonView::Text(init[i])),
            lookup(arguments, init[i]),
        )) by {
            assert(init[i] == names[i]);
        }
        fitting_arguments_are_taken(kind, init, properties, required, arguments);
        assert(last == names[names.len() - 1]);
        let schema = lookup(properties, last)->0->Object_0;
        let needed = is_required(required, last);
        if needed {
            let i = choose|i: int|
                0 <= i < required.len() && #[trigger] required[i] == JsonView::Text(last);
            assert(required.contains(JsonView::Text(last)));
        } else if required.contains(JsonView::Text(last)) {
            let i = choose|i: int| 0 <= i < required.len() && required[i] == JsonView::Text(last);
            assert(is_choice(required, last));
        }
        if let Some(JsonView::Text(text)) = lookup(arguments, last) {
            if let Some(JsonView::Array(choices)) = lookup(schema, "enum"@) {
                let i = choose|i: int|
                    0 <= i < choices.len() && choices[i] == JsonView::Text(trimmed(text));
                assert(is_choice(choices, trimmed(text)));
            }
        }
        assert(field_value(kind, last, schema, needed, lookup(arguments, last)) is Ok);
    }
}

/// A field is refused where what must be given is missing, null or blank, where a value is
/// of another type, where a text is none of the choices, and where it is too short or too
/// long; a limit is exceeded only in the last case.
pub proof fn unfit_values_are_refused(
    kind: ToolKind,
    field: Seq<char>,
    schema: Fields,
    needed: bool,
    given: Option<JsonView>,
)
    ensures
        ({
            let outcome = field_value(kind, field, schema, needed, given);
            let flag = lookup(schema, "type"@) == Some(JsonView::Text("boolean"@));
            &&& needed && given is None ==> outcome is Err
            &&& given == Some(JsonView::Null) ==> outcome is Err
            &&& given is Some && flag && !(given->0 is Bool) ==> outcome is Err
            &&& given is Some && !flag && !(given->0 is Text) ==> outcome is Err
            &&& !flag ==> (given matches Some(JsonView::Text(text)) ==> needed && trimmed(text).len()
                == 0 ==> outcome is Err)
            &&& !flag ==> (given matches Some(JsonView::Text(text)) ==> trimmed(text).len() > 0 ==> (
            lookup(schema, "maxLength"@) matches Some(JsonView::Number(JsonNumber::Unsigned(n)))
                ==> n <= usize::MAX ==> n < trimmed(text).len() ==> outcome is Err))
            &&& !flag ==> (given matches Some(JsonView::Text(text)) ==> trimmed(text).len() > 0 ==> (
            lookup(schema, "minLength"@) matches Some(JsonView::Number(JsonNumber::Unsigned(n)))
                ==> n <= usize::MAX ==> trimmed(text).len() < n ==> outcome is Err))
            &&& outcome matches Err(error) ==> error.kind == CatalogErrorKind::InvalidArguments || (
            error.kind == CatalogErrorKind::LimitExceeded && given is Some)
            &&& outcome matches Err(error) ==> error.kind == CatalogErrorKind::LimitExceeded ==> (
            given matches Some(JsonView::Text(text)) && whole_in(schema, "maxLength"@) is Some)
        }),
{
}

/// A field that a call does not give has the default of its schema; where that names none,
/// a text is empty and a flag is off.
pub proof fn missing_values_have_defaults(schema: Fields)
    ensures
        lookup(schema, "default"@) matches Some(value) ==> default_of(schema) == value,
        lookup(schema, "default"@) is None && lookup(schema, "type"@) == Some(
            JsonView::Text("string"@),
        ) ==> default_of(schema) == JsonView::Text(Seq::empty()),
        lookup(schema, "default"@) is None && lookup(schema, "type"@) == Some(
            JsonView::Text("boolean"@),
        ) ==> default_of(schema) == JsonView::Bool(false),
{
    reveal_strlit("string");
    reveal_strlit("boolean");
    assert("string"@.len() == 6 && "boolean"@.len() == 7);
}

/// The message for a value of another type names the field and says what it should hold.
pub proof fn type_messages_name_field_and_type(field: Seq<char>, schema: Fields)
    ensures
        ({
            let named = "Ошибка: "@ + field;
            let message = type_message(field, schema);
            &&& message.take(named.len() as int) == named
            &&& lookup(schema, "type"@) == Some(JsonView::Text("boolean"@)) ==> message.skip(
                named.len() as int,
            ) == " должно быть логическим значением (true или false)"@
            &&& lookup(schema, "type"@) == Some(JsonView::Text("string"@)) ==> message.skip(
                named.len() as int,
            ) == " должно быть строкой"@
        }),
{
    let named = "Ошибка: "@ + field;
    let flag = " должно быть логическим значением (true или false)"@;
    let text = " должно быть строкой"@;
    assert((named + flag).take(named.len() as int) =~= named);
    assert((named + flag).skip(named.len() as int) =~= flag);
    assert((named + text).take(named.len() as int) =~= named);
    assert((named + text).skip(named.len() as int) =~= text);
    reveal_strlit("string");
    reveal_strlit("boolean");
    assert("string"@.len() == 6 && "boolean"@.len() == 7);
}

proof fn choices_are_named_in_order(choices: Seq<JsonView>)
    requires
        choices.len() > 0,
    ensures
        ({
            let earlier = quoted_choices(choices.drop_last());
            let all = quoted_choices(choices);
            match choices.last() {
                JsonView::Text(text) => if earlier.len() == 0 {
                    all == Seq::<char>::empty() + ("'"@ + text + "'"@)
                } else {
                    all == earlier + ", "@ + ("'"@ + text + "'"@) && all == earlier + (", "@ + ("'"@
                        + text + "'"@))
                },
                _ => all == earlier,
            }
        }),
{
    let earlier = quoted_choices(choices.drop_last());
    if let JsonView::Text(text) = choices.last() {
        let part = "'"@ + text + "'"@;
        assert(Seq::<char>::empty() + part =~= part);
        assert(earlier + ", "@ + "'"@ + text + "'"@ =~= earlier + ", "@ + part);
        assert(earlier + ", "@ + part =~= earlier + (", "@ + part));
    }
}

/// Every text among the choices is named, in quotes.
pub proof fn every_choice_is_named(choices: Seq<JsonView>, at: int)
    requires
        0 <= at < choices.len(),
        choices[at] is Text,
    ensures
        crate::strings::occurs_in("'"@ + choices[at]->Text_0 + "'"@, quoted_choices(choices)),
    decreases choices.len(),
{
    let part = "'"@ + choices[at]->Text_0 + "'"@;
    let earlier = quoted_choices(choices.drop_last());
    choices_are_named_in_order(choices);
    if at == choices.len() - 1 {
        if earlier.len() == 0 {
            crate::strings::the_end_occurs(Seq::empty(), part);
        } else {
            crate::strings::the_end_occurs(earlier + ", "@, part);
        }
    } else {
        every_choice_is_named(choices.drop_last(), at);
        assert(earlier.len() > 0) by {
            reveal_strlit("'");
            assert("'"@.len() == 1);
        }
        if let JsonView::Text(last) = choices.last() {
            let tail = ", "@ + ("'"@ + last + "'"@);
            crate::strings::longer_texts_hold_it_too(part, earlier, tail);
        }
    }
}

/// Which texts are among the choices is what the list of them says.
pub proof fn choices_are_what_is_listed(choices: Seq<JsonView>, text: Seq<char>)
    ensures
        is_choice(choices, text) <==> choices.contains(JsonView::Text(text)),
{
}

/// The message for a required field that is missing names the field, or says what it is.
pub proof fn missing_fields_are_told(kind: ToolKind, field: Seq<char>)
    ensures
        "Ошибка: "@.len() <= empty_required_message(kind, field).len(),
        empty_required_message(kind, field).take("Ошибка: "@.len() as int) == "Ошибка: "@,
        !crate::mcp::schema::required_fields(kind).contains(field) ==> empty_required_message(
            kind,
            field,
        ) == "Ошибка: "@ + field + " не может быть пустым"@,
{
    let required = crate::mcp::schema::required_fields(kind);
    if kind != ToolKind::FetchIts {
        assert(required.contains(required[0]));
    }
    if kind == ToolKind::DiffDocumentation {
        assert(required.contains(required[1]));
    }
    reveal_strlit("Ошибка: ");
    reveal_strlit("Ошибка: Вопрос не может быть пустым");
    reveal_strlit("Ошибка: Элемент синтаксиса не может быть пустым");
    reveal_strlit("Ошибка: Код для проверки не может быть пустым");
    reveal_strlit("Ошибка: instruction не может быть пустым");
    reveal_strlit("Ошибка: query не может быть пустым");
    reveal_strlit("Ошибка: version_a и version_b обязательны");
    assert(empty_required_message(kind, field).take("Ошибка: "@.len() as int) =~= "Ошибка: "@);
}

} // verus!
