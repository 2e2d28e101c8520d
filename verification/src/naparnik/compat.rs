//! Paths and messages of the service.

use vstd::prelude::*;

use crate::json::{
    array_holds_items,
    array_view,
    lookup,
    pair_views,
    put_all,
    the_last_pair_stands,
    Fields,
    JsonView,
};
use crate::json::{duplicate_all, Json, JsonObject};
use crate::naparnik::types::optional_text;

verus! {

pub const PRODUCTION_BASE_URL: &'static str = "https://code.1c.ai";

pub const CREATE_CONVERSATION_PATH: &'static str = "/chat_api/v1/conversations/";

pub const MESSAGE_PATH_SUFFIX: &'static str = "messages";

/// A response that is not what the service is known to send.
#[derive(Clone, Copy, Debug)]
pub struct CompatibilityError;

impl CompatibilityError {
    /// The text that the error is shown as.
    pub fn message(&self) -> (res: &'static str)
        ensures
            res@ == "the upstream response violates the pinned compatibility contract"@,
    {
        "the upstream response violates the pinned compatibility contract"
    }
}

/// The request for a conversation.
#[derive(Debug)]
pub struct CreateConversationRequest<'a> {
    ui_language: &'a str,
    programming_language: &'a str,
}

/// The fields of the request for a conversation.
pub open spec fn create_conversation_fields(ui_language: Seq<char>, programming_language: Seq<char>) -> Fields {
    seq![
        ("is_chat"@, JsonView::Bool(true)),
        ("skill_name"@, JsonView::Text("custom"@)),
        ("ui_language"@, JsonView::Text(ui_language)),
        ("programming_language"@, JsonView::Text(programming_language)),
    ]
}

impl<'a> CreateConversationRequest<'a> {
    /// The fields that are sent, in order.
    pub closed spec fn content(&self) -> Fields {
        create_conversation_fields(self.ui_language@, self.programming_language@)
    }

    pub fn new(ui_language: &'a str, programming_language: &'a str) -> (res: Self)
        ensures
            res.content() == create_conversation_fields(ui_language@, programming_language@),
    {
        Self { ui_language, programming_language }
    }

    /// The fields that are sent, in order.
    pub fn fields(&self) -> (res: Vec<(String, Json)>)
        ensures
            pair_views(res@) == self.content(),
    {
        let mut fields: Vec<(String, Json)> = Vec::new();
        fields.push(("is_chat".to_owned(), Json::Bool(true)));
        fields.push(("skill_name".to_owned(), Json::Text("custom".to_owned())));
        fields.push(("ui_language".to_owned(), Json::Text(self.ui_language.to_owned())));
        fields.push(
            ("programming_language".to_owned(), Json::Text(self.programming_language.to_owned())),
        );
        assert(pair_views(fields@) =~= self.content());
        fields
    }
}

/// The conversation that the service has made.
#[derive(Debug)]
pub struct CreateConversationResponse {
    uuid: String,
    root_message_uuid: Option<String>,
}

/// The content of a [`CreateConversationResponse`].
pub struct CreatedView {
    pub uuid: Seq<char>,
    pub root: Option<Seq<char>>,
}

impl View for CreateConversationResponse {
    type V = CreatedView;

    closed spec fn view(&self) -> CreatedView {
        CreatedView { uuid: self.uuid@, root: optional_text(self.root_message_uuid) }
    }
}

/// The identifiers of a response are usable: none of them is empty.
pub open spec fn is_usable(uuid: Seq<char>, root: Option<Seq<char>>) -> bool {
    uuid.len() > 0 && (root matches Some(root) ==> root.len() > 0)
}

impl CreateConversationResponse {
    /// Accepts the identifiers of a response as they were decoded; `None` where the
    /// response could not be decoded.
    pub fn parse(decoded: Option<(String, Option<String>)>) -> (res: Result<
        Self,
        CompatibilityError,
    >)
        ensures
            match res {
                Ok(response) => decoded matches Some((uuid, root)) && is_usable(
                    uuid@,
                    optional_text(root),
                ) && response@ == (CreatedView { uuid: uuid@, root: optional_text(root) }),
                Err(_) => !(decoded matches Some((uuid, root)) && is_usable(
                    uuid@,
                    optional_text(root),
                )),
            },
    {
        let (uuid, root_message_uuid) = match decoded {
            Some(decoded) => decoded,
            None => {
                return Err(CompatibilityError);
            },
        };
        if uuid.as_str().is_empty() {
            return Err(CompatibilityError);
        }
        match &root_message_uuid {
            Some(root) => {
                if root.as_str().is_empty() {
                    return Err(CompatibilityError);
                }
            },
            None => {},
        }
        Ok(Self { uuid, root_message_uuid })
    }

    pub fn uuid(&self) -> (res: &str)
        ensures
            res@ == self@.uuid,
    {
        self.uuid.as_str()
    }

    pub fn root_message_uuid(&self) -> (res: Option<&str>)
        ensures
            match res {
                Some(text) => self@.root == Some(text@),
                None => self@.root is None,
            },
    {
        match &self.root_message_uuid {
            Some(text) => Some(text.as_str()),
            None => None,
        }
    }

    pub fn into_parts(self) -> (res: (String, Option<String>))
        ensures
            res.0@ == self@.uuid,
            optional_text(res.1) == self@.root,
    {
        (self.uuid, self.root_message_uuid)
    }
}

/// A parent message as a JSON value.
pub open spec fn parent_tree(parent: Option<Seq<char>>) -> JsonView {
    match parent {
        Some(text) => JsonView::Text(text),
        None => JsonView::Null,
    }
}

/// The text in an optional string slice.
pub open spec fn optional_str(text: Option<&str>) -> Option<Seq<char>> {
    match text {
        Some(text) => Some(text@),
        None => None,
    }
}

/// The fields of a message of the user.
pub open spec fn user_message_fields(
    instruction: Seq<char>,
    tools: Seq<JsonView>,
    parent: Option<Seq<char>>,
) -> Fields {
    seq![
        ("role"@, JsonView::Text("user"@)),
        (
            "content"@,
            JsonView::Object(
                put_all(
                    seq![
                        (
                            "content"@,
                            JsonView::Object(
                                put_all(seq![("instruction"@, JsonView::Text(instruction))]),
                            ),
                        ),
                        ("tools"@, JsonView::Array(tools)),
                    ],
                ),
            ),
        ),
        ("parent_uuid"@, parent_tree(parent)),
    ]
}

/// A message of the user.
#[derive(Debug)]
pub struct UserMessageRequest<'a> {
    instruction: &'a str,
    tools: &'a Vec<Json>,
    parent_uuid: Option<&'a str>,
}

impl<'a> UserMessageRequest<'a> {
    /// The fields that are sent, in order.
    pub closed spec fn content(&self) -> Fields {
        user_message_fields(
            self.instruction@,
            array_view(self.tools@),
            optional_str(self.parent_uuid),
        )
    }

    pub fn new(instruction: &'a str, tools: &'a Vec<Json>, parent_uuid: Option<&'a str>) -> (res:
        Self)
        ensures
            res.content() == user_message_fields(
                instruction@,
                array_view(tools@),
                optional_str(parent_uuid),
            ),
    {
        Self { instruction, tools, parent_uuid }
    }

    /// The fields that are sent, in order.
    pub fn fields(&self) -> (res: Vec<(String, Json)>)
        ensures
            pair_views(res@) == self.content(),
    {
        let mut asked: Vec<(String, Json)> = Vec::new();
        asked.push(("instruction".to_owned(), Json::Text(self.instruction.to_owned())));
        assert(pair_views(asked@) =~= seq![("instruction"@, JsonView::Text(self.instruction@))]);
        let tools: Vec<Json> = duplicate_all(self.tools);
        proof {
            array_holds_items(tools);
        }
        let mut content: Vec<(String, Json)> = Vec::new();
        content.push(("content".to_owned(), Json::Object(JsonObject::from_pairs(asked))));
        content.push(("tools".to_owned(), Json::Array(tools)));
        let ghost inner: Fields = seq![
            (
                "content"@,
                JsonView::Object(
                    put_all(seq![("instruction"@, JsonView::Text(self.instruction@))]),
                ),
            ),
            ("tools"@, JsonView::Array(array_view(self.tools@))),
        ];
        assert(pair_views(content@) =~= inner);
        let parent: Json = match self.parent_uuid {
            Some(text) => Json::Text(text.to_owned()),
            None => Json::Null,
        };
        let mut fields: Vec<(String, Json)> = Vec::new();
        fields.push(("role".to_owned(), Json::Text("user".to_owned())));
        fields.push(("content".to_owned(), Json::Object(JsonObject::from_pairs(content))));
        fields.push(("parent_uuid".to_owned(), parent));
        assert(pair_views(fields@) =~= self.content());
        fields
    }
}

/// The fields of a message with the results of tools.
pub open spec fn tool_message_fields(results: Seq<JsonView>, parent: Seq<char>) -> Fields {
    seq![
        ("role"@, JsonView::Text("tool"@)),
        ("content"@, JsonView::Array(results)),
        ("parent_uuid"@, JsonView::Text(parent)),
    ]
}

/// A message with the results of tools.
#[derive(Debug)]
pub struct ToolMessageRequest<'a> {
    content: &'a Vec<Json>,
    parent_uuid: &'a str,
}

impl<'a> ToolMessageRequest<'a> {
    /// The fields that are sent, in order.
    pub closed spec fn content(&self) -> Fields {
        tool_message_fields(array_view(self.content@), self.parent_uuid@)
    }

    pub fn new(content: &'a Vec<Json>, parent_uuid: &'a str) -> (res: Self)
        ensures
            res.content() == tool_message_fields(array_view(content@), parent_uuid@),
    {
        Self { content, parent_uuid }
    }

    /// The fields that are sent, in order.
    pub fn fields(&self) -> (res: Vec<(String, Json)>)
        ensures
            pair_views(res@) == self.content(),
    {
        let results: Vec<Json> = duplicate_all(self.content);
        proof {
            array_holds_items(results);
        }
        let mut fields: Vec<(String, Json)> = Vec::new();
        fields.push(("role".to_owned(), Json::Text("tool".to_owned())));
        fields.push(("content".to_owned(), Json::Array(results)));
        fields.push(("parent_uuid".to_owned(), Json::Text(self.parent_uuid.to_owned())));
        assert(pair_views(fields@) =~= self.content());
        fields
    }
}

/// The request for a conversation says the two languages, each in its place.
pub proof fn conversations_are_asked_for_in_their_languages(
    ui_language: Seq<char>,
    programming_language: Seq<char>,
)
    ensures
        ({
            let fields = create_conversation_fields(ui_language, programming_language);
            &&& lookup(fields, "ui_language"@) == Some(JsonView::Text(ui_language))
            &&& lookup(fields, "programming_language"@) == Some(
                JsonView::Text(programming_language),
            )
            &&& lookup(fields, "is_chat"@) == Some(JsonView::Bool(true))
            &&& lookup(fields, "skill_name"@) == Some(JsonView::Text("custom"@))
        }),
{
    reveal_strlit("is_chat");
    reveal_strlit("skill_name");
    reveal_strlit("ui_language");
    reveal_strlit("programming_language");
    assert("is_chat"@.len() == 7 && "skill_name"@.len() == 10 && "ui_language"@.len() == 11
        && "programming_language"@.len() == 20);
    let fields = create_conversation_fields(ui_language, programming_language);
    reveal_with_fuel(lookup, 5);
    let one = fields.drop_first();
    let two = one.drop_first();
    let three = two.drop_first();
    assert(one[0] == fields[1] && two[0] == fields[2] && three[0] == fields[3]);
}

/// A message of the user says the instruction and the tools as they are, and the message
/// that it answers where there is one.
pub proof fn messages_say_the_instruction(
    instruction: Seq<char>,
    tools: Seq<JsonView>,
    parent: Option<Seq<char>>,
)
    ensures
        ({
            let fields = user_message_fields(instruction, tools, parent);
            &&& lookup(fields, "role"@) == Some(JsonView::Text("user"@))
            &&& lookup(fields, "parent_uuid"@) == (match parent {
                Some(uuid) => Some(JsonView::Text(uuid)),
                None => Some(JsonView::Null),
            })
            &&& lookup(fields, "content"@) matches Some(JsonView::Object(content)) && {
                &&& lookup(content, "tools"@) == Some(JsonView::Array(tools))
                &&& lookup(content, "content"@) matches Some(JsonView::Object(inner)) && lookup(
                    inner,
                    "instruction"@,
                ) == Some(JsonView::Text(instruction))
            }
        }),
{
    message_words_differ();
    let fields = user_message_fields(instruction, tools, parent);
    reveal_with_fuel(lookup, 4);
    let one = fields.drop_first();
    let two = one.drop_first();
    assert(one[0] == fields[1] && two[0] == fields[2]);
    let asked = seq![("instruction"@, JsonView::Text(instruction))];
    the_last_pair_stands(asked, 0);
    let content = seq![
        ("content"@, JsonView::Object(put_all(asked))),
        ("tools"@, JsonView::Array(tools)),
    ];
    the_last_pair_stands(content, 0);
    the_last_pair_stands(content, 1);
}

proof fn message_words_differ()
    ensures
        "role"@.len() == 4,
        "content"@.len() == 7,
        "parent_uuid"@.len() == 11,
        "tools"@.len() == 5,
{
    reveal_strlit("role");
    reveal_strlit("content");
    reveal_strlit("parent_uuid");
    reveal_strlit("tools");
}

/// A message with results says them as they are, in order, and what they answer.
pub proof fn results_are_sent_as_they_are(results: Seq<JsonView>, parent: Seq<char>)
    ensures
        ({
            let fields = tool_message_fields(results, parent);
            &&& lookup(fields, "role"@) == Some(JsonView::Text("tool"@))
            &&& lookup(fields, "content"@) == Some(JsonView::Array(results))
            &&& lookup(fields, "parent_uuid"@) == Some(JsonView::Text(parent))
        }),
{
    message_words_differ();
    let fields = tool_message_fields(results, parent);
    reveal_with_fuel(lookup, 4);
    let one = fields.drop_first();
    let two = one.drop_first();
    assert(one[0] == fields[1] && two[0] == fields[2]);
}

/// A conversation can be used exactly where it has an identifier, and where the message
/// that begins it, if it is named, has one.
pub proof fn identifiers_are_needed(uuid: Seq<char>, root: Option<Seq<char>>)
    ensures
        uuid.len() == 0 ==> !is_usable(uuid, root),
        root matches Some(text) ==> text.len() == 0 ==> !is_usable(uuid, root),
        uuid.len() > 0 && root is None ==> is_usable(uuid, root),
        uuid.len() > 0 && (root matches Some(text) && text.len() > 0) ==> is_usable(uuid, root),
{
}

} // verus!
