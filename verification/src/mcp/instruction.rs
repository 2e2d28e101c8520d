//! How a tool call is carried out, and the instruction that asks for it.

use vstd::prelude::*;

use crate::config::CallMode;
use crate::json::{
    lookup,
    lookup_put,
    nothing_else_is_put,
    pair_views,
    put,
    put_all,
    the_last_pair_stands,
    Fields,
    JsonView,
};
use crate::json::{Json, JsonObject};
use crate::json_text::json_string;
use crate::json_text::{settled, tree_text};
use crate::mcp::arguments::{has_fields, text_in};
use crate::mcp::schema::field_order;
use crate::mcp::schema::ToolKind;
use crate::strings::same_text;
use crate::strings::{a_part_occurs, occurs_in, parts_of_parts_occur, trimmed};

verus! {

/// How one tool call is carried out: by a message to the assistant, or by one internal
/// tool with exact arguments.
#[derive(Debug)]
pub enum ExecutionRoute {
    Message,
    Exact { name: &'static str, arguments: JsonObject },
}

/// The content of an [`ExecutionRoute`].
pub enum RouteView {
    Message,
    Exact { name: Seq<char>, arguments: Fields },
}

impl View for ExecutionRoute {
    type V = RouteView;

    open spec fn view(&self) -> RouteView {
        match self {
            ExecutionRoute::Message => RouteView::Message,
            ExecutionRoute::Exact { name, arguments } => RouteView::Exact {
                name: name@,
                arguments: arguments@,
            },
        }
    }
}

impl ExecutionRoute {
    /// The internal tool of an exact route.
    pub fn exact_name(&self) -> (res: Option<&'static str>)
        ensures
            match self@ {
                RouteView::Message => res is None,
                RouteView::Exact { name, arguments } => res is Some && res->0@ == name,
            },
    {
        match self {
            ExecutionRoute::Message => None,
            ExecutionRoute::Exact { name, .. } => Some(name),
        }
    }

    /// The arguments of an exact route.
    pub fn exact_arguments(&self) -> (res: Option<&JsonObject>)
        ensures
            match self@ {
                RouteView::Message => res is None,
                RouteView::Exact { name, arguments } => res is Some && res->0@ == arguments,
            },
    {
        match self {
            ExecutionRoute::Message => None,
            ExecutionRoute::Exact { arguments, .. } => Some(arguments),
        }
    }
}

/// The text of a field; empty where it holds none.
pub open spec fn text_or_empty(arguments: Fields, name: Seq<char>) -> Seq<char> {
    match text_in(arguments, name) {
        Some(text) => text,
        None => Seq::empty(),
    }
}

/// The project context in front of a search.
pub open spec fn context_prefix(configuration: Seq<char>, ssl_version: Seq<char>) -> Seq<char> {
    if configuration.len() == 0 && ssl_version.len() == 0 {
        Seq::empty()
    } else if ssl_version.len() == 0 {
        configuration
    } else if configuration.len() == 0 {
        "БСП "@ + ssl_version
    } else {
        configuration + " БСП "@ + ssl_version
    }
}

/// The project context as a sentence.
pub open spec fn context_hint(arguments: Fields) -> Seq<char> {
    let configuration = text_or_empty(arguments, "configuration"@);
    let ssl_version = text_or_empty(arguments, "ssl_version"@);
    if configuration.len() == 0 && ssl_version.len() == 0 {
        Seq::empty()
    } else if ssl_version.len() == 0 {
        "Контекст проекта: "@ + "конфигурация "@ + configuration + "."@
    } else if configuration.len() == 0 {
        "Контекст проекта: "@ + "версия БСП "@ + ssl_version + "."@
    } else {
        "Контекст проекта: "@ + "конфигурация "@ + configuration + ", "@ + "версия БСП "@
            + ssl_version + "."@
    }
}

/// A search with the project context in front of it.
pub open spec fn search_with_context(arguments: Fields) -> Seq<char> {
    let query = text_or_empty(arguments, "query"@);
    let prefix = context_prefix(
        text_or_empty(arguments, "configuration"@),
        text_or_empty(arguments, "ssl_version"@),
    );
    if prefix.len() == 0 {
        query
    } else {
        prefix + " "@ + query
    }
}

/// The call asks for a syntax check.
pub open spec fn is_syntax_check(arguments: Fields) -> bool {
    lookup(arguments, "check_type"@) == Some(JsonView::Text("syntax"@))
}

/// The value of a field that is there.
pub open spec fn field(arguments: Fields, name: Seq<char>) -> (Seq<char>, JsonView) {
    (name, lookup(arguments, name)->0)
}

/// How a call with these arguments is carried out.
pub open spec fn route_of(mode: CallMode, kind: ToolKind, arguments: Fields) -> RouteView {
    if mode == CallMode::Standard {
        RouteView::Message
    } else {
        match kind {
            ToolKind::Check => if is_syntax_check(arguments) {
                RouteView::Exact {
                    name: "mcp__syntax-checker__validate"@,
                    arguments: put_all(
                        seq![field(arguments, "code"@), field(arguments, "extended"@)],
                    ),
                }
            } else {
                RouteView::Message
            },
            ToolKind::SearchDocumentation => RouteView::Exact {
                name: "mcp__knowledge-hub__Search_Documentation"@,
                arguments: put_all(seq![field(arguments, "query"@), field(arguments, "version"@)]),
            },
            ToolKind::SearchIts => RouteView::Exact {
                name: "mcp__knowledge-hub__Search_ITS"@,
                arguments: put_all(
                    seq![("query"@, JsonView::Text(search_with_context(arguments)))],
                ),
            },
            ToolKind::FetchIts => RouteView::Exact {
                name: "mcp__knowledge-hub__Fetch_ITS"@,
                arguments: put_all(seq![field(arguments, "id"@)]),
            },
            ToolKind::DiffDocumentation => {
                let versions = put_all(
                    seq![field(arguments, "version_a"@), field(arguments, "version_b"@)],
                );
                RouteView::Exact {
                    name: "mcp__knowledge-hub__Diff_Documentation_Versions"@,
                    arguments: if text_or_empty(arguments, "query"@).len() > 0 {
                        put(versions, "query"@, lookup(arguments, "query"@)->0)
                    } else {
                        versions
                    },
                }
            },
            _ => RouteView::Message,
        }
    }
}

/// The fields that are read to decide how a call is carried out.
pub open spec fn route_fields(mode: CallMode, kind: ToolKind, arguments: Fields) -> Seq<Seq<char>> {
    if mode == CallMode::Standard {
        seq![]
    } else {
        match kind {
            ToolKind::Check => if is_syntax_check(arguments) {
                seq!["check_type"@, "code"@, "extended"@]
            } else {
                seq!["check_type"@]
            },
            ToolKind::SearchDocumentation => seq!["query"@, "version"@],
            ToolKind::SearchIts => seq!["query"@, "configuration"@, "ssl_version"@],
            ToolKind::FetchIts => seq!["id"@],
            ToolKind::DiffDocumentation => seq!["version_a"@, "version_b"@, "query"@],
            _ => seq![],
        }
    }
}

/// The fields that are read to write the instruction for a tool's work.
pub open spec fn instruction_fields(kind: ToolKind, arguments: Fields) -> Seq<Seq<char>> {
    match kind {
        ToolKind::Ask => seq!["question"@, "configuration"@, "ssl_version"@],
        ToolKind::Explain => seq!["syntax_element"@, "context"@, "configuration"@, "ssl_version"@],
        ToolKind::Check => if is_syntax_check(arguments) {
            seq!["code"@, "check_type"@, "extended"@]
        } else {
            seq!["code"@, "check_type"@]
        },
        ToolKind::Modify => seq!["instruction"@, "code"@],
        ToolKind::SearchDocumentation => seq!["version"@, "query"@],
        ToolKind::SearchIts => seq!["configuration"@, "ssl_version"@, "query"@],
        ToolKind::FetchIts => seq!["id"@],
        ToolKind::DiffDocumentation => seq!["query"@, "version_a"@, "version_b"@],
    }
}

/// Only fields of the tool are read to carry out a call: arguments that hold all of them
/// hold what is read.
pub proof fn only_fields_of_the_tool_are_read(mode: CallMode, kind: ToolKind, arguments: Fields)
    requires
        has_fields(field_order(kind), arguments),
    ensures
        has_fields(route_fields(mode, kind, arguments), arguments),
        has_fields(instruction_fields(kind, arguments), arguments),
{
    let order = field_order(kind);
    if order.len() > 0 {
        assert(lookup(arguments, order[0]) is Some);
    }
    if order.len() > 1 {
        assert(lookup(arguments, order[1]) is Some);
    }
    if order.len() > 2 {
        assert(lookup(arguments, order[2]) is Some);
    }
    if order.len() > 3 {
        assert(lookup(arguments, order[3]) is Some);
    }
}

/// The instruction for a question.
pub open spec fn ask_instruction(arguments: Fields) -> Seq<char> {
    let question = text_or_empty(arguments, "question"@);
    if context_hint(arguments).len() == 0 {
        question
    } else {
        question + "\n\n"@ + context_hint(arguments)
    }
}

/// The instruction for an explanation.
pub open spec fn explain_instruction(arguments: Fields) -> Seq<char> {
    let context = text_or_empty(arguments, "context"@);
    let asked = "Объясни синтаксис и использование: "@ + text_or_empty(
        arguments,
        "syntax_element"@,
    );
    let placed = if context.len() == 0 {
        asked
    } else {
        asked + " в контексте: "@ + context
    };
    if context_hint(arguments).len() == 0 {
        placed
    } else {
        placed + "\n\n"@ + context_hint(arguments)
    }
}

/// The instruction for a check.
pub open spec fn check_instruction(arguments: Fields) -> Seq<char> {
    let code = text_or_empty(arguments, "code"@);
    if is_syntax_check(arguments) {
        let suffix = if lookup(arguments, "extended"@) == Some(JsonView::Bool(true)) {
            " Используй расширенную проверку со стандартами 1С."@
        } else {
            ""@
        };
        "Проверь этот код 1С на синтаксические ошибки перед отправкой пользователю."@ + suffix
            + "\n\nКод:\n```bsl\n"@ + code + "\n```"@
    } else {
        "Проведи code review этого кода 1С. Найди ошибки, нарушения стандартов, риски и предложи исправленный вариант.\n\nКод:\n```bsl\n"@
            + code + "\n```"@
    }
}

/// The instruction for a change.
pub open spec fn modify_instruction(arguments: Fields) -> Seq<char> {
    let code = text_or_empty(arguments, "code"@);
    let asked =
        "Измени этот код 1С по заданию пользователя. Верни итоговый измененный код и кратко перечисли, что именно было изменено.\n\nЗадание:\n"@
        + text_or_empty(arguments, "instruction"@);
    let shown = if trimmed(code).len() == 0 {
        asked
    } else {
        asked + "\n\nКод:\n```bsl\n"@ + code + "\n```"@
    };
    shown
        + "\n\nОБЯЗАТЕЛЬНО выполни синтаксическую проверку измененного кода с помощью инструмента mcp__syntax-checker__validate перед отправкой результата."@
}

/// The instruction for a search in the documentation.
pub open spec fn search_documentation_instruction(arguments: Fields) -> Seq<char> {
    "Найди информацию в документации платформы 1С:Предприятие. Используй документацию версии "@
        + text_or_empty(arguments, "version"@)
        + ". Верни краткий, но информативный ответ по найденным данным.\n\nЗапрос: "@
        + text_or_empty(arguments, "query"@)
}

/// The instruction for a search in the knowledge base.
pub open spec fn search_its_instruction(arguments: Fields) -> Seq<char> {
    let hint_line = if context_hint(arguments).len() == 0 {
        Seq::empty()
    } else {
        context_hint(arguments) + "\n"@
    };
    "Выполни поиск в базе знаний ИТС по этому запросу. Верни фактический результат и обязательно сохрани ссылки на источники.\n"@
        + hint_line + "\nЗапрос: "@ + text_or_empty(arguments, "query"@)
}

/// The instruction to fetch a document.
pub open spec fn fetch_its_instruction(arguments: Fields) -> Seq<char> {
    "Получить содержимое документа, каталога или базы ИТС по идентификатору.\n\nid: "@
        + text_or_empty(arguments, "id"@)
}

/// The instruction for a comparison.
pub open spec fn diff_instruction(arguments: Fields) -> Seq<char> {
    let query = text_or_empty(arguments, "query"@);
    let scope = if query.len() == 0 {
        Seq::empty()
    } else {
        "\nПредметная область: "@ + query
    };
    "Сравни документацию платформы 1С между двумя версиями и верни различия.\n\nБолее ранняя версия: "@
        + text_or_empty(arguments, "version_a"@) + "\nБолее поздняя версия: "@ + text_or_empty(
        arguments,
        "version_b"@,
    ) + scope
}

/// The instruction that asks the assistant for a tool's work.
pub open spec fn message_instruction(kind: ToolKind, arguments: Fields) -> Seq<char> {
    match kind {
        ToolKind::Ask => ask_instruction(arguments),
        ToolKind::Explain => explain_instruction(arguments),
        ToolKind::Check => check_instruction(arguments),
        ToolKind::Modify => modify_instruction(arguments),
        ToolKind::SearchDocumentation => search_documentation_instruction(arguments),
        ToolKind::SearchIts => search_its_instruction(arguments),
        ToolKind::FetchIts => fetch_its_instruction(arguments),
        ToolKind::DiffDocumentation => diff_instruction(arguments),
    }
}

/// The instruction that asks for one internal tool call with these arguments in JSON.
pub open spec fn exact_instruction_with(name: Seq<char>, encoded: Seq<char>) -> Seq<char> {
    "Внутренняя инструкция.\nНужно вернуть ровно один tool call для "@ + name
        + ".\nНе используй другие инструменты.\nСохрани все символы в аргументах без изменений.\nИспользуй ровно эти JSON-аргументы: "@
        + encoded + "\nНе отвечай обычным текстом до tool call."@
}

/// The instruction that asks for one internal tool call.
pub open spec fn exact_instruction(name: Seq<char>, arguments: Fields) -> Seq<char> {
    exact_instruction_with(
        name,
        match tree_text(settled(JsonView::Object(arguments))) {
            Some(encoded) => encoded,
            None => "{}"@,
        },
    )
}

/// The instruction of a prepared call.
pub open spec fn route_instruction(route: RouteView, kind: ToolKind, arguments: Fields) -> Seq<char> {
    match route {
        RouteView::Message => message_instruction(kind, arguments),
        RouteView::Exact { name, arguments: exact } => exact_instruction(name, exact),
    }
}

fn text_argument<'a>(arguments: &'a JsonObject, name: &'static str) -> (res: &'a str)
    ensures
        res@ == text_or_empty(arguments@, name@),
{
    match arguments.get(name) {
        Some(Json::Text(text)) => text.as_str(),
        _ => {
            assert(""@ =~= Seq::<char>::empty()) by {
                reveal_strlit("");
            }
            ""
        },
    }
}

fn copy_argument(arguments: &JsonObject, name: &'static str) -> (res: (String, Json))
    requires
        lookup(arguments@, name@) is Some,
    ensures
        (res.0@, res.1@) == field(arguments@, name@),
{
    match arguments.get(name) {
        Some(value) => (name.to_owned(), value.duplicate()),
        None => (name.to_owned(), Json::Null),
    }
}

fn prefix_of(configuration: &str, ssl_version: &str) -> (res: String)
    ensures
        res@ == context_prefix(configuration@, ssl_version@),
{
    let mut text: String = String::new();
    if !configuration.is_empty() {
        text = configuration.to_owned();
        if !ssl_version.is_empty() {
            text.append(" БСП ");
            text.append(ssl_version);
        }
    } else if !ssl_version.is_empty() {
        text = "БСП ".to_owned();
        text.append(ssl_version);
    }
    text
}

fn hint_of(arguments: &JsonObject) -> (res: String)
    ensures
        res@ == context_hint(arguments@),
{
    let configuration: &str = text_argument(arguments, "configuration");
    let ssl_version: &str = text_argument(arguments, "ssl_version");
    let mut text: String = String::new();
    if configuration.is_empty() && ssl_version.is_empty() {
        return text;
    }
    text = "Контекст проекта: ".to_owned();
    if !configuration.is_empty() {
        text.append("конфигурация ");
        text.append(configuration);
        if !ssl_version.is_empty() {
            text.append(", ");
        }
    }
    if !ssl_version.is_empty() {
        text.append("версия БСП ");
        text.append(ssl_version);
    }
    text.append(".");
    text
}

fn asks_syntax_check(arguments: &JsonObject) -> (res: bool)
    ensures
        res == is_syntax_check(arguments@),
{
    match arguments.get("check_type") {
        Some(Json::Text(text)) => same_text(text.as_str(), "syntax"),
        _ => false,
    }
}

fn exact_pair(
    name: &'static str,
    first: (String, Json),
    second: (String, Json),
) -> (res: ExecutionRoute)
    ensures
        res@ == (RouteView::Exact {
            name: name@,
            arguments: put_all(seq![(first.0@, first.1@), (second.0@, second.1@)]),
        }),
{
    let mut pairs: Vec<(String, Json)> = Vec::new();
    pairs.push(first);
    pairs.push(second);
    assert(pair_views(pairs@) =~= seq![(first.0@, first.1@), (second.0@, second.1@)]);
    ExecutionRoute::Exact { name, arguments: JsonObject::from_pairs(pairs) }
}

fn exact_single(name: &'static str, only: (String, Json)) -> (res: ExecutionRoute)
    ensures
        res@ == (RouteView::Exact {
            name: name@,
            arguments: put_all(seq![(only.0@, only.1@)]),
        }),
{
    let mut pairs: Vec<(String, Json)> = Vec::new();
    pairs.push(only);
    assert(pair_views(pairs@) =~= seq![(only.0@, only.1@)]);
    ExecutionRoute::Exact { name, arguments: JsonObject::from_pairs(pairs) }
}

/// Decides how a call is carried out.
pub fn choose_route(mode: CallMode, kind: ToolKind, arguments: &JsonObject) -> (res: ExecutionRoute)
    requires
        has_fields(route_fields(mode, kind, arguments@), arguments@),
    ensures
        res@ == route_of(mode, kind, arguments@),
{
    let ghost read: Seq<Seq<char>> = route_fields(mode, kind, arguments@);
    if mode == CallMode::Standard {
        return ExecutionRoute::Message;
    }
    match kind {
        ToolKind::Check => {
            if !asks_syntax_check(arguments) {
                return ExecutionRoute::Message;
            }
            assert(read[1] == "code"@ && read[2] == "extended"@);
            exact_pair(
                "mcp__syntax-checker__validate",
                copy_argument(arguments, "code"),
                copy_argument(arguments, "extended"),
            )
        },
        ToolKind::SearchDocumentation => {
            assert(read[0] == "query"@ && read[1] == "version"@);
            exact_pair(
                "mcp__knowledge-hub__Search_Documentation",
                copy_argument(arguments, "query"),
                copy_argument(arguments, "version"),
            )
        },
        ToolKind::SearchIts => {
            let query: &str = text_argument(arguments, "query");
            let prefix: String = prefix_of(
                text_argument(arguments, "configuration"),
                text_argument(arguments, "ssl_version"),
            );
            let mut text: String = prefix;
            if text.as_str().is_empty() {
                text = query.to_owned();
            } else {
                text.append(" ");
                text.append(query);
            }
            exact_single(
                "mcp__knowledge-hub__Search_ITS",
                ("query".to_owned(), Json::Text(text)),
            )
        },
        ToolKind::FetchIts => {
            assert(read[0] == "id"@);
            exact_single("mcp__knowledge-hub__Fetch_ITS", copy_argument(arguments, "id"))
        },
        ToolKind::DiffDocumentation => {
            assert(read[0] == "version_a"@ && read[1] == "version_b"@ && read[2] == "query"@);
            let mut pairs: Vec<(String, Json)> = Vec::new();
            pairs.push(copy_argument(arguments, "version_a"));
            pairs.push(copy_argument(arguments, "version_b"));
            assert(pair_views(pairs@) =~= seq![
                field(arguments@, "version_a"@),
                field(arguments@, "version_b"@),
            ]);
            let mut exact: JsonObject = JsonObject::from_pairs(pairs);
            if !text_argument(arguments, "query").is_empty() {
                let query: (String, Json) = copy_argument(arguments, "query");
                exact.insert(query.0, query.1);
            }
            ExecutionRoute::Exact {
                name: "mcp__knowledge-hub__Diff_Documentation_Versions",
                arguments: exact,
            }
        },
        _ => ExecutionRoute::Message,
    }
}

/// Writes the instruction that asks the assistant for a tool's work.
pub fn build_message_instruction(kind: ToolKind, arguments: &JsonObject) -> (res: String)
    requires
        has_fields(instruction_fields(kind, arguments@), arguments@),
    ensures
        res@ == message_instruction(kind, arguments@),
{
    match kind {
        ToolKind::Ask => {
            let mut text: String = text_argument(arguments, "question").to_owned();
            let hint: String = hint_of(arguments);
            if !hint.as_str().is_empty() {
                text.append("\n\n");
                text.append(hint.as_str());
            }
            text
        },
        ToolKind::Explain => {
            let context: &str = text_argument(arguments, "context");
            let mut text: String = "Объясни синтаксис и использование: ".to_owned();
            text.append(text_argument(arguments, "syntax_element"));
            if !context.is_empty() {
                text.append(" в контексте: ");
                text.append(context);
            }
            let hint: String = hint_of(arguments);
            if !hint.as_str().is_empty() {
                text.append("\n\n");
                text.append(hint.as_str());
            }
            text
        },
        ToolKind::Check => {
            let code: &str = text_argument(arguments, "code");
            let mut text: String = String::new();
            if asks_syntax_check(arguments) {
                let extended: bool = match arguments.get("extended") {
                    Some(Json::Bool(extended)) => *extended,
                    _ => false,
                };
                text =
                "Проверь этот код 1С на синтаксические ошибки перед отправкой пользователю.".to_owned();
                if extended {
                    text.append(" Используй расширенную проверку со стандартами 1С.");
                } else {
                    text.append("");
                }
                text.append("\n\nКод:\n```bsl\n");
            } else {
                text =
                "Проведи code review этого кода 1С. Найди ошибки, нарушения стандартов, риски и предложи исправленный вариант.\n\nКод:\n```bsl\n".to_owned();
            }
            text.append(code);
            text.append("\n```");
            text
        },
        ToolKind::Modify => {
            let code: &str = text_argument(arguments, "code");
            let mut text: String =
                "Измени этот код 1С по заданию пользователя. Верни итоговый измененный код и кратко перечисли, что именно было изменено.\n\nЗадание:\n".to_owned();
            text.append(text_argument(arguments, "instruction"));
            if !code.trim().is_empty() {
                text.append("\n\nКод:\n```bsl\n");
                text.append(code);
                text.append("\n```");
            }
            text.append(
                "\n\nОБЯЗАТЕЛЬНО выполни синтаксическую проверку измененного кода с помощью инструмента mcp__syntax-checker__validate перед отправкой результата.",
            );
            text
        },
        ToolKind::SearchDocumentation => {
            let mut text: String =
                "Найди информацию в документации платформы 1С:Предприятие. Используй документацию версии ".to_owned();
            text.append(text_argument(arguments, "version"));
            text.append(
                ". Верни краткий, но информативный ответ по найденным данным.\n\nЗапрос: ",
            );
            text.append(text_argument(arguments, "query"));
            text
        },
        ToolKind::SearchIts => {
            let mut text: String =
                "Выполни поиск в базе знаний ИТС по этому запросу. Верни фактический результат и обязательно сохрани ссылки на источники.\n".to_owned();
            let mut hint: String = hint_of(arguments);
            if !hint.as_str().is_empty() {
                hint.append("\n");
            }
            text.append(hint.as_str());
            text.append("\nЗапрос: ");
            text.append(text_argument(arguments, "query"));
            text
        },
        ToolKind::FetchIts => {
            let mut text: String =
                "Получить содержимое документа, каталога или базы ИТС по идентификатору.\n\nid: ".to_owned();
            text.append(text_argument(arguments, "id"));
            text
        },
        ToolKind::DiffDocumentation => {
            let query: &str = text_argument(arguments, "query");
            let mut text: String =
                "Сравни документацию платформы 1С между двумя версиями и верни различия.\n\nБолее ранняя версия: ".to_owned();
            text.append(text_argument(arguments, "version_a"));
            text.append("\nБолее поздняя версия: ");
            text.append(text_argument(arguments, "version_b"));
            let mut scope: String = String::new();
            if !query.is_empty() {
                scope = "\nПредметная область: ".to_owned();
                scope.append(query);
            }
            text.append(scope.as_str());
            text
        },
    }
}

/// Writes the instruction that asks for one internal tool call, given its arguments in
/// JSON if they can be written so.
pub fn write_exact_instruction(name: &str, encoded: Option<String>) -> (res: String)
    ensures
        res@ == exact_instruction_with(
            name@,
            match encoded {
                Some(text) => text@,
                None => "{}"@,
            },
        ),
{
    let mut text: String =
        "Внутренняя инструкция.\nНужно вернуть ровно один tool call для ".to_owned();
    text.append(name);
    text.append(
        ".\nНе используй другие инструменты.\nСохрани все символы в аргументах без изменений.\nИспользуй ровно эти JSON-аргументы: ",
    );
    match encoded {
        Some(encoded) => text.append(encoded.as_str()),
        None => text.append("{}"),
    }
    text.append("\nНе отвечай обычным текстом до tool call.");
    text
}

/// Writes the instruction that asks for one internal tool call.
pub fn build_exact_instruction(name: &str, arguments: &JsonObject) -> (res: String)
    ensures
        res@ == exact_instruction(name@, arguments@),
{
    write_exact_instruction(name, json_string(&Json::Object(arguments.duplicate())))
}

proof fn pair_is_found(a: (Seq<char>, JsonView), b: (Seq<char>, JsonView), name: Seq<char>)
    requires
        a.0 != b.0,
    ensures
        lookup(put_all(seq![a, b]), name) == (if name == a.0 {
            Some(a.1)
        } else if name == b.0 {
            Some(b.1)
        } else {
            None
        }),
{
    let pairs = seq![a, b];
    the_last_pair_stands(pairs, 0);
    the_last_pair_stands(pairs, 1);
    if name != a.0 && name != b.0 {
        nothing_else_is_put(pairs, name);
    }
}

proof fn single_is_found(a: (Seq<char>, JsonView), name: Seq<char>)
    ensures
        lookup(put_all(seq![a]), name) == (if name == a.0 {
            Some(a.1)
        } else {
            None
        }),
{
    let pairs = seq![a];
    the_last_pair_stands(pairs, 0);
    if name != a.0 {
        nothing_else_is_put(pairs, name);
    }
}

/// In direct mode a check of the syntax, a search in the documentation, a document and a
/// comparison each go to their internal tool, with the arguments that the tool has taken:
/// each under its own name and with its own value, and no other. What is compared is named
/// only where it is not empty.
pub proof fn exact_routes_carry_what_was_taken(kind: ToolKind, arguments: Fields, name: Seq<char>)
    requires
        kind != ToolKind::SearchIts,
        has_fields(route_fields(CallMode::Direct, kind, arguments), arguments),
    ensures
        match route_of(CallMode::Direct, kind, arguments) {
            RouteView::Message => match kind {
                ToolKind::Ask | ToolKind::Explain | ToolKind::Modify => true,
                ToolKind::Check => lookup(arguments, "check_type"@) != Some(
                    JsonView::Text("syntax"@),
                ),
                _ => false,
            },
            RouteView::Exact { name: tool, arguments: exact } => match kind {
                ToolKind::Check => {
                    &&& lookup(arguments, "check_type"@) == Some(JsonView::Text("syntax"@))
                    &&& tool == "mcp__syntax-checker__validate"@
                    &&& lookup(exact, name) == (if name == "code"@ || name == "extended"@ {
                        lookup(arguments, name)
                    } else {
                        None
                    })
                },
                ToolKind::SearchDocumentation => {
                    &&& tool == "mcp__knowledge-hub__Search_Documentation"@
                    &&& lookup(exact, name) == (if name == "query"@ || name == "version"@ {
                        lookup(arguments, name)
                    } else {
                        None
                    })
                },
                ToolKind::FetchIts => {
                    &&& tool == "mcp__knowledge-hub__Fetch_ITS"@
                    &&& lookup(exact, name) == (if name == "id"@ {
                        lookup(arguments, name)
                    } else {
                        None
                    })
                },
                ToolKind::DiffDocumentation => {
                    &&& tool == "mcp__knowledge-hub__Diff_Documentation_Versions"@
                    &&& lookup(exact, name) == (if name == "version_a"@ || name == "version_b"@ || (
                    name == "query"@ && (lookup(arguments, name) matches Some(JsonView::Text(text))
                        && text.len() > 0)) {
                        lookup(arguments, name)
                    } else {
                        None
                    })
                },
                _ => false,
            },
        },
{
    reveal_strlit("code");
    reveal_strlit("extended");
    reveal_strlit("query");
    reveal_strlit("version");
    reveal_strlit("version_a");
    reveal_strlit("version_b");
    assert("code"@.len() == 4 && "extended"@.len() == 8 && "query"@.len() == 5 && "version"@.len()
        == 7);
    assert("version_a"@.len() == 9 && "version_b"@.len() == 9);
    assert("version_a"@[8] == 'a' && "version_b"@[8] == 'b');
    let read = route_fields(CallMode::Direct, kind, arguments);
    match kind {
        ToolKind::Check => {
            if is_syntax_check(arguments) {
                assert(read[1] == "code"@ && read[2] == "extended"@);
                pair_is_found(field(arguments, "code"@), field(arguments, "extended"@), name);
            }
        },
        ToolKind::SearchDocumentation => {
            assert(read[0] == "query"@ && read[1] == "version"@);
            pair_is_found(field(arguments, "query"@), field(arguments, "version"@), name);
        },
        ToolKind::FetchIts => {
            assert(read[0] == "id"@);
            single_is_found(field(arguments, "id"@), name);
        },
        ToolKind::DiffDocumentation => {
            assert(read[0] == "version_a"@ && read[1] == "version_b"@ && read[2] == "query"@);
            pair_is_found(field(arguments, "version_a"@), field(arguments, "version_b"@), name);
            let versions = put_all(
                seq![field(arguments, "version_a"@), field(arguments, "version_b"@)],
            );
            lookup_put(versions, "query"@, lookup(arguments, "query"@)->0, name);
        },
        _ => {},
    }
}

/// Two documents that differ are asked for differently.
pub proof fn documents_are_told_apart(a: Fields, b: Fields)
    requires
        lookup(a, "id"@) is Some,
        lookup(b, "id"@) is Some,
        lookup(a, "id"@) != lookup(b, "id"@),
    ensures
        route_of(CallMode::Direct, ToolKind::FetchIts, a) != route_of(
            CallMode::Direct,
            ToolKind::FetchIts,
            b,
        ),
{
    exact_routes_carry_what_was_taken(ToolKind::FetchIts, a, "id"@);
    exact_routes_carry_what_was_taken(ToolKind::FetchIts, b, "id"@);
}

/// In direct mode a search in the knowledge base goes to its internal tool with one text:
/// the query, after the configuration and the version of the standard subsystems where
/// they are given.
pub proof fn searches_carry_query_and_context(
    arguments: Fields,
    query: Seq<char>,
    configuration: Seq<char>,
    ssl_version: Seq<char>,
    name: Seq<char>,
)
    requires
        lookup(arguments, "query"@) == Some(JsonView::Text(query)),
        lookup(arguments, "configuration"@) == Some(JsonView::Text(configuration)),
        lookup(arguments, "ssl_version"@) == Some(JsonView::Text(ssl_version)),
    ensures
        route_of(CallMode::Direct, ToolKind::SearchIts, arguments) matches RouteView::Exact {
            name: tool,
            arguments: exact,
        } && {
            &&& tool == "mcp__knowledge-hub__Search_ITS"@
            &&& name != "query"@ ==> lookup(exact, name) is None
            &&& lookup(exact, "query"@) matches Some(JsonView::Text(text)) && {
                &&& text.len() >= query.len()
                &&& text.skip(text.len() - query.len()) == query
                &&& configuration.len() == 0 && ssl_version.len() == 0 ==> text == query
                &&& configuration.len() > 0 ==> text.len() > configuration.len() && text.take(
                    configuration.len() as int,
                ) == configuration
                &&& occurs_in(ssl_version, text)
            }
        },
{
    let text = search_with_context(arguments);
    single_is_found(("query"@, JsonView::Text(text)), name);
    single_is_found(("query"@, JsonView::Text(text)), "query"@);
    reveal_strlit(" ");
    reveal_strlit("БСП ");
    reveal_strlit(" БСП ");
    assert(text.skip(text.len() - query.len()) =~= query);
    if configuration.len() > 0 {
        assert(text.take(configuration.len() as int) =~= configuration);
    }
    if ssl_version.len() == 0 {
        assert(text.subrange(0, 0int + ssl_version.len()) =~= ssl_version);
    } else if configuration.len() == 0 {
        a_part_occurs("БСП "@, ssl_version, " "@ + query);
        assert(text =~= "БСП "@ + ssl_version + (" "@ + query));
    } else {
        a_part_occurs(configuration + " БСП "@, ssl_version, " "@ + query);
        assert(text =~= configuration + " БСП "@ + ssl_version + (" "@ + query));
    }
}

/// The text begins with another.
pub open spec fn begins_with(text: Seq<char>, beginning: Seq<char>) -> bool {
    beginning.len() <= text.len() && text.take(beginning.len() as int) == beginning
}

proof fn hint_holds_context(arguments: Fields)
    ensures
        occurs_in(text_or_empty(arguments, "configuration"@), context_hint(arguments)),
        occurs_in(text_or_empty(arguments, "ssl_version"@), context_hint(arguments)),
{
    let configuration = text_or_empty(arguments, "configuration"@);
    let ssl_version = text_or_empty(arguments, "ssl_version"@);
    let hint = context_hint(arguments);
    let none = Seq::<char>::empty();
    if configuration.len() == 0 {
        assert(hint.subrange(0, 0int + configuration.len()) =~= configuration);
    }
    if ssl_version.len() == 0 {
        assert(hint.subrange(0, 0int + ssl_version.len()) =~= ssl_version);
    }
    if configuration.len() > 0 && ssl_version.len() == 0 {
        a_part_occurs("Контекст проекта: "@ + "конфигурация "@, configuration, "."@);
    } else if configuration.len() == 0 && ssl_version.len() > 0 {
        a_part_occurs("Контекст проекта: "@ + "версия БСП "@, ssl_version, "."@);
    } else if configuration.len() > 0 {
        let before = "Контекст проекта: "@ + "конфигурация "@;
        let after = ", "@ + "версия БСП "@ + ssl_version + "."@;
        a_part_occurs(before, configuration, after);
        assert(hint =~= before + configuration + after);
        a_part_occurs(before + configuration + ", "@ + "версия БСП "@, ssl_version, "."@);
    }
}

/// A question is asked as it is, at the beginning of its instruction. Where neither the
/// configuration nor the version of the standard subsystems is given, nothing follows it;
/// else both are named.
pub proof fn questions_are_asked_as_they_are(arguments: Fields, question: Seq<char>)
    requires
        lookup(arguments, "question"@) == Some(JsonView::Text(question)),
    ensures
        ({
            let instruction = message_instruction(ToolKind::Ask, arguments);
            let configuration = text_or_empty(arguments, "configuration"@);
            let ssl_version = text_or_empty(arguments, "ssl_version"@);
            &&& begins_with(instruction, question)
            &&& configuration.len() == 0 && ssl_version.len() == 0 ==> instruction == question
            &&& occurs_in(configuration, instruction)
            &&& occurs_in(ssl_version, instruction)
        }),
{
    let instruction = message_instruction(ToolKind::Ask, arguments);
    let hint = context_hint(arguments);
    let none = Seq::<char>::empty();
    hint_holds_context(arguments);
    context_hint_is_empty_without_context(arguments);
    assert(instruction.take(question.len() as int) =~= question);
    if hint.len() == 0 {
        let configuration = text_or_empty(arguments, "configuration"@);
        let ssl_version = text_or_empty(arguments, "ssl_version"@);
        assert(instruction.subrange(0, 0int + configuration.len()) =~= configuration);
        assert(instruction.subrange(0, 0int + ssl_version.len()) =~= ssl_version);
    } else {
        parts_of_parts_occur(
            text_or_empty(arguments, "configuration"@),
            question + "\n\n"@,
            hint,
            none,
        );
        parts_of_parts_occur(
            text_or_empty(arguments, "ssl_version"@),
            question + "\n\n"@,
            hint,
            none,
        );
        assert(question + "\n\n"@ + hint + none =~= instruction);
    }
}

proof fn context_hint_is_empty_without_context(arguments: Fields)
    ensures
        context_hint(arguments).len() == 0 <==> text_or_empty(arguments, "configuration"@).len()
            == 0 && text_or_empty(arguments, "ssl_version"@).len() == 0,
{
    reveal_strlit(".");
}

/// An explanation is asked of the element that was given, and where a context was given,
/// in that context.
pub proof fn explanations_name_the_element(arguments: Fields, element: Seq<char>)
    requires
        lookup(arguments, "syntax_element"@) == Some(JsonView::Text(element)),
    ensures
        ({
            let instruction = message_instruction(ToolKind::Explain, arguments);
            &&& begins_with(instruction, "Объясни синтаксис и использование: "@ + element)
            &&& lookup(arguments, "context"@) matches Some(JsonView::Text(context)) ==> occurs_in(
                context,
                instruction,
            )
            &&& occurs_in(text_or_empty(arguments, "configuration"@), instruction)
            &&& occurs_in(text_or_empty(arguments, "ssl_version"@), instruction)
        }),
{
    let instruction = message_instruction(ToolKind::Explain, arguments);
    let asked = "Объясни синтаксис и использование: "@ + element;
    let context = text_or_empty(arguments, "context"@);
    let hint = context_hint(arguments);
    let none = Seq::<char>::empty();
    hint_holds_context(arguments);
    context_hint_is_empty_without_context(arguments);
    assert(instruction.take(asked.len() as int) =~= asked);
    if context.len() == 0 {
        assert(instruction.subrange(0, 0int + context.len()) =~= context);
    } else {
        let after = if hint.len() == 0 {
            none
        } else {
            "\n\n"@ + hint
        };
        a_part_occurs(asked + " в контексте: "@, context, after);
        assert(asked + " в контексте: "@ + context + after =~= instruction);
    }
    if hint.len() == 0 {
        let configuration = text_or_empty(arguments, "configuration"@);
        let ssl_version = text_or_empty(arguments, "ssl_version"@);
        assert(instruction.subrange(0, 0int + configuration.len()) =~= configuration);
        assert(instruction.subrange(0, 0int + ssl_version.len()) =~= ssl_version);
    } else {
        let before = (if context.len() == 0 {
            asked
        } else {
            asked + " в контексте: "@ + context
        }) + "\n\n"@;
        parts_of_parts_occur(text_or_empty(arguments, "configuration"@), before, hint, none);
        parts_of_parts_occur(text_or_empty(arguments, "ssl_version"@), before, hint, none);
        assert(before + hint + none =~= instruction);
    }
}

/// The code that is to be checked stands in its instruction, in a fence at the end. A check
/// of the syntax and a review are asked for differently, and an extended check says so.
pub proof fn checks_hold_the_code(arguments: Fields, code: Seq<char>)
    requires
        lookup(arguments, "code"@) == Some(JsonView::Text(code)),
    ensures
        ({
            let instruction = message_instruction(ToolKind::Check, arguments);
            let fenced = "```bsl\n"@ + code + "\n```"@;
            let syntax = lookup(arguments, "check_type"@) == Some(JsonView::Text("syntax"@));
            let extended = lookup(arguments, "extended"@) == Some(JsonView::Bool(true));
            &&& instruction.len() >= fenced.len()
            &&& instruction.skip(instruction.len() - fenced.len()) == fenced
            &&& syntax ==> begins_with(
                instruction,
                "Проверь этот код 1С на синтаксические ошибки перед отправкой пользователю."@,
            )
            &&& syntax && extended ==> occurs_in(
                " Используй расширенную проверку со стандартами 1С."@,
                instruction,
            )
            &&& syntax && !extended ==> instruction.len()
                == "Проверь этот код 1С на синтаксические ошибки перед отправкой пользователю."@.len()
                + "\n\nКод:\n"@.len() + fenced.len()
            &&& !syntax ==> begins_with(instruction, "Проведи code review этого кода 1С."@)
        }),
{
    reveal_strlit(
        "Проведи code review этого кода 1С. Найди ошибки, нарушения стандартов, риски и предложи исправленный вариант.\n\nКод:\n```bsl\n",
    );
    reveal_strlit("Проведи code review этого кода 1С.");
    reveal_strlit("\n\nКод:\n```bsl\n");
    reveal_strlit("\n\nКод:\n");
    reveal_strlit("```bsl\n");
    reveal_strlit("");
    let instruction = message_instruction(ToolKind::Check, arguments);
    let fenced = "```bsl\n"@ + code + "\n```"@;
    let opening =
        "Проверь этот код 1С на синтаксические ошибки перед отправкой пользователю."@;
    let review =
        "Проведи code review этого кода 1С. Найди ошибки, нарушения стандартов, риски и предложи исправленный вариант.\n\nКод:\n```bsl\n"@;
    assert("\n\nКод:\n```bsl\n"@ =~= "\n\nКод:\n"@ + "```bsl\n"@);
    if is_syntax_check(arguments) {
        let suffix = if lookup(arguments, "extended"@) == Some(JsonView::Bool(true)) {
            " Используй расширенную проверку со стандартами 1С."@
        } else {
            ""@
        };
        assert(instruction =~= opening + suffix + ("\n\nКод:\n"@ + fenced));
        a_part_occurs(opening, suffix, "\n\nКод:\n"@ + fenced);
        assert(instruction.take(opening.len() as int) =~= opening);
        assert(instruction.skip(instruction.len() - fenced.len()) =~= fenced);
    } else {
        let before = review.take(review.len() - 7);
        assert(review =~= before + "```bsl\n"@);
        assert(instruction =~= before + fenced);
        assert(instruction.skip(instruction.len() - fenced.len()) =~= fenced);
        let start = "Проведи code review этого кода 1С."@;
        assert(review.take(start.len() as int) =~= start);
        assert(instruction.take(start.len() as int) =~= review.take(start.len() as int));
    }
}

/// A change is asked for as it was given, and with the code where it is not blank.
pub proof fn changes_hold_task_and_code(arguments: Fields, task: Seq<char>, code: Seq<char>)
    requires
        lookup(arguments, "instruction"@) == Some(JsonView::Text(task)),
        lookup(arguments, "code"@) == Some(JsonView::Text(code)),
    ensures
        occurs_in(task, message_instruction(ToolKind::Modify, arguments)),
        trimmed(code).len() > 0 ==> occurs_in(
            "```bsl\n"@ + code + "\n```"@,
            message_instruction(ToolKind::Modify, arguments),
        ),
        occurs_in(
            "mcp__syntax-checker__validate"@,
            message_instruction(ToolKind::Modify, arguments),
        ),
{
    let start =
        "Измени этот код 1С по заданию пользователя. Верни итоговый измененный код и кратко перечисли, что именно было изменено.\n\nЗадание:\n"@;
    let end =
        "\n\nОБЯЗАТЕЛЬНО выполни синтаксическую проверку измененного кода с помощью инструмента mcp__syntax-checker__validate перед отправкой результата."@;
    let instruction = message_instruction(ToolKind::Modify, arguments);
    let none = Seq::<char>::empty();
    reveal_strlit("\n\nКод:\n```bsl\n");
    reveal_strlit("\n\nКод:\n");
    reveal_strlit("```bsl\n");
    assert("\n\nКод:\n```bsl\n"@ =~= "\n\nКод:\n"@ + "```bsl\n"@);
    let fenced = "```bsl\n"@ + code + "\n```"@;
    let shown = if trimmed(code).len() == 0 {
        none
    } else {
        "\n\nКод:\n"@ + fenced
    };
    assert(instruction =~= start + task + (shown + end));
    a_part_occurs(start, task, shown + end);
    if trimmed(code).len() > 0 {
        a_part_occurs(start + task + "\n\nКод:\n"@, fenced, end);
        assert(instruction =~= start + task + "\n\nКод:\n"@ + fenced + end);
    }
    assert(occurs_in("mcp__syntax-checker__validate"@, end)) by {
        reveal_strlit("mcp__syntax-checker__validate");
        reveal_strlit(
            "\n\nОБЯЗАТЕЛЬНО выполни синтаксическую проверку измененного кода с помощью инструмента mcp__syntax-checker__validate перед отправкой результата.",
        );
        let tool = "mcp__syntax-checker__validate"@;
        assert(end.subrange(85, 85int + tool.len()) =~= tool);
    }
    parts_of_parts_occur("mcp__syntax-checker__validate"@, start + task + shown, end, none);
    assert(instruction =~= start + task + shown + end + none);
}

/// The text ends with another.
pub open spec fn ends_with(text: Seq<char>, end: Seq<char>) -> bool {
    end.len() <= text.len() && text.skip(text.len() - end.len()) == end
}

/// A search in the documentation ends with its query and names its version.
pub proof fn documentation_searches_name_query_and_version(
    arguments: Fields,
    query: Seq<char>,
    version: Seq<char>,
)
    requires
        lookup(arguments, "query"@) == Some(JsonView::Text(query)),
        lookup(arguments, "version"@) == Some(JsonView::Text(version)),
    ensures
        ends_with(message_instruction(ToolKind::SearchDocumentation, arguments), query),
        occurs_in(version, message_instruction(ToolKind::SearchDocumentation, arguments)),
{
    let docs = message_instruction(ToolKind::SearchDocumentation, arguments);
    assert(docs.skip(docs.len() - query.len()) =~= query);
    let start =
        "Найди информацию в документации платформы 1С:Предприятие. Используй документацию версии "@;
    let after = ". Верни краткий, но информативный ответ по найденным данным.\n\nЗапрос: "@ + query;
    a_part_occurs(start, version, after);
    assert(docs =~= start + version + after);
}

/// A search in the knowledge base ends with its query and names its context.
pub proof fn knowledge_searches_name_query_and_context(arguments: Fields, query: Seq<char>)
    requires
        lookup(arguments, "query"@) == Some(JsonView::Text(query)),
    ensures
        ends_with(message_instruction(ToolKind::SearchIts, arguments), query),
        occurs_in(
            text_or_empty(arguments, "configuration"@),
            message_instruction(ToolKind::SearchIts, arguments),
        ),
        occurs_in(
            text_or_empty(arguments, "ssl_version"@),
            message_instruction(ToolKind::SearchIts, arguments),
        ),
{
    let its = message_instruction(ToolKind::SearchIts, arguments);
    let start =
        "Выполни поиск в базе знаний ИТС по этому запросу. Верни фактический результат и обязательно сохрани ссылки на источники.\n"@;
    let hint = context_hint(arguments);
    let configuration = text_or_empty(arguments, "configuration"@);
    let ssl_version = text_or_empty(arguments, "ssl_version"@);
    assert(its.skip(its.len() - query.len()) =~= query);
    hint_holds_context(arguments);
    context_hint_is_empty_without_context(arguments);
    if hint.len() == 0 {
        assert(its.subrange(0, 0int + configuration.len()) =~= configuration);
        assert(its.subrange(0, 0int + ssl_version.len()) =~= ssl_version);
    } else {
        let rest = "\n"@ + "\nЗапрос: "@ + query;
        parts_of_parts_occur(configuration, start, hint, rest);
        parts_of_parts_occur(ssl_version, start, hint, rest);
        assert(its =~= start + hint + rest);
    }
}

/// A document is asked for by its identifier.
pub proof fn documents_are_asked_for_by_their_identifier(arguments: Fields, id: Seq<char>)
    requires
        lookup(arguments, "id"@) == Some(JsonView::Text(id)),
    ensures
        ends_with(message_instruction(ToolKind::FetchIts, arguments), id),
{
    let fetch = message_instruction(ToolKind::FetchIts, arguments);
    assert(fetch.skip(fetch.len() - id.len()) =~= id);
}

/// A comparison names the earlier version as the earlier and the later as the later, and
/// what is compared where it is given.
pub proof fn comparisons_name_both_versions(
    arguments: Fields,
    first: Seq<char>,
    second: Seq<char>,
    query: Seq<char>,
)
    requires
        lookup(arguments, "version_a"@) == Some(JsonView::Text(first)),
        lookup(arguments, "version_b"@) == Some(JsonView::Text(second)),
        lookup(arguments, "query"@) == Some(JsonView::Text(query)),
    ensures
        occurs_in(
            "ранняя версия: "@ + first + "\nБолее поздняя версия: "@ + second,
            message_instruction(ToolKind::DiffDocumentation, arguments),
        ),
        ends_with(message_instruction(ToolKind::DiffDocumentation, arguments), query),
{
    let diff = message_instruction(ToolKind::DiffDocumentation, arguments);
    let none = Seq::<char>::empty();
    let opening =
        "Сравни документацию платформы 1С между двумя версиями и верни различия.\n\nБолее ранняя версия: "@;
    let earlier = "ранняя версия: "@;
    let head = opening.take(opening.len() - earlier.len());
    assert(opening =~= head + earlier) by {
        reveal_strlit(
            "Сравни документацию платформы 1С между двумя версиями и верни различия.\n\nБолее ранняя версия: ",
        );
        reveal_strlit("ранняя версия: ");
    }
    let scope = if query.len() == 0 {
        none
    } else {
        "\nПредметная область: "@ + query
    };
    let named = earlier + first + "\nБолее поздняя версия: "@ + second;
    assert(diff =~= head + named + scope);
    a_part_occurs(head, named, scope);
    if query.len() == 0 {
        assert(diff.skip(diff.len() - query.len()) =~= query);
    } else {
        assert(diff.skip(diff.len() - query.len()) =~= query);
    }
}

/// An internal tool is asked for by its name, and with its arguments in JSON where they can
/// be written so.
pub proof fn exact_calls_are_spelled_out(name: Seq<char>, arguments: Fields)
    ensures
        occurs_in(name, exact_instruction(name, arguments)),
        tree_text(settled(JsonView::Object(arguments))) matches Some(encoded) ==> occurs_in(
            encoded,
            exact_instruction(name, arguments),
        ),
{
    let encoded = match tree_text(settled(JsonView::Object(arguments))) {
        Some(encoded) => encoded,
        None => "{}"@,
    };
    let start = "Внутренняя инструкция.\nНужно вернуть ровно один tool call для "@;
    let middle =
        ".\nНе используй другие инструменты.\nСохрани все символы в аргументах без изменений.\nИспользуй ровно эти JSON-аргументы: "@;
    let end = "\nНе отвечай обычным текстом до tool call."@;
    let whole = exact_instruction(name, arguments);
    a_part_occurs(start, name, middle + encoded + end);
    assert(whole =~= start + name + (middle + encoded + end));
    a_part_occurs(start + name + middle, encoded, end);
}

/// What is said to the assistant is the instruction of the route that was chosen.
pub proof fn instructions_follow_the_route(route: RouteView, kind: ToolKind, arguments: Fields)
    ensures
        route is Message ==> route_instruction(route, kind, arguments) == message_instruction(
            kind,
            arguments,
        ),
        route matches RouteView::Exact { name, arguments: exact } ==> route_instruction(
            route,
            kind,
            arguments,
        ) == exact_instruction(name, exact),
{
}

} // verus!
