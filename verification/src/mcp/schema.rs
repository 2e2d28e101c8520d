//! The public tools and their input schemas.

use vstd::prelude::*;

use crate::json::{
    array_view,
    lookup,
    lookup_put,
    nothing_else_is_put,
    pair_views,
    put,
    put_all,
    the_last_pair_stands,
    Fields,
    JsonView,
};
use crate::json::{array_holds_items, Json, JsonNumber, JsonObject};

verus! {

pub const ASK_DESCRIPTION: &'static str =
    "Задать общий вопрос по платформе 1С:Предприятие и получить ответ, объяснение или практическую рекомендацию. Используй для общих вопросов по функциональности платформы, подходам к разработке и типовым сценариям, когда не нужен отдельный специализированный поиск по документации или ИТС.";

pub const EXPLAIN_DESCRIPTION: &'static str =
    "Объяснить конкретный элемент синтаксиса, объект или тип платформы 1С с примерами использования. Используй, когда нужно понять, как работает конкретный метод, объект, коллекция или конструкция языка.";

pub const CHECK_DESCRIPTION: &'static str =
    "Проверить присланный BSL/1C код. Используй check_type='syntax' для быстрой синтаксической проверки конкретного фрагмента и check_type='review' для code review, поиска ошибок и замечаний по качеству кода. Проверка syntax выполняется без глобального контекста, поэтому возможны ложные срабатывания по необъявленным переменным и методам.";

pub const MODIFY_DESCRIPTION: &'static str =
    "Изменить код 1С по явному заданию пользователя: исправить ошибку, сделать рефакторинг или добавить функциональность. В instruction опиши, какие изменения нужны и что ожидается на выходе. Если есть исходный код, передай его в параметре code.";

pub const SEARCH_DOCS_DESCRIPTION: &'static str =
    "Поиск по документации платформы 1С:Предприятие. Используй, когда вопрос касается функциональности самой платформы: объектов, методов, свойств, синтаксиса и параметров, а также перед написанием кода, если нужна точная документация по элементу платформы. Не выдумывай синтаксис и поведение, если их можно сначала найти в документации. Для общих запросов формируй query так, чтобы он искал обзорную информацию: 'Общая информация о ...', 'Список всех ...', 'Все ...'. Если пользователь указал версию платформы, обязательно передай её.";

pub const SEARCH_ITS_DESCRIPTION: &'static str =
    "Поиск по базе знаний ИТС. Используй для стандартов и правил разработки на 1С, методических материалов, практических примеров, вопросов по конкретным конфигурациям и продуктам 1С, а также по EDT и Конфигуратору. Для фактологических вопросов по экосистеме 1С предпочитай именно этот инструмент, а не ответ по памяти. Если найденной информации недостаточно, переформулируй query или затем используй fetch_its для чтения конкретного документа.";

pub const FETCH_ITS_DESCRIPTION: &'static str =
    "Получить содержимое документа, каталога или базы ИТС по id. Обычно используется после search_its, когда уже найден нужный документ, либо для исследования структуры ИТС с id='root'. Поддерживаются как специальные id вроде root, superior, v8std, так и идентификаторы документов и каталогов вида its-...-hdoc или its-...-hdir, возможно с 1-2 якорями через '/'. Обычно id документа выглядит как 'its-{database_id}-{doc_or_dir_id}-(hdoc|hdir|...)'.";

pub const DIFF_DESCRIPTION: &'static str =
    "Сравнить документацию платформы 1С между двумя версиями. Используй, когда спрашивают об изменениях между версиями платформы. version_a должна быть более ранней, version_b — более поздней. Параметр query задаёт предметную область сравнения. Если разница пустая, но вернулся список изменённых файлов, значит query нужно переформулировать.";

pub const QUESTION_FIELD: &'static str =
    "Вопрос или задача на русском языке. Старайся формулировать конкретно.";

pub const PROGRAMMING_LANGUAGE_FIELD: &'static str =
    "Язык, если вопрос связан с кодом или синтаксисом.";

pub const SYNTAX_ELEMENT_FIELD: &'static str =
    "Название элемента, который нужно объяснить, например HTTPЗапрос, ТаблицаЗначений или Запрос.";

pub const CONTEXT_FIELD: &'static str =
    "Дополнительный контекст использования, если он важен для ответа.";

pub const CHECKED_CODE_FIELD: &'static str =
    "Проверяемый фрагмент кода 1С.";

pub const CHECK_TYPE_FIELD: &'static str =
    "syntax — синтаксическая проверка; review — code review. Значения logic/performance сохранены для обратной совместимости и обрабатываются как review.";

pub const EXTENDED_FIELD: &'static str =
    "Только для syntax: включить обогащение стандартами 1С.";

pub const INSTRUCTION_FIELD: &'static str =
    "Четкое описание задачи на русском языке: что нужно изменить и какой результат ожидается.";

pub const MODIFIED_CODE_FIELD: &'static str =
    "Исходный код 1С, который нужно изменить.";

pub const DOCUMENTATION_QUERY_FIELD: &'static str =
    "Поисковый запрос для embedding-поиска. Для общих тем лучше писать 'Общая информация о ...' или 'Список всех ...'.";

pub const VERSION_FIELD: &'static str =
    "Версия документации платформы в формате v8.x.x или v8.x.x.x.";

pub const ITS_QUERY_FIELD: &'static str =
    "Поисковый запрос для embedding-поиска по ИТС.";

pub const ITS_ID_FIELD: &'static str =
    "Идентификатор документа, каталога или базы ИТС: root, superior, v8std или строка вида its-...-hdoc/hdir.";

pub const VERSION_A_FIELD: &'static str =
    "Более ранняя версия в формате v8.3.27 или v8.3.27.189.";

pub const VERSION_B_FIELD: &'static str =
    "Более поздняя версия в формате v8.3.27 или v8.3.27.189.";

pub const DIFF_QUERY_FIELD: &'static str =
    "Необязательная предметная область сравнения, например 'HTTP соединение'.";

pub const SSL_VERSION_FIELD: &'static str = "Версия Библиотеки Стандартных Подсистем (БСП).";

pub const CONFIGURATION_FIELD: &'static str =
    "Конфигурация 1С (например: Бухгалтерия предприятия, ERP, Управление торговлей).";

/// A public tool.
#[derive(Clone, Copy, Debug, PartialEq, Eq, Structural)]
pub enum ToolKind {
    Ask,
    Explain,
    Check,
    Modify,
    SearchDocumentation,
    SearchIts,
    FetchIts,
    DiffDocumentation,
}

/// The name that a tool is called by.
pub open spec fn tool_name(kind: ToolKind) -> Seq<char> {
    match kind {
        ToolKind::Ask => "ask_1c_ai"@,
        ToolKind::Explain => "explain_1c_syntax"@,
        ToolKind::Check => "check_1c_code"@,
        ToolKind::Modify => "modify_1c_code"@,
        ToolKind::SearchDocumentation => "search_1c_documentation"@,
        ToolKind::SearchIts => "search_its"@,
        ToolKind::FetchIts => "fetch_its"@,
        ToolKind::DiffDocumentation => "diff_1c_documentation_versions"@,
    }
}

/// The fields of a tool's arguments, in the order in which they are checked.
pub open spec fn field_order(kind: ToolKind) -> Seq<Seq<char>> {
    match kind {
        ToolKind::Ask => seq!["question"@, "programming_language"@, "ssl_version"@, "configuration"@],
        ToolKind::Explain => seq!["syntax_element"@, "context"@, "ssl_version"@, "configuration"@],
        ToolKind::Check => seq!["code"@, "check_type"@, "extended"@],
        ToolKind::Modify => seq!["instruction"@, "code"@],
        ToolKind::SearchDocumentation => seq!["query"@, "version"@],
        ToolKind::SearchIts => seq!["query"@, "ssl_version"@, "configuration"@],
        ToolKind::FetchIts => seq!["id"@],
        ToolKind::DiffDocumentation => seq!["version_a"@, "version_b"@, "query"@],
    }
}

/// What a tool says of itself.
pub open spec fn tool_description(kind: ToolKind) -> Seq<char> {
    match kind {
        ToolKind::Ask => ASK_DESCRIPTION@,
        ToolKind::Explain => EXPLAIN_DESCRIPTION@,
        ToolKind::Check => CHECK_DESCRIPTION@,
        ToolKind::Modify => MODIFY_DESCRIPTION@,
        ToolKind::SearchDocumentation => SEARCH_DOCS_DESCRIPTION@,
        ToolKind::SearchIts => SEARCH_ITS_DESCRIPTION@,
        ToolKind::FetchIts => FETCH_ITS_DESCRIPTION@,
        ToolKind::DiffDocumentation => DIFF_DESCRIPTION@,
    }
}

/// The title of a tool's arguments.
pub open spec fn tool_title(kind: ToolKind) -> Seq<char> {
    match kind {
        ToolKind::Ask => "Ask 1C expert"@,
        ToolKind::Explain => "Explain 1C syntax"@,
        ToolKind::Check => "Check 1C code"@,
        ToolKind::Modify => "Modify 1C code"@,
        ToolKind::SearchDocumentation => "Search 1C documentation"@,
        ToolKind::SearchIts => "Search ITS"@,
        ToolKind::FetchIts => "Fetch ITS"@,
        ToolKind::DiffDocumentation => "Diff 1C documentation versions"@,
    }
}

/// The fields that a call must give.
pub open spec fn required_fields(kind: ToolKind) -> Seq<Seq<char>> {
    match kind {
        ToolKind::Ask => seq!["question"@],
        ToolKind::Explain => seq!["syntax_element"@],
        ToolKind::Check => seq!["code"@],
        ToolKind::Modify => seq!["instruction"@],
        ToolKind::SearchDocumentation => seq!["query"@],
        ToolKind::SearchIts => seq!["query"@],
        ToolKind::FetchIts => Seq::<Seq<char>>::empty(),
        ToolKind::DiffDocumentation => seq!["version_a"@, "version_b"@],
    }
}

/// A further name under which a tool can be called.
pub open spec fn tool_alias(kind: ToolKind) -> Option<Seq<char>> {
    match kind {
        ToolKind::Ask => None,
        ToolKind::Explain => None,
        ToolKind::Check => None,
        ToolKind::Modify => None,
        ToolKind::SearchDocumentation => Some("Search_1C_Documentation"@),
        ToolKind::SearchIts => Some("Search_ITS"@),
        ToolKind::FetchIts => Some("Fetch_ITS"@),
        ToolKind::DiffDocumentation => Some("Diff_1C_Documentation_Versions"@),
    }
}

/// The characters of a list of texts.
pub open spec fn names_view(names: Seq<&'static str>) -> Seq<Seq<char>> {
    names.map_values(|name: &'static str| name@)
}

impl ToolKind {
    /// The name that the tool is called by.
    pub fn name(self) -> (res: &'static str)
        ensures
            res@ == tool_name(self),
    {
        match self {
            ToolKind::Ask => "ask_1c_ai",
            ToolKind::Explain => "explain_1c_syntax",
            ToolKind::Check => "check_1c_code",
            ToolKind::Modify => "modify_1c_code",
            ToolKind::SearchDocumentation => "search_1c_documentation",
            ToolKind::SearchIts => "search_its",
            ToolKind::FetchIts => "fetch_its",
            ToolKind::DiffDocumentation => "diff_1c_documentation_versions",
        }
    }

    /// The fields of the tool's arguments, in the order in which they are checked.
    pub fn field_order(self) -> (res: Vec<&'static str>)
        ensures
            names_view(res@) == field_order(self),
    {
        let mut names: Vec<&'static str> = Vec::new();
        match self {
            ToolKind::Ask => {
                names.push("question");
                names.push("programming_language");
                names.push("ssl_version");
                names.push("configuration");
            },
            ToolKind::Explain => {
                names.push("syntax_element");
                names.push("context");
                names.push("ssl_version");
                names.push("configuration");
            },
            ToolKind::Check => {
                names.push("code");
                names.push("check_type");
                names.push("extended");
            },
            ToolKind::Modify => {
                names.push("instruction");
                names.push("code");
            },
            ToolKind::SearchDocumentation => {
                names.push("query");
                names.push("version");
            },
            ToolKind::SearchIts => {
                names.push("query");
                names.push("ssl_version");
                names.push("configuration");
            },
            ToolKind::FetchIts => {
                names.push("id");
            },
            ToolKind::DiffDocumentation => {
                names.push("version_a");
                names.push("version_b");
                names.push("query");
            },
        }
        assert(names_view(names@) =~= field_order(self));
        names
    }

    /// What the tool says of itself.
    pub fn description(self) -> (res: &'static str)
        ensures
            res@ == tool_description(self),
    {
        match self {
            ToolKind::Ask => ASK_DESCRIPTION,
            ToolKind::Explain => EXPLAIN_DESCRIPTION,
            ToolKind::Check => CHECK_DESCRIPTION,
            ToolKind::Modify => MODIFY_DESCRIPTION,
            ToolKind::SearchDocumentation => SEARCH_DOCS_DESCRIPTION,
            ToolKind::SearchIts => SEARCH_ITS_DESCRIPTION,
            ToolKind::FetchIts => FETCH_ITS_DESCRIPTION,
            ToolKind::DiffDocumentation => DIFF_DESCRIPTION,
        }
    }

    /// The title of the tool's arguments.
    pub fn title(self) -> (res: &'static str)
        ensures
            res@ == tool_title(self),
    {
        match self {
            ToolKind::Ask => "Ask 1C expert",
            ToolKind::Explain => "Explain 1C syntax",
            ToolKind::Check => "Check 1C code",
            ToolKind::Modify => "Modify 1C code",
            ToolKind::SearchDocumentation => "Search 1C documentation",
            ToolKind::SearchIts => "Search ITS",
            ToolKind::FetchIts => "Fetch ITS",
            ToolKind::DiffDocumentation => "Diff 1C documentation versions",
        }
    }

    /// The fields that a call must give.
    pub fn required_fields(self) -> (res: Vec<&'static str>)
        ensures
            names_view(res@) == required_fields(self),
    {
        let mut names: Vec<&'static str> = Vec::new();
        match self {
            ToolKind::Ask => {
                names.push("question");
            },
            ToolKind::Explain => {
                names.push("syntax_element");
            },
            ToolKind::Check => {
                names.push("code");
            },
            ToolKind::Modify => {
                names.push("instruction");
            },
            ToolKind::SearchDocumentation => {
                names.push("query");
            },
            ToolKind::SearchIts => {
                names.push("query");
            },
            ToolKind::FetchIts => {
            },
            ToolKind::DiffDocumentation => {
                names.push("version_a");
                names.push("version_b");
            },
        }
        assert(names_view(names@) =~= required_fields(self));
        names
    }

    /// A further name under which the tool can be called.
    pub fn alias(self) -> (res: Option<&'static str>)
        ensures
            match res {
                Some(name) => tool_alias(self) == Some(name@),
                None => tool_alias(self) is None,
            },
    {
        match self {
            ToolKind::Ask => None,
            ToolKind::Explain => None,
            ToolKind::Check => None,
            ToolKind::Modify => None,
            ToolKind::SearchDocumentation => Some("Search_1C_Documentation"),
            ToolKind::SearchIts => Some("Search_ITS"),
            ToolKind::FetchIts => Some("Fetch_ITS"),
            ToolKind::DiffDocumentation => Some("Diff_1C_Documentation_Versions"),
        }
    }
}

/// An array of texts.
pub open spec fn text_array(texts: Seq<Seq<char>>) -> JsonView {
    JsonView::Array(texts.map_values(|text: Seq<char>| JsonView::Text(text)))
}

/// A whole number.
pub open spec fn whole(n: u64) -> JsonView {
    JsonView::Number(JsonNumber::Unsigned(n))
}

/// The schema of a text: its choices where there are any, its default and the bounds of
/// its length where it has them.
pub open spec fn text_property(
    description: Seq<char>,
    choices: Seq<Seq<char>>,
    default: Option<Seq<char>>,
    min: Option<u64>,
    max: Option<u64>,
) -> JsonView {
    let base = put_all(
        seq![("type"@, JsonView::Text("string"@)), ("description"@, JsonView::Text(description))],
    );
    let chosen = if choices.len() > 0 {
        put(base, "enum"@, text_array(choices))
    } else {
        base
    };
    let defaulted = match default {
        Some(text) => put(chosen, "default"@, JsonView::Text(text)),
        None => chosen,
    };
    let bounded_below = match min {
        Some(n) => put(defaulted, "minLength"@, whole(n)),
        None => defaulted,
    };
    JsonView::Object(
        match max {
            Some(n) => put(bounded_below, "maxLength"@, whole(n)),
            None => bounded_below,
        },
    )
}

/// The schema of a flag that is off by default.
pub open spec fn flag_property(description: Seq<char>) -> JsonView {
    JsonView::Object(
        put_all(
            seq![
                ("type"@, JsonView::Text("boolean"@)),
                ("description"@, JsonView::Text(description)),
                ("default"@, JsonView::Bool(false)),
            ],
        ),
    )
}

/// A description that names the default, where there is one.
pub open spec fn context_description(base: Seq<char>, default: Seq<char>) -> Seq<char> {
    if default.len() == 0 {
        base
    } else {
        base + " По умолчанию: "@ + default + "."@
    }
}

/// The schema of the version of the standard subsystems.
pub open spec fn ssl_version_property(ssl: Seq<char>) -> JsonView {
    text_property(
        context_description(SSL_VERSION_FIELD@, ssl),
        Seq::empty(),
        Some(ssl),
        None,
        None,
    )
}

/// The schema of the configuration.
pub open spec fn configuration_property(configuration: Seq<char>) -> JsonView {
    text_property(
        context_description(CONFIGURATION_FIELD@, configuration),
        Seq::empty(),
        Some(configuration),
        None,
        None,
    )
}

/// The fields of a tool's arguments with their schemas.
pub open spec fn tool_properties(
    kind: ToolKind,
    min: u64,
    max: u64,
    ssl: Seq<char>,
    configuration: Seq<char>,
) -> Fields {
    match kind {
        ToolKind::Ask => seq![
            ("question"@, text_property(QUESTION_FIELD@, Seq::empty(), None, Some(min), Some(max))),
            ("programming_language"@, text_property(PROGRAMMING_LANGUAGE_FIELD@, seq![""@, "BSL"@, "SQL"@, "JSON"@, "HTTP"@], Some(""@), None, Some(max))),
            ("ssl_version"@, ssl_version_property(ssl)),
            ("configuration"@, configuration_property(configuration)),
        ],
        ToolKind::Explain => seq![
            ("syntax_element"@, text_property(SYNTAX_ELEMENT_FIELD@, Seq::empty(), None, Some(min), Some(max))),
            ("context"@, text_property(CONTEXT_FIELD@, Seq::empty(), Some(""@), Some(0), Some(max))),
            ("ssl_version"@, ssl_version_property(ssl)),
            ("configuration"@, configuration_property(configuration)),
        ],
        ToolKind::Check => seq![
            ("code"@, text_property(CHECKED_CODE_FIELD@, Seq::empty(), None, Some(min), Some(max))),
            ("check_type"@, text_property(CHECK_TYPE_FIELD@, seq!["syntax"@, "review"@, "logic"@, "performance"@], Some("syntax"@), None, None)),
            ("extended"@, flag_property(EXTENDED_FIELD@)),
        ],
        ToolKind::Modify => seq![
            ("instruction"@, text_property(INSTRUCTION_FIELD@, Seq::empty(), None, Some(min), Some(max))),
            ("code"@, text_property(MODIFIED_CODE_FIELD@, Seq::empty(), Some(""@), Some(0), Some(max))),
        ],
        ToolKind::SearchDocumentation => seq![
            ("query"@, text_property(DOCUMENTATION_QUERY_FIELD@, Seq::empty(), None, Some(min), Some(max))),
            ("version"@, text_property(VERSION_FIELD@, Seq::empty(), Some("v8.5.1"@), None, Some(max))),
        ],
        ToolKind::SearchIts => seq![
            ("query"@, text_property(ITS_QUERY_FIELD@, Seq::empty(), None, Some(min), Some(max))),
            ("ssl_version"@, ssl_version_property(ssl)),
            ("configuration"@, configuration_property(configuration)),
        ],
        ToolKind::FetchIts => seq![
            ("id"@, text_property(ITS_ID_FIELD@, Seq::empty(), Some("root"@), Some(1), Some(max))),
        ],
        ToolKind::DiffDocumentation => seq![
            ("version_a"@, text_property(VERSION_A_FIELD@, Seq::empty(), None, Some(2), Some(max))),
            ("version_b"@, text_property(VERSION_B_FIELD@, Seq::empty(), None, Some(2), Some(max))),
            ("query"@, text_property(DIFF_QUERY_FIELD@, Seq::empty(), Some(""@), None, Some(max))),
        ],
    }
}

/// The schema of a tool's arguments.
pub open spec fn object_schema(title: Seq<char>, properties: Fields, required: Seq<Seq<char>>) -> Fields {
    put_all(
        seq![
            ("type"@, JsonView::Text("object"@)),
            ("title"@, JsonView::Text(title)),
            ("properties"@, JsonView::Object(put_all(properties))),
            ("required"@, text_array(required)),
        ],
    )
}

/// What clients are shown of a tool.
#[derive(Debug)]
pub struct ToolDescriptor {
    pub name: &'static str,
    pub description: &'static str,
    pub input_schema: JsonObject,
}

/// The content of a [`ToolDescriptor`].
pub struct ToolView {
    pub name: Seq<char>,
    pub description: Seq<char>,
    pub schema: Fields,
}

impl View for ToolDescriptor {
    type V = ToolView;

    open spec fn view(&self) -> ToolView {
        ToolView {
            name: self.name@,
            description: self.description@,
            schema: self.input_schema@,
        }
    }
}

impl ToolDescriptor {
    /// A copy.
    pub fn duplicate(&self) -> (res: ToolDescriptor)
        ensures
            res@ == self@,
    {
        ToolDescriptor {
            name: self.name,
            description: self.description,
            input_schema: self.input_schema.duplicate(),
        }
    }
}

/// A tool as the catalog keeps it.
#[derive(Debug)]
pub struct ToolDefinition {
    pub kind: ToolKind,
    pub tool: ToolDescriptor,
}

/// The content of a [`ToolDefinition`].
pub struct DefinitionView {
    pub kind: ToolKind,
    pub tool: ToolView,
}

impl View for ToolDefinition {
    type V = DefinitionView;

    open spec fn view(&self) -> DefinitionView {
        DefinitionView { kind: self.kind, tool: self.tool@ }
    }
}

/// The content of a list of definitions.
pub open spec fn definition_views(definitions: Seq<ToolDefinition>) -> Seq<DefinitionView> {
    definitions.map_values(|definition: ToolDefinition| definition@)
}

/// One tool, under these limits and defaults.
pub open spec fn tool_definition(
    kind: ToolKind,
    min: u64,
    max: u64,
    ssl: Seq<char>,
    configuration: Seq<char>,
) -> DefinitionView {
    DefinitionView {
        kind,
        tool: ToolView {
            name: tool_name(kind),
            description: tool_description(kind),
            schema: object_schema(
                tool_title(kind),
                tool_properties(kind, min, max, ssl, configuration),
                required_fields(kind),
            ),
        },
    }
}

/// The public tools in their order.
pub open spec fn tool_order() -> Seq<ToolKind> {
    seq![
        ToolKind::Ask,
        ToolKind::Explain,
        ToolKind::Check,
        ToolKind::Modify,
        ToolKind::SearchDocumentation,
        ToolKind::SearchIts,
        ToolKind::FetchIts,
        ToolKind::DiffDocumentation,
    ]
}

/// Every public tool, under these limits and defaults.
pub open spec fn tool_definitions(
    min: u64,
    max: u64,
    ssl: Seq<char>,
    configuration: Seq<char>,
) -> Seq<DefinitionView> {
    tool_order().map_values(|kind: ToolKind| tool_definition(kind, min, max, ssl, configuration))
}

fn text_array_of(texts: &Vec<&'static str>) -> (res: Json)
    ensures
        res@ == text_array(names_view(texts@)),
{
    let mut items: Vec<Json> = Vec::new();
    let mut i: usize = 0;
    while i < texts.len()
        invariant
            i <= texts@.len(),
            items@.len() == i,
            forall|k: int| 0 <= k < i ==> (#[trigger] items@[k])@ == JsonView::Text(texts@[k]@),
        decreases texts@.len() - i,
    {
        items.push(Json::Text(texts[i].to_owned()));
        i += 1;
    }
    proof {
        array_holds_items(items);
        assert(array_view(items@) =~= names_view(texts@).map_values(
            |text: Seq<char>| JsonView::Text(text),
        ));
    }
    Json::Array(items)
}

fn whole_number(n: u64) -> (res: Json)
    ensures
        res@ == whole(n),
{
    Json::Number(JsonNumber::Unsigned(n))
}

fn text_schema(
    description: &str,
    choices: Vec<&'static str>,
    default: Option<&str>,
    min: Option<u64>,
    max: Option<u64>,
) -> (res: Json)
    ensures
        res@ == text_property(
            description@,
            names_view(choices@),
            match default {
                Some(text) => Some(text@),
                None => None,
            },
            min,
            max,
        ),
{
    let mut pairs: Vec<(String, Json)> = Vec::new();
    pairs.push(("type".to_owned(), Json::Text("string".to_owned())));
    pairs.push(("description".to_owned(), Json::Text(description.to_owned())));
    assert(pair_views(pairs@) =~= seq![
        ("type"@, JsonView::Text("string"@)),
        ("description"@, JsonView::Text(description@)),
    ]);
    let mut property: JsonObject = JsonObject::from_pairs(pairs);
    if choices.len() > 0 {
        property.insert("enum".to_owned(), text_array_of(&choices));
    }
    match default {
        Some(text) => property.insert("default".to_owned(), Json::Text(text.to_owned())),
        None => {},
    }
    match min {
        Some(n) => property.insert("minLength".to_owned(), whole_number(n)),
        None => {},
    }
    match max {
        Some(n) => property.insert("maxLength".to_owned(), whole_number(n)),
        None => {},
    }
    Json::Object(property)
}

fn plain_text_schema(description: &str, default: Option<&str>, min: Option<u64>, max: Option<u64>) -> (res:
    Json)
    ensures
        res@ == text_property(
            description@,
            Seq::empty(),
            match default {
                Some(text) => Some(text@),
                None => None,
            },
            min,
            max,
        ),
{
    let choices: Vec<&'static str> = Vec::new();
    assert(names_view(choices@) =~= Seq::empty());
    text_schema(description, choices, default, min, max)
}

fn flag_schema(description: &str) -> (res: Json)
    ensures
        res@ == flag_property(description@),
{
    let mut pairs: Vec<(String, Json)> = Vec::new();
    pairs.push(("type".to_owned(), Json::Text("boolean".to_owned())));
    pairs.push(("description".to_owned(), Json::Text(description.to_owned())));
    pairs.push(("default".to_owned(), Json::Bool(false)));
    assert(pair_views(pairs@) =~= seq![
        ("type"@, JsonView::Text("boolean"@)),
        ("description"@, JsonView::Text(description@)),
        ("default"@, JsonView::Bool(false)),
    ]);
    Json::Object(JsonObject::from_pairs(pairs))
}

fn describe_context(base: &str, default: &str) -> (res: String)
    ensures
        res@ == context_description(base@, default@),
{
    let mut text: String = base.to_owned();
    if !default.is_empty() {
        text.append(" По умолчанию: ");
        text.append(default);
        text.append(".");
    }
    text
}

fn push_context(pairs: &mut Vec<(String, Json)>, ssl: &str, configuration: &str)
    ensures
        pair_views(final(pairs)@) == pair_views(old(pairs)@) + seq![
            ("ssl_version"@, ssl_version_property(ssl@)),
            ("configuration"@, configuration_property(configuration@)),
        ],
{
    let ssl_description: String = describe_context(SSL_VERSION_FIELD, ssl);
    let configuration_description: String = describe_context(CONFIGURATION_FIELD, configuration);
    let ghost before: Seq<(String, Json)> = pairs@;
    pairs.push(
        (
            "ssl_version".to_owned(),
            plain_text_schema(ssl_description.as_str(), Some(ssl), None, None),
        ),
    );
    pairs.push(
        (
            "configuration".to_owned(),
            plain_text_schema(configuration_description.as_str(), Some(configuration), None, None),
        ),
    );
    assert(pair_views(pairs@) =~= pair_views(before) + seq![
        ("ssl_version"@, ssl_version_property(ssl@)),
        ("configuration"@, configuration_property(configuration@)),
    ]);
}

fn build_properties(kind: ToolKind, min: u64, max: u64, ssl: &str, configuration: &str) -> (res: Vec<
    (String, Json),
>)
    ensures
        pair_views(res@) == tool_properties(kind, min, max, ssl@, configuration@),
{
    let mut pairs: Vec<(String, Json)> = Vec::new();
    match kind {
        ToolKind::Ask => {
            let mut choices: Vec<&'static str> = Vec::new();
            choices.push("");
            choices.push("BSL");
            choices.push("SQL");
            choices.push("JSON");
            choices.push("HTTP");
            assert(names_view(choices@) =~= seq![""@, "BSL"@, "SQL"@, "JSON"@, "HTTP"@]);
            pairs.push(("question".to_owned(), plain_text_schema(QUESTION_FIELD, None, Some(min), Some(max))));
            pairs.push(("programming_language".to_owned(), text_schema(PROGRAMMING_LANGUAGE_FIELD, choices, Some(""), None, Some(max))));
            push_context(&mut pairs, ssl, configuration);
        },
        ToolKind::Explain => {
            pairs.push(("syntax_element".to_owned(), plain_text_schema(SYNTAX_ELEMENT_FIELD, None, Some(min), Some(max))));
            pairs.push(("context".to_owned(), plain_text_schema(CONTEXT_FIELD, Some(""), Some(0), Some(max))));
            push_context(&mut pairs, ssl, configuration);
        },
        ToolKind::Check => {
            let mut choices: Vec<&'static str> = Vec::new();
            choices.push("syntax");
            choices.push("review");
            choices.push("logic");
            choices.push("performance");
            assert(names_view(choices@) =~= seq!["syntax"@, "review"@, "logic"@, "performance"@]);
            pairs.push(("code".to_owned(), plain_text_schema(CHECKED_CODE_FIELD, None, Some(min), Some(max))));
            pairs.push(("check_type".to_owned(), text_schema(CHECK_TYPE_FIELD, choices, Some("syntax"), None, None)));
            pairs.push(("extended".to_owned(), flag_schema(EXTENDED_FIELD)));
        },
        ToolKind::Modify => {
            pairs.push(("instruction".to_owned(), plain_text_schema(INSTRUCTION_FIELD, None, Some(min), Some(max))));
            pairs.push(("code".to_owned(), plain_text_schema(MODIFIED_CODE_FIELD, Some(""), Some(0), Some(max))));
        },
        ToolKind::SearchDocumentation => {
            pairs.push(("query".to_owned(), plain_text_schema(DOCUMENTATION_QUERY_FIELD, None, Some(min), Some(max))));
            pairs.push(("version".to_owned(), plain_text_schema(VERSION_FIELD, Some("v8.5.1"), None, Some(max))));
        },
        ToolKind::SearchIts => {
            pairs.push(("query".to_owned(), plain_text_schema(ITS_QUERY_FIELD, None, Some(min), Some(max))));
            push_context(&mut pairs, ssl, configuration);
        },
        ToolKind::FetchIts => {
            pairs.push(("id".to_owned(), plain_text_schema(ITS_ID_FIELD, Some("root"), Some(1), Some(max))));
        },
        ToolKind::DiffDocumentation => {
            pairs.push(("version_a".to_owned(), plain_text_schema(VERSION_A_FIELD, None, Some(2), Some(max))));
            pairs.push(("version_b".to_owned(), plain_text_schema(VERSION_B_FIELD, None, Some(2), Some(max))));
            pairs.push(("query".to_owned(), plain_text_schema(DIFF_QUERY_FIELD, Some(""), None, Some(max))));
        },
    }
    assert(pair_views(pairs@) =~= tool_properties(kind, min, max, ssl@, configuration@));
    pairs
}

fn build_definition(kind: ToolKind, min: u64, max: u64, ssl: &str, configuration: &str) -> (res:
    ToolDefinition)
    ensures
        res@ == tool_definition(kind, min, max, ssl@, configuration@),
{
    let properties: JsonObject = JsonObject::from_pairs(
        build_properties(kind, min, max, ssl, configuration),
    );
    let mut pairs: Vec<(String, Json)> = Vec::new();
    pairs.push(("type".to_owned(), Json::Text("object".to_owned())));
    pairs.push(("title".to_owned(), Json::Text(kind.title().to_owned())));
    pairs.push(("properties".to_owned(), Json::Object(properties)));
    pairs.push(("required".to_owned(), text_array_of(&kind.required_fields())));
    assert(pair_views(pairs@) =~= seq![
        ("type"@, JsonView::Text("object"@)),
        ("title"@, JsonView::Text(tool_title(kind))),
        (
            "properties"@,
            JsonView::Object(put_all(tool_properties(kind, min, max, ssl@, configuration@))),
        ),
        ("required"@, text_array(required_fields(kind))),
    ]);
    ToolDefinition {
        kind,
        tool: ToolDescriptor {
            name: kind.name(),
            description: kind.description(),
            input_schema: JsonObject::from_pairs(pairs),
        },
    }
}

/// Every public tool, under these limits and defaults.
pub fn build_definitions(
    min_length: usize,
    max_length: usize,
    default_ssl: &str,
    default_configuration: &str,
) -> (res: Vec<ToolDefinition>)
    ensures
        definition_views(res@) == tool_definitions(
            min_length as u64,
            max_length as u64,
            default_ssl@,
            default_configuration@,
        ),
{
    let min: u64 = min_length as u64;
    let max: u64 = max_length as u64;
    let mut definitions: Vec<ToolDefinition> = Vec::new();
    definitions.push(
        build_definition(ToolKind::Ask, min, max, default_ssl, default_configuration),
    );
    definitions.push(
        build_definition(ToolKind::Explain, min, max, default_ssl, default_configuration),
    );
    definitions.push(
        build_definition(ToolKind::Check, min, max, default_ssl, default_configuration),
    );
    definitions.push(
        build_definition(ToolKind::Modify, min, max, default_ssl, default_configuration),
    );
    definitions.push(
        build_definition(ToolKind::SearchDocumentation, min, max, default_ssl, default_configuration),
    );
    definitions.push(
        build_definition(ToolKind::SearchIts, min, max, default_ssl, default_configuration),
    );
    definitions.push(
        build_definition(ToolKind::FetchIts, min, max, default_ssl, default_configuration),
    );
    definitions.push(
        build_definition(ToolKind::DiffDocumentation, min, max, default_ssl, default_configuration),
    );
    assert(definition_views(definitions@) =~= tool_definitions(
        min,
        max,
        default_ssl@,
        default_configuration@,
    ));
    definitions
}

/// The fields of a tool have different names.
pub proof fn field_names_differ(kind: ToolKind)
    ensures
        field_order(kind).no_duplicates(),
{
    reveal_strlit("question");
    reveal_strlit("programming_language");
    reveal_strlit("ssl_version");
    reveal_strlit("configuration");
    reveal_strlit("syntax_element");
    reveal_strlit("context");
    reveal_strlit("code");
    reveal_strlit("check_type");
    reveal_strlit("extended");
    reveal_strlit("instruction");
    reveal_strlit("query");
    reveal_strlit("version");
    reveal_strlit("version_a");
    reveal_strlit("version_b");
    assert("question"@.len() == 8);
    assert("programming_language"@.len() == 20);
    assert("ssl_version"@.len() == 11);
    assert("configuration"@.len() == 13);
    assert("syntax_element"@.len() == 14);
    assert("context"@.len() == 7);
    assert("code"@.len() == 4);
    assert("check_type"@.len() == 10);
    assert("extended"@.len() == 8);
    assert("instruction"@.len() == 11);
    assert("query"@.len() == 5);
    assert("version"@.len() == 7);
    assert("version_a"@[8] == 'a');
    assert("version_b"@[8] == 'b');
    assert("version_a"@.len() == 9);
    assert("version_b"@.len() == 9);
}

/// The schema of a text says what it was made of, and nothing else: its type, its
/// description, and each of its choices, its default and its bounds where it has them.
pub proof fn text_schemas_say_what_they_are(
    description: Seq<char>,
    choices: Seq<Seq<char>>,
    default: Option<Seq<char>>,
    min: Option<u64>,
    max: Option<u64>,
)
    ensures
        text_property(description, choices, default, min, max) matches JsonView::Object(schema) && {
            &&& lookup(schema, "type"@) == Some(JsonView::Text("string"@))
            &&& lookup(schema, "description"@) == Some(JsonView::Text(description))
            &&& choices.len() == 0 ==> lookup(schema, "enum"@) is None
            &&& choices.len() > 0 ==> (lookup(schema, "enum"@) matches Some(JsonView::Array(texts))
                && texts.len() == choices.len() && (forall|i: int|
                0 <= i < choices.len() ==> texts[i] == JsonView::Text(#[trigger] choices[i])))
            &&& lookup(schema, "default"@) == (match default {
                Some(text) => Some(JsonView::Text(text)),
                None => None,
            })
            &&& lookup(schema, "minLength"@) == (match min {
                Some(n) => Some(JsonView::Number(JsonNumber::Unsigned(n))),
                None => None,
            })
            &&& lookup(schema, "maxLength"@) == (match max {
                Some(n) => Some(JsonView::Number(JsonNumber::Unsigned(n))),
                None => None,
            })
        },
{
    schema_words_differ();
    let pairs = seq![
        ("type"@, JsonView::Text("string"@)),
        ("description"@, JsonView::Text(description)),
    ];
    let base = put_all(pairs);
    the_last_pair_stands(pairs, 0);
    the_last_pair_stands(pairs, 1);
    nothing_else_is_put(pairs, "enum"@);
    nothing_else_is_put(pairs, "default"@);
    nothing_else_is_put(pairs, "minLength"@);
    nothing_else_is_put(pairs, "maxLength"@);
    let chosen = if choices.len() > 0 {
        put(base, "enum"@, text_array(choices))
    } else {
        base
    };
    let defaulted = match default {
        Some(text) => put(chosen, "default"@, JsonView::Text(text)),
        None => chosen,
    };
    let bounded_below = match min {
        Some(n) => put(defaulted, "minLength"@, whole(n)),
        None => defaulted,
    };
    put_keeps_words(base, "enum"@, text_array(choices));
    if let Some(text) = default {
        put_keeps_words(chosen, "default"@, JsonView::Text(text));
    }
    if let Some(n) = min {
        put_keeps_words(defaulted, "minLength"@, whole(n));
    }
    if let Some(n) = max {
        put_keeps_words(bounded_below, "maxLength"@, whole(n));
    }
}

proof fn schema_words_differ()
    ensures
        "type"@.len() == 4,
        "description"@.len() == 11,
        "enum"@.len() == 4,
        "enum"@ != "type"@,
        "default"@.len() == 7,
        "minLength"@.len() == 9,
        "maxLength"@.len() == 9,
        "minLength"@ != "maxLength"@,
        "title"@.len() == 5,
        "properties"@.len() == 10,
        "required"@.len() == 8,
{
    reveal_strlit("type");
    reveal_strlit("description");
    reveal_strlit("enum");
    reveal_strlit("default");
    reveal_strlit("minLength");
    reveal_strlit("maxLength");
    reveal_strlit("title");
    reveal_strlit("properties");
    reveal_strlit("required");
    assert("enum"@[0] == 'e' && "type"@[0] == 't');
    assert("minLength"@[1] == 'i' && "maxLength"@[1] == 'a');
}

proof fn put_keeps_words(fields: Fields, name: Seq<char>, value: JsonView)
    ensures
        ({
            let after = put(fields, name, value);
            &&& lookup(after, name) == Some(value)
            &&& name != "type"@ ==> lookup(after, "type"@) == lookup(fields, "type"@)
            &&& name != "description"@ ==> lookup(after, "description"@) == lookup(
                fields,
                "description"@,
            )
            &&& name != "enum"@ ==> lookup(after, "enum"@) == lookup(fields, "enum"@)
            &&& name != "default"@ ==> lookup(after, "default"@) == lookup(fields, "default"@)
            &&& name != "minLength"@ ==> lookup(after, "minLength"@) == lookup(fields, "minLength"@)
            &&& name != "maxLength"@ ==> lookup(after, "maxLength"@) == lookup(fields, "maxLength"@)
        }),
{
    lookup_put(fields, name, value, name);
    lookup_put(fields, name, value, "type"@);
    lookup_put(fields, name, value, "description"@);
    lookup_put(fields, name, value, "enum"@);
    lookup_put(fields, name, value, "default"@);
    lookup_put(fields, name, value, "minLength"@);
    lookup_put(fields, name, value, "maxLength"@);
}

/// A flag is off where a call does not give it.
pub proof fn flags_are_off_by_default(description: Seq<char>)
    ensures
        flag_property(description) matches JsonView::Object(schema) && {
            &&& lookup(schema, "type"@) == Some(JsonView::Text("boolean"@))
            &&& lookup(schema, "description"@) == Some(JsonView::Text(description))
            &&& lookup(schema, "default"@) == Some(JsonView::Bool(false))
        },
{
    schema_words_differ();
    let pairs = seq![
        ("type"@, JsonView::Text("boolean"@)),
        ("description"@, JsonView::Text(description)),
        ("default"@, JsonView::Bool(false)),
    ];
    the_last_pair_stands(pairs, 0);
    the_last_pair_stands(pairs, 1);
    the_last_pair_stands(pairs, 2);
}

/// The schema of a tool names exactly the tool's fields, each with a schema of its own.
pub proof fn properties_are_found(
    kind: ToolKind,
    min: u64,
    max: u64,
    ssl: Seq<char>,
    configuration: Seq<char>,
    name: Seq<char>,
)
    ensures
        ({
            let schema = tool_definition(kind, min, max, ssl, configuration).tool.schema;
            let given = tool_properties(kind, min, max, ssl, configuration);
            &&& lookup(schema, "type"@) == Some(JsonView::Text("object"@))
            &&& lookup(schema, "title"@) == Some(JsonView::Text(tool_title(kind)))
            &&& lookup(schema, "required"@) == Some(text_array(required_fields(kind)))
            &&& given.len() == field_order(kind).len()
            &&& lookup(schema, "properties"@) matches Some(JsonView::Object(properties)) && {
                &&& !field_order(kind).contains(name) ==> lookup(properties, name) is None
                &&& forall|i: int|
                    0 <= i < given.len() ==> (#[trigger] given[i]).0 == field_order(kind)[i] && lookup(
                        properties,
                        field_order(kind)[i],
                    ) == Some(given[i].1)
            }
        }),
{
    schema_words_differ();
    field_names_differ(kind);
    let given = tool_properties(kind, min, max, ssl, configuration);
    let order = field_order(kind);
    let pairs = seq![
        ("type"@, JsonView::Text("object"@)),
        ("title"@, JsonView::Text(tool_title(kind))),
        ("properties"@, JsonView::Object(put_all(given))),
        ("required"@, text_array(required_fields(kind))),
    ];
    the_last_pair_stands(pairs, 0);
    the_last_pair_stands(pairs, 1);
    the_last_pair_stands(pairs, 2);
    the_last_pair_stands(pairs, 3);
    assert(given.len() == order.len());
    assert forall|i: int| 0 <= i < given.len() implies (#[trigger] given[i]).0 == order[i] by {
        assert(i == 0 || i == 1 || i == 2 || i == 3);
    }
    assert forall|i: int| 0 <= i < given.len() implies (#[trigger] given[i]).0 == order[i]
        && lookup(put_all(given), order[i]) == Some(given[i].1) by {
        assert forall|j: int| i < j < given.len() implies (#[trigger] given[j]).0 != given[i].0 by {
            assert(order[j] != order[i]);
        }
        the_last_pair_stands(given, i);
    }
    if !order.contains(name) {
        assert forall|j: int| 0 <= j < given.len() implies (#[trigger] given[j]).0 != name by {
            assert(order[j] != name);
        }
        nothing_else_is_put(given, name);
    }
}

/// The schema that a field of a tool has.
pub open spec fn schema_of(definition: DefinitionView, name: Seq<char>) -> Fields {
    match lookup(definition.tool.schema, "properties"@) {
        Some(JsonView::Object(properties)) => match lookup(properties, name) {
            Some(JsonView::Object(schema)) => schema,
            _ => Fields::empty(),
        },
        _ => Fields::empty(),
    }
}

/// The first field of every tool but `fetch_its` must be given, of a comparison the first
/// two, and no other field. These fields have no default, and their texts are bounded by
/// the limits of the settings (versions: from two characters on).
pub proof fn the_first_field_must_be_given(
    kind: ToolKind,
    min: u64,
    max: u64,
    ssl: Seq<char>,
    configuration: Seq<char>,
    at: int,
)
    requires
        0 <= at < field_order(kind).len(),
    ensures
        ({
            let definition = tool_definition(kind, min, max, ssl, configuration);
            let name = field_order(kind)[at];
            let schema = schema_of(definition, name);
            let needed = at == 0 && kind != ToolKind::FetchIts || at == 1 && kind
                == ToolKind::DiffDocumentation;
            &&& lookup(definition.tool.schema, "required"@) matches Some(JsonView::Array(required))
                && (required.contains(JsonView::Text(name)) <==> needed)
            &&& needed ==> {
                &&& lookup(schema, "type"@) == Some(JsonView::Text("string"@))
                &&& lookup(schema, "default"@) is None
                &&& lookup(schema, "enum"@) is None
                &&& lookup(schema, "minLength"@) == Some(
                    JsonView::Number(
                        JsonNumber::Unsigned(
                            if kind == ToolKind::DiffDocumentation {
                                2
                            } else {
                                min
                            },
                        ),
                    ),
                )
                &&& lookup(schema, "maxLength"@) == Some(
                    JsonView::Number(JsonNumber::Unsigned(max)),
                )
            }
            &&& !needed ==> lookup(schema, "default"@) is Some
        }),
{
    let order = field_order(kind);
    let name = order[at];
    properties_are_found(kind, min, max, ssl, configuration, name);
    field_names_differ(kind);
    let given = tool_properties(kind, min, max, ssl, configuration);
    assert(given[at].0 == name);
    let names = required_fields(kind);
    let required = text_array(names)->Array_0;
    let needed = at == 0 && kind != ToolKind::FetchIts || at == 1 && kind
        == ToolKind::DiffDocumentation;
    if needed {
        assert(names[at] == name);
        assert(required[at] == JsonView::Text(name));
    } else if required.contains(JsonView::Text(name)) {
        let i = choose|i: int| 0 <= i < required.len() && required[i] == JsonView::Text(name);
        assert(names[i] == name);
        assert(order[i] == names[i]);
    }
    every_text_schema_is_known(kind, min, max, ssl, configuration);
    flags_are_off_by_default(EXTENDED_FIELD@);
}

proof fn every_text_schema_is_known(
    kind: ToolKind,
    min: u64,
    max: u64,
    ssl: Seq<char>,
    configuration: Seq<char>,
)
    ensures
        forall|at: int|
            0 <= at < field_order(kind).len() && !(kind == ToolKind::Check && at == 2) ==> ((
            #[trigger] tool_properties(kind, min, max, ssl, configuration)[at]).1 matches JsonView::Object(
                schema,
            ) && {
                let needed = at == 0 && kind != ToolKind::FetchIts || at == 1 && kind
                    == ToolKind::DiffDocumentation;
                &&& lookup(schema, "type"@) == Some(JsonView::Text("string"@))
                &&& lookup(schema, "default"@) is None <==> needed
                &&& needed ==> lookup(schema, "enum"@) is None
                &&& needed ==> lookup(schema, "minLength"@) == Some(
                    JsonView::Number(
                        JsonNumber::Unsigned(
                            if kind == ToolKind::DiffDocumentation {
                                2
                            } else {
                                min
                            },
                        ),
                    ),
                )
                &&& needed ==> lookup(schema, "maxLength"@) == Some(
                    JsonView::Number(JsonNumber::Unsigned(max)),
                )
            }),
{
    let none = Seq::<Seq<char>>::empty();
    let given = tool_properties(kind, min, max, ssl, configuration);
    text_schemas_say_what_they_are(QUESTION_FIELD@, none, None, Some(min), Some(max));
    text_schemas_say_what_they_are(
        PROGRAMMING_LANGUAGE_FIELD@,
        seq![""@, "BSL"@, "SQL"@, "JSON"@, "HTTP"@],
        Some(""@),
        None,
        Some(max),
    );
    text_schemas_say_what_they_are(
        context_description(SSL_VERSION_FIELD@, ssl),
        none,
        Some(ssl),
        None,
        None,
    );
    text_schemas_say_what_they_are(
        context_description(CONFIGURATION_FIELD@, configuration),
        none,
        Some(configuration),
        None,
        None,
    );
    text_schemas_say_what_they_are(SYNTAX_ELEMENT_FIELD@, none, None, Some(min), Some(max));
    text_schemas_say_what_they_are(CONTEXT_FIELD@, none, Some(""@), Some(0), Some(max));
    text_schemas_say_what_they_are(CHECKED_CODE_FIELD@, none, None, Some(min), Some(max));
    text_schemas_say_what_they_are(
        CHECK_TYPE_FIELD@,
        seq!["syntax"@, "review"@, "logic"@, "performance"@],
        Some("syntax"@),
        None,
        None,
    );
    text_schemas_say_what_they_are(INSTRUCTION_FIELD@, none, None, Some(min), Some(max));
    text_schemas_say_what_they_are(MODIFIED_CODE_FIELD@, none, Some(""@), Some(0), Some(max));
    text_schemas_say_what_they_are(DOCUMENTATION_QUERY_FIELD@, none, None, Some(min), Some(max));
    text_schemas_say_what_they_are(VERSION_FIELD@, none, Some("v8.5.1"@), None, Some(max));
    text_schemas_say_what_they_are(ITS_QUERY_FIELD@, none, None, Some(min), Some(max));
    text_schemas_say_what_they_are(ITS_ID_FIELD@, none, Some("root"@), Some(1), Some(max));
    text_schemas_say_what_they_are(VERSION_A_FIELD@, none, None, Some(2), Some(max));
    text_schemas_say_what_they_are(VERSION_B_FIELD@, none, None, Some(2), Some(max));
    text_schemas_say_what_they_are(DIFF_QUERY_FIELD@, none, Some(""@), None, Some(max));
    assert forall|at: int|
        0 <= at < field_order(kind).len() && !(kind == ToolKind::Check && at == 2) implies ((
    #[trigger] given[at]).1 matches JsonView::Object(schema) && {
        let needed = at == 0 && kind != ToolKind::FetchIts || at == 1 && kind
            == ToolKind::DiffDocumentation;
        &&& lookup(schema, "type"@) == Some(JsonView::Text("string"@))
        &&& lookup(schema, "default"@) is None <==> needed
        &&& needed ==> lookup(schema, "enum"@) is None
        &&& needed ==> lookup(schema, "minLength"@) == Some(
            JsonView::Number(
                JsonNumber::Unsigned(
                    if kind == ToolKind::DiffDocumentation {
                        2
                    } else {
                        min
                    },
                ),
            ),
        )
        &&& needed ==> lookup(schema, "maxLength"@) == Some(
            JsonView::Number(JsonNumber::Unsigned(max)),
        )
    }) by {
        assert(at == 0 || at == 1 || at == 2 || at == 3);
    }
}

/// The configuration and the version of the standard subsystems are, where a call does not
/// give them, those of the settings; a document is the root, a check one of the syntax.
pub proof fn fields_have_these_defaults(
    min: u64,
    max: u64,
    ssl: Seq<char>,
    configuration: Seq<char>,
    kind: ToolKind,
    name: Seq<char>,
)
    ensures
        ({
            let definition = tool_definition(kind, min, max, ssl, configuration);
            let default = lookup(schema_of(definition, name), "default"@);
            &&& field_order(kind).contains("configuration"@) && name == "configuration"@ ==> default
                == Some(JsonView::Text(configuration))
            &&& field_order(kind).contains("ssl_version"@) && name == "ssl_version"@ ==> default
                == Some(JsonView::Text(ssl))
            &&& kind == ToolKind::FetchIts && name == "id"@ ==> default == Some(
                JsonView::Text("root"@),
            )
            &&& kind == ToolKind::Check && name == "check_type"@ ==> default == Some(
                JsonView::Text("syntax"@),
            )
            &&& kind == ToolKind::Check && name == "extended"@ ==> default == Some(
                JsonView::Bool(false),
            )
        }),
{
    let none = Seq::<Seq<char>>::empty();
    let given = tool_properties(kind, min, max, ssl, configuration);
    let order = field_order(kind);
    properties_are_found(kind, min, max, ssl, configuration, name);
    field_names_differ(kind);
    flags_are_off_by_default(EXTENDED_FIELD@);
    text_schemas_say_what_they_are(
        context_description(SSL_VERSION_FIELD@, ssl),
        none,
        Some(ssl),
        None,
        None,
    );
    text_schemas_say_what_they_are(
        context_description(CONFIGURATION_FIELD@, configuration),
        none,
        Some(configuration),
        None,
        None,
    );
    text_schemas_say_what_they_are(
        CHECK_TYPE_FIELD@,
        seq!["syntax"@, "review"@, "logic"@, "performance"@],
        Some("syntax"@),
        None,
        None,
    );
    text_schemas_say_what_they_are(ITS_ID_FIELD@, none, Some("root"@), Some(1), Some(max));
    context_fields_have_places(kind);
    if order.len() > 0 {
        assert(given[0].0 == order[0]);
    }
    if order.len() > 1 {
        assert(given[1].0 == order[1]);
    }
    if order.len() > 2 {
        assert(given[2].0 == order[2]);
    }
    if order.len() > 3 {
        assert(given[3].0 == order[3]);
    }
}

proof fn context_fields_have_places(kind: ToolKind)
    ensures
        ({
            let order = field_order(kind);
            let has = order.contains("configuration"@) || order.contains("ssl_version"@);
            &&& has ==> kind == ToolKind::Ask || kind == ToolKind::Explain || kind
                == ToolKind::SearchIts
            &&& has ==> order[order.len() - 1] == "configuration"@ && order[order.len() - 2]
                == "ssl_version"@
        }),
{
    let order = field_order(kind);
    reveal_strlit("configuration");
    reveal_strlit("ssl_version");
    reveal_strlit("code");
    reveal_strlit("check_type");
    reveal_strlit("extended");
    reveal_strlit("instruction");
    reveal_strlit("query");
    reveal_strlit("version");
    reveal_strlit("version_a");
    reveal_strlit("version_b");
    reveal_strlit("id");
    assert("configuration"@.len() == 13);
    assert("ssl_version"@.len() == 11 && "ssl_version"@[0] == 's');
    assert("instruction"@.len() == 11 && "instruction"@[0] == 'i');
    assert("code"@.len() == 4 && "check_type"@.len() == 10 && "extended"@.len() == 8);
    assert("query"@.len() == 5 && "version"@.len() == 7 && "version_a"@.len() == 9);
    assert("version_b"@.len() == 9 && "id"@.len() == 2);
    if order.contains("configuration"@) {
        let i = choose|i: int| 0 <= i < order.len() && order[i] == "configuration"@;
        assert(i == 0 || i == 1 || i == 2 || i == 3);
    }
    if order.contains("ssl_version"@) {
        let i = choose|i: int| 0 <= i < order.len() && order[i] == "ssl_version"@;
        assert(i == 0 || i == 1 || i == 2 || i == 3);
    }
}

/// A context that has a default says so in its description.
pub proof fn contexts_name_their_default(base: Seq<char>, default: Seq<char>)
    ensures
        default.len() == 0 ==> context_description(base, default) == base,
        default.len() > 0 ==> crate::strings::occurs_in(default, context_description(base, default)),
        context_description(base, default).take(base.len() as int) == base,
{
    crate::strings::a_part_occurs(base + " По умолчанию: "@, default, "."@);
    assert(context_description(base, default).take(base.len() as int) =~= base);
}

} // verus!
