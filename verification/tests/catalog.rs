use onec_buddy_mcp::config::CallMode;
use onec_buddy_mcp::json::{Json, JsonObject};
use onec_buddy_mcp::json_text::{json_string, parse_json};
use onec_buddy_mcp::mcp::arguments::CatalogErrorKind;
use onec_buddy_mcp::mcp::catalog::{PreparedToolCall, ToolCatalog};
use onec_buddy_mcp::mcp::instruction::{
    build_exact_instruction, build_message_instruction, choose_route, write_exact_instruction,
    ExecutionRoute,
};
use onec_buddy_mcp::mcp::schema::ToolKind;

const NAMES: [&str; 8] = [
    "ask_1c_ai",
    "explain_1c_syntax",
    "check_1c_code",
    "modify_1c_code",
    "search_1c_documentation",
    "search_its",
    "fetch_its",
    "diff_1c_documentation_versions",
];

const SNAPSHOT: [(&str, &str, &str); 8] = [
    (
        "ask_1c_ai",
        "Задать общий вопрос по платформе 1С:Предприятие и получить ответ, объяснение или практическую рекомендацию. Используй для общих вопросов по функциональности платформы, подходам к разработке и типовым сценариям, когда не нужен отдельный специализированный поиск по документации или ИТС.",
        r#"{"properties":{"configuration":{"default":"","description":"Конфигурация 1С (например: Бухгалтерия предприятия, ERP, Управление торговлей).","type":"string"},"programming_language":{"default":"","description":"Язык, если вопрос связан с кодом или синтаксисом.","enum":["","BSL","SQL","JSON","HTTP"],"maxLength":100000,"type":"string"},"question":{"description":"Вопрос или задача на русском языке. Старайся формулировать конкретно.","maxLength":100000,"minLength":4,"type":"string"},"ssl_version":{"default":"","description":"Версия Библиотеки Стандартных Подсистем (БСП).","type":"string"}},"required":["question"],"title":"Ask 1C expert","type":"object"}"#,
    ),
    (
        "explain_1c_syntax",
        "Объяснить конкретный элемент синтаксиса, объект или тип платформы 1С с примерами использования. Используй, когда нужно понять, как работает конкретный метод, объект, коллекция или конструкция языка.",
        r#"{"properties":{"configuration":{"default":"","description":"Конфигурация 1С (например: Бухгалтерия предприятия, ERP, Управление торговлей).","type":"string"},"context":{"default":"","description":"Дополнительный контекст использования, если он важен для ответа.","maxLength":100000,"minLength":0,"type":"string"},"ssl_version":{"default":"","description":"Версия Библиотеки Стандартных Подсистем (БСП).","type":"string"},"syntax_element":{"description":"Название элемента, который нужно объяснить, например HTTPЗапрос, ТаблицаЗначений или Запрос.","maxLength":100000,"minLength":4,"type":"string"}},"required":["syntax_element"],"title":"Explain 1C syntax","type":"object"}"#,
    ),
    (
        "check_1c_code",
        "Проверить присланный BSL/1C код. Используй check_type='syntax' для быстрой синтаксической проверки конкретного фрагмента и check_type='review' для code review, поиска ошибок и замечаний по качеству кода. Проверка syntax выполняется без глобального контекста, поэтому возможны ложные срабатывания по необъявленным переменным и методам.",
        r#"{"properties":{"check_type":{"default":"syntax","description":"syntax — синтаксическая проверка; review — code review. Значения logic/performance сохранены для обратной совместимости и обрабатываются как review.","enum":["syntax","review","logic","performance"],"type":"string"},"code":{"description":"Проверяемый фрагмент кода 1С.","maxLength":100000,"minLength":4,"type":"string"},"extended":{"default":false,"description":"Только для syntax: включить обогащение стандартами 1С.","type":"boolean"}},"required":["code"],"title":"Check 1C code","type":"object"}"#,
    ),
    (
        "modify_1c_code",
        "Изменить код 1С по явному заданию пользователя: исправить ошибку, сделать рефакторинг или добавить функциональность. В instruction опиши, какие изменения нужны и что ожидается на выходе. Если есть исходный код, передай его в параметре code.",
        r#"{"properties":{"code":{"default":"","description":"Исходный код 1С, который нужно изменить.","maxLength":100000,"minLength":0,"type":"string"},"instruction":{"description":"Четкое описание задачи на русском языке: что нужно изменить и какой результат ожидается.","maxLength":100000,"minLength":4,"type":"string"}},"required":["instruction"],"title":"Modify 1C code","type":"object"}"#,
    ),
    (
        "search_1c_documentation",
        "Поиск по документации платформы 1С:Предприятие. Используй, когда вопрос касается функциональности самой платформы: объектов, методов, свойств, синтаксиса и параметров, а также перед написанием кода, если нужна точная документация по элементу платформы. Не выдумывай синтаксис и поведение, если их можно сначала найти в документации. Для общих запросов формируй query так, чтобы он искал обзорную информацию: 'Общая информация о ...', 'Список всех ...', 'Все ...'. Если пользователь указал версию платформы, обязательно передай её.",
        r#"{"properties":{"query":{"description":"Поисковый запрос для embedding-поиска. Для общих тем лучше писать 'Общая информация о ...' или 'Список всех ...'.","maxLength":100000,"minLength":4,"type":"string"},"version":{"default":"v8.5.1","description":"Версия документации платформы в формате v8.x.x или v8.x.x.x.","maxLength":100000,"type":"string"}},"required":["query"],"title":"Search 1C documentation","type":"object"}"#,
    ),
    (
        "search_its",
        "Поиск по базе знаний ИТС. Используй для стандартов и правил разработки на 1С, методических материалов, практических примеров, вопросов по конкретным конфигурациям и продуктам 1С, а также по EDT и Конфигуратору. Для фактологических вопросов по экосистеме 1С предпочитай именно этот инструмент, а не ответ по памяти. Если найденной информации недостаточно, переформулируй query или затем используй fetch_its для чтения конкретного документа.",
        r#"{"properties":{"configuration":{"default":"","description":"Конфигурация 1С (например: Бухгалтерия предприятия, ERP, Управление торговлей).","type":"string"},"query":{"description":"Поисковый запрос для embedding-поиска по ИТС.","maxLength":100000,"minLength":4,"type":"string"},"ssl_version":{"default":"","description":"Версия Библиотеки Стандартных Подсистем (БСП).","type":"string"}},"required":["query"],"title":"Search ITS","type":"object"}"#,
    ),
    (
        "fetch_its",
        "Получить содержимое документа, каталога или базы ИТС по id. Обычно используется после search_its, когда уже найден нужный документ, либо для исследования структуры ИТС с id='root'. Поддерживаются как специальные id вроде root, superior, v8std, так и идентификаторы документов и каталогов вида its-...-hdoc или its-...-hdir, возможно с 1-2 якорями через '/'. Обычно id документа выглядит как 'its-{database_id}-{doc_or_dir_id}-(hdoc|hdir|...)'.",
        r#"{"properties":{"id":{"default":"root","description":"Идентификатор документа, каталога или базы ИТС: root, superior, v8std или строка вида its-...-hdoc/hdir.","maxLength":100000,"minLength":1,"type":"string"}},"required":[],"title":"Fetch ITS","type":"object"}"#,
    ),
    (
        "diff_1c_documentation_versions",
        "Сравнить документацию платформы 1С между двумя версиями. Используй, когда спрашивают об изменениях между версиями платформы. version_a должна быть более ранней, version_b — более поздней. Параметр query задаёт предметную область сравнения. Если разница пустая, но вернулся список изменённых файлов, значит query нужно переформулировать.",
        r#"{"properties":{"query":{"default":"","description":"Необязательная предметная область сравнения, например 'HTTP соединение'.","maxLength":100000,"type":"string"},"version_a":{"description":"Более ранняя версия в формате v8.3.27 или v8.3.27.189.","maxLength":100000,"minLength":2,"type":"string"},"version_b":{"description":"Более поздняя версия в формате v8.3.27 или v8.3.27.189.","maxLength":100000,"minLength":2,"type":"string"}},"required":["version_a","version_b"],"title":"Diff 1C documentation versions","type":"object"}"#,
    ),
];

fn catalog(mode: CallMode) -> ToolCatalog {
    ToolCatalog::build(4, 100_000, mode, "", "", "")
}

fn object(text: &str) -> JsonObject {
    match parse_json(text) {
        Some(Json::Object(object)) => object,
        _ => panic!("test value is an object"),
    }
}

fn text<'a>(object: &'a JsonObject, name: &str) -> &'a str {
    match object.get(name) {
        Some(Json::Text(text)) => text,
        other => panic!("{name} is no text: {other:?}"),
    }
}

fn quoted(value: &str) -> String {
    json_string(&Json::Text(value.to_owned())).unwrap()
}

fn prepare(catalog: &ToolCatalog, name: &str, arguments: &str) -> PreparedToolCall {
    match catalog.prepare(name, &object(arguments)) {
        Ok(call) => call,
        Err(error) => panic!("{name}: {}", error.message()),
    }
}

fn refuse(catalog: &ToolCatalog, name: &str, arguments: &str) -> (CatalogErrorKind, String) {
    match catalog.prepare(name, &object(arguments)) {
        Ok(_) => panic!("{name} must be refused"),
        Err(error) => (error.kind(), error.message().to_owned()),
    }
}

#[test]
fn public_catalog_is_the_pinned_eight_tool_snapshot() {
    let catalog = catalog(CallMode::Direct);
    let names = catalog
        .tools()
        .iter()
        .map(|tool| tool.name)
        .collect::<Vec<_>>();
    assert_eq!(names, NAMES);

    for (tool, (name, description, schema)) in catalog.tools().iter().zip(SNAPSHOT) {
        assert_eq!(tool.name, name);
        assert_eq!(tool.description, description);
        assert_eq!(
            json_string(&Json::Object(tool.input_schema.duplicate())).unwrap(),
            schema
        );
    }
}

#[test]
fn aliases_are_call_only_case_sensitive_and_canonicalized() {
    let catalog = catalog(CallMode::Direct);
    for (alias, canonical) in [
        ("Search_1C_Documentation", "search_1c_documentation"),
        ("Search_ITS", "search_its"),
        ("Fetch_ITS", "fetch_its"),
        (
            "Diff_1C_Documentation_Versions",
            "diff_1c_documentation_versions",
        ),
    ] {
        let call = catalog
            .prepare(alias, &JsonObject::new())
            .unwrap_or_else(|_| {
                let required = match canonical {
                    "search_1c_documentation" | "search_its" => object(r#"{"query":"test"}"#),
                    "diff_1c_documentation_versions" => {
                        object(r#"{"version_a":"v1","version_b":"v2"}"#)
                    }
                    _ => JsonObject::new(),
                };
                catalog.prepare(alias, &required).unwrap()
            });
        assert_eq!(call.canonical_name(), canonical);

        let wrong_case = format!("{}{}", alias[..1].to_ascii_lowercase(), &alias[1..]);
        let error = catalog.prepare(&wrong_case, &JsonObject::new()).unwrap_err();
        assert_eq!(error.kind(), CatalogErrorKind::UnknownTool);
        assert_eq!(error.message(), "unknown tool");
    }
    assert!(catalog.tools().iter().all(|tool| {
        !tool
            .name
            .starts_with(|character: char| character.is_uppercase())
    }));
}

#[test]
fn every_default_and_compatibility_enumeration_is_applied() {
    let catalog = catalog(CallMode::Direct);
    let ask = prepare(&catalog, "ask_1c_ai", r#"{"question":"test"}"#);
    assert_eq!(text(ask.arguments(), "programming_language"), "");
    assert_eq!(text(ask.arguments(), "ssl_version"), "");
    assert_eq!(text(ask.arguments(), "configuration"), "");

    let explain = prepare(
        &catalog,
        "explain_1c_syntax",
        r#"{"syntax_element":"HTTPЗапрос"}"#,
    );
    assert_eq!(text(explain.arguments(), "context"), "");

    let check = prepare(&catalog, "check_1c_code", r#"{"code":"abcd"}"#);
    assert_eq!(text(check.arguments(), "check_type"), "syntax");
    assert!(matches!(
        check.arguments().get("extended"),
        Some(Json::Bool(false))
    ));

    for legacy in ["logic", "performance"] {
        let check = prepare(
            &catalog,
            "check_1c_code",
            &format!(r#"{{"code":"abcd","check_type":"{legacy}"}}"#),
        );
        assert_eq!(text(check.arguments(), "check_type"), legacy);
    }

    let modify = prepare(
        &catalog,
        "modify_1c_code",
        r#"{"instruction":"change this"}"#,
    );
    assert_eq!(text(modify.arguments(), "code"), "");

    let docs = prepare(&catalog, "search_1c_documentation", r#"{"query":"test"}"#);
    assert_eq!(text(docs.arguments(), "version"), "v8.5.1");

    let fetch = prepare(&catalog, "fetch_its", "{}");
    assert_eq!(text(fetch.arguments(), "id"), "root");

    let diff = prepare(
        &catalog,
        "diff_1c_documentation_versions",
        r#"{"version_a":"v1","version_b":"v2"}"#,
    );
    assert_eq!(text(diff.arguments(), "query"), "");
}

#[test]
fn validation_counts_unicode_scalars_after_stripping_and_ignores_unknown_fields() {
    let catalog = ToolCatalog::build(4, 100, CallMode::Standard, "BSL", "", "");
    let original = "  🦀🦀🦀🦀\r\n";
    let call = prepare(
        &catalog,
        "ask_1c_ai",
        &format!(r#"{{"question":{}}}"#, quoted(original)),
    );
    assert_eq!(text(call.arguments(), "question"), "🦀🦀🦀🦀");
    assert_eq!(call.instruction(), "🦀🦀🦀🦀");
    assert_eq!(call.programming_language(), "BSL");

    let scalar_catalog = ToolCatalog::build(4, 4, CallMode::Standard, "", "", "");
    scalar_catalog
        .prepare("ask_1c_ai", &object(r#"{"question":"🦀🦀🦀🦀"}"#))
        .expect("four Unicode scalar values are accepted");
    let too_long = scalar_catalog
        .prepare("ask_1c_ai", &object(r#"{"question":"🦀🦀🦀🦀🦀"}"#))
        .unwrap_err();
    assert_eq!(too_long.kind(), CatalogErrorKind::LimitExceeded);

    let production_limit = ToolCatalog::build(4, 100_000, CallMode::Standard, "", "", "");
    production_limit
        .prepare(
            "ask_1c_ai",
            &object(&format!(r#"{{"question":"{}"}}"#, "x".repeat(100_000))),
        )
        .expect("one hundred thousand Unicode scalar values are accepted");
    let over_production_limit = production_limit
        .prepare(
            "ask_1c_ai",
            &object(&format!(r#"{{"question":"{}"}}"#, "x".repeat(100_001))),
        )
        .unwrap_err();
    assert_eq!(
        over_production_limit.kind(),
        CatalogErrorKind::LimitExceeded
    );

    let with_unknown = catalog
        .prepare(
            "ask_1c_ai",
            &object(r#"{"question":"test","unknown":true}"#),
        )
        .expect("undeclared fields are ignored");
    assert!(!with_unknown.arguments().contains_key("unknown"));

    for invalid in [
        r#"{"question":"    "}"#,
        r#"{"question":"test","programming_language":"Rust"}"#,
    ] {
        let error = catalog.prepare("ask_1c_ai", &object(invalid)).unwrap_err();
        assert_eq!(error.kind(), CatalogErrorKind::InvalidArguments);
    }
}

#[test]
fn explicit_project_context_wins_and_blank_context_uses_global_defaults() {
    let catalog = ToolCatalog::build(4, 100_000, CallMode::Direct, "", "3.1.10", "ERP");

    let explicit = prepare(
        &catalog,
        "search_its",
        r#"{"query":"test","ssl_version":" 3.1.11 ","configuration":" УТ "}"#,
    );
    assert_eq!(text(explicit.arguments(), "ssl_version"), "3.1.11");
    assert_eq!(text(explicit.arguments(), "configuration"), "УТ");

    let fallback = prepare(
        &catalog,
        "search_its",
        r#"{"query":"test","ssl_version":" ","configuration":""}"#,
    );
    assert_eq!(text(fallback.arguments(), "ssl_version"), "3.1.10");
    assert_eq!(text(fallback.arguments(), "configuration"), "ERP");

    let tools = catalog.tools();
    let search_schema = tools
        .iter()
        .find(|tool| tool.name == "search_its")
        .expect("search_its is public");
    let Some(Json::Object(properties)) = search_schema.input_schema.get("properties") else {
        panic!("the schema has properties");
    };
    for (name, default) in [("ssl_version", "3.1.10"), ("configuration", "ERP")] {
        let Some(Json::Object(property)) = properties.get(name) else {
            panic!("{name} is a property");
        };
        assert_eq!(text(property, "default"), default);
        assert!(text(property, "description").ends_with(&format!(" По умолчанию: {default}.")));
    }
}

#[test]
fn question_code_and_instruction_reach_prepared_requests_after_stripping() {
    let standard = catalog(CallMode::Standard);
    let question = "\n  вопрос  \r\n";
    let ask = prepare(
        &standard,
        "ask_1c_ai",
        &format!(
            r#"{{"question":{},"programming_language":"SQL"}}"#,
            quoted(question)
        ),
    );
    assert_eq!(text(ask.arguments(), "question"), "вопрос");
    assert_eq!(ask.instruction(), "вопрос");
    assert_eq!(ask.programming_language(), "SQL");

    let code = "\n  Сообщить(\"x\");  \r\n";
    let code_arguments = format!(r#"{{"code":{}}}"#, quoted(code));
    let check = prepare(&standard, "check_1c_code", &code_arguments);
    assert_eq!(text(check.arguments(), "code"), "Сообщить(\"x\");");
    assert!(check.instruction().contains("Сообщить(\"x\");"));
    let direct = catalog(CallMode::Direct);
    let direct_check = prepare(&direct, "check_1c_code", &code_arguments);
    assert_eq!(
        text(
            direct_check
                .route()
                .exact_arguments()
                .expect("syntax uses the exact route"),
            "code"
        ),
        "Сообщить(\"x\");"
    );

    let instruction = "\n  изменить  \r\n";
    let modify = prepare(
        &standard,
        "modify_1c_code",
        &format!(
            r#"{{"instruction":{},"code":{}}}"#,
            quoted(instruction),
            quoted(code)
        ),
    );
    assert_eq!(text(modify.arguments(), "instruction"), "изменить");
    assert_eq!(text(modify.arguments(), "code"), "Сообщить(\"x\");");
    assert!(modify.instruction().contains("изменить"));
    assert!(modify.instruction().contains("Сообщить(\"x\");"));
}

#[test]
fn direct_and_standard_routes_follow_the_normative_table_without_fallback() {
    let direct = catalog(CallMode::Direct);
    let standard = catalog(CallMode::Standard);
    let cases = [
        ("ask_1c_ai", r#"{"question":"test"}"#, None),
        ("explain_1c_syntax", r#"{"syntax_element":"test"}"#, None),
        (
            "check_1c_code",
            r#"{"code":"test","check_type":"syntax"}"#,
            Some("mcp__syntax-checker__validate"),
        ),
        (
            "check_1c_code",
            r#"{"code":"test","check_type":"review"}"#,
            None,
        ),
        ("modify_1c_code", r#"{"instruction":"test"}"#, None),
        (
            "search_1c_documentation",
            r#"{"query":"test"}"#,
            Some("mcp__knowledge-hub__Search_Documentation"),
        ),
        (
            "search_its",
            r#"{"query":"test"}"#,
            Some("mcp__knowledge-hub__Search_ITS"),
        ),
        ("fetch_its", "{}", Some("mcp__knowledge-hub__Fetch_ITS")),
        (
            "diff_1c_documentation_versions",
            r#"{"version_a":"v1","version_b":"v2"}"#,
            Some("mcp__knowledge-hub__Diff_Documentation_Versions"),
        ),
    ];

    for (name, arguments, expected_exact) in cases {
        let direct_call = prepare(&direct, name, arguments);
        assert_eq!(direct_call.route().exact_name(), expected_exact);
        if expected_exact.is_some() {
            assert!(direct_call.route().exact_arguments().is_some());
        }
        let standard_call = prepare(&standard, name, arguments);
        assert!(matches!(standard_call.route(), ExecutionRoute::Message));
    }
}

#[test]
fn refusals_name_the_field_and_the_rule() {
    let catalog = ToolCatalog::build(4, 6, CallMode::Direct, "", "", "");
    let invalid = CatalogErrorKind::InvalidArguments;
    let cases = [
        ("ask_1c_ai", "{}", "Ошибка: Вопрос не может быть пустым"),
        (
            "explain_1c_syntax",
            r#"{"syntax_element":null}"#,
            "Ошибка: Элемент синтаксиса не может быть пустым",
        ),
        (
            "check_1c_code",
            r#"{"code":" "}"#,
            "Ошибка: Код для проверки не может быть пустым",
        ),
        (
            "modify_1c_code",
            "{}",
            "Ошибка: instruction не может быть пустым",
        ),
        ("search_its", "{}", "Ошибка: query не может быть пустым"),
        (
            "diff_1c_documentation_versions",
            r#"{"version_a":"v1"}"#,
            "Ошибка: version_a и version_b обязательны",
        ),
        (
            "ask_1c_ai",
            r#"{"question":1}"#,
            "Ошибка: question должно быть строкой",
        ),
        (
            "check_1c_code",
            r#"{"code":"abcd","extended":"yes"}"#,
            "Ошибка: extended должно быть логическим значением (true или false)",
        ),
        (
            "check_1c_code",
            r#"{"code":"abcd","check_type":"x"}"#,
            "Ошибка: check_type должно быть одним из: 'syntax', 'review', 'logic', 'performance'",
        ),
        (
            "fetch_its",
            r#"{"id":null}"#,
            "Ошибка: id должно быть строкой",
        ),
        (
            "ask_1c_ai",
            r#"{"question":"abc"}"#,
            "Ошибка: question короче минимальной длины 4",
        ),
    ];
    for (name, arguments, message) in cases {
        assert_eq!(
            refuse(&catalog, name, arguments),
            (invalid, message.to_owned())
        );
    }
    assert_eq!(
        refuse(&catalog, "ask_1c_ai", r#"{"question":"abcdefg"}"#),
        (
            CatalogErrorKind::LimitExceeded,
            "Ошибка: question длиннее максимальной длины 6".to_owned()
        )
    );
}

#[test]
fn exact_routes_carry_their_arguments_and_context() {
    let direct = ToolCatalog::build(1, 100, CallMode::Direct, "", "3.1", "ERP");
    let exact = |name: &str, arguments: &str| {
        let call = prepare(&direct, name, arguments);
        let arguments = call.route().exact_arguments().unwrap().duplicate();
        json_string(&Json::Object(arguments)).unwrap()
    };
    assert_eq!(
        exact("search_its", r#"{"query":"q"}"#),
        r#"{"query":"ERP БСП 3.1 q"}"#
    );
    assert_eq!(
        exact("check_1c_code", r#"{"code":"x","extended":true}"#),
        r#"{"code":"x","extended":true}"#
    );
    assert_eq!(
        exact("search_1c_documentation", r#"{"query":"q"}"#),
        r#"{"query":"q","version":"v8.5.1"}"#
    );
    assert_eq!(exact("fetch_its", "{}"), r#"{"id":"root"}"#);
    assert_eq!(
        exact(
            "diff_1c_documentation_versions",
            r#"{"version_a":"v1","version_b":"v2"}"#
        ),
        r#"{"version_a":"v1","version_b":"v2"}"#
    );
    assert_eq!(
        exact(
            "diff_1c_documentation_versions",
            r#"{"version_a":"v1","version_b":"v2","query":"HTTP"}"#
        ),
        r#"{"query":"HTTP","version_a":"v1","version_b":"v2"}"#
    );
}

#[test]
fn message_instructions_are_written_out() {
    let standard = ToolCatalog::build(1, 100, CallMode::Standard, "", "3.1", "");
    let cases = [
        (
            "ask_1c_ai",
            r#"{"question":"q"}"#,
            "q\n\nКонтекст проекта: версия БСП 3.1.",
        ),
        (
            "ask_1c_ai",
            r#"{"question":"q","configuration":"ERP"}"#,
            "q\n\nКонтекст проекта: конфигурация ERP, версия БСП 3.1.",
        ),
        (
            "explain_1c_syntax",
            r#"{"syntax_element":"Запрос","context":"сервер"}"#,
            "Объясни синтаксис и использование: Запрос в контексте: сервер\n\nКонтекст проекта: версия БСП 3.1.",
        ),
        (
            "check_1c_code",
            r#"{"code":"x","extended":true}"#,
            "Проверь этот код 1С на синтаксические ошибки перед отправкой пользователю. Используй расширенную проверку со стандартами 1С.\n\nКод:\n```bsl\nx\n```",
        ),
        (
            "check_1c_code",
            r#"{"code":"x","check_type":"logic"}"#,
            "Проведи code review этого кода 1С. Найди ошибки, нарушения стандартов, риски и предложи исправленный вариант.\n\nКод:\n```bsl\nx\n```",
        ),
        (
            "modify_1c_code",
            r#"{"instruction":"i","code":"x"}"#,
            "Измени этот код 1С по заданию пользователя. Верни итоговый измененный код и кратко перечисли, что именно было изменено.\n\nЗадание:\ni\n\nКод:\n```bsl\nx\n```\n\nОБЯЗАТЕЛЬНО выполни синтаксическую проверку измененного кода с помощью инструмента mcp__syntax-checker__validate перед отправкой результата.",
        ),
        (
            "search_1c_documentation",
            r#"{"query":"q"}"#,
            "Найди информацию в документации платформы 1С:Предприятие. Используй документацию версии v8.5.1. Верни краткий, но информативный ответ по найденным данным.\n\nЗапрос: q",
        ),
        (
            "search_its",
            r#"{"query":"q"}"#,
            "Выполни поиск в базе знаний ИТС по этому запросу. Верни фактический результат и обязательно сохрани ссылки на источники.\nКонтекст проекта: версия БСП 3.1.\n\nЗапрос: q",
        ),
        (
            "fetch_its",
            "{}",
            "Получить содержимое документа, каталога или базы ИТС по идентификатору.\n\nid: root",
        ),
        (
            "diff_1c_documentation_versions",
            r#"{"version_a":"v1","version_b":"v2","query":"q"}"#,
            "Сравни документацию платформы 1С между двумя версиями и верни различия.\n\nБолее ранняя версия: v1\nБолее поздняя версия: v2\nПредметная область: q",
        ),
    ];
    for (name, arguments, instruction) in cases {
        assert_eq!(prepare(&standard, name, arguments).instruction(), instruction);
    }
}

#[test]
fn exact_instructions_hold_the_arguments_as_json() {
    let expected = "Внутренняя инструкция.\nНужно вернуть ровно один tool call для mcp__knowledge-hub__Fetch_ITS.\nНе используй другие инструменты.\nСохрани все символы в аргументах без изменений.\nИспользуй ровно эти JSON-аргументы: {\"id\":\"root\"}\nНе отвечай обычным текстом до tool call.";
    let direct = catalog(CallMode::Direct);
    assert_eq!(prepare(&direct, "fetch_its", "{}").instruction(), expected);
    assert_eq!(
        build_exact_instruction(
            "mcp__knowledge-hub__Fetch_ITS",
            &object(r#"{"id":"root"}"#)
        ),
        expected
    );
    assert_eq!(
        write_exact_instruction("x", None),
        "Внутренняя инструкция.\nНужно вернуть ровно один tool call для x.\nНе используй другие инструменты.\nСохрани все символы в аргументах без изменений.\nИспользуй ровно эти JSON-аргументы: {}\nНе отвечай обычным текстом до tool call."
    );
}

#[test]
fn only_the_fields_that_are_read_are_needed() {
    let fields = |pairs: &[(&str, &str)]| {
        JsonObject::from_pairs(
            pairs
                .iter()
                .map(|(name, text)| ((*name).to_owned(), Json::Text((*text).to_owned())))
                .collect(),
        )
    };
    let question = fields(&[("question", "Что?"), ("configuration", ""), ("ssl_version", "3.1")]);
    assert_eq!(
        build_message_instruction(ToolKind::Ask, &question),
        "Что?\n\nКонтекст проекта: версия БСП 3.1."
    );
    let review = fields(&[("code", "А = 1;"), ("check_type", "review")]);
    assert!(build_message_instruction(ToolKind::Check, &review).starts_with("Проведи code review"));
    assert!(matches!(
        choose_route(CallMode::Direct, ToolKind::Check, &fields(&[("check_type", "review")])),
        ExecutionRoute::Message
    ));
    let none = fields(&[]);
    assert!(matches!(
        choose_route(CallMode::Direct, ToolKind::Ask, &none),
        ExecutionRoute::Message
    ));
    assert!(matches!(
        choose_route(CallMode::Standard, ToolKind::FetchIts, &none),
        ExecutionRoute::Message
    ));
}
