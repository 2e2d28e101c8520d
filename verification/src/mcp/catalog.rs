//! Single source of public tool definitions.

use vstd::prelude::*;

use crate::config::{CallMode, Config};
use crate::json::{lookup, Fields, JsonView};
use crate::json::{Json, JsonObject};
use crate::mcp::arguments::{
    fits,
    fitting_arguments_are_taken,
    general_message,
    given_values_are_taken,
    is_required,
    is_substantial,
    no_other_field_is_taken,
    obeys_schema,
    taken_arguments,
    taken_values_obey_their_schemas,
    unknown_fields_are_ignored,
    CatalogErrorView,
};
use crate::mcp::arguments::{normalize_arguments, CatalogError, CatalogErrorKind};
use crate::mcp::instruction::{
    build_exact_instruction,
    build_message_instruction,
    choose_route,
    exact_routes_carry_what_was_taken,
    only_fields_of_the_tool_are_read,
    ExecutionRoute,
};
use crate::mcp::instruction::{route_instruction, route_of, RouteView};
use crate::mcp::schema::{build_definitions, ToolDefinition, ToolDescriptor, ToolKind};
use crate::mcp::schema::{
    definition_views,
    field_names_differ,
    field_order,
    fields_have_these_defaults,
    properties_are_found,
    schema_of,
    the_first_field_must_be_given,
    tool_alias,
    tool_definition,
    tool_definitions,
    tool_name,
    tool_order,
    tool_properties,
    DefinitionView,
    ToolView,
};
use crate::naparnik::tool_roundtrip::is_exact_tool_name;
use crate::naparnik::tool_roundtrip::EXACT_TOOL_NAMES;
use crate::strings::same_text;
use crate::strings::trimmed;

verus! {

/// A tool call that is ready to be carried out.
#[derive(Debug)]
pub struct PreparedToolCall {
    canonical_name: &'static str,
    arguments: JsonObject,
    programming_language: String,
    instruction: String,
    route: ExecutionRoute,
}

/// The content of a [`PreparedToolCall`].
pub struct PreparedView {
    pub name: Seq<char>,
    pub arguments: Fields,
    pub language: Seq<char>,
    pub instruction: Seq<char>,
    pub route: RouteView,
}

impl View for PreparedToolCall {
    type V = PreparedView;

    closed spec fn view(&self) -> PreparedView {
        PreparedView {
            name: self.canonical_name@,
            arguments: self.arguments@,
            language: self.programming_language@,
            instruction: self.instruction@,
            route: self.route@,
        }
    }
}

impl PreparedToolCall {
    pub fn canonical_name(&self) -> (res: &'static str)
        ensures
            res@ == self@.name,
    {
        self.canonical_name
    }

    pub fn arguments(&self) -> (res: &JsonObject)
        ensures
            res@ == self@.arguments,
    {
        &self.arguments
    }

    pub fn programming_language(&self) -> (res: &str)
        ensures
            res@ == self@.language,
    {
        self.programming_language.as_str()
    }

    pub fn instruction(&self) -> (res: &str)
        ensures
            res@ == self@.instruction,
    {
        self.instruction.as_str()
    }

    pub fn route(&self) -> (res: &ExecutionRoute)
        ensures
            res@ == self@.route,
    {
        &self.route
    }
}

/// The public tools and how their calls are carried out.
#[derive(Debug)]
pub struct ToolCatalog {
    definitions: Vec<ToolDefinition>,
    tools: Vec<ToolDescriptor>,
    call_mode: CallMode,
    programming_language: String,
}

/// The content of a [`ToolCatalog`].
pub struct CatalogView {
    pub definitions: Seq<DefinitionView>,
    pub mode: CallMode,
    pub language: Seq<char>,
}

impl View for ToolCatalog {
    type V = CatalogView;

    closed spec fn view(&self) -> CatalogView {
        CatalogView {
            definitions: definition_views(self.definitions@),
            mode: self.call_mode,
            language: self.programming_language@,
        }
    }
}

/// What clients are shown of a list of definitions.
pub open spec fn shown_tools(definitions: Seq<DefinitionView>) -> Seq<ToolView> {
    definitions.map_values(|definition: DefinitionView| definition.tool)
}

/// The content of a list of descriptors.
pub open spec fn tool_views(tools: Seq<ToolDescriptor>) -> Seq<ToolView> {
    tools.map_values(|tool: ToolDescriptor| tool@)
}

/// The tool can be called by this name.
pub open spec fn answers_to(kind: ToolKind, name: Seq<char>) -> bool {
    name == tool_name(kind) || tool_alias(kind) == Some(name)
}

/// The first tool that can be called by a name.
pub open spec fn find_definition(definitions: Seq<DefinitionView>, name: Seq<char>) -> Option<
    DefinitionView,
>
    decreases definitions.len(),
{
    if definitions.len() == 0 {
        None
    } else if answers_to(definitions[0].kind, name) {
        Some(definitions[0])
    } else {
        find_definition(definitions.drop_first(), name)
    }
}

/// The language that a call is about: its own where it names one.
pub open spec fn call_language(arguments: Fields, default: Seq<char>) -> Seq<char> {
    match lookup(arguments, "programming_language"@) {
        Some(JsonView::Text(text)) => if text.len() > 0 {
            text
        } else {
            default
        },
        _ => default,
    }
}

/// A call of this tool, ready to be carried out.
pub open spec fn prepared_call(catalog: CatalogView, kind: ToolKind, arguments: Fields) -> PreparedView {
    let route = route_of(catalog.mode, kind, arguments);
    PreparedView {
        name: tool_name(kind),
        arguments,
        language: call_language(arguments, catalog.language),
        instruction: route_instruction(route, kind, arguments),
        route,
    }
}

/// What comes of a request for a tool.
pub open spec fn prepared(catalog: CatalogView, name: Seq<char>, arguments: Fields) -> Result<
    PreparedView,
    CatalogErrorView,
> {
    match find_definition(catalog.definitions, name) {
        None => Err(
            CatalogErrorView {
                kind: CatalogErrorKind::UnknownTool,
                message: general_message(CatalogErrorKind::UnknownTool),
            },
        ),
        Some(definition) => match taken_arguments(
            definition.kind,
            definition.tool.schema,
            arguments,
        ) {
            Err(error) => Err(error),
            Ok(taken) => Ok(prepared_call(catalog, definition.kind, taken)),
        },
    }
}

/// The tool can be called by this name.
fn kind_answers_to(kind: ToolKind, name: &str) -> (res: bool)
    ensures
        res == answers_to(kind, name@),
{
    same_text(name, kind.name()) || match kind.alias() {
        Some(alias) => same_text(name, alias),
        None => false,
    }
}

impl ToolCatalog {
    /// Every list of tools that clients are shown is that of the definitions.
    pub closed spec fn wf(self) -> bool {
        tool_views(self.tools@) == shown_tools(definition_views(self.definitions@))
    }

    /// The catalog under these limits and defaults.
    pub fn build(
        min_length: usize,
        max_length: usize,
        call_mode: CallMode,
        programming_language: &str,
        default_ssl_version: &str,
        default_configuration: &str,
    ) -> (res: Self)
        ensures
            res.wf(),
            res@ == (CatalogView {
                definitions: tool_definitions(
                    min_length as u64,
                    max_length as u64,
                    trimmed(default_ssl_version@),
                    trimmed(default_configuration@),
                ),
                mode: call_mode,
                language: programming_language@,
            }),
    {
        let definitions: Vec<ToolDefinition> = build_definitions(
            min_length,
            max_length,
            default_ssl_version.trim(),
            default_configuration.trim(),
        );
        let mut tools: Vec<ToolDescriptor> = Vec::new();
        let mut i: usize = 0;
        while i < definitions.len()
            invariant
                i <= definitions@.len(),
                tools@.len() == i,
                forall|k: int| 0 <= k < i ==> (#[trigger] tools@[k])@ == definitions@[k].tool@,
            decreases definitions@.len() - i,
        {
            tools.push(definitions[i].tool.duplicate());
            i += 1;
        }
        assert(tool_views(tools@) =~= shown_tools(definition_views(definitions@)));
        Self {
            definitions,
            tools,
            call_mode,
            programming_language: programming_language.to_owned(),
        }
    }

    /// The catalog of a configuration.
    pub fn from_config(config: &Config) -> (res: Self)
        ensures
            res.wf(),
            res@ == (CatalogView {
                definitions: tool_definitions(
                    config@.min_length as u64,
                    config@.max_length as u64,
                    trimmed(config@.ssl_version),
                    trimmed(config@.configuration),
                ),
                mode: config@.mode,
                language: config@.programming_language,
            }),
    {
        Self::build(
            config.tool_input_min_length(),
            config.tool_input_max_length(),
            config.call_mode(),
            config.programming_language(),
            config.default_ssl_version(),
            config.default_1c_configuration(),
        )
    }

    /// What clients are shown of the tools.
    pub fn tools(&self) -> (res: &Vec<ToolDescriptor>)
        requires
            self.wf(),
        ensures
            tool_views(res@) == shown_tools(self@.definitions),
    {
        &self.tools
    }

    fn find(&self, name: &str) -> (res: Option<usize>)
        ensures
            match res {
                Some(i) => i < self.definitions@.len() && find_definition(
                    self@.definitions,
                    name@,
                ) == Some(self.definitions@[i as int]@),
                None => find_definition(self@.definitions, name@) is None,
            },
    {
        let ghost views: Seq<DefinitionView> = self@.definitions;
        assert(views.skip(0) =~= views);
        let mut i: usize = 0;
        while i < self.definitions.len()
            invariant
                i <= self.definitions@.len(),
                views == definition_views(self.definitions@),
                find_definition(views, name@) == find_definition(views.skip(i as int), name@),
            decreases self.definitions@.len() - i,
        {
            assert(views.skip(i as int)[0] == self.definitions@[i as int]@);
            assert(views.skip(i as int).drop_first() =~= views.skip(i + 1));
            if kind_answers_to(self.definitions[i].kind, name) {
                return Some(i);
            }
            i += 1;
        }
        None
    }

    /// Checks a request for a tool and decides how it is carried out.
    pub fn prepare(&self, requested_name: &str, arguments: &JsonObject) -> (res: Result<
        PreparedToolCall,
        CatalogError,
    >)
        ensures
            match res {
                Ok(call) => prepared(self@, requested_name@, arguments@) == Ok::<
                    _,
                    CatalogErrorView,
                >(call@),
                Err(error) => prepared(self@, requested_name@, arguments@) == Err::<
                    PreparedView,
                    _,
                >(error@),
            },
    {
        let definition: &ToolDefinition = match self.find(requested_name) {
            Some(i) => &self.definitions[i],
            None => {
                return Err(CatalogError::new(CatalogErrorKind::UnknownTool));
            },
        };
        let kind: ToolKind = definition.kind;
        let normalized: JsonObject = match normalize_arguments(
            kind,
            &definition.tool.input_schema,
            arguments,
        ) {
            Ok(normalized) => normalized,
            Err(error) => {
                return Err(error);
            },
        };
        let mut programming_language: String = self.programming_language.clone();
        match normalized.get("programming_language") {
            Some(Json::Text(text)) => {
                if !text.as_str().is_empty() {
                    programming_language = text.clone();
                }
            },
            _ => {},
        }
        proof {
            only_fields_of_the_tool_are_read(self.call_mode, kind, normalized@);
        }
        let route: ExecutionRoute = choose_route(self.call_mode, kind, &normalized);
        let instruction: String = match &route {
            ExecutionRoute::Message => build_message_instruction(kind, &normalized),
            ExecutionRoute::Exact { name, arguments } => build_exact_instruction(name, arguments),
        };
        Ok(
            PreparedToolCall {
                canonical_name: kind.name(),
                arguments: normalized,
                programming_language,
                instruction,
                route,
            },
        )
    }
}

/// No name calls two tools.
pub proof fn a_name_calls_one_tool(a: ToolKind, b: ToolKind, name: Seq<char>)
    requires
        answers_to(a, name),
        answers_to(b, name),
    ensures
        a == b,
{
    reveal_strlit("ask_1c_ai");
    reveal_strlit("explain_1c_syntax");
    reveal_strlit("check_1c_code");
    reveal_strlit("modify_1c_code");
    reveal_strlit("search_1c_documentation");
    reveal_strlit("search_its");
    reveal_strlit("fetch_its");
    reveal_strlit("diff_1c_documentation_versions");
    reveal_strlit("Search_1C_Documentation");
    reveal_strlit("Search_ITS");
    reveal_strlit("Fetch_ITS");
    reveal_strlit("Diff_1C_Documentation_Versions");
    assert("ask_1c_ai"@.len() == 9);
    assert("explain_1c_syntax"@.len() == 17);
    assert("check_1c_code"@.len() == 13);
    assert("modify_1c_code"@.len() == 14);
    assert("search_1c_documentation"@.len() == 23);
    assert("search_its"@.len() == 10);
    assert("fetch_its"@.len() == 9);
    assert("diff_1c_documentation_versions"@.len() == 30);
    assert("Search_1C_Documentation"@.len() == 23);
    assert("Search_ITS"@.len() == 10);
    assert("Fetch_ITS"@.len() == 9);
    assert("Diff_1C_Documentation_Versions"@.len() == 30);
    assert("ask_1c_ai"@[0] == 'a');
    assert("fetch_its"@[0] == 'f');
    assert("Fetch_ITS"@[0] == 'F');
}

proof fn find_finds(definitions: Seq<DefinitionView>, at: int, name: Seq<char>)
    requires
        0 <= at < definitions.len(),
        answers_to(definitions[at].kind, name),
    ensures
        find_definition(definitions, name) matches Some(found) && answers_to(found.kind, name)
            && definitions.contains(found),
    decreases definitions.len(),
{
    if answers_to(definitions[0].kind, name) {
        assert(definitions.contains(definitions[0]));
    } else {
        find_finds(definitions.drop_first(), at - 1, name);
        let found = find_definition(definitions.drop_first(), name)->0;
        let k = choose|k: int| 0 <= k < definitions.len() - 1 && definitions.drop_first()[k] == found;
        assert(definitions[k + 1] == found);
    }
}

/// Every tool can be called, under its name and its further name.
pub proof fn every_tool_can_be_called(
    min: u64,
    max: u64,
    ssl: Seq<char>,
    configuration: Seq<char>,
    kind: ToolKind,
    name: Seq<char>,
)
    requires
        answers_to(kind, name),
    ensures
        find_definition(tool_definitions(min, max, ssl, configuration), name) == Some(
            tool_definition(kind, min, max, ssl, configuration),
        ),
{
    let definitions = tool_definitions(min, max, ssl, configuration);
    let order = tool_order();
    assert(order[0] == ToolKind::Ask && order[1] == ToolKind::Explain && order[2]
        == ToolKind::Check && order[3] == ToolKind::Modify && order[4]
        == ToolKind::SearchDocumentation && order[5] == ToolKind::SearchIts && order[6]
        == ToolKind::FetchIts && order[7] == ToolKind::DiffDocumentation);
    assert(order.contains(kind));
    let at = choose|at: int| 0 <= at < order.len() && order[at] == kind;
    find_finds(definitions, at, name);
    let found = find_definition(definitions, name)->0;
    a_name_calls_one_tool(found.kind, kind, name);
    let k = choose|k: int| 0 <= k < definitions.len() && definitions[k] == found;
    assert(definitions[k] == tool_definition(order[k], min, max, ssl, configuration));
}

/// An exact route leads to one of the internal tools that may be called exactly.
pub proof fn exact_routes_name_exact_tools(mode: CallMode, kind: ToolKind, arguments: Fields)
    ensures
        route_of(mode, kind, arguments) matches RouteView::Exact { name, arguments: _ }
            ==> is_exact_tool_name(name),
{
    assert(EXACT_TOOL_NAMES[0]@ == "mcp__syntax-checker__validate"@);
    assert(EXACT_TOOL_NAMES[1]@ == "mcp__knowledge-hub__Search_Documentation"@);
    assert(EXACT_TOOL_NAMES[2]@ == "mcp__knowledge-hub__Search_ITS"@);
    assert(EXACT_TOOL_NAMES[3]@ == "mcp__knowledge-hub__Fetch_ITS"@);
    assert(EXACT_TOOL_NAMES[4]@ == "mcp__knowledge-hub__Diff_Documentation_Versions"@);
}

/// In standard mode every call goes by a message.
pub proof fn standard_mode_sends_messages(kind: ToolKind, arguments: Fields)
    ensures
        route_of(CallMode::Standard, kind, arguments) is Message,
{
}

/// A call that is prepared has given every required field, and every value that it has
/// given is taken as the tool's schema allows: no text is too short or too long, and
/// none is outside the choices.
pub proof fn prepared_arguments_obey_the_schema(
    catalog: CatalogView,
    name: Seq<char>,
    arguments: Fields,
    at: int,
)
    requires
        prepared(catalog, name, arguments) is Ok,
        0 <= at < field_order(find_definition(catalog.definitions, name)->0.kind).len(),
    ensures
        ({
            let definition = find_definition(catalog.definitions, name)->0;
            let field = field_order(definition.kind)[at];
            let properties = lookup(definition.tool.schema, "properties"@)->0->Object_0;
            let required = lookup(definition.tool.schema, "required"@)->0->Array_0;
            let given = lookup(arguments, field);
            let taken = lookup(prepared(catalog, name, arguments)->Ok_0.arguments, field);
            &&& taken is Some
            &&& lookup(properties, field) matches Some(JsonView::Object(schema)) && (given is Some
                ==> obeys_schema(schema, taken->0)) && (is_required(required, field) ==> given is Some
                && is_substantial(schema, given->0))
        }),
{
    let definition = find_definition(catalog.definitions, name)->0;
    field_names_differ(definition.kind);
    taken_values_obey_their_schemas(
        definition.kind,
        field_order(definition.kind),
        lookup(definition.tool.schema, "properties"@)->0->Object_0,
        lookup(definition.tool.schema, "required"@)->0->Array_0,
        arguments,
        at,
    );
}

/// A request is judged by the fields of its tool alone.
pub proof fn undeclared_arguments_are_ignored(
    catalog: CatalogView,
    name: Seq<char>,
    arguments: Fields,
    other: Fields,
)
    requires
        forall|kind: ToolKind, i: int|
            answers_to(kind, name) && 0 <= i < field_order(kind).len() ==> lookup(
                arguments,
                #[trigger] field_order(kind)[i],
            ) == lookup(other, field_order(kind)[i]),
    ensures
        prepared(catalog, name, arguments) == prepared(catalog, name, other),
{
    if let Some(definition) = find_definition(catalog.definitions, name) {
        found_answers(catalog.definitions, name);
        let kind = definition.kind;
        match (
            lookup(definition.tool.schema, "properties"@),
            lookup(definition.tool.schema, "required"@),
        ) {
            (Some(JsonView::Object(properties)), Some(JsonView::Array(required))) => {
                unknown_fields_are_ignored(
                    kind,
                    field_order(kind),
                    properties,
                    required,
                    arguments,
                    other,
                );
            },
            _ => {},
        }
    }
}

proof fn found_answers(definitions: Seq<DefinitionView>, name: Seq<char>)
    ensures
        find_definition(definitions, name) matches Some(found) ==> answers_to(found.kind, name),
    decreases definitions.len(),
{
    if definitions.len() > 0 {
        found_answers(definitions.drop_first(), name);
    }
}

/// A prepared call has exactly the fields of its tool. A flag that was given is taken with
/// its value, and a text that was given and is not blank without the white space around
/// it. What was not given, or left blank, is taken from the tool's defaults.
pub proof fn prepared_calls_keep_what_was_given(
    catalog: CatalogView,
    name: Seq<char>,
    arguments: Fields,
    field: Seq<char>,
)
    requires
        prepared(catalog, name, arguments) is Ok,
    ensures
        ({
            let definition = find_definition(catalog.definitions, name)->0;
            let default = lookup(schema_of(definition, field), "default"@);
            let given = lookup(arguments, field);
            let taken = lookup(prepared(catalog, name, arguments)->Ok_0.arguments, field);
            &&& answers_to(definition.kind, name)
            &&& prepared(catalog, name, arguments)->Ok_0.name == tool_name(definition.kind)
            &&& !field_order(definition.kind).contains(field) ==> taken is None
            &&& field_order(definition.kind).contains(field) ==> {
                &&& taken is Some
                &&& given matches Some(JsonView::Bool(flag)) ==> taken == Some(JsonView::Bool(flag))
                &&& given matches Some(JsonView::Text(text)) ==> trimmed(text).len() > 0 ==> taken
                    == Some(JsonView::Text(trimmed(text)))
                &&& given is None && default is Some ==> taken == default
                &&& given matches Some(JsonView::Text(text)) ==> trimmed(text).len() == 0 ==> (
                default matches Some(JsonView::Text(_)) ==> taken == default)
            }
        }),
{
    let definition = find_definition(catalog.definitions, name)->0;
    let kind = definition.kind;
    let order = field_order(kind);
    let properties = lookup(definition.tool.schema, "properties"@)->0->Object_0;
    let required = lookup(definition.tool.schema, "required"@)->0->Array_0;
    found_answers(catalog.definitions, name);
    field_names_differ(kind);
    if order.contains(field) {
        let at = choose|at: int| 0 <= at < order.len() && order[at] == field;
        given_values_are_taken(kind, order, properties, required, arguments, at);
        taken_values_obey_their_schemas(kind, order, properties, required, arguments, at);
    } else {
        no_other_field_is_taken(kind, order, properties, required, arguments, field);
    }
}

/// Every tool can be called with arguments that fit its fields, under any of its names.
pub proof fn fitting_calls_are_prepared(
    catalog: CatalogView,
    min: u64,
    max: u64,
    ssl: Seq<char>,
    configuration: Seq<char>,
    kind: ToolKind,
    name: Seq<char>,
    arguments: Fields,
)
    requires
        catalog.definitions == tool_definitions(min, max, ssl, configuration),
        answers_to(kind, name),
        forall|i: int|
            0 <= i < field_order(kind).len() ==> fits(
                schema_of(
                    tool_definition(kind, min, max, ssl, configuration),
                    #[trigger] field_order(kind)[i],
                ),
                i == 0 && kind != ToolKind::FetchIts || i == 1 && kind
                    == ToolKind::DiffDocumentation,
                lookup(arguments, field_order(kind)[i]),
            ),
    ensures
        prepared(catalog, name, arguments) is Ok,
        prepared(catalog, name, arguments)->Ok_0.name == tool_name(kind),
{
    every_tool_can_be_called(min, max, ssl, configuration, kind, name);
    let definition = tool_definition(kind, min, max, ssl, configuration);
    let order = field_order(kind);
    properties_are_found(kind, min, max, ssl, configuration, name);
    let properties = lookup(definition.tool.schema, "properties"@)->0->Object_0;
    let required = lookup(definition.tool.schema, "required"@)->0->Array_0;
    assert forall|i: int| 0 <= i < order.len() implies (lookup(
        properties,
        #[trigger] order[i],
    ) matches Some(JsonView::Object(schema)) && fits(
        schema,
        required.contains(JsonView::Text(order[i])),
        lookup(arguments, order[i]),
    )) by {
        the_first_field_must_be_given(kind, min, max, ssl, configuration, i);
        let given = tool_properties(kind, min, max, ssl, configuration);
        assert(given[i].0 == order[i]);
        assert(given[i].1 is Object) by {
            assert(i == 0 || i == 1 || i == 2 || i == 3);
        }
    }
    fitting_arguments_are_taken(kind, order, properties, required, arguments);
}

/// Only the names of tools can be called.
pub proof fn other_names_are_unknown(
    min: u64,
    max: u64,
    ssl: Seq<char>,
    configuration: Seq<char>,
    mode: CallMode,
    language: Seq<char>,
    name: Seq<char>,
    arguments: Fields,
)
    requires
        forall|kind: ToolKind| !#[trigger] answers_to(kind, name),
    ensures
        prepared(
            CatalogView {
                definitions: tool_definitions(min, max, ssl, configuration),
                mode,
                language,
            },
            name,
            arguments,
        ) matches Err(error) && error.kind == CatalogErrorKind::UnknownTool,
{
    found_answers(tool_definitions(min, max, ssl, configuration), name);
}

/// A prepared call goes the way that the mode and its arguments decide, and says what that
/// way asks for. It is about the language that it names, else about that of the settings.
pub proof fn prepared_calls_go_their_way(catalog: CatalogView, name: Seq<char>, arguments: Fields)
    requires
        prepared(catalog, name, arguments) is Ok,
    ensures
        ({
            let call = prepared(catalog, name, arguments)->Ok_0;
            let kind = find_definition(catalog.definitions, name)->0.kind;
            &&& call.route == route_of(catalog.mode, kind, call.arguments)
            &&& call.instruction == route_instruction(call.route, kind, call.arguments)
            &&& lookup(call.arguments, "programming_language"@) matches Some(JsonView::Text(text))
                ==> text.len() > 0 ==> call.language == text
            &&& !(lookup(call.arguments, "programming_language"@) matches Some(JsonView::Text(text))
                && text.len() > 0) ==> call.language == catalog.language
        }),
{
}

/// In direct mode the document that a call names is the document that is fetched, without
/// the white space around its name; where it names none, the root is.
pub proof fn the_named_document_is_fetched(
    min: u64,
    max: u64,
    ssl: Seq<char>,
    configuration: Seq<char>,
    language: Seq<char>,
    name: Seq<char>,
    arguments: Fields,
)
    requires
        answers_to(ToolKind::FetchIts, name),
    ensures
        ({
            let catalog = CatalogView {
                definitions: tool_definitions(min, max, ssl, configuration),
                mode: CallMode::Direct,
                language,
            };
            prepared(catalog, name, arguments) matches Ok(call) ==> {
                &&& call.route matches RouteView::Exact { name: tool, arguments: exact } && {
                    &&& tool == "mcp__knowledge-hub__Fetch_ITS"@
                    &&& lookup(arguments, "id"@) matches Some(JsonView::Text(id)) ==> trimmed(
                        id,
                    ).len() > 0 ==> lookup(exact, "id"@) == Some(JsonView::Text(trimmed(id)))
                    &&& lookup(arguments, "id"@) is None ==> lookup(exact, "id"@) == Some(
                        JsonView::Text("root"@),
                    )
                }
            }
        }),
{
    let catalog = CatalogView {
        definitions: tool_definitions(min, max, ssl, configuration),
        mode: CallMode::Direct,
        language,
    };
    if prepared(catalog, name, arguments) is Ok {
        every_tool_can_be_called(min, max, ssl, configuration, ToolKind::FetchIts, name);
        prepared_calls_keep_what_was_given(catalog, name, arguments, "id"@);
        let call = prepared(catalog, name, arguments)->Ok_0;
        assert(field_order(ToolKind::FetchIts)[0] == "id"@);
        assert(field_order(ToolKind::FetchIts).contains("id"@));
        exact_routes_carry_what_was_taken(ToolKind::FetchIts, call.arguments, "id"@);
        fields_have_these_defaults(min, max, ssl, configuration, ToolKind::FetchIts, "id"@);
    }
}

/// Each tool is called by its own name, and those that search or fetch by one further name.
pub proof fn tools_answer_to_these_names(name: Seq<char>)
    ensures
        answers_to(ToolKind::Ask, name) <==> name == "ask_1c_ai"@,
        answers_to(ToolKind::Explain, name) <==> name == "explain_1c_syntax"@,
        answers_to(ToolKind::Check, name) <==> name == "check_1c_code"@,
        answers_to(ToolKind::Modify, name) <==> name == "modify_1c_code"@,
        answers_to(ToolKind::SearchDocumentation, name) <==> name == "search_1c_documentation"@
            || name == "Search_1C_Documentation"@,
        answers_to(ToolKind::SearchIts, name) <==> name == "search_its"@ || name == "Search_ITS"@,
        answers_to(ToolKind::FetchIts, name) <==> name == "fetch_its"@ || name == "Fetch_ITS"@,
        answers_to(ToolKind::DiffDocumentation, name) <==> name
            == "diff_1c_documentation_versions"@ || name == "Diff_1C_Documentation_Versions"@,
{
}

/// What is found is the first of the tools that answer to a name.
pub proof fn the_first_tool_that_answers_is_found(definitions: Seq<DefinitionView>, name: Seq<char>)
    ensures
        match find_definition(definitions, name) {
            Some(found) => exists|i: int|
                0 <= i < definitions.len() && #[trigger] definitions[i] == found && answers_to(
                    found.kind,
                    name,
                ) && (forall|j: int| 0 <= j < i ==> !answers_to((#[trigger] definitions[j]).kind, name)),
            None => forall|j: int|
                0 <= j < definitions.len() ==> !answers_to((#[trigger] definitions[j]).kind, name),
        },
    decreases definitions.len(),
{
    if definitions.len() > 0 && !answers_to(definitions[0].kind, name) {
        let rest = definitions.drop_first();
        the_first_tool_that_answers_is_found(rest, name);
        assert forall|j: int| 1 <= j < definitions.len() implies #[trigger] definitions[j] == rest[j
            - 1] by {}
        if let Some(found) = find_definition(rest, name) {
            let i = choose|i: int|
                0 <= i < rest.len() && #[trigger] rest[i] == found && answers_to(found.kind, name)
                    && (forall|j: int| 0 <= j < i ==> !answers_to((#[trigger] rest[j]).kind, name));
            assert(definitions[i + 1] == found);
            assert forall|j: int| 0 <= j < i + 1 implies !answers_to(
                (#[trigger] definitions[j]).kind,
                name,
            ) by {
                if j > 0 {
                    assert(definitions[j] == rest[j - 1]);
                }
            }
        }
    }
}

} // verus!
