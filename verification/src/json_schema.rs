//! JSON Schema documents, the schema of workflows, and the generator's structural
//! check of a workflow.

use vstd::prelude::*;
use crate::node::{Node, NodeKind};
use crate::templating::{json_quoted, quote_json};
use crate::workflow::Workflow;

verus! {

/// A JSON Schema document. Enumerated values are JSON texts and numeric bounds JSON
/// number texts; properties and definitions are named schemas.
#[derive(Debug)]
pub struct JsonSchema {
    pub schema: String,
    pub id: Option<String>,
    pub title: Option<String>,
    pub description: Option<String>,
    pub schema_type: String,
    pub properties: Option<Vec<(String, JsonSchema)>>,
    pub required: Option<Vec<String>>,
    pub items: Option<Box<JsonSchema>>,
    pub enum_values: Option<Vec<String>>,
    pub additional_properties: Option<Box<JsonSchema>>,
    pub definitions: Option<Vec<(String, JsonSchema)>>,
    pub minimum: Option<String>,
    pub maximum: Option<String>,
    pub pattern: Option<String>,
    pub format: Option<String>,
    pub one_of: Option<Vec<JsonSchema>>,
    pub any_of: Option<Vec<JsonSchema>>,
    pub all_of: Option<Vec<JsonSchema>>,
    pub reference: Option<String>,
}

/// A schema of the given type with the draft 2020-12 dialect and nothing else set.
pub open spec fn plain_schema(r: JsonSchema, t: Seq<char>) -> bool {
    &&& r.schema@ == "https://json-schema.org/draft/2020-12/schema"@
    &&& r.schema_type@ == t
    &&& r.id is None && r.title is None && r.description is None
    &&& r.properties is None && r.required is None && r.items is None
    &&& r.enum_values is None && r.additional_properties is None && r.definitions is None
    &&& r.minimum is None && r.maximum is None && r.pattern is None && r.format is None
    &&& r.one_of is None && r.any_of is None && r.all_of is None && r.reference is None
}

/// `i` is the first entry named `k`.
pub open spec fn first_named<V>(s: Seq<(String, V)>, k: Seq<char>, i: int) -> bool {
    0 <= i < s.len() && s[i].0@ == k && forall|j: int| 0 <= j < i ==> s[j].0@ != k
}

/// Set the entry named `k`: replace the first one with that name, or add one at the end
/// (as a map insertion does).
pub open spec fn put_named<V>(s: Seq<(String, V)>, k: String, v: V) -> Seq<(String, V)> {
    if exists|i: int| #[trigger] first_named(s, k@, i) {
        s.update(choose|i: int| #[trigger] first_named(s, k@, i), (k, v))
    } else {
        s.push((k, v))
    }
}

/// The names of named entries, in order.
pub open spec fn names_of<V>(s: Seq<(String, V)>) -> Seq<Seq<char>> {
    s.map_values(|e: (String, V)| e.0@)
}

/// The views of a list of texts.
pub open spec fn text_views(s: Seq<String>) -> Seq<Seq<char>> {
    s.map_values(|x: String| x@)
}

fn put_named_exec<V>(v: &mut Vec<(String, V)>, k: String, val: V)
    ensures
        final(v)@ == put_named(old(v)@, k, val),
{
    let mut i: usize = 0;
    while i < v.len()
        invariant
            i <= v@.len(),
            v@ == old(v)@,
            forall|j: int| 0 <= j < i ==> v@[j].0@ != k@,
        decreases v.len() - i,
    {
        if crate::execution::str_eq(v[i].0.as_str(), k.as_str()) {
            proof {
                assert(first_named(v@, k@, i as int));
                let c = choose|c: int| #[trigger] first_named(v@, k@, c);
                assert(first_named(v@, k@, c));
                if c < i {
                    assert(v@[c].0@ != k@);
                } else if c > i {
                    assert(v@[i as int].0@ != k@);
                }
            }
            v.set(i, (k, val));
            return;
        }
        i = i + 1;
    }
    proof {
        if exists|c: int| #[trigger] first_named(v@, k@, c) {
            let c = choose|c: int| #[trigger] first_named(v@, k@, c);
            assert(v@[c].0@ != k@);
        }
    }
    v.push((k, val));
}

impl JsonSchema {
    /// A schema of the type, in the draft 2020-12 dialect, with nothing else set.
    pub fn new(schema_type: &str) -> (r: Self)
        ensures
            plain_schema(r, schema_type@),
    {
        JsonSchema {
            schema: String::from_str("https://json-schema.org/draft/2020-12/schema"),
            id: None,
            title: None,
            description: None,
            schema_type: String::from_str(schema_type),
            properties: None,
            required: None,
            items: None,
            enum_values: None,
            additional_properties: None,
            definitions: None,
            minimum: None,
            maximum: None,
            pattern: None,
            format: None,
            one_of: None,
            any_of: None,
            all_of: None,
            reference: None,
        }
    }

    /// A string schema.
    pub fn string() -> (r: Self)
        ensures
            plain_schema(r, "string"@),
    {
        Self::new("string")
    }

    /// A number schema.
    pub fn number() -> (r: Self)
        ensures
            plain_schema(r, "number"@),
    {
        Self::new("number")
    }

    /// An integer schema.
    pub fn integer() -> (r: Self)
        ensures
            plain_schema(r, "integer"@),
    {
        Self::new("integer")
    }

    /// A boolean schema.
    pub fn boolean() -> (r: Self)
        ensures
            plain_schema(r, "boolean"@),
    {
        Self::new("boolean")
    }

    /// An array schema of the given items.
    pub fn array(items: JsonSchema) -> (r: Self)
        ensures
            r.schema_type@ == "array"@,
            r.items == Some(Box::new(items)),
            r.properties is None && r.required is None && r.reference is None,
    {
        let mut s = Self::new("array");
        s.items = Some(Box::new(items));
        s
    }

    /// An object schema with no property yet.
    pub fn object() -> (r: Self)
        ensures
            r.schema_type@ == "object"@,
            r.properties matches Some(p) && p@.len() == 0,
            r.required is None && r.items is None && r.reference is None && r.definitions is None,
            r.description is None && r.title is None && r.id is None && r.enum_values is None,
    {
        let mut s = Self::new("object");
        s.properties = Some(Vec::new());
        s
    }

    /// An object schema that refers to another schema.
    pub fn reference(ref_path: &str) -> (r: Self)
        ensures
            r.schema_type@ == "object"@,
            r.reference matches Some(x) && x@ == ref_path@,
            r.properties is None,
    {
        let mut s = Self::new("object");
        s.reference = Some(String::from_str(ref_path));
        s
    }

    /// Set the title.
    pub fn with_title(self, title: String) -> (r: Self)
        ensures
            r == (JsonSchema { title: Some(title), ..self }),
    {
        JsonSchema { title: Some(title), ..self }
    }

    /// Set the description.
    pub fn with_description(self, description: String) -> (r: Self)
        ensures
            r == (JsonSchema { description: Some(description), ..self }),
    {
        JsonSchema { description: Some(description), ..self }
    }

    /// Set the identifier.
    pub fn with_id(self, id: String) -> (r: Self)
        ensures
            r == (JsonSchema { id: Some(id), ..self }),
    {
        JsonSchema { id: Some(id), ..self }
    }

    /// Set the enumerated values (JSON texts).
    pub fn with_enum(self, values: Vec<String>) -> (r: Self)
        ensures
            r == (JsonSchema { enum_values: Some(values), ..self }),
    {
        JsonSchema { enum_values: Some(values), ..self }
    }

    /// Set the string pattern.
    pub fn with_pattern(self, pattern: String) -> (r: Self)
        ensures
            r == (JsonSchema { pattern: Some(pattern), ..self }),
    {
        JsonSchema { pattern: Some(pattern), ..self }
    }

    /// Set the string format.
    pub fn with_format(self, format: String) -> (r: Self)
        ensures
            r == (JsonSchema { format: Some(format), ..self }),
    {
        JsonSchema { format: Some(format), ..self }
    }

    /// Set a property (replacing one of that name).
    pub fn add_property(&mut self, name: String, schema: JsonSchema)
        ensures
            final(self).properties matches Some(p) && p@ == put_named(
                match old(self).properties {
                    Some(q) => q@,
                    None => Seq::empty(),
                },
                name,
                schema,
            ),
            *final(self) == (JsonSchema { properties: final(self).properties, ..*old(self) }),
    {
        let mut props = match self.properties.take() {
            Some(p) => p,
            None => Vec::new(),
        };
        put_named_exec(&mut props, name, schema);
        self.properties = Some(props);
    }

    /// Add a required property name.
    pub fn add_required(&mut self, name: String)
        ensures
            final(self).required matches Some(q) && q@ == match old(self).required {
                Some(p) => p@,
                None => Seq::empty(),
            }.push(name),
            *final(self) == (JsonSchema { required: final(self).required, ..*old(self) }),
    {
        let mut req = match self.required.take() {
            Some(p) => p,
            None => Vec::new(),
        };
        req.push(name);
        self.required = Some(req);
    }

    /// Set a definition (replacing one of that name).
    pub fn add_definition(&mut self, name: String, schema: JsonSchema)
        ensures
            final(self).definitions matches Some(p) && p@ == put_named(
                match old(self).definitions {
                    Some(q) => q@,
                    None => Seq::empty(),
                },
                name,
                schema,
            ),
            *final(self) == (JsonSchema { definitions: final(self).definitions, ..*old(self) }),
    {
        let mut defs = match self.definitions.take() {
            Some(p) => p,
            None => Vec::new(),
        };
        put_named_exec(&mut defs, name, schema);
        self.definitions = Some(defs);
    }
}

/// An object schema with the given properties (in order) and required names, and the
/// description when asked for.
pub open spec fn object_with(r: JsonSchema, keys: Seq<Seq<char>>, required: Seq<Seq<char>>, description: Option<Seq<char>>) -> bool {
    &&& r.schema_type@ == "object"@
    &&& r.properties matches Some(p) && names_of(p@) == keys
    &&& r.required matches Some(q) && text_views(q@) == required
    &&& match description {
        Some(d) => r.description matches Some(x) && x@ == d,
        None => r.description is None,
    }
}

fn named(name: &str, schema: JsonSchema) -> (r: (String, JsonSchema))
    ensures
        r.0@ == name@,
        r.1 == schema,
{
    (String::from_str(name), schema)
}

fn uuid_string() -> (r: JsonSchema)
    ensures
        r.schema_type@ == "string"@,
        r.format matches Some(f) && f@ == "uuid"@,
{
    JsonSchema::string().with_format(String::from_str("uuid"))
}

fn date_time_string() -> (r: JsonSchema)
    ensures
        r.schema_type@ == "string"@,
        r.format matches Some(f) && f@ == "date-time"@,
{
    JsonSchema::string().with_format(String::from_str("date-time"))
}

fn texts(items: &[&str]) -> (r: Vec<String>)
    ensures
        r@.len() == items@.len(),
        forall|i: int| 0 <= i < items@.len() ==> (#[trigger] r@[i])@ == items@[i]@,
{
    let mut out: Vec<String> = Vec::new();
    let mut i: usize = 0;
    while i < items.len()
        invariant
            i <= items@.len(),
            out@.len() == i,
            forall|k: int| 0 <= k < i ==> (#[trigger] out@[k])@ == items@[k]@,
        decreases items.len() - i,
    {
        out.push(String::from_str(items[i]));
        i = i + 1;
    }
    out
}

fn describe_if(s: JsonSchema, on: bool, text: &str) -> (r: JsonSchema)
    ensures
        on ==> (r.description matches Some(d) && d@ == text@ && r == (JsonSchema { description: r.description, ..s })),
        !on ==> r == s,
{
    if on {
        s.with_description(String::from_str(text))
    } else {
        s
    }
}

/// What the generated schema includes.
#[derive(Debug, Clone, Copy, PartialEq, Eq)]
pub struct WorkflowSchemaGenerator {
    pub include_optional: bool,
    pub include_examples: bool,
    pub include_descriptions: bool,
}

/// Some node is a start node.
pub open spec fn has_start(nodes: Seq<Node>) -> bool {
    exists|i: int| 0 <= i < nodes.len() && #[trigger] nodes[i].kind is Start
}

/// Some node is an end node.
pub open spec fn has_end(nodes: Seq<Node>) -> bool {
    exists|i: int| 0 <= i < nodes.len() && #[trigger] nodes[i].kind is End
}

/// The messages of the schema check, in order: no node, no start node, no end node.
pub open spec fn schema_errors(nodes: Seq<Node>) -> Seq<Seq<char>> {
    let a: Seq<Seq<char>> = if nodes.len() == 0 { seq!["Workflow must have at least one node"@] } else { seq![] };
    let b: Seq<Seq<char>> = if !has_start(nodes) { seq!["Workflow must have a Start node"@] } else { seq![] };
    let c: Seq<Seq<char>> = if !has_end(nodes) { seq!["Workflow must have an End node"@] } else { seq![] };
    a + b + c
}

fn any_kind(nodes: &Vec<Node>, start: bool) -> (r: bool)
    ensures
        start ==> r == has_start(nodes@),
        !start ==> r == has_end(nodes@),
{
    let mut i: usize = 0;
    while i < nodes.len()
        invariant
            i <= nodes@.len(),
            start ==> forall|j: int| 0 <= j < i ==> !(#[trigger] nodes@[j].kind is Start),
            !start ==> forall|j: int| 0 <= j < i ==> !(#[trigger] nodes@[j].kind is End),
        decreases nodes.len() - i,
    {
        let hit = match nodes[i].kind {
            NodeKind::Start => start,
            NodeKind::End => !start,
            _ => false,
        };
        if hit {
            return true;
        }
        i = i + 1;
    }
    false
}

impl WorkflowSchemaGenerator {
    /// Optional fields and descriptions included, examples left out.
    pub fn new() -> (r: Self)
        ensures
            r == (WorkflowSchemaGenerator { include_optional: true, include_examples: false, include_descriptions: true }),
    {
        WorkflowSchemaGenerator { include_optional: true, include_examples: false, include_descriptions: true }
    }

    /// Check that a workflow has nodes, a start node and an end node; the errors come
    /// in that order.
    pub fn validate_workflow(&self, workflow: &Workflow) -> (r: Result<(), Vec<String>>)
        ensures
            match r {
                Ok(_) => schema_errors(workflow.nodes@).len() == 0,
                Err(v) => v@.map_values(|s: String| s@) == schema_errors(workflow.nodes@) && v@.len() > 0,
            },
    {
        let mut errors: Vec<String> = Vec::new();
        let ghost nodes = workflow.nodes@;
        if workflow.nodes.len() == 0 {
            errors.push(String::from_str("Workflow must have at least one node"));
        }
        let ghost e1 = errors@.map_values(|s: String| s@);
        if !any_kind(&workflow.nodes, true) {
            errors.push(String::from_str("Workflow must have a Start node"));
        }
        let ghost e2 = errors@.map_values(|s: String| s@);
        if !any_kind(&workflow.nodes, false) {
            errors.push(String::from_str("Workflow must have an End node"));
        }
        proof {
            let a: Seq<Seq<char>> = if nodes.len() == 0 { seq!["Workflow must have at least one node"@] } else { seq![] };
            let b: Seq<Seq<char>> = if !has_start(nodes) { seq!["Workflow must have a Start node"@] } else { seq![] };
            let c: Seq<Seq<char>> = if !has_end(nodes) { seq!["Workflow must have an End node"@] } else { seq![] };
            assert(e1 =~= a);
            assert(e2 =~= a + b);
            assert(errors@.map_values(|s: String| s@) =~= a + b + c);
        }
        if errors.len() == 0 {
            Ok(())
        } else {
            Err(errors)
        }
    }
}

impl WorkflowSchemaGenerator {
    /// The schema of a node kind: a string among the kind names.
    pub fn generate_node_kind_schema(&self) -> (r: JsonSchema)
        ensures
            r.schema_type@ == "string"@,
            r.enum_values matches Some(v) && text_views(v@) == seq![
                "Start"@, "End"@, "LLM"@, "Retriever"@, "Code"@, "IfElse"@, "Tool"@, "Loop"@, "TryCatch"@,
                "SubWorkflow"@, "Switch"@, "Parallel"@, "Approval"@, "Form"@,
            ].map_values(|n: Seq<char>| json_quoted(n)),
    {
        let names = [
            "Start", "End", "LLM", "Retriever", "Code", "IfElse", "Tool", "Loop", "TryCatch", "SubWorkflow", "Switch",
            "Parallel", "Approval", "Form",
        ];
        let ghost want = seq![
            "Start"@, "End"@, "LLM"@, "Retriever"@, "Code"@, "IfElse"@, "Tool"@, "Loop"@, "TryCatch"@,
            "SubWorkflow"@, "Switch"@, "Parallel"@, "Approval"@, "Form"@,
        ];
        assert(names@.map_values(|n: &str| n@) =~= want);
        let mut values: Vec<String> = Vec::new();
        let mut i: usize = 0;
        while i < names.len()
            invariant
                i <= names@.len(),
                names@.len() == 14,
                want == names@.map_values(|n: &str| n@),
                text_views(values@) == want.take(i as int).map_values(|n: Seq<char>| json_quoted(n)),
            decreases names.len() - i,
        {
            let q = quote_json(names[i]);
            let ghost before = text_views(values@);
            assert(want[i as int] == names@[i as int]@);
            values.push(q);
            assert(text_views(values@) =~= before.push(json_quoted(want[i as int])));
            assert(want.take(i + 1).map_values(|n: Seq<char>| json_quoted(n)) =~= want.take(i as int).map_values(
                |n: Seq<char>| json_quoted(n),
            ).push(json_quoted(want[i as int])));
            i = i + 1;
        }
        assert(want.take(14) =~= want);
        JsonSchema::string().with_enum(values)
    }

    /// The schema of workflow metadata.
    pub fn generate_metadata_schema(&self) -> (r: JsonSchema)
        ensures
            object_with(
                r,
                seq!["name"@, "description"@, "version"@, "created_at"@, "updated_at"@, "tags"@],
                seq!["name"@, "version"@, "created_at"@, "updated_at"@],
                if self.include_descriptions { Some("Workflow metadata"@) } else { None },
            ),
    {
        let mut props: Vec<(String, JsonSchema)> = Vec::new();
        props.push(named("name", JsonSchema::string()));
        props.push(named("description", JsonSchema::string()));
        props.push(named("version", JsonSchema::string()));
        props.push(named("created_at", date_time_string()));
        props.push(named("updated_at", date_time_string()));
        props.push(named("tags", JsonSchema::array(JsonSchema::string())));
        let required = texts(&["name", "version", "created_at", "updated_at"]);
        let mut s = describe_if(JsonSchema::object(), self.include_descriptions, "Workflow metadata");
        assert(names_of(props@) =~= seq!["name"@, "description"@, "version"@, "created_at"@, "updated_at"@, "tags"@]);
        assert(text_views(required@) =~= seq!["name"@, "version"@, "created_at"@, "updated_at"@]);
        s.properties = Some(props);
        s.required = Some(required);
        s
    }

    /// The schema of a node.
    pub fn generate_node_schema(&self) -> (r: JsonSchema)
        ensures
            object_with(
                r,
                seq!["id"@, "name"@, "kind"@],
                seq!["id"@, "name"@, "kind"@],
                if self.include_descriptions { Some("A workflow node"@) } else { None },
            ),
    {
        let mut props: Vec<(String, JsonSchema)> = Vec::new();
        props.push(named("id", uuid_string()));
        props.push(named("name", JsonSchema::string()));
        props.push(named("kind", self.generate_node_kind_schema()));
        let required = texts(&["id", "name", "kind"]);
        let mut s = describe_if(JsonSchema::object(), self.include_descriptions, "A workflow node");
        assert(names_of(props@) =~= seq!["id"@, "name"@, "kind"@]);
        assert(text_views(required@) =~= seq!["id"@, "name"@, "kind"@]);
        s.properties = Some(props);
        s.required = Some(required);
        s
    }

    /// The schema of an edge.
    pub fn generate_edge_schema(&self) -> (r: JsonSchema)
        ensures
            object_with(
                r,
                seq!["id"@, "from"@, "to"@],
                seq!["id"@, "from"@, "to"@],
                if self.include_descriptions { Some("A workflow edge connecting two nodes"@) } else { None },
            ),
    {
        let mut props: Vec<(String, JsonSchema)> = Vec::new();
        props.push(named("id", uuid_string()));
        props.push(named("from", uuid_string()));
        props.push(named("to", uuid_string()));
        let required = texts(&["id", "from", "to"]);
        let mut s = describe_if(JsonSchema::object(), self.include_descriptions, "A workflow edge connecting two nodes");
        assert(names_of(props@) =~= seq!["id"@, "from"@, "to"@]);
        assert(text_views(required@) =~= seq!["id"@, "from"@, "to"@]);
        s.properties = Some(props);
        s.required = Some(required);
        s
    }

    /// The schema of a workflow: identifier, metadata, nodes and edges, with the
    /// definitions of the service configuration and of a condition.
    pub fn generate_workflow_schema(&self) -> (r: JsonSchema)
        ensures
            object_with(
                r,
                seq!["id"@, "metadata"@, "nodes"@, "edges"@],
                seq!["id"@, "metadata"@, "nodes"@, "edges"@],
                if self.include_descriptions { Some("A workflow defining a sequence of operations"@) } else { None },
            ),
            r.id matches Some(x) && x@ == "https://oxify.dev/schemas/workflow.json"@,
            r.title matches Some(x) && x@ == "Workflow"@,
            r.definitions matches Some(d) && names_of(d@) == seq!["ServiceConfig"@, "Condition"@],
    {
        let mut props: Vec<(String, JsonSchema)> = Vec::new();
        props.push(named("id", uuid_string()));
        props.push(named("metadata", self.generate_metadata_schema()));
        props.push(named("nodes", JsonSchema::array(self.generate_node_schema())));
        props.push(named("edges", JsonSchema::array(self.generate_edge_schema())));
        let required = texts(&["id", "metadata", "nodes", "edges"]);
        let base = JsonSchema::object().with_id(String::from_str("https://oxify.dev/schemas/workflow.json")).with_title(
            String::from_str("Workflow"),
        );
        let mut s = describe_if(base, self.include_descriptions, "A workflow defining a sequence of operations");
        let mut service: Vec<(String, JsonSchema)> = Vec::new();
        service.push(named("url", JsonSchema::string()));
        service.push(named("method", JsonSchema::string()));
        service.push(named("timeout_secs", JsonSchema::number()));
        let mut service_config = JsonSchema::object();
        service_config.properties = Some(service);
        let mut cond: Vec<(String, JsonSchema)> = Vec::new();
        cond.push(named("expression", JsonSchema::string()));
        let mut condition = JsonSchema::object();
        condition.properties = Some(cond);
        let mut defs: Vec<(String, JsonSchema)> = Vec::new();
        defs.push(named("ServiceConfig", service_config));
        defs.push(named("Condition", condition));
        assert(names_of(props@) =~= seq!["id"@, "metadata"@, "nodes"@, "edges"@]);
        assert(text_views(required@) =~= seq!["id"@, "metadata"@, "nodes"@, "edges"@]);
        assert(names_of(defs@) =~= seq!["ServiceConfig"@, "Condition"@]);
        s.properties = Some(props);
        s.required = Some(required);
        s.definitions = Some(defs);
        s
    }
}

impl Default for WorkflowSchemaGenerator {
    fn default() -> (r: Self)
        ensures
            r == (WorkflowSchemaGenerator { include_optional: true, include_examples: false, include_descriptions: true }),
    {
        WorkflowSchemaGenerator::new()
    }
}

} // verus!
