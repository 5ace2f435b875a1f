use vstd::prelude::*;

verus! {

/// The declared type of one tool argument; an array names its element type.
#[derive(Debug)]
pub struct SchemaProperty {
    pub property_type: String,
    pub items: Option<Box<SchemaProperty>>,
}

/// The argument object a tool accepts: each property by name, in
/// declaration order, and the names that must be present.  The tools this
/// library builds never repeat a property name (see `create_tools`).
#[derive(Debug)]
pub struct ToolInputSchema {
    pub schema_type: String,
    pub properties: Vec<(String, SchemaProperty)>,
    pub required: Vec<String>,
}

/// A tool as offered to the peer.
#[derive(Debug)]
pub struct Tool {
    pub name: String,
    pub description: String,
    pub input_schema: ToolInputSchema,
}

/// A `tools/list` request; it takes no parameters.
#[derive(Debug)]
pub struct ListToolsRequest {}

/// The answer to `tools/list`.
#[derive(Debug)]
pub struct ListToolsResponse {
    pub tools: Vec<Tool>,
}

/// One piece of a tool's answer.
#[derive(Debug)]
pub struct ToolContent {
    pub content_type: String,
    pub text: String,
}

/// The answer to `tools/call`; `is_error` marks a tool-level failure.
#[derive(Debug)]
pub struct CallToolResponse {
    pub content: Vec<ToolContent>,
    pub is_error: Option<bool>,
}

/// The text of a list of strings.
pub open spec fn texts(v: Seq<String>) -> Seq<Seq<char>> {
    v.map_values(|s: String| s@)
}

/// A property's type, and the element type of an array.
pub open spec fn property_view(p: SchemaProperty) -> (Seq<char>, Option<Seq<char>>) {
    (
        p.property_type@,
        match p.items {
            Some(b) => Some(b.property_type@),
            None => None,
        },
    )
}

/// Each declared property as its name and type.
pub open spec fn properties_view(v: Seq<(String, SchemaProperty)>) -> Seq<(Seq<char>, (Seq<char>, Option<Seq<char>>))> {
    v.map_values(|e: (String, SchemaProperty)| (e.0@, property_view(e.1)))
}

/// A tool's descriptor as plain text: name, description, schema type,
/// properties and required names.
pub open spec fn tool_view(t: Tool) -> (Seq<char>, Seq<char>, Seq<char>, Seq<(Seq<char>, (Seq<char>, Option<Seq<char>>))>, Seq<Seq<char>>) {
    (
        t.name@,
        t.description@,
        t.input_schema.schema_type@,
        properties_view(t.input_schema.properties@),
        texts(t.input_schema.required@),
    )
}

impl SchemaProperty {
    /// A scalar property of the given type.
    pub fn scalar(ty: &str) -> (r: SchemaProperty)
        ensures
            property_view(r) == (ty@, None::<Seq<char>>),
    {
        SchemaProperty { property_type: ty.to_string(), items: None }
    }

    /// An array property whose elements have the given type.
    pub fn array_of(ty: &str) -> (r: SchemaProperty)
        ensures
            property_view(r) == ("array"@, Some(ty@)),
    {
        SchemaProperty { property_type: "array".to_string(), items: Some(Box::new(SchemaProperty::scalar(ty))) }
    }
}

impl CallToolResponse {
    /// A successful answer carrying one text item.
    pub fn text(text: String) -> (r: CallToolResponse)
        ensures
            r.content@.len() == 1,
            r.content@[0].content_type@ == "text"@,
            r.content@[0].text@ == text@,
            r.is_error is None,
    {
        let mut content: Vec<ToolContent> = Vec::new();
        content.push(ToolContent { content_type: "text".to_string(), text });
        CallToolResponse { content, is_error: None }
    }

    /// A tool-level failure: a well-formed answer marked as an error.
    pub fn error(text: String) -> (r: CallToolResponse)
        ensures
            r.content@.len() == 1,
            r.content@[0].content_type@ == "text"@,
            r.content@[0].text@ == text@,
            r.is_error == Some(true),
    {
        let mut content: Vec<ToolContent> = Vec::new();
        content.push(ToolContent { content_type: "text".to_string(), text });
        CallToolResponse { content, is_error: Some(true) }
    }
}

} // verus!
