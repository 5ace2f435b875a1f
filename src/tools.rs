use vstd::prelude::*;
use crate::types::{properties_view, property_view, texts, SchemaProperty, Tool, ToolInputSchema};

verus! {

pub const READ_FILE: &'static str = "read_file";
pub const READ_MULTIPLE_FILES: &'static str = "read_multiple_files";
pub const WRITE_FILE: &'static str = "write_file";
pub const CREATE_DIRECTORY: &'static str = "create_directory";
pub const LIST_DIRECTORY: &'static str = "list_directory";
pub const MOVE_FILE: &'static str = "move_file";
pub const SEARCH_FILES: &'static str = "search_files";
pub const GET_FILE_INFO: &'static str = "get_file_info";
pub const LIST_ALLOWED_DIRECTORIES: &'static str = "list_allowed_directories";

pub const READ_FILE_DESC: &'static str = "Read the complete contents of a file from the file system. \
    Handles various text encodings and provides detailed error messages \
    if the file cannot be read. Use this tool when you need to examine \
    the contents of a single file. Only works within allowed directories.";
pub const READ_MULTIPLE_FILES_DESC: &'static str = "Read the contents of multiple files simultaneously. This is more \
    efficient than reading files one by one when you need to analyze \
    or compare multiple files. Each file's content is returned with its \
    path as a reference. Failed reads for individual files won't stop \
    the entire operation. Only works within allowed directories.";
pub const WRITE_FILE_DESC: &'static str = "Create a new file or completely overwrite an existing file with new content. \
    Use with caution as it will overwrite existing files without warning. \
    Handles text content with proper encoding. Only works within allowed directories.";
pub const CREATE_DIRECTORY_DESC: &'static str = "Create a new directory or ensure a directory exists. Can create multiple \
    nested directories in one operation. If the directory already exists, \
    this operation will succeed silently. Perfect for setting up directory \
    structures for projects or ensuring required paths exist. Only works within allowed directories.";
pub const LIST_DIRECTORY_DESC: &'static str = "Get a detailed listing of all files and directories in a specified path. \
    Results clearly distinguish between files and directories with [FILE] and [DIR] \
    prefixes. This tool is essential for understanding directory structure and \
    finding specific files within a directory. Only works within allowed directories.";
pub const MOVE_FILE_DESC: &'static str = "Move or rename files and directories. Can move files between directories \
    and rename them in a single operation. If the destination exists, the \
    operation will fail. Works across different directories and can be used \
    for simple renaming within the same directory. Both source and destination must be within allowed directories.";
pub const SEARCH_FILES_DESC: &'static str = "Recursively search for files and directories matching a pattern. \
    Searches through all subdirectories from the starting path. The search \
    is case-insensitive and matches partial names. Returns full paths to all \
    matching items. Great for finding files when you don't know their exact location. \
    Only searches within allowed directories.";
pub const GET_FILE_INFO_DESC: &'static str = "Retrieve detailed metadata about a file or directory. Returns comprehensive \
    information including size, creation time, last modified time, permissions, \
    and type. This tool is perfect for understanding file characteristics \
    without reading the actual content. Only works within allowed directories.";
pub const LIST_ALLOWED_DIRECTORIES_DESC: &'static str = "Returns the list of directories that this server is allowed to access. \
    Use this to understand which directories are available before trying to access files.";

/// A descriptor as plain text: name, description, schema type, properties
/// (name, type, element type) and required names.
pub type ToolText = (Seq<char>, Seq<char>, Seq<char>, Seq<(Seq<char>, (Seq<char>, Option<Seq<char>>))>, Seq<Seq<char>>);

/// A string argument.
pub open spec fn string_arg(name: Seq<char>) -> (Seq<char>, (Seq<char>, Option<Seq<char>>)) {
    (name, ("string"@, None))
}

/// An object tool with the given arguments.
pub open spec fn object_tool(
    name: Seq<char>,
    description: Seq<char>,
    props: Seq<(Seq<char>, (Seq<char>, Option<Seq<char>>))>,
    required: Seq<Seq<char>>,
) -> ToolText {
    (name, description, "object"@, props, required)
}

/// The table of tools offered, in order.
pub open spec fn tool_table() -> Seq<ToolText> {
    seq![
        object_tool(READ_FILE@, READ_FILE_DESC@, seq![string_arg("path"@)], seq!["path"@]),
        object_tool(
            READ_MULTIPLE_FILES@,
            READ_MULTIPLE_FILES_DESC@,
            seq![("paths"@, ("array"@, Some("string"@)))],
            seq!["paths"@],
        ),
        object_tool(
            WRITE_FILE@,
            WRITE_FILE_DESC@,
            seq![string_arg("path"@), string_arg("content"@)],
            seq!["path"@, "content"@],
        ),
        object_tool(CREATE_DIRECTORY@, CREATE_DIRECTORY_DESC@, seq![string_arg("path"@)], seq!["path"@]),
        object_tool(LIST_DIRECTORY@, LIST_DIRECTORY_DESC@, seq![string_arg("path"@)], seq!["path"@]),
        object_tool(
            MOVE_FILE@,
            MOVE_FILE_DESC@,
            seq![string_arg("source"@), string_arg("destination"@)],
            seq!["source"@, "destination"@],
        ),
        object_tool(
            SEARCH_FILES@,
            SEARCH_FILES_DESC@,
            seq![string_arg("path"@), string_arg("pattern"@)],
            seq!["path"@, "pattern"@],
        ),
        object_tool(GET_FILE_INFO@, GET_FILE_INFO_DESC@, seq![string_arg("path"@)], seq!["path"@]),
        object_tool(LIST_ALLOWED_DIRECTORIES@, LIST_ALLOWED_DIRECTORIES_DESC@, seq![], seq![]),
    ]
}

/// No property name of a descriptor appears twice.
pub open spec fn property_names_unique(t: ToolText) -> bool {
    forall|i: int, j: int| 0 <= i < t.3.len() && 0 <= j < t.3.len() && t.3[i].0 == t.3[j].0 ==> i == j
}

/// The descriptors of a list of tools.
pub open spec fn tools_view(v: Seq<Tool>) -> Seq<ToolText> {
    v.map_values(|t: Tool| crate::types::tool_view(t))
}

fn object_tool_of(name: &str, description: &str, properties: Vec<(String, SchemaProperty)>, required: Vec<String>) -> (r: Tool)
    ensures
        crate::types::tool_view(r) == object_tool(name@, description@, properties_view(properties@), texts(required@)),
{
    Tool {
        name: name.to_string(),
        description: description.to_string(),
        input_schema: ToolInputSchema { schema_type: "object".to_string(), properties, required },
    }
}

fn string_args(first: &str, second: Option<&str>) -> (r: (Vec<(String, SchemaProperty)>, Vec<String>))
    ensures
        properties_view(r.0@) == match second {
            Some(n) => seq![string_arg(first@), string_arg(n@)],
            None => seq![string_arg(first@)],
        },
        texts(r.1@) == match second {
            Some(n) => seq![first@, n@],
            None => seq![first@],
        },
{
    let mut props: Vec<(String, SchemaProperty)> = Vec::new();
    let mut req: Vec<String> = Vec::new();
    props.push((first.to_string(), SchemaProperty::scalar("string")));
    req.push(first.to_string());
    if let Some(n) = second {
        props.push((n.to_string(), SchemaProperty::scalar("string")));
        req.push(n.to_string());
        assert(properties_view(props@) =~= seq![string_arg(first@), string_arg(n@)]);
        assert(texts(req@) =~= seq![first@, n@]);
    } else {
        assert(properties_view(props@) =~= seq![string_arg(first@)]);
        assert(texts(req@) =~= seq![first@]);
    }
    (props, req)
}

/// Builds the tool table of `tool_table`, in its order.
pub fn create_tools() -> (r: Vec<Tool>)
    ensures
        tools_view(r@) == tool_table(),
        forall|k: int| 0 <= k < r@.len() ==> property_names_unique(#[trigger] tools_view(r@)[k]),
{
    let mut v: Vec<Tool> = Vec::new();
    let (p, q) = string_args("path", None);
    v.push(object_tool_of(READ_FILE, READ_FILE_DESC, p, q));
    let mut mp: Vec<(String, SchemaProperty)> = Vec::new();
    mp.push(("paths".to_string(), SchemaProperty::array_of("string")));
    let mut mq: Vec<String> = Vec::new();
    mq.push("paths".to_string());
    assert(properties_view(mp@) =~= seq![("paths"@, ("array"@, Some("string"@)))]);
    assert(texts(mq@) =~= seq!["paths"@]);
    v.push(object_tool_of(READ_MULTIPLE_FILES, READ_MULTIPLE_FILES_DESC, mp, mq));
    let (p, q) = string_args("path", Some("content"));
    v.push(object_tool_of(WRITE_FILE, WRITE_FILE_DESC, p, q));
    let (p, q) = string_args("path", None);
    v.push(object_tool_of(CREATE_DIRECTORY, CREATE_DIRECTORY_DESC, p, q));
    let (p, q) = string_args("path", None);
    v.push(object_tool_of(LIST_DIRECTORY, LIST_DIRECTORY_DESC, p, q));
    let (p, q) = string_args("source", Some("destination"));
    v.push(object_tool_of(MOVE_FILE, MOVE_FILE_DESC, p, q));
    let (p, q) = string_args("path", Some("pattern"));
    v.push(object_tool_of(SEARCH_FILES, SEARCH_FILES_DESC, p, q));
    let (p, q) = string_args("path", None);
    v.push(object_tool_of(GET_FILE_INFO, GET_FILE_INFO_DESC, p, q));
    v.push(object_tool_of(LIST_ALLOWED_DIRECTORIES, LIST_ALLOWED_DIRECTORIES_DESC, Vec::new(), Vec::new()));
    proof {
        reveal_strlit("path");
        reveal_strlit("content");
        reveal_strlit("source");
        reveal_strlit("destination");
        reveal_strlit("pattern");
        assert("path"@ != "content"@) by { assert("path"@[0] != "content"@[0]); }
        assert("source"@ != "destination"@) by { assert("source"@[0] != "destination"@[0]); }
        assert("path"@ != "pattern"@) by { assert("path"@.len() != "pattern"@.len()); }
        assert(tools_view(v@) =~= tool_table()) by {
            assert(properties_view(Seq::<(String, SchemaProperty)>::empty()) =~= seq![]);
            assert(texts(Seq::<String>::empty()) =~= seq![]);
        }
    }
    v
}

} // verus!
