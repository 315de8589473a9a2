use vstd::prelude::*;

use crate::order::{sort_strings, sorted_strs, str_views};
use crate::text::{
    chars_of, contains, contains_chars, count_matches, count_matches_chars, decimal, push_decimal,
    push_signed_decimal, push_str, replace_all, replace_chars, signed_decimal, starts_with,
    starts_with_chars, str_eq, string_of, lossy_utf8, utf8_lossy,
};

verus! {

broadcast use vstd::string::group_string_axioms;

/// A tool offered to the model: its kind (always `"function"` here) and
/// what it is.
pub struct Tool {
    pub tool_type: String,
    pub function: ToolFunction,
}

/// What a tool holds.
pub struct ToolView {
    pub tool_type: Seq<char>,
    pub name: Seq<char>,
    pub description: Seq<char>,
    pub parameters: Seq<char>,
}

impl View for Tool {
    type V = ToolView;

    open spec fn view(&self) -> ToolView {
        ToolView {
            tool_type: self.tool_type@,
            name: self.function.name@,
            description: self.function.description@,
            parameters: self.function.parameters@,
        }
    }
}

/// The tools of a sequence, by what they hold.
pub open spec fn tool_views(s: Seq<Tool>) -> Seq<ToolView> {
    s.map_values(|t: Tool| t@)
}

impl Tool {
    /// A copy of this tool.
    pub fn duplicate(&self) -> (c: Tool)
        ensures
            c@ == self@,
    {
        Tool {
            tool_type: self.tool_type.clone(),
            function: ToolFunction {
                name: self.function.name.clone(),
                description: self.function.description.clone(),
                parameters: self.function.parameters.clone(),
            },
        }
    }
}

/// A tool's name, what it does, and the JSON schema of its arguments, kept
/// as JSON text.
pub struct ToolFunction {
    pub name: String,
    pub description: String,
    pub parameters: String,
}

/// A call of a tool that the model asked for.
pub struct ToolCall {
    pub id: String,
    pub tool_type: String,
    pub function: FunctionCall,
}

/// What a tool call holds.
pub struct ToolCallView {
    pub id: Seq<char>,
    pub tool_type: Seq<char>,
    pub name: Seq<char>,
    pub arguments: Seq<char>,
}

impl View for ToolCall {
    type V = ToolCallView;

    open spec fn view(&self) -> ToolCallView {
        ToolCallView {
            id: self.id@,
            tool_type: self.tool_type@,
            name: self.function.name@,
            arguments: self.function.arguments@,
        }
    }
}

impl ToolCall {
    /// A copy of this call.
    pub fn duplicate(&self) -> (c: ToolCall)
        ensures
            c@ == self@,
    {
        ToolCall {
            id: self.id.clone(),
            tool_type: self.tool_type.clone(),
            function: FunctionCall {
                name: self.function.name.clone(),
                arguments: self.function.arguments.clone(),
            },
        }
    }
}

/// The tool named in a call and the JSON text of its arguments.
pub struct FunctionCall {
    pub name: String,
    pub arguments: String,
}

/// Runs the file and shell tools inside one workspace directory.
pub struct ToolExecutor {
    workspace: String,
}

/// Why a tool call failed.
#[derive(Debug)]
pub enum ToolError {
    /// The arguments are not JSON; the parser's message.
    InvalidArguments(String),
    /// A required string argument is missing; its name.
    MissingArgument(String),
    /// The workspace directory cannot be resolved; the reason.
    WorkspaceUnavailable(String),
    /// The target path exists but cannot be resolved; the reason.
    ResolvePath(String),
    /// The nearest existing parent cannot be resolved; the reason.
    ResolveParent(String),
    /// The path lies outside the workspace.
    OutsideWorkspace,
    ReadFile { path: String, reason: String },
    WriteFile { path: String, reason: String },
    ReadDirectory { path: String, reason: String },
    CreateDirectory { path: String, reason: String },
    /// `edit_file` found no occurrence of the old text.
    TextNotFound { path: String },
    /// The shell could not be started; the reason.
    Spawn(String),
    /// Another I/O failure; its message.
    Io(String),
    /// No tool has this name.
    UnknownTool(String),
}

/// The text of a tool error.
pub open spec fn tool_error_text(e: &ToolError) -> Seq<char> {
    match e {
        ToolError::InvalidArguments(m) => m@,
        ToolError::MissingArgument(f) => "Missing "@ + f@,
        ToolError::WorkspaceUnavailable(m) => "Workspace directory does not exist: "@ + m@,
        ToolError::ResolvePath(m) => "Failed to resolve path: "@ + m@,
        ToolError::ResolveParent(m) => "Failed to resolve parent path: "@ + m@,
        ToolError::OutsideWorkspace => "Path is outside workspace"@,
        ToolError::ReadFile { path, reason } => "Failed to read file "@ + path@ + ": "@ + reason@,
        ToolError::WriteFile { path, reason } => "Failed to write file "@ + path@ + ": "@
            + reason@,
        ToolError::ReadDirectory { path, reason } => "Failed to read directory "@ + path@ + ": "@
            + reason@,
        ToolError::CreateDirectory { path, reason } => "Failed to create directory "@ + path@
            + ": "@ + reason@,
        ToolError::TextNotFound { path } => "Could not find the text to replace in file "@
            + path@,
        ToolError::Spawn(m) => "Failed to execute command: "@ + m@,
        ToolError::Io(m) => m@,
        ToolError::UnknownTool(n) => "Unknown tool: "@ + n@,
    }
}

impl ToolError {
    /// The text of this error.
    pub fn message(&self) -> (s: String)
        ensures
            s@ == tool_error_text(self),
    {
        let mut v: Vec<char> = Vec::new();
        match self {
            ToolError::InvalidArguments(m) => {
                push_str(&mut v, m.as_str());
            },
            ToolError::MissingArgument(f) => {
                push_str(&mut v, "Missing ");
                push_str(&mut v, f.as_str());
            },
            ToolError::WorkspaceUnavailable(m) => {
                push_str(&mut v, "Workspace directory does not exist: ");
                push_str(&mut v, m.as_str());
            },
            ToolError::ResolvePath(m) => {
                push_str(&mut v, "Failed to resolve path: ");
                push_str(&mut v, m.as_str());
            },
            ToolError::ResolveParent(m) => {
                push_str(&mut v, "Failed to resolve parent path: ");
                push_str(&mut v, m.as_str());
            },
            ToolError::OutsideWorkspace => {
                push_str(&mut v, "Path is outside workspace");
            },
            ToolError::ReadFile { path, reason } => {
                push_str(&mut v, "Failed to read file ");
                push_str(&mut v, path.as_str());
                push_str(&mut v, ": ");
                push_str(&mut v, reason.as_str());
            },
            ToolError::WriteFile { path, reason } => {
                push_str(&mut v, "Failed to write file ");
                push_str(&mut v, path.as_str());
                push_str(&mut v, ": ");
                push_str(&mut v, reason.as_str());
            },
            ToolError::ReadDirectory { path, reason } => {
                push_str(&mut v, "Failed to read directory ");
                push_str(&mut v, path.as_str());
                push_str(&mut v, ": ");
                push_str(&mut v, reason.as_str());
            },
            ToolError::CreateDirectory { path, reason } => {
                push_str(&mut v, "Failed to create directory ");
                push_str(&mut v, path.as_str());
                push_str(&mut v, ": ");
                push_str(&mut v, reason.as_str());
            },
            ToolError::TextNotFound { path } => {
                push_str(&mut v, "Could not find the text to replace in file ");
                push_str(&mut v, path.as_str());
            },
            ToolError::Spawn(m) => {
                push_str(&mut v, "Failed to execute command: ");
                push_str(&mut v, m.as_str());
            },
            ToolError::Io(m) => {
                push_str(&mut v, m.as_str());
            },
            ToolError::UnknownTool(n) => {
                push_str(&mut v, "Unknown tool: ");
                push_str(&mut v, n.as_str());
            },
        }
        proof {
            assert(v@ =~= tool_error_text(self));
        }
        string_of(v.as_slice())
    }
}

} // verus!

verus! {

/// The name of the `i`-th built-in tool.
pub open spec fn builtin_tool_name(i: int) -> Seq<char> {
    if i == 0 {
        "read_file"@
    } else if i == 1 {
        "write_file"@
    } else if i == 2 {
        "list_directory"@
    } else if i == 3 {
        "create_directory"@
    } else if i == 4 {
        "edit_file"@
    } else {
        "execute"@
    }
}

/// What the `i`-th built-in tool tells the model it does.
pub open spec fn builtin_tool_description(i: int) -> Seq<char> {
    if i == 0 {
        "Read the contents of a file from the workspace"@
    } else if i == 1 {
        "Write content to a file in the workspace. Creates the file if it doesn't exist, overwrites if it does."@
    } else if i == 2 {
        "List the contents of a directory in the workspace"@
    } else if i == 3 {
        "Create a new directory in the workspace. Creates parent directories if needed."@
    } else if i == 4 {
        "Edit a file by replacing a specific string with another string."@
    } else {
        "Execute a shell command in the workspace directory."@
    }
}

/// The JSON schema of the `i`-th built-in tool's arguments.
pub open spec fn builtin_tool_parameters(i: int) -> Seq<char> {
    if i == 0 {
        READ_FILE_SCHEMA@
    } else if i == 1 {
        WRITE_FILE_SCHEMA@
    } else if i == 2 {
        LIST_DIRECTORY_SCHEMA@
    } else if i == 3 {
        CREATE_DIRECTORY_SCHEMA@
    } else if i == 4 {
        EDIT_FILE_SCHEMA@
    } else {
        EXECUTE_SCHEMA@
    }
}

pub const READ_FILE_SCHEMA: &'static str = "{\"type\":\"object\",\"properties\":{\"path\":{\"type\":\"string\",\"description\":\"Relative path to the file within the workspace\"}},\"required\":[\"path\"]}";

pub const WRITE_FILE_SCHEMA: &'static str = "{\"type\":\"object\",\"properties\":{\"path\":{\"type\":\"string\",\"description\":\"Relative path to the file within the workspace\"},\"content\":{\"type\":\"string\",\"description\":\"Content to write to the file\"}},\"required\":[\"path\",\"content\"]}";

pub const LIST_DIRECTORY_SCHEMA: &'static str = "{\"type\":\"object\",\"properties\":{\"path\":{\"type\":\"string\",\"description\":\"Relative path to the directory (use '.' for workspace root)\"}},\"required\":[\"path\"]}";

pub const CREATE_DIRECTORY_SCHEMA: &'static str = "{\"type\":\"object\",\"properties\":{\"path\":{\"type\":\"string\",\"description\":\"Relative path to the directory within the workspace\"}},\"required\":[\"path\"]}";

pub const EDIT_FILE_SCHEMA: &'static str = "{\"type\":\"object\",\"properties\":{\"path\":{\"type\":\"string\",\"description\":\"Relative path to the file\"},\"old_text\":{\"type\":\"string\",\"description\":\"The exact text to find and replace\"},\"new_text\":{\"type\":\"string\",\"description\":\"The text to replace with\"}},\"required\":[\"path\",\"old_text\",\"new_text\"]}";

pub const EXECUTE_SCHEMA: &'static str = "{\"type\":\"object\",\"properties\":{\"command\":{\"type\":\"string\",\"description\":\"Shell command to execute in the workspace\"}},\"required\":[\"command\"]}";

fn make_tool(name: &str, description: &str, parameters: &str) -> (t: Tool)
    ensures
        t.tool_type@ == "function"@,
        t.function.name@ == name@,
        t.function.description@ == description@,
        t.function.parameters@ == parameters@,
{
    Tool {
        tool_type: "function".to_string(),
        function: ToolFunction {
            name: name.to_string(),
            description: description.to_string(),
            parameters: parameters.to_string(),
        },
    }
}

impl ToolExecutor {
    /// An executor confined to `workspace`.
    pub fn new(workspace: String) -> (e: Self)
        ensures
            e.workspace()@ == workspace@,
    {
        ToolExecutor { workspace }
    }

    /// The directory the tools are confined to.
    pub closed spec fn workspace(&self) -> String {
        self.workspace
    }

    /// The directory the tools are confined to.
    pub fn workspace_dir(&self) -> (w: &String)
        ensures
            w@ == self.workspace()@,
    {
        &self.workspace
    }

    /// The six built-in tools, in this order: `read_file`, `write_file`,
    /// `list_directory`, `create_directory`, `edit_file`, `execute`.
    pub fn get_tools() -> (tools: Vec<Tool>)
        ensures
            tools.len() == 6,
            forall|i: int|
                0 <= i < 6 ==> {
                    &&& (#[trigger] tools[i]).tool_type@ == "function"@
                    &&& tools[i].function.name@ == builtin_tool_name(i)
                    &&& tools[i].function.description@ == builtin_tool_description(i)
                    &&& tools[i].function.parameters@ == builtin_tool_parameters(i)
                },
    {
        let mut tools: Vec<Tool> = Vec::new();
        tools.push(
            make_tool(
                "read_file",
                "Read the contents of a file from the workspace",
                READ_FILE_SCHEMA,
            ),
        );
        tools.push(
            make_tool(
                "write_file",
                "Write content to a file in the workspace. Creates the file if it doesn't exist, overwrites if it does.",
                WRITE_FILE_SCHEMA,
            ),
        );
        tools.push(
            make_tool(
                "list_directory",
                "List the contents of a directory in the workspace",
                LIST_DIRECTORY_SCHEMA,
            ),
        );
        tools.push(
            make_tool(
                "create_directory",
                "Create a new directory in the workspace. Creates parent directories if needed.",
                CREATE_DIRECTORY_SCHEMA,
            ),
        );
        tools.push(
            make_tool(
                "edit_file",
                "Edit a file by replacing a specific string with another string.",
                EDIT_FILE_SCHEMA,
            ),
        );
        tools.push(
            make_tool(
                "execute",
                "Execute a shell command in the workspace directory.",
                EXECUTE_SCHEMA,
            ),
        );
        tools
    }
}

} // verus!

verus! {

// ---------------------------------------------------------------------------
// What each tool reports back
// ---------------------------------------------------------------------------

/// The report of `read_file`.
pub open spec fn read_file_text(path: Seq<char>, content: Seq<char>) -> Seq<char> {
    "File contents of "@ + path + ":\n\n"@ + content
}

/// The report of `write_file`; `n` is the length of the content in bytes.
pub open spec fn write_file_text(path: Seq<char>, n: nat) -> Seq<char> {
    "Successfully wrote "@ + decimal(n) + " bytes to "@ + path
}

/// The report of `create_directory`.
pub open spec fn create_directory_text(path: Seq<char>) -> Seq<char> {
    "Successfully created directory "@ + path
}

/// The report of `edit_file` after `n` replacements.
pub open spec fn edit_file_text(path: Seq<char>, n: nat) -> Seq<char> {
    "Successfully replaced "@ + decimal(n) + " occurrence(s) in "@ + path
}

/// The report of `read_file`.
pub fn read_file_output(path: &str, content: &str) -> (s: String)
    ensures
        s@ == read_file_text(path@, content@),
{
    let mut v: Vec<char> = Vec::new();
    push_str(&mut v, "File contents of ");
    push_str(&mut v, path);
    push_str(&mut v, ":\n\n");
    push_str(&mut v, content);
    string_of(v.as_slice())
}

/// `std::str::from_utf8`: the text that `bytes` encode, or `None` when they
/// are not UTF-8.
#[verifier::external_body]
fn utf8_text(bytes: &[u8]) -> (r: Option<String>)
    ensures
        r is Some <==> vstd::utf8::valid_utf8(bytes@),
        r matches Some(s) ==> s@ == vstd::utf8::decode_utf8(bytes@),
{
    match std::str::from_utf8(bytes) {
        Ok(s) => Some(s.to_owned()),
        Err(_) => None,
    }
}

/// Why a file that is not UTF-8 cannot be read as text.
pub open spec fn not_utf8_reason() -> Seq<char> {
    "stream did not contain valid UTF-8"@
}

/// The text of the file `path` whose bytes are `bytes`, as reading it to a
/// string gives it: the UTF-8 they hold, or a read error when they are not
/// UTF-8.
pub fn file_text(path: &str, bytes: &[u8]) -> (r: Result<String, ToolError>)
    ensures
        r is Ok <==> vstd::utf8::valid_utf8(bytes@),
        r matches Ok(s) ==> s@ == vstd::utf8::decode_utf8(bytes@),
        r matches Err(e) ==> e matches ToolError::ReadFile { path: p, reason } && p@ == path@
            && reason@ == not_utf8_reason(),
{
    match utf8_text(bytes) {
        Some(s) => Ok(s),
        None => Err(
            ToolError::ReadFile {
                path: path.to_owned(),
                reason: "stream did not contain valid UTF-8".to_owned(),
            },
        ),
    }
}

/// What `read_file` reports of the file `path` whose bytes are `bytes`:
/// `None` when they are not UTF-8.
pub open spec fn read_back(path: Seq<char>, bytes: Seq<u8>) -> Option<Seq<char>> {
    if vstd::utf8::valid_utf8(bytes) {
        Some(read_file_text(path, vstd::utf8::decode_utf8(bytes)))
    } else {
        None
    }
}

/// The report of `read_file` on the file `path` whose bytes are `bytes`, or
/// the read error when they are not UTF-8.
pub fn read_file_report(path: &str, bytes: &[u8]) -> (r: Result<String, ToolError>)
    ensures
        r is Ok <==> read_back(path@, bytes@) is Some,
        r matches Ok(s) ==> read_back(path@, bytes@) == Some(s@),
        r matches Err(e) ==> e matches ToolError::ReadFile { path: p, reason } && p@ == path@
            && reason@ == not_utf8_reason(),
{
    match file_text(path, bytes) {
        Ok(content) => Ok(read_file_output(path, content.as_str())),
        Err(e) => Err(e),
    }
}

/// A file that holds what `write_file` wrote for `content` (its UTF-8
/// bytes, the number that the write reports) reads back as `content`.
pub proof fn lemma_written_file_reads_back(path: Seq<char>, content: Seq<char>)
    ensures
        read_back(path, vstd::utf8::encode_utf8(content)) == Some(read_file_text(path, content)),
{
    vstd::utf8::encode_utf8_valid_utf8(content);
    vstd::utf8::encode_utf8_decode_utf8(content);
}

/// The report of `write_file`, which counts the content in bytes.
pub fn write_file_output(path: &str, content: &str) -> (s: String)
    ensures
        s@ == write_file_text(path@, (vstd::utf8::encode_utf8(content@).len() as usize) as nat),
{
    let n = content.len();
    let mut v: Vec<char> = Vec::new();
    push_str(&mut v, "Successfully wrote ");
    push_decimal(&mut v, n as u64);
    push_str(&mut v, " bytes to ");
    push_str(&mut v, path);
    string_of(v.as_slice())
}

/// The report of `create_directory`.
pub fn create_directory_output(path: &str) -> (s: String)
    ensures
        s@ == create_directory_text(path@),
{
    let mut v: Vec<char> = Vec::new();
    push_str(&mut v, "Successfully created directory ");
    push_str(&mut v, path);
    string_of(v.as_slice())
}

/// `edit_file` on text already read: the new content and the report, or
/// `TextNotFound` when `old_text` does not occur.
pub fn apply_edit(path: &str, content: &str, old_text: &str, new_text: &str) -> (r: Result<
    (String, String),
    ToolError,
>)
    requires
        content@.len() < usize::MAX,
    ensures
        r is Err <==> !contains(content@, old_text@),
        r matches Err(e) ==> e matches ToolError::TextNotFound { path: p } && p@ == path@,
        r matches Ok((new_content, report)) ==> new_content@ == replace_all(
            content@,
            old_text@,
            new_text@,
        ) && report@ == edit_file_text(path@, count_matches(content@, old_text@)),
{
    let c = chars_of(content);
    let o = chars_of(old_text);
    let n = chars_of(new_text);
    if !contains_chars(c.as_slice(), o.as_slice()) {
        return Err(ToolError::TextNotFound { path: path.to_string() });
    }
    let count = count_matches_chars(c.as_slice(), o.as_slice());
    let replaced = replace_chars(c.as_slice(), o.as_slice(), n.as_slice());
    let mut v: Vec<char> = Vec::new();
    push_str(&mut v, "Successfully replaced ");
    push_decimal(&mut v, count as u64);
    push_str(&mut v, " occurrence(s) in ");
    push_str(&mut v, path);
    Ok((string_of(replaced.as_slice()), string_of(v.as_slice())))
}

/// `Debug` of an optional exit code.
pub open spec fn exit_code_text(code: Option<i32>) -> Seq<char> {
    match code {
        Some(c) => "Some("@ + signed_decimal(c as int) + ")"@,
        None => "None"@,
    }
}

/// The report of `execute`, given whether the command succeeded, its exit
/// code and what it wrote (decoded as `String::from_utf8_lossy` does).
pub open spec fn command_text(
    success: bool,
    code: Option<i32>,
    stdout: Seq<char>,
    stderr: Seq<char>,
) -> Seq<char> {
    if success {
        if stdout.len() == 0 && stderr.len() == 0 {
            "Command executed successfully (no output)"@
        } else if stdout.len() == 0 {
            "stderr:\n"@ + stderr
        } else {
            stdout
        }
    } else {
        "Command exited with code "@ + exit_code_text(code) + "\nstdout: "@ + stdout
            + "\nstderr: "@ + stderr
    }
}

/// The report of `execute` for output already decoded to text.
pub fn command_report(success: bool, code: Option<i32>, stdout: &str, stderr: &str) -> (s: String)
    ensures
        s@ == command_text(success, code, stdout@, stderr@),
{
    if success {
        if stdout.is_empty() && stderr.is_empty() {
            "Command executed successfully (no output)".to_string()
        } else if stdout.is_empty() {
            let mut v: Vec<char> = Vec::new();
            push_str(&mut v, "stderr:\n");
            push_str(&mut v, stderr);
            string_of(v.as_slice())
        } else {
            stdout.to_string()
        }
    } else {
        let mut v: Vec<char> = Vec::new();
        push_str(&mut v, "Command exited with code ");
        match code {
            Some(c) => {
                push_str(&mut v, "Some(");
                push_signed_decimal(&mut v, c as i64);
                push_str(&mut v, ")");
            },
            None => {
                push_str(&mut v, "None");
            },
        }
        push_str(&mut v, "\nstdout: ");
        push_str(&mut v, stdout);
        push_str(&mut v, "\nstderr: ");
        push_str(&mut v, stderr);
        assert(v@ =~= command_text(success, code, stdout@, stderr@));
        string_of(v.as_slice())
    }
}

/// The report of `execute` for the raw output of the command, decoded as
/// `String::from_utf8_lossy` does.
pub fn command_output(success: bool, code: Option<i32>, stdout: &[u8], stderr: &[u8]) -> (s:
    String)
    ensures
        s@ == command_text(success, code, lossy_utf8(stdout@), lossy_utf8(stderr@)),
{
    let out = utf8_lossy(stdout);
    let err = utf8_lossy(stderr);
    command_report(success, code, out.as_str(), err.as_str())
}

} // verus!

verus! {

/// How `list_directory` shows a directory.
pub open spec fn dir_line(name: Seq<char>) -> Seq<char> {
    "[DIR]  "@ + name + "/"@
}

/// How `list_directory` shows anything that is not a directory.
pub open spec fn file_line(name: Seq<char>) -> Seq<char> {
    "[FILE] "@ + name
}

/// The lines of the directories among `(name, is_dir)` entries, in their order.
pub open spec fn dir_lines(es: Seq<(String, bool)>) -> Seq<Seq<char>>
    decreases es.len(),
{
    if es.len() == 0 {
        Seq::empty()
    } else if es.last().1 {
        dir_lines(es.drop_last()).push(dir_line(es.last().0@))
    } else {
        dir_lines(es.drop_last())
    }
}

/// The lines of the other entries, in their order.
pub open spec fn file_lines(es: Seq<(String, bool)>) -> Seq<Seq<char>>
    decreases es.len(),
{
    if es.len() == 0 {
        Seq::empty()
    } else if !es.last().1 {
        file_lines(es.drop_last()).push(file_line(es.last().0@))
    } else {
        file_lines(es.drop_last())
    }
}

/// Each line indented by two spaces and ended by a newline.
pub open spec fn indented(lines: Seq<Seq<char>>) -> Seq<char>
    decreases lines.len(),
{
    if lines.len() == 0 {
        Seq::empty()
    } else {
        indented(lines.drop_last()) + "  "@ + lines.last() + "\n"@
    }
}

/// The report of `list_directory` with its directory lines `ds` and its
/// other lines `fs`.
pub open spec fn listing_text(path: Seq<char>, ds: Seq<Seq<char>>, fs: Seq<Seq<char>>) -> Seq<
    char,
> {
    "Contents of "@ + path + ":\n"@ + if ds.len() == 0 && fs.len() == 0 {
        "  (empty)\n"@
    } else {
        indented(ds) + indented(fs)
    }
}

fn push_indented(dst: &mut Vec<char>, lines: &Vec<String>)
    ensures
        final(dst)@ == old(dst)@ + indented(str_views(lines@)),
{
    let ghost start = dst@;
    let mut i: usize = 0;
    while i < lines.len()
        invariant
            i <= lines.len(),
            dst@ == start + indented(str_views(lines@).take(i as int)),
        decreases lines.len() - i,
    {
        let ghost before = dst@;
        push_str(dst, "  ");
        push_str(dst, lines[i].as_str());
        push_str(dst, "\n");
        proof {
            let t = str_views(lines@).take(i + 1);
            assert(t.drop_last() =~= str_views(lines@).take(i as int));
            assert(t.last() == lines@[i as int]@);
            assert(dst@ =~= start + indented(t));
        }
        i = i + 1;
    }
    assert(str_views(lines@).take(lines.len() as int) =~= str_views(lines@));
}

/// The report of `list_directory` for `(name, is_dir)` entries: directories
/// first, then the rest, each group sorted.
pub fn list_directory_output(path: &str, entries: &Vec<(String, bool)>) -> (s: String)
    ensures
        exists|ds: Seq<Seq<char>>, fs: Seq<Seq<char>>|
            {
                &&& sorted_strs(ds)
                &&& ds.to_multiset() == dir_lines(entries@).to_multiset()
                &&& sorted_strs(fs)
                &&& fs.to_multiset() == file_lines(entries@).to_multiset()
                &&& s@ == listing_text(path@, ds, fs)
            },
{
    let mut dirs: Vec<String> = Vec::new();
    let mut files: Vec<String> = Vec::new();
    let mut i: usize = 0;
    while i < entries.len()
        invariant
            i <= entries.len(),
            str_views(dirs@) == dir_lines(entries@.take(i as int)),
            str_views(files@) == file_lines(entries@.take(i as int)),
        decreases entries.len() - i,
    {
        let name = &entries[i].0;
        let is_dir = entries[i].1;
        proof {
            assert(entries@.take(i + 1).drop_last() =~= entries@.take(i as int));
        }
        if is_dir {
            let mut line: Vec<char> = Vec::new();
            push_str(&mut line, "[DIR]  ");
            push_str(&mut line, name.as_str());
            push_str(&mut line, "/");
            dirs.push(string_of(line.as_slice()));
            assert(str_views(dirs@) =~= dir_lines(entries@.take(i + 1)));
        } else {
            let mut line: Vec<char> = Vec::new();
            push_str(&mut line, "[FILE] ");
            push_str(&mut line, name.as_str());
            files.push(string_of(line.as_slice()));
            assert(str_views(files@) =~= file_lines(entries@.take(i + 1)));
        }
        i = i + 1;
    }
    assert(entries@.take(entries.len() as int) =~= entries@);
    let dirs = sort_strings(dirs);
    let files = sort_strings(files);
    let mut v: Vec<char> = Vec::new();
    push_str(&mut v, "Contents of ");
    push_str(&mut v, path);
    push_str(&mut v, ":\n");
    if dirs.len() == 0 && files.len() == 0 {
        push_str(&mut v, "  (empty)\n");
    } else {
        push_indented(&mut v, &dirs);
        push_indented(&mut v, &files);
    }
    let ghost ds = str_views(dirs@);
    let ghost fs = str_views(files@);
    assert(v@ =~= listing_text(path@, ds, fs));
    string_of(v.as_slice())
}

} // verus!

verus! {

// ---------------------------------------------------------------------------
// Arguments and paths
// ---------------------------------------------------------------------------

/// What `serde_json` makes of `text` when asked for the string field `key`:
/// the parser's message if `text` is not JSON, `None` if the field is absent,
/// not a string, or `text` is not an object.
pub uninterp spec fn json_string_field(text: Seq<char>, key: Seq<char>) -> Result<
    Option<Seq<char>>,
    Seq<char>,
>;

/// `serde_json::from_str::<Value>(text)`, then `value[key].as_str()` for each
/// of `keys`: the fields in the order of `keys`, or the parser's message.
#[verifier::external_body]
fn json_string_fields(text: &str, keys: &Vec<&str>) -> (r: Result<Vec<Option<String>>, String>)
    ensures
        match r {
            Ok(v) => v.len() == keys.len() && forall|i: int|
                0 <= i < keys.len() ==> json_string_field(text@, keys[i]@) == Ok::<
                    Option<Seq<char>>,
                    Seq<char>,
                >(crate::chat::opt_view(#[trigger] v[i])),
            Err(m) => forall|i: int|
                0 <= i < keys.len() ==> json_string_field(text@, #[trigger] keys[i]@) == Err::<
                    Option<Seq<char>>,
                    Seq<char>,
                >(m@),
        },
{
    match serde_json::from_str::<serde_json::Value>(text) {
        Ok(v) => Ok(keys.iter().map(|k| v[*k].as_str().map(|s| s.to_string())).collect()),
        Err(e) => Err(e.to_string()),
    }
}

/// What `Path::join` makes of `base` and `child`.
pub uninterp spec fn joined_path(base: Seq<char>, child: Seq<char>) -> Seq<char>;

/// What `Path::parent` gives for `path`.
pub uninterp spec fn parent_path(path: Seq<char>) -> Option<Seq<char>>;

/// What `Path::starts_with` says: `base` is a prefix of `path`, component by
/// component.
pub uninterp spec fn path_has_prefix(path: Seq<char>, base: Seq<char>) -> bool;

/// `Path::join`.
#[verifier::external_body]
pub(crate) fn path_join(base: &str, child: &str) -> (r: String)
    ensures
        r@ == joined_path(base@, child@),
{
    std::path::Path::new(base).join(child).to_string_lossy().into_owned()
}

/// `Path::parent`: the path without its final component, which is shorter.
#[verifier::external_body]
fn path_parent(path: &str) -> (r: Option<String>)
    ensures
        match r {
            Some(p) => parent_path(path@) == Some(p@) && p@.len() < path@.len(),
            None => parent_path(path@) is None,
        },
{
    match std::path::Path::new(path).parent() {
        Some(p) => Some(p.to_string_lossy().into_owned()),
        None => None,
    }
}

/// `Path::starts_with`.
#[verifier::external_body]
fn path_starts_with(path: &str, base: &str) -> (r: bool)
    ensures
        r == path_has_prefix(path@, base@),
{
    std::path::Path::new(path).starts_with(base)
}

/// `Path::exists`; it asks the file system, so nothing is promised.
#[verifier::external_body]
fn path_exists(path: &str) -> bool {
    std::path::Path::new(path).exists()
}

/// `Path::canonicalize`, then the resolved path as text: `Some` of it when it
/// is valid Unicode, `None` when it is not, or the reason it could not be
/// resolved. It asks the file system, so nothing is promised.
#[verifier::external_body]
fn canonicalize(path: &str) -> Result<Option<String>, String> {
    match std::path::Path::new(path).canonicalize() {
        Ok(p) => Ok(p.into_os_string().into_string().ok()),
        Err(e) => Err(e.to_string()),
    }
}

/// The resolved form of `path` as text, or why there is none; a resolved
/// path that is not valid Unicode is refused rather than compared by a lossy
/// form of it.
fn resolve(path: &str) -> Result<String, String> {
    match canonicalize(path) {
        Ok(Some(c)) => Ok(c),
        Ok(None) => Err("the resolved path is not valid Unicode".to_string()),
        Err(m) => Err(m),
    }
}

/// What the file system said about the nearest existing path at or above a
/// target: the target itself, one of its parents, or nothing at all; with the
/// resolved form of that path, or the reason it could not be resolved.
pub enum Resolved {
    Target(Result<String, String>),
    Ancestor(Result<String, String>),
    Nothing,
}

/// Whether the containment check accepts `full`, given the resolved
/// workspace `cw` and what was found at or above `full`.
pub open spec fn containment_accepts(cw: Seq<char>, full: Seq<char>, resolved: Resolved) -> bool {
    match resolved {
        Resolved::Target(Ok(c)) => path_has_prefix(c@, cw),
        Resolved::Ancestor(Ok(c)) => path_has_prefix(c@, cw),
        Resolved::Nothing => starts_with(full, cw),
        _ => false,
    }
}

/// Whether `full_path` lies inside the workspace resolved as
/// `canonical_workspace`, given what the file system said (`resolved`).
pub fn check_containment(canonical_workspace: &str, full_path: &str, resolved: Resolved) -> (r:
    Result<(), ToolError>)
    ensures
        r is Ok <==> containment_accepts(canonical_workspace@, full_path@, resolved),
        match resolved {
            Resolved::Target(Err(m)) => r matches Err(ToolError::ResolvePath(x)) && x@ == m@,
            Resolved::Ancestor(Err(m)) => r matches Err(ToolError::ResolveParent(x)) && x@ == m@,
            _ => r is Err ==> r matches Err(ToolError::OutsideWorkspace),
        },
{
    match resolved {
        Resolved::Target(Err(m)) => Err(ToolError::ResolvePath(m)),
        Resolved::Ancestor(Err(m)) => Err(ToolError::ResolveParent(m)),
        Resolved::Target(Ok(c)) | Resolved::Ancestor(Ok(c)) => {
            if path_starts_with(c.as_str(), canonical_workspace) {
                Ok(())
            } else {
                Err(ToolError::OutsideWorkspace)
            }
        },
        Resolved::Nothing => {
            let f = chars_of(full_path);
            let w = chars_of(canonical_workspace);
            if starts_with_chars(f.as_slice(), w.as_slice()) {
                Ok(())
            } else {
                Err(ToolError::OutsideWorkspace)
            }
        },
    }
}

/// What checking a path asked of the file system and was told: the resolved
/// workspace (or why it could not be resolved), the target joined to the
/// workspace, the paths asked about from the target upward with whether each
/// exists, and the resolved form of the first that exists.
pub struct PathProbe {
    pub canonical_workspace: Result<String, String>,
    pub full_path: String,
    pub probed: Vec<(String, bool)>,
    pub resolved: Resolved,
}

/// `p` is a probe of `rel` in the workspace `ws`, whatever the file system
/// answered: the target is `rel` joined to `ws`; when the workspace resolves,
/// the paths asked about are the target and then its parents, one after
/// another, up to the first that exists or to the last parent there is; that
/// first existing path is what was resolved (the target itself, or an
/// ancestor), and nothing was resolved when none exists. When the workspace
/// does not resolve, nothing else is asked.
pub open spec fn probe_fits(ws: Seq<char>, rel: Seq<char>, p: PathProbe) -> bool {
    let q = p.probed@;
    &&& p.full_path@ == joined_path(ws, rel)
    &&& match p.canonical_workspace {
        Err(_) => q.len() == 0 && p.resolved is Nothing,
        Ok(_) => {
            &&& q.len() > 0
            &&& q[0].0@ == p.full_path@
            &&& forall|i: int| 0 < i < q.len() ==> parent_path(q[i - 1].0@) == Some((#[trigger] q[i]).0@)
            &&& forall|i: int| 0 <= i < q.len() - 1 ==> !(#[trigger] q[i]).1
            &&& if q.last().1 {
                if q.len() == 1 {
                    p.resolved is Target
                } else {
                    p.resolved is Ancestor
                }
            } else {
                parent_path(q.last().0@) is None && p.resolved is Nothing
            }
        },
    }
}

/// Whether a probe lets the path through: the workspace resolves and the
/// containment check accepts the target.
pub open spec fn path_accepted(p: PathProbe) -> bool {
    match p.canonical_workspace {
        Err(_) => false,
        Ok(cw) => containment_accepts(cw@, p.full_path@, p.resolved),
    }
}

/// The error that refuses a path after the probe `p`: the workspace does not
/// resolve; the target or the ancestor found does not resolve; or the path
/// lies outside.
pub open spec fn refused_with(p: PathProbe, e: ToolError) -> bool {
    match p.canonical_workspace {
        Err(m) => e matches ToolError::WorkspaceUnavailable(x) && x@ == m@,
        Ok(_) => match p.resolved {
            Resolved::Target(Err(m)) => e matches ToolError::ResolvePath(x) && x@ == m@,
            Resolved::Ancestor(Err(m)) => e matches ToolError::ResolveParent(x) && x@ == m@,
            _ => e is OutsideWorkspace,
        },
    }
}

/// What a path check ends in after the probe `p`: the joined path when it is
/// accepted, else the error that refuses it.
pub open spec fn decided(p: PathProbe, r: Result<String, ToolError>) -> bool {
    match r {
        Ok(f) => path_accepted(p) && f@ == p.full_path@,
        Err(e) => !path_accepted(p) && refused_with(p, e),
    }
}

/// The path check of `rel` in the workspace `ws` can end in `r`: some probe
/// of `rel`, whatever the file system answered, decides it so.
pub open spec fn path_check_gives(ws: Seq<char>, rel: Seq<char>, r: Result<String, ToolError>) -> bool {
    exists|p: PathProbe| probe_fits(ws, rel, p) && decided(p, r)
}

/// Decides a path from what the file system said about it: refused when the
/// workspace does not resolve, else as the containment check says.
pub fn decide_path(probe: PathProbe) -> (r: Result<String, ToolError>)
    ensures
        decided(probe, r),
{
    match probe.canonical_workspace {
        Err(m) => Err(ToolError::WorkspaceUnavailable(m)),
        Ok(cw) => match check_containment(cw.as_str(), probe.full_path.as_str(), probe.resolved) {
            Ok(()) => Ok(probe.full_path),
            Err(e) => Err(e),
        },
    }
}

impl ToolExecutor {
    /// Asks the file system what checking `relative_path` needs: the resolved
    /// workspace, then whether the target exists, and if not, whether each of
    /// its parents does, up to the first that exists, which is resolved.
    pub fn probe_path(&self, relative_path: &str) -> (p: PathProbe)
        ensures
            probe_fits(self.workspace()@, relative_path@, p),
    {
        let canonical_workspace = resolve(self.workspace.as_str());
        let full_path = path_join(self.workspace.as_str(), relative_path);
        if canonical_workspace.is_err() {
            return PathProbe {
                canonical_workspace,
                full_path,
                probed: Vec::new(),
                resolved: Resolved::Nothing,
            };
        }
        let mut probed: Vec<(String, bool)> = Vec::new();
        let mut current: String = full_path.clone();
        let resolved;
        loop
            invariant_except_break
                probed@.len() == 0 ==> current@ == full_path@,
                probed@.len() > 0 ==> probed@[0].0@ == full_path@ && parent_path(probed@.last().0@)
                    == Some(current@),
                forall|i: int|
                    0 < i < probed@.len() ==> parent_path(probed@[i - 1].0@) == Some(
                        (#[trigger] probed@[i]).0@,
                    ),
                forall|i: int| 0 <= i < probed@.len() ==> !(#[trigger] probed@[i]).1,
            ensures
                probed@.len() > 0,
                probed@[0].0@ == full_path@,
                forall|i: int|
                    0 < i < probed@.len() ==> parent_path(probed@[i - 1].0@) == Some(
                        (#[trigger] probed@[i]).0@,
                    ),
                forall|i: int| 0 <= i < probed@.len() - 1 ==> !(#[trigger] probed@[i]).1,
                if probed@.last().1 {
                    if probed@.len() == 1 {
                        resolved is Target
                    } else {
                        resolved is Ancestor
                    }
                } else {
                    parent_path(probed@.last().0@) is None && resolved is Nothing
                },
            decreases current@.len(),
        {
            let exists = path_exists(current.as_str());
            probed.push((current.clone(), exists));
            assert(probed@.last().0@ == current@);
            if exists {
                let c = resolve(current.as_str());
                resolved = if probed.len() == 1 {
                    Resolved::Target(c)
                } else {
                    Resolved::Ancestor(c)
                };
                break;
            }
            match path_parent(current.as_str()) {
                Some(parent) => {
                    current = parent;
                },
                None => {
                    resolved = Resolved::Nothing;
                    break;
                },
            }
        }
        PathProbe { canonical_workspace, full_path, probed, resolved }
    }

    /// Resolves `relative_path` against the workspace and refuses it if it
    /// leads outside: the nearest existing path at or above the target must
    /// resolve into the resolved workspace; when nothing exists, the joined
    /// path must start with the resolved workspace's text.
    pub fn validate_path(&self, relative_path: &str) -> (r: Result<String, ToolError>)
        ensures
            path_check_gives(self.workspace()@, relative_path@, r),
            r matches Ok(full) ==> full@ == joined_path(self.workspace()@, relative_path@),
    {
        let probe = self.probe_path(relative_path);
        let ghost g = probe;
        let r = decide_path(probe);
        assert(probe_fits(self.workspace()@, relative_path@, g) && decided(g, r));
        r
    }
}

} // verus!

verus! {

/// The work a tool call asks for, its arguments read and its path checked.
pub enum ToolAction {
    ReadFile { path: String, full_path: String },
    WriteFile { path: String, full_path: String, content: String },
    ListDirectory { path: String, full_path: String },
    CreateDirectory { path: String, full_path: String },
    EditFile { path: String, full_path: String, old_text: String, new_text: String },
    Execute { command: String },
}

/// `r` is the error for arguments that are not JSON.
pub open spec fn invalid_arguments<T>(r: &Result<T, ToolError>, m: Seq<char>) -> bool {
    r matches Err(ToolError::InvalidArguments(x)) && x@ == m
}

/// `r` is the error for a missing argument.
pub open spec fn missing_argument<T>(r: &Result<T, ToolError>, key: Seq<char>) -> bool {
    r matches Err(ToolError::MissingArgument(f)) && f@ == key
}

/// The string arguments that the tools read; each is present when the
/// arguments give it as a string.
pub struct ToolArguments {
    pub path: Option<String>,
    pub content: Option<String>,
    pub old_text: Option<String>,
    pub new_text: Option<String>,
    pub command: Option<String>,
}

/// One argument as parsed arguments give it: the parser's message when the
/// arguments are not JSON, else the argument if it is there.
pub open spec fn field_of(
    args: Result<ToolArguments, String>,
    f: spec_fn(ToolArguments) -> Option<String>,
) -> Result<Option<Seq<char>>, Seq<char>> {
    match args {
        Err(m) => Err(m@),
        Ok(a) => Ok(crate::chat::opt_view(f(a))),
    }
}

/// Parses the JSON arguments of a call once and takes out the string
/// arguments the tools read.
fn arguments_of(text: &str) -> (r: Result<ToolArguments, String>)
    ensures
        json_string_field(text@, "path"@) == field_of(r, |a: ToolArguments| a.path),
        json_string_field(text@, "content"@) == field_of(r, |a: ToolArguments| a.content),
        json_string_field(text@, "old_text"@) == field_of(r, |a: ToolArguments| a.old_text),
        json_string_field(text@, "new_text"@) == field_of(r, |a: ToolArguments| a.new_text),
        json_string_field(text@, "command"@) == field_of(r, |a: ToolArguments| a.command),
{
    let keys: Vec<&str> = vec!["path", "content", "old_text", "new_text", "command"];
    assert(keys@[0]@ == "path"@ && keys@[1]@ == "content"@ && keys@[2]@ == "old_text"@
        && keys@[3]@ == "new_text"@ && keys@[4]@ == "command"@);
    match json_string_fields(text, &keys) {
        Err(m) => Err(m),
        Ok(v) => {
            let mut v = v;
            let command = v.pop().unwrap();
            let new_text = v.pop().unwrap();
            let old_text = v.pop().unwrap();
            let content = v.pop().unwrap();
            let path = v.pop().unwrap();
            Ok(ToolArguments { path, content, old_text, new_text, command })
        },
    }
}

/// A tool call with its arguments read, before its path is checked.
pub enum ToolRequest {
    ReadFile { path: String },
    WriteFile { path: String, content: String },
    ListDirectory { path: String },
    CreateDirectory { path: String },
    EditFile { path: String, old_text: String, new_text: String },
    Execute { command: String },
}

/// What `read_request` gives for the tool `name` with the parsed arguments
/// `args`: the arguments are read in the order the tool lists them and the
/// first problem decides the error; a name that is no tool is refused once
/// the arguments are known to be JSON.
pub open spec fn requested(
    name: Seq<char>,
    args: Result<ToolArguments, String>,
    r: &Result<ToolRequest, ToolError>,
) -> bool {
    let path = field_of(args, |a: ToolArguments| a.path);
    if name == "read_file"@ || name == "list_directory"@ || name == "create_directory"@ {
        match path {
            Err(m) => invalid_arguments(r, m),
            Ok(None) => missing_argument(r, "path"@),
            Ok(Some(p)) => match r {
                Ok(ToolRequest::ReadFile { path }) => name == "read_file"@ && path@ == p,
                Ok(ToolRequest::ListDirectory { path }) => name == "list_directory"@ && path@ == p,
                Ok(ToolRequest::CreateDirectory { path }) => name == "create_directory"@ && path@
                    == p,
                _ => false,
            },
        }
    } else if name == "write_file"@ {
        match path {
            Err(m) => invalid_arguments(r, m),
            Ok(None) => missing_argument(r, "path"@),
            Ok(Some(p)) => match field_of(args, |a: ToolArguments| a.content) {
                Err(m) => invalid_arguments(r, m),
                Ok(None) => missing_argument(r, "content"@),
                Ok(Some(c)) => r matches Ok(ToolRequest::WriteFile { path, content }) && path@ == p
                    && content@ == c,
            },
        }
    } else if name == "edit_file"@ {
        match path {
            Err(m) => invalid_arguments(r, m),
            Ok(None) => missing_argument(r, "path"@),
            Ok(Some(p)) => match field_of(args, |a: ToolArguments| a.old_text) {
                Err(m) => invalid_arguments(r, m),
                Ok(None) => missing_argument(r, "old_text"@),
                Ok(Some(o)) => match field_of(args, |a: ToolArguments| a.new_text) {
                    Err(m) => invalid_arguments(r, m),
                    Ok(None) => missing_argument(r, "new_text"@),
                    Ok(Some(n)) => r matches Ok(ToolRequest::EditFile { path, old_text, new_text })
                        && path@ == p && old_text@ == o && new_text@ == n,
                },
            },
        }
    } else if name == "execute"@ {
        match field_of(args, |a: ToolArguments| a.command) {
            Err(m) => invalid_arguments(r, m),
            Ok(None) => missing_argument(r, "command"@),
            Ok(Some(c)) => r matches Ok(ToolRequest::Execute { command }) && command@ == c,
        }
    } else {
        match args {
            Err(m) => invalid_arguments(r, m@),
            Ok(_) => r matches Err(ToolError::UnknownTool(n)) && n@ == name,
        }
    }
}

fn required(field: Option<String>, key: &str) -> (r: Result<String, ToolError>)
    ensures
        match field {
            Some(v) => r matches Ok(s) && s@ == v@,
            None => r matches Err(ToolError::MissingArgument(f)) && f@ == key@,
        },
{
    match field {
        Some(v) => Ok(v),
        None => Err(ToolError::MissingArgument(key.to_string())),
    }
}

/// Reads the call of the tool `name` from its parsed arguments `args`: the
/// request, or why the call fails before any path is looked at.
pub fn read_request(name: &str, args: Result<ToolArguments, String>) -> (r: Result<
    ToolRequest,
    ToolError,
>)
    ensures
        requested(name@, args, &r),
{
    let is_read = str_eq(name, "read_file");
    let is_list = str_eq(name, "list_directory");
    let is_create = str_eq(name, "create_directory");
    let is_write = str_eq(name, "write_file");
    let is_edit = str_eq(name, "edit_file");
    let is_execute = str_eq(name, "execute");
    let a = match args {
        Err(m) => {
            return Err(ToolError::InvalidArguments(m));
        },
        Ok(a) => a,
    };
    if is_read || is_list || is_create {
        let path = match required(a.path, "path") {
            Ok(p) => p,
            Err(e) => {
                return Err(e);
            },
        };
        if is_read {
            Ok(ToolRequest::ReadFile { path })
        } else if is_list {
            Ok(ToolRequest::ListDirectory { path })
        } else {
            Ok(ToolRequest::CreateDirectory { path })
        }
    } else if is_write {
        let path = match required(a.path, "path") {
            Ok(p) => p,
            Err(e) => {
                return Err(e);
            },
        };
        let content = match required(a.content, "content") {
            Ok(c) => c,
            Err(e) => {
                return Err(e);
            },
        };
        Ok(ToolRequest::WriteFile { path, content })
    } else if is_edit {
        let path = match required(a.path, "path") {
            Ok(p) => p,
            Err(e) => {
                return Err(e);
            },
        };
        let old_text = match required(a.old_text, "old_text") {
            Ok(o) => o,
            Err(e) => {
                return Err(e);
            },
        };
        let new_text = match required(a.new_text, "new_text") {
            Ok(n) => n,
            Err(e) => {
                return Err(e);
            },
        };
        Ok(ToolRequest::EditFile { path, old_text, new_text })
    } else if is_execute {
        match required(a.command, "command") {
            Ok(command) => Ok(ToolRequest::Execute { command }),
            Err(e) => Err(e),
        }
    } else {
        Err(ToolError::UnknownTool(name.to_string()))
    }
}

/// What `prepare` gives for the call `name(args)` in workspace `ws`: the
/// arguments are read in the order the tool lists them, the first problem
/// decides the error; then the path check decides, as `path_check_gives`
/// says: the action with the path joined to the workspace, or the error that
/// refuses the path.
pub open spec fn prepared(
    ws: Seq<char>,
    name: Seq<char>,
    args: Seq<char>,
    r: &Result<ToolAction, ToolError>,
) -> bool {
    if name == "read_file"@ || name == "list_directory"@ || name == "create_directory"@ {
        match json_string_field(args, "path"@) {
            Err(m) => invalid_arguments(r, m),
            Ok(None) => missing_argument(r, "path"@),
            Ok(Some(p)) => match r {
                Ok(ToolAction::ReadFile { path, full_path }) => name == "read_file"@ && path@ == p
                    && path_check_gives(ws, p, Ok(*full_path)),
                Ok(ToolAction::ListDirectory { path, full_path }) => name == "list_directory"@
                    && path@ == p && path_check_gives(ws, p, Ok(*full_path)),
                Ok(ToolAction::CreateDirectory { path, full_path }) => name
                    == "create_directory"@ && path@ == p && path_check_gives(ws, p, Ok(*full_path)),
                Ok(_) => false,
                Err(e) => path_check_gives(ws, p, Err(*e)),
            },
        }
    } else if name == "write_file"@ {
        match json_string_field(args, "path"@) {
            Err(m) => invalid_arguments(r, m),
            Ok(None) => missing_argument(r, "path"@),
            Ok(Some(p)) => match json_string_field(args, "content"@) {
                Err(m) => invalid_arguments(r, m),
                Ok(None) => missing_argument(r, "content"@),
                Ok(Some(c)) => match r {
                    Ok(ToolAction::WriteFile { path, full_path, content }) => path@ == p
                        && path_check_gives(ws, p, Ok(*full_path)) && content@ == c,
                    Ok(_) => false,
                    Err(e) => path_check_gives(ws, p, Err(*e)),
                },
            },
        }
    } else if name == "edit_file"@ {
        match json_string_field(args, "path"@) {
            Err(m) => invalid_arguments(r, m),
            Ok(None) => missing_argument(r, "path"@),
            Ok(Some(p)) => match json_string_field(args, "old_text"@) {
                Err(m) => invalid_arguments(r, m),
                Ok(None) => missing_argument(r, "old_text"@),
                Ok(Some(o)) => match json_string_field(args, "new_text"@) {
                    Err(m) => invalid_arguments(r, m),
                    Ok(None) => missing_argument(r, "new_text"@),
                    Ok(Some(n)) => match r {
                        Ok(ToolAction::EditFile { path, full_path, old_text, new_text }) => path@
                            == p && path_check_gives(ws, p, Ok(*full_path)) && old_text@ == o
                            && new_text@ == n,
                        Ok(_) => false,
                        Err(e) => path_check_gives(ws, p, Err(*e)),
                    },
                },
            },
        }
    } else if name == "execute"@ {
        match json_string_field(args, "command"@) {
            Err(m) => invalid_arguments(r, m),
            Ok(None) => missing_argument(r, "command"@),
            Ok(Some(c)) => r matches Ok(ToolAction::Execute { command }) && command@ == c,
        }
    } else {
        match json_string_field(args, "path"@) {
            Err(m) => invalid_arguments(r, m),
            Ok(_) => r matches Err(ToolError::UnknownTool(n)) && n@ == name,
        }
    }
}

impl ToolExecutor {
    /// Reads the arguments of the call `name(arguments)` and checks its path:
    /// the work to do, or why the call fails before any file is touched.
    pub fn prepare(&self, name: &str, arguments: &str) -> (r: Result<ToolAction, ToolError>)
        ensures
            prepared(self.workspace()@, name@, arguments@, &r),
    {
        let args = arguments_of(arguments);
        let request = match read_request(name, args) {
            Ok(q) => q,
            Err(e) => {
                return Err(e);
            },
        };
        match request {
            ToolRequest::Execute { command } => Ok(ToolAction::Execute { command }),
            ToolRequest::ReadFile { path } => match self.validate_path(path.as_str()) {
                Ok(full_path) => Ok(ToolAction::ReadFile { path, full_path }),
                Err(e) => Err(e),
            },
            ToolRequest::ListDirectory { path } => match self.validate_path(path.as_str()) {
                Ok(full_path) => Ok(ToolAction::ListDirectory { path, full_path }),
                Err(e) => Err(e),
            },
            ToolRequest::CreateDirectory { path } => match self.validate_path(path.as_str()) {
                Ok(full_path) => Ok(ToolAction::CreateDirectory { path, full_path }),
                Err(e) => Err(e),
            },
            ToolRequest::WriteFile { path, content } => match self.validate_path(path.as_str()) {
                Ok(full_path) => Ok(ToolAction::WriteFile { path, full_path, content }),
                Err(e) => Err(e),
            },
            ToolRequest::EditFile { path, old_text, new_text } => match self.validate_path(
                path.as_str(),
            ) {
                Ok(full_path) => Ok(ToolAction::EditFile { path, full_path, old_text, new_text }),
                Err(e) => Err(e),
            },
        }
    }
}

} // verus!

verus! {

/// The listing depends only on which lines there are, not on the order in
/// which the directory gave its entries: any two sorted arrangements of the
/// same directory lines and the same other lines give the same report.
pub proof fn lemma_listing_unique(
    path: Seq<char>,
    ds1: Seq<Seq<char>>,
    fs1: Seq<Seq<char>>,
    ds2: Seq<Seq<char>>,
    fs2: Seq<Seq<char>>,
)
    requires
        sorted_strs(ds1),
        sorted_strs(fs1),
        sorted_strs(ds2),
        sorted_strs(fs2),
        ds1.to_multiset() == ds2.to_multiset(),
        fs1.to_multiset() == fs2.to_multiset(),
    ensures
        listing_text(path, ds1, fs1) == listing_text(path, ds2, fs2),
{
    crate::order::lemma_sorted_unique(ds1, ds2);
    crate::order::lemma_sorted_unique(fs1, fs2);
}

/// A successful edit reports at least one replacement.
pub proof fn lemma_edit_replaces_something(content: Seq<char>, old_text: Seq<char>)
    requires
        contains(content, old_text),
    ensures
        count_matches(content, old_text) >= 1,
{
    crate::text::lemma_count_positive(content, old_text);
}

} // verus!

verus! {

/// The two results of an edit agree: the new text is longer (or shorter) than
/// the old by the reported number of replacements times the difference in
/// length between the new and the old text.
pub proof fn lemma_edit_report_matches_content(content: Seq<char>, old_text: Seq<char>, new_text: Seq<char>)
    ensures
        replace_all(content, old_text, new_text).len() == content.len() + count_matches(
            content,
            old_text,
        ) * (new_text.len() - old_text.len()),
{
    crate::text::lemma_replace_len(content, old_text, new_text);
}

} // verus!

verus! {

/// The `required` entry of the `i`-th built-in tool's schema: the arguments
/// the tool cannot do without.
pub open spec fn required_text(i: int) -> Seq<char> {
    if i == 0 || i == 2 || i == 3 {
        "\"required\":[\"path\"]"@
    } else if i == 1 {
        "\"required\":[\"path\",\"content\"]"@
    } else if i == 4 {
        "\"required\":[\"path\",\"old_text\",\"new_text\"]"@
    } else {
        "\"required\":[\"command\"]"@
    }
}

/// The parsed arguments give every argument that the `i`-th built-in tool's
/// schema requires.
pub open spec fn gives_required(i: int, a: ToolArguments) -> bool {
    if i == 0 || i == 2 || i == 3 {
        a.path is Some
    } else if i == 1 {
        a.path is Some && a.content is Some
    } else if i == 4 {
        a.path is Some && a.old_text is Some && a.new_text is Some
    } else {
        a.command is Some
    }
}

proof fn lemma_tool_names_differ()
    ensures
        "read_file"@.len() == 9,
        "write_file"@.len() == 10,
        "list_directory"@.len() == 14,
        "create_directory"@.len() == 16,
        "edit_file"@.len() == 9,
        "execute"@.len() == 7,
        "read_file"@ != "edit_file"@,
{
    reveal_strlit("read_file");
    reveal_strlit("write_file");
    reveal_strlit("list_directory");
    reveal_strlit("create_directory");
    reveal_strlit("edit_file");
    reveal_strlit("execute");
    assert("read_file"@[0] != "edit_file"@[0]);
}

/// The built-in tools' schemas and the reader of their calls agree: each
/// schema's `required` entry names what the reader asks for, a call that
/// gives those arguments as strings is read, and no built-in tool's name is
/// taken for an unknown tool.
pub proof fn lemma_schemas_match_reader(
    i: int,
    args: Result<ToolArguments, String>,
    r: Result<ToolRequest, ToolError>,
)
    requires
        0 <= i < 6,
        requested(builtin_tool_name(i), args, &r),
    ensures
        crate::text::contains(builtin_tool_parameters(i), required_text(i)),
        !(r matches Err(ToolError::UnknownTool(_))),
        (args matches Ok(a) && gives_required(i, a)) ==> r is Ok,
{
    lemma_tool_names_differ();
    let s = builtin_tool_parameters(i);
    let p = required_text(i);
    if i == 0 {
        reveal_strlit("{\"type\":\"object\",\"properties\":{\"path\":{\"type\":\"string\",\"description\":\"Relative path to the file within the workspace\"}},\"required\":[\"path\"]}");
        assert(READ_FILE_SCHEMA@ == "{\"type\":\"object\",\"properties\":{\"path\":{\"type\":\"string\",\"description\":\"Relative path to the file within the workspace\"}},\"required\":[\"path\"]}"@);
        reveal_strlit("\"required\":[\"path\"]");
        assert(s.subrange(120, 120 + p.len() as int) =~= p);
        assert(crate::text::occurs_at(s, p, 120));
    } else if i == 1 {
        reveal_strlit("{\"type\":\"object\",\"properties\":{\"path\":{\"type\":\"string\",\"description\":\"Relative path to the file within the workspace\"},\"content\":{\"type\":\"string\",\"description\":\"Content to write to the file\"}},\"required\":[\"path\",\"content\"]}");
        assert(WRITE_FILE_SCHEMA@ == "{\"type\":\"object\",\"properties\":{\"path\":{\"type\":\"string\",\"description\":\"Relative path to the file within the workspace\"},\"content\":{\"type\":\"string\",\"description\":\"Content to write to the file\"}},\"required\":[\"path\",\"content\"]}"@);
        reveal_strlit("\"required\":[\"path\",\"content\"]");
        assert(s.subrange(193, 193 + p.len() as int) =~= p);
        assert(crate::text::occurs_at(s, p, 193));
    } else if i == 2 {
        reveal_strlit("{\"type\":\"object\",\"properties\":{\"path\":{\"type\":\"string\",\"description\":\"Relative path to the directory (use '.' for workspace root)\"}},\"required\":[\"path\"]}");
        assert(LIST_DIRECTORY_SCHEMA@ == "{\"type\":\"object\",\"properties\":{\"path\":{\"type\":\"string\",\"description\":\"Relative path to the directory (use '.' for workspace root)\"}},\"required\":[\"path\"]}"@);
        reveal_strlit("\"required\":[\"path\"]");
        assert(s.subrange(133, 133 + p.len() as int) =~= p);
        assert(crate::text::occurs_at(s, p, 133));
    } else if i == 3 {
        reveal_strlit("{\"type\":\"object\",\"properties\":{\"path\":{\"type\":\"string\",\"description\":\"Relative path to the directory within the workspace\"}},\"required\":[\"path\"]}");
        assert(CREATE_DIRECTORY_SCHEMA@ == "{\"type\":\"object\",\"properties\":{\"path\":{\"type\":\"string\",\"description\":\"Relative path to the directory within the workspace\"}},\"required\":[\"path\"]}"@);
        reveal_strlit("\"required\":[\"path\"]");
        assert(s.subrange(125, 125 + p.len() as int) =~= p);
        assert(crate::text::occurs_at(s, p, 125));
    } else if i == 4 {
        reveal_strlit("{\"type\":\"object\",\"properties\":{\"path\":{\"type\":\"string\",\"description\":\"Relative path to the file\"},\"old_text\":{\"type\":\"string\",\"description\":\"The exact text to find and replace\"},\"new_text\":{\"type\":\"string\",\"description\":\"The text to replace with\"}},\"required\":[\"path\",\"old_text\",\"new_text\"]}");
        assert(EDIT_FILE_SCHEMA@ == "{\"type\":\"object\",\"properties\":{\"path\":{\"type\":\"string\",\"description\":\"Relative path to the file\"},\"old_text\":{\"type\":\"string\",\"description\":\"The exact text to find and replace\"},\"new_text\":{\"type\":\"string\",\"description\":\"The text to replace with\"}},\"required\":[\"path\",\"old_text\",\"new_text\"]}"@);
        reveal_strlit("\"required\":[\"path\",\"old_text\",\"new_text\"]");
        assert(s.subrange(249, 249 + p.len() as int) =~= p);
        assert(crate::text::occurs_at(s, p, 249));
    } else {
        reveal_strlit("{\"type\":\"object\",\"properties\":{\"command\":{\"type\":\"string\",\"description\":\"Shell command to execute in the workspace\"}},\"required\":[\"command\"]}");
        assert(EXECUTE_SCHEMA@ == "{\"type\":\"object\",\"properties\":{\"command\":{\"type\":\"string\",\"description\":\"Shell command to execute in the workspace\"}},\"required\":[\"command\"]}"@);
        reveal_strlit("\"required\":[\"command\"]");
        assert(s.subrange(118, 118 + p.len() as int) =~= p);
        assert(crate::text::occurs_at(s, p, 118));
    }
}

} // verus!

verus! {

/// Each action that `prepare` hands out comes from the tool of its own name
/// and holds the call's own arguments, each under its own field: the path
/// argument as the path (joined to the workspace as the path check says), the
/// content, old text, new text and command arguments as those fields.
pub proof fn lemma_action_holds_the_call_arguments(
    ws: Seq<char>,
    name: Seq<char>,
    args: Seq<char>,
    r: Result<ToolAction, ToolError>,
)
    requires
        prepared(ws, name, args, &r),
    ensures
        r matches Ok(ToolAction::ReadFile { path, full_path }) ==> name == "read_file"@
            && json_string_field(args, "path"@) == Ok::<Option<Seq<char>>, Seq<char>>(Some(path@))
            && path_check_gives(ws, path@, Ok(full_path)),
        r matches Ok(ToolAction::ListDirectory { path, full_path }) ==> name == "list_directory"@
            && json_string_field(args, "path"@) == Ok::<Option<Seq<char>>, Seq<char>>(Some(path@))
            && path_check_gives(ws, path@, Ok(full_path)),
        r matches Ok(ToolAction::CreateDirectory { path, full_path }) ==> name
            == "create_directory"@ && json_string_field(args, "path"@) == Ok::<
            Option<Seq<char>>,
            Seq<char>,
        >(Some(path@)) && path_check_gives(ws, path@, Ok(full_path)),
        r matches Ok(ToolAction::WriteFile { path, full_path, content }) ==> name == "write_file"@
            && json_string_field(args, "path"@) == Ok::<Option<Seq<char>>, Seq<char>>(Some(path@))
            && json_string_field(args, "content"@) == Ok::<Option<Seq<char>>, Seq<char>>(
            Some(content@),
        ) && path_check_gives(ws, path@, Ok(full_path)),
        r matches Ok(ToolAction::EditFile { path, full_path, old_text, new_text }) ==> name
            == "edit_file"@ && json_string_field(args, "path"@) == Ok::<
            Option<Seq<char>>,
            Seq<char>,
        >(Some(path@)) && json_string_field(args, "old_text"@) == Ok::<
            Option<Seq<char>>,
            Seq<char>,
        >(Some(old_text@)) && json_string_field(args, "new_text"@) == Ok::<
            Option<Seq<char>>,
            Seq<char>,
        >(Some(new_text@)) && path_check_gives(ws, path@, Ok(full_path)),
        r matches Ok(ToolAction::Execute { command }) ==> name == "execute"@ && json_string_field(
            args,
            "command"@,
        ) == Ok::<Option<Seq<char>>, Seq<char>>(Some(command@)),
{
    lemma_tool_names_differ();
}

} // verus!
