//! The tool that writes a file. It writes in the working directory only.

use vstd::prelude::*;
use vstd::string::StringExecFns;
use crate::json::{no_fields, set_field, Json, JsonModel};
use crate::text;
use crate::tool::output::{ToolOutput, ToolOutputModel};
use crate::tool::path::{is_within_cwd, PathProbe, ProbeModel};
use crate::tool::registry::Tool;
use crate::tool::schema;

verus! {

/// The tool that writes a file.
#[derive(Debug)]
pub struct WriteFileTool {
    timeout_secs: u64,
}

impl View for WriteFileTool {
    type V = u64;

    /// The seconds that writing may take.
    closed spec fn view(&self) -> u64 {
        self.timeout_secs
    }
}

/// What is to be written.
#[derive(Debug)]
pub struct WriteRequest {
    pub path: String,
    pub content: String,
}

/// What is to be written.
pub struct WriteRequestModel {
    pub path: Seq<char>,
    pub content: Seq<char>,
}

impl DeepView for WriteRequest {
    type V = WriteRequestModel;

    open spec fn deep_view(&self) -> WriteRequestModel {
        WriteRequestModel { path: self.path@, content: self.content@ }
    }
}

/// A string field that must be there and not be empty.
pub open spec fn filled_field(input: JsonModel, name: Seq<char>) -> Option<Seq<char>> {
    match crate::json::string_field(input, name) {
        Some(t) if t.len() > 0 => Some(t),
        _ => None,
    }
}

/// What is to be written according to the tool's input, or what is missing in it.
pub open spec fn requested(input: JsonModel) -> Result<WriteRequestModel, ToolOutputModel> {
    match filled_field(input, "path"@) {
        None => Err(crate::tool::output::output("Error: path parameter is required"@, true)),
        Some(path) => match filled_field(input, "content"@) {
            None => Err(crate::tool::output::output("Error: content parameter is required"@, true)),
            Some(content) => Ok(WriteRequestModel { path, content }),
        },
    }
}

/// How the attempt to write a file ended.
#[derive(Debug)]
pub enum WriteOutcome {
    /// The directory of the file could not be made.
    DirectoryFailed(String),
    /// It took too long.
    TimedOut,
    /// There is no such file.
    NotFound,
    /// The file may not be written.
    PermissionDenied,
    /// The file is not text.
    InvalidData,
    /// It failed for another reason.
    Failed(String),
    /// The file was written.
    Written,
}

/// How the attempt to write a file ended.
pub enum WriteOutcomeModel {
    DirectoryFailed(Seq<char>),
    TimedOut,
    NotFound,
    PermissionDenied,
    InvalidData,
    Failed(Seq<char>),
    Written,
}

impl DeepView for WriteOutcome {
    type V = WriteOutcomeModel;

    open spec fn deep_view(&self) -> WriteOutcomeModel {
        match *self {
            WriteOutcome::DirectoryFailed(e) => WriteOutcomeModel::DirectoryFailed(e@),
            WriteOutcome::TimedOut => WriteOutcomeModel::TimedOut,
            WriteOutcome::NotFound => WriteOutcomeModel::NotFound,
            WriteOutcome::PermissionDenied => WriteOutcomeModel::PermissionDenied,
            WriteOutcome::InvalidData => WriteOutcomeModel::InvalidData,
            WriteOutcome::Failed(e) => WriteOutcomeModel::Failed(e@),
            WriteOutcome::Written => WriteOutcomeModel::Written,
        }
    }
}

/// The refusal of a path that does not lie in the working directory.
pub open spec fn refusal(path: Seq<char>) -> ToolOutputModel {
    crate::tool::output::output("路径限制：文件 `"@ + path + "` 不在当前工作目录内，不允许写入。"@, true)
}

/// The refusal of a path, unless it lies in the working directory.
pub open spec fn verdict(path: Seq<char>, probe: ProbeModel) -> Option<ToolOutputModel> {
    if crate::tool::path::within_cwd(path, probe) {
        None
    } else {
        Some(refusal(path))
    }
}

/// What the tool gives back.
pub open spec fn reported(timeout_secs: u64, path: Seq<char>, o: WriteOutcomeModel) -> ToolOutputModel {
    match o {
        WriteOutcomeModel::DirectoryFailed(e) => crate::tool::output::output("创建目录失败: "@ + e, true),
        WriteOutcomeModel::TimedOut => crate::tool::output::output(
            "写入文件超时 ("@ + text::seconds(timeout_secs as nat) + ")"@,
            true,
        ),
        WriteOutcomeModel::NotFound => crate::tool::output::output("文件不存在: "@ + path, true),
        WriteOutcomeModel::PermissionDenied => crate::tool::output::output("没有权限写入: "@ + path, true),
        WriteOutcomeModel::InvalidData => crate::tool::output::output(
            "无法以文本方式写入，文件可能是二进制或非 UTF-8 编码: "@ + path,
            true,
        ),
        WriteOutcomeModel::Failed(e) => crate::tool::output::output("写入文件失败: "@ + e, true),
        WriteOutcomeModel::Written => crate::tool::output::output("成功写入文件: "@ + path, false),
    }
}

/// A string field that must be there and not be empty.
fn filled<'a>(input: &'a Json, name: &str) -> (r: Option<&'a str>)
    ensures
        r.deep_view() == filled_field(input.model(), name@),
{
    match input.get_str(name) {
        Some(t) => if t.is_empty() {
            None
        } else {
            Some(t)
        },
        None => None,
    }
}

impl Default for WriteFileTool {
    fn default() -> (r: Self)
        ensures
            r@ == 30,
    {
        WriteFileTool::new(30)
    }
}

impl Tool for WriteFileTool {
    open spec fn tool_name(&self) -> Seq<char> {
        "write_file"@
    }

    open spec fn tool_description(&self) -> Seq<char> {
        "Write content to a file"@
    }

    open spec fn tool_parameters(&self) -> JsonModel {
        crate::tool::schema::object_schema(
            Map::empty().insert("path"@, crate::tool::schema::value_schema("string"@)).insert(
                "content"@,
                crate::tool::schema::value_schema("string"@),
            ),
            seq!["path"@, "content"@],
        )
    }

    fn name(&self) -> (r: &str) {
        "write_file"
    }

    fn description(&self) -> (r: &str) {
        "Write content to a file"
    }

    fn parameters(&self) -> (r: Json) {
        let mut properties = no_fields();
        set_field(&mut properties, "path", schema::value("string"));
        set_field(&mut properties, "content", schema::value("string"));
        let required = vec!["path", "content"];
        assert(text::texts(required@) =~= seq!["path"@, "content"@]);
        schema::object(properties, &required)
    }
}

impl WriteFileTool {
    /// The tool, with the seconds that writing may take.
    pub fn new(timeout_secs: u64) -> (r: Self)
        ensures
            r@ == timeout_secs,
    {
        WriteFileTool { timeout_secs }
    }

    /// The seconds that writing may take.
    pub fn timeout_secs(&self) -> (r: u64)
        ensures
            r == self@,
    {
        self.timeout_secs
    }

    /// What is to be written, or what is missing in the input.
    pub fn request(input: &Json) -> (r: Result<WriteRequest, ToolOutput>)
        ensures
            match requested(input.model()) {
                Ok(request) => r is Ok && r->Ok_0.deep_view() == request,
                Err(e) => r is Err && r->Err_0.deep_view() == e,
            },
            r matches Ok(request) ==> crate::json::string_field(input.model(), "path"@) == Some(request.path@)
                && crate::json::string_field(input.model(), "content"@) == Some(request.content@),
    {
        let path = match filled(input, "path") {
            Some(path) => path,
            None => {
                return Err(ToolOutput::error("Error: path parameter is required".to_owned()));
            },
        };
        let content = match filled(input, "content") {
            Some(content) => content,
            None => {
                return Err(ToolOutput::error("Error: content parameter is required".to_owned()));
            },
        };
        Ok(WriteRequest { path: path.to_owned(), content: content.to_owned() })
    }

    /// Refuses a path that does not lie in the working directory.
    pub fn authorize(&self, request: &WriteRequest, probe: &PathProbe) -> (r: Option<ToolOutput>)
        ensures
            r.deep_view() == if crate::tool::path::within_cwd(request.path@, probe.deep_view()) {
                None
            } else {
                Some(refusal(request.path@))
            },
            r.deep_view() == verdict(request.path@, probe.deep_view()),
    {
        let path = request.path.as_str();
        if is_within_cwd(path, probe) {
            return None;
        }
        let mut content = "路径限制：文件 `".to_owned();
        content.append(path);
        content.append("` 不在当前工作目录内，不允许写入。");
        Some(ToolOutput::error(content))
    }

    /// What the tool gives back after the attempt to write.
    pub fn report(&self, request: &WriteRequest, outcome: WriteOutcome) -> (r: ToolOutput)
        ensures
            r.deep_view() == reported(self@, request.path@, outcome.deep_view()),
    {
        let path = request.path.as_str();
        match outcome {
            WriteOutcome::DirectoryFailed(e) => ToolOutput::error("创建目录失败: ".to_owned().concat(e.as_str())),
            WriteOutcome::TimedOut => {
                let mut content = "写入文件超时 (".to_owned();
                content.append(text::seconds_of(self.timeout_secs).as_str());
                content.append(")");
                ToolOutput::error(content)
            },
            WriteOutcome::NotFound => ToolOutput::error("文件不存在: ".to_owned().concat(path)),
            WriteOutcome::PermissionDenied => ToolOutput::error("没有权限写入: ".to_owned().concat(path)),
            WriteOutcome::InvalidData => ToolOutput::error(
                "无法以文本方式写入，文件可能是二进制或非 UTF-8 编码: ".to_owned().concat(path),
            ),
            WriteOutcome::Failed(e) => ToolOutput::error("写入文件失败: ".to_owned().concat(e.as_str())),
            WriteOutcome::Written => ToolOutput::ok("成功写入文件: ".to_owned().concat(path)),
        }
    }
}

} // verus!
