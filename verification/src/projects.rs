//! Projects of the service: the arguments of the commands that manage them,
//! the addresses under which they are reached, and the lines in which they
//! are listed.

use vstd::prelude::*;
use vstd::string::*;
use vstd::utf8::encode_utf8;
use crate::json::{decimal, decimal_text, member_models, JsonModel, JsonValue};
use crate::table::{display_width, pad_cell, padded, str_width};
use crate::text::{strip_trailing, texts, trim_end_matches, view_of};

verus! {

/// A project.
#[derive(Debug, Clone)]
pub struct Project {
    pub id: String,
    pub name: String,
    pub org_id: String,
}

/// The arguments of `projects`.
#[derive(Debug, Clone)]
pub struct ProjectsArgs {
    pub command: Option<ProjectsCommands>,
}

/// The subcommands of `projects`.
#[derive(Debug, Clone)]
pub enum ProjectsCommands {
    /// List all projects.
    List,
    /// Create a new project.
    Create(CreateArgs),
    /// Open a project in the browser.
    View(ViewArgs),
    /// Delete a project.
    Delete(DeleteArgs),
    /// Switch to a project.
    Switch(SwitchArgs),
}

/// The arguments of `projects create`.
#[derive(Debug, Clone)]
pub struct CreateArgs {
    /// Name of the project to create.
    pub name: Option<String>,
}

/// The arguments of `projects view`.
#[derive(Debug, Clone)]
pub struct ViewArgs {
    /// The name given by position.
    pub name_positional: Option<String>,
    /// The name given by flag.
    pub name_flag: Option<String>,
}

/// The arguments of `projects delete`.
#[derive(Debug, Clone)]
pub struct DeleteArgs {
    /// Name of the project to delete.
    pub name: Option<String>,
}

/// The arguments of `projects switch`.
#[derive(Debug, Clone)]
pub struct SwitchArgs {
    /// Name of the project to switch to.
    pub name: Option<String>,
}

impl ViewArgs {
    /// The name of the project: the one given by position, else the one
    /// given by flag.
    pub open spec fn spec_name(&self) -> Option<Seq<char>> {
        match self.name_positional {
            Some(name) => Some(name@),
            None => view_of(self.name_flag),
        }
    }

    /// The name of the project: the one given by position, else the one
    /// given by flag.
    pub fn name(&self) -> (name: Option<&str>)
        ensures
            self.spec_name() == view_of(name),
    {
        match &self.name_positional {
            Some(name) => Some(name.as_str()),
            None => match &self.name_flag {
                Some(name) => Some(name.as_str()),
                None => None,
            },
        }
    }
}

/// The name to work with, if one was given and is not empty.
pub fn given_name(name: Option<&str>) -> (given: Option<&str>)
    ensures
        match name {
            Some(n) => if n@.len() == 0 {
                given is None
            } else {
                given == Some(n)
            },
            None => given is None,
        },
{
    match name {
        Some(n) => if n.is_empty() {
            None
        } else {
            Some(n)
        },
        None => None,
    }
}

/// Whether a byte stands for itself in a URL: letters, digits, `-`, `.`,
/// `_` and `~` do.
pub open spec fn is_unreserved(b: u8) -> bool {
    ||| 0x30 <= b <= 0x39
    ||| 0x41 <= b <= 0x5a
    ||| 0x61 <= b <= 0x7a
    ||| b == 0x2d
    ||| b == 0x2e
    ||| b == 0x5f
    ||| b == 0x7e
}

/// The character for the hexadecimal digit `d`, in upper case.
pub open spec fn upper_hex(d: int) -> char {
    if d < 10 {
        (d + 48) as char
    } else {
        (d + 55) as char
    }
}

/// What stands for a byte in a URL: the byte itself if it is unreserved,
/// else a percent sign and its two hexadecimal digits.
pub open spec fn percent_byte(b: u8) -> Seq<char> {
    if is_unreserved(b) {
        seq![b as char]
    } else {
        seq!['%', upper_hex((b / 16) as int), upper_hex((b % 16) as int)]
    }
}

/// The bytes as they stand in a URL.
pub open spec fn percent_encoded(bytes: Seq<u8>) -> Seq<char>
    decreases bytes.len(),
{
    if bytes.len() == 0 {
        Seq::empty()
    } else {
        percent_encoded(bytes.drop_last()) + percent_byte(bytes.last())
    }
}

/// `s` as it stands in a URL: the bytes of its UTF-8 encoding, each
/// unreserved one as it is and each other one percent-encoded.
pub open spec fn url_encoded(s: Seq<char>) -> Seq<char> {
    percent_encoded(encode_utf8(s))
}

/// `urlencoding::encode`, which percent-encodes every byte except
/// alphanumerics and `-`, `_`, `.`, `~`.
#[verifier::external_body]
fn encode(s: &str) -> (r: String)
    ensures
        r@ == url_encoded(s@),
{
    urlencoding::encode(s).into_owned()
}

/// The address under which projects are listed and created.
pub open spec fn spec_projects_url(api_url: Seq<char>) -> Seq<char> {
    strip_trailing(api_url, '/') + "/v1/project"@
}

/// The address of the list of the projects of an organisation.
pub open spec fn spec_list_projects_url(api_url: Seq<char>, org_name: Seq<char>) -> Seq<char> {
    spec_projects_url(api_url) + "?org_name="@ + url_encoded(org_name)
}

/// The address of the project of an organisation that goes by a name.
pub open spec fn spec_project_by_name_url(
    api_url: Seq<char>,
    org_name: Seq<char>,
    name: Seq<char>,
) -> Seq<char> {
    spec_list_projects_url(api_url, org_name) + "&name="@ + url_encoded(name)
}

/// The address of the project with the given id.
pub open spec fn spec_project_url(api_url: Seq<char>, project_id: Seq<char>) -> Seq<char> {
    spec_projects_url(api_url) + "/"@ + project_id
}

/// The address of the page of a project in the web application.
pub open spec fn spec_project_page_url(
    app_url: Seq<char>,
    org_name: Seq<char>,
    project_name: Seq<char>,
) -> Seq<char> {
    strip_trailing(app_url, '/') + "/app/"@ + url_encoded(org_name) + "/p/"@ + url_encoded(
        project_name,
    )
}

/// The address under which projects are listed and created.
pub fn projects_url(api_url: &str) -> (url: String)
    ensures
        url@ == spec_projects_url(api_url@),
{
    let mut url = trim_end_matches(api_url, '/').to_owned();
    url.push_str("/v1/project");
    url
}

/// The address of the list of the projects of an organisation.
pub fn list_projects_url(api_url: &str, org_name: &str) -> (url: String)
    ensures
        url@ == spec_list_projects_url(api_url@, org_name@),
{
    let mut url = projects_url(api_url);
    url.push_str("?org_name=");
    url.push_str(encode(org_name).as_str());
    url
}

/// The address of the project of an organisation that goes by a name.
pub fn project_by_name_url(api_url: &str, org_name: &str, name: &str) -> (url: String)
    ensures
        url@ == spec_project_by_name_url(api_url@, org_name@, name@),
{
    let mut url = list_projects_url(api_url, org_name);
    url.push_str("&name=");
    url.push_str(encode(name).as_str());
    url
}

/// The address of the project with the given id.
pub fn project_url(api_url: &str, project_id: &str) -> (url: String)
    ensures
        url@ == spec_project_url(api_url@, project_id@),
{
    let mut url = projects_url(api_url);
    url.push_str("/");
    url.push_str(project_id);
    url
}

/// The address of the page of a project in the web application.
pub fn project_page_url(app_url: &str, org_name: &str, project_name: &str) -> (url: String)
    ensures
        url@ == spec_project_page_url(app_url@, org_name@, project_name@),
{
    let mut url = trim_end_matches(app_url, '/').to_owned();
    url.push_str("/app/");
    url.push_str(encode(org_name).as_str());
    url.push_str("/p/");
    url.push_str(encode(project_name).as_str());
    url
}

/// What is sent to create a project.
pub open spec fn spec_create_project_body(name: Seq<char>, org_name: Seq<char>) -> JsonModel {
    JsonModel::Object(
        seq![("name"@, JsonModel::String(name)), ("org_name"@, JsonModel::String(org_name))],
    )
}

/// What is sent to create a project.
pub fn create_project_body(name: &str, org_name: &str) -> (body: JsonValue)
    ensures
        body@ == spec_create_project_body(name@, org_name@),
{
    let mut entries: Vec<(String, JsonValue)> = Vec::new();
    entries.push(("name".to_owned(), JsonValue::String(name.to_owned())));
    entries.push(("org_name".to_owned(), JsonValue::String(org_name.to_owned())));
    assert(member_models(entries@) =~= seq![
        ("name"@, JsonModel::String(name@)),
        ("org_name"@, JsonModel::String(org_name@)),
    ]);
    JsonValue::Object(entries)
}

/// `text` with `name` in single quotes behind it, and `tail` behind that.
pub open spec fn about(text: Seq<char>, name: Seq<char>, tail: Seq<char>) -> Seq<char> {
    text + "'"@ + name + "'"@ + tail
}

/// A message that names a project in single quotes.
fn message_about(text: &str, name: &str, tail: &str) -> (message: String)
    ensures
        message@ == about(text@, name@, tail@),
{
    let mut message = text.to_owned();
    message.push_str("'");
    message.push_str(name);
    message.push_str("'");
    message.push_str(tail);
    message
}

/// The message for a project that was looked for in vain.
pub fn not_found_message(name: &str) -> (message: String)
    ensures
        message@ == about("project "@, name@, " not found"@),
{
    message_about("project ", name, " not found")
}

/// The message for a project that is there although it was to be created.
pub fn already_exists_message(name: &str) -> (message: String)
    ensures
        message@ == about("project "@, name@, " already exists"@),
{
    message_about("project ", name, " already exists")
}

/// The question whether a project that was not found is to be created.
pub fn create_prompt(name: &str) -> (message: String)
    ensures
        message@ == about("Project "@, name@, " not found. Create it?"@),
{
    message_about("Project ", name, " not found. Create it?")
}

/// The question whether a project is to be deleted.
pub fn delete_prompt(name: &str) -> (message: String)
    ensures
        message@ == about("Delete project "@, name@, "?"@),
{
    message_about("Delete project ", name, "?")
}

/// The message after a project was created, or after that failed.
pub fn created_message(name: &str, success: bool) -> (message: String)
    ensures
        message@ == if success {
            about("Successfully created "@, name@, ""@)
        } else {
            about("Failed to create "@, name@, ""@)
        },
{
    if success {
        message_about("Successfully created ", name, "")
    } else {
        message_about("Failed to create ", name, "")
    }
}

/// The message after a project was deleted, or after that failed.
pub fn deleted_message(name: &str, success: bool) -> (message: String)
    ensures
        message@ == if success {
            about("Deleted "@, name@, ""@)
        } else {
            about("Failed to delete "@, name@, ""@)
        },
{
    if success {
        message_about("Deleted ", name, "")
    } else {
        message_about("Failed to delete ", name, "")
    }
}

/// The message after the active project was changed.
pub fn switched_message(name: &str) -> (message: String)
    ensures
        message@ == "Switched to "@ + name@,
{
    let mut message = "Switched to ".to_owned();
    message.push_str(name);
    message
}

/// The message after the page of a project was opened.
pub fn opened_message(url: &str) -> (message: String)
    ensures
        message@ == "Opened "@ + url@ + " in browser"@,
{
    let mut message = "Opened ".to_owned();
    message.push_str(url);
    message.push_str(" in browser");
    message
}

/// The width below which the column of names is never set.
pub const MIN_NAME_WIDTH: usize = 20;

/// Width of the column of names over the first `n` of them: the largest
/// display width, and no less than the minimum.
pub open spec fn name_width(names: Seq<Seq<char>>, n: nat) -> usize
    decreases n,
{
    if n == 0 || n > names.len() {
        MIN_NAME_WIDTH
    } else {
        let before = name_width(names, (n - 1) as nat);
        if display_width(names[n - 1]) > before {
            display_width(names[n - 1])
        } else {
            before
        }
    }
}

/// Width of the column of names: the largest display width among them,
/// and no less than the minimum.
pub fn name_column_width(names: &Vec<String>) -> (width: usize)
    ensures
        width == name_width(texts(names@), names@.len()),
{
    let mut width: usize = MIN_NAME_WIDTH;
    let mut i: usize = 0;
    while i < names.len()
        invariant
            i <= names.len(),
            width == name_width(texts(names@), i as nat),
        decreases names.len() - i,
    {
        let w = str_width(names[i].as_str());
        if w > width {
            width = w;
        }
        i += 1;
    }
    width
}

/// What stands for the description of a project that has none.
pub open spec fn description_or_dash(description: Option<Seq<char>>) -> Seq<char> {
    match description {
        Some(d) => if d.len() == 0 {
            "-"@
        } else {
            d
        },
        None => "-"@,
    }
}

/// The line of a project in the list: its name, padded to the width of the
/// column, two spaces, and its description or a dash.
pub open spec fn spec_project_row(
    name: Seq<char>,
    description: Option<Seq<char>>,
    width: usize,
) -> Seq<char> {
    padded(name, width as int) + "  "@ + description_or_dash(description)
}

/// The line of a project in the list.
pub fn project_row(name: &str, description: Option<&str>, width: usize) -> (line: String)
    ensures
        line@ == spec_project_row(name@, view_of(description), width),
{
    let mut line = pad_cell(name, width);
    line.push_str("  ");
    match description {
        Some(d) => if d.is_empty() {
            line.push_str("-");
        } else {
            line.push_str(d);
        },
        None => line.push_str("-"),
    }
    line
}

/// The line above the list of projects: how many there are, and where.
pub fn projects_found_message(count: usize, org_name: &str) -> (message: String)
    ensures
        message@ == decimal(count as nat) + " projects found in "@ + org_name@ + "\n"@,
{
    let mut message = decimal_text(count as u64);
    message.push_str(" projects found in ");
    message.push_str(org_name);
    message.push_str("\n");
    message
}

/// Whether `a` comes before `b` or equals it, byte by byte; a text comes
/// before the texts that it starts.
pub open spec fn bytes_le(a: Seq<u8>, b: Seq<u8>) -> bool
    decreases a.len(),
{
    if a.len() == 0 {
        true
    } else if b.len() == 0 {
        false
    } else if a[0] != b[0] {
        a[0] < b[0]
    } else {
        bytes_le(a.drop_first(), b.drop_first())
    }
}

/// Whether the names stand in the order of their bytes.
pub open spec fn in_order(names: Seq<Seq<char>>) -> bool {
    forall|i: int, j: int|
        0 <= i <= j < names.len() ==> bytes_le(
            encode_utf8(#[trigger] names[i]),
            encode_utf8(#[trigger] names[j]),
        )
}

/// `sort` on a list of strings: the same strings, in the order of their
/// bytes.
#[verifier::external_body]
fn sort_strings(names: &mut Vec<String>)
    ensures
        in_order(texts(final(names)@)),
        texts(final(names)@).to_multiset() == texts(old(names)@).to_multiset(),
{
    names.sort()
}

/// The names as they are offered for selection: in the order of their
/// bytes.
pub fn sorted_names(names: Vec<String>) -> (sorted: Vec<String>)
    ensures
        in_order(texts(sorted@)),
        texts(sorted@).to_multiset() == texts(names@).to_multiset(),
{
    let mut sorted = names;
    sort_strings(&mut sorted);
    sorted
}

} // verus!
