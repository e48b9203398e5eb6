use vstd::prelude::*;

use crate::text::{
    all_digits, digit_char, digit_value, digits_value, i32_value, i64_text, int_text, int_value,
    is_space, nat_text, parse_i32, trim, trimmed, u64_text,
};

verus! {

/// `a` followed by `b`.
pub fn join2(a: &str, b: &str) -> (r: String)
    ensures
        r@ == a@ + b@,
{
    let mut s = String::from_str(a);
    s.append(b);
    s
}

/// `a`, `b` and `c` one after the other.
pub fn join3(a: &str, b: &str, c: &str) -> (r: String)
    ensures
        r@ == a@ + b@ + c@,
{
    let mut s = String::from_str(a);
    s.append(b);
    s.append(c);
    s
}

/// Directory under which all of a project's deployments live.
pub open spec fn project_root_text(name: Seq<char>) -> Seq<char> {
    "projects/"@ + name
}

/// Working directory of one deployment: `projects/<name>/<id>`.
pub open spec fn deployment_dir_text(name: Seq<char>, id: int) -> Seq<char> {
    "projects/"@ + name + "/"@ + int_text(id)
}

/// The pid marker inside a deployment's directory.
pub open spec fn pid_file_text(dir: Seq<char>) -> Seq<char> {
    dir + "/pid"@
}

/// The environment file inside a deployment's directory.
pub open spec fn env_file_text(dir: Seq<char>) -> Seq<char> {
    dir + "/.env"@
}

pub fn project_root(name: &str) -> (r: String)
    ensures
        r@ == project_root_text(name@),
{
    join2("projects/", name)
}

pub fn deployment_dir(name: &str, id: i64) -> (r: String)
    ensures
        r@ == deployment_dir_text(name@, id as int),
{
    let num = i64_text(id);
    let mut s = join3("projects/", name, "/");
    s.append(num.as_str());
    s
}

pub fn pid_file(dir: &str) -> (r: String)
    ensures
        r@ == pid_file_text(dir@),
{
    join2(dir, "/pid")
}

pub fn env_file(dir: &str) -> (r: String)
    ensures
        r@ == env_file_text(dir@),
{
    join2(dir, "/.env")
}

/// What the pid marker holds for process `pid`: its decimal number.
pub fn pid_marker(pid: u32) -> (r: String)
    ensures
        r@ == nat_text(pid as nat),
{
    u64_text(pid as u64)
}

/// Where the pid marker of deployment `id` of project `name` lives.
pub fn marker_path(name: &str, id: i64) -> (r: String)
    ensures
        r@ == pid_file_text(deployment_dir_text(name@, id as int)),
{
    let dir = deployment_dir(name, id);
    pid_file(dir.as_str())
}

/// The process id a pid marker records: its text, trimmed, read as an `i32`.
pub open spec fn marker_pid_value(content: Seq<char>) -> Option<i32> {
    i32_value(trimmed(content))
}

pub fn marker_pid(content: &str) -> (r: Option<i32>)
    ensures
        r == marker_pid_value(content@),
{
    parse_i32(trim(content))
}

proof fn lemma_nat_text_digits(n: nat)
    ensures
        all_digits(nat_text(n)),
        digits_value(nat_text(n)) == n,
        !is_space(nat_text(n)[0]),
        !is_space(nat_text(n).last()),
        nat_text(n)[0] != '-' && nat_text(n)[0] != '+',
    decreases n,
{
    let d = n % 10;
    assert(digit_value(digit_char(d)) == d);
    assert(nat_text(n).last() == digit_char(d));
    assert(digits_value(nat_text(n)) == digits_value(nat_text(n).drop_last()) * 10 + digit_value(
        nat_text(n).last(),
    ));
    if n >= 10 {
        lemma_nat_text_digits(n / 10);
        let s = nat_text(n / 10);
        assert(nat_text(n).drop_last() =~= s);
        assert(nat_text(n)[0] == s[0]);
        assert((n / 10) * 10 + n % 10 == n);
    } else {
        assert(nat_text(n).drop_last() =~= Seq::<char>::empty());
    }
}

/// A pid marker written for process `pid` reads back as `pid`, for every
/// process id that an `i32` holds.
pub proof fn lemma_marker_round_trip(pid: u32)
    requires
        pid <= i32::MAX,
    ensures
        marker_pid_value(nat_text(pid as nat)) == Some(pid as i32),
{
    let s = nat_text(pid as nat);
    lemma_nat_text_digits(pid as nat);
    assert(trimmed(s) == s);
    assert(int_value(s) == Some(pid as int));
}

/// First log line of a newly requested deployment.
pub open spec fn started_text() -> Seq<char> {
    "Starting deployment...\n"@
}

/// Log line appended when a deployment is restarted.
pub open spec fn restarted_text() -> Seq<char> {
    "Restarting deployment...\n"@
}

pub open spec fn cloning_text(repo: Seq<char>, dir: Seq<char>) -> Seq<char> {
    "Cloning "@ + repo + " into "@ + dir + "\n"@
}

/// A failure, or a line the run process wrote to standard error.
pub open spec fn error_text(msg: Seq<char>) -> Seq<char> {
    "Error: "@ + msg + "\n"@
}

pub open spec fn env_created_text() -> Seq<char> {
    "Created .env file\n"@
}

pub open spec fn install_text(cmd: Seq<char>) -> Seq<char> {
    "Running install command: "@ + cmd + "\n"@
}

pub open spec fn build_text(cmd: Seq<char>) -> Seq<char> {
    "Running build command: "@ + cmd + "\n"@
}

pub open spec fn start_service_text(cmd: Seq<char>) -> Seq<char> {
    "Starting service with: "@ + cmd + "\n"@
}

/// A line the run process wrote to standard output.
pub open spec fn output_text(line: Seq<char>) -> Seq<char> {
    line + "\n"@
}

pub open spec fn terminated_text(how: Seq<char>) -> Seq<char> {
    "Process terminated: "@ + how + "\n"@
}

/// How a run process ended: its exit status as the system describes it, or
/// the error met while waiting for it.
pub open spec fn exit_text(outcome: Result<Seq<char>, Seq<char>>) -> Seq<char> {
    match outcome {
        Ok(status) => "Process exited with status: "@ + status,
        Err(e) => "Process error: "@ + e,
    }
}

pub open spec fn missing_run_text() -> Seq<char> {
    "Run command is required"@
}

pub fn started_msg() -> (r: String)
    ensures
        r@ == started_text(),
{
    String::from_str("Starting deployment...\n")
}

pub fn restarted_msg() -> (r: String)
    ensures
        r@ == restarted_text(),
{
    String::from_str("Restarting deployment...\n")
}

pub fn cloning_msg(repo: &str, dir: &str) -> (r: String)
    ensures
        r@ == cloning_text(repo@, dir@),
{
    let mut s = join3("Cloning ", repo, " into ");
    s.append(dir);
    s.append("\n");
    s
}

pub fn error_msg(msg: &str) -> (r: String)
    ensures
        r@ == error_text(msg@),
{
    join3("Error: ", msg, "\n")
}

pub fn env_created_msg() -> (r: String)
    ensures
        r@ == env_created_text(),
{
    String::from_str("Created .env file\n")
}

pub fn install_msg(cmd: &str) -> (r: String)
    ensures
        r@ == install_text(cmd@),
{
    join3("Running install command: ", cmd, "\n")
}

pub fn build_msg(cmd: &str) -> (r: String)
    ensures
        r@ == build_text(cmd@),
{
    join3("Running build command: ", cmd, "\n")
}

pub fn start_service_msg(cmd: &str) -> (r: String)
    ensures
        r@ == start_service_text(cmd@),
{
    join3("Starting service with: ", cmd, "\n")
}

pub fn output_msg(line: &str) -> (r: String)
    ensures
        r@ == output_text(line@),
{
    join2(line, "\n")
}

pub fn terminated_msg(how: &str) -> (r: String)
    ensures
        r@ == terminated_text(how@),
{
    join3("Process terminated: ", how, "\n")
}

pub fn exit_msg(outcome: &Result<String, String>) -> (r: String)
    ensures
        r@ == exit_text(match outcome {
            Ok(s) => Ok(s@),
            Err(e) => Err(e@),
        }),
{
    match outcome {
        Ok(status) => join2("Process exited with status: ", status.as_str()),
        Err(e) => join2("Process error: ", e.as_str()),
    }
}

pub fn missing_run_msg() -> (r: String)
    ensures
        r@ == missing_run_text(),
{
    String::from_str("Run command is required")
}

} // verus!
