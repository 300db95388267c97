//! Running a submitted program in a throw-away container: the image's
//! name, the two container commands, and the answer made of what the
//! container printed.

use vstd::prelude::*;
use vstd::utf8::decode_utf8;
use vstd::utf8::valid_utf8;

use crate::text::text_of;
use crate::text::InvalidUtf8;

verus! {

/// A program handed in for a run.
#[derive(Debug, PartialEq, Eq)]
pub struct Program {
    pub source: String,
}

/// What a run printed.
#[derive(Debug, PartialEq, Eq)]
pub struct Response {
    pub result: String,
}

/// The lower-case hexadecimal digit for `nibble`.
pub open spec fn hex_digit(nibble: u8) -> char {
    if nibble < 10 {
        (0x30 + nibble) as char
    } else {
        (0x61 + nibble - 10) as char
    }
}

/// `bytes` written as lower-case hexadecimal digits, two per byte, high
/// half first, with nothing in between.
pub open spec fn lower_hex(bytes: Seq<u8>) -> Seq<char> {
    Seq::new(
        2 * bytes.len(),
        |i: int|
            if i % 2 == 0 {
                hex_digit(bytes[i / 2] / 16)
            } else {
                hex_digit(bytes[i / 2] % 16)
            },
    )
}

/// The text of each string of `strings`.
pub open spec fn texts(strings: Seq<String>) -> Seq<Seq<char>> {
    strings.map_values(|s: String| s@)
}

/// `uuid::Uuid::from_bytes`, `to_simple` and the `Display` of the result:
/// the sixteen bytes of an identifier as 32 lower-case hexadecimal digits
/// without hyphens.
#[verifier::external_body]
fn simple_format(id: [u8; 16]) -> (text: String)
    ensures
        text@ == lower_hex(id@),
{
    uuid::Uuid::from_bytes(id).to_simple().to_string()
}

/// Arguments of the container command that builds the image named
/// `image_name` from `folder`.
pub fn create_image_args(folder: &str, image_name: &str) -> (args: Vec<String>)
    ensures
        texts(args@) == seq!["image"@, "build"@, folder@, "-t"@, image_name@],
{
    let mut args: Vec<String> = Vec::new();
    args.push("image".to_owned());
    args.push("build".to_owned());
    args.push(folder.to_owned());
    args.push("-t".to_owned());
    args.push(image_name.to_owned());
    assert(texts(args@) =~= seq!["image"@, "build"@, folder@, "-t"@, image_name@]);
    args
}

/// Arguments of the container command that runs the image named
/// `image_name` once and removes the container afterwards.
pub fn run_image_args(image_name: &str) -> (args: Vec<String>)
    ensures
        texts(args@) == seq!["run"@, "--rm"@, image_name@],
{
    let mut args: Vec<String> = Vec::new();
    args.push("run".to_owned());
    args.push("--rm".to_owned());
    args.push(image_name.to_owned());
    assert(texts(args@) =~= seq!["run"@, "--rm"@, image_name@]);
    args
}

/// What one run needs: a name for its image and the two commands.
#[derive(Debug, PartialEq, Eq)]
pub struct RunPlan {
    pub image_name: String,
    pub build_args: Vec<String>,
    pub run_args: Vec<String>,
}

impl RunPlan {
    /// The plan of the run identified by `id`, with its image built from
    /// `folder`. The image is named by `id` in lower-case hexadecimal.
    pub fn new(folder: &str, id: [u8; 16]) -> (plan: RunPlan)
        ensures
            plan.image_name@ == lower_hex(id@),
            texts(plan.build_args@) == seq![
                "image"@,
                "build"@,
                folder@,
                "-t"@,
                lower_hex(id@),
            ],
            texts(plan.run_args@) == seq!["run"@, "--rm"@, lower_hex(id@)],
    {
        let image_name = simple_format(id);
        let build_args = create_image_args(folder, image_name.as_str());
        let run_args = run_image_args(image_name.as_str());
        RunPlan { image_name, build_args, run_args }
    }
}

/// The stream that answers a run: what it printed if it succeeded, what
/// it complained of if it failed.
pub fn select_output(success: bool, stdout: Vec<u8>, stderr: Vec<u8>) -> (out: Vec<u8>)
    ensures
        out == if success {
            stdout
        } else {
            stderr
        },
{
    if success {
        stdout
    } else {
        stderr
    }
}

impl Response {
    /// The answer to a run that ended with `success` and printed `stdout`
    /// and `stderr`: the text of the stream that `select_output` picks.
    /// Output that is not UTF-8 is refused.
    pub fn from_output(success: bool, stdout: Vec<u8>, stderr: Vec<u8>) -> (response: Result<
        Response,
        InvalidUtf8,
    >)
        ensures
            ({
                let out = if success {
                    stdout@
                } else {
                    stderr@
                };
                match response {
                    Ok(r) => valid_utf8(out) && r.result@ == decode_utf8(out),
                    Err(_) => !valid_utf8(out),
                }
            }),
    {
        match text_of(select_output(success, stdout, stderr)) {
            Ok(result) => Ok(Response { result }),
            Err(refused) => Err(refused),
        }
    }
}

} // verus!
