use worker_pool::sandbox::create_image_args;
use worker_pool::sandbox::run_image_args;
use worker_pool::sandbox::select_output;
use worker_pool::text::InvalidUtf8;
use worker_pool::sandbox::Program;
use worker_pool::sandbox::Response;
use worker_pool::sandbox::RunPlan;

const ID: [u8; 16] = [
    0x93, 0x6d, 0xa0, 0x1f, 0x9a, 0xbd, 0x4d, 0x9d, 0x80, 0xc7, 0x02, 0xaf, 0x85, 0xc8, 0x22, 0xa8,
];

#[test]
fn image_is_named_in_lower_case_hex() {
    let plan = RunPlan::new("./dockers/py3", ID);
    assert_eq!(plan.image_name, "936da01f9abd4d9d80c702af85c822a8");
    assert_eq!(
        plan.build_args,
        vec!["image", "build", "./dockers/py3", "-t", "936da01f9abd4d9d80c702af85c822a8"]
    );
    assert_eq!(plan.run_args, vec!["run", "--rm", "936da01f9abd4d9d80c702af85c822a8"]);
}

#[test]
fn extreme_bytes_are_padded() {
    let plan = RunPlan::new("f", [0; 16]);
    assert_eq!(plan.image_name, "0".repeat(32));
    let plan = RunPlan::new("f", [0xff; 16]);
    assert_eq!(plan.image_name, "f".repeat(32));
    let plan = RunPlan::new("f", [0x0a; 16]);
    assert_eq!(plan.image_name, "0a".repeat(16));
}

#[test]
fn build_command_names_folder_and_tag() {
    assert_eq!(create_image_args("dir", "img"), vec!["image", "build", "dir", "-t", "img"]);
}

#[test]
fn run_command_removes_the_container() {
    assert_eq!(run_image_args("img"), vec!["run", "--rm", "img"]);
}

#[test]
fn success_answers_with_stdout() {
    assert_eq!(select_output(true, b"out".to_vec(), b"err".to_vec()), b"out".to_vec());
    assert_eq!(
        Response::from_output(true, b"42\n".to_vec(), b"warning".to_vec()),
        Ok(Response { result: "42\n".to_string() })
    );
}

#[test]
fn failure_answers_with_stderr() {
    assert_eq!(select_output(false, b"out".to_vec(), b"err".to_vec()), b"err".to_vec());
    assert_eq!(
        Response::from_output(false, b"42\n".to_vec(), b"Traceback".to_vec()),
        Ok(Response { result: "Traceback".to_string() })
    );
}

#[test]
fn output_is_decoded_as_utf8() {
    assert_eq!(
        Response::from_output(true, vec![0xe2, 0x82, 0xac, 0x31], Vec::new()),
        Ok(Response { result: "\u{20ac}1".to_string() })
    );
}

#[test]
fn output_that_is_not_text_is_refused() {
    assert_eq!(Response::from_output(true, vec![0xff, 0x31], Vec::new()), Err(InvalidUtf8));
    assert_eq!(Response::from_output(false, Vec::new(), vec![0xc3]), Err(InvalidUtf8));
    assert_eq!(
        Response::from_output(false, vec![0xff], b"ok".to_vec()),
        Ok(Response { result: "ok".to_string() })
    );
}

#[test]
fn program_holds_its_source() {
    let program = Program { source: "print(1)".to_string() };
    assert_eq!(program.source, "print(1)");
}
