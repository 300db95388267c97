use worker_pool::calc::get_op_index;
use worker_pool::calc::read_request;
use worker_pool::calc::split_expression;
use worker_pool::calc::Operands;
use worker_pool::calc::Request;
use worker_pool::calc::RequestError;

#[test]
fn plus_is_found() {
    assert_eq!(get_op_index("1+2".to_string()), Ok(1));
    assert_eq!(get_op_index("12.5+7".to_string()), Ok(4));
}

#[test]
fn minus_is_found_when_there_is_no_plus() {
    assert_eq!(get_op_index("10-3".to_string()), Ok(2));
    assert_eq!(get_op_index("-3".to_string()), Ok(0));
}

#[test]
fn plus_wins_over_an_earlier_minus() {
    assert_eq!(get_op_index("-1+2".to_string()), Ok(2));
    assert_eq!(get_op_index("1-2+3+4".to_string()), Ok(3));
}

#[test]
fn first_of_several_is_taken() {
    assert_eq!(get_op_index("1+2+3".to_string()), Ok(1));
    assert_eq!(get_op_index("1-2-3".to_string()), Ok(1));
}

#[test]
fn expression_without_operator_is_refused() {
    assert_eq!(get_op_index("12".to_string()), Err("Operator not found in expression!"));
    assert_eq!(get_op_index(String::new()), Err("Operator not found in expression!"));
    assert_eq!(get_op_index("3*4".to_string()), Err("Operator not found in expression!"));
}

#[test]
fn index_counts_bytes() {
    assert_eq!(get_op_index("\u{e9}+1".to_string()), Ok(2));
    assert_eq!(get_op_index("\u{20ac}\u{20ac}-1".to_string()), Ok(6));
}

#[test]
fn expression_is_cut_at_its_operator() {
    assert_eq!(
        split_expression("12.5+7"),
        Ok(Operands { left: "12.5", operator: '+', right: "7" })
    );
    assert_eq!(split_expression("10-3"), Ok(Operands { left: "10", operator: '-', right: "3" }));
}

#[test]
fn cut_prefers_plus_and_takes_the_first() {
    assert_eq!(split_expression("-1+2"), Ok(Operands { left: "-1", operator: '+', right: "2" }));
    assert_eq!(
        split_expression("1+2+3"),
        Ok(Operands { left: "1", operator: '+', right: "2+3" })
    );
    assert_eq!(
        split_expression("1-2-3"),
        Ok(Operands { left: "1", operator: '-', right: "2-3" })
    );
}

#[test]
fn cut_may_leave_a_side_empty() {
    assert_eq!(split_expression("-3"), Ok(Operands { left: "", operator: '-', right: "3" }));
    assert_eq!(split_expression("3+"), Ok(Operands { left: "3", operator: '+', right: "" }));
    assert_eq!(split_expression("+"), Ok(Operands { left: "", operator: '+', right: "" }));
}

#[test]
fn cut_keeps_text_beyond_ascii_whole() {
    assert_eq!(
        split_expression("\u{20ac}1-\u{e9}"),
        Ok(Operands { left: "\u{20ac}1", operator: '-', right: "\u{e9}" })
    );
}

#[test]
fn cut_refuses_an_expression_without_operator() {
    assert_eq!(split_expression("12"), Err("Operator not found in expression!"));
    assert_eq!(split_expression(""), Err("Operator not found in expression!"));
}

#[test]
fn datagram_loses_its_last_byte() {
    assert_eq!(read_request(b"1+2\n"), Ok(Request::Evaluate("1+2".to_string())));
    assert_eq!(read_request(b"1+2"), Ok(Request::Evaluate("1+".to_string())));
    assert_eq!(read_request(b"\n"), Ok(Request::Evaluate(String::new())));
}

#[test]
fn exit_ends_the_session() {
    assert_eq!(read_request(b"exit\n"), Ok(Request::Exit));
    assert_eq!(read_request(b"exit now\n"), Ok(Request::Exit));
    assert_eq!(read_request(b"exit"), Ok(Request::Evaluate("exi".to_string())));
    assert_eq!(read_request(b" exit\n"), Ok(Request::Evaluate(" exit".to_string())));
    assert_eq!(read_request(b"Exit\n"), Ok(Request::Evaluate("Exit".to_string())));
}

#[test]
fn datagram_without_bytes_or_text_is_refused() {
    assert_eq!(read_request(b""), Err(RequestError::Empty));
    assert_eq!(read_request(&[0xff, 0x31, 0x0a]), Err(RequestError::NotText));
    assert_eq!(read_request(&[0xe2, 0x82, 0xac]), Err(RequestError::NotText));
    assert_eq!(read_request(&[0xe2, 0x82, 0xac, 0x0a]), Ok(Request::Evaluate("\u{20ac}".to_string())));
}
