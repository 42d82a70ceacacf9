use apple_sep::sbio::{encode_sbio_raw, opcode, Call};

#[test]
fn words_carry_endpoint_marker_and_operation() {
    assert_eq!(encode_sbio_raw(0x73, 0).msg0, 0x73_fc08);
    assert_eq!(opcode(&Call::ListIdentities), 0x7a);
}
