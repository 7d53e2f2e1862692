use dexwatch::interface::{ContractInterface, FormatError, Operation, ParamType};

const SWAP_SIG: &[u8] = b"swapExactETHForTokens(uint256,address[],address,uint256)";

#[test]
fn parse_single_signature() {
    let ifc = ContractInterface::parse(SWAP_SIG).unwrap();
    assert_eq!(ifc.ops.len(), 1);
    let op = &ifc.ops[0];
    assert_eq!(op.name, b"swapExactETHForTokens".to_vec());
    assert_eq!(
        op.params,
        vec![
            ParamType::Uint256,
            ParamType::AddressArray,
            ParamType::Address,
            ParamType::Uint256
        ]
    );
    // the derived selector of this exact signature
    assert_eq!(op.selector, vec![0x7f, 0xf3, 0x6a, 0xb5]);
}

#[test]
fn parse_empty_interface() {
    let ifc = ContractInterface::parse(b"").unwrap();
    assert_eq!(ifc.ops.len(), 0);
}

#[test]
fn parse_multiple_lines() {
    let text = b"transfer(address,uint256)\nswapExactETHForTokens(uint256,address[],address,uint256)";
    let ifc = ContractInterface::parse(text).unwrap();
    assert_eq!(ifc.ops.len(), 2);
    // the well-known selector of transfer(address,uint256)
    assert_eq!(ifc.ops[0].selector, vec![0xa9, 0x05, 0x9c, 0xbb]);
    assert_eq!(ifc.find_op_idx(&[0x7f, 0xf3, 0x6a, 0xb5]), Some(1));
    assert_eq!(ifc.find_op_idx(&[0xa9, 0x05, 0x9c, 0xbb]), Some(0));
    assert_eq!(ifc.find_op_idx(&[0xde, 0xad, 0xbe, 0xef]), None);
}

#[test]
fn parse_rejects_bad_text() {
    // no parentheses
    assert_eq!(
        ContractInterface::parse(b"swapExactETHForTokens"),
        Err(FormatError::Syntax)
    );
    // unclosed parameter list
    assert_eq!(
        ContractInterface::parse(b"swap(uint256"),
        Err(FormatError::Syntax)
    );
    // unknown type keyword
    assert_eq!(
        ContractInterface::parse(b"swap(uint8)"),
        Err(FormatError::Syntax)
    );
    // empty name
    assert_eq!(
        ContractInterface::parse(b"(uint256)"),
        Err(FormatError::Syntax)
    );
    // dangling comma
    assert_eq!(
        ContractInterface::parse(b"swap(uint256,)"),
        Err(FormatError::Syntax)
    );
    // trailing newline leaves an empty last line
    assert_eq!(
        ContractInterface::parse(b"swap(uint256)\n"),
        Err(FormatError::Syntax)
    );
}

#[test]
fn parse_rejects_duplicate_selector() {
    let text = b"transfer(address,uint256)\ntransfer(address,uint256)";
    assert_eq!(
        ContractInterface::parse(text),
        Err(FormatError::DuplicateSelector)
    );
}

#[test]
fn interface_text_roundtrip() {
    let text = b"transfer(address,uint256)\nswapExactETHForTokens(uint256,address[],address,uint256)\nnoArgs()";
    let ifc = ContractInterface::parse(text).unwrap();
    assert_eq!(ifc.interface_text(), text.to_vec());
    let again = ContractInterface::parse(&ifc.interface_text()).unwrap();
    assert_eq!(again, ifc);
}

#[test]
fn selector_of_token_to_eth_swap() {
    // the operation whose canonical signature derives selector 0x18cbafe5
    let ifc = ContractInterface::parse(
        b"swapExactTokensForETH(uint256,uint256,address[],address,uint256)",
    )
    .unwrap();
    assert_eq!(ifc.ops[0].selector, vec![0x18, 0xcb, 0xaf, 0xe5]);
}

#[test]
fn operation_new_matches_parse() {
    let built = Operation::new(
        b"transfer".to_vec(),
        vec![ParamType::Address, ParamType::Uint256],
    );
    assert_eq!(built.selector, vec![0xa9, 0x05, 0x9c, 0xbb]);
    let parsed = ContractInterface::parse(b"transfer(address,uint256)").unwrap();
    assert_eq!(parsed.ops[0], built);
}
