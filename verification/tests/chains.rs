use evmcrispr_api::chains::chains;

#[test]
fn chains_written_chains_read_back() {
    let list = chains("eezL1=1,https://rpc1,https://front1;eezL2=2,https://rpc2,https://front2");
    assert_eq!(list.len(), 2);
    assert_eq!(list[0].0, "eezL1");
    assert_eq!(list[0].1.chain_id, 1);
    assert_eq!(list[0].1.execution_rpc, "https://rpc1");
    assert_eq!(list[0].1.front, "https://front1");
    assert_eq!(list[1].0, "eezL2");
    assert_eq!(list[1].1.chain_id, 2);
    assert_eq!(list[1].1.execution_rpc, "https://rpc2");
    assert_eq!(list[1].1.front, "https://front2");
}

#[test]
fn chains_spaces_are_left_out() {
    let list = chains(" a = 7 , r , f ; ");
    assert_eq!(list.len(), 1);
    assert_eq!(list[0].0, "a");
    assert_eq!(list[0].1.chain_id, 7);
    assert_eq!(list[0].1.execution_rpc, "r");
    assert_eq!(list[0].1.front, "f");
}

#[test]
fn chains_other_entries_are_passed_over() {
    assert!(chains("").is_empty());
    assert!(chains("a").is_empty());
    assert!(chains("a=1,r").is_empty());
    assert!(chains("a=1,r,f,x").is_empty());
    assert!(chains("a=x,r,f").is_empty());
    let list = chains("a=1,r;b=2,r,f;;c=-3,r,f");
    assert_eq!(list.len(), 1);
    assert_eq!(list[0].0, "b");
}

#[test]
fn chains_key_ends_at_the_first_sign() {
    let list = chains("a=1,https://r?x=y,f");
    assert_eq!(list[0].0, "a");
    assert_eq!(list[0].1.execution_rpc, "https://r?x=y");
}
