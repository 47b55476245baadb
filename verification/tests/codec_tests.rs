use alloy_dyn_abi::DynSolValue;
use alloy_primitives::U256;
use optimal_allocation::blended::AllocationOutputs;
use optimal_allocation::codec::{decode_input, encode_output, process};
use optimal_allocation::num::Uint256;
use optimal_allocation::params::{Address, Position};

fn u(x: u64) -> Uint256 {
    Uint256 { limb0: x, limb1: 0, limb2: 0, limb3: 0 }
}

fn addr(x: u64) -> Address {
    Address { lo: x, mid: 0, hi: 0 }
}

fn pos(a: u64, d: u64) -> Position {
    Position { strategy: addr(a), debt: u(d) }
}

fn alloy_addr(x: u64) -> alloy_primitives::Address {
    let mut b = [0u8; 20];
    b[12..].copy_from_slice(&x.to_be_bytes());
    alloy_primitives::Address::from(b)
}

fn uint(x: u64) -> DynSolValue {
    DynSolValue::Uint(U256::from(x), 256)
}

fn position_value(a: u64, d: u64) -> DynSolValue {
    DynSolValue::Tuple(vec![DynSolValue::Address(alloy_addr(a)), uint(d)])
}

fn strategy_value(current: u64, max: u64) -> DynSolValue {
    DynSolValue::Tuple(vec![uint(0), uint(0), uint(current), uint(max)])
}

fn paused_silo_value(rate: u64) -> DynSolValue {
    let mut fields: Vec<DynSolValue> = Vec::new();
    fields.push(uint(0)); // cur_timestamp
    fields.push(uint(0)); // last_timestamp
    fields.push(uint(rate)); // rate_per_sec
    for _ in 0..13 {
        fields.push(uint(0));
    }
    fields.push(DynSolValue::Bool(true));
    DynSolValue::Tuple(fields)
}

fn input_bytes(
    c: u64,
    a0: u64,
    a: u64,
    initial: Vec<DynSolValue>,
    strats: Vec<DynSolValue>,
    silos: Vec<DynSolValue>,
) -> Vec<u8> {
    DynSolValue::Tuple(vec![
        uint(c),
        uint(a0),
        uint(a),
        DynSolValue::Array(initial),
        DynSolValue::Array(strats),
        DynSolValue::Array(silos),
    ])
    .abi_encode_params()
}

fn output_bytes(allocations: Vec<DynSolValue>, new_apr: u64, current_apr: u64, success: bool) -> Vec<u8> {
    DynSolValue::Tuple(vec![
        DynSolValue::Array(allocations),
        uint(new_apr),
        uint(current_apr),
        DynSolValue::Bool(success),
    ])
    .abi_encode_params()
}

const APR_2E13: u64 = 63113904;

#[test]
fn encoder_matches_reference_encoding() {
    let out = AllocationOutputs {
        allocations: vec![pos(11, 0), pos(10, 100)],
        new_apr: APR_2E13,
        current_apr: 0,
        success: true,
    };
    let ours = encode_output(&out);
    let reference = output_bytes(
        vec![position_value(11, 0), position_value(10, 100)],
        APR_2E13,
        0,
        true,
    );
    assert_eq!(ours, reference);
}

#[test]
fn decoder_reads_reference_encoding() {
    let bytes = input_bytes(
        1,
        0,
        100,
        vec![position_value(10, 0), position_value(11, 7)],
        vec![strategy_value(0, 1_000_000), strategy_value(3, 1_000_000)],
        vec![
            paused_silo_value(20_000_000_000_000),
            paused_silo_value(10_000_000_000_000),
        ],
    );
    let inp = decode_input(&bytes).unwrap();
    assert_eq!(inp.chunk_count, u(1));
    assert_eq!(inp.total_initial_amount, u(0));
    assert_eq!(inp.total_available_amount, u(100));
    assert_eq!(inp.initial_datas, vec![pos(10, 0), pos(11, 7)]);
    assert_eq!(inp.strategy_datas[1].current_debt, u(3));
    assert_eq!(inp.sturdy_datas[0].rate_per_sec, u(20_000_000_000_000));
    assert!(inp.sturdy_datas[0].is_interest_paused);
}

#[test]
fn process_single_silo_win() {
    let bytes = input_bytes(
        1,
        0,
        100,
        vec![position_value(10, 0), position_value(11, 0)],
        vec![strategy_value(0, 1_000_000), strategy_value(0, 1_000_000)],
        vec![
            paused_silo_value(20_000_000_000_000),
            paused_silo_value(10_000_000_000_000),
        ],
    );
    let journal = process(&bytes).unwrap();
    let expected = output_bytes(
        vec![position_value(11, 0), position_value(10, 100)],
        APR_2E13,
        0,
        true,
    );
    assert_eq!(journal, expected);
}

#[test]
fn process_no_op_commits_empty_plan() {
    let bytes = input_bytes(
        4,
        1000,
        1000,
        vec![position_value(10, 500), position_value(11, 500)],
        vec![strategy_value(500, 1_000_000), strategy_value(500, 1_000_000)],
        vec![
            paused_silo_value(20_000_000_000_000),
            paused_silo_value(10_000_000_000_000),
        ],
    );
    let journal = process(&bytes).unwrap();
    let expected = output_bytes(vec![], 0, 0, false);
    assert_eq!(journal, expected);
}

#[test]
fn process_is_deterministic() {
    let bytes = input_bytes(
        2,
        0,
        100,
        vec![position_value(10, 0), position_value(11, 0)],
        vec![strategy_value(0, 40), strategy_value(0, 1_000_000)],
        vec![
            paused_silo_value(20_000_000_000_000),
            paused_silo_value(10_000_000_000_000),
        ],
    );
    let first = process(&bytes).unwrap();
    let second = process(&bytes).unwrap();
    assert_eq!(first, second);
}

#[test]
fn truncated_input_is_rejected() {
    let bytes = input_bytes(
        1,
        0,
        100,
        vec![position_value(10, 0)],
        vec![strategy_value(0, 1_000_000)],
        vec![paused_silo_value(20_000_000_000_000)],
    );
    let mut cut = bytes.clone();
    cut.truncate(bytes.len() - 1);
    assert!(decode_input(&cut).is_none());
    assert!(process(&cut).is_none());
    assert!(decode_input(&Vec::new()).is_none());
}

#[test]
fn dirty_bool_word_is_rejected() {
    let bytes = input_bytes(
        1,
        0,
        100,
        vec![position_value(10, 0)],
        vec![strategy_value(0, 1_000_000)],
        vec![paused_silo_value(20_000_000_000_000)],
    );
    // the boolean word is the last word of the buffer; make it 2
    let mut dirty = bytes.clone();
    let n = dirty.len();
    dirty[n - 1] = 2;
    assert!(decode_input(&bytes).is_some());
    assert!(decode_input(&dirty).is_none());
}

#[test]
fn dirty_address_word_is_rejected() {
    let bytes = input_bytes(
        1,
        0,
        100,
        vec![position_value(10, 0)],
        vec![strategy_value(0, 1_000_000)],
        vec![paused_silo_value(20_000_000_000_000)],
    );
    // the first position's strategy word starts right after the array length
    // word of the initial array at offset 192; poison one of its twelve
    // leading pad bytes
    let mut dirty = bytes.clone();
    dirty[192 + 32] = 1;
    assert!(decode_input(&bytes).is_some());
    assert!(decode_input(&dirty).is_none());
}

#[test]
fn process_faults_leave_no_journal() {
    // chunk count zero is a division by zero: fatal
    let bytes = input_bytes(
        0,
        0,
        100,
        vec![position_value(10, 0)],
        vec![strategy_value(0, 1_000_000)],
        vec![paused_silo_value(20_000_000_000_000)],
    );
    assert!(process(&bytes).is_none());
    // an available amount below the initial amount is fatal
    let bytes2 = input_bytes(
        1,
        200,
        100,
        vec![position_value(10, 0)],
        vec![strategy_value(0, 1_000_000)],
        vec![paused_silo_value(20_000_000_000_000)],
    );
    assert!(process(&bytes2).is_none());
    // fewer silo entries than positions is fatal once work is owed
    let bytes3 = input_bytes(
        1,
        0,
        100,
        vec![position_value(10, 0), position_value(11, 0)],
        vec![strategy_value(0, 1_000_000), strategy_value(0, 1_000_000)],
        vec![paused_silo_value(20_000_000_000_000)],
    );
    assert!(process(&bytes3).is_none());
}

#[test]
fn wide_words_round_trip() {
    // a debt above 2^64 exercises every limb through decode and encode
    let big = U256::from(123_456_789_u64)
        * U256::from(1_000_000_000_000_000_000_u64)
        * U256::from(1_000_000_000_000_000_000_u64);
    let bytes = input_bytes(
        4,
        1000,
        1000,
        vec![DynSolValue::Tuple(vec![DynSolValue::Address(alloy_addr(10)), DynSolValue::Uint(big, 256)])],
        vec![strategy_value(0, 1_000_000)],
        vec![paused_silo_value(20_000_000_000_000)],
    );
    let inp = decode_input(&bytes).unwrap();
    let l = big.into_limbs();
    assert_eq!(
        inp.initial_datas[0].debt,
        Uint256 { limb0: l[0], limb1: l[1], limb2: l[2], limb3: l[3] }
    );
}
