use sandstorm::error::TraceError;
use sandstorm::field::Felt;
use sandstorm::pipeline::{
    fri_layer_sizes, is_power_of_two, split_composition, Absorption, ProofPlan, ProverSession, Stage,
};
use sandstorm::program::{check_modulus, public_memory_entry, CompiledProgram};

const STARK_PRIME: &str = "0x800000000000011000000000000000000000000000000000000000000000001";

fn program(data: &[&str], prime: &str) -> CompiledProgram {
    CompiledProgram::new(data.iter().map(|s| s.to_string()).collect(), prime.to_string())
}

#[test]
fn validate_accepts_field_modulus_in_any_case() {
    assert_eq!(program(&[], STARK_PRIME).validate(), Ok(()));
    assert_eq!(program(&[], &STARK_PRIME.to_uppercase()).validate(), Ok(()));
    assert_eq!(
        program(&[], "0x800000000000011000000000000000000000000000000000000000000000003").validate(),
        Err(TraceError::ModulusMismatch)
    );
    assert_eq!(program(&[], "17").validate(), Err(TraceError::ModulusMismatch));
}

#[test]
fn check_modulus_compares_exactly() {
    assert_eq!(check_modulus(&"0xab".to_string(), &"0xab".to_string()), Ok(()));
    assert_eq!(check_modulus(&"0xAB".to_string(), &"0xab".to_string()), Err(TraceError::ModulusMismatch));
}

#[test]
fn public_memory_starts_at_address_one() {
    let p = program(&["0x40780017fff7fff", "3", "0x10"], STARK_PRIME);
    let m = p.get_public_memory().unwrap();
    assert_eq!(m.len(), 3);
    assert_eq!(m[0].0, 1);
    assert_eq!(m[0].1.limbs, [0x40780017fff7fff, 0, 0, 0]);
    assert_eq!((m[1].0, m[1].1.limbs), (2, [3, 0, 0, 0]));
    assert_eq!((m[2].0, m[2].1.limbs), (3, [16, 0, 0, 0]));
}

#[test]
fn public_memory_rejects_bad_items() {
    assert_eq!(program(&["1", "xyz"], STARK_PRIME).get_public_memory().unwrap_err(), TraceError::MalformedInput);
    // the modulus itself is no field element
    let modulus_decimal = "3618502788666131213697322783095070105623107215331596699973092056135872020481";
    assert_eq!(program(&[modulus_decimal], STARK_PRIME).get_public_memory().unwrap_err(), TraceError::MalformedInput);
    assert!(program(&[], STARK_PRIME).get_public_memory().unwrap().is_empty());
}

#[test]
fn public_memory_entry_of_parsed_value() {
    let e = public_memory_entry(4, Some([9, 0, 0, 0])).unwrap();
    assert_eq!((e.0, e.1.limbs), (5, [9, 0, 0, 0]));
    assert_eq!(public_memory_entry(0, None).unwrap_err(), TraceError::MalformedInput);
    assert_eq!(public_memory_entry(0, Some([1, 0, 0, 0x0800_0000_0000_0011])).unwrap_err(), TraceError::MalformedInput);
}

#[test]
fn padding_follows_public_memory() {
    let (address, value) = program(&["1", "2", "3"], STARK_PRIME).get_padding_address_and_value();
    assert_eq!(address, 4);
    assert_eq!(value.limbs, [4, 0, 0, 0]);
    let (address, value) = program(&[], STARK_PRIME).get_padding_address_and_value();
    assert_eq!((address, value.limbs), (1, [1, 0, 0, 0]));
}

#[test]
fn powers_of_two() {
    assert!(is_power_of_two(1));
    assert!(is_power_of_two(2));
    assert!(is_power_of_two(1 << 20));
    assert!(!is_power_of_two(0));
    assert!(!is_power_of_two(6));
}

#[test]
fn proof_plan_checks_shape() {
    let p = ProofPlan::new(2, 31, 0, 31, 0, 4, 2, 2, 1).unwrap();
    assert_eq!(p.lde_domain_size, 8);
    assert_eq!(ProofPlan::new(3, 31, 0, 31, 0, 4, 2, 2, 1).unwrap_err(), TraceError::DimensionMismatch);
    assert_eq!(ProofPlan::new(1, 31, 0, 31, 0, 4, 2, 2, 1).unwrap_err(), TraceError::DimensionMismatch);
    assert_eq!(ProofPlan::new(4, 30, 0, 31, 0, 4, 2, 2, 1).unwrap_err(), TraceError::DimensionMismatch);
    assert_eq!(ProofPlan::new(4, 31, 1, 31, 0, 4, 2, 2, 1).unwrap_err(), TraceError::DimensionMismatch);
    assert_eq!(ProofPlan::new(4, 31, 0, 31, 0, 3, 2, 2, 1).unwrap_err(), TraceError::DimensionMismatch);
    assert_eq!(ProofPlan::new(1 << 40, 31, 0, 31, 0, 1 << 30, 2, 2, 1).unwrap_err(), TraceError::DimensionMismatch);
}

#[test]
fn composition_split_interleaves_coefficients() {
    let coeffs: Vec<Felt> = (0..6u64).map(Felt::from_u64).collect();
    let cols = split_composition(&coeffs, 2).unwrap();
    assert_eq!(cols.len(), 2);
    let col0: Vec<u64> = cols[0].iter().map(|f| f.limbs[0]).collect();
    let col1: Vec<u64> = cols[1].iter().map(|f| f.limbs[0]).collect();
    assert_eq!(col0, vec![0, 2, 4]);
    assert_eq!(col1, vec![1, 3, 5]);
    assert_eq!(split_composition(&coeffs, 4).unwrap_err(), TraceError::DimensionMismatch);
    assert_eq!(split_composition(&coeffs, 0).unwrap_err(), TraceError::DimensionMismatch);
}

#[test]
fn fri_layers_fold_down_to_remainder() {
    assert_eq!(fri_layer_sizes(64, 2, 8), vec![64, 32, 16]);
    assert_eq!(fri_layer_sizes(64, 4, 8), vec![64, 16]);
    assert_eq!(fri_layer_sizes(8, 2, 8), Vec::<usize>::new());
}

#[test]
fn stages_run_in_order() {
    let mut s = Stage::Initialize;
    let mut seen = vec![s];
    while s != Stage::Done {
        s = s.next(false);
        seen.push(s);
    }
    assert_eq!(seen.len(), 11);
    assert!(!seen.contains(&Stage::ExtensionCommit));
    assert_eq!(Stage::ChallengeDraw.next(true), Stage::ExtensionCommit);
    assert_eq!(Stage::Done.next(true), Stage::Done);
}

#[test]
fn session_absorbs_in_stage_order() {
    let plan = ProofPlan::new(2, 31, 0, 31, 0, 16, 2, 2, 8).unwrap();
    let mut s = ProverSession::new(plan);
    assert_eq!(s.stage, Stage::BaseCommit);
    assert_eq!(s.fri_layers, 2);
    assert_eq!(s.commit_base(30), Err(TraceError::DimensionMismatch));
    assert_eq!(s.stage, Stage::BaseCommit);
    assert_eq!(s.commit_base(31), Ok(()));
    s.draw_challenges();
    assert_eq!(s.stage, Stage::ConstraintComposition);
    assert_eq!(s.commit_composition(3), Err(TraceError::DimensionMismatch));
    assert_eq!(s.commit_composition(2), Ok(()));
    s.send_ood_evaluations();
    s.compose_deep();
    while s.fri_committed < s.fri_layers {
        s.commit_fri_layer();
    }
    s.finish_fri();
    s.absorb_nonce();
    s.open_queries();
    s.assemble();
    assert_eq!(s.stage, Stage::Done);
    assert_eq!(
        s.absorbed,
        vec![
            Absorption::BaseRoot,
            Absorption::CompositionRoot,
            Absorption::OodEvaluations,
            Absorption::FriLayerRoot,
            Absorption::FriLayerRoot,
            Absorption::Nonce,
        ]
    );
}

#[test]
fn session_with_extension_columns() {
    let plan = ProofPlan::new(4, 31, 3, 31, 3, 4, 1, 2, 16).unwrap();
    let mut s = ProverSession::new(plan);
    assert_eq!(s.fri_layers, 0);
    s.commit_base(31).unwrap();
    s.draw_challenges();
    assert_eq!(s.stage, Stage::ExtensionCommit);
    assert_eq!(s.commit_extension(2), Err(TraceError::DimensionMismatch));
    s.commit_extension(3).unwrap();
    assert_eq!(s.absorbed, vec![Absorption::BaseRoot, Absorption::ExtensionRoot]);
}
