use std::cmp::Ordering;

use abi_stable::cmp_ordering::RCmpOrdering;
use abi_stable::errors::{FieldAbsent, UnknownVariant};
use abi_stable::nonexhaustive_enum::{EnumOp, NonExhaustive, OperationsTable, OpenEnumInfo};
use abi_stable::once::{Closure, ROnce, ROnceState};
use abi_stable::string_iters::{Drain, IntoIter};
use abi_stable::type_layout::{
    generate, DataDecl, FieldDecl, ReprAttr, TypeDecl,
};
use abi_stable::type_model::FieldTy;

fn pair_prefix(names: &[&str], fields_at_publish: usize) -> abi_stable::type_layout::TypeLayout {
    let fields = names
        .iter()
        .enumerate()
        .map(|(i, n)| FieldDecl {
            name: n.to_string(),
            ty: FieldTy { parts: vec![] },
            type_ref: 0,
            offset: 8 * i,
            conditional: false,
        })
        .collect();
    generate(&TypeDecl {
        name: "pair".to_string(),
        lifetime_params: vec![],
        size: 8,
        alignment: 8,
        repr_attr: ReprAttr::C,
        data: DataDecl::Prefix { fields_at_publish, fields },
        tags: vec![],
    })
    .unwrap()
}

#[test]
fn absent_open_struct_fields_are_reported_not_read() {
    // the pair was published with field a alone; a newer binary also has b
    let old_desc = pair_prefix(&["a"], 1);
    let new_desc = pair_prefix(&["a", "b"], 1);
    // through the old provider's description, b is absent
    assert_eq!(
        old_desc.prefix_field_offset(1, &vec![]),
        Err(FieldAbsent { field_index: 1 })
    );
    // through the new provider's description, b is at its recorded offset
    assert_eq!(new_desc.prefix_field_offset(1, &vec![]), Ok(8));
    // field a is guaranteed on both
    assert_eq!(old_desc.prefix_field_offset(0, &vec![]), Ok(0));
    assert_eq!(new_desc.prefix_field_offset(0, &vec![]), Ok(0));
}

#[test]
fn conditional_fields_need_their_capability_flag() {
    let mut decl = TypeDecl {
        name: "caps".to_string(),
        lifetime_params: vec![],
        size: 8,
        alignment: 8,
        repr_attr: ReprAttr::C,
        data: DataDecl::Prefix {
            fields_at_publish: 1,
            fields: vec![
                FieldDecl {
                    name: "base".to_string(),
                    ty: FieldTy { parts: vec![] },
                    type_ref: 0,
                    offset: 0,
                    conditional: false,
                },
                FieldDecl {
                    name: "extra".to_string(),
                    ty: FieldTy { parts: vec![] },
                    type_ref: 0,
                    offset: 8,
                    conditional: true,
                },
            ],
        },
        tags: vec![],
    };
    let desc = generate(&decl).unwrap();
    assert_eq!(
        desc.prefix_field_offset(1, &vec![false, false]),
        Err(FieldAbsent { field_index: 1 })
    );
    assert_eq!(desc.prefix_field_offset(1, &vec![false, true]), Ok(8));
    // a conditional field before the boundary is a generation error
    match &mut decl.data {
        DataDecl::Prefix { fields_at_publish, fields } => {
            *fields_at_publish = 2;
        }
        _ => unreachable!(),
    }
    assert!(generate(&decl).is_err());
}

#[test]
fn unknown_variants_are_explicit_outcomes() {
    let info = OpenEnumInfo {
        known_discriminants: vec![0, 1, 5],
        ops: OperationsTable { clone_op: true, compare_op: false, format_op: false, drop_op: true },
    };
    let known = NonExhaustive::erase(5, vec![1, 2]);
    assert_eq!(known.recover_variant(&info), Ok(2));
    let unknown = NonExhaustive::erase(9, vec![]);
    assert_eq!(
        unknown.recover_variant(&info),
        Err(UnknownVariant { discriminant: 9 })
    );
    assert!(info.ops.supports(EnumOp::CloneOp));
    assert!(!info.ops.supports(EnumOp::CompareOp));
}

#[test]
fn a_barrier_runs_its_initializer_once() {
    let once = ROnce::new();
    assert_eq!(once.state(), ROnceState::New);
    assert!(!once.state().done());
    let mut counter = 0u32;
    once.call_once(|| counter += 1);
    once.call_once(|| counter += 10);
    assert_eq!(counter, 1);
    assert_eq!(once.state(), ROnceState::Done);
    assert!(once.state().done());
    assert!(!once.state().poisoned());
}

#[test]
fn a_forced_call_sees_the_prior_state() {
    let once = ROnce::new();
    let mut seen = None;
    once.call_once_force(|st| seen = Some(st));
    assert_eq!(seen, Some(ROnceState::New));
    assert_eq!(once.state(), ROnceState::Done);
    let mut ran_again = false;
    once.call_once_force(|_| ran_again = true);
    assert!(!ran_again);
}

#[test]
fn closures_start_unpanicked() {
    let c = Closure::without_state(|| ());
    assert!(c.closure.is_some());
    assert!(!c.panicked);
    let s = Closure::with_state(|_st: ROnceState| ());
    assert!(s.closure.is_some());
    assert!(!s.panicked);
}

#[test]
fn char_iterators_walk_both_ends() {
    let mut it = IntoIter::from_chars(vec!['a', 'b', 'c', 'd']);
    assert_eq!(it.as_str(), "abcd".to_string());
    assert_eq!(it.next(), Some('a'));
    assert_eq!(it.next_back(), Some('d'));
    assert_eq!(it.as_str(), "bc".to_string());
    assert_eq!(it.next(), Some('b'));
    assert_eq!(it.next(), Some('c'));
    assert_eq!(it.next(), None);
    assert_eq!(it.next_back(), None);
    assert_eq!(it.as_str(), String::new());
}

#[test]
fn drained_characters_come_out_in_order() {
    let mut d = Drain::from_removed(vec!['x', 'y']);
    assert_eq!(d.next(), Some('x'));
    assert_eq!(d.next_back(), Some('y'));
    assert_eq!(d.next(), None);
}

#[test]
fn orderings_reverse() {
    assert_eq!(RCmpOrdering::LessR.reverse(), RCmpOrdering::GreaterR);
    assert_eq!(RCmpOrdering::GreaterR.reverse(), RCmpOrdering::LessR);
    assert_eq!(RCmpOrdering::EqualR.reverse(), RCmpOrdering::EqualR);
}

#[test]
fn orderings_round_trip_through_std() {
    assert_eq!(RCmpOrdering::from_ordering(Ordering::Less), RCmpOrdering::LessR);
    assert_eq!(RCmpOrdering::from_ordering(Ordering::Greater), RCmpOrdering::GreaterR);
    assert_eq!(RCmpOrdering::EqualR.into_ordering(), Ordering::Equal);
    assert_eq!(
        RCmpOrdering::from_ordering(RCmpOrdering::LessR.into_ordering()),
        RCmpOrdering::LessR
    );
}
