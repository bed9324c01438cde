use carbon_credit::cells::{BUFFER_BYTES, MAX_PROJECT_CREDITS};
use carbon_credit::hash::project_name_hash;
use carbon_credit::{
    AccountId, Approval, CarbonCredit, CarbonCreditError, CreditData, CreditMinted, CreditRetired,
    CreditStandard, CreditTransferred, Event, Id, PSP34Error, ProjectType, Storage, Transfer,
};
use ink::env::DefaultEnvironment;
use ink::scale::Encode;
use ink::storage::traits::ManualKey;
use ink::storage::Mapping;

const ALICE: AccountId = AccountId([0x01; 32]);
const BOB: AccountId = AccountId([0x02; 32]);
const CHARLIE: AccountId = AccountId([0x03; 32]);
const DJANGO: AccountId = AccountId([0x04; 32]);

fn on_chain(test: fn()) {
    ink::env::test::run_test::<DefaultEnvironment, _>(|_| {
        test();
        Ok(())
    })
    .unwrap();
}

fn credit(project: &str) -> CreditData {
    CreditData {
        project_name: project.to_owned(),
        verification_date: 1_700_000_000,
        verifier: DJANGO,
        vintage_year: 2024,
        credit_standard: CreditStandard::CDM,
        country: "KE".to_owned(),
        project_type: ProjectType::MethaneCapture,
    }
}

/// A contract of Alice with one credit for each of the recipients.
fn contract_with(recipients: &[AccountId]) -> CarbonCredit {
    let mut contract = CarbonCredit::new(ALICE, Storage::default());
    for to in recipients {
        assert_eq!(contract.mint(ALICE, *to, credit("Project")), Ok(()));
    }
    let _ = contract.take_events();
    contract
}

fn global_list(contract: &CarbonCredit) -> Vec<Id> {
    (0..contract.total_supply()).map(|i| contract.token_by_index(i).unwrap()).collect()
}

fn list_of(contract: &CarbonCredit, owner: AccountId) -> Vec<Id> {
    (0..contract.balance_of(owner))
        .map(|i| contract.owners_token_by_index(owner, i).unwrap())
        .collect()
}

fn numbers(list: &[u128]) -> Vec<Id> {
    list.iter().map(|n| Id::U128(*n)).collect()
}

#[test]
fn accounts_are_compared_by_all_bytes() {
    let mut bytes = [7u8; 32];
    assert!(AccountId(bytes) == AccountId([7; 32]));
    bytes[31] = 8;
    assert!(AccountId(bytes) != AccountId([7; 32]));
    bytes = [7; 32];
    bytes[0] = 8;
    assert!(AccountId(bytes) != AccountId([7; 32]));
}

#[test]
fn project_key_is_the_blake2b_digest() {
    assert_eq!(
        project_name_hash("Delta Methane"),
        [
            106, 231, 95, 187, 69, 112, 230, 44, 247, 222, 206, 123, 80, 6, 187, 240, 220, 105, 40,
            117, 184, 43, 27, 214, 119, 233, 252, 212, 51, 202, 97, 99
        ]
    );
}

#[test]
fn new_contract_is_empty() {
    on_chain(|| {
        let contract = CarbonCredit::new(BOB, Storage::default());
        assert_eq!(contract.owner(), BOB);
        assert_eq!(contract.total_supply(), 0);
        assert_eq!(contract.next_token_id(), 1);
        assert_eq!(contract.balance_of(ALICE), 0);
        assert_eq!(contract.token_by_index(0), None);
        assert_eq!(contract.owners_token_by_index(ALICE, 0), None);
        assert_eq!(contract.owner_of(Id::U128(0)), None);
        assert!(!contract.allowance(ALICE, BOB, None));
    });
}

#[test]
fn identifiers_survive_storage_form() {
    for id in [
        Id::U8(7),
        Id::U16(7),
        Id::U32(7),
        Id::U64(7),
        Id::U128(7),
        Id::Bytes(vec![7]),
        Id::Bytes(Vec::new()),
    ] {
        assert_eq!(Id::from_cell(id.to_cell()), id);
    }
    assert!(Id::U8(7).to_cell() != Id::U16(7).to_cell());
    assert!(Id::U64(7).to_cell() != Id::U128(7).to_cell());
}

#[test]
fn metadata_survives_storage() {
    on_chain(|| {
        let mut contract = CarbonCredit::new(ALICE, Storage::default());
        let mut number: u128 = 0;
        for standard in [
            CreditStandard::VCS,
            CreditStandard::GS,
            CreditStandard::CDM,
            CreditStandard::GoldStandard,
        ] {
            for project in
                [ProjectType::Reforestation, ProjectType::Renewable, ProjectType::MethaneCapture]
            {
                let mut data = credit("Caf\u{e9}");
                data.credit_standard = standard;
                data.project_type = project;
                assert_eq!(contract.mint(ALICE, BOB, data.clone()), Ok(()));
                number += 1;
                assert_eq!(contract.get_credit_info(number), Ok(data));
            }
        }
    });
}

#[test]
fn identifiers_of_other_variants_are_not_tokens() {
    on_chain(|| {
        let mut contract = contract_with(&[BOB]);
        assert_eq!(contract.owner_of(Id::U128(1)), Some(BOB));
        for id in
            [Id::U8(1), Id::U16(1), Id::U32(1), Id::U64(1), Id::Bytes(vec![1]), Id::U128(0)]
        {
            assert_eq!(contract.owner_of(id.clone()), None);
            assert_eq!(
                contract.transfer(BOB, CHARLIE, id, Vec::new()),
                Err(PSP34Error::TokenNotExists)
            );
        }
    });
}

#[test]
fn mint_reports_transfer_and_minted() {
    on_chain(|| {
        let mut contract = CarbonCredit::new(ALICE, Storage::default());
        assert_eq!(contract.mint(ALICE, BOB, credit("Alpha Forest")), Ok(()));
        assert_eq!(
            contract.take_events(),
            vec![
                Event::Transfer(Transfer { from: None, to: Some(BOB), id: Id::U128(1) }),
                Event::CreditMinted(CreditMinted {
                    token_id: 1,
                    to: BOB,
                    project_name: "Alpha Forest".to_owned()
                }),
            ]
        );
        assert_eq!(contract.take_events(), Vec::new());
    });
}

#[test]
fn transfer_credit_reports_both_events() {
    on_chain(|| {
        let mut contract = contract_with(&[BOB]);
        assert_eq!(contract.approve(BOB, CHARLIE, None, true), Ok(()));
        assert_eq!(contract.transfer_credit(CHARLIE, DJANGO, 1), Ok(()));
        assert_eq!(
            contract.take_events(),
            vec![
                Event::Approval(Approval {
                    owner: BOB,
                    operator: CHARLIE,
                    id: None,
                    approved: true
                }),
                Event::Transfer(Transfer { from: Some(BOB), to: Some(DJANGO), id: Id::U128(1) }),
                Event::CreditTransferred(CreditTransferred {
                    from: Some(BOB),
                    to: Some(DJANGO),
                    token_id: 1
                }),
            ]
        );
    });
}

#[test]
fn plain_transfer_reports_one_event() {
    on_chain(|| {
        let mut contract = contract_with(&[BOB]);
        assert_eq!(contract.transfer(BOB, CHARLIE, Id::U128(1), vec![1, 2, 3]), Ok(()));
        assert_eq!(
            contract.take_events(),
            vec![Event::Transfer(Transfer {
                from: Some(BOB),
                to: Some(CHARLIE),
                id: Id::U128(1)
            })]
        );
    });
}

#[test]
fn burn_reports_transfer_and_retired() {
    on_chain(|| {
        let mut contract = contract_with(&[BOB]);
        assert_eq!(contract.approve(BOB, CHARLIE, Some(Id::U128(1)), true), Ok(()));
        assert_eq!(contract.burn(CHARLIE, 1), Ok(()));
        assert_eq!(
            contract.take_events(),
            vec![
                Event::Approval(Approval {
                    owner: BOB,
                    operator: CHARLIE,
                    id: Some(Id::U128(1)),
                    approved: true
                }),
                Event::Transfer(Transfer { from: Some(BOB), to: None, id: Id::U128(1) }),
                Event::CreditRetired(CreditRetired { token_id: 1, owner: BOB }),
            ]
        );
    });
}

#[test]
fn refused_calls_change_and_report_nothing() {
    on_chain(|| {
        let mut contract = contract_with(&[BOB, CHARLIE]);
        assert_eq!(contract.burn(CHARLIE, 1), Err(PSP34Error::NotApproved));
        assert_eq!(contract.burn(CHARLIE, 3), Err(PSP34Error::TokenNotExists));
        assert_eq!(contract.transfer_credit(CHARLIE, ALICE, 1), Err(PSP34Error::NotApproved));
        assert_eq!(contract.transfer_credit(CHARLIE, ALICE, 9), Err(PSP34Error::TokenNotExists));
        assert_eq!(
            contract.approve(CHARLIE, DJANGO, Some(Id::U128(1)), true),
            Err(PSP34Error::NotApproved)
        );
        assert_eq!(
            contract.approve(BOB, DJANGO, Some(Id::U128(9)), true),
            Err(PSP34Error::TokenNotExists)
        );
        assert_eq!(
            contract.approve(BOB, BOB, Some(Id::U128(1)), true),
            Err(PSP34Error::SelfApprove)
        );
        assert_eq!(contract.take_events(), Vec::new());
        assert_eq!(global_list(&contract), numbers(&[1, 2]));
        assert_eq!(list_of(&contract, BOB), numbers(&[1]));
        assert_eq!(list_of(&contract, CHARLIE), numbers(&[2]));
        assert!(!contract.allowance(BOB, DJANGO, Some(Id::U128(1))));
    });
}

#[test]
fn mint_refuses_a_number_that_is_taken() {
    on_chain(|| {
        let contract = contract_with(&[BOB]);
        assert_eq!(contract.owner_of(Id::U128(1)), Some(BOB));
        drop(contract);
        let mut contract = CarbonCredit::resume(Storage::default(), ALICE, 1, 1);
        assert_eq!(
            contract.mint(ALICE, CHARLIE, credit("Project")),
            Err(PSP34Error::TokenExists)
        );
        assert_eq!(
            contract.checked_mint(ALICE, CHARLIE, credit("Project")),
            Some(Err(PSP34Error::TokenExists))
        );
        assert_eq!(contract.next_token_id(), 1);
        assert_eq!(contract.owner_of(Id::U128(1)), Some(BOB));
    });
}

#[test]
fn a_ledger_is_taken_up_where_it_was_left() {
    on_chain(|| {
        let contract = contract_with(&[BOB, CHARLIE, BOB]);
        let (owner, supply, next) =
            (contract.owner(), contract.total_supply(), contract.next_token_id());
        drop(contract);
        let mut contract = CarbonCredit::resume(Storage::default(), owner, supply, next);
        assert_eq!(list_of(&contract, BOB), numbers(&[1, 3]));
        assert_eq!(global_list(&contract), numbers(&[1, 2, 3]));
        assert_eq!(contract.mint(ALICE, DJANGO, credit("Project")), Ok(()));
        assert_eq!(contract.owner_of(Id::U128(4)), Some(DJANGO));
        assert_eq!(contract.credits_by_project("Project".to_owned()), vec![1, 2, 3, 4]);
    });
}

#[test]
fn burn_moves_the_last_token_into_the_gap() {
    on_chain(|| {
        let mut contract = contract_with(&[BOB, BOB, CHARLIE, BOB]);
        assert_eq!(contract.burn(BOB, 1), Ok(()));
        assert_eq!(list_of(&contract, BOB), numbers(&[4, 2]));
        assert_eq!(global_list(&contract), numbers(&[4, 2, 3]));
        assert_eq!(contract.token_by_index(3), None);
        assert_eq!(contract.owners_token_by_index(BOB, 2), None);

        assert_eq!(contract.burn(BOB, 2), Ok(()));
        assert_eq!(list_of(&contract, BOB), numbers(&[4]));
        assert_eq!(global_list(&contract), numbers(&[4, 3]));
        assert_eq!(list_of(&contract, CHARLIE), numbers(&[3]));
    });
}

#[test]
fn transfer_puts_the_token_last() {
    on_chain(|| {
        let mut contract = contract_with(&[BOB, BOB, CHARLIE]);
        assert_eq!(contract.transfer_credit(BOB, CHARLIE, 1), Ok(()));
        assert_eq!(list_of(&contract, BOB), numbers(&[2]));
        assert_eq!(list_of(&contract, CHARLIE), numbers(&[3, 1]));
        assert_eq!(global_list(&contract), numbers(&[3, 2, 1]));
        assert_eq!(contract.total_supply(), 3);
    });
}

#[test]
fn transfer_to_the_holder_is_refused() {
    on_chain(|| {
        let mut contract = contract_with(&[BOB, BOB, BOB]);
        assert_eq!(contract.approve(BOB, DJANGO, Some(Id::U128(1)), true), Ok(()));
        assert_eq!(contract.approve(BOB, CHARLIE, None, true), Ok(()));
        let _ = contract.take_events();
        for caller in [BOB, CHARLIE, DJANGO] {
            assert_eq!(
                contract.transfer(caller, BOB, Id::U128(1), vec![]),
                Err(PSP34Error::SelfApprove)
            );
            assert_eq!(contract.transfer_credit(caller, BOB, 1), Err(PSP34Error::SelfApprove));
        }
        assert_eq!(
            contract.transfer(ALICE, BOB, Id::U128(1), vec![]),
            Err(PSP34Error::NotApproved)
        );
        assert_eq!(
            contract.transfer(BOB, BOB, Id::U128(4), vec![]),
            Err(PSP34Error::TokenNotExists)
        );
        assert_eq!(contract.take_events(), vec![]);
        assert_eq!(list_of(&contract, BOB), numbers(&[1, 2, 3]));
        assert_eq!(global_list(&contract), numbers(&[1, 2, 3]));
        assert!(contract.allowance(BOB, DJANGO, Some(Id::U128(1))));
    });
}

#[test]
fn allowance_of_a_token_is_that_of_its_holder() {
    on_chain(|| {
        let mut contract = contract_with(&[ALICE, BOB]);
        assert_eq!(contract.approve(BOB, CHARLIE, None, true), Ok(()));
        assert!(contract.allowance(BOB, CHARLIE, None));
        assert!(contract.allowance(BOB, CHARLIE, Some(Id::U128(2))));
        assert!(!contract.allowance(BOB, CHARLIE, Some(Id::U128(1))));
        assert!(!contract.allowance(BOB, CHARLIE, Some(Id::U128(3))));
        assert_eq!(contract.burn(CHARLIE, 1), Err(PSP34Error::NotApproved));
        assert_eq!(contract.approve(ALICE, DJANGO, Some(Id::U128(1)), true), Ok(()));
        assert!(contract.allowance(ALICE, DJANGO, Some(Id::U128(1))));
        assert!(!contract.allowance(ALICE, DJANGO, None));
        assert!(!contract.allowance(ALICE, CHARLIE, Some(Id::U128(1))));
    });
}

#[test]
fn transfer_ends_the_approval_of_the_token() {
    on_chain(|| {
        let mut contract = contract_with(&[BOB, BOB]);
        assert_eq!(contract.approve(BOB, CHARLIE, Some(Id::U128(1)), true), Ok(()));
        assert_eq!(contract.approve(BOB, CHARLIE, Some(Id::U128(2)), true), Ok(()));
        assert!(contract.allowance(BOB, CHARLIE, Some(Id::U128(1))));
        assert_eq!(contract.transfer_credit(CHARLIE, DJANGO, 1), Ok(()));
        assert!(!contract.allowance(DJANGO, CHARLIE, Some(Id::U128(1))));
        assert_eq!(contract.transfer_credit(CHARLIE, CHARLIE, 1), Err(PSP34Error::NotApproved));
        assert!(contract.allowance(BOB, CHARLIE, Some(Id::U128(2))));
    });
}

#[test]
fn approval_can_be_revoked() {
    on_chain(|| {
        let mut contract = contract_with(&[BOB]);
        assert_eq!(contract.approve(BOB, CHARLIE, Some(Id::U128(1)), true), Ok(()));
        assert_eq!(contract.approve(BOB, DJANGO, Some(Id::U128(1)), false), Ok(()));
        assert!(!contract.allowance(BOB, CHARLIE, Some(Id::U128(1))));
        assert_eq!(contract.burn(CHARLIE, 1), Err(PSP34Error::NotApproved));

        assert_eq!(contract.approve(BOB, CHARLIE, None, true), Ok(()));
        assert!(contract.allowance(BOB, CHARLIE, None));
        assert!(contract.allowance(BOB, CHARLIE, Some(Id::U128(1))));
        assert!(!contract.allowance(CHARLIE, BOB, None));
        assert_eq!(contract.approve(BOB, CHARLIE, None, false), Ok(()));
        assert!(!contract.allowance(BOB, CHARLIE, None));
        assert_eq!(contract.burn(CHARLIE, 1), Err(PSP34Error::NotApproved));
    });
}

#[test]
fn operator_for_all_may_approve_and_burn() {
    on_chain(|| {
        let mut contract = contract_with(&[BOB, BOB]);
        assert_eq!(contract.approve(BOB, CHARLIE, None, true), Ok(()));
        let _ = contract.take_events();
        assert_eq!(contract.approve(CHARLIE, DJANGO, Some(Id::U128(1)), true), Ok(()));
        assert_eq!(
            contract.take_events(),
            vec![Event::Approval(Approval {
                owner: BOB,
                operator: DJANGO,
                id: Some(Id::U128(1)),
                approved: true
            })]
        );
        assert_eq!(
            contract.approve(DJANGO, ALICE, Some(Id::U128(1)), true),
            Err(PSP34Error::NotApproved)
        );
        assert_eq!(contract.burn(DJANGO, 1), Ok(()));
        assert_eq!(contract.burn(CHARLIE, 2), Ok(()));
        assert_eq!(contract.total_supply(), 0);
        assert!(contract.allowance(BOB, CHARLIE, None));
    });
}

#[test]
fn retirement_is_permanent() {
    on_chain(|| {
        let mut contract = contract_with(&[BOB, BOB]);
        assert_eq!(contract.burn(BOB, 2), Ok(()));
        assert_eq!(contract.get_credit_info(2), Err(CarbonCreditError::TokenNotFound));
        assert_eq!(contract.mint(ALICE, BOB, credit("Project")), Ok(()));
        assert_eq!(contract.owner_of(Id::U128(2)), None);
        assert_eq!(contract.owner_of(Id::U128(3)), Some(BOB));
        assert_eq!(contract.burn(BOB, 2), Err(PSP34Error::TokenNotExists));
        assert_eq!(contract.credits_by_project("Project".to_owned()), vec![1, 2, 3]);
    });
}

#[test]
fn burn_undoes_mint() {
    on_chain(|| {
        let mut contract = contract_with(&[BOB, CHARLIE]);
        assert_eq!(contract.mint(ALICE, BOB, credit("Other")), Ok(()));
        assert_eq!(contract.burn(BOB, 3), Ok(()));
        assert_eq!(list_of(&contract, BOB), numbers(&[1]));
        assert_eq!(global_list(&contract), numbers(&[1, 2]));
        assert_eq!(contract.next_token_id(), 4);
        assert_eq!(contract.credits_by_project("Other".to_owned()), vec![3]);
    });
}

#[test]
fn balances_add_up_to_supply() {
    on_chain(|| {
        let mut contract = contract_with(&[BOB, CHARLIE, BOB, DJANGO, ALICE]);
        assert_eq!(contract.transfer_credit(BOB, DJANGO, 3), Ok(()));
        assert_eq!(contract.burn(CHARLIE, 2), Ok(()));
        let sum: u32 =
            [ALICE, BOB, CHARLIE, DJANGO].iter().map(|a| contract.balance_of(*a)).sum();
        assert_eq!(sum, 4);
        assert_eq!(contract.total_supply(), 4);
        assert_eq!(contract.next_token_id(), 6);
    });
}

#[test]
fn projects_have_separate_lists() {
    on_chain(|| {
        let mut contract = CarbonCredit::new(ALICE, Storage::default());
        for name in ["A", "B", "A", "C", "B", "A"] {
            assert_eq!(contract.mint(ALICE, BOB, credit(name)), Ok(()));
        }
        assert_eq!(contract.credits_by_project("A".to_owned()), vec![1, 3, 6]);
        assert_eq!(contract.credits_by_project("B".to_owned()), vec![2, 5]);
        assert_eq!(contract.credits_under(&project_name_hash("C")), vec![4]);
        assert_eq!(contract.credits_under(&[0; 32]), Vec::<u128>::new());
    });
}

#[test]
fn minting_under_a_key_lists_there() {
    on_chain(|| {
        let mut contract = CarbonCredit::new(ALICE, Storage::default());
        let key = [9u8; 32];
        assert!(contract.mint_under_fits(BOB, &credit("A"), &key));
        assert_eq!(contract.mint_under(ALICE, BOB, credit("A"), &key), Ok(()));
        assert_eq!(contract.credits_under(&key), vec![1]);
        assert_eq!(contract.credits_by_project("A".to_owned()), Vec::<u128>::new());
    });
}

#[test]
fn contract_ownership_can_be_handed_over() {
    on_chain(|| {
        let mut contract = contract_with(&[BOB]);
        assert_eq!(contract.ensure_owner(ALICE), Ok(()));
        assert_eq!(contract.ensure_owner(BOB), Err(CarbonCreditError::CallerNotOwner));
        contract.transfer_ownership(ALICE, BOB);
        assert_eq!(contract.owner(), BOB);
        assert_eq!(contract.ensure_owner(ALICE), Err(CarbonCreditError::CallerNotOwner));
        assert_eq!(contract.checked_mint(ALICE, ALICE, credit("P")), None);
        assert_eq!(contract.checked_mint(BOB, ALICE, credit("P")), Some(Ok(())));
        assert_eq!(contract.owner_of(Id::U128(2)), Some(ALICE));
        assert_eq!(contract.owner_of(Id::U128(1)), Some(BOB));
    });
}

#[test]
fn long_identifiers_do_not_fit() {
    on_chain(|| {
        let contract = contract_with(&[BOB]);
        let longest = Id::Bytes(vec![0; BUFFER_BYTES - 10]);
        let too_long = Id::Bytes(vec![0; BUFFER_BYTES - 9]);
        assert!(longest.fits_with(1));
        assert!(!longest.fits_with(2));
        assert!(too_long.fits_with(0));
        assert!(!too_long.fits_with(1));
        assert!(Id::Bytes(vec![0; 63]).fits_with(BUFFER_BYTES - 71));
        assert!(!Id::Bytes(vec![0; 63]).fits_with(BUFFER_BYTES - 70));
        assert!(Id::U128(1).fits_with(BUFFER_BYTES - 23));
        assert!(!Id::U128(1).fits_with(BUFFER_BYTES - 22));
        assert_eq!(contract.owner_of(longest.clone()), None);
        assert!(contract.transfer_fits(BOB, CHARLIE, &longest));
        assert!(!contract.transfer_fits(BOB, CHARLIE, &too_long));
        assert!(contract.approve_fits(BOB, CHARLIE, &Some(longest), true));
        assert!(!contract.approve_fits(BOB, CHARLIE, &Some(too_long.clone()), true));
        assert!(contract.approve_fits(BOB, BOB, &Some(too_long), true));
        assert!(contract.approve_fits(BOB, CHARLIE, &None, true));
        assert!(contract.approve_fits(BOB, CHARLIE, &Some(Id::U128(1)), true));
    });
}

#[test]
fn long_metadata_does_not_fit() {
    on_chain(|| {
        let mut contract = CarbonCredit::new(ALICE, Storage::default());
        let mut data = credit("");
        // 4 + 19 of key, 48 of fixed fields, 2 + 1 of lengths, 2 of country.
        data.project_name = "x".repeat(BUFFER_BYTES - 76);
        assert!(contract.mint_fits(BOB, &data));
        data.project_name.push('x');
        assert!(!contract.mint_fits(BOB, &data));
        assert_eq!(contract.checked_mint(ALICE, BOB, data), None);
        assert_eq!(contract.total_supply(), 0);
        assert_eq!(contract.next_token_id(), 1);
    });
}

#[test]
fn a_full_project_list_takes_no_more() {
    on_chain(|| {
        let cells: Vec<u128> = (1..MAX_PROJECT_CREDITS as u128).collect();
        let mut lists: Mapping<[u8; 32], Vec<u128>, ManualKey<10>> = Mapping::new();
        lists.insert(project_name_hash("Big"), &cells);
        let mut contract = CarbonCredit::new(ALICE, Storage::default());
        assert_eq!(contract.checked_mint(ALICE, BOB, credit("Big")), Some(Ok(())));
        assert_eq!(contract.credits_by_project("Big".to_owned()).len(), MAX_PROJECT_CREDITS);
        assert!(!contract.mint_fits(BOB, &credit("Big")));
        assert_eq!(contract.checked_mint(ALICE, BOB, credit("Big")), None);
        assert!(contract.mint_fits(BOB, &credit("Small")));
    });
}

#[test]
fn full_counters_take_no_more() {
    on_chain(|| {
        let mut counts: Mapping<[u8; 32], u32, ManualKey<2>> = Mapping::new();
        counts.insert(CHARLIE.0, &u32::MAX);
        let mut contract = contract_with(&[BOB]);
        assert!(!contract.mint_fits(CHARLIE, &credit("P")));
        assert!(!contract.transfer_fits(BOB, CHARLIE, &Id::U128(1)));
        assert!(contract.transfer_fits(DJANGO, CHARLIE, &Id::U128(1)));
        assert!(contract.transfer_fits(BOB, DJANGO, &Id::U128(1)));
        assert_eq!(contract.checked_mint(ALICE, CHARLIE, credit("P")), None);
        drop(contract);

        let mut last = CarbonCredit::resume(Storage::default(), ALICE, 1, u128::MAX);
        assert!(!last.mint_fits(BOB, &credit("P")));
        assert_eq!(last.checked_mint(ALICE, BOB, credit("P")), None);
        drop(last);

        let full = CarbonCredit::resume(Storage::default(), ALICE, u128::MAX, 5);
        assert!(!full.mint_fits(BOB, &credit("P")));
    });
}

#[test]
fn limits_are_those_of_the_encoding() {
    for id in [
        Id::U8(7),
        Id::U16(7),
        Id::U32(7),
        Id::U64(7),
        Id::U128(7),
        Id::Bytes(vec![7; 63]),
        Id::Bytes(vec![7; 64]),
        Id::Bytes(vec![7; 9000]),
    ] {
        let free = BUFFER_BYTES - (1u32, id.to_cell()).encoded_size();
        assert!(id.fits_with(free));
        assert!(!id.fits_with(free + 1));
    }
    for (project_type, country) in [
        (ProjectType::Reforestation, "BR".to_owned()),
        (ProjectType::Renewable, "x".repeat(64)),
    ] {
        let mut data = credit("");
        data.project_type = project_type;
        data.country = country;
        data.project_name = "x".repeat(100);
        let key = (9u32, Id::U128(1).to_cell());
        let free = BUFFER_BYTES - (&key, data.to_cell()).encoded_size();
        data.project_name = "x".repeat(100 + free);
        assert_eq!((&key, data.to_cell()).encoded_size(), BUFFER_BYTES);
        assert!(data.fits());
        data.project_name.push('x');
        assert!(!data.fits());
    }
    let list = vec![0u128; MAX_PROJECT_CREDITS];
    assert!((10u32, [0u8; 32], &list).encoded_size() <= BUFFER_BYTES);
    let longer = vec![0u128; MAX_PROJECT_CREDITS + 1];
    assert!((10u32, [0u8; 32], &longer).encoded_size() > BUFFER_BYTES);
}

#[test]
fn transfer_back_restores_holdings() {
    on_chain(|| {
        let mut contract = contract_with(&[BOB, BOB, CHARLIE]);
        assert_eq!(contract.transfer(BOB, CHARLIE, Id::U128(1), vec![]), Ok(()));
        assert_eq!((contract.balance_of(BOB), contract.balance_of(CHARLIE)), (1, 2));
        assert_eq!(
            contract.transfer(BOB, BOB, Id::U128(1), vec![]),
            Err(PSP34Error::NotApproved)
        );
        assert_eq!(contract.transfer(CHARLIE, BOB, Id::U128(1), vec![]), Ok(()));
        assert_eq!((contract.balance_of(BOB), contract.balance_of(CHARLIE)), (2, 1));
        assert_eq!(contract.owner_of(Id::U128(1)), Some(BOB));
        assert_eq!(contract.total_supply(), 3);
    });
}

#[test]
fn revoking_undoes_granting() {
    on_chain(|| {
        let mut contract = contract_with(&[BOB]);
        for id in [None, Some(Id::U128(1))] {
            assert!(!contract.allowance(BOB, CHARLIE, id.clone()));
            assert_eq!(contract.approve(BOB, CHARLIE, id.clone(), true), Ok(()));
            assert!(contract.allowance(BOB, CHARLIE, id.clone()));
            assert_eq!(contract.approve(BOB, CHARLIE, id.clone(), false), Ok(()));
            assert!(!contract.allowance(BOB, CHARLIE, id));
        }
        assert_eq!(contract.burn(CHARLIE, 1), Err(PSP34Error::NotApproved));
    });
}

#[test]
fn events_are_kept_until_taken() {
    on_chain(|| {
        let mut contract = contract_with(&[BOB]);
        assert_eq!(contract.approve(BOB, CHARLIE, None, true), Ok(()));
        assert_eq!(contract.transfer_credit(BOB, DJANGO, 1), Ok(()));
        let events = contract.take_events();
        assert_eq!(events.len(), 3);
        assert!(matches!(events[0], Event::Approval(_)));
        assert!(matches!(events[1], Event::Transfer(_)));
        assert!(matches!(events[2], Event::CreditTransferred(_)));
        assert_eq!(contract.take_events(), vec![]);
    });
}

#[test]
fn the_latest_approval_for_all_decides() {
    on_chain(|| {
        let mut contract = contract_with(&[BOB, BOB]);
        assert!(!contract.allowance(BOB, CHARLIE, None));
        assert_eq!(contract.approve(BOB, CHARLIE, None, true), Ok(()));
        assert_eq!(contract.approve(BOB, CHARLIE, None, false), Ok(()));
        assert_eq!(contract.approve(BOB, CHARLIE, None, true), Ok(()));
        assert_eq!(contract.approve(BOB, CHARLIE, Some(Id::U128(1)), true), Ok(()));
        assert_eq!(contract.approve(BOB, CHARLIE, Some(Id::U128(1)), false), Ok(()));
        assert_eq!(contract.transfer_credit(BOB, DJANGO, 1), Ok(()));
        assert_eq!(contract.burn(BOB, 2), Ok(()));
        assert_eq!(contract.mint(ALICE, BOB, credit("Project")), Ok(()));
        assert!(contract.allowance(BOB, CHARLIE, None));
        assert!(!contract.allowance(CHARLIE, BOB, None));
        assert_eq!(contract.approve(BOB, BOB, None, true), Err(PSP34Error::SelfApprove));
        assert!(!contract.allowance(BOB, BOB, None));
        assert_eq!(contract.approve(BOB, CHARLIE, None, false), Ok(()));
        assert!(!contract.allowance(BOB, CHARLIE, None));
    });
}

#[test]
fn the_holder_is_the_last_recipient() {
    on_chain(|| {
        let mut contract = contract_with(&[BOB, CHARLIE]);
        assert_eq!(contract.transfer_credit(BOB, CHARLIE, 1), Ok(()));
        assert_eq!(contract.transfer_credit(BOB, DJANGO, 1), Err(PSP34Error::NotApproved));
        assert_eq!(contract.transfer(CHARLIE, DJANGO, Id::U128(1), vec![]), Ok(()));
        assert_eq!(contract.owner_of(Id::U128(1)), Some(DJANGO));
        assert_eq!(contract.owner_of(Id::U128(2)), Some(CHARLIE));
        assert_eq!(contract.burn(DJANGO, 1), Ok(()));
        assert_eq!(contract.owner_of(Id::U128(1)), None);
    });
}

#[test]
fn each_token_has_the_metadata_of_its_mint() {
    on_chain(|| {
        let mut contract = CarbonCredit::new(ALICE, Storage::default());
        for name in ["First", "Second", "Third"] {
            assert_eq!(contract.mint(ALICE, BOB, credit(name)), Ok(()));
        }
        assert_eq!(contract.burn(BOB, 1), Ok(()));
        assert_eq!(contract.transfer_credit(BOB, CHARLIE, 2), Ok(()));
        assert_eq!(contract.mint(ALICE, BOB, credit("Fourth")), Ok(()));
        assert_eq!(contract.get_credit_info(1), Err(CarbonCreditError::TokenNotFound));
        assert_eq!(contract.get_credit_info(2), Ok(credit("Second")));
        assert_eq!(contract.get_credit_info(3), Ok(credit("Third")));
        assert_eq!(contract.get_credit_info(4), Ok(credit("Fourth")));
    });
}
