use carbon_credit::{
    AccountId, CarbonCredit, CarbonCreditError, CreditData, CreditStandard, Id, PSP34Error,
    ProjectType, Storage,
};
use ink::env::DefaultEnvironment;

fn alice() -> AccountId {
    AccountId([0x01; 32])
}

fn bob() -> AccountId {
    AccountId([0x02; 32])
}

fn charlie() -> AccountId {
    AccountId([0x03; 32])
}

/// Runs a test against fresh contract storage.
fn on_chain(test: fn()) {
    ink::env::test::run_test::<DefaultEnvironment, _>(|_| {
        test();
        Ok(())
    })
    .unwrap();
}

fn contract_of(owner: AccountId) -> CarbonCredit {
    CarbonCredit::new(owner, Storage::default())
}

fn sample_credit(project: &str) -> CreditData {
    CreditData {
        project_name: project.to_owned(),
        verification_date: 1_700_000_000,
        verifier: bob(),
        vintage_year: 2024,
        credit_standard: CreditStandard::VCS,
        country: "BR".to_owned(),
        project_type: ProjectType::Reforestation,
    }
}

#[test]
fn constructor_sets_owner() {
    on_chain(|| {
        let contract = contract_of(alice());
        assert_eq!(contract.owner(), alice());
    });
}

#[test]
fn mint_works() {
    on_chain(|| {
        let mut contract = contract_of(alice());
        let credit = sample_credit("Alpha Forest");
        assert!(contract.mint(alice(), bob(), credit.clone()).is_ok());
        assert_eq!(contract.total_supply(), 1);
        assert_eq!(contract.balance_of(bob()), 1);
        assert_eq!(contract.owner_of(Id::U128(1)), Some(bob()));
    });
}

#[test]
fn mint_emits_event() {
    on_chain(|| {
        let mut contract = contract_of(alice());
        let credit = sample_credit("Alpha Forest");
        let _ = contract.mint(alice(), bob(), credit);

        let recorded = contract.take_events();
        assert_eq!(recorded.len(), 2);
    });
}

#[test]
#[should_panic(expected = "caller is not the owner")]
fn mint_fails_for_non_owner() {
    on_chain(|| {
        let mut contract = contract_of(alice());
        let _ = contract
            .checked_mint(bob(), bob(), sample_credit("Bad"))
            .expect("CarbonCredit: caller is not the owner");
    });
}

#[test]
fn burn_reduces_supply() {
    on_chain(|| {
        let mut contract = contract_of(alice());
        let credit = sample_credit("Beta Wind");
        let _ = contract.mint(alice(), bob(), credit);
        assert_eq!(contract.total_supply(), 1);

        let _ = contract.burn(bob(), 1);
        assert_eq!(contract.total_supply(), 0);
        assert_eq!(contract.balance_of(bob()), 0);
        assert_eq!(contract.owner_of(Id::U128(1)), None);
    });
}

#[test]
fn burn_fails_for_non_owner() {
    on_chain(|| {
        let mut contract = contract_of(alice());
        let _ = contract.mint(alice(), bob(), sample_credit("Beta Wind"));

        assert_eq!(contract.burn(charlie(), 1), Err(PSP34Error::NotApproved));
    });
}

#[test]
fn burn_fails_for_missing_token() {
    on_chain(|| {
        let mut contract = contract_of(alice());
        assert_eq!(contract.burn(alice(), 99), Err(PSP34Error::TokenNotExists));
    });
}

#[test]
fn transfer_moves_ownership() {
    on_chain(|| {
        let mut contract = contract_of(alice());
        let _ = contract.mint(alice(), bob(), sample_credit("Gamma"));

        assert!(contract.transfer_credit(bob(), charlie(), 1).is_ok());
        assert_eq!(contract.owner_of(Id::U128(1)), Some(charlie()));
        assert_eq!(contract.balance_of(bob()), 0);
        assert_eq!(contract.balance_of(charlie()), 1);
    });
}

#[test]
fn transfer_fails_when_not_approved() {
    on_chain(|| {
        let mut contract = contract_of(alice());
        let _ = contract.mint(alice(), bob(), sample_credit("Gamma"));

        assert_eq!(
            contract.transfer(charlie(), charlie(), Id::U128(1), Vec::new()),
            Err(PSP34Error::NotApproved)
        );
    });
}

#[test]
fn approved_operator_can_transfer() {
    on_chain(|| {
        let mut contract = contract_of(alice());
        let _ = contract.mint(alice(), bob(), sample_credit("Gamma"));

        assert!(contract.approve(bob(), charlie(), Some(Id::U128(1)), true).is_ok());

        assert!(contract.transfer(charlie(), alice(), Id::U128(1), Vec::new()).is_ok());
        assert_eq!(contract.owner_of(Id::U128(1)), Some(alice()));
    });
}

#[test]
fn approve_self_fails() {
    on_chain(|| {
        let mut contract = contract_of(alice());
        assert_eq!(
            contract.approve(alice(), alice(), None, true),
            Err(PSP34Error::SelfApprove)
        );
    });
}

#[test]
fn enumerable_indices_track_tokens() {
    on_chain(|| {
        let mut contract = contract_of(alice());
        let _ = contract.mint(alice(), bob(), sample_credit("P1"));
        let _ = contract.mint(alice(), bob(), sample_credit("P2"));
        let _ = contract.mint(alice(), charlie(), sample_credit("P3"));

        assert_eq!(contract.total_supply(), 3);
        assert_eq!(contract.token_by_index(0), Some(Id::U128(1)));
        assert_eq!(contract.token_by_index(2), Some(Id::U128(3)));
        assert_eq!(contract.owners_token_by_index(bob(), 0), Some(Id::U128(1)));
        assert_eq!(contract.owners_token_by_index(bob(), 1), Some(Id::U128(2)));

        let _ = contract.burn(bob(), 1);
        assert_eq!(contract.total_supply(), 2);
        assert_eq!(contract.balance_of(bob()), 1);
        assert_eq!(contract.owners_token_by_index(bob(), 0), Some(Id::U128(2)));
    });
}

#[test]
fn get_credit_info_roundtrip() {
    on_chain(|| {
        let mut contract = contract_of(alice());
        let credit = sample_credit("Gamma Solar");
        let _ = contract.mint(alice(), bob(), credit.clone());
        let fetched = contract.get_credit_info(1).unwrap();
        assert_eq!(fetched.project_name, "Gamma Solar");
        assert_eq!(fetched.vintage_year, 2024);
        assert_eq!(fetched, credit);
    });
}

#[test]
fn get_credit_info_missing() {
    on_chain(|| {
        let contract = contract_of(alice());
        assert_eq!(contract.get_credit_info(42), Err(CarbonCreditError::TokenNotFound));
    });
}

#[test]
fn credits_by_project_returns_correct_ids() {
    on_chain(|| {
        let mut contract = contract_of(alice());
        let _ = contract.mint(alice(), bob(), sample_credit("Delta Methane"));
        let _ = contract.mint(alice(), bob(), sample_credit("Delta Methane"));
        let _ = contract.mint(alice(), bob(), sample_credit("Other Project"));

        let ids = contract.credits_by_project("Delta Methane".to_owned());
        assert_eq!(ids.len(), 2);
        assert!(ids.contains(&1));
        assert!(ids.contains(&2));
    });
}

#[test]
fn credits_by_project_empty_for_unknown() {
    on_chain(|| {
        let contract = contract_of(alice());
        let ids = contract.credits_by_project("Nonexistent".to_owned());
        assert!(ids.is_empty());
    });
}
