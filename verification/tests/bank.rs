use interleave::bank::{Balance, Bank};

fn total(bank: &Bank) -> Balance {
    bank.get_accounts().into_iter().map(|it| bank.lookup_balance(it)).sum()
}

#[test]
fn test_bank() {
    arbtest::arbtest(|rng| {
        let mut bank = Bank::new();

        let balance_total_initial: Balance =
            bank.get_accounts().into_iter().map(|it| bank.lookup_balance(it)).sum();

        let mut accounts_created_count = 0;
        let mut transfers_created_count = 0;
        while !rng.is_empty() {
            match *rng.choose(&["create", "delete", "transfer"])? {
                "create" => {
                    bank.create_account();
                    accounts_created_count += 1;
                }
                "delete" => {
                    let account = rng.choose_iter(bank.get_accounts())?;
                    if account != Bank::TREASURY {
                        bank.delete_account(account);
                    }
                }
                "transfer" => {
                    let dr = rng.choose_iter(bank.get_accounts())?;
                    let cr = rng.choose_iter(bank.get_accounts())?;
                    let amount = rng.int_in_range(0..=100)?;
                    bank.transfer(dr, cr, amount);
                    transfers_created_count += 1;
                }
                _ => unreachable!(),
            }
            let balance_total: Balance =
                bank.get_accounts().into_iter().map(|it| bank.lookup_balance(it)).sum();
            if balance_total != balance_total_initial {
                println!(
                    "accounts created {}, transfers created {} ",
                    accounts_created_count, transfers_created_count,
                );
                panic!();
            }
        }
        Ok(())
    })
    .seed(0xff9d5f7f00000020)
    .minimize();
}

#[test]
fn a_new_bank_holds_a_funded_treasury() {
    let bank = Bank::new();
    assert_eq!(bank.get_accounts(), vec![Bank::TREASURY]);
    assert_eq!(Bank::TREASURY, 0);
    assert_eq!(bank.lookup_balance(Bank::TREASURY), 1_000_000);
}

#[test]
fn accounts_get_the_next_id_and_start_empty() {
    let mut bank = Bank::new();
    assert_eq!(bank.create_account(), 1);
    assert_eq!(bank.create_account(), 2);
    assert_eq!(bank.lookup_balance(1), 0);
    assert_eq!(bank.lookup_balance(2), 0);
    assert_eq!(bank.get_accounts(), vec![0, 1, 2]);
}

#[test]
fn a_deleted_id_is_not_given_out_again() {
    let mut bank = Bank::new();
    let a = bank.create_account();
    bank.delete_account(a);
    assert_eq!(bank.get_accounts(), vec![0]);
    assert_eq!(bank.create_account(), 2);
    assert_eq!(bank.get_accounts(), vec![0, 2]);
}

#[test]
fn deleting_an_account_that_is_not_there_changes_nothing() {
    let mut bank = Bank::new();
    bank.create_account();
    bank.delete_account(7);
    assert_eq!(bank.get_accounts(), vec![0, 1]);
    assert_eq!(total(&bank), 1_000_000);
}

#[test]
fn a_transfer_moves_the_amount() {
    let mut bank = Bank::new();
    let a = bank.create_account();
    bank.transfer(Bank::TREASURY, a, 100);
    assert_eq!(bank.lookup_balance(Bank::TREASURY), 999_900);
    assert_eq!(bank.lookup_balance(a), 100);
    bank.transfer(a, Bank::TREASURY, 40);
    assert_eq!(bank.lookup_balance(Bank::TREASURY), 999_940);
    assert_eq!(bank.lookup_balance(a), 60);
    assert_eq!(total(&bank), 1_000_000);
}

#[test]
fn a_transfer_of_more_than_is_there_moves_nothing() {
    let mut bank = Bank::new();
    let a = bank.create_account();
    bank.transfer(a, Bank::TREASURY, 1);
    assert_eq!(bank.lookup_balance(Bank::TREASURY), 1_000_000);
    assert_eq!(bank.lookup_balance(a), 0);
    bank.transfer(Bank::TREASURY, a, 1_000_001);
    assert_eq!(bank.lookup_balance(Bank::TREASURY), 1_000_000);
    assert_eq!(bank.lookup_balance(a), 0);
    bank.transfer(Bank::TREASURY, a, 1_000_000);
    assert_eq!(bank.lookup_balance(Bank::TREASURY), 0);
    assert_eq!(bank.lookup_balance(a), 1_000_000);
}

#[test]
fn a_transfer_to_the_same_account_moves_nothing() {
    let mut bank = Bank::new();
    bank.transfer(Bank::TREASURY, Bank::TREASURY, 5);
    assert_eq!(bank.lookup_balance(Bank::TREASURY), 1_000_000);
    bank.transfer(9, 9, 5);
    assert_eq!(bank.get_accounts(), vec![0]);
}

#[test]
fn deleting_a_funded_account_takes_its_balance_out_of_the_total() {
    let mut bank = Bank::new();
    let a = bank.create_account();
    bank.transfer(Bank::TREASURY, a, 100);
    bank.delete_account(a);
    assert_eq!(total(&bank), 999_900);
}

#[test]
fn creating_and_transferring_keep_the_total() {
    arbtest::arbtest(|rng| {
        let mut bank = Bank::new();
        while !rng.is_empty() {
            if rng.arbitrary()? {
                bank.create_account();
            } else {
                let dr = rng.choose_iter(bank.get_accounts())?;
                let cr = rng.choose_iter(bank.get_accounts())?;
                let amount = rng.int_in_range(0..=2_000_000)?;
                bank.transfer(dr, cr, amount);
            }
            assert_eq!(total(&bank), 1_000_000);
        }
        Ok(())
    });
}
