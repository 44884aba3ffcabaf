use amortscan::bank::{check_if_path_exists, Bank};
use amortscan::grammar::BankGrammar;

#[test]
fn bank_is_picked_by_case_insensitive_prefix() {
    assert_eq!(
        Bank::determine_bank("alphabankexported-2021.pdf"),
        Some(Bank::AlphaBankExported)
    );
    assert_eq!(Bank::determine_bank("AlphaBankExported.pdf"), Some(Bank::AlphaBankExported));
    assert_eq!(Bank::determine_bank("alphabank_scadentar.pdf"), Some(Bank::AlphaBank));
    assert_eq!(Bank::determine_bank("ALPHABANK.PDF"), Some(Bank::AlphaBank));
    assert_eq!(Bank::determine_bank("ing statement.pdf"), Some(Bank::ING));
    assert_eq!(Bank::determine_bank("ING-2022.pdf"), Some(Bank::ING));
    assert_eq!(Bank::determine_bank("otherbank.pdf"), None);
    assert_eq!(Bank::determine_bank(""), None);
    // the longer name wins before its own prefix
    assert_eq!(Bank::determine_bank("alphabankexp"), Some(Bank::AlphaBank));
}

#[test]
fn each_bank_has_its_grammar() {
    assert_eq!(Bank::AlphaBankExported.grammar(), BankGrammar::PairedLines);
    assert_eq!(Bank::AlphaBank.grammar(), BankGrammar::DateAnchored);
    assert_eq!(Bank::ING.grammar(), BankGrammar::FixedWidth);
}

#[test]
fn existing_path_is_accepted() {
    assert_eq!(check_if_path_exists("/"), Ok(String::from("/")));
}

#[test]
fn missing_path_is_reported_with_its_name() {
    let r = check_if_path_exists("/surely/not/here.pdf");
    assert_eq!(r, Err(String::from("Fișierul nu există : /surely/not/here.pdf")));
}
