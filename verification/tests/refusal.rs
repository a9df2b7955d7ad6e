use melminter::chain::Denom;
use melminter::refusal::lacking;

fn text(name: &str) -> String {
    format!("not enough money (more of {} needed)", name)
}

#[test]
fn refusals_name_what_is_lacking() {
    assert_eq!(lacking(&text("MEL")), Some(Denom::Mel));
    assert_eq!(lacking(&text("SYM")), Some(Denom::Sym));
    assert_eq!(lacking(&text("ERG")), Some(Denom::Erg));
    assert_eq!(lacking(&text("(NEWCUSTOM)")), Some(Denom::NewCustom));
    let digits = "0123456789abcdef".repeat(4);
    let hash = [0x01, 0x23, 0x45, 0x67, 0x89, 0xab, 0xcd, 0xef].repeat(4);
    let custom = lacking(&text(&format!("CUSTOM-{}", digits)));
    match custom {
        Some(Denom::Custom(found)) => assert_eq!(found.to_vec(), hash),
        _ => panic!("it is a token"),
    }
}

#[test]
fn refusals_agree_with_the_wallets_own_words() {
    for (denom, outside) in [
        (Denom::Mel, melstructs::Denom::Mel),
        (Denom::Erg, melstructs::Denom::Erg),
        (
            Denom::Custom([0x5cu8; 32]),
            melstructs::Denom::Custom(melstructs::TxHash(tmelcrypt::HashVal([0x5cu8; 32]))),
        ),
    ] {
        let refused: melwallet::PrepareTxError<std::convert::Infallible> =
            melwallet::PrepareTxError::InsufficientFunds(outside);
        assert_eq!(lacking(&refused.to_string()), Some(denom));
    }
}

#[test]
fn other_messages_name_nothing() {
    for message in [
        "",
        "timeout",
        "not enough money",
        "not enough money (more of  needed)",
        "not enough money (more of mel needed)",
        "not enough money (more of MELS needed)",
        "not enough money (more of MEL needed) ",
        " not enough money (more of MEL needed)",
        "not enough money (more of needed)",
        "not enough money (more of M\u{c9}L needed)",
    ] {
        assert_eq!(lacking(&message.to_string()), None);
    }
    assert_eq!(lacking(&text(&format!("CUSTOM-{}", "A7".repeat(32)))), None);
    assert_eq!(lacking(&text(&format!("CUSTOM-{}", "a7".repeat(31)))), None);
    assert_eq!(lacking(&text(&format!("CUSTOM-{}", "a7".repeat(33)))), None);
    assert_eq!(lacking(&text(&format!("CUSTOM_{}", "a7".repeat(32)))), None);
    assert_eq!(lacking(&text(&format!("CUSTOM-{}g", "a".repeat(63)))), None);
}
