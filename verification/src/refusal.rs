//! What a wallet says where money is short.

use vstd::prelude::*;

use crate::chain::Denom;

verus! {

/// Bytes as hexadecimal digits.
pub open spec fn hex(bytes: Seq<u8>) -> Seq<char> {
    Seq::new(
        2 * bytes.len(),
        |i: int|
            "0123456789abcdef"@[(if i % 2 == 0 {
                bytes[i / 2] / 16
            } else {
                bytes[i / 2] % 16
            }) as int],
    )
}

/// The name of a denomination.
pub open spec fn denom_name(denom: Denom) -> Seq<char> {
    match denom {
        Denom::Mel => "MEL"@,
        Denom::Sym => "SYM"@,
        Denom::Erg => "ERG"@,
        Denom::NewCustom => "(NEWCUSTOM)"@,
        Denom::Custom(hash) => "CUSTOM-"@ + hex(hash@),
    }
}

/// What is said where a denomination is lacking.
pub open spec fn shortage(denom: Denom) -> Seq<char> {
    "not enough money (more of "@ + denom_name(denom) + " needed)"@
}

/// Whether `word` stands in `text` at an index.
fn occurs_at(text: &str, at: usize, word: &str) -> (found: bool)
    requires
        at <= text@.len(),
    ensures
        found == (at + word@.len() <= text@.len() && text@.subrange(at as int, at + word@.len())
            == word@),
{
    let (total, length): (usize, usize) = (text.unicode_len(), word.unicode_len());
    if length > total - at {
        return false;
    }
    let mut i: usize = 0;
    while i < length
        invariant
            total == text@.len(),
            length == word@.len(),
            at <= total,
            i <= length <= total - at,
            forall|j: int| 0 <= j < i ==> text@[at + j] == #[trigger] word@[j],
        decreases length - i,
    {
        if text.get_char(at + i) != word.get_char(i) {
            assert(text@.subrange(at as int, at + length)[i as int] != word@[i as int]);
            return false;
        }
        i = i + 1;
    }
    assert(text@.subrange(at as int, at + length) =~= word@);
    true
}

/// Whether what stands in `text` between two indices is `word`.
fn is_between(text: &str, from: usize, to: usize, word: &str) -> (same: bool)
    requires
        from <= to <= text@.len(),
    ensures
        same == (text@.subrange(from as int, to as int) == word@),
{
    if to - from != word.unicode_len() {
        assert(text@.subrange(from as int, to as int).len() != word@.len());
        return false;
    }
    occurs_at(text, from, word)
}

/// The value of a hexadecimal digit.
fn read_digit(digit: char) -> (value: Option<u8>)
    ensures
        match value {
            Some(value) => value < 16 && "0123456789abcdef"@[value as int] == digit,
            None => forall|i: int| 0 <= i < 16 ==> #[trigger] "0123456789abcdef"@[i] != digit,
        },
{
    let digits: &str = "0123456789abcdef";
    proof {
        reveal_strlit("0123456789abcdef");
    }
    let mut i: u8 = 0;
    while i < 16
        invariant
            i <= 16,
            digits@ == "0123456789abcdef"@,
            digits@.len() == 16,
            forall|j: int| 0 <= j < i ==> #[trigger] "0123456789abcdef"@[j] != digit,
        decreases 16 - i,
    {
        if digits.get_char(i as usize) == digit {
            return Some(i);
        }
        i = i + 1;
    }
    None
}

/// The 32 bytes that stand in `text` at an index as hexadecimal digits.
fn read_hex(text: &str, from: usize) -> (hash: Option<[u8; 32]>)
    requires
        from + 64 <= text@.len(),
    ensures
        match hash {
            Some(hash) => text@.subrange(from as int, from + 64) == hex(hash@),
            None => forall|hash: [u8; 32]|
                text@.subrange(from as int, from + 64) != #[trigger] hex(hash@),
        },
{
    let ghost digits = text@.subrange(from as int, from + 64);
    let total: usize = text.unicode_len();
    let mut hash: [u8; 32] = [0u8; 32];
    let mut i: usize = 0;
    while i < 32
        invariant
            i <= 32,
            total == text@.len(),
            from + 64 <= total,
            digits == text@.subrange(from as int, from + 64),
            forall|j: int|
                0 <= j < i ==> {
                    &&& digits[2 * j] == "0123456789abcdef"@[(#[trigger] hash[j] / 16) as int]
                    &&& digits[2 * j + 1] == "0123456789abcdef"@[(hash[j] % 16) as int]
                },
        decreases 32 - i,
    {
        let (high, low) = (read_digit(text.get_char(from + 2 * i)), read_digit(
            text.get_char(from + 2 * i + 1),
        ));
        assert(digits[2 * i] == text@[from + 2 * i]);
        assert(digits[2 * i + 1] == text@[from + 2 * i + 1]);
        match (high, low) {
            (Some(high), Some(low)) => {
                hash[i] = high * 16 + low;
                assert((high * 16 + low) / 16 == high && (high * 16 + low) % 16 == low);
            },
            _ => {
                assert forall|other: [u8; 32]| digits != #[trigger] hex(other@) by {
                    if digits == hex(other@) {
                        assert(hex(other@)[2 * i] == "0123456789abcdef"@[(other@[i as int]
                            / 16) as int]);
                        assert(hex(other@)[2 * i + 1] == "0123456789abcdef"@[(other@[i as int]
                            % 16) as int]);
                    }
                }
                return None;
            },
        }
        i = i + 1;
    }
    assert forall|k: int| 0 <= k < 64 implies digits[k] == hex(hash@)[k] by {
        let j = k / 2;
        assert(0 <= j < 32 && (k == 2 * j || k == 2 * j + 1));
        assert(hash[j] == hash@[j]);
    }
    assert(digits =~= hex(hash@));
    Some(hash)
}

/// The denomination whose name stands in `text` between two indices.
fn read_denom(text: &str, from: usize, to: usize) -> (denom: Option<Denom>)
    requires
        from <= to <= text@.len(),
    ensures
        match denom {
            Some(denom) => text@.subrange(from as int, to as int) == denom_name(denom),
            None => forall|denom: Denom|
                text@.subrange(from as int, to as int) != #[trigger] denom_name(denom),
        },
{
    if is_between(text, from, to, "MEL") {
        return Some(Denom::Mel);
    }
    if is_between(text, from, to, "SYM") {
        return Some(Denom::Sym);
    }
    if is_between(text, from, to, "ERG") {
        return Some(Denom::Erg);
    }
    if is_between(text, from, to, "(NEWCUSTOM)") {
        return Some(Denom::NewCustom);
    }
    let ghost name = text@.subrange(from as int, to as int);
    proof {
        reveal_strlit("CUSTOM-");
        assert forall|hash: [u8; 32]|
            name == #[trigger] denom_name(Denom::Custom(hash)) implies name.len() == 71
            && name.subrange(0, 7) == "CUSTOM-"@ && name.subrange(7, 71) == hex(hash@) by {
            assert(name.subrange(0, 7) =~= "CUSTOM-"@);
            assert(name.subrange(7, 71) =~= hex(hash@));
        }
    }
    if to - from == 71 && occurs_at(text, from, "CUSTOM-") {
        assert(name.subrange(0, 7) =~= text@.subrange(from as int, from + 7));
        assert(name.subrange(7, 71) =~= text@.subrange(from + 7, from + 71));
        if let Some(hash) = read_hex(text, from + 7) {
            assert(name =~= "CUSTOM-"@ + hex(hash@));
            return Some(Denom::Custom(hash));
        }
    } else if to - from == 71 {
        assert(name.subrange(0, 7) =~= text@.subrange(from as int, from + 7));
    }
    assert forall|denom: Denom| name != #[trigger] denom_name(denom) by {
        if let Denom::Custom(hash) = denom {
            assert(name == denom_name(Denom::Custom(hash)) ==> name.subrange(7, 71) == hex(hash@));
        }
    }
    None
}

/// The denomination that a wallet's refusal names as lacking, where the message is one.
pub fn lacking(message: &String) -> (denom: Option<Denom>)
    ensures
        match denom {
            Some(denom) => message@ == shortage(denom),
            None => forall|denom: Denom| message@ != #[trigger] shortage(denom),
        },
{
    let text: &str = message.as_str();
    let total: usize = text.unicode_len();
    let ghost all = text@;
    proof {
        reveal_strlit("not enough money (more of ");
        reveal_strlit(" needed)");
        assert forall|denom: Denom| all == #[trigger] shortage(denom) implies all.len() >= 34
            && all.subrange(0, 26) == "not enough money (more of "@ && all.subrange(
            all.len() - 8,
            all.len() as int,
        ) == " needed)"@ && all.subrange(26, all.len() - 8) == denom_name(denom) by {
            assert(all.subrange(0, 26) =~= "not enough money (more of "@);
            assert(all.subrange(all.len() - 8, all.len() as int) =~= " needed)"@);
            assert(all.subrange(26, all.len() - 8) =~= denom_name(denom));
        }
    }
    if total < 34 || !occurs_at(text, 0, "not enough money (more of ") || !occurs_at(
        text,
        total - 8,
        " needed)",
    ) {
        return None;
    }
    match read_denom(text, 26, total - 8) {
        Some(denom) => {
            assert(all =~= all.subrange(0, 26) + all.subrange(26, total - 8) + all.subrange(
                total - 8,
                total as int,
            ));
            Some(denom)
        },
        None => None,
    }
}

/// Each byte is written in two digits, the higher first: below ten by the numeral, and above by the
/// letter.
pub proof fn law_bytes_are_written_in_two_digits(bytes: Seq<u8>, i: int)
    requires
        0 <= i < bytes.len(),
    ensures
        hex(bytes).len() == 2 * bytes.len(),
        ({
            let (high, low) = (hex(bytes)[2 * i] as int, hex(bytes)[2 * i + 1] as int);
            let value = |digit: int|
                if digit <= '9' as int {
                    digit - '0' as int
                } else {
                    digit - 'a' as int + 10
                };
            &&& ('0' as int <= high <= '9' as int || 'a' as int <= high <= 'f' as int)
            &&& ('0' as int <= low <= '9' as int || 'a' as int <= low <= 'f' as int)
            &&& bytes[i] == 16 * value(high) + value(low)
        }),
{
    reveal_strlit("0123456789abcdef");
    let (high, low) = (bytes[i] / 16, bytes[i] % 16);
    assert(hex(bytes)[2 * i] == "0123456789abcdef"@[high as int]);
    assert(hex(bytes)[2 * i + 1] == "0123456789abcdef"@[low as int]);
}

/// What is said of a built-in denomination, in full.
pub proof fn law_shortages_name_the_denomination(denom: Denom)
    ensures
        denom == Denom::Mel ==> shortage(denom) == "not enough money (more of MEL needed)"@,
        denom == Denom::Sym ==> shortage(denom) == "not enough money (more of SYM needed)"@,
        denom == Denom::Erg ==> shortage(denom) == "not enough money (more of ERG needed)"@,
        denom == Denom::NewCustom ==> shortage(denom)
            == "not enough money (more of (NEWCUSTOM) needed)"@,
        denom matches Denom::Custom(hash) ==> shortage(denom)
            == "not enough money (more of CUSTOM-"@ + hex(hash@) + " needed)"@,
{
    reveal_strlit("not enough money (more of ");
    reveal_strlit(" needed)");
    reveal_strlit("MEL");
    reveal_strlit("SYM");
    reveal_strlit("ERG");
    reveal_strlit("(NEWCUSTOM)");
    reveal_strlit("CUSTOM-");
    reveal_strlit("not enough money (more of MEL needed)");
    reveal_strlit("not enough money (more of SYM needed)");
    reveal_strlit("not enough money (more of ERG needed)");
    reveal_strlit("not enough money (more of (NEWCUSTOM) needed)");
    reveal_strlit("not enough money (more of CUSTOM-");
    match denom {
        Denom::Mel => assert(shortage(denom) =~= "not enough money (more of MEL needed)"@),
        Denom::Sym => assert(shortage(denom) =~= "not enough money (more of SYM needed)"@),
        Denom::Erg => assert(shortage(denom) =~= "not enough money (more of ERG needed)"@),
        Denom::NewCustom => assert(shortage(denom)
            =~= "not enough money (more of (NEWCUSTOM) needed)"@),
        Denom::Custom(hash) => assert(shortage(denom) =~= "not enough money (more of CUSTOM-"@
            + hex(hash@) + " needed)"@),
    }
}

} // verus!
