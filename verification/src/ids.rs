//! Random identifiers and their text form.
use vstd::prelude::*;

verus! {

/// A fresh random identifier: the 16 bytes of `uuid::Uuid::new_v4()`, from
/// `as_bytes`. Nothing is promised of the bytes but their number.
#[verifier::external_body]
pub(crate) fn new_uuid_bytes() -> (id: Vec<u8>)
    ensures
        id@.len() == 16,
{
    uuid::Uuid::new_v4().as_bytes().to_vec()
}

/// The lowercase hexadecimal digit for `d < 16`.
pub open spec fn hex_char(d: nat) -> char {
    if d == 0 {
        '0'
    } else if d == 1 {
        '1'
    } else if d == 2 {
        '2'
    } else if d == 3 {
        '3'
    } else if d == 4 {
        '4'
    } else if d == 5 {
        '5'
    } else if d == 6 {
        '6'
    } else if d == 7 {
        '7'
    } else if d == 8 {
        '8'
    } else if d == 9 {
        '9'
    } else if d == 10 {
        'a'
    } else if d == 11 {
        'b'
    } else if d == 12 {
        'c'
    } else if d == 13 {
        'd'
    } else if d == 14 {
        'e'
    } else {
        'f'
    }
}

/// The two hexadecimal digits of a byte.
pub open spec fn byte_hex(b: u8) -> Seq<char> {
    seq![hex_char((b / 16) as nat), hex_char((b % 16) as nat)]
}

/// The text of the first `n` bytes of an identifier: two hexadecimal digits a
/// byte, with a hyphen before the bytes numbered 4, 6, 8 and 10.
pub open spec fn uuid_text_upto(b: Seq<u8>, n: nat) -> Seq<char>
    decreases n,
{
    if n == 0 {
        Seq::empty()
    } else {
        let k = (n - 1) as nat;
        uuid_text_upto(b, k) + (if k == 4 || k == 6 || k == 8 || k == 10 {
            seq!['-']
        } else {
            Seq::empty()
        }) + byte_hex(b[k as int])
    }
}

/// The hyphenated text of a 16-byte identifier.
pub open spec fn uuid_text(b: Seq<u8>) -> Seq<char> {
    uuid_text_upto(b, 16)
}

fn hex_digit_text(d: u8) -> (s: String)
    requires
        d < 16,
    ensures
        s@ == seq![hex_char(d as nat)],
{
    let s = match d {
        0 => String::from_str("0"),
        1 => String::from_str("1"),
        2 => String::from_str("2"),
        3 => String::from_str("3"),
        4 => String::from_str("4"),
        5 => String::from_str("5"),
        6 => String::from_str("6"),
        7 => String::from_str("7"),
        8 => String::from_str("8"),
        9 => String::from_str("9"),
        10 => String::from_str("a"),
        11 => String::from_str("b"),
        12 => String::from_str("c"),
        13 => String::from_str("d"),
        14 => String::from_str("e"),
        _ => String::from_str("f"),
    };
    proof {
        reveal_strlit("0");
        reveal_strlit("1");
        reveal_strlit("2");
        reveal_strlit("3");
        reveal_strlit("4");
        reveal_strlit("5");
        reveal_strlit("6");
        reveal_strlit("7");
        reveal_strlit("8");
        reveal_strlit("9");
        reveal_strlit("a");
        reveal_strlit("b");
        reveal_strlit("c");
        reveal_strlit("d");
        reveal_strlit("e");
        reveal_strlit("f");
    }
    assert(s@ =~= seq![hex_char(d as nat)]);
    s
}

/// The hyphenated lowercase hexadecimal text of a 16-byte identifier, such as
/// `67e55044-10b1-426f-9247-bb680e5fe0c8`.
pub fn uuid_to_text(b: &Vec<u8>) -> (s: String)
    requires
        b@.len() == 16,
    ensures
        s@ == uuid_text(b@),
{
    let mut s = String::new();
    let mut i: usize = 0;
    while i < 16
        invariant
            i <= 16,
            b@.len() == 16,
            s@ == uuid_text_upto(b@, i as nat),
        decreases 16 - i,
    {
        let ghost before = s@;
        if i == 4 || i == 6 || i == 8 || i == 10 {
            s.append("-");
            proof {
                reveal_strlit("-");
            }
        }
        let ghost mid = s@;
        let hi = hex_digit_text(b[i] / 16);
        let lo = hex_digit_text(b[i] % 16);
        s.append(hi.as_str());
        s.append(lo.as_str());
        assert(s@ =~= mid + byte_hex(b@[i as int]));
        assert(mid =~= before + (if i == 4 || i == 6 || i == 8 || i == 10 {
            seq!['-']
        } else {
            Seq::empty()
        }));
        i = i + 1;
    }
    s
}

/// The text of a 16-byte identifier has 36 characters.
pub proof fn lemma_uuid_text_len(b: Seq<u8>)
    requires
        b.len() == 16,
    ensures
        uuid_text(b).len() == 36,
{
    reveal_with_fuel(uuid_text_upto, 17);
}

/// A fresh random identifier in its hyphenated text form (36 characters).
pub fn new_uuid_text() -> (s: String)
    ensures
        s@.len() == 36,
{
    let b = new_uuid_bytes();
    proof {
        lemma_uuid_text_len(b@);
    }
    uuid_to_text(&b)
}

} // verus!
