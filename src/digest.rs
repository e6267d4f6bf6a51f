use octavo::digest::sha3::Sha512;
use octavo::digest::Digest;
use vstd::prelude::*;

verus! {

/// The SHA3-512 digest of a byte sequence, as octavo computes it.
pub uninterp spec fn sha3_512_of(data: Seq<u8>) -> Seq<u8>;

/// Relies on octavo's `sha3::Sha512` (`update`, then `result`): it hashes
/// the bytes and writes its 64 output bytes.
#[verifier::external_body]
fn sha3_512(data: &[u8]) -> (r: Vec<u8>)
    ensures
        r@ == sha3_512_of(data@),
        r@.len() == 64,
{
    let mut output = vec![0u8; Sha512::output_bytes()];
    let mut hash = Sha512::default();
    hash.update(data);
    hash.result(&mut output);
    output
}

/// The upper-case hexadecimal digit for a value below sixteen.
pub open spec fn hex_digit(v: u8) -> char {
    if v < 10 {
        (('0' as u8) + v) as char
    } else {
        (('A' as u8) + (v - 10)) as char
    }
}

/// Every byte rendered as exactly two upper-case hexadecimal digits.
pub open spec fn hex_upper(bytes: Seq<u8>) -> Seq<char>
    decreases bytes.len(),
{
    if bytes.len() == 0 {
        Seq::empty()
    } else {
        let b = bytes.last();
        hex_upper(bytes.drop_last()) + seq![hex_digit(b / 16), hex_digit(b % 16)]
    }
}

/// The rendered signature of an archive's bytes.
pub open spec fn spec_signature(data: Seq<u8>) -> Seq<char> {
    hex_upper(sha3_512_of(data))
}

pub open spec fn is_hex_char(c: char) -> bool {
    ('0' <= c && c <= '9') || ('A' <= c && c <= 'F')
}

pub proof fn lemma_hex_upper_len(bytes: Seq<u8>)
    ensures
        hex_upper(bytes).len() == 2 * bytes.len(),
    decreases bytes.len(),
{
    if bytes.len() > 0 {
        lemma_hex_upper_len(bytes.drop_last());
    }
}

pub proof fn lemma_hex_upper_chars(bytes: Seq<u8>)
    ensures
        forall|i: int| 0 <= i < hex_upper(bytes).len() ==> is_hex_char(#[trigger] hex_upper(bytes)[i]),
    decreases bytes.len(),
{
    if bytes.len() > 0 {
        lemma_hex_upper_chars(bytes.drop_last());
        let b = bytes.last();
        let prev = hex_upper(bytes.drop_last());
        let tail = seq![hex_digit(b / 16), hex_digit(b % 16)];
        assert(is_hex_char(hex_digit(b / 16)));
        assert(is_hex_char(hex_digit(b % 16)));
        assert forall|i: int| 0 <= i < hex_upper(bytes).len() implies is_hex_char(
            #[trigger] hex_upper(bytes)[i],
        ) by {
            if i < prev.len() {
                assert(hex_upper(bytes)[i] == prev[i]);
            } else {
                assert(hex_upper(bytes)[i] == tail[i - prev.len()]);
            }
        }
    }
}

fn push_hex_digit(s: &mut String, v: u8)
    requires
        v < 16,
    ensures
        final(s)@ == old(s)@.push(hex_digit(v)),
{
    let d: &str = match v {
        0 => "0",
        1 => "1",
        2 => "2",
        3 => "3",
        4 => "4",
        5 => "5",
        6 => "6",
        7 => "7",
        8 => "8",
        9 => "9",
        10 => "A",
        11 => "B",
        12 => "C",
        13 => "D",
        14 => "E",
        _ => "F",
    };
    proof {
        reveal_strlit("0");
        reveal_strlit("1");
        reveal_strlit("2");
        reveal_strlit("3");
        reveal_strlit("4");
        reveal_strlit("5");
        reveal_strlit("6");
        reveal_strlit("7");
        reveal_strlit("8");
        reveal_strlit("9");
        reveal_strlit("A");
        reveal_strlit("B");
        reveal_strlit("C");
        reveal_strlit("D");
        reveal_strlit("E");
        reveal_strlit("F");
    }
    s.append(d);
    assert(final(s)@ =~= old(s)@.push(hex_digit(v)));
}

/// Renders bytes as two upper-case hexadecimal digits each, so that
/// different byte sequences never render alike.
pub fn encode_hex(bytes: &[u8]) -> (r: String)
    ensures
        r@ == hex_upper(bytes@),
{
    let mut s = String::new();
    let mut i: usize = 0;
    while i < bytes.len()
        invariant
            0 <= i <= bytes@.len(),
            s@ == hex_upper(bytes@.subrange(0, i as int)),
        decreases bytes@.len() - i,
    {
        let b = bytes[i];
        push_hex_digit(&mut s, b / 16);
        push_hex_digit(&mut s, b % 16);
        proof {
            let next = bytes@.subrange(0, i + 1);
            assert(next.drop_last() =~= bytes@.subrange(0, i as int));
            assert(next.last() == b);
        }
        i = i + 1;
    }
    assert(bytes@.subrange(0, bytes@.len() as int) =~= bytes@);
    s
}

/// The signature of an archive: its SHA3-512 digest in hexadecimal.
pub fn signature_of(data: &[u8]) -> (r: String)
    ensures
        r@ == spec_signature(data@),
        r@.len() == 128,
{
    let digest = sha3_512(data);
    proof {
        lemma_hex_upper_len(digest@);
    }
    encode_hex(digest.as_slice())
}

} // verus!
