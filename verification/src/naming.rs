//! Names of games: as folder names, and as the source of a colour.
use crate::launcher::Vault64App;
use vstd::prelude::*;
use vstd::string::*;
use vstd::utf8::encode_utf8;

verus! {

/// The characters that stay in a folder name: ASCII letters and digits, `-`,
/// `_` and the space.
pub open spec fn safe_char(c: char) -> bool {
    ||| 'a' <= c <= 'z'
    ||| 'A' <= c <= 'Z'
    ||| '0' <= c <= '9'
    ||| c == '-'
    ||| c == '_'
    ||| c == ' '
}

/// A name with `_` in place of each character that is not safe.
pub open spec fn safe(name: Seq<char>) -> Seq<char> {
    Seq::new(
        name.len(),
        |i: int|
            if safe_char(name[i]) {
                name[i]
            } else {
                '_'
            },
    )
}

/// A running hash of bytes: each step multiplies by 31 and adds a byte, modulo 2^32.
pub open spec fn byte_hash(bytes: Seq<u8>) -> int
    decreases bytes.len(),
{
    if bytes.len() == 0 {
        0
    } else {
        (byte_hash(bytes.drop_last()) * 31 + bytes.last()) % 0x1_0000_0000
    }
}

/// The hue of a name, in degrees: the hash of its UTF-8 bytes, modulo 360.
pub open spec fn hue_of(name: Seq<char>) -> int {
    byte_hash(encode_utf8(name)) % 360
}

impl Vault64App {
    /// The folder name of a game.
    pub fn safe_name(name: &str) -> (r: String)
        ensures
            r@ == safe(name@),
    {
        let mut r: String = String::new();
        for c in it: name.chars()
            invariant
                it.seq() == name@,
                r@ == safe(name@).take(it.index()),
        {
            let kept: char = if ('a' <= c && c <= 'z') || ('A' <= c && c <= 'Z') || ('0' <= c && c
                <= '9') || c == '-' || c == '_' || c == ' ' {
                c
            } else {
                '_'
            };
            r.push(kept);
            assert(safe(name@).take(it.index() + 1) == safe(name@).take(it.index()).push(kept));
        }
        assert(safe(name@).take(name@.len() as int) == safe(name@));
        r
    }

    /// The hue, in degrees, of the colour that marks a game.
    pub fn hash_hue(name: &str) -> (r: u32)
        ensures
            r == hue_of(name@),
            r < 360,
    {
        let bytes: &[u8] = name.as_bytes();
        let n: usize = bytes.len();
        let mut hash: u32 = 0;
        let mut i: usize = 0;
        let ghost all = bytes@;
        while i < n
            invariant
                i <= n == bytes@.len(),
                all == bytes@,
                hash == byte_hash(all.take(i as int)),
            decreases n - i,
        {
            assert(all.take(i + 1).drop_last() == all.take(i as int));
            assert(all.take(i + 1).last() == all[i as int]);
            hash = hash.wrapping_mul(31).wrapping_add(bytes[i] as u32);
            i += 1;
        }
        assert(all.take(n as int) == all);
        hash % 360
    }
}

/// A folder name has only safe characters, as many as the name had.
pub proof fn law_safe_name_is_safe(name: Seq<char>)
    ensures
        safe(name).len() == name.len(),
        forall|i: int| 0 <= i < name.len() ==> safe_char(#[trigger] safe(name)[i]),
{
}

/// A folder name is one name in a folder: it holds no separator and no dot, so
/// it leads neither into another folder nor up, nor onto a drive.
pub proof fn law_safe_name_is_one_component(name: Seq<char>)
    ensures
        !safe(name).contains('/'),
        !safe(name).contains('\\'),
        !safe(name).contains('.'),
        !safe(name).contains(':'),
{
    law_safe_name_is_safe(name);
}

/// A folder name is its own folder name, and a name of safe characters is kept.
pub proof fn law_safe_name_idempotent(name: Seq<char>)
    ensures
        safe(safe(name)) == safe(name),
        (forall|i: int| 0 <= i < name.len() ==> safe_char(#[trigger] name[i])) ==> safe(name)
            == name,
{
    assert forall|i: int| 0 <= i < name.len() implies safe(safe(name))[i] == safe(name)[i] by {
        assert(safe_char(safe(name)[i]));
    }
}

/// Each character of a folder name stands where it stood in the name: letters
/// and digits of ASCII, the space, `-` and `_` as they were, and `_` in the place
/// of any other.
pub proof fn law_safe_name_by_character(name: Seq<char>, i: int)
    requires
        0 <= i < name.len(),
    ensures
        ({
            let c = name[i];
            let kept = ('a' <= c <= 'z') || ('A' <= c <= 'Z') || ('0' <= c <= '9') || c == ' ' || c
                == '-' || c == '_';
            &&& kept ==> safe(name)[i] == c
            &&& !kept ==> safe(name)[i] == '_'
        }),
{
}

/// The bytes of a name as digits to the base of 31.
pub open spec fn base_31(bytes: Seq<u8>) -> int
    decreases bytes.len(),
{
    if bytes.len() == 0 {
        0
    } else {
        31 * base_31(bytes.drop_last()) + bytes.last()
    }
}

/// The hash of bytes is the number that they denote to the base of 31, as far as
/// 32 bits hold it; the hue of a name is the hash of its bytes, around the
/// circle.
pub proof fn law_hue_of_the_bytes(bytes: Seq<u8>, name: Seq<char>)
    ensures
        byte_hash(bytes) == base_31(bytes) % 0x1_0000_0000,
        0 <= hue_of(name) < 360,
        exists|turns: int| #[trigger]
            (360 * turns) + hue_of(name) == base_31(encode_utf8(name)) % 0x1_0000_0000,
    decreases bytes.len(),
{
    lemma_hash(bytes);
    lemma_hash(encode_utf8(name));
    let h = base_31(encode_utf8(name)) % 0x1_0000_0000;
    assert((360 * (h / 360)) + hue_of(name) == h);
}

proof fn lemma_hash(bytes: Seq<u8>)
    ensures
        byte_hash(bytes) == base_31(bytes) % 0x1_0000_0000,
    decreases bytes.len(),
{
    if bytes.len() > 0 {
        lemma_hash(bytes.drop_last());
        let x = base_31(bytes.drop_last());
        let b = bytes.last() as int;
        assert(((x % 0x1_0000_0000) * 31 + b) % 0x1_0000_0000 == (31 * x + b) % 0x1_0000_0000);
    }
}

} // verus!
