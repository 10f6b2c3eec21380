//! Commit identifiers.
//!
//! A workspace stores commits under their native identifier and presents them
//! to clients under a content-addressed one. Both are twenty-byte hashes; they
//! are kept as distinct types so that one is never taken for the other.

use vstd::prelude::*;

verus! {

/// Number of bytes in either kind of identifier.
pub const ID_LEN: usize = 20;

/// The version-control system's own identifier of a commit, as the entity
/// stores hold it.
#[derive(Clone, Copy, Debug, PartialEq, Eq, Hash)]
pub struct HgChangesetId {
    pub bytes: [u8; 20],
}

/// The content-addressed identifier of a commit, as client-facing payloads
/// carry it.
#[derive(Clone, Copy, Debug, PartialEq, Eq, Hash)]
pub struct HgId {
    pub bytes: [u8; 20],
}

/// Whether two byte arrays hold the same bytes.
fn same_bytes(a: &[u8; 20], b: &[u8; 20]) -> (r: bool)
    ensures
        r == (a@ == b@),
        r == (*a == *b),
{
    let mut i: usize = 0;
    while i < 20
        invariant
            i <= 20,
            forall|k: int| 0 <= k < i ==> a@[k] == b@[k],
        decreases 20 - i,
    {
        if a[i] != b[i] {
            return false;
        }
        i += 1;
    }
    assert(a@ =~= b@);
    assert(*a =~= *b);
    true
}

impl View for HgChangesetId {
    type V = Seq<u8>;

    open spec fn view(&self) -> Seq<u8> {
        self.bytes@
    }
}

impl View for HgId {
    type V = Seq<u8>;

    open spec fn view(&self) -> Seq<u8> {
        self.bytes@
    }
}

impl HgChangesetId {
    /// The identifier made of the given bytes.
    pub fn from_bytes(bytes: [u8; 20]) -> (id: Self)
        ensures
            id.bytes == bytes,
    {
        HgChangesetId { bytes }
    }

    /// Whether `self` and `other` name the same commit.
    pub fn same(&self, other: &Self) -> (r: bool)
        ensures
            r == (*self == *other),
            r == (self@ == other@),
    {
        same_bytes(&self.bytes, &other.bytes)
    }
}

impl HgId {
    /// The content-addressed identifier that has the bytes of `commit`.
    pub open spec fn of_native(commit: HgChangesetId) -> HgId {
        HgId { bytes: commit.bytes }
    }

    /// Carries a native identifier over byte for byte. References that are
    /// not looked up in the commit mapping are presented this way.
    pub fn from_native(commit: HgChangesetId) -> (id: Self)
        ensures
            id == Self::of_native(commit),
    {
        HgId { bytes: commit.bytes }
    }

    /// The identifier made of the given bytes.
    pub fn from_bytes(bytes: [u8; 20]) -> (id: Self)
        ensures
            id.bytes == bytes,
    {
        HgId { bytes }
    }

    /// Whether `self` and `other` name the same commit.
    pub fn same(&self, other: &Self) -> (r: bool)
        ensures
            r == (*self == *other),
            r == (self@ == other@),
    {
        same_bytes(&self.bytes, &other.bytes)
    }
}

/// The hexadecimal digit, in lower case, of a number below sixteen.
pub open spec fn hex_char(nibble: int) -> char {
    if nibble == 0 {
        '0'
    } else if nibble == 1 {
        '1'
    } else if nibble == 2 {
        '2'
    } else if nibble == 3 {
        '3'
    } else if nibble == 4 {
        '4'
    } else if nibble == 5 {
        '5'
    } else if nibble == 6 {
        '6'
    } else if nibble == 7 {
        '7'
    } else if nibble == 8 {
        '8'
    } else if nibble == 9 {
        '9'
    } else if nibble == 10 {
        'a'
    } else if nibble == 11 {
        'b'
    } else if nibble == 12 {
        'c'
    } else if nibble == 13 {
        'd'
    } else if nibble == 14 {
        'e'
    } else {
        'f'
    }
}

/// The bytes written in hexadecimal: two digits for each byte, the high half
/// first.
pub open spec fn hex_of(bytes: Seq<u8>) -> Seq<char> {
    Seq::new(
        2 * bytes.len(),
        |i: int|
            if i % 2 == 0 {
                hex_char(bytes[i / 2] as int / 16)
            } else {
                hex_char(bytes[i / 2] as int % 16)
            },
    )
}

/// The hexadecimal digit of `nibble` as a string of one character.
fn hex_digit(nibble: u8) -> (digit: &'static str)
    requires
        nibble < 16,
    ensures
        digit@ == seq![hex_char(nibble as int)],
{
    proof {
        reveal_strlit("0");
        reveal_strlit("1");
        reveal_strlit("2");
        reveal_strlit("3");
        reveal_strlit("4");
        reveal_strlit("5");
        reveal_strlit("6");
        reveal_strlit("7");
        reveal_strlit("8");
        reveal_strlit("9");
        reveal_strlit("a");
        reveal_strlit("b");
        reveal_strlit("c");
        reveal_strlit("d");
        reveal_strlit("e");
        reveal_strlit("f");
    }
    let digit = match nibble {
        0 => "0",
        1 => "1",
        2 => "2",
        3 => "3",
        4 => "4",
        5 => "5",
        6 => "6",
        7 => "7",
        8 => "8",
        9 => "9",
        10 => "a",
        11 => "b",
        12 => "c",
        13 => "d",
        14 => "e",
        _ => "f",
    };
    assert(digit@ =~= seq![hex_char(nibble as int)]);
    digit
}

/// Appends the twenty bytes to `text` in hexadecimal.
pub fn append_hex(text: &mut String, bytes: &[u8; 20])
    ensures
        final(text)@ == old(text)@ + hex_of(bytes@),
{
    let mut i: usize = 0;
    while i < 20
        invariant
            i <= 20,
            text@ == old(text)@ + hex_of(bytes@).take(2 * i as int),
        decreases 20 - i,
    {
        let byte = bytes[i];
        text.append(hex_digit(byte / 16));
        text.append(hex_digit(byte % 16));
        i += 1;
        assert(text@ =~= old(text)@ + hex_of(bytes@).take(2 * i as int));
    }
    assert(hex_of(bytes@).take(40) =~= hex_of(bytes@));
}

impl HgChangesetId {
    /// The identifier in hexadecimal, forty digits in lower case.
    pub fn to_hex(&self) -> (text: String)
        ensures
            text@ == hex_of(self@),
    {
        let mut text = String::new();
        append_hex(&mut text, &self.bytes);
        text
    }
}

impl HgId {
    /// The identifier in hexadecimal, forty digits in lower case.
    pub fn to_hex(&self) -> (text: String)
        ensures
            text@ == hex_of(self@),
    {
        let mut text = String::new();
        append_hex(&mut text, &self.bytes);
        text
    }
}

} // verus!
