//! Kind-tagged identifiers.
//!
//! An identifier is a 128-bit value tagged with the entity kind that owns it,
//! so that a contact id can never stand where a deal id is expected. The
//! string form is `"{prefix}_{value}"`, where the prefix names the kind and
//! the value is the canonical encoding of the 128 bits as exactly 32 lowercase
//! hexadecimal digits. The all-zero value of each kind is the sentinel that
//! stands for "before the first row" in cursor pagination.

use vstd::prelude::*;

use crate::errors::ServiceError;

verus! {

/// The entity kinds that own identifiers, one per table.
#[derive(Clone, Copy, PartialEq, Eq, Structural, Debug)]
pub enum IdKind {
    User,
    Org,
    OrgUser,
    Contact,
    Deal,
    DealContact,
    Note,
    Link,
    Email,
    Phone,
    Task,
    Company,
    TaskDeal,
    TaskLink,
    TaskUser,
}

/// A 128-bit identifier tagged with its owning entity kind. Two identifiers
/// are equal only when both the kind and the value match.
#[derive(Clone, Copy, PartialEq, Eq, Structural, Debug)]
pub struct TypedId {
    pub kind: IdKind,
    pub value: u128,
}

/// The string prefix of each kind, as a character sequence. No prefix holds
/// an underscore, which separates the prefix from the value portion.
pub open spec fn prefix_chars(kind: IdKind) -> Seq<char> {
    match kind {
        IdKind::User => seq!['u', 's', 'e', 'r'],
        IdKind::Org => seq!['o', 'r', 'g'],
        IdKind::OrgUser => seq!['o', 'r', 'g', 'u', 's', 'e', 'r'],
        IdKind::Contact => seq!['c', 'o', 'n', 't', 'a', 'c', 't'],
        IdKind::Deal => seq!['d', 'e', 'a', 'l'],
        IdKind::DealContact => seq!['d', 'e', 'a', 'l', 'c', 'o', 'n', 't', 'a', 'c', 't'],
        IdKind::Note => seq!['n', 'o', 't', 'e'],
        IdKind::Link => seq!['l', 'i', 'n', 'k'],
        IdKind::Email => seq!['e', 'm', 'a', 'i', 'l'],
        IdKind::Phone => seq!['p', 'h', 'o', 'n', 'e'],
        IdKind::Task => seq!['t', 'a', 's', 'k'],
        IdKind::Company => seq!['c', 'o', 'm', 'p', 'a', 'n', 'y'],
        IdKind::TaskDeal => seq!['t', 'a', 's', 'k', 'd', 'e', 'a', 'l'],
        IdKind::TaskLink => seq!['t', 'a', 's', 'k', 'l', 'i', 'n', 'k'],
        IdKind::TaskUser => seq!['t', 'a', 's', 'k', 'u', 's', 'e', 'r'],
    }
}

/// Every prefix is short; the string form therefore always fits in memory.
pub proof fn lemma_prefix_len(kind: IdKind)
    ensures
        1 <= prefix_chars(kind).len() <= 11,
{
    match kind {
        IdKind::User => assert(prefix_chars(kind).len() == 4),
        IdKind::Org => assert(prefix_chars(kind).len() == 3),
        IdKind::OrgUser => assert(prefix_chars(kind).len() == 7),
        IdKind::Contact => assert(prefix_chars(kind).len() == 7),
        IdKind::Deal => assert(prefix_chars(kind).len() == 4),
        IdKind::DealContact => assert(prefix_chars(kind).len() == 11),
        IdKind::Note => assert(prefix_chars(kind).len() == 4),
        IdKind::Link => assert(prefix_chars(kind).len() == 4),
        IdKind::Email => assert(prefix_chars(kind).len() == 5),
        IdKind::Phone => assert(prefix_chars(kind).len() == 5),
        IdKind::Task => assert(prefix_chars(kind).len() == 4),
        IdKind::Company => assert(prefix_chars(kind).len() == 7),
        IdKind::TaskDeal => assert(prefix_chars(kind).len() == 8),
        IdKind::TaskLink => assert(prefix_chars(kind).len() == 8),
        IdKind::TaskUser => assert(prefix_chars(kind).len() == 8),
    }
}

/// The prefix of a kind, as a string slice.
pub fn prefix_str(kind: IdKind) -> (s: &'static str)
    ensures
        s@ == prefix_chars(kind),
        s.is_ascii(),
{
    match kind {
        IdKind::User => {
            proof { reveal_strlit("user"); }
            "user"
        },
        IdKind::Org => {
            proof { reveal_strlit("org"); }
            "org"
        },
        IdKind::OrgUser => {
            proof { reveal_strlit("orguser"); }
            "orguser"
        },
        IdKind::Contact => {
            proof { reveal_strlit("contact"); }
            "contact"
        },
        IdKind::Deal => {
            proof { reveal_strlit("deal"); }
            "deal"
        },
        IdKind::DealContact => {
            proof { reveal_strlit("dealcontact"); }
            "dealcontact"
        },
        IdKind::Note => {
            proof { reveal_strlit("note"); }
            "note"
        },
        IdKind::Link => {
            proof { reveal_strlit("link"); }
            "link"
        },
        IdKind::Email => {
            proof { reveal_strlit("email"); }
            "email"
        },
        IdKind::Phone => {
            proof { reveal_strlit("phone"); }
            "phone"
        },
        IdKind::Task => {
            proof { reveal_strlit("task"); }
            "task"
        },
        IdKind::Company => {
            proof { reveal_strlit("company"); }
            "company"
        },
        IdKind::TaskDeal => {
            proof { reveal_strlit("taskdeal"); }
            "taskdeal"
        },
        IdKind::TaskLink => {
            proof { reveal_strlit("tasklink"); }
            "tasklink"
        },
        IdKind::TaskUser => {
            proof { reveal_strlit("taskuser"); }
            "taskuser"
        },
    }
}

/// The character for one hexadecimal digit value.
pub open spec fn nibble_char(n: u8) -> char {
    if n == 0 { '0' }
    else if n == 1 { '1' }
    else if n == 2 { '2' }
    else if n == 3 { '3' }
    else if n == 4 { '4' }
    else if n == 5 { '5' }
    else if n == 6 { '6' }
    else if n == 7 { '7' }
    else if n == 8 { '8' }
    else if n == 9 { '9' }
    else if n == 10 { 'a' }
    else if n == 11 { 'b' }
    else if n == 12 { 'c' }
    else if n == 13 { 'd' }
    else if n == 14 { 'e' }
    else { 'f' }
}

/// Whether a character is a lowercase hexadecimal digit, the only characters
/// the canonical value encoding uses.
pub open spec fn is_hex_char(c: char) -> bool {
    ||| c == '0' ||| c == '1' ||| c == '2' ||| c == '3'
    ||| c == '4' ||| c == '5' ||| c == '6' ||| c == '7'
    ||| c == '8' ||| c == '9' ||| c == 'a' ||| c == 'b'
    ||| c == 'c' ||| c == 'd' ||| c == 'e' ||| c == 'f'
}

/// The digit value of a lowercase hexadecimal character.
pub open spec fn nibble_val(c: char) -> u8 {
    if c == '0' { 0 }
    else if c == '1' { 1 }
    else if c == '2' { 2 }
    else if c == '3' { 3 }
    else if c == '4' { 4 }
    else if c == '5' { 5 }
    else if c == '6' { 6 }
    else if c == '7' { 7 }
    else if c == '8' { 8 }
    else if c == '9' { 9 }
    else if c == 'a' { 10 }
    else if c == 'b' { 11 }
    else if c == 'c' { 12 }
    else if c == 'd' { 13 }
    else if c == 'e' { 14 }
    else { 15 }
}

/// The last `n` hexadecimal digits of `v`, most significant first.
pub open spec fn hex_chars(v: u128, n: nat) -> Seq<char>
    decreases n,
{
    if n == 0 {
        Seq::<char>::empty()
    } else {
        hex_chars(v >> 4, (n - 1) as nat) + seq![nibble_char((v & 0xf) as u8)]
    }
}

/// The value that a sequence of hexadecimal digit characters encodes,
/// most significant first.
pub open spec fn hex_value(s: Seq<char>) -> u128
    decreases s.len(),
{
    if s.len() == 0 {
        0
    } else {
        (hex_value(s.drop_last()) << 4) | (nibble_val(s.last()) as u128)
    }
}

/// The canonical string form of an identifier: prefix, underscore, and the
/// value as exactly 32 lowercase hexadecimal digits.
pub open spec fn id_chars(id: TypedId) -> Seq<char> {
    prefix_chars(id.kind) + seq!['_'] + hex_chars(id.value, 32)
}

pub proof fn lemma_hex_chars_len(v: u128, n: nat)
    ensures
        hex_chars(v, n).len() == n,
    decreases n,
{
    if n > 0 {
        lemma_hex_chars_len(v >> 4, (n - 1) as nat);
    }
}

pub proof fn lemma_hex_chars_are_hex(v: u128, n: nat)
    ensures
        forall|i: int| 0 <= i < hex_chars(v, n).len() ==> is_hex_char(#[trigger] hex_chars(v, n)[i]),
    decreases n,
{
    if n > 0 {
        lemma_hex_chars_are_hex(v >> 4, (n - 1) as nat);
        lemma_hex_chars_len(v >> 4, (n - 1) as nat);
        assert((v & 0xf) < 16) by (bit_vector);
    }
}

proof fn lemma_shift_compose(v: u128, k: u128, k4: u128)
    requires
        k <= 124,
        k4 == k + 4,
    ensures
        (v >> k) >> 4 == v >> k4,
{
    assert((v >> k) >> 4 == v >> k4) by (bit_vector)
        requires k <= 124 && k4 == k + 4;
}

/// One hexadecimal digit as a string slice.
fn nibble_str(n: u8) -> (s: &'static str)
    requires
        n < 16,
    ensures
        s@ == seq![nibble_char(n)],
        s.is_ascii(),
{
    match n {
        0 => { proof { reveal_strlit("0"); } "0" },
        1 => { proof { reveal_strlit("1"); } "1" },
        2 => { proof { reveal_strlit("2"); } "2" },
        3 => { proof { reveal_strlit("3"); } "3" },
        4 => { proof { reveal_strlit("4"); } "4" },
        5 => { proof { reveal_strlit("5"); } "5" },
        6 => { proof { reveal_strlit("6"); } "6" },
        7 => { proof { reveal_strlit("7"); } "7" },
        8 => { proof { reveal_strlit("8"); } "8" },
        9 => { proof { reveal_strlit("9"); } "9" },
        10 => { proof { reveal_strlit("a"); } "a" },
        11 => { proof { reveal_strlit("b"); } "b" },
        12 => { proof { reveal_strlit("c"); } "c" },
        13 => { proof { reveal_strlit("d"); } "d" },
        14 => { proof { reveal_strlit("e"); } "e" },
        _ => { proof { reveal_strlit("f"); } "f" },
    }
}

/// The digit value of a character, or `None` when the character is not a
/// lowercase hexadecimal digit.
fn hex_char_val(c: char) -> (r: Option<u8>)
    ensures
        r == if is_hex_char(c) { Some(nibble_val(c)) } else { None::<u8> },
{
    match c {
        '0' => Some(0),
        '1' => Some(1),
        '2' => Some(2),
        '3' => Some(3),
        '4' => Some(4),
        '5' => Some(5),
        '6' => Some(6),
        '7' => Some(7),
        '8' => Some(8),
        '9' => Some(9),
        'a' => Some(10),
        'b' => Some(11),
        'c' => Some(12),
        'd' => Some(13),
        'e' => Some(14),
        'f' => Some(15),
        _ => None,
    }
}

impl TypedId {
    /// The sentinel identifier of a kind: the all-zero value, which orders
    /// before every stored row and serves as the default pagination cursor.
    pub fn zero(kind: IdKind) -> (r: TypedId)
        ensures
            r.kind == kind,
            r.value == 0,
    {
        TypedId { kind, value: 0 }
    }

    /// The canonical string form `"{prefix}_{value}"`.
    pub fn format(&self) -> (s: String)
        ensures
            s@ == id_chars(*self),
    {
        let mut s = String::from_str(prefix_str(self.kind));
        proof { reveal_strlit("_"); }
        s.append("_");
        assert(s@ =~= prefix_chars(self.kind) + seq!['_']);
        let v = self.value;
        let mut i: usize = 0;
        proof { lemma_hex_chars_len(v >> 128u128, 0); }
        while i < 32
            invariant
                i <= 32,
                s@ == prefix_chars(self.kind) + seq!['_'] + hex_chars(v >> ((128 - 4 * i) as u128), i as nat),
            decreases 32 - i,
        {
            let sh: u32 = (124 - 4 * i) as u32;
            let nib: u8 = ((v >> sh) & 0xf) as u8;
            proof {
                let vs = v >> sh;
                assert((vs & 0xf) < 16) by (bit_vector);
            }
            let ghost k: u128 = (124 - 4 * i) as u128;
            let ghost w = v >> k;
            proof {
                assert(v >> sh == v >> k);
                lemma_shift_compose(v, k, (k + 4) as u128);
            }
            s.append(nibble_str(nib));
            proof {
                assert(hex_chars(w, (i + 1) as nat) == hex_chars(w >> 4, i as nat) + seq![nibble_char((w & 0xf) as u8)]);
                assert(s@ =~= prefix_chars(self.kind) + seq!['_'] + hex_chars(v >> ((128 - 4 * (i + 1)) as u128), (i + 1) as nat));
            }
            i += 1;
        }
        proof {
            assert(v >> 0u128 == v) by (bit_vector);
        }
        s
    }
}

/// Whether a character sequence is a canonical value portion: exactly 32
/// lowercase hexadecimal digits.
pub open spec fn valid_hex_part(s: Seq<char>) -> bool {
    s.len() == 32 && forall|i: int| 0 <= i < 32 ==> is_hex_char(#[trigger] s[i])
}

/// What parsing a string as an identifier of a kind yields: the identifier
/// when the string is the kind's prefix, an underscore, and a canonical value
/// portion; `MalformedIdentifier` otherwise.
pub open spec fn parse_id(s: Seq<char>, kind: IdKind) -> Result<TypedId, ServiceError> {
    let p = prefix_chars(kind);
    if s.len() == p.len() + 33 && s.subrange(0, p.len() as int) == p && s[p.len() as int] == '_'
        && valid_hex_part(s.skip(p.len() as int + 1)) {
        Ok(TypedId { kind, value: hex_value(s.skip(p.len() as int + 1)) })
    } else {
        Err(ServiceError::MalformedIdentifier)
    }
}

impl TypedId {
    /// Parses the canonical string form of an identifier of the given kind.
    /// Fails with `MalformedIdentifier` when the prefix does not name `kind`
    /// or the value portion is not a canonical 128-bit encoding.
    pub fn parse(s: &str, kind: IdKind) -> (r: Result<TypedId, ServiceError>)
        ensures
            r == parse_id(s@, kind),
    {
        proof { lemma_prefix_len(kind); }
        let p = prefix_str(kind);
        let plen = p.unicode_len();
        let n = s.unicode_len();
        if n != plen + 33 {
            return Err(ServiceError::MalformedIdentifier);
        }
        let mut i: usize = 0;
        while i < plen
            invariant
                i <= plen,
                plen == prefix_chars(kind).len(),
                n == s@.len() && n == plen + 33,
                p@ == prefix_chars(kind),
                forall|j: int| 0 <= j < i ==> s@[j] == p@[j],
            decreases plen - i,
        {
            if s.get_char(i) != p.get_char(i) {
                proof {
                    assert(s@.subrange(0, plen as int) != prefix_chars(kind)) by {
                        assert(s@.subrange(0, plen as int)[i as int] == s@[i as int]);
                    }
                }
                return Err(ServiceError::MalformedIdentifier);
            }
            i += 1;
        }
        assert(s@.subrange(0, plen as int) =~= prefix_chars(kind));
        if s.get_char(plen) != '_' {
            return Err(ServiceError::MalformedIdentifier);
        }
        let ghost hex_part = s@.skip(plen as int + 1);
        proof { assert(hex_part.len() == 32); }
        let mut acc: u128 = 0;
        let mut j: usize = 0;
        while j < 32
            invariant
                j <= 32,
                plen == prefix_chars(kind).len(),
                n == s@.len() && n == plen + 33,
                hex_part == s@.skip(plen as int + 1),
                hex_part.len() == 32,
                acc == hex_value(hex_part.take(j as int)),
                forall|k: int| 0 <= k < j ==> is_hex_char(#[trigger] hex_part[k]),
            decreases 32 - j,
        {
            let c = s.get_char(plen + 1 + j);
            proof { assert(c == hex_part[j as int]); }
            match hex_char_val(c) {
                None => {
                    proof { assert(!valid_hex_part(hex_part)); }
                    return Err(ServiceError::MalformedIdentifier);
                },
                Some(d) => {
                    acc = (acc << 4u128) | (d as u128);
                    proof {
                        let t = hex_part.take(j as int + 1);
                        assert(t.drop_last() =~= hex_part.take(j as int));
                        assert(t.last() == hex_part[j as int]);
                    }
                },
            }
            j += 1;
        }
        proof {
            assert(hex_part.take(32) =~= hex_part);
        }
        Ok(TypedId { kind, value: acc })
    }

    /// Parses an optional identifier string: an absent input yields "no
    /// cursor" rather than an error. List endpoints use this to make the
    /// cursor parameter optional.
    pub fn parse_optional(s: Option<&str>, kind: IdKind) -> (r: Result<Option<TypedId>, ServiceError>)
        ensures
            r == match s {
                None => Ok::<Option<TypedId>, ServiceError>(None::<TypedId>),
                Some(t) => match parse_id(t@, kind) {
                    Ok(id) => Ok::<Option<TypedId>, ServiceError>(Some(id)),
                    Err(e) => Err::<Option<TypedId>, ServiceError>(e),
                },
            },
    {
        match s {
            None => Ok(None),
            Some(t) => match Self::parse(t, kind) {
                Ok(id) => Ok(Some(id)),
                Err(e) => Err(e),
            },
        }
    }
}

/// Relies on `uuid::Uuid::new_v4` for a fresh random 128-bit value; its body
/// masks in the version and variant bits, so those bits of the result are
/// always set and the value is never zero.
#[verifier::external_body]
pub(crate) fn fresh_u128() -> (r: u128)
    ensures
        r & 0x4000_8000_0000_0000_0000u128 == 0x4000_8000_0000_0000_0000u128,
{
    uuid::Uuid::new_v4().as_u128()
}

impl TypedId {
    /// A fresh identifier of a kind, with a random 128-bit value. Never
    /// fails, and never yields the zero sentinel.
    pub fn create(kind: IdKind) -> (r: TypedId)
        ensures
            r.kind == kind,
            r.value != 0,
    {
        let v = fresh_u128();
        proof {
            assert(v & 0x4000_8000_0000_0000_0000u128 == 0x4000_8000_0000_0000_0000u128 ==> v != 0)
                by (bit_vector);
        }
        TypedId { kind, value: v }
    }
}

/// The mask that keeps the low `k` bits of a 128-bit value.
spec fn low_mask(k: u128) -> u128 {
    !(!0u128 << k)
}

proof fn lemma_nibble_mask(v: u128, k: u128)
    requires
        k <= 120,
    ensures
        (((v >> 4) & low_mask(k)) << 4) | (v & 0xf) == v & low_mask((k + 4) as u128),
{
    let k4: u128 = (k + 4) as u128;
    assert((((v >> 4) & !(!0u128 << k)) << 4) | (v & 0xf) == v & !(!0u128 << k4))
        by (bit_vector)
        requires k <= 120 && k4 == k + 4;
}

proof fn lemma_nibble_full(v: u128)
    ensures
        (((v >> 4) & low_mask(124)) << 4) | (v & 0xf) == v,
{
    assert((((v >> 4) & !(!0u128 << 124u128)) << 4) | (v & 0xf) == v) by (bit_vector);
}

proof fn lemma_hex_value_of_chars(v: u128, n: nat)
    requires
        n <= 32,
    ensures
        n < 32 ==> hex_value(hex_chars(v, n)) == v & low_mask((4 * n) as u128),
        n == 32 ==> hex_value(hex_chars(v, n)) == v,
    decreases n,
{
    if n == 0 {
        assert(v & !(!0u128 << 0u128) == 0) by (bit_vector);
    } else {
        lemma_hex_value_of_chars(v >> 4, (n - 1) as nat);
        let tail = hex_chars(v >> 4, (n - 1) as nat);
        let h = hex_chars(v, n);
        let nib = (v & 0xf) as u8;
        assert(h.drop_last() =~= tail);
        assert(h.last() == nibble_char(nib));
        assert(v & 0xf < 16) by (bit_vector);
        assert(nibble_val(nibble_char(nib)) == nib);
        assert(hex_value(h) == (hex_value(tail) << 4) | (nib as u128));
        if n == 32 {
            lemma_nibble_full(v);
            assert((4 * (n - 1)) as u128 == 124u128);
        } else {
            lemma_nibble_mask(v, (4 * (n - 1)) as u128);
        }
    }
}

/// Round-trip stability of the string encoding: parsing the canonical form
/// of any identifier, for its own kind, yields that identifier back.
pub proof fn lemma_parse_format_roundtrip(id: TypedId)
    ensures
        parse_id(id_chars(id), id.kind) == Ok::<TypedId, ServiceError>(id),
{
    let p = prefix_chars(id.kind);
    let h = hex_chars(id.value, 32);
    let s = id_chars(id);
    lemma_hex_chars_len(id.value, 32);
    lemma_hex_chars_are_hex(id.value, 32);
    assert(s.subrange(0, p.len() as int) =~= p);
    assert(s[p.len() as int] == '_');
    assert(s.skip(p.len() as int + 1) =~= h);
    lemma_hex_value_of_chars(id.value, 32);
}

/// The kind whose prefix a character sequence is, if any. Distinct kinds
/// have distinct prefixes, which this mapping witnesses.
spec fn kind_of_prefix(s: Seq<char>) -> Option<IdKind> {
    if s == prefix_chars(IdKind::Org) { Some(IdKind::Org) }
    else if s == prefix_chars(IdKind::User) { Some(IdKind::User) }
    else if s == prefix_chars(IdKind::Note) { Some(IdKind::Note) }
    else if s == prefix_chars(IdKind::Link) { Some(IdKind::Link) }
    else if s == prefix_chars(IdKind::Task) { Some(IdKind::Task) }
    else if s == prefix_chars(IdKind::Deal) { Some(IdKind::Deal) }
    else if s == prefix_chars(IdKind::Email) { Some(IdKind::Email) }
    else if s == prefix_chars(IdKind::Phone) { Some(IdKind::Phone) }
    else if s == prefix_chars(IdKind::Contact) { Some(IdKind::Contact) }
    else if s == prefix_chars(IdKind::Company) { Some(IdKind::Company) }
    else if s == prefix_chars(IdKind::OrgUser) { Some(IdKind::OrgUser) }
    else if s == prefix_chars(IdKind::TaskDeal) { Some(IdKind::TaskDeal) }
    else if s == prefix_chars(IdKind::TaskLink) { Some(IdKind::TaskLink) }
    else if s == prefix_chars(IdKind::TaskUser) { Some(IdKind::TaskUser) }
    else if s == prefix_chars(IdKind::DealContact) { Some(IdKind::DealContact) }
    else { None }
}

proof fn lemma_prefix_facts()
    ensures
        prefix_chars(IdKind::Org).len() == 3,
        prefix_chars(IdKind::User).len() == 4,
        prefix_chars(IdKind::Note).len() == 4,
        prefix_chars(IdKind::Link).len() == 4,
        prefix_chars(IdKind::Task).len() == 4,
        prefix_chars(IdKind::Deal).len() == 4,
        prefix_chars(IdKind::Email).len() == 5,
        prefix_chars(IdKind::Phone).len() == 5,
        prefix_chars(IdKind::Contact).len() == 7,
        prefix_chars(IdKind::Company).len() == 7,
        prefix_chars(IdKind::OrgUser).len() == 7,
        prefix_chars(IdKind::TaskDeal).len() == 8,
        prefix_chars(IdKind::TaskLink).len() == 8,
        prefix_chars(IdKind::TaskUser).len() == 8,
        prefix_chars(IdKind::DealContact).len() == 11,
        prefix_chars(IdKind::User)[0] == 'u',
        prefix_chars(IdKind::Note)[0] == 'n',
        prefix_chars(IdKind::Link)[0] == 'l',
        prefix_chars(IdKind::Task)[0] == 't',
        prefix_chars(IdKind::Deal)[0] == 'd',
        prefix_chars(IdKind::Email)[0] == 'e',
        prefix_chars(IdKind::Phone)[0] == 'p',
        prefix_chars(IdKind::Contact)[0] == 'c',
        prefix_chars(IdKind::Company)[0] == 'c',
        prefix_chars(IdKind::OrgUser)[0] == 'o',
        prefix_chars(IdKind::Contact)[2] == 'n',
        prefix_chars(IdKind::Company)[2] == 'm',
        prefix_chars(IdKind::TaskDeal)[4] == 'd',
        prefix_chars(IdKind::TaskLink)[4] == 'l',
        prefix_chars(IdKind::TaskUser)[4] == 'u',
{
}

proof fn lemma_prefix_determines_kind(kind: IdKind)
    ensures
        kind_of_prefix(prefix_chars(kind)) == Some(kind),
{
    lemma_prefix_facts();
    match kind {
        IdKind::User => {},
        IdKind::Org => {},
        IdKind::OrgUser => {},
        IdKind::Contact => {},
        IdKind::Deal => {},
        IdKind::DealContact => {},
        IdKind::Note => {},
        IdKind::Link => {},
        IdKind::Email => {},
        IdKind::Phone => {},
        IdKind::Task => {},
        IdKind::Company => {},
        IdKind::TaskDeal => {},
        IdKind::TaskLink => {},
        IdKind::TaskUser => {},
    }
}

proof fn lemma_prefix_injective(a: IdKind, b: IdKind)
    requires
        prefix_chars(a) == prefix_chars(b),
    ensures
        a == b,
{
    lemma_prefix_determines_kind(a);
    lemma_prefix_determines_kind(b);
}

/// Cross-kind rejection: the canonical form of an identifier of one kind
/// never parses for another kind; it fails with `MalformedIdentifier`.
pub proof fn lemma_parse_wrong_kind(id: TypedId, other: IdKind)
    requires
        other != id.kind,
    ensures
        parse_id(id_chars(id), other) == Err::<TypedId, ServiceError>(ServiceError::MalformedIdentifier),
{
    let s = id_chars(id);
    let pa = prefix_chars(id.kind);
    let pb = prefix_chars(other);
    lemma_hex_chars_len(id.value, 32);
    if s.len() == pb.len() + 33 && s.subrange(0, pb.len() as int) == pb {
        assert(pa.len() == pb.len());
        assert(s.subrange(0, pa.len() as int) =~= pa);
        lemma_prefix_injective(id.kind, other);
    }
}

} // verus!
